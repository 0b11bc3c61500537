//! Aggregation topologies: which signatures are aggregated, and over how many
//! levels of recursion.

use vstd::prelude::*;

verus! {

/// The inverse rate, as a power of two, that every workload aggregates at.
pub const LOG_INV_RATE_PROD: usize = 2;

/// A node of an aggregation tree: it aggregates `raw_xmss` raw signatures
/// together with the proofs of its children.
pub struct AggregationTopology {
    pub raw_xmss: usize,
    pub children: Vec<AggregationTopology>,
    pub log_inv_rate: usize,
    pub overlap: usize,
}

/// The model of an [`AggregationTopology`].
#[verifier::ext_equal]
pub struct Topology {
    pub raw_xmss: nat,
    pub children: Seq<Topology>,
    pub log_inv_rate: nat,
    pub overlap: nat,
}

impl AggregationTopology {
    pub open spec fn model(self) -> Topology
        decreases self,
    {
        Topology {
            raw_xmss: self.raw_xmss as nat,
            children: Seq::new(
                self.children@.len(),
                |i: int|
                    if 0 <= i < self.children@.len() {
                        self.children@[i].model()
                    } else {
                        arbitrary()
                    },
            ),
            log_inv_rate: self.log_inv_rate as nat,
            overlap: self.overlap as nat,
        }
    }
}

impl View for AggregationTopology {
    type V = Topology;

    open spec fn view(&self) -> Topology {
        self.model()
    }
}

impl Clone for AggregationTopology {
    fn clone(&self) -> (copy: Self)
        ensures
            copy@ == self@,
            copy.raw_xmss == self.raw_xmss,
            copy.log_inv_rate == self.log_inv_rate,
            copy.overlap == self.overlap,
            copy.children@.len() == self.children@.len(),
            forall|i: int|
                0 <= i < self.children@.len() ==> (#[trigger] copy.children@[i])@
                    == self.children@[i]@,
        decreases self,
    {
        let mut children: Vec<AggregationTopology> = Vec::new();
        let count: usize = self.children.len();
        let mut i: usize = 0;
        while i < count
            invariant
                count == self.children@.len(),
                i <= count,
                children@.len() == i,
                forall|j: int| 0 <= j < i ==> (#[trigger] children@[j])@ == self.children@[j]@,
            decreases count - i,
        {
            let child = &self.children[i];
            children.push(child.clone());
            i = i + 1;
        }
        let copy = AggregationTopology {
            raw_xmss: self.raw_xmss,
            children,
            log_inv_rate: self.log_inv_rate,
            overlap: self.overlap,
        };
        assert(copy@.children =~= self@.children);
        copy
    }
}

/// The model of a node has the numbers of the node, and as its children the
/// models of the node's children, in their order.
pub proof fn law_model_is_faithful(topology: AggregationTopology)
    ensures
        topology@.raw_xmss == topology.raw_xmss,
        topology@.log_inv_rate == topology.log_inv_rate,
        topology@.overlap == topology.overlap,
        topology@.children.len() == topology.children@.len(),
        forall|i: int|
            0 <= i < topology.children@.len() ==> #[trigger] topology@.children[i]
                == topology.children@[i]@,
{
}

/// A leaf aggregator over `n` raw signatures.
pub open spec fn leaf(n: nat) -> Topology {
    Topology {
        raw_xmss: n,
        children: Seq::empty(),
        log_inv_rate: LOG_INV_RATE_PROD as nat,
        overlap: 0,
    }
}

/// A node without signatures of its own that combines `fan` copies of `child`.
pub open spec fn combine(fan: nat, child: Topology) -> Topology {
    Topology {
        raw_xmss: 0,
        children: Seq::new(fan, |i: int| child),
        log_inv_rate: LOG_INV_RATE_PROD as nat,
        overlap: 0,
    }
}

/// One leaf aggregator over `n` raw signatures.
pub open spec fn flat(n: nat) -> Topology {
    leaf(n)
}

/// A root that combines `fan` leaves of `n` signatures.
pub open spec fn tree(fan: nat, n: nat) -> Topology {
    combine(fan, leaf(n))
}

/// A root that combines `root_fan` mid-nodes, each of which combines `mid_fan`
/// leaves of `n` signatures.
pub open spec fn deep(root_fan: nat, mid_fan: nat, n: nat) -> Topology {
    combine(root_fan, combine(mid_fan, leaf(n)))
}

fn leaf_node(n: usize) -> (node: AggregationTopology)
    ensures
        node@ == leaf(n as nat),
{
    let node = AggregationTopology {
        raw_xmss: n,
        children: vec![],
        log_inv_rate: LOG_INV_RATE_PROD,
        overlap: 0,
    };
    assert(node@.children =~= Seq::<Topology>::empty());
    node
}

fn combine_nodes(fan: usize, child: AggregationTopology) -> (node: AggregationTopology)
    ensures
        node@ == combine(fan as nat, child@),
{
    let node = AggregationTopology {
        raw_xmss: 0,
        children: vec![child; fan],
        log_inv_rate: LOG_INV_RATE_PROD,
        overlap: 0,
    };
    assert forall|i: int| 0 <= i < fan implies (#[trigger] node.children@[i])@ == child@ by {
        assert(cloned(child, node.children@[i]));
    }
    assert(node@.children =~= combine(fan as nat, child@).children);
    node
}

/// The topology of the flat workload.
pub fn flat_topology(n: usize) -> (topology: AggregationTopology)
    ensures
        topology@ == flat(n as nat),
        topology.raw_xmss == n,
        topology.children@.len() == 0,
        topology.log_inv_rate == 2,
        topology.overlap == 0,
{
    let topology = leaf_node(n);
    proof {
        lemma_children_models(topology);
    }
    topology
}

/// The topology of the two-level workload.
pub fn tree_topology(fan: usize, n: usize) -> (topology: AggregationTopology)
    ensures
        topology@ == tree(fan as nat, n as nat),
        topology.raw_xmss == 0,
        topology.children@.len() == fan,
        topology.log_inv_rate == 2,
        topology.overlap == 0,
        forall|i: int|
            0 <= i < fan ==> {
                let child = #[trigger] topology.children@[i];
                &&& child.raw_xmss == n
                &&& child.children@.len() == 0
                &&& child.log_inv_rate == 2
                &&& child.overlap == 0
            },
{
    let topology = combine_nodes(fan, leaf_node(n));
    proof {
        lemma_children_models(topology);
        assert forall|i: int| 0 <= i < fan implies {
            let child = #[trigger] topology.children@[i];
            &&& child.raw_xmss == n
            &&& child.children@.len() == 0
            &&& child.log_inv_rate == 2
            &&& child.overlap == 0
        } by {
            assert(topology.children@[i]@ == leaf(n as nat));
            lemma_children_models(topology.children@[i]);
        }
    }
    topology
}

/// The topology of the three-level workload.
pub fn deep_topology(root_fan: usize, mid_fan: usize, n: usize) -> (topology: AggregationTopology)
    ensures
        topology@ == deep(root_fan as nat, mid_fan as nat, n as nat),
        topology.raw_xmss == 0,
        topology.children@.len() == root_fan,
        topology.log_inv_rate == 2,
        topology.overlap == 0,
        forall|i: int|
            0 <= i < root_fan ==> {
                let mid = #[trigger] topology.children@[i];
                &&& mid.raw_xmss == 0
                &&& mid.children@.len() == mid_fan
                &&& mid.log_inv_rate == 2
                &&& mid.overlap == 0
            },
        forall|i: int, j: int|
            0 <= i < root_fan && 0 <= j < mid_fan ==> {
                let child = #[trigger] topology.children@[i].children@[j];
                &&& child.raw_xmss == n
                &&& child.children@.len() == 0
                &&& child.log_inv_rate == 2
                &&& child.overlap == 0
            },
{
    let topology = combine_nodes(root_fan, combine_nodes(mid_fan, leaf_node(n)));
    proof {
        lemma_children_models(topology);
        assert forall|i: int| 0 <= i < root_fan implies {
            let mid = #[trigger] topology.children@[i];
            &&& mid.raw_xmss == 0
            &&& mid.children@.len() == mid_fan
            &&& mid.log_inv_rate == 2
            &&& mid.overlap == 0
        } by {
            assert(topology.children@[i]@ == combine(mid_fan as nat, leaf(n as nat)));
            lemma_children_models(topology.children@[i]);
        }
        assert forall|i: int, j: int| 0 <= i < root_fan && 0 <= j < mid_fan implies {
            let child = #[trigger] topology.children@[i].children@[j];
            &&& child.raw_xmss == n
            &&& child.children@.len() == 0
            &&& child.log_inv_rate == 2
            &&& child.overlap == 0
        } by {
            assert(topology.children@[i]@ == combine(mid_fan as nat, leaf(n as nat)));
            lemma_children_models(topology.children@[i]);
            assert(topology.children@[i].children@[j]@ == leaf(n as nat));
            lemma_children_models(topology.children@[i].children@[j]);
        }
    }
    topology
}

proof fn lemma_children_models(topology: AggregationTopology)
    ensures
        topology.children@.len() == topology@.children.len(),
        forall|i: int|
            0 <= i < topology.children@.len() ==> (#[trigger] topology.children@[i])@
                == topology@.children[i],
{
}

/// The flat topology is a single node with all `n` signatures.
pub proof fn law_flat_shape(n: nat)
    ensures
        flat(n).raw_xmss == n,
        flat(n).children.len() == 0,
        flat(n).log_inv_rate == 2,
        flat(n).overlap == 0,
{
}

/// The two-level topology is a root without signatures of its own over exactly
/// `fan` leaves with `n` signatures each.
pub proof fn law_tree_shape(fan: nat, n: nat)
    ensures
        tree(fan, n).raw_xmss == 0,
        tree(fan, n).children.len() == fan,
        tree(fan, n).log_inv_rate == 2,
        tree(fan, n).overlap == 0,
        forall|i: int|
            0 <= i < fan ==> {
                let child = #[trigger] tree(fan, n).children[i];
                &&& child.raw_xmss == n
                &&& child.children.len() == 0
                &&& child.log_inv_rate == 2
                &&& child.overlap == 0
            },
{
}

/// The three-level topology is a root over exactly `root_fan` mid-nodes, each
/// over exactly `mid_fan` leaves with `n` signatures each. Only the leaves have
/// signatures of their own.
pub proof fn law_deep_shape(root_fan: nat, mid_fan: nat, n: nat)
    ensures
        deep(root_fan, mid_fan, n).raw_xmss == 0,
        deep(root_fan, mid_fan, n).children.len() == root_fan,
        deep(root_fan, mid_fan, n).log_inv_rate == 2,
        deep(root_fan, mid_fan, n).overlap == 0,
        forall|i: int|
            0 <= i < root_fan ==> {
                let mid = #[trigger] deep(root_fan, mid_fan, n).children[i];
                &&& mid.raw_xmss == 0
                &&& mid.children.len() == mid_fan
                &&& mid.log_inv_rate == 2
                &&& mid.overlap == 0
            },
        forall|i: int, j: int|
            0 <= i < root_fan && 0 <= j < mid_fan ==> {
                let child = #[trigger] deep(root_fan, mid_fan, n).children[i].children[j];
                &&& child.raw_xmss == n
                &&& child.children.len() == 0
                &&& child.log_inv_rate == 2
                &&& child.overlap == 0
            },
{
}

/// The number of raw signatures at a node and below it.
pub open spec fn total_raw_xmss(topology: Topology) -> nat
    decreases topology, 1int, 0nat,
{
    topology.raw_xmss + raw_xmss_of_first(topology, topology.children.len())
}

/// The number of raw signatures at and below the first `count` children.
pub open spec fn raw_xmss_of_first(topology: Topology, count: nat) -> nat
    decreases topology, 0int, count,
{
    if 0 < count <= topology.children.len() {
        raw_xmss_of_first(topology, (count - 1) as nat) + total_raw_xmss(
            topology.children[count - 1],
        )
    } else {
        0
    }
}

/// The node that is reached from the root by taking, at each level, the child
/// with the next index of `path`.
pub open spec fn node_at(topology: Topology, path: Seq<nat>) -> Option<Topology>
    decreases path.len(),
{
    if path.len() == 0 {
        Some(topology)
    } else if path[0] < topology.children.len() {
        node_at(topology.children[path[0] as int], path.drop_first())
    } else {
        None
    }
}

/// A node that combines copies of one child stands for as many signatures as
/// the copies together.
proof fn lemma_total_of_combined(fan: nat, child: Topology, count: nat)
    requires
        count <= fan,
    ensures
        raw_xmss_of_first(combine(fan, child), count) == count * total_raw_xmss(child),
    decreases count,
{
    if count > 0 {
        lemma_total_of_combined(fan, child, (count - 1) as nat);
        let total = total_raw_xmss(child);
        assert(count * total == (count - 1) * total + total) by (nonlinear_arith)
            requires
                count > 0,
        ;
    } else {
        assert(0 * total_raw_xmss(child) == 0) by (nonlinear_arith);
    }
}

/// The three-level workload aggregates `root_fan * mid_fan * n` raw signatures,
/// the two-level workload `fan * n`, and the flat workload `n`.
pub proof fn law_total_raw_xmss(root_fan: nat, mid_fan: nat, n: nat)
    ensures
        total_raw_xmss(flat(n)) == n,
        total_raw_xmss(tree(mid_fan, n)) == mid_fan * n,
        total_raw_xmss(deep(root_fan, mid_fan, n)) == root_fan * mid_fan * n,
{
    lemma_total_of_combined(mid_fan, leaf(n), mid_fan);
    lemma_total_of_combined(root_fan, tree(mid_fan, n), root_fan);
    assert(root_fan * (mid_fan * n) == root_fan * mid_fan * n) by (nonlinear_arith);
}

/// Every node of every workload aggregates at [`LOG_INV_RATE_PROD`], without
/// overlap between the signers of its children.
pub proof fn law_uniform_rate(root_fan: nat, mid_fan: nat, n: nat, path: Seq<nat>)
    ensures
        node_at(flat(n), path) matches Some(node) ==> node.log_inv_rate == LOG_INV_RATE_PROD
            && node.overlap == 0,
        node_at(tree(mid_fan, n), path) matches Some(node) ==> node.log_inv_rate
            == LOG_INV_RATE_PROD && node.overlap == 0,
        node_at(deep(root_fan, mid_fan, n), path) matches Some(node) ==> node.log_inv_rate
            == LOG_INV_RATE_PROD && node.overlap == 0,
{
    reveal_with_fuel(node_at, 4);
}

/// The nodes of the flat workload: the root, at path `[]`, is the only one.
pub proof fn law_flat_nodes(n: nat, path: Seq<nat>)
    ensures
        node_at(flat(n), path) == if path.len() == 0 {
            Some(leaf(n))
        } else {
            None
        },
{
    reveal_with_fuel(node_at, 2);
}

/// The nodes of the two-level workload: the root is at path `[]`, and the leaves,
/// each of which is a flat workload, are at the paths `[i]` with `i < fan`.
pub proof fn law_tree_nodes(fan: nat, n: nat, path: Seq<nat>)
    ensures
        node_at(tree(fan, n), path) == if path.len() == 0 {
            Some(tree(fan, n))
        } else if path.len() == 1 && path[0] < fan {
            Some(flat(n))
        } else {
            None
        },
{
    reveal_with_fuel(node_at, 3);
}

/// The nodes of the three-level workload: the root is at path `[]`, the
/// mid-nodes are at the paths `[i]`, and the leaves at the paths `[i, j]`, with
/// `i < root_fan` and `j < mid_fan`.
pub proof fn law_deep_nodes(root_fan: nat, mid_fan: nat, n: nat, path: Seq<nat>)
    ensures
        node_at(deep(root_fan, mid_fan, n), path) == if path.len() == 0 {
            Some(deep(root_fan, mid_fan, n))
        } else if path.len() == 1 && path[0] < root_fan {
            Some(tree(mid_fan, n))
        } else if path.len() == 2 && path[0] < root_fan && path[1] < mid_fan {
            Some(leaf(n))
        } else {
            None
        },
{
    reveal_with_fuel(node_at, 4);
}

} // verus!
