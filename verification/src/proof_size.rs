//! Proof sizes: what a benchmark reports for each node of a topology, and what
//! is surfaced of it in a record.

use vstd::prelude::*;

use crate::json;
use crate::json::{array_value, insert_field, new_object, object_value, unsigned_value, Json};

verus! {

/// What a benchmark reports of one node: where in the topology it stands, and
/// how large its proof is.
pub struct NodeReport {
    pub path: Vec<usize>,
    pub proof_kib: usize,
}

/// The model of a [`NodeReport`].
#[verifier::ext_equal]
pub struct Node {
    pub path: Seq<usize>,
    pub proof_kib: usize,
}

impl View for NodeReport {
    type V = Node;

    open spec fn view(&self) -> Node {
        Node { path: self.path@, proof_kib: self.proof_kib }
    }
}

/// The models of a sequence of node reports.
pub open spec fn nodes(reports: Seq<NodeReport>) -> Seq<Node> {
    reports.map_values(|report: NodeReport| report@)
}

/// Per-node entry for the `proof_kib_by_path` field of a record.
/// `path = []` is the root; deeper paths are the children and leaves.
/// `depth` is the length of the path, so that consumers need not rederive it.
pub struct ProofSizeEntry {
    pub path: Vec<usize>,
    pub depth: usize,
    pub kib: usize,
}

/// The model of a [`ProofSizeEntry`].
#[verifier::ext_equal]
pub struct ProofSize {
    pub path: Seq<usize>,
    pub depth: usize,
    pub kib: usize,
}

impl View for ProofSizeEntry {
    type V = ProofSize;

    open spec fn view(&self) -> ProofSize {
        ProofSize { path: self.path@, depth: self.depth, kib: self.kib }
    }
}

/// The models of a sequence of entries.
pub open spec fn sizes(entries: Seq<ProofSizeEntry>) -> Seq<ProofSize> {
    entries.map_values(|entry: ProofSizeEntry| entry@)
}

/// The entry for a node: its path, the length of the path, and its proof size.
pub open spec fn size_of_node(node: Node) -> ProofSize {
    ProofSize { path: node.path, depth: node.path.len() as usize, kib: node.proof_kib }
}

/// The entries for a report: one for each node, in the order of the report.
pub open spec fn sizes_of_nodes(nodes: Seq<Node>) -> Seq<ProofSize> {
    nodes.map_values(|node: Node| size_of_node(node))
}

/// A node report and an entry are modelled by their own fields, and sequences of
/// them element by element.
pub proof fn law_views_are_faithful(reports: Seq<NodeReport>, entries: Seq<ProofSizeEntry>)
    ensures
        nodes(reports).len() == reports.len(),
        forall|i: int|
            #![trigger nodes(reports)[i]]
            0 <= i < reports.len() ==> nodes(reports)[i].path == reports[i].path@
                && nodes(reports)[i].proof_kib == reports[i].proof_kib,
        sizes(entries).len() == entries.len(),
        forall|i: int|
            #![trigger sizes(entries)[i]]
            0 <= i < entries.len() ==> sizes(entries)[i].path == entries[i].path@ && sizes(
                entries,
            )[i].depth == entries[i].depth && sizes(entries)[i].kib == entries[i].kib,
{
}

/// Every node of a report is surfaced, at its place, with its own path, the
/// length of that path, and its own proof size.
pub proof fn law_every_node_is_surfaced(reported: Seq<Node>)
    requires
        forall|i: int| 0 <= i < reported.len() ==> (#[trigger] reported[i]).path.len() <= usize::MAX,
    ensures
        sizes_of_nodes(reported).len() == reported.len(),
        forall|i: int|
            #![trigger sizes_of_nodes(reported)[i]]
            0 <= i < reported.len() ==> {
                &&& sizes_of_nodes(reported)[i].path == reported[i].path
                &&& sizes_of_nodes(reported)[i].depth == reported[i].path.len()
                &&& sizes_of_nodes(reported)[i].kib == reported[i].proof_kib
            },
{
    assert forall|i: int| 0 <= i < reported.len() implies (#[trigger] sizes_of_nodes(
        reported,
    )[i]).depth == reported[i].path.len() by {
        assert(reported[i].path.len() <= usize::MAX);
    }
}

/// The entries for the nodes of a report.
pub fn proof_sizes(reported: &Vec<NodeReport>) -> (entries: Vec<ProofSizeEntry>)
    ensures
        sizes(entries@) == sizes_of_nodes(nodes(reported@)),
        entries@.len() == reported@.len(),
        forall|i: int|
            0 <= i < reported@.len() ==> {
                let entry = #[trigger] entries@[i];
                &&& entry.path@ == reported@[i].path@
                &&& entry.depth == reported@[i].path@.len()
                &&& entry.kib == reported@[i].proof_kib
            },
        forall|i: int|
            0 <= i < entries@.len() ==> (#[trigger] entries@[i]).depth == entries@[i].path@.len(),
{
    let mut entries: Vec<ProofSizeEntry> = Vec::new();
    let count: usize = reported.len();
    for i in 0..count
        invariant
            count == reported@.len(),
            entries@.len() == i,
            forall|j: int|
                0 <= j < i ==> {
                    let entry = #[trigger] entries@[j];
                    &&& entry@ == size_of_node(reported@[j]@)
                    &&& entry.path@ == reported@[j].path@
                    &&& entry.depth == reported@[j].path@.len()
                    &&& entry.kib == reported@[j].proof_kib
                },
    {
        let path = reported[i].path.clone();
        assert(path@ =~= reported@[i as int].path@);
        entries.push(
            ProofSizeEntry {
                path,
                depth: reported[i].path.len(),
                kib: reported[i].proof_kib,
            },
        );
    }
    assert(sizes(entries@) =~= sizes_of_nodes(nodes(reported@)));
    entries
}

/// Whether entry `i` is the first one at depth zero.
pub open spec fn is_first_root(entries: Seq<ProofSize>, i: int) -> bool {
    &&& 0 <= i < entries.len()
    &&& entries[i].depth == 0
    &&& forall|j: int| 0 <= j < i ==> (#[trigger] entries[j]).depth != 0
}

/// Whether entry `i` is the first one among those at the greatest depth.
pub open spec fn is_first_deepest(entries: Seq<ProofSize>, i: int) -> bool {
    &&& 0 <= i < entries.len()
    &&& forall|j: int| 0 <= j < entries.len() ==> (#[trigger] entries[j]).depth <= entries[i].depth
    &&& forall|j: int| 0 <= j < i ==> (#[trigger] entries[j]).depth != entries[i].depth
}

/// The size of the root proof: that of the first entry at depth zero.
pub open spec fn root_kib(entries: Seq<ProofSize>) -> Option<usize> {
    if exists|i: int| is_first_root(entries, i) {
        Some(entries[choose|i: int| is_first_root(entries, i)].kib)
    } else {
        None
    }
}

/// The size of a leaf proof: that of the first entry at the greatest depth.
pub open spec fn leaf_kib(entries: Seq<ProofSize>) -> Option<usize> {
    if exists|i: int| is_first_deepest(entries, i) {
        Some(entries[choose|i: int| is_first_deepest(entries, i)].kib)
    } else {
        None
    }
}

/// Pulls out the root and the (assumed uniform) leaf proof sizes for the summary
/// fields. Root and leaf are the two values most analyses care about: the root
/// proof is published, the leaf proof is the safe-target proof. Sizes in between
/// can be read off the entries.
pub fn root_and_leaf_kib(entries: &[ProofSizeEntry]) -> (kib: (Option<usize>, Option<usize>))
    ensures
        kib.0 == root_kib(sizes(entries@)),
        kib.1 == leaf_kib(sizes(entries@)),
        kib.0 is None <==> forall|i: int|
            0 <= i < entries@.len() ==> (#[trigger] entries@[i]).depth != 0,
        forall|i: int|
            #![trigger entries@[i]]
            0 <= i < entries@.len() && entries@[i].depth == 0 && (forall|j: int|
                0 <= j < i ==> (#[trigger] entries@[j]).depth != 0) ==> kib.0 == Some(
                entries@[i].kib,
            ),
        kib.1 is None <==> entries@.len() == 0,
        forall|i: int|
            #![trigger entries@[i]]
            0 <= i < entries@.len() && (forall|j: int|
                0 <= j < entries@.len() ==> (#[trigger] entries@[j]).depth <= entries@[i].depth)
                && (forall|j: int|
                0 <= j < i ==> (#[trigger] entries@[j]).depth < entries@[i].depth) ==> kib.1
                == Some(entries@[i].kib),
{
    let ghost all = sizes(entries@);
    let count: usize = entries.len();
    let mut root: Option<usize> = None;
    let mut deepest: Option<(usize, usize)> = None;
    let ghost mut root_index: int = 0;
    let ghost mut deepest_index: int = 0;
    for i in 0..count
        invariant
            count == entries@.len(),
            all == sizes(entries@),
            match root {
                Some(kib) => root_index < i && is_first_root(all, root_index)
                    && kib == all[root_index].kib,
                None => forall|j: int| 0 <= j < i ==> (#[trigger] all[j]).depth != 0,
            },
            match deepest {
                Some((depth, kib)) => {
                    &&& 0 <= deepest_index < i
                    &&& depth == all[deepest_index].depth
                    &&& kib == all[deepest_index].kib
                    &&& forall|j: int| 0 <= j < i ==> (#[trigger] all[j]).depth <= depth
                    &&& forall|j: int| 0 <= j < deepest_index ==> (#[trigger] all[j]).depth != depth
                },
                None => i == 0,
            },
    {
        let entry = &entries[i];
        assert(all[i as int] == entry@);
        if root.is_none() && entry.depth == 0 {
            root = Some(entry.kib);
            proof {
                root_index = i as int;
            }
        }
        let deeper: bool = match deepest {
            Some((depth, _)) => entry.depth > depth,
            None => true,
        };
        if deeper {
            deepest = Some((entry.depth, entry.kib));
            proof {
                deepest_index = i as int;
            }
        }
    }
    proof {
        if root is Some {
            law_root_kib(all, root_index);
        }
        if deepest is Some {
            law_leaf_kib(all, deepest_index);
        }
    }
    let leaf: Option<usize> = match deepest {
        Some((_, kib)) => Some(kib),
        None => None,
    };
    proof {
        assert(forall|j: int|
            0 <= j < count ==> (#[trigger] entries@[j]).depth == all[j].depth && entries@[j].kib
                == all[j].kib);
        assert forall|i: int|
            #![trigger entries@[i]]
            0 <= i < entries@.len() && entries@[i].depth == 0 && (forall|j: int|
                0 <= j < i ==> (#[trigger] entries@[j]).depth != 0) implies root == Some(
            entries@[i].kib,
        ) by {
            assert forall|j: int| 0 <= j < i implies (#[trigger] all[j]).depth != 0 by {
                assert(entries@[j].depth != 0);
            }
            assert(all[i].depth == 0);
            law_root_kib(all, i);
        }
        assert forall|i: int|
            #![trigger entries@[i]]
            0 <= i < entries@.len() && (forall|j: int|
                0 <= j < entries@.len() ==> (#[trigger] entries@[j]).depth <= entries@[i].depth)
                && (forall|j: int|
                0 <= j < i ==> (#[trigger] entries@[j]).depth < entries@[i].depth) implies leaf
            == Some(entries@[i].kib) by {
            assert forall|j: int| 0 <= j < all.len() implies (#[trigger] all[j]).depth
                <= all[i].depth by {
                assert(entries@[j].depth <= entries@[i].depth);
            }
            assert forall|j: int| 0 <= j < i implies (#[trigger] all[j]).depth < all[i].depth by {
                assert(entries@[j].depth < entries@[i].depth);
            }
            law_leaf_kib(all, i);
        }
        if root is None {
            assert forall|i: int| 0 <= i < entries@.len() implies (#[trigger] entries@[i]).depth
                != 0 by {
                assert(all[i].depth != 0);
            }
        } else {
            assert(entries@[root_index].depth == 0);
        }
    }
    (root, leaf)
}

/// The root size is that of the first entry at depth zero.
pub proof fn law_root_kib(entries: Seq<ProofSize>, i: int)
    requires
        0 <= i < entries.len(),
        entries[i].depth == 0,
        forall|j: int| 0 <= j < i ==> (#[trigger] entries[j]).depth != 0,
    ensures
        root_kib(entries) == Some(entries[i].kib),
{
    assert(is_first_root(entries, i));
    let k = choose|k: int| is_first_root(entries, k);
    assert(is_first_root(entries, k));
    assert(entries[k].depth == 0 && entries[i].depth == 0);
}

/// The leaf size is that of the first entry at the greatest depth.
pub proof fn law_leaf_kib(entries: Seq<ProofSize>, i: int)
    requires
        0 <= i < entries.len(),
        forall|j: int| 0 <= j < entries.len() ==> (#[trigger] entries[j]).depth <= entries[i].depth,
        forall|j: int| 0 <= j < i ==> (#[trigger] entries[j]).depth < entries[i].depth,
    ensures
        leaf_kib(entries) == Some(entries[i].kib),
{
    assert(is_first_deepest(entries, i));
    let k = choose|k: int| is_first_deepest(entries, k);
    assert(is_first_deepest(entries, k));
    assert(entries[k].depth == entries[i].depth);
}

/// There is a leaf size exactly where there are entries, and a root size exactly
/// where an entry is at depth zero.
pub proof fn law_kib_is_present(entries: Seq<ProofSize>)
    ensures
        leaf_kib(entries) is Some <==> entries.len() > 0,
        root_kib(entries) is Some <==> exists|i: int|
            0 <= i < entries.len() && (#[trigger] entries[i]).depth == 0,
{
    if entries.len() > 0 {
        lemma_first_deepest_exists(entries);
    }
    if exists|i: int| 0 <= i < entries.len() && (#[trigger] entries[i]).depth == 0 {
        let i = choose|i: int| 0 <= i < entries.len() && (#[trigger] entries[i]).depth == 0;
        lemma_first_root_exists(entries, i);
    }
}

proof fn lemma_first_root_exists(entries: Seq<ProofSize>, i: int)
    requires
        0 <= i < entries.len(),
        entries[i].depth == 0,
    ensures
        exists|k: int| is_first_root(entries, k),
    decreases i,
{
    if exists|j: int| 0 <= j < i && (#[trigger] entries[j]).depth == 0 {
        let j = choose|j: int| 0 <= j < i && (#[trigger] entries[j]).depth == 0;
        lemma_first_root_exists(entries, j);
    } else {
        assert(is_first_root(entries, i));
    }
}

proof fn lemma_first_deepest_exists(entries: Seq<ProofSize>)
    requires
        entries.len() > 0,
    ensures
        exists|k: int| is_first_deepest(entries, k),
    decreases entries.len(),
{
    if entries.len() == 1 {
        assert(is_first_deepest(entries, 0));
    } else {
        let shorter = entries.drop_last();
        lemma_first_deepest_exists(shorter);
        let k = choose|k: int| is_first_deepest(shorter, k);
        let last = entries.len() - 1;
        assert(forall|j: int| 0 <= j < last ==> #[trigger] entries[j] == shorter[j]);
        if entries[last].depth > entries[k].depth {
            assert(is_first_deepest(entries, last));
        } else {
            assert(is_first_deepest(entries, k));
        }
    }
}

/// Where all leaves have proofs of one size, that size is the leaf size.
pub proof fn law_uniform_leaves(entries: Seq<ProofSize>, leaf: int, kib: usize)
    requires
        0 <= leaf < entries.len(),
        forall|i: int|
            0 <= i < entries.len() ==> (#[trigger] entries[i]).depth <= entries[leaf].depth,
        forall|i: int|
            0 <= i < entries.len() && (#[trigger] entries[i]).depth == entries[leaf].depth
                ==> entries[i].kib == kib,
    ensures
        leaf_kib(entries) == Some(kib),
{
    lemma_first_deepest_exists(entries);
    let k = choose|k: int| is_first_deepest(entries, k);
    assert(entries[k].depth == entries[leaf].depth);
    law_leaf_kib(entries, k);
}

/// The root size of a report is the proof size of its first node with an empty
/// path.
pub proof fn law_root_has_empty_path(reported: Seq<Node>, i: int)
    requires
        0 <= i < reported.len(),
        forall|j: int| 0 <= j < reported.len() ==> (#[trigger] reported[j]).path.len() <= usize::MAX,
        reported[i].path.len() == 0,
        forall|j: int| 0 <= j < i ==> (#[trigger] reported[j]).path.len() != 0,
    ensures
        root_kib(sizes_of_nodes(reported)) == Some(reported[i].proof_kib),
{
    let entries = sizes_of_nodes(reported);
    assert forall|j: int| 0 <= j < i implies (#[trigger] entries[j]).depth != 0 by {
        assert(reported[j].path.len() != 0);
    }
    assert(is_first_root(entries, i));
    law_root_kib(entries, i);
}

/// A path as a JSON array of its indices.
pub open spec fn path_json(path: Seq<usize>) -> Json {
    Json::Array(path.map_values(|index: usize| Json::Unsigned(index as nat)))
}

/// An entry as a JSON object with the fields `path`, `depth` and `kib`.
pub open spec fn size_json(entry: ProofSize) -> Json {
    Json::Object(
        map![
            "path"@ => path_json(entry.path),
            "depth"@ => Json::Unsigned(entry.depth as nat),
            "kib"@ => Json::Unsigned(entry.kib as nat),
        ],
    )
}

/// The JSON object of an entry has these fields and no others.
pub proof fn law_size_json(entry: ProofSize)
    ensures
        ({
            let object = size_json(entry);
            &&& object is Object
            &&& object->Object_0.dom() == set!["path"@, "depth"@, "kib"@]
            &&& object->Object_0["path"@] is Array
            &&& object->Object_0["path"@]->Array_0.len() == entry.path.len()
            &&& forall|k: int|
                0 <= k < entry.path.len() ==> #[trigger] object->Object_0["path"@]->Array_0[k]
                    == Json::Unsigned(entry.path[k] as nat)
            &&& object->Object_0["depth"@] == Json::Unsigned(entry.depth as nat)
            &&& object->Object_0["kib"@] == Json::Unsigned(entry.kib as nat)
        }),
{
    reveal_strlit("path");
    reveal_strlit("depth");
    reveal_strlit("kib");
    assert("path"@.len() == 4 && "depth"@.len() == 5 && "kib"@.len() == 3);
    assert(size_json(entry)->Object_0.dom() =~= set!["path"@, "depth"@, "kib"@]);
}

/// A sequence of entries as a JSON array of objects.
pub open spec fn sizes_json(entries: Seq<ProofSize>) -> Json {
    Json::Array(entries.map_values(|entry: ProofSize| size_json(entry)))
}

/// A list of entries is a JSON array with one object for each entry, at its
/// place, with the entry's own path, depth and size.
pub proof fn law_sizes_json(entries: Seq<ProofSize>)
    ensures
        sizes_json(entries) is Array,
        sizes_json(entries)->Array_0.len() == entries.len(),
        forall|i: int|
            #![trigger sizes_json(entries)->Array_0[i]]
            0 <= i < entries.len() ==> {
                let object = sizes_json(entries)->Array_0[i];
                &&& object is Object
                &&& object->Object_0.dom() == set!["path"@, "depth"@, "kib"@]
                &&& object->Object_0["path"@] is Array
                &&& object->Object_0["path"@]->Array_0.len() == entries[i].path.len()
                &&& forall|k: int|
                    0 <= k < entries[i].path.len()
                        ==> #[trigger] object->Object_0["path"@]->Array_0[k] == Json::Unsigned(
                        entries[i].path[k] as nat,
                    )
                &&& object->Object_0["depth"@] == Json::Unsigned(entries[i].depth as nat)
                &&& object->Object_0["kib"@] == Json::Unsigned(entries[i].kib as nat)
            },
{
    assert forall|i: int| #![trigger sizes_json(entries)->Array_0[i]] 0 <= i < entries.len() implies {
        let object = sizes_json(entries)->Array_0[i];
        &&& object is Object
        &&& object->Object_0.dom() == set!["path"@, "depth"@, "kib"@]
        &&& object->Object_0["path"@] is Array
        &&& object->Object_0["path"@]->Array_0.len() == entries[i].path.len()
        &&& forall|k: int|
            0 <= k < entries[i].path.len() ==> #[trigger] object->Object_0["path"@]->Array_0[k]
                == Json::Unsigned(entries[i].path[k] as nat)
        &&& object->Object_0["depth"@] == Json::Unsigned(entries[i].depth as nat)
        &&& object->Object_0["kib"@] == Json::Unsigned(entries[i].kib as nat)
    } by {
        law_size_json(entries[i]);
        assert(sizes_json(entries)->Array_0[i] == size_json(entries[i]));
    }
}

fn path_value(path: &Vec<usize>) -> (value: serde_json::Value)
    ensures
        json::model(value) == path_json(path@),
{
    let mut indices: Vec<serde_json::Value> = Vec::new();
    let count: usize = path.len();
    for i in 0..count
        invariant
            count == path@.len(),
            indices@.len() == i,
            forall|j: int|
                0 <= j < i ==> json::model(#[trigger] indices@[j]) == Json::Unsigned(path@[j] as nat),
    {
        indices.push(unsigned_value(path[i]));
    }
    assert(json::models(indices@) =~= path@.map_values(|index: usize| Json::Unsigned(index as nat)));
    array_value(indices)
}

fn size_value(entry: &ProofSizeEntry) -> (value: serde_json::Value)
    ensures
        json::model(value) == size_json(entry@),
{
    let mut object = new_object();
    insert_field(&mut object, "path", path_value(&entry.path));
    insert_field(&mut object, "depth", unsigned_value(entry.depth));
    insert_field(&mut object, "kib", unsigned_value(entry.kib));
    object_value(object)
}

/// The JSON value of a list of entries.
pub fn sizes_value(entries: &Vec<ProofSizeEntry>) -> (value: serde_json::Value)
    ensures
        json::model(value) == sizes_json(sizes(entries@)),
        json::model(value) is Array,
        json::model(value)->Array_0.len() == entries@.len(),
        forall|i: int|
            #![trigger json::model(value)->Array_0[i]]
            0 <= i < entries@.len() ==> {
                let object = json::model(value)->Array_0[i];
                &&& object is Object
                &&& object->Object_0.dom() == set!["path"@, "depth"@, "kib"@]
                &&& object->Object_0["path"@] is Array
                &&& object->Object_0["path"@]->Array_0.len() == entries@[i].path@.len()
                &&& forall|k: int|
                    0 <= k < entries@[i].path@.len()
                        ==> #[trigger] object->Object_0["path"@]->Array_0[k] == Json::Unsigned(
                        entries@[i].path@[k] as nat,
                    )
                &&& object->Object_0["depth"@] == Json::Unsigned(entries@[i].depth as nat)
                &&& object->Object_0["kib"@] == Json::Unsigned(entries@[i].kib as nat)
            },
{
    let mut values: Vec<serde_json::Value> = Vec::new();
    let count: usize = entries.len();
    for i in 0..count
        invariant
            count == entries@.len(),
            values@.len() == i,
            forall|j: int| 0 <= j < i ==> json::model(#[trigger] values@[j]) == size_json(entries@[j]@),
    {
        values.push(size_value(&entries[i]));
    }
    assert(json::models(values@) =~= sizes(entries@).map_values(
        |entry: ProofSize| size_json(entry),
    ));
    proof {
        law_sizes_json(sizes(entries@));
    }
    array_value(values)
}

} // verus!
