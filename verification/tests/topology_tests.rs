use lean_bench_workloads::topology::{
    deep_topology, flat_topology, tree_topology, AggregationTopology, LOG_INV_RATE_PROD,
};

fn total(topology: &AggregationTopology) -> usize {
    let mut sum = topology.raw_xmss;
    for child in &topology.children {
        sum += total(child);
    }
    sum
}

fn assert_uniform(topology: &AggregationTopology) {
    assert_eq!(topology.log_inv_rate, 2);
    assert_eq!(topology.overlap, 0);
    for child in &topology.children {
        assert_uniform(child);
    }
}

fn assert_leaf(topology: &AggregationTopology, n: usize) {
    assert_eq!(topology.raw_xmss, n);
    assert!(topology.children.is_empty());
}

#[test]
fn production_rate_is_two() {
    assert_eq!(LOG_INV_RATE_PROD, 2);
}

#[test]
fn flat_is_one_leaf() {
    let topology = flat_topology(250);
    assert_leaf(&topology, 250);
    assert_uniform(&topology);
    assert_eq!(total(&topology), 250);
}

#[test]
fn tree_combines_leaves() {
    let topology = tree_topology(4, 25);
    assert_eq!(topology.raw_xmss, 0);
    assert_eq!(topology.children.len(), 4);
    for child in &topology.children {
        assert_leaf(child, 25);
    }
    assert_uniform(&topology);
    assert_eq!(total(&topology), 100);
}

#[test]
fn tree_without_children() {
    let topology = tree_topology(0, 25);
    assert_eq!(topology.raw_xmss, 0);
    assert!(topology.children.is_empty());
    assert_eq!(total(&topology), 0);
}

#[test]
fn deep_combines_mid_nodes() {
    let topology = deep_topology(2, 3, 7);
    assert_eq!(topology.raw_xmss, 0);
    assert_eq!(topology.children.len(), 2);
    for mid in &topology.children {
        assert_eq!(mid.raw_xmss, 0);
        assert_eq!(mid.children.len(), 3);
        for child in &mid.children {
            assert_leaf(child, 7);
        }
    }
    assert_uniform(&topology);
    assert_eq!(total(&topology), 42);
}

#[test]
fn clone_copies_the_whole_tree() {
    let copy = deep_topology(2, 3, 7).clone();
    assert_eq!(copy.children.len(), 2);
    assert_eq!(copy.children[1].children.len(), 3);
    assert_leaf(&copy.children[1].children[2], 7);
    assert_uniform(&copy);
}
