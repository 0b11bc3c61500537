use lean_bench_workloads::proof_size::{
    proof_sizes, root_and_leaf_kib, sizes_value, NodeReport, ProofSizeEntry,
};

fn entry(path: Vec<usize>, kib: usize) -> ProofSizeEntry {
    ProofSizeEntry { depth: path.len(), path, kib }
}

#[test]
fn entries_follow_the_report() {
    let nodes = vec![
        NodeReport { path: vec![], proof_kib: 120 },
        NodeReport { path: vec![0], proof_kib: 200 },
        NodeReport { path: vec![1, 3], proof_kib: 300 },
    ];
    let entries = proof_sizes(&nodes);
    assert_eq!(entries.len(), 3);
    assert_eq!(entries[0].path, Vec::<usize>::new());
    assert_eq!((entries[0].depth, entries[0].kib), (0, 120));
    assert_eq!(entries[1].path, vec![0]);
    assert_eq!((entries[1].depth, entries[1].kib), (1, 200));
    assert_eq!(entries[2].path, vec![1, 3]);
    assert_eq!((entries[2].depth, entries[2].kib), (2, 300));
}

#[test]
fn no_nodes_no_entries() {
    assert!(proof_sizes(&vec![]).is_empty());
}

#[test]
fn root_and_leaf_of_nothing() {
    assert_eq!(root_and_leaf_kib(&[]), (None, None));
}

#[test]
fn single_node_is_root_and_leaf() {
    assert_eq!(root_and_leaf_kib(&[entry(vec![], 77)]), (Some(77), Some(77)));
}

#[test]
fn root_and_leaf_of_a_tree() {
    let entries = [
        entry(vec![0, 0], 30),
        entry(vec![0], 20),
        entry(vec![], 10),
        entry(vec![1, 0], 31),
    ];
    assert_eq!(root_and_leaf_kib(&entries), (Some(10), Some(30)));
}

#[test]
fn first_of_several_counts() {
    let entries = [
        entry(vec![0], 1),
        entry(vec![], 2),
        entry(vec![], 3),
        entry(vec![1], 4),
    ];
    assert_eq!(root_and_leaf_kib(&entries), (Some(2), Some(1)));
}

#[test]
fn leaf_without_root() {
    let entries = [entry(vec![0], 5), entry(vec![1, 1], 6)];
    assert_eq!(root_and_leaf_kib(&entries), (None, Some(6)));
}

#[test]
fn depth_field_decides() {
    let entries = [
        ProofSizeEntry { path: vec![4, 5, 6], depth: 0, kib: 9 },
        ProofSizeEntry { path: vec![], depth: 1, kib: 8 },
    ];
    assert_eq!(root_and_leaf_kib(&entries), (Some(9), Some(8)));
}

#[test]
fn entries_as_json() {
    let value = sizes_value(&vec![entry(vec![], 10), entry(vec![2, 5], 30)]);
    let expected: serde_json::Value = serde_json::from_str(
        r#"[{"path":[],"depth":0,"kib":10},{"path":[2,5],"depth":2,"kib":30}]"#,
    )
    .unwrap();
    assert_eq!(value, expected);
}

#[test]
fn no_entries_as_json() {
    assert_eq!(sizes_value(&vec![]), serde_json::Value::Array(vec![]));
}
