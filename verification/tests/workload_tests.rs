use lean_bench_workloads::aggregate::{
    deep_r2, flat_r2, merge_split_and_leaves_r2, merge_split_and_original_r2, split_r2, tree_r2,
    WorkloadError, WorkloadRun,
};
use lean_bench_workloads::proof_size::{NodeReport, ProofSizeEntry};
use lean_bench_workloads::record::{make_record, BuildPins, CommonArgs, Record};
use lean_bench_workloads::run_loop::{Action, BenchmarkReport, Measured};
use lean_bench_workloads::topology::AggregationTopology;
use lean_bench_workloads::workload::{deep_record, flat_record, tree_record};

fn args(samples: usize, warmup: usize) -> CommonArgs {
    CommonArgs { samples, warmup, seed: 1 }
}

fn pins() -> BuildPins {
    BuildPins::new(Some("abc"), None, Some("devnet4"), None)
}

fn parse(text: &str) -> serde_json::Value {
    serde_json::from_str(text).unwrap()
}

/// A report with one node for each node of the topology: leaves are 40 KiB, other
/// nodes 10 KiB and their depth.
fn report_on(topology: &AggregationTopology) -> BenchmarkReport {
    let mut nodes = vec![];
    visit(topology, &mut vec![], &mut nodes);
    BenchmarkReport { nodes, raw: parse(r#"{"time_secs":0.5}"#) }
}

fn visit(topology: &AggregationTopology, path: &mut Vec<usize>, nodes: &mut Vec<NodeReport>) {
    let proof_kib = if topology.children.is_empty() { 40 } else { 10 + path.len() };
    nodes.push(NodeReport { path: path.clone(), proof_kib });
    for (i, child) in topology.children.iter().enumerate() {
        path.push(i);
        visit(child, path, nodes);
        path.pop();
    }
}

fn drive(started: Result<WorkloadRun, WorkloadError>) -> Record {
    let mut run = started.ok().unwrap();
    let mut elapsed: u128 = 1000;
    loop {
        let report = match run.next_action() {
            Action::Benchmark(call) => report_on(call.topology),
            Action::Finished => break,
        };
        run.complete_run(elapsed, report);
        elapsed += 1;
    }
    run.finish(&pins())
}

#[test]
fn default_arguments() {
    let args = CommonArgs::default();
    assert_eq!(args.samples, 30);
    assert_eq!(args.warmup, 3);
    assert_eq!(args.seed, 0xC0FFEE);
}

#[test]
fn missing_pins_are_unknown() {
    let pins = pins();
    assert_eq!(pins.leansig_sha, "abc");
    assert_eq!(pins.leanmultisig_sha, "unknown");
    assert_eq!(pins.leansig_branch, "devnet4");
    assert_eq!(pins.leanmultisig_branch, "unknown");
}

#[test]
fn record_holds_what_it_is_given() {
    let pins = BuildPins::new(Some("a"), Some("b"), Some("c"), Some("d"));
    let record = make_record("w", vec![3, 1, 2], 4, serde_json::Value::from("m"), &pins);
    assert_eq!(record.workload, "w");
    assert_eq!(record.unit, "ns");
    assert_eq!(record.samples_ns, vec![3, 1, 2]);
    assert_eq!(record.warmup, 4);
    assert_eq!(record.meta, serde_json::Value::from("m"));
    assert_eq!(record.leansig_sha, "a");
    assert_eq!(record.leanmultisig_sha, "b");
    assert_eq!(record.leansig_branch, "c");
    assert_eq!(record.leanmultisig_branch, "d");
}

#[test]
fn flat_run() {
    let record = drive(flat_r2(&args(2, 1), 250));
    assert_eq!(record.workload, "aggregate.flat_250_r2");
    assert_eq!(record.unit, "ns");
    assert_eq!(record.samples_ns, vec![1001, 1002]);
    assert_eq!(record.warmup, 1);
    assert_eq!(record.leansig_sha, "abc");
    assert_eq!(record.leanmultisig_branch, "unknown");
    assert_eq!(
        record.meta,
        parse(
            r#"{"raw_xmss":250,"log_inv_rate":2,"topology":"flat",
                "proof_kib_root":40,"proof_kib_leaf":40,
                "proof_kib_by_path":[{"path":[],"depth":0,"kib":40}],
                "reports":[{"time_secs":0.5},{"time_secs":0.5}]}"#
        )
    );
}

#[test]
fn tree_run() {
    let record = drive(tree_r2(&args(1, 0), 2, 50));
    assert_eq!(record.workload, "aggregate.tree_2x50_r2");
    assert_eq!(record.samples_ns, vec![1000]);
    assert_eq!(
        record.meta,
        parse(
            r#"{"leaf_raw_xmss":50,"fan_in":2,"log_inv_rate":2,"topology":"2-to-1 recursion",
                "proof_kib_root":10,"proof_kib_leaf":40,
                "proof_kib_by_path":[{"path":[],"depth":0,"kib":10},
                                     {"path":[0],"depth":1,"kib":40},
                                     {"path":[1],"depth":1,"kib":40}],
                "reports":[{"time_secs":0.5}],
                "note":"recursion-only time = root node `time_secs` from any report; or total - 2 × aggregate.flat_50_r2 as a fallback"}"#
        )
    );
}

#[test]
fn deep_run() {
    let record = drive(deep_r2(&args(1, 2), 2, 1, 13));
    assert_eq!(record.workload, "aggregate.deep_2x1x13_r2");
    assert_eq!(record.samples_ns, vec![1002]);
    assert_eq!(record.warmup, 2);
    assert_eq!(
        record.meta,
        parse(
            r#"{"leaf_raw_xmss":13,"root_fan_in":2,"mid_fan_in":1,"total_raw_xmss":26,
                "log_inv_rate":2,"topology":"2-to-1 over 1-to-1 recursion",
                "proof_kib_root":10,"proof_kib_leaf":40,
                "proof_kib_by_path":[{"path":[],"depth":0,"kib":10},
                                     {"path":[0],"depth":1,"kib":11},
                                     {"path":[0,0],"depth":2,"kib":40},
                                     {"path":[1],"depth":1,"kib":11},
                                     {"path":[1,0],"depth":2,"kib":40}],
                "reports":[{"time_secs":0.5}],
                "note":"per-node cost is each node's `time_secs` in reports: root is path=[], mids are path=[i], leaves are path=[i,j]"}"#
        )
    );
}

#[test]
fn run_without_samples() {
    let record = drive(flat_r2(&args(0, 1), 5));
    assert!(record.samples_ns.is_empty());
    assert_eq!(
        record.meta,
        parse(
            r#"{"raw_xmss":5,"log_inv_rate":2,"topology":"flat",
                "proof_kib_root":null,"proof_kib_leaf":null,
                "proof_kib_by_path":[],"reports":[]}"#
        )
    );
}

fn measured(kib: usize) -> Measured {
    Measured {
        samples_ns: vec![11, 22],
        proof_sizes: vec![ProofSizeEntry { path: vec![1], depth: 1, kib }],
        reports: vec![serde_json::Value::from("r")],
    }
}

#[test]
fn flat_record_of_measurements() {
    let record = flat_record(0, 9, measured(64), &pins());
    assert_eq!(record.workload, "aggregate.flat_0_r2");
    assert_eq!(record.samples_ns, vec![11, 22]);
    assert_eq!(record.warmup, 9);
    assert_eq!(record.meta["proof_kib_root"], serde_json::Value::Null);
    assert_eq!(record.meta["proof_kib_leaf"], serde_json::Value::from(64));
    assert_eq!(record.meta["reports"], parse(r#"["r"]"#));
    assert_eq!(record.meta.as_object().unwrap().len(), 7);
}

#[test]
fn tree_record_of_measurements() {
    let record = tree_record(8, 1000, 3, measured(1), &pins());
    assert_eq!(record.workload, "aggregate.tree_8x1000_r2");
    assert_eq!(record.meta["topology"], serde_json::Value::from("8-to-1 recursion"));
    assert_eq!(record.meta["fan_in"], serde_json::Value::from(8));
    assert_eq!(record.meta["leaf_raw_xmss"], serde_json::Value::from(1000));
    assert_eq!(record.meta.as_object().unwrap().len(), 9);
}

#[test]
fn deep_record_of_measurements() {
    let record = deep_record(4, 16, 100, 3, measured(1), &pins());
    assert_eq!(record.workload, "aggregate.deep_4x16x100_r2");
    assert_eq!(
        record.meta["topology"],
        serde_json::Value::from("4-to-1 over 16-to-1 recursion")
    );
    assert_eq!(record.meta["total_raw_xmss"], serde_json::Value::from(6400));
    assert_eq!(record.meta.as_object().unwrap().len(), 11);
}

#[test]
fn names_tell_workloads_apart() {
    let names = vec![
        flat_record(11, 0, measured(1), &pins()).workload,
        tree_record(1, 11, 0, measured(1), &pins()).workload,
        tree_record(11, 1, 0, measured(1), &pins()).workload,
        deep_record(1, 1, 11, 0, measured(1), &pins()).workload,
        deep_record(1, 11, 1, 0, measured(1), &pins()).workload,
        deep_record(11, 1, 1, 0, measured(1), &pins()).workload,
    ];
    for i in 0..names.len() {
        for j in 0..i {
            assert_ne!(names[i], names[j]);
        }
    }
}

#[test]
fn split_is_not_available() {
    let error = split_r2(&args(1, 0), 10, 2).err().unwrap();
    assert_eq!(error, WorkloadError::SplitNotAvailable);
    assert_eq!(error.message(), "split workload not available on this leanVM pin");
}

#[test]
fn merge_split_and_original_is_not_available() {
    let error = merge_split_and_original_r2(&args(1, 0), 10, 2).err().unwrap();
    assert_eq!(error, WorkloadError::MergeSplitAndOriginalNotAvailable);
    assert_eq!(
        error.message(),
        "merge_split_and_original workload not available on this leanVM pin"
    );
}

#[test]
fn merge_split_and_leaves_is_not_available() {
    let error = merge_split_and_leaves_r2(&args(1, 0), 10, 2, 3).err().unwrap();
    assert_eq!(error, WorkloadError::MergeSplitAndLeavesNotAvailable);
    assert_eq!(
        error.message(),
        "merge_split_and_leaves workload not available on this leanVM pin"
    );
}
