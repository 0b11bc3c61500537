use lean_bench_workloads::proof_size::NodeReport;
use lean_bench_workloads::record::CommonArgs;
use lean_bench_workloads::run_loop::{run_loop, Action, BenchmarkReport, Measured};
use lean_bench_workloads::topology::flat_topology;

fn args(samples: usize, warmup: usize) -> CommonArgs {
    CommonArgs { samples, warmup, seed: 0 }
}

fn report(sizes: &[usize], tag: u64) -> BenchmarkReport {
    BenchmarkReport {
        nodes: sizes
            .iter()
            .map(|kib| NodeReport { path: vec![], proof_kib: *kib })
            .collect(),
        raw: serde_json::Value::from(tag),
    }
}

/// Drives a loop on runs whose durations are 100, 101, ... and whose reports hold
/// the proof sizes in `sizes`, in turn.
fn drive(args: &CommonArgs, sizes: &[&[usize]]) -> (usize, Measured) {
    let mut sampling = run_loop(args, flat_topology(5));
    let mut runs = 0;
    loop {
        match sampling.next_action() {
            Action::Benchmark(call) => {
                assert_eq!(call.topology.raw_xmss, 5);
                assert!(!call.tracing);
                assert!(call.silent);
                assert_eq!(call.repeat, 1);
            }
            Action::Finished => break,
        }
        sampling.complete_run(100 + runs as u128, report(sizes[runs], runs as u64));
        runs += 1;
    }
    assert_eq!(sampling.warmup(), args.warmup);
    (runs, sampling.into_measured())
}

fn kibs(measured: &Measured) -> Vec<usize> {
    measured.proof_sizes.iter().map(|entry| entry.kib).collect()
}

#[test]
fn warmup_runs_are_discarded() {
    let (runs, measured) = drive(&args(3, 2), &[&[1], &[2], &[3], &[4], &[5]]);
    assert_eq!(runs, 5);
    assert_eq!(measured.samples_ns, vec![102, 103, 104]);
    assert_eq!(
        measured.reports,
        vec![
            serde_json::Value::from(2),
            serde_json::Value::from(3),
            serde_json::Value::from(4),
        ]
    );
    assert_eq!(kibs(&measured), vec![3]);
}

#[test]
fn warmup_leaves_no_trace() {
    let (_, one) = drive(&args(1, 2), &[&[1], &[2], &[3]]);
    let (_, other) = drive(&args(1, 2), &[&[8, 8], &[], &[3]]);
    assert_eq!(one.samples_ns, other.samples_ns);
    assert_eq!(one.reports, other.reports);
    assert_eq!(kibs(&one), kibs(&other));
}

#[test]
fn no_warmup() {
    let (runs, measured) = drive(&args(2, 0), &[&[7, 8], &[9]]);
    assert_eq!(runs, 2);
    assert_eq!(measured.samples_ns, vec![100, 101]);
    assert_eq!(kibs(&measured), vec![7, 8]);
}

#[test]
fn no_samples() {
    let (runs, measured) = drive(&args(0, 2), &[&[1], &[2]]);
    assert_eq!(runs, 2);
    assert!(measured.samples_ns.is_empty());
    assert!(measured.reports.is_empty());
    assert!(measured.proof_sizes.is_empty());
}

#[test]
fn nothing_to_run() {
    let (runs, measured) = drive(&args(0, 0), &[]);
    assert_eq!(runs, 0);
    assert!(measured.samples_ns.is_empty());
}

#[test]
fn sizes_come_from_the_first_run_with_nodes() {
    let (_, measured) = drive(&args(4, 0), &[&[], &[], &[6, 7], &[8]]);
    assert_eq!(kibs(&measured), vec![6, 7]);
    assert_eq!(measured.reports.len(), 4);
}

#[test]
fn equal_reports_give_their_sizes() {
    let (_, measured) = drive(&args(3, 1), &[&[9, 9], &[4, 5], &[4, 5], &[4, 5]]);
    assert_eq!(kibs(&measured), vec![4, 5]);
}
