//! Running the aggregation workloads.
//!
//! Each workload function starts a [`WorkloadRun`]. Its driver benchmarks the
//! topology for as long as [`WorkloadRun::next_action`] asks for it, hands each
//! run to [`WorkloadRun::complete_run`], and gets the record of the workload from
//! [`WorkloadRun::finish`].

use vstd::prelude::*;

use crate::json;
use crate::json::Json;
use crate::record::{BuildPins, CommonArgs, Pins, Record, RecordModel};
use crate::run_loop;
use crate::run_loop::{run_loop, Action, BenchmarkReport, LoopState, Run, RunLoop};
use crate::text;
use crate::topology;
use crate::topology::{deep_topology, flat_topology, tree_topology};
use crate::workload;
use crate::workload::{deep_record, flat_record, tree_record, Workload};

verus! {

/// Why a workload cannot be run.
#[derive(Clone, Copy, Debug, PartialEq, Eq, Structural)]
pub enum WorkloadError {
    SplitNotAvailable,
    MergeSplitAndOriginalNotAvailable,
    MergeSplitAndLeavesNotAvailable,
}

impl WorkloadError {
    /// The text of the message.
    pub open spec fn text(self) -> Seq<char> {
        match self {
            WorkloadError::SplitNotAvailable => "split workload not available on this leanVM pin"@,
            WorkloadError::MergeSplitAndOriginalNotAvailable =>
                "merge_split_and_original workload not available on this leanVM pin"@,
            WorkloadError::MergeSplitAndLeavesNotAvailable =>
                "merge_split_and_leaves workload not available on this leanVM pin"@,
        }
    }

    /// The message for the user.
    pub fn message(&self) -> (message: &'static str)
        ensures
            message@ == self.text(),
            *self is SplitNotAvailable ==> message@
                == "split workload not available on this leanVM pin"@,
            *self is MergeSplitAndOriginalNotAvailable ==> message@
                == "merge_split_and_original workload not available on this leanVM pin"@,
            *self is MergeSplitAndLeavesNotAvailable ==> message@
                == "merge_split_and_leaves workload not available on this leanVM pin"@,
    {
        match self {
            WorkloadError::SplitNotAvailable => "split workload not available on this leanVM pin",
            WorkloadError::MergeSplitAndOriginalNotAvailable =>
                "merge_split_and_original workload not available on this leanVM pin",
            WorkloadError::MergeSplitAndLeavesNotAvailable =>
                "merge_split_and_leaves workload not available on this leanVM pin",
        }
    }
}

/// A workload between two runs of its benchmark.
pub struct WorkloadRun {
    workload: Workload,
    sampling: RunLoop,
}

/// The model of a [`WorkloadRun`].
#[verifier::ext_equal]
pub struct WorkloadState {
    pub workload: Workload,
    pub sampling: LoopState,
}

impl View for WorkloadRun {
    type V = WorkloadState;

    closed spec fn view(&self) -> WorkloadState {
        WorkloadState { workload: self.workload, sampling: self.sampling@ }
    }
}

impl WorkloadState {
    /// The state of a workload before its first run.
    pub open spec fn init(args: CommonArgs, workload: Workload) -> WorkloadState {
        WorkloadState { workload, sampling: LoopState::init(args, workload.topology()) }
    }

    /// What every state of a workload satisfies.
    pub open spec fn wf(self) -> bool {
        &&& self.workload.wf()
        &&& self.sampling.wf()
        &&& self.sampling.topology == self.workload.topology()
    }

    /// Whether all runs have been completed.
    pub open spec fn finished(self) -> bool {
        self.sampling.finished()
    }

    /// The state after one more run.
    pub open spec fn step(self, run: Run) -> WorkloadState {
        WorkloadState { sampling: self.sampling.step(run), ..self }
    }

    /// The state after a sequence of runs.
    pub open spec fn after(self, runs: Seq<Run>) -> WorkloadState
        decreases runs.len(),
    {
        if runs.len() == 0 {
            self
        } else {
            self.after(runs.drop_last()).step(runs.last())
        }
    }

    /// The record for what has been measured so far.
    pub open spec fn record(self, pins: Pins) -> RecordModel {
        self.workload.record(self.sampling.warmup, self.sampling.measured, pins)
    }
}

impl WorkloadRun {
    /// What to do next: benchmark the topology of the workload once more, until
    /// there have been as many runs as were asked for.
    pub fn next_action(&self) -> (action: Action<'_>)
        requires
            self@.wf(),
        ensures
            match action {
                Action::Benchmark(call) => !self@.finished() && call.times_once(
                    self@.workload.topology(),
                ),
                Action::Finished => self@.finished(),
            },
            action is Benchmark <==> self@.sampling.completed < self@.sampling.samples
                + self@.sampling.warmup,
            action matches Action::Benchmark(call) ==> {
                &&& call.topology@ == self@.sampling.topology
                &&& call.tracing == false
                &&& call.silent == true
                &&& call.repeat == 1
            },
    {
        self.sampling.next_action()
    }

    /// Takes note of a run of the benchmark.
    pub fn complete_run(&mut self, elapsed_ns: u128, report: BenchmarkReport)
        requires
            old(self)@.wf(),
            !old(self)@.finished(),
        ensures
            final(self)@ == old(self)@.step(run_loop::run_of(elapsed_ns, report)),
            final(self)@.wf(),
            final(self)@.workload == old(self)@.workload,
            final(self)@.sampling.topology == old(self)@.sampling.topology,
            final(self)@.sampling.samples == old(self)@.sampling.samples,
            final(self)@.sampling.warmup == old(self)@.sampling.warmup,
            final(self)@.sampling.completed == old(self)@.sampling.completed + 1,
            old(self)@.sampling.completed < old(self)@.sampling.warmup
                ==> final(self)@.sampling.measured == old(self)@.sampling.measured,
            old(self)@.sampling.completed >= old(self)@.sampling.warmup ==> {
                &&& final(self)@.sampling.measured.samples_ns
                    == old(self)@.sampling.measured.samples_ns.push(elapsed_ns)
                &&& final(self)@.sampling.measured.reports
                    == old(self)@.sampling.measured.reports.push(report.raw)
            },
            old(self)@.sampling.completed >= old(self)@.sampling.warmup
                && old(self)@.sampling.measured.proof_sizes.len() > 0
                ==> final(self)@.sampling.measured.proof_sizes
                == old(self)@.sampling.measured.proof_sizes,
            old(self)@.sampling.completed >= old(self)@.sampling.warmup
                && old(self)@.sampling.measured.proof_sizes.len() == 0 ==> {
                &&& final(self)@.sampling.measured.proof_sizes.len() == report.nodes@.len()
                &&& forall|i: int|
                    #![trigger final(self)@.sampling.measured.proof_sizes[i]]
                    0 <= i < report.nodes@.len() ==> {
                        let entry = final(self)@.sampling.measured.proof_sizes[i];
                        &&& entry.path == report.nodes@[i].path@
                        &&& entry.depth == report.nodes@[i].path@.len()
                        &&& entry.kib == report.nodes@[i].proof_kib
                    }
            },
    {
        self.sampling.complete_run(elapsed_ns, report);
    }

    /// The record of the workload, once all runs have been completed.
    pub fn finish(self, pins: &BuildPins) -> (made: Record)
        requires
            self@.wf(),
            self@.finished(),
        ensures
            made@ == self@.record(pins@),
            made.samples_ns@.len() == self@.sampling.samples,
            made.workload@ == self@.workload.name(),
            made.unit@ == "ns"@,
            made.samples_ns@ == self@.sampling.measured.samples_ns,
            made.warmup == self@.sampling.warmup,
            json::model(made.meta) == self@.workload.meta(self@.sampling.measured),
            made.leansig_sha@ == pins.leansig_sha@,
            made.leanmultisig_sha@ == pins.leanmultisig_sha@,
            made.leansig_branch@ == pins.leansig_branch@,
            made.leanmultisig_branch@ == pins.leanmultisig_branch@,
    {
        let warmup: usize = self.sampling.warmup();
        let measured = self.sampling.into_measured();
        match self.workload {
            Workload::Flat { n } => flat_record(n, warmup, measured, pins),
            Workload::Tree { fan, n } => tree_record(fan, n, warmup, measured, pins),
            Workload::Deep { root_fan, mid_fan, n } => {
                deep_record(root_fan, mid_fan, n, warmup, measured, pins)
            },
        }
    }
}

/// One leaf aggregator over `n` raw signatures.
/// Aggregation does heavy one-time setup, which the first run amortises, so the
/// warm-up runs matter: only the samples after them are counted.
pub fn flat_r2(args: &CommonArgs, n: usize) -> (started: Result<WorkloadRun, WorkloadError>)
    requires
        args.samples + args.warmup <= usize::MAX,
    ensures
        started is Ok,
        started->Ok_0@ == WorkloadState::init(*args, Workload::Flat { n }),
        started->Ok_0@.wf(),
        started->Ok_0@.workload == (Workload::Flat { n }),
        started->Ok_0@.sampling.samples == args.samples,
        started->Ok_0@.sampling.warmup == args.warmup,
        started->Ok_0@.sampling.completed == 0,
        started->Ok_0@.sampling.measured.samples_ns.len() == 0,
        started->Ok_0@.sampling.measured.proof_sizes.len() == 0,
        started->Ok_0@.sampling.measured.reports.len() == 0,
        ({
            let root = started->Ok_0@.sampling.topology;
            &&& root.raw_xmss == n
            &&& root.children.len() == 0
            &&& root.log_inv_rate == 2
            &&& root.overlap == 0
        }),
{
    proof {
        topology::law_flat_shape(n as nat);
    }
    let workload = Workload::Flat { n };
    Ok(WorkloadRun { workload, sampling: run_loop(args, flat_topology(n)) })
}

/// `fan`-to-1 recursion: the root combines `fan` leaves of `n` signatures.
/// The samples are total wall times, of all leaves and the recursion step.
/// Subtract `fan` times the flat workload over `n` for the recursion-only cost.
pub fn tree_r2(args: &CommonArgs, fan: usize, n: usize) -> (started: Result<
    WorkloadRun,
    WorkloadError,
>)
    requires
        args.samples + args.warmup <= usize::MAX,
    ensures
        started is Ok,
        started->Ok_0@ == WorkloadState::init(*args, Workload::Tree { fan, n }),
        started->Ok_0@.wf(),
        started->Ok_0@.workload == (Workload::Tree { fan, n }),
        started->Ok_0@.sampling.samples == args.samples,
        started->Ok_0@.sampling.warmup == args.warmup,
        started->Ok_0@.sampling.completed == 0,
        started->Ok_0@.sampling.measured.samples_ns.len() == 0,
        started->Ok_0@.sampling.measured.proof_sizes.len() == 0,
        started->Ok_0@.sampling.measured.reports.len() == 0,
        ({
            let root = started->Ok_0@.sampling.topology;
            &&& root.raw_xmss == 0
            &&& root.children.len() == fan
            &&& root.log_inv_rate == 2
            &&& root.overlap == 0
            &&& forall|i: int|
                0 <= i < fan ==> {
                    let child = #[trigger] root.children[i];
                    &&& child.raw_xmss == n
                    &&& child.children.len() == 0
                    &&& child.log_inv_rate == 2
                    &&& child.overlap == 0
                }
        }),
{
    proof {
        topology::law_tree_shape(fan as nat, n as nat);
    }
    let workload = Workload::Tree { fan, n };
    Ok(WorkloadRun { workload, sampling: run_loop(args, tree_topology(fan, n)) })
}

/// Three-level recursion: the root combines `root_fan` mid-nodes, and each
/// mid-node combines `mid_fan` leaves of `n` signatures. Probes deep recursion
/// against the wide two-level workload.
pub fn deep_r2(args: &CommonArgs, root_fan: usize, mid_fan: usize, n: usize) -> (started: Result<
    WorkloadRun,
    WorkloadError,
>)
    requires
        args.samples + args.warmup <= usize::MAX,
        root_fan * mid_fan <= usize::MAX,
        root_fan * mid_fan * n <= usize::MAX,
    ensures
        started is Ok,
        started->Ok_0@ == WorkloadState::init(*args, Workload::Deep { root_fan, mid_fan, n }),
        started->Ok_0@.wf(),
        started->Ok_0@.workload == (Workload::Deep { root_fan, mid_fan, n }),
        started->Ok_0@.sampling.samples == args.samples,
        started->Ok_0@.sampling.warmup == args.warmup,
        started->Ok_0@.sampling.completed == 0,
        started->Ok_0@.sampling.measured.samples_ns.len() == 0,
        started->Ok_0@.sampling.measured.proof_sizes.len() == 0,
        started->Ok_0@.sampling.measured.reports.len() == 0,
        ({
            let root = started->Ok_0@.sampling.topology;
            &&& root.raw_xmss == 0
            &&& root.children.len() == root_fan
            &&& root.log_inv_rate == 2
            &&& root.overlap == 0
            &&& forall|i: int|
                0 <= i < root_fan ==> {
                    let mid = #[trigger] root.children[i];
                    &&& mid.raw_xmss == 0
                    &&& mid.children.len() == mid_fan
                    &&& mid.log_inv_rate == 2
                    &&& mid.overlap == 0
                }
            &&& forall|i: int, j: int|
                0 <= i < root_fan && 0 <= j < mid_fan ==> {
                    let child = #[trigger] root.children[i].children[j];
                    &&& child.raw_xmss == n
                    &&& child.children.len() == 0
                    &&& child.log_inv_rate == 2
                    &&& child.overlap == 0
                }
        }),
{
    proof {
        topology::law_deep_shape(root_fan as nat, mid_fan as nat, n as nat);
    }
    let workload = Workload::Deep { root_fan, mid_fan, n };
    Ok(WorkloadRun { workload, sampling: run_loop(args, deep_topology(root_fan, mid_fan, n)) })
}

/// Splitting off a component. Not available.
pub fn split_r2(_args: &CommonArgs, _per_component: usize, _n_components: usize) -> (started:
    Result<WorkloadRun, WorkloadError>)
    ensures
        started is Err,
        started->Err_0 == WorkloadError::SplitNotAvailable,
{
    Err(WorkloadError::SplitNotAvailable)
}

/// Merging a split component with a freshly aggregated one. Not available.
pub fn merge_split_and_original_r2(
    _args: &CommonArgs,
    _per_component: usize,
    _n_components: usize,
) -> (started: Result<WorkloadRun, WorkloadError>)
    ensures
        started is Err,
        started->Err_0 == WorkloadError::MergeSplitAndOriginalNotAvailable,
{
    Err(WorkloadError::MergeSplitAndOriginalNotAvailable)
}

/// Merging a split component with fresh raw signatures. Not available.
pub fn merge_split_and_leaves_r2(
    _args: &CommonArgs,
    _per_component: usize,
    _n_components: usize,
    _n_new_leaves: usize,
) -> (started: Result<WorkloadRun, WorkloadError>)
    ensures
        started is Err,
        started->Err_0 == WorkloadError::MergeSplitAndLeavesNotAvailable,
{
    Err(WorkloadError::MergeSplitAndLeavesNotAvailable)
}

/// Running a workload to its end: after as many runs as were asked for it is
/// finished, and its record holds the durations of the runs after the warm-up,
/// in their order and one per sample, and metadata on exactly those runs.
pub proof fn law_record_of_runs(args: CommonArgs, workload: Workload, runs: Seq<Run>, pins: Pins)
    requires
        runs.len() == args.samples + args.warmup,
    ensures
        ({
            let end = WorkloadState::init(args, workload).after(runs);
            let timed = runs.skip(args.warmup as int);
            &&& end.finished()
            &&& end.record(pins) == workload.record(
                args.warmup,
                run_loop::measurements(timed),
                pins,
            )
            &&& end.record(pins).samples_ns == timed.map_values(|run: Run| run.elapsed_ns)
            &&& end.record(pins).samples_ns.len() == args.samples
        }),
{
    lemma_sampling_after(WorkloadState::init(args, workload), runs);
    run_loop::law_after_runs(args, workload.topology(), runs);
    assert(run_loop::timed_runs(runs, args.warmup) =~= runs.skip(args.warmup as int));
}

/// Until the last run, a workload asks for another one.
pub proof fn law_not_finished_early(args: CommonArgs, workload: Workload, runs: Seq<Run>)
    requires
        runs.len() < args.samples + args.warmup,
    ensures
        !WorkloadState::init(args, workload).after(runs).finished(),
{
    lemma_sampling_after(WorkloadState::init(args, workload), runs);
    run_loop::law_after_runs(args, workload.topology(), runs);
}

/// What the flat workload hands to the benchmark, at every point of its runs, is
/// a single node with all `n` signatures.
pub proof fn law_flat_call(args: CommonArgs, n: usize, runs: Seq<Run>, path: Seq<nat>)
    ensures
        ({
            let root = WorkloadState::init(args, Workload::Flat { n }).after(runs).sampling.topology;
            &&& root.raw_xmss == n
            &&& root.children.len() == 0
            &&& root.log_inv_rate == 2
            &&& root.overlap == 0
        }),
        ({
            let reached = topology::node_at(
                WorkloadState::init(args, Workload::Flat { n }).after(runs).sampling.topology,
                path,
            );
            &&& reached is Some <==> path.len() == 0
            &&& reached matches Some(node) ==> {
                &&& node.raw_xmss == if path.len() == 0 {
                    n as nat
                } else {
                    0
                }
                &&& path.len() == 0 ==> node.children.len() == 0
            }
        }),
{
    lemma_sampling_after(WorkloadState::init(args, Workload::Flat { n }), runs);
    run_loop::law_runs_are_counted(args, (Workload::Flat { n }).topology(), runs);
    topology::law_flat_shape(n as nat);
    topology::law_flat_nodes(n as nat, path);
}

/// What the two-level workload hands to the benchmark, at every point of its
/// runs, is a root over exactly `fan` leaves with `n` signatures each.
pub proof fn law_tree_call(args: CommonArgs, fan: usize, n: usize, runs: Seq<Run>, path: Seq<nat>)
    ensures
        ({
            let root = WorkloadState::init(args, Workload::Tree { fan, n }).after(runs).sampling.topology;
            &&& root.raw_xmss == 0
            &&& root.children.len() == fan
            &&& root.log_inv_rate == 2
            &&& root.overlap == 0
            &&& forall|i: int|
                0 <= i < fan ==> {
                    let child = #[trigger] root.children[i];
                    &&& child.raw_xmss == n
                    &&& child.children.len() == 0
                    &&& child.log_inv_rate == 2
                    &&& child.overlap == 0
                }
        }),
        ({
            let reached = topology::node_at(
                WorkloadState::init(args, Workload::Tree { fan, n }).after(runs).sampling.topology,
                path,
            );
            &&& reached is Some <==> path.len() == 0 || (path.len() == 1 && path[0] < fan)
            &&& reached matches Some(node) ==> {
                &&& node.raw_xmss == if path.len() == 1 {
                    n as nat
                } else {
                    0
                }
                &&& path.len() == 0 ==> node.children.len() == fan
                &&& path.len() == 1 ==> node.children.len() == 0
            }
        }),
{
    lemma_sampling_after(WorkloadState::init(args, Workload::Tree { fan, n }), runs);
    run_loop::law_runs_are_counted(args, (Workload::Tree { fan, n }).topology(), runs);
    topology::law_tree_shape(fan as nat, n as nat);
    topology::law_tree_nodes(fan as nat, n as nat, path);
    topology::law_flat_shape(n as nat);
}

/// What the three-level workload hands to the benchmark, at every point of its
/// runs, is a root over exactly `root_fan` mid-nodes, each over exactly `mid_fan`
/// leaves with `n` signatures each.
pub proof fn law_deep_call(args: CommonArgs, root_fan: usize, mid_fan: usize, n: usize, runs: Seq<Run>, path: Seq<nat>)
    ensures
        ({
            let root = WorkloadState::init(args, Workload::Deep { root_fan, mid_fan, n }).after(runs).sampling.topology;
            &&& root.raw_xmss == 0
            &&& root.children.len() == root_fan
            &&& root.log_inv_rate == 2
            &&& root.overlap == 0
            &&& forall|i: int|
                0 <= i < root_fan ==> {
                    let mid = #[trigger] root.children[i];
                    &&& mid.raw_xmss == 0
                    &&& mid.children.len() == mid_fan
                    &&& mid.log_inv_rate == 2
                    &&& mid.overlap == 0
                }
            &&& forall|i: int, j: int|
                0 <= i < root_fan && 0 <= j < mid_fan ==> {
                    let child = #[trigger] root.children[i].children[j];
                    &&& child.raw_xmss == n
                    &&& child.children.len() == 0
                    &&& child.log_inv_rate == 2
                    &&& child.overlap == 0
                }
        }),
        ({
            let reached = topology::node_at(
                WorkloadState::init(args, Workload::Deep { root_fan, mid_fan, n }).after(runs).sampling.topology,
                path,
            );
            &&& reached is Some <==> path.len() == 0 || (path.len() == 1 && path[0] < root_fan) || (path.len() == 2
                && path[0] < root_fan && path[1] < mid_fan)
            &&& reached matches Some(node) ==> {
                &&& node.raw_xmss == if path.len() == 2 {
                    n as nat
                } else {
                    0
                }
                &&& path.len() == 0 ==> node.children.len() == root_fan
                &&& path.len() == 1 ==> node.children.len() == mid_fan
                &&& path.len() == 2 ==> node.children.len() == 0
            }
        }),
{
    lemma_sampling_after(WorkloadState::init(args, Workload::Deep { root_fan, mid_fan, n }), runs);
    run_loop::law_runs_are_counted(args, (Workload::Deep { root_fan, mid_fan, n }).topology(), runs);
    topology::law_deep_shape(root_fan as nat, mid_fan as nat, n as nat);
    topology::law_deep_nodes(root_fan as nat, mid_fan as nat, n as nat, path);
    topology::law_tree_shape(mid_fan as nat, n as nat);
    topology::law_flat_shape(n as nat);
}

/// The record of a finished workload, stated on its runs: the unit is the
/// nanosecond, the warm-up and the pins are those that were given, and for every
/// sample the duration and the report, each at the sample's place, are those of
/// the same run, counted from the end of the warm-up.
pub proof fn law_record_holds_each_timed_run(
    args: CommonArgs,
    workload: Workload,
    runs: Seq<Run>,
    pins: Pins,
)
    requires
        runs.len() == args.samples + args.warmup,
    ensures
        ({
            let made = WorkloadState::init(args, workload).after(runs).record(pins);
            let reports = made.meta->Object_0["reports"@];
            &&& made.unit == "ns"@
            &&& made.warmup == args.warmup
            &&& made.pins == pins
            &&& made.samples_ns.len() == args.samples
            &&& forall|i: int|
                0 <= i < args.samples ==> #[trigger] made.samples_ns[i] == runs[i
                    + args.warmup].elapsed_ns
            &&& made.meta is Object
            &&& reports is Array
            &&& reports->Array_0.len() == args.samples
            &&& forall|i: int|
                0 <= i < args.samples ==> #[trigger] reports->Array_0[i] == json::model(
                    runs[i + args.warmup].raw,
                )
        }),
{
    let end = WorkloadState::init(args, workload).after(runs);
    lemma_sampling_after(WorkloadState::init(args, workload), runs);
    run_loop::law_runs_are_counted(args, workload.topology(), runs);
    run_loop::law_samples_and_reports(args, workload.topology(), runs);
    workload::law_record_of_workload(workload, args.warmup, end.sampling.measured, pins);
    workload::law_measured_meta(workload, end.sampling.measured);
}

/// The proof sizes in the record of a workload, stated on its runs, where run `k`
/// is the first timed one that reports any nodes: for each node of that run there
/// is an object, at the node's place, with the node's path, the length of the path
/// and the node's proof size. The root size is that of the first node with an
/// empty path, `null` without one, and the leaf size is that of the first node
/// among those with the longest paths.
pub proof fn law_record_surfaces_each_node(
    args: CommonArgs,
    workload: Workload,
    runs: Seq<Run>,
    pins: Pins,
    k: int,
)
    requires
        args.warmup <= k < runs.len(),
        runs[k].nodes.len() > 0,
        forall|j: int| args.warmup <= j < k ==> (#[trigger] runs[j]).nodes.len() == 0,
        forall|i: int|
            0 <= i < runs[k].nodes.len() ==> (#[trigger] runs[k].nodes[i]).path.len() <= usize::MAX,
    ensures
        ({
            let nodes = runs[k].nodes;
            let by_path = WorkloadState::init(args, workload).after(runs).record(
                pins,
            ).meta->Object_0["proof_kib_by_path"@];
            &&& by_path is Array
            &&& by_path->Array_0.len() == nodes.len()
            &&& forall|i: int|
                #![trigger by_path->Array_0[i]]
                0 <= i < nodes.len() ==> {
                    let object = by_path->Array_0[i];
                    &&& object is Object
                    &&& object->Object_0.dom() == set!["path"@, "depth"@, "kib"@]
                    &&& object->Object_0["path"@] is Array
                    &&& object->Object_0["path"@]->Array_0.len() == nodes[i].path.len()
                    &&& forall|p: int|
                        0 <= p < nodes[i].path.len()
                            ==> #[trigger] object->Object_0["path"@]->Array_0[p]
                            == Json::Unsigned(nodes[i].path[p] as nat)
                    &&& object->Object_0["depth"@] == Json::Unsigned(nodes[i].path.len())
                    &&& object->Object_0["kib"@] == Json::Unsigned(nodes[i].proof_kib as nat)
                }
        }),
        ({
            let nodes = runs[k].nodes;
            let root = WorkloadState::init(args, workload).after(runs).record(
                pins,
            ).meta->Object_0["proof_kib_root"@];
            &&& (forall|i: int| 0 <= i < nodes.len() ==> (#[trigger] nodes[i]).path.len() != 0)
                ==> root == Json::Null
            &&& forall|i: int|
                #![trigger nodes[i]]
                0 <= i < nodes.len() && nodes[i].path.len() == 0 && (forall|j: int|
                    0 <= j < i ==> (#[trigger] nodes[j]).path.len() != 0) ==> root
                    == Json::Unsigned(nodes[i].proof_kib as nat)
        }),
        ({
            let nodes = runs[k].nodes;
            let leaf = WorkloadState::init(args, workload).after(runs).record(
                pins,
            ).meta->Object_0["proof_kib_leaf"@];
            forall|i: int|
                #![trigger nodes[i]]
                0 <= i < nodes.len() && (forall|j: int|
                    0 <= j < nodes.len() ==> (#[trigger] nodes[j]).path.len()
                        <= nodes[i].path.len()) && (forall|j: int|
                    0 <= j < i ==> (#[trigger] nodes[j]).path.len() < nodes[i].path.len()) ==> leaf
                    == Json::Unsigned(nodes[i].proof_kib as nat)
        }),
{
    let end = WorkloadState::init(args, workload).after(runs);
    lemma_sampling_after(WorkloadState::init(args, workload), runs);
    run_loop::law_runs_are_counted(args, workload.topology(), runs);
    run_loop::law_sizes_of_first_reporting_run(args, workload.topology(), runs, k);
    let measured = end.sampling.measured;
    workload::law_record_of_workload(workload, args.warmup, measured, pins);
    workload::law_measured_meta(workload, measured);
    let nodes = runs[k].nodes;
    let sizes = measured.proof_sizes;
    let made = end.record(pins);
    assert(made.meta == workload.meta(measured));
    if forall|i: int| 0 <= i < nodes.len() ==> (#[trigger] nodes[i]).path.len() != 0 {
        assert forall|i: int| 0 <= i < sizes.len() implies (#[trigger] sizes[i]).depth != 0 by {
            assert(nodes[i].path.len() != 0);
        }
    }
    assert forall|i: int|
        #![trigger nodes[i]]
        0 <= i < nodes.len() && nodes[i].path.len() == 0 && (forall|j: int|
            0 <= j < i ==> (#[trigger] nodes[j]).path.len() != 0) implies made.meta->Object_0[
        "proof_kib_root"@] == Json::Unsigned(nodes[i].proof_kib as nat) by {
        assert forall|j: int| 0 <= j < i implies (#[trigger] sizes[j]).depth != 0 by {
            assert(nodes[j].path.len() != 0);
        }
        assert(sizes[i].depth == 0);
    }
    assert forall|i: int|
        #![trigger nodes[i]]
        0 <= i < nodes.len() && (forall|j: int|
            0 <= j < nodes.len() ==> (#[trigger] nodes[j]).path.len() <= nodes[i].path.len()) && (
        forall|j: int|
            0 <= j < i ==> (#[trigger] nodes[j]).path.len() < nodes[i].path.len()) implies
        made.meta->Object_0["proof_kib_leaf"@] == Json::Unsigned(nodes[i].proof_kib as nat) by {
        assert forall|j: int| 0 <= j < sizes.len() implies (#[trigger] sizes[j]).depth
            <= sizes[i].depth by {
            assert(nodes[j].path.len() <= nodes[i].path.len());
        }
        assert forall|j: int| 0 <= j < i implies (#[trigger] sizes[j]).depth < sizes[i].depth by {
            assert(nodes[j].path.len() < nodes[i].path.len());
        }
    }
}

/// Where no timed run reports any nodes, the record has no proof sizes.
pub proof fn law_record_without_nodes(
    args: CommonArgs,
    workload: Workload,
    runs: Seq<Run>,
    pins: Pins,
)
    requires
        forall|j: int| args.warmup <= j < runs.len() ==> (#[trigger] runs[j]).nodes.len() == 0,
    ensures
        ({
            let meta = WorkloadState::init(args, workload).after(runs).record(pins).meta;
            &&& meta->Object_0["proof_kib_by_path"@] is Array
            &&& meta->Object_0["proof_kib_by_path"@]->Array_0.len() == 0
            &&& meta->Object_0["proof_kib_root"@] == Json::Null
            &&& meta->Object_0["proof_kib_leaf"@] == Json::Null
        }),
{
    let end = WorkloadState::init(args, workload).after(runs);
    lemma_sampling_after(WorkloadState::init(args, workload), runs);
    run_loop::law_runs_are_counted(args, workload.topology(), runs);
    run_loop::law_no_sizes_without_nodes(args, workload.topology(), runs);
    workload::law_record_of_workload(workload, args.warmup, end.sampling.measured, pins);
    workload::law_measured_meta(workload, end.sampling.measured);
}

/// The record of the flat workload has its name and describes its topology, with
/// these fields in its metadata and no others.
pub proof fn law_flat_record(args: CommonArgs, n: usize, runs: Seq<Run>, pins: Pins)
    ensures
        ({
            let made = WorkloadState::init(args, Workload::Flat { n }).after(runs).record(pins);
            &&& made.workload == "aggregate.flat_"@ + text::decimal(n as nat) + "_r2"@
            &&& made.meta is Object
            &&& made.meta->Object_0.dom() == set![
                "raw_xmss"@,
                "log_inv_rate"@,
                "topology"@,
                "proof_kib_root"@,
                "proof_kib_leaf"@,
                "proof_kib_by_path"@,
                "reports"@,
            ]
            &&& made.meta->Object_0["log_inv_rate"@] == Json::Unsigned(2)
            &&& made.meta->Object_0["raw_xmss"@] == Json::Unsigned(n as nat)
            &&& made.meta->Object_0["topology"@] == Json::Text("flat"@)
        }),
{
    let end = WorkloadState::init(args, Workload::Flat { n }).after(runs);
    lemma_sampling_after(WorkloadState::init(args, Workload::Flat { n }), runs);
    run_loop::law_runs_are_counted(args, (Workload::Flat { n }).topology(), runs);
    workload::law_record_of_workload(Workload::Flat { n }, args.warmup, end.sampling.measured, pins);
    workload::law_flat_meta(n, end.sampling.measured);
    workload::law_names(0, 0, n);
}

/// The record of the two-level workload has its name and describes its topology, with
/// these fields in its metadata and no others.
pub proof fn law_tree_record(args: CommonArgs, fan: usize, n: usize, runs: Seq<Run>, pins: Pins)
    ensures
        ({
            let made = WorkloadState::init(args, Workload::Tree { fan, n }).after(runs).record(pins);
            &&& made.workload == "aggregate.tree_"@ + text::decimal(fan as nat) + "x"@ + text::decimal(
                n as nat,
            ) + "_r2"@
            &&& made.meta is Object
            &&& made.meta->Object_0.dom() == set![
                "leaf_raw_xmss"@,
                "fan_in"@,
                "log_inv_rate"@,
                "topology"@,
                "proof_kib_root"@,
                "proof_kib_leaf"@,
                "proof_kib_by_path"@,
                "reports"@,
                "note"@,
            ]
            &&& made.meta->Object_0["log_inv_rate"@] == Json::Unsigned(2)
            &&& made.meta->Object_0["leaf_raw_xmss"@] == Json::Unsigned(n as nat)
            &&& made.meta->Object_0["fan_in"@] == Json::Unsigned(fan as nat)
            &&& made.meta->Object_0["topology"@] == Json::Text(
                text::decimal(fan as nat) + "-to-1 recursion"@,
            )
            &&& made.meta->Object_0["note"@] == Json::Text(
                "recursion-only time = root node `time_secs` from any report; or total - "@
                    + text::decimal(fan as nat) + " × aggregate.flat_"@ + text::decimal(n as nat)
                    + "_r2 as a fallback"@,
            )
        }),
{
    let end = WorkloadState::init(args, Workload::Tree { fan, n }).after(runs);
    lemma_sampling_after(WorkloadState::init(args, Workload::Tree { fan, n }), runs);
    run_loop::law_runs_are_counted(args, (Workload::Tree { fan, n }).topology(), runs);
    workload::law_record_of_workload(Workload::Tree { fan, n }, args.warmup, end.sampling.measured, pins);
    workload::law_tree_meta(fan, n, end.sampling.measured);
    workload::law_names(fan, 0, n);
}

/// The record of the three-level workload has its name and describes its topology, with
/// these fields in its metadata and no others.
pub proof fn law_deep_record(args: CommonArgs, root_fan: usize, mid_fan: usize, n: usize, runs: Seq<Run>, pins: Pins)
    ensures
        ({
            let made = WorkloadState::init(args, Workload::Deep { root_fan, mid_fan, n }).after(runs).record(pins);
            &&& made.workload == "aggregate.deep_"@ + text::decimal(root_fan as nat) + "x"@
                + text::decimal(mid_fan as nat) + "x"@ + text::decimal(n as nat) + "_r2"@
            &&& made.meta is Object
            &&& made.meta->Object_0.dom() == set![
                "leaf_raw_xmss"@,
                "root_fan_in"@,
                "mid_fan_in"@,
                "total_raw_xmss"@,
                "log_inv_rate"@,
                "topology"@,
                "proof_kib_root"@,
                "proof_kib_leaf"@,
                "proof_kib_by_path"@,
                "reports"@,
                "note"@,
            ]
            &&& made.meta->Object_0["log_inv_rate"@] == Json::Unsigned(2)
            &&& made.meta->Object_0["leaf_raw_xmss"@] == Json::Unsigned(n as nat)
            &&& made.meta->Object_0["root_fan_in"@] == Json::Unsigned(root_fan as nat)
            &&& made.meta->Object_0["mid_fan_in"@] == Json::Unsigned(mid_fan as nat)
            &&& made.meta->Object_0["total_raw_xmss"@] == Json::Unsigned(
                (root_fan * mid_fan * n) as nat,
            )
            &&& made.meta->Object_0["topology"@] == Json::Text(
                text::decimal(root_fan as nat) + "-to-1 over "@ + text::decimal(mid_fan as nat)
                    + "-to-1 recursion"@,
            )
            &&& made.meta->Object_0["note"@] == Json::Text(
                "per-node cost is each node's `time_secs` in reports: root is path=[], mids are path=[i], leaves are path=[i,j]"@,
            )
        }),
{
    let end = WorkloadState::init(args, Workload::Deep { root_fan, mid_fan, n }).after(runs);
    lemma_sampling_after(WorkloadState::init(args, Workload::Deep { root_fan, mid_fan, n }), runs);
    run_loop::law_runs_are_counted(args, (Workload::Deep { root_fan, mid_fan, n }).topology(), runs);
    workload::law_record_of_workload(Workload::Deep { root_fan, mid_fan, n }, args.warmup, end.sampling.measured, pins);
    workload::law_deep_meta(root_fan, mid_fan, n, end.sampling.measured);
    workload::law_names(root_fan, mid_fan, n);
}

proof fn lemma_sampling_after(state: WorkloadState, runs: Seq<Run>)
    ensures
        state.after(runs).workload == state.workload,
        state.after(runs).sampling == state.sampling.after(runs),
    decreases runs.len(),
{
    if runs.len() > 0 {
        lemma_sampling_after(state, runs.drop_last());
    }
}

} // verus!
