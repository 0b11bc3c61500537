//! The timed sample loop.
//!
//! The loop decides how often a topology is benchmarked and what is kept of each
//! run. Whoever drives it performs the benchmark that [`RunLoop::next_action`]
//! asks for, takes the time, and hands both back to [`RunLoop::complete_run`].

use vstd::prelude::*;

use crate::proof_size;
use crate::proof_size::{proof_sizes, Node, NodeReport, ProofSize, ProofSizeEntry};
use crate::record::CommonArgs;
use crate::topology::{AggregationTopology, Topology};

verus! {

/// What one run of the benchmark reports: the nodes, and the report as a whole
/// in the form in which it goes into the record.
pub struct BenchmarkReport {
    pub nodes: Vec<NodeReport>,
    pub raw: serde_json::Value,
}

/// One run of the benchmark: how long it took, and what it reported.
pub struct Run {
    pub elapsed_ns: u128,
    pub nodes: Seq<Node>,
    pub raw: serde_json::Value,
}

/// The run that took `elapsed_ns` and reported `report`.
pub open spec fn run_of(elapsed_ns: u128, report: BenchmarkReport) -> Run {
    Run { elapsed_ns, nodes: proof_size::nodes(report.nodes@), raw: report.raw }
}

/// A run has the duration it took, the nodes that were reported, in their order
/// and with their own paths and sizes, and the report as it came.
pub proof fn law_run_of(elapsed_ns: u128, report: BenchmarkReport)
    ensures
        run_of(elapsed_ns, report).elapsed_ns == elapsed_ns,
        run_of(elapsed_ns, report).raw == report.raw,
        run_of(elapsed_ns, report).nodes.len() == report.nodes@.len(),
        forall|i: int|
            #![trigger run_of(elapsed_ns, report).nodes[i]]
            0 <= i < report.nodes@.len() ==> run_of(elapsed_ns, report).nodes[i].path
                == report.nodes@[i].path@ && run_of(elapsed_ns, report).nodes[i].proof_kib
                == report.nodes@[i].proof_kib,
{
}

/// What is kept of the timed runs.
pub struct Measured {
    pub samples_ns: Vec<u128>,
    pub proof_sizes: Vec<ProofSizeEntry>,
    pub reports: Vec<serde_json::Value>,
}

/// The model of a [`Measured`].
#[verifier::ext_equal]
pub struct Measurements {
    pub samples_ns: Seq<u128>,
    pub proof_sizes: Seq<ProofSize>,
    pub reports: Seq<serde_json::Value>,
}

impl View for Measured {
    type V = Measurements;

    open spec fn view(&self) -> Measurements {
        Measurements {
            samples_ns: self.samples_ns@,
            proof_sizes: proof_size::sizes(self.proof_sizes@),
            reports: self.reports@,
        }
    }
}

/// What the benchmark is to be called with.
pub struct BenchmarkCall<'a> {
    pub topology: &'a AggregationTopology,
    /// The benchmark's flag before `silent`.
    pub tracing: bool,
    /// Whether the benchmark keeps its rendering off the terminal, so that the
    /// record is the only thing that is printed.
    pub silent: bool,
    /// The count that the benchmark takes last.
    pub repeat: usize,
}

impl<'a> BenchmarkCall<'a> {
    /// Whether this is the call that times one aggregation of `topology`: silent,
    /// with the flag before that off and a count of one.
    pub open spec fn times_once(self, topology: Topology) -> bool {
        &&& self.topology@ == topology
        &&& !self.tracing
        &&& self.silent
        &&& self.repeat == 1
    }
}

/// What the driver of a loop is to do next.
pub enum Action<'a> {
    /// Call the benchmark once more.
    Benchmark(BenchmarkCall<'a>),
    /// Nothing: all runs have been completed.
    Finished,
}

/// A sample loop between two runs.
pub struct RunLoop {
    topology: AggregationTopology,
    samples: usize,
    warmup: usize,
    completed: usize,
    measured: Measured,
}

/// The model of a [`RunLoop`].
#[verifier::ext_equal]
pub struct LoopState {
    pub topology: Topology,
    pub samples: usize,
    pub warmup: usize,
    pub completed: nat,
    pub measured: Measurements,
}

impl View for RunLoop {
    type V = LoopState;

    closed spec fn view(&self) -> LoopState {
        LoopState {
            topology: self.topology@,
            samples: self.samples,
            warmup: self.warmup,
            completed: self.completed as nat,
            measured: self.measured@,
        }
    }
}

impl LoopState {
    /// The state of a loop before its first run.
    pub open spec fn init(args: CommonArgs, topology: Topology) -> LoopState {
        LoopState {
            topology,
            samples: args.samples,
            warmup: args.warmup,
            completed: 0,
            measured: Measurements {
                samples_ns: Seq::empty(),
                proof_sizes: Seq::empty(),
                reports: Seq::empty(),
            },
        }
    }

    /// What every state of a loop satisfies: no more runs than were asked for,
    /// and a duration and a report for each run after the warm-up.
    pub open spec fn wf(self) -> bool {
        &&& self.samples + self.warmup <= usize::MAX
        &&& self.completed <= self.samples + self.warmup
        &&& self.measured.samples_ns.len() == self.timed()
        &&& self.measured.reports.len() == self.timed()
    }

    /// The number of timed runs so far.
    pub open spec fn timed(self) -> nat {
        if self.completed <= self.warmup {
            0
        } else {
            (self.completed - self.warmup) as nat
        }
    }

    /// Whether all runs have been completed.
    pub open spec fn finished(self) -> bool {
        self.completed >= self.samples + self.warmup
    }

    /// The state after one more run. A warm-up run is only counted. Of a timed
    /// run the duration and the report are kept; its proof sizes are surfaced
    /// unless some have been already.
    pub open spec fn step(self, run: Run) -> LoopState {
        let measured = if self.completed < self.warmup {
            self.measured
        } else {
            Measurements {
                samples_ns: self.measured.samples_ns.push(run.elapsed_ns),
                proof_sizes: if self.measured.proof_sizes.len() == 0 {
                    proof_size::sizes_of_nodes(run.nodes)
                } else {
                    self.measured.proof_sizes
                },
                reports: self.measured.reports.push(run.raw),
            }
        };
        LoopState { completed: self.completed + 1, measured, ..self }
    }

    /// The state after a sequence of runs.
    pub open spec fn after(self, runs: Seq<Run>) -> LoopState
        decreases runs.len(),
    {
        if runs.len() == 0 {
            self
        } else {
            self.after(runs.drop_last()).step(runs.last())
        }
    }
}

/// Starts the sample loop on a topology.
pub fn run_loop(args: &CommonArgs, topology: AggregationTopology) -> (started: RunLoop)
    requires
        args.samples + args.warmup <= usize::MAX,
    ensures
        started@ == LoopState::init(*args, topology@),
        started@.wf(),
        started@.topology == topology@,
        started@.samples == args.samples,
        started@.warmup == args.warmup,
        started@.completed == 0,
        started@.measured.samples_ns.len() == 0,
        started@.measured.proof_sizes.len() == 0,
        started@.measured.reports.len() == 0,
{
    let started = RunLoop {
        topology,
        samples: args.samples,
        warmup: args.warmup,
        completed: 0,
        measured: Measured {
            samples_ns: Vec::new(),
            proof_sizes: Vec::new(),
            reports: Vec::new(),
        },
    };
    assert(started@.measured =~= LoopState::init(*args, topology@).measured);
    started
}

impl RunLoop {
    /// What to do next: another run of the topology, until there have been as
    /// many warm-up runs and timed runs as were asked for.
    pub fn next_action(&self) -> (action: Action<'_>)
        requires
            self@.wf(),
        ensures
            match action {
                Action::Benchmark(call) => !self@.finished() && call.times_once(self@.topology),
                Action::Finished => self@.finished(),
            },
            action is Benchmark <==> self@.completed < self@.samples + self@.warmup,
            action matches Action::Benchmark(call) ==> {
                &&& call.topology@ == self@.topology
                &&& call.tracing == false
                &&& call.silent == true
                &&& call.repeat == 1
            },
    {
        if self.completed < self.samples + self.warmup {
            Action::Benchmark(
                BenchmarkCall { topology: &self.topology, tracing: false, silent: true, repeat: 1 },
            )
        } else {
            Action::Finished
        }
    }

    /// Takes note of a run.
    pub fn complete_run(&mut self, elapsed_ns: u128, report: BenchmarkReport)
        requires
            old(self)@.wf(),
            !old(self)@.finished(),
        ensures
            final(self)@ == old(self)@.step(run_of(elapsed_ns, report)),
            final(self)@.wf(),
            final(self)@.topology == old(self)@.topology,
            final(self)@.samples == old(self)@.samples,
            final(self)@.warmup == old(self)@.warmup,
            final(self)@.completed == old(self)@.completed + 1,
            old(self)@.completed < old(self)@.warmup ==> final(self)@.measured
                == old(self)@.measured,
            old(self)@.completed >= old(self)@.warmup ==> {
                &&& final(self)@.measured.samples_ns == old(self)@.measured.samples_ns.push(
                    elapsed_ns,
                )
                &&& final(self)@.measured.reports == old(self)@.measured.reports.push(report.raw)
            },
            old(self)@.completed >= old(self)@.warmup && old(self)@.measured.proof_sizes.len() > 0
                ==> final(self)@.measured.proof_sizes == old(self)@.measured.proof_sizes,
            old(self)@.completed >= old(self)@.warmup && old(self)@.measured.proof_sizes.len() == 0
                ==> {
                &&& final(self)@.measured.proof_sizes.len() == report.nodes@.len()
                &&& forall|i: int|
                    #![trigger final(self)@.measured.proof_sizes[i]]
                    0 <= i < report.nodes@.len() ==> {
                        let entry = final(self)@.measured.proof_sizes[i];
                        &&& entry.path == report.nodes@[i].path@
                        &&& entry.depth == report.nodes@[i].path@.len()
                        &&& entry.kib == report.nodes@[i].proof_kib
                    }
            },
    {
        if self.completed >= self.warmup {
            self.measured.samples_ns.push(elapsed_ns);
            if self.measured.proof_sizes.len() == 0 {
                self.measured.proof_sizes = proof_sizes(&report.nodes);
            }
            self.measured.reports.push(report.raw);
        }
        self.completed = self.completed + 1;
        assert(self@.measured =~= old(self)@.step(run_of(elapsed_ns, report)).measured);
    }

    /// The number of warm-up runs that were asked for.
    pub fn warmup(&self) -> (warmup: usize)
        ensures
            warmup == self@.warmup,
    {
        self.warmup
    }

    /// What was kept of the timed runs.
    pub fn into_measured(self) -> (measured: Measured)
        ensures
            measured@ == self@.measured,
            measured.samples_ns@ == self@.measured.samples_ns,
            measured.reports@ == self@.measured.reports,
            measured.proof_sizes@.len() == self@.measured.proof_sizes.len(),
            forall|i: int|
                0 <= i < measured.proof_sizes@.len() ==> {
                    let entry = #[trigger] measured.proof_sizes@[i];
                    &&& entry.path@ == self@.measured.proof_sizes[i].path
                    &&& entry.depth == self@.measured.proof_sizes[i].depth
                    &&& entry.kib == self@.measured.proof_sizes[i].kib
                },
    {
        self.measured
    }
}

/// The runs that come after the warm-up.
pub open spec fn timed_runs(runs: Seq<Run>, warmup: usize) -> Seq<Run> {
    if runs.len() <= warmup {
        Seq::empty()
    } else {
        runs.skip(warmup as int)
    }
}

/// Whether run `i` is the first one that reports any nodes.
pub open spec fn is_first_reporting(runs: Seq<Run>, i: int) -> bool {
    &&& 0 <= i < runs.len()
    &&& runs[i].nodes.len() > 0
    &&& forall|j: int| 0 <= j < i ==> (#[trigger] runs[j]).nodes.len() == 0
}

/// The proof sizes that are surfaced of a sequence of timed runs: those of the
/// first run that reports any nodes.
pub open spec fn surfaced_sizes(runs: Seq<Run>) -> Seq<ProofSize> {
    if exists|i: int| is_first_reporting(runs, i) {
        proof_size::sizes_of_nodes(runs[choose|i: int| is_first_reporting(runs, i)].nodes)
    } else {
        Seq::empty()
    }
}

/// What is kept of a sequence of timed runs.
pub open spec fn measurements(runs: Seq<Run>) -> Measurements {
    Measurements {
        samples_ns: runs.map_values(|run: Run| run.elapsed_ns),
        proof_sizes: surfaced_sizes(runs),
        reports: runs.map_values(|run: Run| run.raw),
    }
}

proof fn lemma_surfaced(runs: Seq<Run>, i: int)
    requires
        is_first_reporting(runs, i),
    ensures
        surfaced_sizes(runs) == proof_size::sizes_of_nodes(runs[i].nodes),
{
    let k = choose|k: int| is_first_reporting(runs, k);
    assert(is_first_reporting(runs, k));
    assert(runs[k].nodes.len() > 0 && runs[i].nodes.len() > 0);
}

proof fn lemma_surfaced_of_push(runs: Seq<Run>, run: Run)
    ensures
        surfaced_sizes(runs.push(run)) == if surfaced_sizes(runs).len() == 0 {
            proof_size::sizes_of_nodes(run.nodes)
        } else {
            surfaced_sizes(runs)
        },
{
    let longer = runs.push(run);
    assert(forall|j: int| 0 <= j < runs.len() ==> #[trigger] longer[j] == runs[j]);
    if exists|i: int| is_first_reporting(runs, i) {
        let i = choose|i: int| is_first_reporting(runs, i);
        assert(is_first_reporting(longer, i));
        lemma_surfaced(longer, i);
    } else {
        assert forall|j: int| 0 <= j < runs.len() implies (#[trigger] runs[j]).nodes.len() == 0 by {
            lemma_first_reporting_exists(runs, j);
        }
        if run.nodes.len() > 0 {
            assert(is_first_reporting(longer, runs.len() as int));
            lemma_surfaced(longer, runs.len() as int);
        } else {
            assert(forall|i: int| !is_first_reporting(longer, i));
            assert(proof_size::sizes_of_nodes(run.nodes) =~= Seq::<ProofSize>::empty());
        }
    }
}

proof fn lemma_first_reporting_exists(runs: Seq<Run>, i: int)
    requires
        0 <= i < runs.len(),
    ensures
        runs[i].nodes.len() > 0 ==> exists|k: int| is_first_reporting(runs, k),
    decreases i,
{
    if runs[i].nodes.len() > 0 {
        if exists|j: int| 0 <= j < i && (#[trigger] runs[j]).nodes.len() > 0 {
            let j = choose|j: int| 0 <= j < i && (#[trigger] runs[j]).nodes.len() > 0;
            lemma_first_reporting_exists(runs, j);
        } else {
            assert(is_first_reporting(runs, i));
        }
    }
}

/// After any sequence of runs, a loop has counted all of them and kept what is
/// to be kept of those that came after the warm-up, in their order.
pub proof fn law_after_runs(args: CommonArgs, topology: Topology, runs: Seq<Run>)
    ensures
        LoopState::init(args, topology).after(runs) == (LoopState {
            topology,
            samples: args.samples,
            warmup: args.warmup,
            completed: runs.len(),
            measured: measurements(timed_runs(runs, args.warmup)),
        }),
    decreases runs.len(),
{
    let state = LoopState::init(args, topology).after(runs);
    let kept = timed_runs(runs, args.warmup);
    if runs.len() == 0 {
        assert(forall|i: int| !is_first_reporting(kept, i));
        assert(state.measured =~= measurements(kept));
    } else {
        let before = runs.drop_last();
        law_after_runs(args, topology, before);
        let kept_before = timed_runs(before, args.warmup);
        if before.len() < args.warmup {
            assert(kept =~= kept_before);
        } else {
            assert(kept =~= kept_before.push(runs.last()));
            lemma_surfaced_of_push(kept_before, runs.last());
            assert(state.measured =~= measurements(kept));
        }
    }
}

/// The measurements are modelled by their own fields.
pub proof fn law_views_are_faithful(measured: Measured)
    ensures
        measured@.samples_ns == measured.samples_ns@,
        measured@.reports == measured.reports@,
        measured@.proof_sizes.len() == measured.proof_sizes@.len(),
        forall|i: int|
            #![trigger measured@.proof_sizes[i]]
            0 <= i < measured.proof_sizes@.len() ==> {
                &&& measured@.proof_sizes[i].path == measured.proof_sizes@[i].path@
                &&& measured@.proof_sizes[i].depth == measured.proof_sizes@[i].depth
                &&& measured@.proof_sizes[i].kib == measured.proof_sizes@[i].kib
            },
{
}

/// A run changes neither what is benchmarked nor how often, and no run is lost
/// from the count.
pub proof fn law_runs_are_counted(args: CommonArgs, topology: Topology, runs: Seq<Run>)
    ensures
        ({
            let state = LoopState::init(args, topology).after(runs);
            &&& state.topology == topology
            &&& state.samples == args.samples
            &&& state.warmup == args.warmup
            &&& state.completed == runs.len()
        }),
{
    law_after_runs(args, topology, runs);
}

/// The durations and the reports are those of the runs after the warm-up, all of
/// them and in the order of the runs: the duration and the report at one place
/// belong to the same run.
pub proof fn law_samples_and_reports(args: CommonArgs, topology: Topology, runs: Seq<Run>)
    requires
        runs.len() >= args.warmup,
    ensures
        ({
            let measured = LoopState::init(args, topology).after(runs).measured;
            &&& measured.samples_ns.len() == runs.len() - args.warmup
            &&& measured.reports.len() == runs.len() - args.warmup
            &&& forall|i: int|
                0 <= i < runs.len() - args.warmup ==> #[trigger] measured.samples_ns[i] == runs[i
                    + args.warmup].elapsed_ns
            &&& forall|i: int|
                0 <= i < runs.len() - args.warmup ==> #[trigger] measured.reports[i] == runs[i
                    + args.warmup].raw
        }),
{
    law_after_runs(args, topology, runs);
}

/// During the warm-up nothing is kept.
pub proof fn law_nothing_kept_during_warmup(args: CommonArgs, topology: Topology, runs: Seq<Run>)
    requires
        runs.len() <= args.warmup,
    ensures
        ({
            let measured = LoopState::init(args, topology).after(runs).measured;
            &&& measured.samples_ns.len() == 0
            &&& measured.reports.len() == 0
            &&& measured.proof_sizes.len() == 0
        }),
{
    law_after_runs(args, topology, runs);
    assert(forall|i: int| !is_first_reporting(timed_runs(runs, args.warmup), i));
}

/// The surfaced proof sizes are those of the first timed run that reports any
/// nodes, here run `k`: one entry for each of its nodes, at the node's place,
/// with the node's path, the length of the path, and the node's proof size.
pub proof fn law_sizes_of_first_reporting_run(
    args: CommonArgs,
    topology: Topology,
    runs: Seq<Run>,
    k: int,
)
    requires
        args.warmup <= k < runs.len(),
        runs[k].nodes.len() > 0,
        forall|j: int| args.warmup <= j < k ==> (#[trigger] runs[j]).nodes.len() == 0,
        forall|i: int|
            0 <= i < runs[k].nodes.len() ==> (#[trigger] runs[k].nodes[i]).path.len() <= usize::MAX,
    ensures
        ({
            let sizes = LoopState::init(args, topology).after(runs).measured.proof_sizes;
            &&& sizes.len() == runs[k].nodes.len()
            &&& forall|i: int|
                #![trigger sizes[i]]
                0 <= i < runs[k].nodes.len() ==> {
                    &&& sizes[i].path == runs[k].nodes[i].path
                    &&& sizes[i].depth == runs[k].nodes[i].path.len()
                    &&& sizes[i].kib == runs[k].nodes[i].proof_kib
                }
        }),
{
    law_after_runs(args, topology, runs);
    let kept = timed_runs(runs, args.warmup);
    let first = k - args.warmup;
    assert(kept[first] == runs[k]);
    assert forall|j: int| 0 <= j < first implies (#[trigger] kept[j]).nodes.len() == 0 by {
        assert(kept[j] == runs[j + args.warmup]);
    }
    assert(is_first_reporting(kept, first));
    lemma_surfaced(kept, first);
    proof_size::law_every_node_is_surfaced(runs[k].nodes);
}

/// Where no timed run reports any nodes, no proof sizes are surfaced.
pub proof fn law_no_sizes_without_nodes(args: CommonArgs, topology: Topology, runs: Seq<Run>)
    requires
        forall|j: int| args.warmup <= j < runs.len() ==> (#[trigger] runs[j]).nodes.len() == 0,
    ensures
        LoopState::init(args, topology).after(runs).measured.proof_sizes.len() == 0,
{
    law_after_runs(args, topology, runs);
    let kept = timed_runs(runs, args.warmup);
    assert forall|i: int| !is_first_reporting(kept, i) by {
        if 0 <= i < kept.len() {
            assert(kept[i] == runs[i + args.warmup]);
        }
    }
}

/// A loop finishes after exactly as many runs as it was asked for, warm-up
/// included, and then holds one duration and one report per timed sample.
pub proof fn law_run_count(args: CommonArgs, topology: Topology, runs: Seq<Run>)
    ensures
        LoopState::init(args, topology).after(runs).finished() <==> runs.len() >= args.samples
            + args.warmup,
        runs.len() == args.samples + args.warmup ==> {
            let measured = LoopState::init(args, topology).after(runs).measured;
            measured.samples_ns.len() == args.samples && measured.reports.len() == args.samples
        },
{
    law_after_runs(args, topology, runs);
}

/// What happens during the warm-up leaves no trace.
pub proof fn law_warmup_is_discarded(
    args: CommonArgs,
    topology: Topology,
    one: Seq<Run>,
    other: Seq<Run>,
)
    requires
        one.len() == other.len(),
        forall|i: int|
            args.warmup <= i < one.len() ==> #[trigger] one[i] == #[trigger] other[i],
    ensures
        LoopState::init(args, topology).after(one) == LoopState::init(args, topology).after(other),
{
    law_after_runs(args, topology, one);
    law_after_runs(args, topology, other);
    assert(timed_runs(one, args.warmup) =~= timed_runs(other, args.warmup));
}

/// Where every timed run reports the same nodes, the surfaced proof sizes are
/// those of any of them.
pub proof fn law_deterministic_sizes(
    args: CommonArgs,
    topology: Topology,
    runs: Seq<Run>,
    reported: Seq<Node>,
)
    requires
        runs.len() > args.warmup,
        forall|i: int| args.warmup <= i < runs.len() ==> (#[trigger] runs[i]).nodes == reported,
    ensures
        LoopState::init(args, topology).after(runs).measured.proof_sizes
            == proof_size::sizes_of_nodes(reported),
{
    law_after_runs(args, topology, runs);
    let kept = timed_runs(runs, args.warmup);
    assert(kept[0] == runs[args.warmup as int]);
    if reported.len() > 0 {
        assert(is_first_reporting(kept, 0));
        lemma_surfaced(kept, 0);
    } else {
        assert forall|i: int| !is_first_reporting(kept, i) by {
            if 0 <= i < kept.len() {
                assert(kept[i] == runs[i + args.warmup]);
            }
        }
        assert(proof_size::sizes_of_nodes(reported) =~= Seq::<ProofSize>::empty());
    }
}

} // verus!
