//! Records: what one invocation of the runner measured.

use vstd::prelude::*;

use crate::json;
use crate::json::Json;

verus! {

/// The options that every workload takes.
#[derive(Clone, Copy, Debug)]
pub struct CommonArgs {
    /// Number of timed samples.
    pub samples: usize,
    /// Warm-up iterations discarded before timing.
    pub warmup: usize,
    /// Deterministic seed.
    pub seed: u64,
}

impl Default for CommonArgs {
    fn default() -> (args: Self)
        ensures
            args.samples == 30,
            args.warmup == 3,
            args.seed == 0xC0FFEE,
    {
        CommonArgs { samples: 30, warmup: 3, seed: 0xC0FFEE }
    }
}

/// The commits and branches of the libraries that the runner was built against.
#[derive(Clone, Copy, Debug)]
pub struct BuildPins {
    pub leansig_sha: &'static str,
    pub leanmultisig_sha: &'static str,
    pub leansig_branch: &'static str,
    pub leanmultisig_branch: &'static str,
}

/// The model of a [`BuildPins`].
#[verifier::ext_equal]
pub struct Pins {
    pub leansig_sha: Seq<char>,
    pub leanmultisig_sha: Seq<char>,
    pub leansig_branch: Seq<char>,
    pub leanmultisig_branch: Seq<char>,
}

impl View for BuildPins {
    type V = Pins;

    open spec fn view(&self) -> Pins {
        Pins {
            leansig_sha: self.leansig_sha@,
            leanmultisig_sha: self.leanmultisig_sha@,
            leansig_branch: self.leansig_branch@,
            leanmultisig_branch: self.leanmultisig_branch@,
        }
    }
}

/// A pin as it appears in a record: `unknown` where the build was not told.
pub open spec fn pin(value: Option<&str>) -> Seq<char> {
    match value {
        Some(text) => text@,
        None => "unknown"@,
    }
}

fn pin_or_unknown(value: Option<&'static str>) -> (text: &'static str)
    ensures
        text@ == pin(value),
{
    match value {
        Some(text) => text,
        None => "unknown",
    }
}

impl BuildPins {
    /// The pins of a build, from what the build was told of each.
    pub fn new(
        leansig_sha: Option<&'static str>,
        leanmultisig_sha: Option<&'static str>,
        leansig_branch: Option<&'static str>,
        leanmultisig_branch: Option<&'static str>,
    ) -> (pins: BuildPins)
        ensures
            pins@ == (Pins {
                leansig_sha: pin(leansig_sha),
                leanmultisig_sha: pin(leanmultisig_sha),
                leansig_branch: pin(leansig_branch),
                leanmultisig_branch: pin(leanmultisig_branch),
            }),
            leansig_sha matches Some(text) ==> pins.leansig_sha@ == text@,
            leansig_sha is None ==> pins.leansig_sha@ == "unknown"@,
            leanmultisig_sha matches Some(text) ==> pins.leanmultisig_sha@ == text@,
            leanmultisig_sha is None ==> pins.leanmultisig_sha@ == "unknown"@,
            leansig_branch matches Some(text) ==> pins.leansig_branch@ == text@,
            leansig_branch is None ==> pins.leansig_branch@ == "unknown"@,
            leanmultisig_branch matches Some(text) ==> pins.leanmultisig_branch@ == text@,
            leanmultisig_branch is None ==> pins.leanmultisig_branch@ == "unknown"@,
    {
        BuildPins {
            leansig_sha: pin_or_unknown(leansig_sha),
            leanmultisig_sha: pin_or_unknown(leanmultisig_sha),
            leansig_branch: pin_or_unknown(leansig_branch),
            leanmultisig_branch: pin_or_unknown(leanmultisig_branch),
        }
    }
}

/// The result of a workload: the duration of each timed sample, and metadata
/// that depends on the workload.
pub struct Record {
    pub workload: String,
    pub unit: &'static str,
    pub samples_ns: Vec<u128>,
    pub warmup: usize,
    pub meta: serde_json::Value,
    pub leansig_sha: &'static str,
    pub leanmultisig_sha: &'static str,
    pub leansig_branch: &'static str,
    pub leanmultisig_branch: &'static str,
}

/// The model of a [`Record`].
#[verifier::ext_equal]
pub struct RecordModel {
    pub workload: Seq<char>,
    pub unit: Seq<char>,
    pub samples_ns: Seq<u128>,
    pub warmup: usize,
    pub meta: Json,
    pub pins: Pins,
}

impl View for Record {
    type V = RecordModel;

    open spec fn view(&self) -> RecordModel {
        RecordModel {
            workload: self.workload@,
            unit: self.unit@,
            samples_ns: self.samples_ns@,
            warmup: self.warmup,
            meta: json::model(self.meta),
            pins: Pins {
                leansig_sha: self.leansig_sha@,
                leanmultisig_sha: self.leanmultisig_sha@,
                leansig_branch: self.leansig_branch@,
                leanmultisig_branch: self.leanmultisig_branch@,
            },
        }
    }
}

/// A record with durations in nanoseconds.
pub open spec fn record(
    workload: Seq<char>,
    samples_ns: Seq<u128>,
    warmup: usize,
    meta: Json,
    pins: Pins,
) -> RecordModel {
    RecordModel { workload, unit: "ns"@, samples_ns, warmup, meta, pins }
}

/// A record's unit is the nanosecond, and everything else in it is what was
/// given.
pub proof fn law_record_fields(
    workload: Seq<char>,
    samples_ns: Seq<u128>,
    warmup: usize,
    meta: Json,
    pins: Pins,
)
    ensures
        ({
            let made = record(workload, samples_ns, warmup, meta, pins);
            &&& made.workload == workload
            &&& made.unit == "ns"@
            &&& made.samples_ns == samples_ns
            &&& made.warmup == warmup
            &&& made.meta == meta
            &&& made.pins == pins
        }),
{
}

/// Records and pins are modelled by their own fields.
pub proof fn law_views_are_faithful(made: Record, pins: BuildPins)
    ensures
        made@.workload == made.workload@,
        made@.unit == made.unit@,
        made@.samples_ns == made.samples_ns@,
        made@.warmup == made.warmup,
        made@.meta == json::model(made.meta),
        made@.pins.leansig_sha == made.leansig_sha@,
        made@.pins.leanmultisig_sha == made.leanmultisig_sha@,
        made@.pins.leansig_branch == made.leansig_branch@,
        made@.pins.leanmultisig_branch == made.leanmultisig_branch@,
        pins@.leansig_sha == pins.leansig_sha@,
        pins@.leanmultisig_sha == pins.leanmultisig_sha@,
        pins@.leansig_branch == pins.leansig_branch@,
        pins@.leanmultisig_branch == pins.leanmultisig_branch@,
{
}

/// Puts a record together.
pub fn make_record(
    workload: &str,
    samples_ns: Vec<u128>,
    warmup: usize,
    meta: serde_json::Value,
    pins: &BuildPins,
) -> (made: Record)
    ensures
        made@ == record(workload@, samples_ns@, warmup, json::model(meta), pins@),
        made.workload@ == workload@,
        made.unit@ == "ns"@,
        made.samples_ns@ == samples_ns@,
        made.warmup == warmup,
        made.meta == meta,
        made.leansig_sha@ == pins.leansig_sha@,
        made.leanmultisig_sha@ == pins.leanmultisig_sha@,
        made.leansig_branch@ == pins.leansig_branch@,
        made.leanmultisig_branch@ == pins.leanmultisig_branch@,
{
    Record {
        workload: workload.to_owned(),
        unit: "ns",
        samples_ns,
        warmup,
        meta,
        leansig_sha: pins.leansig_sha,
        leanmultisig_sha: pins.leanmultisig_sha,
        leansig_branch: pins.leansig_branch,
        leanmultisig_branch: pins.leanmultisig_branch,
    }
}

} // verus!
