//! The aggregation workloads: what each benchmarks, and what its record says.

use vstd::prelude::*;

use crate::json;
use crate::json::{
    array_value, insert_field, new_object, object_value, optional_unsigned_value, text_value,
    unsigned_value, Json,
};
use crate::proof_size;
use crate::proof_size::{root_and_leaf_kib, sizes_value, ProofSizeEntry};
use crate::record;
use crate::record::{make_record, BuildPins, Pins, Record, RecordModel};
use crate::run_loop::{Measured, Measurements};
use crate::text;
use crate::text::push_decimal;
use crate::topology;
use crate::topology::{Topology, LOG_INV_RATE_PROD};

verus! {

/// The workloads that can be run.
#[derive(Clone, Copy, Debug)]
pub enum Workload {
    /// One leaf aggregator over `n` raw signatures.
    Flat { n: usize },
    /// A root over `fan` leaves of `n` signatures.
    Tree { fan: usize, n: usize },
    /// A root over `root_fan` mid-nodes, each over `mid_fan` leaves of `n`
    /// signatures.
    Deep { root_fan: usize, mid_fan: usize, n: usize },
}

/// The name of the flat workload.
pub open spec fn flat_name(n: usize) -> Seq<char> {
    "aggregate.flat_"@ + text::decimal(n as nat) + "_r2"@
}

/// The name of the two-level workload.
pub open spec fn tree_name(fan: usize, n: usize) -> Seq<char> {
    "aggregate.tree_"@ + text::decimal(fan as nat) + "x"@ + text::decimal(n as nat) + "_r2"@
}

/// The name of the three-level workload.
pub open spec fn deep_name(root_fan: usize, mid_fan: usize, n: usize) -> Seq<char> {
    "aggregate.deep_"@ + text::decimal(root_fan as nat) + "x"@ + text::decimal(mid_fan as nat)
        + "x"@ + text::decimal(n as nat) + "_r2"@
}

/// The metadata of the flat workload.
pub open spec fn flat_meta(n: usize, measured: Measurements) -> Json {
    Json::Object(
        map![
            "raw_xmss"@ => Json::Unsigned(n as nat),
            "log_inv_rate"@ => Json::Unsigned(LOG_INV_RATE_PROD as nat),
            "topology"@ => Json::Text("flat"@),
            "proof_kib_root"@ => json::optional_unsigned(
                proof_size::root_kib(measured.proof_sizes),
            ),
            "proof_kib_leaf"@ => json::optional_unsigned(
                proof_size::leaf_kib(measured.proof_sizes),
            ),
            "proof_kib_by_path"@ => proof_size::sizes_json(measured.proof_sizes),
            "reports"@ => Json::Array(json::models(measured.reports)),
        ],
    )
}

/// The description of the topology of the two-level workload.
pub open spec fn tree_description(fan: usize) -> Seq<char> {
    text::decimal(fan as nat) + "-to-1 recursion"@
}

/// How to read the cost of the recursion alone off a record of the two-level
/// workload.
pub open spec fn tree_note(fan: usize, n: usize) -> Seq<char> {
    "recursion-only time = root node `time_secs` from any report; or total - "@ + text::decimal(
        fan as nat,
    ) + " × aggregate.flat_"@ + text::decimal(n as nat) + "_r2 as a fallback"@
}

/// The metadata of the two-level workload.
pub open spec fn tree_meta(fan: usize, n: usize, measured: Measurements) -> Json {
    Json::Object(
        map![
            "leaf_raw_xmss"@ => Json::Unsigned(n as nat),
            "fan_in"@ => Json::Unsigned(fan as nat),
            "log_inv_rate"@ => Json::Unsigned(LOG_INV_RATE_PROD as nat),
            "topology"@ => Json::Text(tree_description(fan)),
            "proof_kib_root"@ => json::optional_unsigned(
                proof_size::root_kib(measured.proof_sizes),
            ),
            "proof_kib_leaf"@ => json::optional_unsigned(
                proof_size::leaf_kib(measured.proof_sizes),
            ),
            "proof_kib_by_path"@ => proof_size::sizes_json(measured.proof_sizes),
            "reports"@ => Json::Array(json::models(measured.reports)),
            "note"@ => Json::Text(tree_note(fan, n)),
        ],
    )
}

/// The description of the topology of the three-level workload.
pub open spec fn deep_description(root_fan: usize, mid_fan: usize) -> Seq<char> {
    text::decimal(root_fan as nat) + "-to-1 over "@ + text::decimal(mid_fan as nat)
        + "-to-1 recursion"@
}

/// How to read the cost of each node off a record of the three-level workload.
pub open spec fn deep_note() -> Seq<char> {
    "per-node cost is each node's `time_secs` in reports: root is path=[], mids are path=[i], leaves are path=[i,j]"@
}

/// The metadata of the three-level workload.
pub open spec fn deep_meta(
    root_fan: usize,
    mid_fan: usize,
    n: usize,
    measured: Measurements,
) -> Json {
    Json::Object(
        map![
            "leaf_raw_xmss"@ => Json::Unsigned(n as nat),
            "root_fan_in"@ => Json::Unsigned(root_fan as nat),
            "mid_fan_in"@ => Json::Unsigned(mid_fan as nat),
            "total_raw_xmss"@ => Json::Unsigned((root_fan * mid_fan * n) as nat),
            "log_inv_rate"@ => Json::Unsigned(LOG_INV_RATE_PROD as nat),
            "topology"@ => Json::Text(deep_description(root_fan, mid_fan)),
            "proof_kib_root"@ => json::optional_unsigned(
                proof_size::root_kib(measured.proof_sizes),
            ),
            "proof_kib_leaf"@ => json::optional_unsigned(
                proof_size::leaf_kib(measured.proof_sizes),
            ),
            "proof_kib_by_path"@ => proof_size::sizes_json(measured.proof_sizes),
            "reports"@ => Json::Array(json::models(measured.reports)),
            "note"@ => Json::Text(deep_note()),
        ],
    )
}

impl Workload {
    /// The name under which the workload is recorded.
    pub open spec fn name(self) -> Seq<char> {
        match self {
            Workload::Flat { n } => flat_name(n),
            Workload::Tree { fan, n } => tree_name(fan, n),
            Workload::Deep { root_fan, mid_fan, n } => deep_name(root_fan, mid_fan, n),
        }
    }

    /// The topology that the workload benchmarks.
    pub open spec fn topology(self) -> Topology {
        match self {
            Workload::Flat { n } => topology::flat(n as nat),
            Workload::Tree { fan, n } => topology::tree(fan as nat, n as nat),
            Workload::Deep { root_fan, mid_fan, n } => topology::deep(
                root_fan as nat,
                mid_fan as nat,
                n as nat,
            ),
        }
    }

    /// The metadata of the workload's record.
    pub open spec fn meta(self, measured: Measurements) -> Json {
        match self {
            Workload::Flat { n } => flat_meta(n, measured),
            Workload::Tree { fan, n } => tree_meta(fan, n, measured),
            Workload::Deep { root_fan, mid_fan, n } => deep_meta(root_fan, mid_fan, n, measured),
        }
    }

    /// Whether the numbers that the record reports can be represented.
    pub open spec fn wf(self) -> bool {
        match self {
            Workload::Deep { root_fan, mid_fan, n } => {
                &&& root_fan * mid_fan <= usize::MAX
                &&& root_fan * mid_fan * n <= usize::MAX
            },
            _ => true,
        }
    }

    /// The record of the workload for what was measured.
    pub open spec fn record(self, warmup: usize, measured: Measurements, pins: Pins) -> RecordModel {
        record::record(self.name(), measured.samples_ns, warmup, self.meta(measured), pins)
    }
}

/// Puts the fields that every workload reports of its measurements into `meta`.
fn insert_measured(
    meta: &mut serde_json::Map<String, serde_json::Value>,
    proof_sizes: &Vec<ProofSizeEntry>,
    reports: Vec<serde_json::Value>,
)
    ensures
        json::fields(*final(meta)) == json::fields(*old(meta)).insert(
            "proof_kib_root"@,
            json::optional_unsigned(proof_size::root_kib(proof_size::sizes(proof_sizes@))),
        ).insert(
            "proof_kib_leaf"@,
            json::optional_unsigned(proof_size::leaf_kib(proof_size::sizes(proof_sizes@))),
        ).insert(
            "proof_kib_by_path"@,
            proof_size::sizes_json(proof_size::sizes(proof_sizes@)),
        ).insert("reports"@, Json::Array(json::models(reports@))),
{
    let (root_kib, leaf_kib) = root_and_leaf_kib(proof_sizes.as_slice());
    insert_field(meta, "proof_kib_root", optional_unsigned_value(root_kib));
    insert_field(meta, "proof_kib_leaf", optional_unsigned_value(leaf_kib));
    insert_field(meta, "proof_kib_by_path", sizes_value(proof_sizes));
    insert_field(meta, "reports", array_value(reports));
}

/// The metadata of the flat workload, from what was measured.
fn flat_meta_value(
    n: usize,
    proof_sizes: &Vec<ProofSizeEntry>,
    reports: Vec<serde_json::Value>,
) -> (value: serde_json::Value)
    ensures
        forall|measured: Measurements|
            measured.proof_sizes == proof_size::sizes(proof_sizes@) && measured.reports
                == reports@ ==> json::model(value) == #[trigger] flat_meta(n, measured),
{
    let mut meta = new_object();
    insert_field(&mut meta, "raw_xmss", unsigned_value(n));
    insert_field(&mut meta, "log_inv_rate", unsigned_value(LOG_INV_RATE_PROD));
    insert_field(&mut meta, "topology", text_value("flat"));
    insert_measured(&mut meta, proof_sizes, reports);
    object_value(meta)
}

/// The record of the flat workload.
pub fn flat_record(n: usize, warmup: usize, measured: Measured, pins: &BuildPins) -> (made: Record)
    ensures
        made@ == (Workload::Flat { n }).record(warmup, measured@, pins@),
        made.workload@ == "aggregate.flat_"@ + text::decimal(n as nat) + "_r2"@,
        made.unit@ == "ns"@,
        made.samples_ns@ == measured.samples_ns@,
        made.warmup == warmup,
        made.leansig_sha@ == pins.leansig_sha@,
        made.leanmultisig_sha@ == pins.leanmultisig_sha@,
        made.leansig_branch@ == pins.leansig_branch@,
        made.leanmultisig_branch@ == pins.leanmultisig_branch@,
        json::model(made.meta) is Object,
        json::model(made.meta)->Object_0["log_inv_rate"@] == Json::Unsigned(2),
        json::model(made.meta)->Object_0["reports"@] is Array,
        json::model(made.meta)->Object_0["reports"@]->Array_0.len() == measured.reports@.len(),
        forall|i: int|
            0 <= i < measured.reports@.len() ==> #[trigger] json::model(
                made.meta,
            )->Object_0["reports"@]->Array_0[i] == json::model(measured.reports@[i]),
        json::model(made.meta)->Object_0["raw_xmss"@] == Json::Unsigned(n as nat),
        json::model(made.meta)->Object_0["topology"@] == Json::Text("flat"@),
{
    let mut name = "aggregate.flat_".to_owned();
    push_decimal(&mut name, n);
    name.append("_r2");
    let meta = flat_meta_value(n, &measured.proof_sizes, measured.reports);
    assert(json::model(meta) == flat_meta(n, measured@));
    let made = make_record(name.as_str(), measured.samples_ns, warmup, meta, pins);
    proof {
        law_flat_meta(n, measured@);
        law_measured_meta(Workload::Flat { n }, measured@);
    }
    made
}

/// The metadata of the two-level workload, from what was measured.
fn tree_meta_value(
    fan: usize,
    n: usize,
    proof_sizes: &Vec<ProofSizeEntry>,
    reports: Vec<serde_json::Value>,
) -> (value: serde_json::Value)
    ensures
        forall|measured: Measurements|
            measured.proof_sizes == proof_size::sizes(proof_sizes@) && measured.reports
                == reports@ ==> json::model(value) == #[trigger] tree_meta(fan, n, measured),
{
    let mut description = String::new();
    push_decimal(&mut description, fan);
    description.append("-to-1 recursion");
    assert(description@ =~= tree_description(fan));
    let mut note =
        "recursion-only time = root node `time_secs` from any report; or total - ".to_owned();
    push_decimal(&mut note, fan);
    note.append(" × aggregate.flat_");
    push_decimal(&mut note, n);
    note.append("_r2 as a fallback");
    let mut meta = new_object();
    insert_field(&mut meta, "leaf_raw_xmss", unsigned_value(n));
    insert_field(&mut meta, "fan_in", unsigned_value(fan));
    insert_field(&mut meta, "log_inv_rate", unsigned_value(LOG_INV_RATE_PROD));
    insert_field(&mut meta, "topology", text_value(description.as_str()));
    insert_measured(&mut meta, proof_sizes, reports);
    insert_field(&mut meta, "note", text_value(note.as_str()));
    object_value(meta)
}

/// The record of the two-level workload.
pub fn tree_record(
    fan: usize,
    n: usize,
    warmup: usize,
    measured: Measured,
    pins: &BuildPins,
) -> (made: Record)
    ensures
        made@ == (Workload::Tree { fan, n }).record(warmup, measured@, pins@),
        made.workload@ == "aggregate.tree_"@ + text::decimal(fan as nat) + "x"@ + text::decimal(
            n as nat,
        ) + "_r2"@,
        made.unit@ == "ns"@,
        made.samples_ns@ == measured.samples_ns@,
        made.warmup == warmup,
        made.leansig_sha@ == pins.leansig_sha@,
        made.leanmultisig_sha@ == pins.leanmultisig_sha@,
        made.leansig_branch@ == pins.leansig_branch@,
        made.leanmultisig_branch@ == pins.leanmultisig_branch@,
        json::model(made.meta) is Object,
        json::model(made.meta)->Object_0["log_inv_rate"@] == Json::Unsigned(2),
        json::model(made.meta)->Object_0["reports"@] is Array,
        json::model(made.meta)->Object_0["reports"@]->Array_0.len() == measured.reports@.len(),
        forall|i: int|
            0 <= i < measured.reports@.len() ==> #[trigger] json::model(
                made.meta,
            )->Object_0["reports"@]->Array_0[i] == json::model(measured.reports@[i]),
        json::model(made.meta)->Object_0["leaf_raw_xmss"@] == Json::Unsigned(n as nat),
        json::model(made.meta)->Object_0["fan_in"@] == Json::Unsigned(fan as nat),
        json::model(made.meta)->Object_0["topology"@] == Json::Text(
            text::decimal(fan as nat) + "-to-1 recursion"@,
        ),
        json::model(made.meta)->Object_0["note"@] == Json::Text(
            "recursion-only time = root node `time_secs` from any report; or total - "@
                + text::decimal(fan as nat) + " × aggregate.flat_"@ + text::decimal(n as nat)
                + "_r2 as a fallback"@,
        ),
{
    let mut name = "aggregate.tree_".to_owned();
    push_decimal(&mut name, fan);
    name.append("x");
    push_decimal(&mut name, n);
    name.append("_r2");
    let meta = tree_meta_value(fan, n, &measured.proof_sizes, measured.reports);
    assert(json::model(meta) == tree_meta(fan, n, measured@));
    let made = make_record(name.as_str(), measured.samples_ns, warmup, meta, pins);
    proof {
        law_tree_meta(fan, n, measured@);
        law_measured_meta(Workload::Tree { fan, n }, measured@);
    }
    made
}

/// The metadata of the three-level workload, from what was measured.
fn deep_meta_value(
    root_fan: usize,
    mid_fan: usize,
    n: usize,
    proof_sizes: &Vec<ProofSizeEntry>,
    reports: Vec<serde_json::Value>,
) -> (value: serde_json::Value)
    requires
        root_fan * mid_fan <= usize::MAX,
        root_fan * mid_fan * n <= usize::MAX,
    ensures
        forall|measured: Measurements|
            measured.proof_sizes == proof_size::sizes(proof_sizes@) && measured.reports
                == reports@ ==> json::model(value) == #[trigger] deep_meta(
                root_fan,
                mid_fan,
                n,
                measured,
            ),
{
    let mut description = String::new();
    push_decimal(&mut description, root_fan);
    description.append("-to-1 over ");
    push_decimal(&mut description, mid_fan);
    description.append("-to-1 recursion");
    assert(description@ =~= deep_description(root_fan, mid_fan));
    let total: usize = root_fan * mid_fan * n;
    let mut meta = new_object();
    insert_field(&mut meta, "leaf_raw_xmss", unsigned_value(n));
    insert_field(&mut meta, "root_fan_in", unsigned_value(root_fan));
    insert_field(&mut meta, "mid_fan_in", unsigned_value(mid_fan));
    insert_field(&mut meta, "total_raw_xmss", unsigned_value(total));
    insert_field(&mut meta, "log_inv_rate", unsigned_value(LOG_INV_RATE_PROD));
    insert_field(&mut meta, "topology", text_value(description.as_str()));
    insert_measured(&mut meta, proof_sizes, reports);
    insert_field(
        &mut meta,
        "note",
        text_value(
            "per-node cost is each node's `time_secs` in reports: root is path=[], mids are path=[i], leaves are path=[i,j]",
        ),
    );
    object_value(meta)
}

/// The record of the three-level workload.
pub fn deep_record(
    root_fan: usize,
    mid_fan: usize,
    n: usize,
    warmup: usize,
    measured: Measured,
    pins: &BuildPins,
) -> (made: Record)
    requires
        root_fan * mid_fan <= usize::MAX,
        root_fan * mid_fan * n <= usize::MAX,
    ensures
        made@ == (Workload::Deep { root_fan, mid_fan, n }).record(warmup, measured@, pins@),
        made.workload@ == "aggregate.deep_"@ + text::decimal(root_fan as nat) + "x"@
            + text::decimal(mid_fan as nat) + "x"@ + text::decimal(n as nat) + "_r2"@,
        made.unit@ == "ns"@,
        made.samples_ns@ == measured.samples_ns@,
        made.warmup == warmup,
        made.leansig_sha@ == pins.leansig_sha@,
        made.leanmultisig_sha@ == pins.leanmultisig_sha@,
        made.leansig_branch@ == pins.leansig_branch@,
        made.leanmultisig_branch@ == pins.leanmultisig_branch@,
        json::model(made.meta) is Object,
        json::model(made.meta)->Object_0["log_inv_rate"@] == Json::Unsigned(2),
        json::model(made.meta)->Object_0["reports"@] is Array,
        json::model(made.meta)->Object_0["reports"@]->Array_0.len() == measured.reports@.len(),
        forall|i: int|
            0 <= i < measured.reports@.len() ==> #[trigger] json::model(
                made.meta,
            )->Object_0["reports"@]->Array_0[i] == json::model(measured.reports@[i]),
        json::model(made.meta)->Object_0["leaf_raw_xmss"@] == Json::Unsigned(n as nat),
        json::model(made.meta)->Object_0["root_fan_in"@] == Json::Unsigned(root_fan as nat),
        json::model(made.meta)->Object_0["mid_fan_in"@] == Json::Unsigned(mid_fan as nat),
        json::model(made.meta)->Object_0["total_raw_xmss"@] == Json::Unsigned(
            (root_fan * mid_fan * n) as nat,
        ),
        json::model(made.meta)->Object_0["topology"@] == Json::Text(
            text::decimal(root_fan as nat) + "-to-1 over "@ + text::decimal(mid_fan as nat)
                + "-to-1 recursion"@,
        ),
        json::model(made.meta)->Object_0["note"@] == Json::Text(
            "per-node cost is each node's `time_secs` in reports: root is path=[], mids are path=[i], leaves are path=[i,j]"@,
        ),
{
    let mut name = "aggregate.deep_".to_owned();
    push_decimal(&mut name, root_fan);
    name.append("x");
    push_decimal(&mut name, mid_fan);
    name.append("x");
    push_decimal(&mut name, n);
    name.append("_r2");
    let meta = deep_meta_value(root_fan, mid_fan, n, &measured.proof_sizes, measured.reports);
    assert(json::model(meta) == deep_meta(root_fan, mid_fan, n, measured@));
    let made = make_record(name.as_str(), measured.samples_ns, warmup, meta, pins);
    proof {
        law_deep_meta(root_fan, mid_fan, n, measured@);
        law_measured_meta(Workload::Deep { root_fan, mid_fan, n }, measured@);
    }
    made
}

/// The end of a workload's name: the number of signatures per leaf.
spec fn name_end(n: usize) -> Seq<char> {
    text::decimal(n as nat) + "_r2"@
}

/// A fan-in in a workload's name, and what follows it.
spec fn name_fan(fan: usize, rest: Seq<char>) -> Seq<char> {
    text::decimal(fan as nat) + ("x"@ + rest)
}

proof fn lemma_same_rest(prefix: Seq<char>, s: Seq<char>, t: Seq<char>)
    requires
        prefix + s == prefix + t,
    ensures
        s == t,
{
    assert(s =~= (prefix + s).skip(prefix.len() as int));
    assert(t =~= (prefix + t).skip(prefix.len() as int));
}

proof fn lemma_same_end(m: usize, n: usize)
    requires
        name_end(m) == name_end(n),
    ensures
        m == n,
{
    reveal_strlit("_r2");
    text::lemma_decimal_prefix(m as nat, "_r2"@, n as nat, "_r2"@);
}

proof fn lemma_same_fan(m: usize, s: Seq<char>, n: usize, t: Seq<char>)
    requires
        name_fan(m, s) == name_fan(n, t),
    ensures
        m == n,
        s == t,
{
    reveal_strlit("x");
    text::lemma_decimal_prefix(m as nat, "x"@ + s, n as nat, "x"@ + t);
    lemma_same_rest("x"@, s, t);
}

/// The name of a workload is that of its kind followed by its numbers. The kinds
/// differ in the character at index 10.
proof fn lemma_name_parts(workload: Workload)
    ensures
        match workload {
            Workload::Flat { n } => {
                &&& workload.name() == "aggregate.flat_"@ + name_end(n)
                &&& workload.name()[10] == 'f'
            },
            Workload::Tree { fan, n } => {
                &&& workload.name() == "aggregate.tree_"@ + name_fan(fan, name_end(n))
                &&& workload.name()[10] == 't'
            },
            Workload::Deep { root_fan, mid_fan, n } => {
                &&& workload.name() == "aggregate.deep_"@ + name_fan(
                    root_fan,
                    name_fan(mid_fan, name_end(n)),
                )
                &&& workload.name()[10] == 'd'
            },
        },
{
    match workload {
        Workload::Flat { n } => {
            reveal_strlit("aggregate.flat_");
            assert(workload.name() =~= "aggregate.flat_"@ + name_end(n));
        },
        Workload::Tree { fan, n } => {
            reveal_strlit("aggregate.tree_");
            assert(workload.name() =~= "aggregate.tree_"@ + name_fan(fan, name_end(n)));
        },
        Workload::Deep { root_fan, mid_fan, n } => {
            reveal_strlit("aggregate.deep_");
            assert(workload.name() =~= "aggregate.deep_"@ + name_fan(
                root_fan,
                name_fan(mid_fan, name_end(n)),
            ));
        },
    }
}

/// Workloads that differ are recorded under different names.
pub proof fn law_names_are_distinct(one: Workload, other: Workload)
    requires
        one.name() == other.name(),
    ensures
        one == other,
{
    lemma_name_parts(one);
    lemma_name_parts(other);
    match (one, other) {
        (Workload::Flat { n: n1 }, Workload::Flat { n: n2 }) => {
            lemma_same_rest("aggregate.flat_"@, name_end(n1), name_end(n2));
            lemma_same_end(n1, n2);
        },
        (Workload::Tree { fan: f1, n: n1 }, Workload::Tree { fan: f2, n: n2 }) => {
            lemma_same_rest(
                "aggregate.tree_"@,
                name_fan(f1, name_end(n1)),
                name_fan(f2, name_end(n2)),
            );
            lemma_same_fan(f1, name_end(n1), f2, name_end(n2));
            lemma_same_end(n1, n2);
        },
        (
            Workload::Deep { root_fan: r1, mid_fan: m1, n: n1 },
            Workload::Deep { root_fan: r2, mid_fan: m2, n: n2 },
        ) => {
            let s = name_fan(m1, name_end(n1));
            let t = name_fan(m2, name_end(n2));
            lemma_same_rest("aggregate.deep_"@, name_fan(r1, s), name_fan(r2, t));
            lemma_same_fan(r1, s, r2, t);
            lemma_same_fan(m1, name_end(n1), m2, name_end(n2));
            lemma_same_end(n1, n2);
        },
        _ => {},
    }
}

/// The keys of metadata are told apart by their lengths, and those of one length
/// by a character.
proof fn lemma_keys_are_distinct()
    ensures
        "raw_xmss"@.len() == 8,
        "log_inv_rate"@.len() == 12,
        "topology"@.len() == 8,
        "proof_kib_root"@.len() == 14,
        "proof_kib_leaf"@.len() == 14,
        "proof_kib_by_path"@.len() == 17,
        "reports"@.len() == 7,
        "leaf_raw_xmss"@.len() == 13,
        "fan_in"@.len() == 6,
        "note"@.len() == 4,
        "root_fan_in"@.len() == 11,
        "mid_fan_in"@.len() == 10,
        "total_raw_xmss"@.len() == 14,
        "raw_xmss"@ != "topology"@,
        "proof_kib_root"@ != "proof_kib_leaf"@,
        "proof_kib_root"@ != "total_raw_xmss"@,
        "proof_kib_leaf"@ != "total_raw_xmss"@,
{
    reveal_strlit("raw_xmss");
    reveal_strlit("log_inv_rate");
    reveal_strlit("topology");
    reveal_strlit("proof_kib_root");
    reveal_strlit("proof_kib_leaf");
    reveal_strlit("proof_kib_by_path");
    reveal_strlit("reports");
    reveal_strlit("leaf_raw_xmss");
    reveal_strlit("fan_in");
    reveal_strlit("note");
    reveal_strlit("root_fan_in");
    reveal_strlit("mid_fan_in");
    reveal_strlit("total_raw_xmss");
    assert("raw_xmss"@[0] != "topology"@[0]);
    assert("proof_kib_root"@[10] != "proof_kib_leaf"@[10]);
    assert("proof_kib_root"@[0] != "total_raw_xmss"@[0]);
    assert("proof_kib_leaf"@[0] != "total_raw_xmss"@[0]);
}

/// The metadata of the flat workload has these fields and no others.
pub proof fn law_flat_meta(n: usize, measured: Measurements)
    ensures
        ({
            let meta = flat_meta(n, measured);
            &&& meta is Object
            &&& meta->Object_0.dom() == set!["raw_xmss"@, "log_inv_rate"@, "topology"@, "proof_kib_root"@, "proof_kib_leaf"@, "proof_kib_by_path"@, "reports"@]
            &&& meta->Object_0["raw_xmss"@] == Json::Unsigned(n as nat)
            &&& meta->Object_0["log_inv_rate"@] == Json::Unsigned(2)
            &&& meta->Object_0["topology"@] == Json::Text("flat"@)
            &&& meta->Object_0["proof_kib_root"@] == json::optional_unsigned(proof_size::root_kib(measured.proof_sizes))
            &&& meta->Object_0["proof_kib_leaf"@] == json::optional_unsigned(proof_size::leaf_kib(measured.proof_sizes))
            &&& meta->Object_0["proof_kib_by_path"@] == proof_size::sizes_json(measured.proof_sizes)
            &&& meta->Object_0["reports"@] == Json::Array(json::models(measured.reports))
        }),
{
    lemma_keys_are_distinct();
    assert(flat_meta(n, measured)->Object_0.dom() =~= set!["raw_xmss"@, "log_inv_rate"@, "topology"@, "proof_kib_root"@, "proof_kib_leaf"@, "proof_kib_by_path"@, "reports"@]);
}

/// The metadata of the two-level workload has these fields and no others.
pub proof fn law_tree_meta(fan: usize, n: usize, measured: Measurements)
    ensures
        ({
            let meta = tree_meta(fan, n, measured);
            &&& meta is Object
            &&& meta->Object_0.dom() == set!["leaf_raw_xmss"@, "fan_in"@, "log_inv_rate"@, "topology"@, "proof_kib_root"@, "proof_kib_leaf"@, "proof_kib_by_path"@, "reports"@, "note"@]
            &&& meta->Object_0["leaf_raw_xmss"@] == Json::Unsigned(n as nat)
            &&& meta->Object_0["fan_in"@] == Json::Unsigned(fan as nat)
            &&& meta->Object_0["log_inv_rate"@] == Json::Unsigned(2)
            &&& meta->Object_0["topology"@] == Json::Text(
                text::decimal(fan as nat) + "-to-1 recursion"@,
            )
            &&& meta->Object_0["proof_kib_root"@] == json::optional_unsigned(proof_size::root_kib(measured.proof_sizes))
            &&& meta->Object_0["proof_kib_leaf"@] == json::optional_unsigned(proof_size::leaf_kib(measured.proof_sizes))
            &&& meta->Object_0["proof_kib_by_path"@] == proof_size::sizes_json(measured.proof_sizes)
            &&& meta->Object_0["reports"@] == Json::Array(json::models(measured.reports))
            &&& meta->Object_0["note"@] == Json::Text(
                "recursion-only time = root node `time_secs` from any report; or total - "@
                    + text::decimal(fan as nat) + " × aggregate.flat_"@ + text::decimal(n as nat)
                    + "_r2 as a fallback"@,
            )
        }),
{
    lemma_keys_are_distinct();
    assert(tree_meta(fan, n, measured)->Object_0.dom() =~= set!["leaf_raw_xmss"@, "fan_in"@, "log_inv_rate"@, "topology"@, "proof_kib_root"@, "proof_kib_leaf"@, "proof_kib_by_path"@, "reports"@, "note"@]);
}

/// The metadata of the three-level workload has these fields and no others.
pub proof fn law_deep_meta(root_fan: usize, mid_fan: usize, n: usize, measured: Measurements)
    ensures
        ({
            let meta = deep_meta(root_fan, mid_fan, n, measured);
            &&& meta is Object
            &&& meta->Object_0.dom() == set!["leaf_raw_xmss"@, "root_fan_in"@, "mid_fan_in"@, "total_raw_xmss"@, "log_inv_rate"@, "topology"@, "proof_kib_root"@, "proof_kib_leaf"@, "proof_kib_by_path"@, "reports"@, "note"@]
            &&& meta->Object_0["leaf_raw_xmss"@] == Json::Unsigned(n as nat)
            &&& meta->Object_0["root_fan_in"@] == Json::Unsigned(root_fan as nat)
            &&& meta->Object_0["mid_fan_in"@] == Json::Unsigned(mid_fan as nat)
            &&& meta->Object_0["total_raw_xmss"@] == Json::Unsigned((root_fan * mid_fan * n) as nat)
            &&& meta->Object_0["log_inv_rate"@] == Json::Unsigned(2)
            &&& meta->Object_0["topology"@] == Json::Text(
                text::decimal(root_fan as nat) + "-to-1 over "@ + text::decimal(mid_fan as nat)
                    + "-to-1 recursion"@,
            )
            &&& meta->Object_0["proof_kib_root"@] == json::optional_unsigned(proof_size::root_kib(measured.proof_sizes))
            &&& meta->Object_0["proof_kib_leaf"@] == json::optional_unsigned(proof_size::leaf_kib(measured.proof_sizes))
            &&& meta->Object_0["proof_kib_by_path"@] == proof_size::sizes_json(measured.proof_sizes)
            &&& meta->Object_0["reports"@] == Json::Array(json::models(measured.reports))
            &&& meta->Object_0["note"@] == Json::Text(
                "per-node cost is each node's `time_secs` in reports: root is path=[], mids are path=[i], leaves are path=[i,j]"@,
            )
        }),
{
    lemma_keys_are_distinct();
    assert(deep_meta(root_fan, mid_fan, n, measured)->Object_0.dom() =~= set!["leaf_raw_xmss"@, "root_fan_in"@, "mid_fan_in"@, "total_raw_xmss"@, "log_inv_rate"@, "topology"@, "proof_kib_root"@, "proof_kib_leaf"@, "proof_kib_by_path"@, "reports"@, "note"@]);
}

/// The total that a record of the three-level workload reports is the number of
/// raw signatures in the topology that was benchmarked.
pub proof fn law_reported_total(root_fan: usize, mid_fan: usize, n: usize, measured: Measurements)
    ensures
        deep_meta(root_fan, mid_fan, n, measured)->Object_0["total_raw_xmss"@] == Json::Unsigned(
            topology::total_raw_xmss((Workload::Deep { root_fan, mid_fan, n }).topology()),
        ),
{
    law_deep_meta(root_fan, mid_fan, n, measured);
    topology::law_total_raw_xmss(root_fan as nat, mid_fan as nat, n as nat);
}

/// The metadata of every workload reports what was measured: each report, at its
/// place and as it came; an object for each proof size, at its place and with its
/// own path, depth and size; and as the root and leaf sizes those of the first
/// entry at depth zero and of the first entry at the greatest depth, or `null`
/// where there is none.
pub proof fn law_measured_meta(workload: Workload, measured: Measurements)
    ensures
        workload.meta(measured) is Object,
        ({
            let reports = workload.meta(measured)->Object_0["reports"@];
            &&& reports is Array
            &&& reports->Array_0.len() == measured.reports.len()
            &&& forall|i: int|
                0 <= i < measured.reports.len() ==> #[trigger] reports->Array_0[i] == json::model(
                    measured.reports[i],
                )
        }),
        ({
            let by_path = workload.meta(measured)->Object_0["proof_kib_by_path"@];
            &&& by_path is Array
            &&& by_path->Array_0.len() == measured.proof_sizes.len()
            &&& forall|i: int|
                #![trigger by_path->Array_0[i]]
                0 <= i < measured.proof_sizes.len() ==> {
                    let object = by_path->Array_0[i];
                    &&& object is Object
                    &&& object->Object_0.dom() == set!["path"@, "depth"@, "kib"@]
                    &&& object->Object_0["path"@] is Array
                    &&& object->Object_0["path"@]->Array_0.len()
                        == measured.proof_sizes[i].path.len()
                    &&& forall|k: int|
                        0 <= k < measured.proof_sizes[i].path.len()
                            ==> #[trigger] object->Object_0["path"@]->Array_0[k]
                            == Json::Unsigned(measured.proof_sizes[i].path[k] as nat)
                    &&& object->Object_0["depth"@] == Json::Unsigned(
                        measured.proof_sizes[i].depth as nat,
                    )
                    &&& object->Object_0["kib"@] == Json::Unsigned(
                        measured.proof_sizes[i].kib as nat,
                    )
                }
        }),
        ({
            let root = workload.meta(measured)->Object_0["proof_kib_root"@];
            &&& (forall|i: int|
                0 <= i < measured.proof_sizes.len() ==> (#[trigger] measured.proof_sizes[i]).depth
                    != 0) ==> root == Json::Null
            &&& forall|i: int|
                #![trigger measured.proof_sizes[i]]
                0 <= i < measured.proof_sizes.len() && measured.proof_sizes[i].depth == 0 && (
                forall|j: int|
                    0 <= j < i ==> (#[trigger] measured.proof_sizes[j]).depth != 0) ==> root
                    == Json::Unsigned(measured.proof_sizes[i].kib as nat)
        }),
        ({
            let leaf = workload.meta(measured)->Object_0["proof_kib_leaf"@];
            &&& measured.proof_sizes.len() == 0 ==> leaf == Json::Null
            &&& forall|i: int|
                #![trigger measured.proof_sizes[i]]
                0 <= i < measured.proof_sizes.len() && (forall|j: int|
                    0 <= j < measured.proof_sizes.len() ==> (
                    #[trigger] measured.proof_sizes[j]).depth <= measured.proof_sizes[i].depth)
                    && (forall|j: int|
                    0 <= j < i ==> (#[trigger] measured.proof_sizes[j]).depth
                        < measured.proof_sizes[i].depth) ==> leaf == Json::Unsigned(
                    measured.proof_sizes[i].kib as nat,
                )
        }),
{
    match workload {
        Workload::Flat { n } => law_flat_meta(n, measured),
        Workload::Tree { fan, n } => law_tree_meta(fan, n, measured),
        Workload::Deep { root_fan, mid_fan, n } => law_deep_meta(root_fan, mid_fan, n, measured),
    }
    let sizes = measured.proof_sizes;
    proof_size::law_sizes_json(sizes);
    proof_size::law_kib_is_present(sizes);
    assert forall|i: int|
        #![trigger sizes[i]]
        0 <= i < sizes.len() && sizes[i].depth == 0 && (forall|j: int|
            0 <= j < i ==> (#[trigger] sizes[j]).depth != 0) implies proof_size::root_kib(sizes)
        == Some(sizes[i].kib) by {
        proof_size::law_root_kib(sizes, i);
    }
    assert forall|i: int|
        #![trigger sizes[i]]
        0 <= i < sizes.len() && (forall|j: int|
            0 <= j < sizes.len() ==> (#[trigger] sizes[j]).depth <= sizes[i].depth) && (forall|
            j: int,
        |
            0 <= j < i ==> (#[trigger] sizes[j]).depth < sizes[i].depth) implies
        proof_size::leaf_kib(sizes) == Some(sizes[i].kib) by {
        proof_size::law_leaf_kib(sizes, i);
    }
}

/// The record of a workload holds the durations and the warm-up that were given,
/// in nanoseconds, the given pins, and the workload's name and metadata.
pub proof fn law_record_of_workload(
    workload: Workload,
    warmup: usize,
    measured: Measurements,
    pins: Pins,
)
    ensures
        ({
            let made = workload.record(warmup, measured, pins);
            &&& made.workload == workload.name()
            &&& made.unit == "ns"@
            &&& made.samples_ns == measured.samples_ns
            &&& made.warmup == warmup
            &&& made.meta == workload.meta(measured)
            &&& made.pins == pins
        }),
{
}

/// The names of the workloads: the kind, the fan-ins and the number of signatures
/// per leaf, from the root down.
pub proof fn law_names(root_fan: usize, mid_fan: usize, n: usize)
    ensures
        (Workload::Flat { n }).name() == "aggregate.flat_"@ + text::decimal(n as nat) + "_r2"@,
        (Workload::Tree { fan: root_fan, n }).name() == "aggregate.tree_"@ + text::decimal(
            root_fan as nat,
        ) + "x"@ + text::decimal(n as nat) + "_r2"@,
        (Workload::Deep { root_fan, mid_fan, n }).name() == "aggregate.deep_"@ + text::decimal(
            root_fan as nat,
        ) + "x"@ + text::decimal(mid_fan as nat) + "x"@ + text::decimal(n as nat) + "_r2"@,
{
}

} // verus!
