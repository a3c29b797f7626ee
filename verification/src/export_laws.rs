//! What the export of a run tells beside its series.
use crate::contract::{Grade, Record};
use crate::json::{self, Json};
use crate::otlp;
use crate::text;
use vstd::prelude::*;

verus! {

broadcast use json::law_lookup_put;

// ---------------------------------------------------------------------------
// Attributes
// ---------------------------------------------------------------------------

/// Whether a document is an attribute of a name with a text as its value.
pub open spec fn is_text(a: Json, k: Seq<char>, v: Seq<char>) -> bool {
    json::str_field(a, "key"@) == Some(k) && json::str_field(
        json::member(a, "value"@),
        "stringValue"@,
    ) == Some(v)
}

/// Whether a document is an attribute of a name with a truth value.
pub open spec fn is_flag(a: Json, k: Seq<char>, v: bool) -> bool {
    json::str_field(a, "key"@) == Some(k) && json::member(json::member(a, "value"@), "boolValue"@)
        == Json::Bool(v)
}

proof fn lemma_attribute(k: Seq<char>, v: Seq<char>, b: bool)
    ensures
        is_text(otlp::text_attribute(k, v), k, v),
        is_flag(otlp::bool_attribute(k, b), k, b),
{
    reveal_strlit("key");
    reveal_strlit("value");
    assert("key"@[0] == 'k' && "value"@[0] == 'v');
}

/// Whether one of the attributes is of a name with a text as its value.
pub open spec fn tells(attributes: Seq<Json>, k: Seq<char>, v: Seq<char>) -> bool {
    exists|i: int| 0 <= i < attributes.len() && is_text(#[trigger] attributes[i], k, v)
}

/// An export tells the grade of the run by its name, which host and which build it was
/// of, and what the comparison that it was part of came to, where it was part of one.
pub proof fn law_exports_tell_the_grade(r: Record, v: Seq<char>)
    ensures
        ({
            let a = otlp::resource_attributes_of(r);
            &&& r.grade == Grade::Reproducible ==> tells(a, "assayist.grade"@, "reproducible"@)
            &&& r.grade == Grade::Valid ==> tells(a, "assayist.grade"@, "valid"@)
            &&& r.grade == Grade::Invalid ==> tells(a, "assayist.grade"@, "invalid"@)
            &&& tells(a, "host.name"@, r.fingerprint.hostname)
            &&& tells(a, "assayist.run.tenancy"@, r.fingerprint.tenancy)
            &&& tells(a, "assayist.sut_git_sha"@, r.identity.sut_git_sha)
            &&& tells(a, "assayist.params_hash"@, r.identity.params_hash)
            &&& (r.outcome matches Some(o) && json::str_field(o, "verdict"@) == Some(v)) ==> tells(
                a,
                "assayist.gate.verdict"@,
                v,
            )
            &&& r.outcome is None ==> a.len() == 20
        }),
{
    let a = otlp::resource_attributes_of(r);
    lemma_attribute("assayist.grade"@, otlp::grade_text(r.grade), true);
    lemma_attribute("host.name"@, r.fingerprint.hostname, true);
    lemma_attribute("assayist.run.tenancy"@, r.fingerprint.tenancy, true);
    lemma_attribute("assayist.sut_git_sha"@, r.identity.sut_git_sha, true);
    lemma_attribute("assayist.params_hash"@, r.identity.params_hash, true);
    lemma_attribute("assayist.gate.verdict"@, v, true);
    assert(is_text(a[19], "assayist.grade"@, otlp::grade_text(r.grade)));
    assert(is_text(a[0], "host.name"@, r.fingerprint.hostname));
    assert(is_text(a[11], "assayist.run.tenancy"@, r.fingerprint.tenancy));
    assert(is_text(a[16], "assayist.sut_git_sha"@, r.identity.sut_git_sha));
    assert(is_text(a[17], "assayist.params_hash"@, r.identity.params_hash));
    if let Some(o) = r.outcome {
        if json::str_field(o, "verdict"@) == Some(v) {
            assert(is_text(a[20], "assayist.gate.verdict"@, v));
        }
    }
}

// ---------------------------------------------------------------------------
// Spans
// ---------------------------------------------------------------------------

proof fn lemma_named(spans: Seq<Json>, name: Seq<char>, from: nat, j: int)
    requires
        from <= j < spans.len(),
        json::str_field(spans[j], "name"@) == Some(name),
        forall|k: int| from <= k < j ==> json::str_field(#[trigger] spans[k], "name"@) is Some
            && json::str_field(spans[k], "name"@) != Some(name),
    ensures
        otlp::first_named(spans, name, from) == Some(j as nat),
    decreases j - from,
{
    if from < j {
        assert(json::str_field(spans[from as int], "name"@) is Some);
        lemma_named(spans, name, from + 1, j);
    }
}

proof fn lemma_span_keys()
    ensures
        "spanId"@.len() == 6 && "traceId"@.len() == 7 && "parentSpanId"@.len() == 12,
        "name"@.len() == 4 && "kind"@.len() == 4 && "attributes"@.len() == 10,
        "startTimeUnixNano"@.len() == 17 && "endTimeUnixNano"@.len() == 15,
{
    reveal_strlit("spanId");
    reveal_strlit("traceId");
    reveal_strlit("parentSpanId");
    reveal_strlit("name");
    reveal_strlit("kind");
    reveal_strlit("startTimeUnixNano");
    reveal_strlit("endTimeUnixNano");
    reveal_strlit("attributes");
}

/// A span whose parent is named is exported with the id that the first span of that name
/// is exported with. All spans of a run are in the trace of its id.
pub proof fn law_parents_are_resolved(run_id: Seq<char>, spans: Seq<Json>, i: int, j: int, p: Seq<char>)
    requires
        0 <= i < spans.len(),
        0 <= j < spans.len(),
        json::str_field(spans[i], "parent"@) == Some(p),
        json::str_field(spans[j], "name"@) == Some(p),
        forall|k: int| 0 <= k < j ==> json::str_field(#[trigger] spans[k], "name"@) is Some
            && json::str_field(spans[k], "name"@) != Some(p),
    ensures
        ({
            let all = otlp::exported_spans(run_id, spans);
            &&& all.len() == spans.len()
            &&& json::str_field(all[i], "parentSpanId"@) is Some
            &&& json::str_field(all[i], "parentSpanId"@) == json::str_field(all[j], "spanId"@)
            &&& json::str_field(all[i], "traceId"@) == Some(run_id)
        }),
{
    lemma_span_keys();
    lemma_named(spans, p, 0, j);
}

/// A span without a parent is exported without one.
pub proof fn law_roots_have_no_parent(run_id: Seq<char>, spans: Seq<Json>, i: int)
    requires
        0 <= i < spans.len(),
        json::str_field(spans[i], "parent"@) is None,
    ensures
        json::field(otlp::exported_spans(run_id, spans)[i], "parentSpanId"@) is None,
{
    lemma_span_keys();
}

// ---------------------------------------------------------------------------
// Costs
// ---------------------------------------------------------------------------

proof fn lemma_cost_at(a: Seq<Json>, ts: u64, i: int, k: int)
    requires
        0 <= i < a.len(),
        0 <= k < 2,
    ensures
        otlp::probe_metrics_of(a, ts).contains(otlp::probe_pair(a[i], ts)[k]),
    decreases a.len(),
{
    let less = a.drop_last();
    let before = otlp::probe_metrics_of(less, ts);
    let all = otlp::probe_metrics_of(a, ts);
    let x = otlp::probe_pair(a[i], ts)[k];
    if i < less.len() {
        lemma_cost_at(less, ts, i, k);
        let at = before.index_of(x);
        assert(all[at] == x);
    } else {
        assert(all[before.len() + k] == x);
    }
}

/// Each cost record is exported as two metrics, its share of a core and its run time.
pub proof fn law_costs_are_exported(a: Seq<Json>, ts: u64, i: int, ns: u64) -> (m: (Json, Json))
    requires
        0 <= i < a.len(),
        json::u64_field(a[i], "run_time_ns"@) == Some(ns),
    ensures
        otlp::probe_metrics_of(a, ts).contains(m.0),
        otlp::probe_metrics_of(a, ts).contains(m.1),
        json::str_field(m.0, "name"@) == Some("assayist.probe.steady_cpu_fraction"@),
        json::str_field(m.1, "name"@) == Some("assayist.probe.run_time_ns"@),
        json::str_field(m.1, "unit"@) == Some("ns"@),
        ({
            let points = json::items(json::member(m.0, "gauge"@), "dataPoints"@);
            points.len() == 1 && json::member(points[0], "asDouble"@) == otlp::double_or_zero(
                a[i],
                "steady_cpu_fraction"@,
            ) && json::items(points[0], "attributes"@) == otlp::probe_attributes(a[i])
        }),
        ({
            let points = json::items(json::member(m.1, "sum"@), "dataPoints"@);
            points.len() == 1 && json::str_field(points[0], "asInt"@) == Some(
                text::decimal(ns as nat),
            ) && json::items(points[0], "attributes"@) == otlp::probe_attributes(a[i])
        }),
{
    lemma_cost_at(a, ts, i, 0);
    lemma_cost_at(a, ts, i, 1);
    reveal_strlit("name");
    reveal_strlit("unit");
    reveal_strlit("gauge");
    reveal_strlit("sum");
    reveal_strlit("attributes");
    reveal_strlit("asDouble");
    reveal_strlit("asInt");
    reveal_strlit("timeUnixNano");
    reveal_strlit("dataPoints");
    reveal_strlit("aggregationTemporality");
    reveal_strlit("isMonotonic");
    assert("name"@[0] == 'n' && "unit"@[0] == 'u' && "gauge"@[0] == 'g' && "sum"@[0] == 's');
    assert("attributes"@.len() == 10 && "asDouble"@.len() == 8 && "asInt"@.len() == 5);
    assert("timeUnixNano"@.len() == 12);
    assert("dataPoints"@[0] == 'd' && "isMonotonic"@[0] == 'i');
    assert("aggregationTemporality"@[0] == 'a');
    let pair = otlp::probe_pair(a[i], ts);
    (pair[0], pair[1])
}

/// The points of a cost record say which probe it is of, and whether it ran over budget.
pub proof fn law_exported_costs_name_their_probe(pm: Json, probe: Seq<char>, over: bool)
    requires
        json::str_field(pm, "probe_id"@) == Some(probe),
        json::member(pm, "over_budget"@) == Json::Bool(over),
    ensures
        ({
            let a = otlp::probe_attributes(pm);
            &&& a.len() > 0
            &&& is_text(a[0], "assayist.probe.id"@, probe)
            &&& is_flag(a.last(), "assayist.probe.over_budget"@, over)
        }),
{
    lemma_attribute("assayist.probe.id"@, probe, true);
    lemma_attribute("assayist.probe.over_budget"@, probe, over);
}

} // verus!
