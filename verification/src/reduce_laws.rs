//! Which metrics the record of a run has.
use crate::json::{self, Json};
use crate::reduce::{self, Amount, Polarity, Reading};
use crate::text;
use vstd::prelude::*;

verus! {

/// Whether a run has a metric with a value.
pub open spec fn has_metric(run: Json, id: Seq<char>, value: Amount, contaminated: bool) -> bool {
    exists|k: int|
        0 <= k < reduce::reduced(run).len() && (#[trigger] reduce::reduced(run)[k]).id == id
            && reduce::reduced(run)[k].value == value && reduce::reduced(run)[k].contaminated
            == contaminated
}

proof fn lemma_series_at(run: Json, a: Seq<Json>, i: int, k: int) -> (at: int)
    requires
        0 <= i < a.len(),
        0 <= k < reduce::series_readings(run, a[i]).len(),
    ensures
        0 <= at < reduce::all_series(run, a).len(),
        reduce::all_series(run, a)[at] == reduce::series_readings(run, a[i])[k],
    decreases a.len(),
{
    let before = reduce::all_series(run, a.drop_last());
    if i < a.len() - 1 {
        lemma_series_at(run, a.drop_last(), i, k)
    } else {
        before.len() + k
    }
}

proof fn lemma_series_metric(run: Json, i: int, k: int)
    requires
        0 <= i < json::items(run, "series"@).len(),
        0 <= k < reduce::series_readings(run, json::items(run, "series"@)[i]).len(),
    ensures
        ({
            let r = reduce::series_readings(run, json::items(run, "series"@)[i])[k];
            has_metric(run, r.id, r.value, r.contaminated)
        }),
{
    let a = json::items(run, "series"@);
    let at = lemma_series_at(run, a, i, k);
    assert(reduce::reduced(run)[at] == reduce::series_readings(run, a[i])[k]);
}

proof fn lemma_kinds()
    ensures
        "histogram"@ != "counter"@ && "histogram"@ != "gauge"@ && "counter"@ != "gauge"@,
{
    reveal_strlit("histogram");
    reveal_strlit("counter");
    reveal_strlit("gauge");
    assert("histogram"@[0] == 'h' && "counter"@[0] == 'c' && "gauge"@[0] == 'g');
}

/// The value of each gauge of a run is a metric of it, under the id of the series.
pub proof fn law_gauges_are_metrics(run: Json, i: int, v: Json)
    requires
        0 <= i < json::items(run, "series"@).len(),
        json::str_field(json::items(run, "series"@)[i], "kind"@) == Some("gauge"@),
        json::field(json::items(run, "series"@)[i], "data"@) is Some,
        json::member(json::member(json::items(run, "series"@)[i], "data"@), "value"@) == v,
        v is Int || v is Float,
    ensures
        ({
            let s = json::items(run, "series"@)[i];
            has_metric(
                run,
                reduce::series_id(s) + "|value"@,
                Amount::Plain(v),
                reduce::tainted(run, s),
            )
        }),
{
    lemma_kinds();
    let s = json::items(run, "series"@)[i];
    assert(reduce::series_readings(run, s)[0].value == Amount::Plain(v));
    lemma_series_metric(run, i, 0);
}

/// The value of each counter of a run is a metric of it, and so is its rate over the
/// capture window, where a window above zero is recorded.
pub proof fn law_counters_are_metrics(run: Json, i: int, v: Json, w: Json)
    requires
        0 <= i < json::items(run, "series"@).len(),
        json::str_field(json::items(run, "series"@)[i], "kind"@) == Some("counter"@),
        json::field(json::items(run, "series"@)[i], "data"@) is Some,
        json::member(json::member(json::items(run, "series"@)[i], "data"@), "value"@) == v,
        v is Int || v is Float,
        json::member(json::member(run, "capture_meta"@), "window_ns"@) == w,
    ensures
        ({
            let s = json::items(run, "series"@)[i];
            &&& has_metric(
                run,
                reduce::series_id(s) + "|value"@,
                Amount::Plain(v),
                reduce::tainted(run, s),
            )
            &&& (w matches Json::Int(n) && n > 0) ==> has_metric(
                run,
                reduce::series_id(s) + "|rate"@,
                Amount::Rate { value: v, window: w },
                reduce::tainted(run, s),
            )
            &&& reduce::series_readings(run, s).len() == (if (w is Int || w is Float)
                && reduce::positive(w) {
                2int
            } else {
                1int
            })
        }),
{
    lemma_kinds();
    let s = json::items(run, "series"@)[i];
    assert(reduce::series_readings(run, s)[0].value == Amount::Plain(v));
    lemma_series_metric(run, i, 0);
    if let Json::Int(n) = w {
        if n > 0 {
            assert(reduce::series_readings(run, s)[1].value == Amount::Rate { value: v, window: w });
            lemma_series_metric(run, i, 1);
        }
    }
}

proof fn lemma_whole(a: Seq<Json>)
    requires
        forall|i: int| 0 <= i < a.len() ==> json::u64_of(#[trigger] a[i]) is Some,
    ensures
        reduce::whole(a).len() == a.len(),
        forall|i: int|
            0 <= i < a.len() ==> #[trigger] reduce::whole(a)[i] == json::u64_of(a[i])->0,
    decreases a.len(),
{
    if a.len() > 0 {
        let less = a.drop_last();
        assert forall|i: int| 0 <= i < less.len() implies json::u64_of(#[trigger] less[i]) is Some by {
            assert(a[i] == less[i]);
        }
        lemma_whole(less);
        assert(json::u64_of(a[a.len() - 1]) is Some);
    }
}

proof fn lemma_numeric(a: Seq<Json>)
    requires
        forall|i: int| 0 <= i < a.len() ==> (#[trigger] a[i]) is Int || a[i] is Float,
    ensures
        reduce::numeric(a) == a,
    decreases a.len(),
{
    if a.len() > 0 {
        let less = a.drop_last();
        assert forall|i: int| 0 <= i < less.len() implies (#[trigger] less[i]) is Int
            || less[i] is Float by {
            assert(a[i] == less[i]);
        }
        lemma_numeric(less);
        assert(a[a.len() - 1] is Int || a[a.len() - 1] is Float);
        assert(less.push(a.last()) =~= a);
    }
}

/// Each histogram of a run gives three metrics of it, computed from all of its
/// buckets: the mean, the median and the 99th percentile. With explicit bounds they
/// are over those bounds. Otherwise the buckets double, and the mean is the sum over
/// the count where a count above zero and a sum are recorded.
pub proof fn law_histograms_are_metrics(run: Json, i: int, buckets: Seq<u64>)
    requires
        0 <= i < json::items(run, "series"@).len(),
        json::str_field(json::items(run, "series"@)[i], "kind"@) == Some("histogram"@),
        json::field(json::items(run, "series"@)[i], "data"@) is Some,
        ({
            let a = json::items(
                json::member(json::items(run, "series"@)[i], "data"@),
                "buckets"@,
            );
            a.len() == buckets.len() && forall|k: int|
                0 <= k < a.len() ==> json::u64_of(#[trigger] a[k]) == Some(buckets[k])
        }),
    ensures
        ({
            let s = json::items(run, "series"@)[i];
            let data = json::member(s, "data"@);
            let id = reduce::series_id(s);
            let bad = reduce::tainted(run, s);
            let bounds = json::items(data, "explicit_bounds"@);
            let sum = json::member(data, "sum"@);
            let count = json::member(data, "count"@);
            if json::str_field(data, "layout"@) == Some("explicit"@) {
                (forall|k: int|
                    0 <= k < bounds.len() ==> (#[trigger] bounds[k]) is Int || bounds[k] is Float)
                    ==> has_metric(run, id + "|mean"@, Amount::ExplicitMean(buckets, bounds), bad)
                    && has_metric(
                    run,
                    id + "|p50"@,
                    Amount::ExplicitPercentile(buckets, bounds, 50),
                    bad,
                ) && has_metric(
                    run,
                    id + "|p99"@,
                    Amount::ExplicitPercentile(buckets, bounds, 99),
                    bad,
                )
            } else {
                &&& (sum is Int || sum is Float) && (count matches Json::Int(n) && n > 0) ==> has_metric(
                    run,
                    id + "|mean"@,
                    Amount::Ratio { sum, count },
                    bad,
                )
                &&& !(sum is Int || sum is Float) || count == Json::Int(0) || count is Null
                    ==> has_metric(run, id + "|mean"@, Amount::Log2Mean(buckets), bad)
                &&& has_metric(run, id + "|p50"@, Amount::Log2Percentile(buckets, 50), bad)
                &&& has_metric(run, id + "|p99"@, Amount::Log2Percentile(buckets, 99), bad)
            }
        }),
{
    lemma_kinds();
    let s = json::items(run, "series"@)[i];
    let data = json::member(s, "data"@);
    let a = json::items(data, "buckets"@);
    let bounds = json::items(data, "explicit_bounds"@);
    lemma_whole(a);
    assert(reduce::whole(a) =~= buckets);
    if forall|k: int| 0 <= k < bounds.len() ==> (#[trigger] bounds[k]) is Int || bounds[k] is Float {
        lemma_numeric(bounds);
    }
    assert(reduce::series_readings(run, s).len() == 3);
    lemma_series_metric(run, i, 0);
    lemma_series_metric(run, i, 1);
    lemma_series_metric(run, i, 2);
}

/// A metric of a series cannot be trusted exactly where a cost record of the run says
/// that the probe of the series ran over its budget, or where keys were dropped from
/// the series or from the whole capture.
pub proof fn law_which_series_are_not_trusted(run: Json, s: Json, source: Seq<char>, k: int)
    requires
        json::str_field(s, "source"@) == Some(source),
        0 <= k < reduce::series_readings(run, s).len(),
    ensures
        reduce::series_readings(run, s)[k].contaminated <==> {
            ||| json::member(s, "cardinality_overflow"@) == Json::Bool(true)
            ||| json::member(json::member(run, "capture_meta"@), "cardinality_overflow"@)
                == Json::Bool(true)
            ||| exists|i: int|
                0 <= i < json::items(run, "self_metrics"@).len() && json::member(
                    #[trigger] json::items(run, "self_metrics"@)[i],
                    "over_budget"@,
                ) == Json::Bool(true) && json::str_field(
                    json::items(run, "self_metrics"@)[i],
                    "probe_id"@,
                ) == Some(source)
        },
{
    let a = json::items(run, "self_metrics"@);
    if reduce::over_budget(a, source) {
        let i = choose|i: int|
            0 <= i < a.len() && reduce::flag(#[trigger] a[i], "over_budget"@) && json::str_field(
                a[i],
                "probe_id"@,
            ) == Some(source);
        assert(json::member(a[i], "over_budget"@) == Json::Bool(true));
    }
    if exists|i: int|
        0 <= i < a.len() && json::member(#[trigger] a[i], "over_budget"@) == Json::Bool(true)
            && json::str_field(a[i], "probe_id"@) == Some(source) {
        let i = choose|i: int|
            0 <= i < a.len() && json::member(#[trigger] a[i], "over_budget"@) == Json::Bool(true)
                && json::str_field(a[i], "probe_id"@) == Some(source);
        assert(reduce::flag(a[i], "over_budget"@));
    }
}

proof fn lemma_span_at(a: Seq<Json>, i: int) -> (at: int)
    requires
        0 <= i < a.len(),
        reduce::span_readings(a[i]).len() > 0,
    ensures
        0 <= at < reduce::all_spans(a).len(),
        reduce::all_spans(a)[at] == reduce::span_readings(a[i])[0],
    decreases a.len(),
{
    let before = reduce::all_spans(a.drop_last());
    if i < a.len() - 1 {
        lemma_span_at(a.drop_last(), i)
    } else {
        before.len() as int
    }
}

/// The duration of each span of a run, from its start to its end, is a metric of it
/// that can be trusted, and shorter is better.
pub proof fn law_spans_are_metrics(run: Json, i: int, name: Seq<char>, start: Json, end: Json) -> (k:
    int)
    requires
        0 <= i < json::items(run, "spans"@).len(),
        json::str_field(json::items(run, "spans"@)[i], "name"@) == Some(name),
        json::member(json::items(run, "spans"@)[i], "start_unix_nano"@) == start,
        json::member(json::items(run, "spans"@)[i], "end_unix_nano"@) == end,
        start is Int || start is Float,
        end is Int || end is Float,
    ensures
        0 <= k < reduce::reduced(run).len(),
        reduce::reduced(run)[k].id == "span:"@ + name + "|dur"@,
        reduce::reduced(run)[k].value == (Amount::Difference { end, start }),
        !reduce::reduced(run)[k].contaminated,
        reduce::reduced(run)[k].polarity == Polarity::LowerBetter,
{
    let a = json::items(run, "spans"@);
    let at = lemma_span_at(a, i);
    let before = reduce::all_series(run, json::items(run, "series"@)) + reduce::workload_readings(
        run,
    );
    let k = before.len() + at;
    assert(reduce::reduced(run)[k] == reduce::all_spans(a)[at]);
    k
}

proof fn lemma_leaf(prefix: Seq<char>, e: Seq<(Seq<char>, Json)>, n: nat, i: int, l: int) -> (at: int)
    requires
        0 <= i < n <= e.len(),
        0 <= l < reduce::leaves(reduce::path(prefix, e[i].0), e[i].1).len(),
    ensures
        0 <= at < reduce::member_leaves(prefix, e, n).len(),
        reduce::member_leaves(prefix, e, n)[at] == reduce::leaves(
            reduce::path(prefix, e[i].0),
            e[i].1,
        )[l],
    decreases n,
{
    let before = reduce::member_leaves(prefix, e, (n - 1) as nat);
    if i < n - 1 {
        lemma_leaf(prefix, e, (n - 1) as nat, i, l)
    } else {
        before.len() + l
    }
}

/// A number in a document is a leaf of it under its name, and a number in an object in
/// it under the two names with a dot between them; and so on inwards: the leaves of a
/// member are leaves of the document.
pub proof fn law_numbers_are_leaves(
    prefix: Seq<char>,
    e: Seq<(Seq<char>, Json)>,
    i: int,
)
    requires
        0 <= i < e.len(),
    ensures
        ({
            let here = if prefix.len() == 0 {
                e[i].0
            } else {
                prefix + "."@ + e[i].0
            };
            let all = reduce::leaves(prefix, Json::Obj(e));
            &&& e[i].1 is Int || e[i].1 is Float ==> all.contains((here, e[i].1))
            &&& forall|l: int|
                0 <= l < reduce::leaves(here, e[i].1).len() ==> all.contains(
                    #[trigger] reduce::leaves(here, e[i].1)[l],
                )
        }),
{
    let here = reduce::path(prefix, e[i].0);
    let all = reduce::leaves(prefix, Json::Obj(e));
    assert forall|l: int| 0 <= l < reduce::leaves(here, e[i].1).len() implies all.contains(
        #[trigger] reduce::leaves(here, e[i].1)[l],
    ) by {
        let at = lemma_leaf(prefix, e, e.len(), i, l);
        assert(all[at] == reduce::leaves(here, e[i].1)[l]);
    }
    if e[i].1 is Int || e[i].1 is Float {
        assert(reduce::leaves(here, e[i].1)[0] == (here, e[i].1));
    }
}

/// Every number that a workload's report has at its top is a metric of the run, under
/// its name, and can be trusted.
pub proof fn law_reported_numbers_are_metrics(run: Json, e: Seq<(Seq<char>, Json)>, i: int)
    requires
        json::field(run, "workload_report"@) == Some(Json::Obj(e)),
        0 <= i < e.len(),
        e[i].1 is Int || e[i].1 is Float,
    ensures
        has_metric(run, "workload:"@ + e[i].0, Amount::Plain(e[i].1), false),
{
    law_numbers_are_leaves(Seq::empty(), e, i);
    let all = reduce::leaves(Seq::empty(), Json::Obj(e));
    let k = all.index_of((e[i].0, e[i].1));
    reduce::law_reported_numbers_are_graded(run, k);
}

/// Amounts moved are better high whatever their unit is. Processor time is neither. Of
/// what is left, times are better low, and the memory that a run took from the host.
pub proof fn law_directions_of_ids(l: Seq<char>, unit: Seq<char>)
    ensures
        ({
            let amount = text::has_part(l, "bytes"@) || text::has_part(l, "packets"@)
                || text::has_part(l, "throughput"@) || text::has_part(l, "iops"@) || unit == "By"@;
            let cpu = text::has_part(l, "on_cpu"@) || text::has_part(l, "utilis"@)
                || text::has_part(l, "cpu_ns"@);
            let time = unit == "ns"@ || unit == "us"@ || unit == "ms"@ || unit == "s"@;
            let memory = l == "hostmem.mem_consumed_kib"@ || text::has_prefix(
                l,
                "hostmem.mem_consumed_kib|"@,
            );
            let p = reduce::polarity_for(l, unit);
            &&& p == Polarity::HigherBetter <==> amount
            &&& p == Polarity::LowerBetter <==> !amount && !cpu && (time || memory)
            &&& p == Polarity::Unknown <==> !amount && (cpu || !(time || memory))
        }),
{
}

/// The direction of a metric of a series goes by its id in lower case and the unit of
/// the series.
pub proof fn law_series_have_the_direction_of_their_unit(run: Json, s: Json, k: int)
    requires
        0 <= k < reduce::series_readings(run, s).len(),
    ensures
        ({
            let r: Reading = reduce::series_readings(run, s)[k];
            let unit = match json::str_field(s, "unit"@) {
                Some(u) => u,
                None => Seq::empty(),
            };
            r.polarity == reduce::polarity_for(text::lowercase(r.id), unit)
        }),
{
}

/// The direction of a number that a workload reports goes by the unit that its name
/// ends in.
pub proof fn law_reported_times_are_better_low(k: Seq<char>, v: Json)
    ensures
        ({
            let r = reduce::leaf_reading((k, v));
            &&& r.id == "workload:"@ + k
            &&& r.value == Amount::Plain(v)
            &&& text::has_suffix(k, "_ns"@) ==> r.polarity == reduce::polarity_for(
                text::lowercase(r.id),
                "ns"@,
            )
            &&& text::has_suffix(k, "_us"@) && !text::has_suffix(k, "_ns"@) ==> r.polarity
                == reduce::polarity_for(text::lowercase(r.id), "us"@)
            &&& text::has_suffix(k, "_ms"@) && !text::has_suffix(k, "_ns"@) && !text::has_suffix(
                k,
                "_us"@,
            ) ==> r.polarity == reduce::polarity_for(text::lowercase(r.id), "ms"@)
            &&& !text::has_suffix(k, "_ms"@) && !text::has_suffix(k, "_ns"@) && !text::has_suffix(
                k,
                "_us"@,
            ) ==> r.polarity == reduce::polarity_for(text::lowercase(r.id), ""@)
        }),
{
}

} // verus!
