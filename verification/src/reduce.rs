//! Reducing a run record to a flat list of scalar metrics: histograms become
//! mean, p50 and p99; counters and gauges their value, and counters a rate
//! where the window is known; a workload's report its numeric leaves; spans
//! their durations. A metric's scalar is given as what it is computed from.
use crate::json::{self, Json, Num, Doc};
use crate::text;
use vstd::prelude::*;

verus! {

#[derive(Debug, Clone, Copy, PartialEq, Eq, Structural)]
pub enum Polarity {
    LowerBetter,
    HigherBetter,
    Unknown,
}

/// What a metric's scalar is computed from.
#[derive(Debug, PartialEq, Eq)]
pub enum Quantity {
    /// The number itself.
    Plain(Num),
    /// `sum / count`.
    Ratio { sum: Num, count: Num },
    /// `value` per second over a window of nanoseconds.
    Rate { value: Num, window: Num },
    /// `end - start`.
    Difference { end: Num, start: Num },
    /// Mean of a histogram whose bucket `i` covers `[2^i, 2^(i+1))`.
    Log2Mean(Vec<u64>),
    /// Percentile of such a histogram.
    Log2Percentile(Vec<u64>, u8),
    /// Mean of a histogram with the given upper edges.
    ExplicitMean(Vec<u64>, Vec<Num>),
    /// Percentile of such a histogram.
    ExplicitPercentile(Vec<u64>, Vec<Num>, u8),
}

/// What a `Quantity` is, as a mathematical value.
pub enum Amount {
    Plain(Json),
    Ratio { sum: Json, count: Json },
    Rate { value: Json, window: Json },
    Difference { end: Json, start: Json },
    Log2Mean(Seq<u64>),
    Log2Percentile(Seq<u64>, u8),
    ExplicitMean(Seq<u64>, Seq<Json>),
    ExplicitPercentile(Seq<u64>, Seq<Json>, u8),
}

pub open spec fn numbers(s: Seq<Num>) -> Seq<Json> {
    s.map_values(|n: Num| n@)
}

impl View for Quantity {
    type V = Amount;

    open spec fn view(&self) -> Amount {
        match *self {
            Quantity::Plain(n) => Amount::Plain(n@),
            Quantity::Ratio { sum, count } => Amount::Ratio { sum: sum@, count: count@ },
            Quantity::Rate { value, window } => Amount::Rate { value: value@, window: window@ },
            Quantity::Difference { end, start } => Amount::Difference { end: end@, start: start@ },
            Quantity::Log2Mean(b) => Amount::Log2Mean(b@),
            Quantity::Log2Percentile(b, q) => Amount::Log2Percentile(b@, q),
            Quantity::ExplicitMean(b, e) => Amount::ExplicitMean(b@, numbers(e@)),
            Quantity::ExplicitPercentile(b, e, q) => Amount::ExplicitPercentile(
                b@,
                numbers(e@),
                q,
            ),
        }
    }
}

#[derive(Debug, PartialEq, Eq)]
pub struct Metric {
    pub id: String,
    pub value: Quantity,
    pub contaminated: bool,
    pub polarity: Polarity,
}

/// A metric as a mathematical value.
pub struct Reading {
    pub id: Seq<char>,
    pub value: Amount,
    pub contaminated: bool,
    pub polarity: Polarity,
}

impl View for Metric {
    type V = Reading;

    open spec fn view(&self) -> Reading {
        Reading {
            id: self.id@,
            value: self.value@,
            contaminated: self.contaminated,
            polarity: self.polarity,
        }
    }
}

pub open spec fn readings(s: Seq<Metric>) -> Seq<Reading> {
    s.map_values(|m: Metric| m@)
}

// ---------------------------------------------------------------------------
// Polarity
// ---------------------------------------------------------------------------

/// Which way a metric is better, by its id in lower case and its unit.
///
/// Amounts moved are better high. Processor time consumed is ambiguous. What
/// else is measured in time is better low, and so is the memory that a run took
/// from the host: the series of that name, whatever follows the name in the id.
pub open spec fn polarity_for(l: Seq<char>, unit: Seq<char>) -> Polarity {
    if text::has_part(l, "bytes"@) || text::has_part(l, "packets"@) || text::has_part(
        l,
        "throughput"@,
    ) || text::has_part(l, "iops"@) || unit == "By"@ {
        Polarity::HigherBetter
    } else if text::has_part(l, "on_cpu"@) || text::has_part(l, "utilis"@) || text::has_part(
        l,
        "cpu_ns"@,
    ) {
        Polarity::Unknown
    } else if unit == "ns"@ || unit == "us"@ || unit == "ms"@ || unit == "s"@ || l
        == "hostmem.mem_consumed_kib"@ || text::has_prefix(l, "hostmem.mem_consumed_kib|"@) {
        Polarity::LowerBetter
    } else {
        Polarity::Unknown
    }
}

/// Which way a metric is better, by its id in lower case and its unit.
pub fn polarity_of_lowered(l: &str, unit: &str) -> (r: Polarity)
    ensures
        r == polarity_for(l@, unit@),
{
    if text::contains(l, "bytes") || text::contains(l, "packets") || text::contains(l, "throughput")
        || text::contains(l, "iops") || text::same(unit, "By") {
        return Polarity::HigherBetter;
    }
    if text::contains(l, "on_cpu") || text::contains(l, "utilis") || text::contains(l, "cpu_ns") {
        return Polarity::Unknown;
    }
    if text::same(unit, "ns") || text::same(unit, "us") || text::same(unit, "ms") || text::same(
        unit,
        "s",
    ) || text::same(l, "hostmem.mem_consumed_kib") || text::starts_with(
        l,
        "hostmem.mem_consumed_kib|",
    ) {
        return Polarity::LowerBetter;
    }
    Polarity::Unknown
}

/// Which way a metric is better, by its id and unit.
pub fn polarity_of(id: &str, unit: &str) -> (r: Polarity)
    ensures
        r == polarity_for(text::lowercase(id@), unit@),
{
    polarity_of_lowered(&text::lower(id), unit)
}

// ---------------------------------------------------------------------------
// Numbers in a record
// ---------------------------------------------------------------------------

pub open spec fn is_number(j: Json) -> bool {
    j is Int || j is Float
}

/// The number that the key `k` holds.
pub open spec fn number_at(j: Json, k: Seq<char>) -> Option<Json> {
    if is_number(json::member(j, k)) {
        Some(json::member(j, k))
    } else {
        None
    }
}

/// The number that the key `k` holds, zero where it holds none.
pub open spec fn number_or_zero(j: Json, k: Seq<char>) -> Json {
    match number_at(j, k) {
        Some(n) => n,
        None => Json::Int(0),
    }
}

/// Whether a number is above zero.
pub open spec fn positive(j: Json) -> bool {
    match j {
        Json::Int(n) => n > 0,
        Json::Float(t) => !json::is_zero(t) && !(t.len() > 0 && t[0] == '-'),
        _ => false,
    }
}

pub open spec fn opt_number(o: Option<Num>) -> Option<Json> {
    match o {
        Some(n) => Some(n@),
        None => None,
    }
}

fn number(v: &Doc, k: &str) -> (r: Option<Num>)
    ensures
        opt_number(r) == number_at(v@, k@),
{
    match v.get(k) {
        Some(Doc::Num(n)) => Some(n.clone()),
        _ => None,
    }
}

pub fn number_else_zero(v: &Doc, k: &str) -> (r: Num)
    ensures
        r@ == number_or_zero(v@, k@),
{
    match number(v, k) {
        Some(n) => n,
        None => Num::Unsigned(0),
    }
}

fn above_zero(n: &Num) -> (r: bool)
    ensures
        r == positive(n@),
{
    match n {
        Num::Unsigned(n) => *n > 0,
        Num::Negative(n) => *n > 0,
        Num::Float(t) => {
            let a = text::chars(t);
            !text::same(t, "0.0") && !text::same(t, "-0.0") && !(a.len() > 0 && a[0] == '-')
        },
    }
}

/// The whole numbers among `a`, in order.
pub open spec fn whole(a: Seq<Json>) -> Seq<u64>
    decreases a.len(),
{
    if a.len() == 0 {
        Seq::empty()
    } else {
        match json::u64_of(a.last()) {
            Some(n) => whole(a.drop_last()).push(n),
            None => whole(a.drop_last()),
        }
    }
}

fn u64s(v: &Doc, k: &str) -> (r: Vec<u64>)
    ensures
        r@ == whole(json::items(v@, k@)),
{
    let mut out: Vec<u64> = Vec::new();
    if let Some(x) = v.get(k) {
        if let Some(a) = x.as_array() {
            let mut i: usize = 0;
            assert(json::jsons(a@).take(0) =~= Seq::empty());
            while i < a.len()
                invariant
                    i <= a@.len(),
                    out@ == whole(json::jsons(a@).take(i as int)),
                decreases a@.len() - i,
            {
                assert(json::jsons(a@).take(i + 1).drop_last() =~= json::jsons(a@).take(i as int));
                if let Some(n) = a[i].as_u64() {
                    out.push(n);
                }
                i += 1;
            }
            assert(json::jsons(a@).take(a@.len() as int) =~= json::jsons(a@));
        }
    }
    out
}

/// The numbers among `a`, in order.
pub open spec fn numeric(a: Seq<Json>) -> Seq<Json>
    decreases a.len(),
{
    if a.len() == 0 {
        Seq::empty()
    } else if is_number(a.last()) {
        numeric(a.drop_last()).push(a.last())
    } else {
        numeric(a.drop_last())
    }
}

pub fn f64s(v: &Doc, k: &str) -> (r: Vec<Num>)
    ensures
        numbers(r@) == numeric(json::items(v@, k@)),
{
    let mut out: Vec<Num> = Vec::new();
    assert(numbers(out@) =~= Seq::empty());
    if let Some(x) = v.get(k) {
        if let Some(a) = x.as_array() {
            let mut i: usize = 0;
            assert(json::jsons(a@).take(0) =~= Seq::empty());
            while i < a.len()
                invariant
                    i <= a@.len(),
                    numbers(out@) == numeric(json::jsons(a@).take(i as int)),
                decreases a@.len() - i,
            {
                assert(json::jsons(a@).take(i + 1).drop_last() =~= json::jsons(a@).take(i as int));
                assert(json::jsons(a@).take(i + 1).last() == a@[i as int]@);
                let ghost was = out@;
                if let Doc::Num(n) = &a[i] {
                    out.push(n.clone());
                    assert(numbers(out@) =~= numbers(was).push(a@[i as int]@));
                }
                i += 1;
            }
            assert(json::jsons(a@).take(a@.len() as int) =~= json::jsons(a@));
        }
    }
    out
}

// ---------------------------------------------------------------------------
// Contamination
// ---------------------------------------------------------------------------

/// Whether the key `k` holds true.
pub open spec fn flag(j: Json, k: Seq<char>) -> bool {
    json::bool_of(json::member(j, k)) == Some(true)
}

/// Whether one of the cost records `a` says that the probe `source` ran over
/// its budget.
pub open spec fn over_budget(a: Seq<Json>, source: Seq<char>) -> bool {
    exists|i: int|
        0 <= i < a.len() && flag(#[trigger] a[i], "over_budget"@) && json::str_field(a[i], "probe_id"@)
            == Some(source)
}

/// Whether a series of a run cannot be trusted: its probe ran over budget, or
/// keys were dropped from the series or from the whole capture.
pub open spec fn tainted(run: Json, s: Json) -> bool {
    over_budget(json::items(run, "self_metrics"@), text_or_empty(s, "source"@)) || flag(
        s,
        "cardinality_overflow"@,
    ) || flag(json::member(run, "capture_meta"@), "cardinality_overflow"@)
}

/// The string that the key `k` holds, empty where it holds none.
pub open spec fn text_or_empty(j: Json, k: Seq<char>) -> Seq<char> {
    match json::str_field(j, k) {
        Some(t) => t,
        None => Seq::empty(),
    }
}

pub fn is_set(v: &Doc, k: &str) -> (r: bool)
    ensures
        r == flag(v@, k@),
{
    match v.get(k) {
        Some(x) => match x.as_bool() {
            Some(b) => b,
            None => false,
        },
        None => false,
    }
}

pub fn text_at(v: &Doc, k: &str) -> (r: String)
    ensures
        r@ == text_or_empty(v@, k@),
{
    match v.str_at(k) {
        Some(t) => t.to_owned(),
        None => String::new(),
    }
}

fn probe_over_budget(run: &Doc, source: &str) -> (r: bool)
    ensures
        r == over_budget(json::items(run@, "self_metrics"@), source@),
{
    let ghost a = json::items(run@, "self_metrics"@);
    if let Some(x) = run.get("self_metrics") {
        if let Some(v) = x.as_array() {
            assert(a == json::jsons(v@));
            let mut i: usize = 0;
            while i < v.len()
                invariant
                    i <= v@.len(),
                    a == json::jsons(v@),
                    a == json::items(run@, "self_metrics"@),
                    forall|j: int|
                        0 <= j < i ==> !(flag(#[trigger] a[j], "over_budget"@) && json::str_field(
                            a[j],
                            "probe_id"@,
                        ) == Some(source@)),
                decreases v@.len() - i,
            {
                assert(a[i as int] == v@[i as int]@);
                if is_set(&v[i], "over_budget") {
                    if let Some(id) = v[i].str_at("probe_id") {
                        if text::same(id, source) {
                            return true;
                        }
                    }
                }
                i += 1;
            }
        }
    }
    false
}

// ---------------------------------------------------------------------------
// Series
// ---------------------------------------------------------------------------

/// A label's value in a metric id: a string as it is, anything else as JSON
/// writes it.
pub open spec fn plain(j: Json) -> Seq<char> {
    match j {
        Json::Str(s) => s,
        _ => json::text_of(j),
    }
}

/// The first `n` of the labels `e` in a metric id.
pub open spec fn label_suffix(e: Seq<(Seq<char>, Json)>, n: nat) -> Seq<char>
    decreases n,
{
    if n == 0 || n > e.len() {
        Seq::empty()
    } else {
        label_suffix(e, (n - 1) as nat) + "|"@ + e[n - 1].0 + "="@ + plain(e[n - 1].1)
    }
}

/// What a series' metric ids begin with: its name, its key where it has one,
/// and each of its labels.
pub open spec fn series_id(s: Json) -> Seq<char> {
    let named = match json::str_field(s, "key"@) {
        Some(k) => text_or_empty(s, "name"@) + "|"@ + k,
        None => text_or_empty(s, "name"@),
    };
    match json::member(s, "labels"@) {
        Json::Obj(e) => named + label_suffix(e, e.len()),
        _ => named,
    }
}

fn base_id(s: &Doc) -> (r: String)
    ensures
        r@ == series_id(s@),
{
    let mut id = text_at(s, "name");
    if let Some(k) = s.str_at("key") {
        id.append("|");
        id.append(k);
    }
    if let Some(Doc::Object(o)) = s.get("labels") {
        let ghost named = id@;
        let mut i: usize = 0;
        assert(named + label_suffix(o@, 0) =~= named);
        while i < o.len()
            invariant
                i <= o@.len(),
                id@ == named + label_suffix(o@, i as nat),
            decreases o@.len() - i,
        {
            let value = match o.value(i) {
                Doc::String(t) => t.clone(),
                other => other.to_text(),
            };
            assert(value@ == plain(o@[i as int].1));
            id.append("|");
            id.append(o.key(i));
            id.append("=");
            id.append(&value);
            i += 1;
            assert(id@ =~= named + label_suffix(o@, i as nat));
        }
    }
    id
}

/// A metric of a series.
pub open spec fn reading(id: Seq<char>, unit: Seq<char>, tainted: bool, value: Amount) -> Reading {
    Reading { id, value, contaminated: tainted, polarity: polarity_for(text::lowercase(id), unit) }
}

/// The mean of a log2 histogram: exact from its sum and count where they are
/// recorded, estimated from its buckets otherwise.
pub open spec fn log2_mean_of(data: Json) -> Amount {
    match (number_at(data, "sum"@), number_at(data, "count"@)) {
        (Some(sum), Some(count)) if positive(count) => Amount::Ratio { sum, count },
        _ => Amount::Log2Mean(whole(json::items(data, "buckets"@))),
    }
}

/// The metrics of one series of a run.
pub open spec fn series_readings(run: Json, s: Json) -> Seq<Reading> {
    let id = series_id(s);
    let unit = text_or_empty(s, "unit"@);
    let kind = text_or_empty(s, "kind"@);
    let bad = tainted(run, s);
    match json::field(s, "data"@) {
        None => Seq::empty(),
        Some(data) => {
            let buckets = whole(json::items(data, "buckets"@));
            let bounds = numeric(json::items(data, "explicit_bounds"@));
            let value = number_or_zero(data, "value"@);
            if kind == "histogram"@ {
                if json::str_field(data, "layout"@) == Some("explicit"@) {
                    seq![
                        reading(id + "|mean"@, unit, bad, Amount::ExplicitMean(buckets, bounds)),
                        reading(
                            id + "|p50"@,
                            unit,
                            bad,
                            Amount::ExplicitPercentile(buckets, bounds, 50),
                        ),
                        reading(
                            id + "|p99"@,
                            unit,
                            bad,
                            Amount::ExplicitPercentile(buckets, bounds, 99),
                        ),
                    ]
                } else {
                    seq![
                        reading(id + "|mean"@, unit, bad, log2_mean_of(data)),
                        reading(id + "|p50"@, unit, bad, Amount::Log2Percentile(buckets, 50)),
                        reading(id + "|p99"@, unit, bad, Amount::Log2Percentile(buckets, 99)),
                    ]
                }
            } else if kind == "counter"@ {
                let total = reading(id + "|value"@, unit, bad, Amount::Plain(value));
                match window_of(run) {
                    Some(window) if positive(window) => seq![
                        total,
                        reading(id + "|rate"@, unit, bad, Amount::Rate { value, window }),
                    ],
                    _ => seq![total],
                }
            } else if kind == "gauge"@ {
                seq![reading(id + "|value"@, unit, bad, Amount::Plain(value))]
            } else {
                Seq::empty()
            }
        },
    }
}

/// The length of the capture window in nanoseconds, where it is recorded.
pub open spec fn window_of(run: Json) -> Option<Json> {
    number_at(json::member(run, "capture_meta"@), "window_ns"@)
}

/// The length of the capture window in nanoseconds, where it is recorded.
pub fn window_ns(run: &Doc) -> (r: Option<Num>)
    ensures
        opt_number(r) == window_of(run@),
{
    match run.get("capture_meta") {
        Some(m) => number(m, "window_ns"),
        None => None,
    }
}

fn metric(base: &str, suffix: &str, unit: &str, contaminated: bool, value: Quantity) -> (r: Metric)
    ensures
        r@ == reading(base@ + suffix@, unit@, contaminated, value@),
{
    let id = text::join2(base, suffix);
    let polarity = polarity_of(&id, unit);
    Metric { id, value, contaminated, polarity }
}

fn copy_u64s(v: &Vec<u64>) -> (r: Vec<u64>)
    ensures
        r@ == v@,
{
    let mut out: Vec<u64> = Vec::new();
    let mut i: usize = 0;
    while i < v.len()
        invariant
            i <= v@.len(),
            out@ == v@.take(i as int),
        decreases v@.len() - i,
    {
        out.push(v[i]);
        i += 1;
        assert(v@.take(i as int) =~= v@.take(i - 1).push(v@[i - 1]));
    }
    assert(v@.take(v@.len() as int) =~= v@);
    out
}

fn copy_numbers(v: &Vec<Num>) -> (r: Vec<Num>)
    ensures
        numbers(r@) == numbers(v@),
{
    let mut out: Vec<Num> = Vec::new();
    let mut i: usize = 0;
    while i < v.len()
        invariant
            i <= v@.len(),
            numbers(out@) =~= numbers(v@).take(i as int),
        decreases v@.len() - i,
    {
        let ghost was = out@;
        out.push(v[i].clone());
        assert(numbers(out@) =~= numbers(was).push(v@[i as int]@));
        i += 1;
    }
    out
}

fn histogram_metrics(id: &str, unit: &str, bad: bool, data: &Doc) -> (r: Vec<Metric>)
    ensures
        readings(r@) == (if json::str_field(data@, "layout"@) == Some("explicit"@) {
            seq![
                reading(
                    id@ + "|mean"@,
                    unit@,
                    bad,
                    Amount::ExplicitMean(
                        whole(json::items(data@, "buckets"@)),
                        numeric(json::items(data@, "explicit_bounds"@)),
                    ),
                ),
                reading(
                    id@ + "|p50"@,
                    unit@,
                    bad,
                    Amount::ExplicitPercentile(
                        whole(json::items(data@, "buckets"@)),
                        numeric(json::items(data@, "explicit_bounds"@)),
                        50,
                    ),
                ),
                reading(
                    id@ + "|p99"@,
                    unit@,
                    bad,
                    Amount::ExplicitPercentile(
                        whole(json::items(data@, "buckets"@)),
                        numeric(json::items(data@, "explicit_bounds"@)),
                        99,
                    ),
                ),
            ]
        } else {
            seq![
                reading(id@ + "|mean"@, unit@, bad, log2_mean_of(data@)),
                reading(
                    id@ + "|p50"@,
                    unit@,
                    bad,
                    Amount::Log2Percentile(whole(json::items(data@, "buckets"@)), 50),
                ),
                reading(
                    id@ + "|p99"@,
                    unit@,
                    bad,
                    Amount::Log2Percentile(whole(json::items(data@, "buckets"@)), 99),
                ),
            ]
        }),
{
    let buckets = u64s(data, "buckets");
    let explicit = match data.str_at("layout") {
        Some(l) => text::same(l, "explicit"),
        None => false,
    };
    let mut out: Vec<Metric> = Vec::new();
    if explicit {
        let bounds = f64s(data, "explicit_bounds");
        let b1 = copy_u64s(&buckets);
        let b2 = copy_u64s(&buckets);
        let e1 = copy_numbers(&bounds);
        let e2 = copy_numbers(&bounds);
        out.push(metric(id, "|mean", unit, bad, Quantity::ExplicitMean(b1, e1)));
        out.push(metric(id, "|p50", unit, bad, Quantity::ExplicitPercentile(b2, e2, 50)));
        out.push(metric(id, "|p99", unit, bad, Quantity::ExplicitPercentile(buckets, bounds, 99)));
    } else {
        let b1 = copy_u64s(&buckets);
        let b2 = copy_u64s(&buckets);
        let mean = match (number(data, "sum"), number(data, "count")) {
            (Some(sum), Some(count)) => if above_zero(&count) {
                Quantity::Ratio { sum, count }
            } else {
                Quantity::Log2Mean(b1)
            },
            _ => Quantity::Log2Mean(b1),
        };
        assert(mean@ == log2_mean_of(data@));
        out.push(metric(id, "|mean", unit, bad, mean));
        out.push(metric(id, "|p50", unit, bad, Quantity::Log2Percentile(b2, 50)));
        out.push(metric(id, "|p99", unit, bad, Quantity::Log2Percentile(buckets, 99)));
    }
    assert(readings(out@) =~= seq![out@[0]@, out@[1]@, out@[2]@]);
    out
}

fn series_metrics(run: &Doc, s: &Doc) -> (r: Vec<Metric>)
    ensures
        readings(r@) == series_readings(run@, s@),
{
    let mut out: Vec<Metric> = Vec::new();
    assert(readings(out@) =~= Seq::empty());
    let data = match s.get("data") {
        Some(d) => d,
        None => {
            return out;
        },
    };
    let id = base_id(s);
    let unit = text_at(s, "unit");
    let kind = text_at(s, "kind");
    let overflow = match run.get("capture_meta") {
        Some(m) => is_set(m, "cardinality_overflow"),
        None => false,
    };
    let bad = probe_over_budget(run, &text_at(s, "source")) || is_set(s, "cardinality_overflow")
        || overflow;
    if text::same(&kind, "histogram") {
        return histogram_metrics(&id, &unit, bad, data);
    }
    if text::same(&kind, "counter") {
        let value = number_else_zero(data, "value");
        let again = value.clone();
        out.push(metric(&id, "|value", &unit, bad, Quantity::Plain(value)));
        assert(readings(out@) =~= seq![out@[0]@]);
        if let Some(window) = window_ns(run) {
            if above_zero(&window) {
                let rate = metric(&id, "|rate", &unit, bad, Quantity::Rate { value: again, window });
                out.push(rate);
                assert(readings(out@) =~= seq![out@[0]@, out@[1]@]);
            }
        }
    } else if text::same(&kind, "gauge") {
        let value = number_else_zero(data, "value");
        out.push(metric(&id, "|value", &unit, bad, Quantity::Plain(value)));
        assert(readings(out@) =~= seq![out@[0]@]);
    }
    out
}

// ---------------------------------------------------------------------------
// Workload report and spans
// ---------------------------------------------------------------------------

/// A key below a prefix, as a dotted path.
pub open spec fn path(prefix: Seq<char>, k: Seq<char>) -> Seq<char> {
    if prefix.len() == 0 {
        k
    } else {
        prefix + "."@ + k
    }
}

/// The numeric leaves of a document, each with its dotted path.
pub open spec fn leaves(prefix: Seq<char>, j: Json) -> Seq<(Seq<char>, Json)>
    decreases j, 0nat,
{
    match j {
        Json::Obj(e) => member_leaves(prefix, e, e.len()),
        Json::Int(_) | Json::Float(_) => seq![(prefix, j)],
        _ => Seq::empty(),
    }
}

/// The numeric leaves of the first `n` members of an object.
pub open spec fn member_leaves(prefix: Seq<char>, e: Seq<(Seq<char>, Json)>, n: nat) -> Seq<
    (Seq<char>, Json),
>
    decreases e, n,
{
    if n == 0 || n > e.len() {
        Seq::empty()
    } else {
        let m = e[n - 1];
        member_leaves(prefix, e, (n - 1) as nat) + leaves(path(prefix, m.0), m.1)
    }
}

pub open spec fn leaf_views(s: Seq<(String, Num)>) -> Seq<(Seq<char>, Json)> {
    s.map_values(|p: (String, Num)| (p.0@, p.1@))
}

fn flatten_numbers(prefix: &str, v: &Doc, out: &mut Vec<(String, Num)>)
    ensures
        leaf_views(final(out)@) == leaf_views(old(out)@) + leaves(prefix@, v@),
    decreases v,
{
    let ghost start = leaf_views(out@);
    match v {
        Doc::Object(o) => {
            let mut i: usize = 0;
            assert(start + member_leaves(prefix@, o@, 0) =~= start);
            while i < o.len()
                invariant
                    i <= o@.len(),
                    leaf_views(out@) == start + member_leaves(prefix@, o@, i as nat),
                    decreases_to!(v => o),
                decreases o@.len() - i,
            {
                let mut key = prefix.to_owned();
                if !prefix.is_empty() {
                    key.append(".");
                }
                key.append(o.key(i));
                assert(key@ =~= path(prefix@, o@[i as int].0));
                flatten_numbers(&key, o.value(i), out);
                i += 1;
                assert(leaf_views(out@) =~= start + member_leaves(prefix@, o@, i as nat));
            }
        },
        Doc::Num(n) => {
            let ghost was = out@;
            out.push((prefix.to_owned(), n.clone()));
            assert(leaf_views(out@) =~= leaf_views(was).push((prefix@, v@)));
            assert(leaf_views(out@) =~= start + leaves(prefix@, v@));
        },
        _ => {
            assert(start + leaves(prefix@, v@) =~= start);
        },
    }
}

/// The unit of a reported number, by how its name ends.
pub open spec fn suffix_unit(k: Seq<char>) -> Seq<char> {
    if text::has_suffix(k, "_ns"@) {
        "ns"@
    } else if text::has_suffix(k, "_us"@) {
        "us"@
    } else if text::has_suffix(k, "_ms"@) {
        "ms"@
    } else {
        ""@
    }
}

/// The metric of one numeric leaf of a workload's report.
pub open spec fn leaf_reading(leaf: (Seq<char>, Json)) -> Reading {
    reading("workload:"@ + leaf.0, suffix_unit(leaf.0), false, Amount::Plain(leaf.1))
}

/// The metrics of a workload's report.
pub open spec fn workload_readings(run: Json) -> Seq<Reading> {
    match json::field(run, "workload_report"@) {
        Some(report) => leaves(Seq::empty(), report).map_values(
            |l: (Seq<char>, Json)| leaf_reading(l),
        ),
        None => Seq::empty(),
    }
}

fn workload_metrics(run: &Doc) -> (r: Vec<Metric>)
    ensures
        readings(r@) == workload_readings(run@),
{
    let mut out: Vec<Metric> = Vec::new();
    if let Some(report) = run.get("workload_report") {
        let mut flat: Vec<(String, Num)> = Vec::new();
        flatten_numbers("", report, &mut flat);
        proof {
            reveal_strlit("");
            assert(""@ =~= Seq::<char>::empty());
        }
        let ghost all = leaves(Seq::empty(), report@);
        assert(leaf_views(flat@) =~= all);
        let mut i: usize = 0;
        while i < flat.len()
            invariant
                i <= flat@.len(),
                leaf_views(flat@) == all,
                readings(out@) =~= all.take(i as int).map_values(
                    |l: (Seq<char>, Json)| leaf_reading(l),
                ),
            decreases flat@.len() - i,
        {
            assert(all[i as int] == leaf_views(flat@)[i as int]);
            let k = &flat[i].0;
            let unit = if text::ends_with(k, "_ns") {
                "ns"
            } else if text::ends_with(k, "_us") {
                "us"
            } else if text::ends_with(k, "_ms") {
                "ms"
            } else {
                ""
            };
            let ghost was = out@;
            out.push(metric("workload:", k, unit, false, Quantity::Plain(flat[i].1.clone())));
            assert(readings(out@) =~= readings(was).push(leaf_reading(all[i as int])));
            i += 1;
            assert(all.take(i as int) =~= all.take(i - 1).push(all[i - 1]));
        }
        assert(all.take(all.len() as int) =~= all);
    } else {
        assert(readings(out@) =~= Seq::empty());
    }
    out
}

/// The duration of a span that records when it began and ended. Shorter is
/// better.
pub open spec fn span_readings(sp: Json) -> Seq<Reading> {
    match (number_at(sp, "start_unix_nano"@), number_at(sp, "end_unix_nano"@)) {
        (Some(start), Some(end)) => seq![
            Reading {
                id: "span:"@ + text_or_empty(sp, "name"@) + "|dur"@,
                value: Amount::Difference { end, start },
                contaminated: false,
                polarity: Polarity::LowerBetter,
            },
        ],
        _ => Seq::empty(),
    }
}

fn span_metrics(sp: &Doc) -> (r: Vec<Metric>)
    ensures
        readings(r@) == span_readings(sp@),
{
    let mut out: Vec<Metric> = Vec::new();
    assert(readings(out@) =~= Seq::empty());
    if let (Some(start), Some(end)) = (number(sp, "start_unix_nano"), number(sp, "end_unix_nano")) {
        let mut id = "span:".to_owned();
        id.append(&text_at(sp, "name"));
        id.append("|dur");
        out.push(
            Metric {
                id,
                value: Quantity::Difference { end, start },
                contaminated: false,
                polarity: Polarity::LowerBetter,
            },
        );
        assert(readings(out@) =~= span_readings(sp@));
    }
    out
}

// ---------------------------------------------------------------------------
// The whole record
// ---------------------------------------------------------------------------

/// The metrics of the first series of a run.
pub open spec fn all_series(run: Json, a: Seq<Json>) -> Seq<Reading>
    decreases a.len(),
{
    if a.len() == 0 {
        Seq::empty()
    } else {
        all_series(run, a.drop_last()) + series_readings(run, a.last())
    }
}

/// The durations of the first spans of a run.
pub open spec fn all_spans(a: Seq<Json>) -> Seq<Reading>
    decreases a.len(),
{
    if a.len() == 0 {
        Seq::empty()
    } else {
        all_spans(a.drop_last()) + span_readings(a.last())
    }
}

/// The metrics of a run: those of its series, of its workload's report and of
/// its spans, each in the order of the record.
pub open spec fn reduced(run: Json) -> Seq<Reading> {
    all_series(run, json::items(run, "series"@)) + workload_readings(run) + all_spans(
        json::items(run, "spans"@),
    )
}

fn extend(out: &mut Vec<Metric>, more: Vec<Metric>)
    ensures
        readings(final(out)@) == readings(old(out)@) + readings(more@),
{
    let ghost before = out@;
    let mut rest = more;
    out.append(&mut rest);
    assert(readings(out@) =~= readings(before) + readings(more@));
}

/// The metrics of a run.
pub fn reduce(run: &Doc) -> (r: Vec<Metric>)
    ensures
        readings(r@) == reduced(run@),
{
    let mut out: Vec<Metric> = Vec::new();
    assert(readings(out@) =~= Seq::empty());
    let ghost series = json::items(run@, "series"@);
    if let Some(x) = run.get("series") {
        if let Some(v) = x.as_array() {
            let mut i: usize = 0;
            assert(json::jsons(v@).take(0) =~= Seq::empty());
            while i < v.len()
                invariant
                    i <= v@.len(),
                    readings(out@) == all_series(run@, json::jsons(v@).take(i as int)),
                decreases v@.len() - i,
            {
                assert(json::jsons(v@).take(i + 1).drop_last() =~= json::jsons(v@).take(i as int));
                extend(&mut out, series_metrics(run, &v[i]));
                i += 1;
            }
            assert(json::jsons(v@).take(v@.len() as int) =~= series);
        }
    }
    assert(readings(out@) == all_series(run@, series));
    extend(&mut out, workload_metrics(run));
    let ghost sofar = readings(out@);
    let ghost spans = json::items(run@, "spans"@);
    assert(sofar + all_spans(Seq::empty()) =~= sofar);
    if let Some(x) = run.get("spans") {
        if let Some(v) = x.as_array() {
            let mut i: usize = 0;
            assert(json::jsons(v@).take(0) =~= Seq::empty());
            while i < v.len()
                invariant
                    i <= v@.len(),
                    readings(out@) == sofar + all_spans(json::jsons(v@).take(i as int)),
                decreases v@.len() - i,
            {
                assert(json::jsons(v@).take(i + 1).drop_last() =~= json::jsons(v@).take(i as int));
                extend(&mut out, span_metrics(&v[i]));
                i += 1;
                assert(readings(out@) =~= sofar + all_spans(json::jsons(v@).take(i as int)));
            }
            assert(json::jsons(v@).take(v@.len() as int) =~= spans);
        }
    }
    out
}

impl Clone for Quantity {
    fn clone(&self) -> (r: Self)
        ensures
            r@ == self@,
    {
        match self {
            Quantity::Plain(n) => Quantity::Plain(n.clone()),
            Quantity::Ratio { sum, count } => Quantity::Ratio {
                sum: sum.clone(),
                count: count.clone(),
            },
            Quantity::Rate { value, window } => Quantity::Rate {
                value: value.clone(),
                window: window.clone(),
            },
            Quantity::Difference { end, start } => Quantity::Difference {
                end: end.clone(),
                start: start.clone(),
            },
            Quantity::Log2Mean(b) => Quantity::Log2Mean(copy_u64s(b)),
            Quantity::Log2Percentile(b, q) => Quantity::Log2Percentile(copy_u64s(b), *q),
            Quantity::ExplicitMean(b, e) => Quantity::ExplicitMean(copy_u64s(b), copy_numbers(e)),
            Quantity::ExplicitPercentile(b, e, q) => Quantity::ExplicitPercentile(
                copy_u64s(b),
                copy_numbers(e),
                *q,
            ),
        }
    }
}

/// No metric of a series is trusted whose probe ran over its budget.
pub proof fn law_overspent_probes_taint(run: Json, s: Json, i: int)
    requires
        over_budget(json::items(run, "self_metrics"@), text_or_empty(s, "source"@)),
        0 <= i < series_readings(run, s).len(),
    ensures
        series_readings(run, s)[i].contaminated,
{
}

/// Every number of a workload's report is a metric, under its path.
pub proof fn law_reported_numbers_are_graded(run: Json, i: int)
    requires
        json::field(run, "workload_report"@) is Some,
        0 <= i < leaves(Seq::empty(), json::member(run, "workload_report"@)).len(),
    ensures
        ({
            let leaf = leaves(Seq::empty(), json::member(run, "workload_report"@))[i];
            exists|k: int|
                0 <= k < reduced(run).len() && (#[trigger] reduced(run)[k]).id == "workload:"@
                    + leaf.0 && reduced(run)[k].value == Amount::Plain(leaf.1)
                    && !reduced(run)[k].contaminated
        }),
{
    let leaf = leaves(Seq::empty(), json::member(run, "workload_report"@))[i];
    let k = all_series(run, json::items(run, "series"@)).len() + i;
    assert(reduced(run)[k] == workload_readings(run)[i]);
    assert(workload_readings(run)[i] == leaf_reading(leaf));
}

} // verus!
