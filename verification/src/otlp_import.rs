//! OTLP import: what maps is filled in, the fields that only a benchmark has
//! are left empty, and the run is valid at best.
use crate::contract::{self, AssayRun, Fingerprint, Grade, Host, Identified, Identity, Record};
use crate::json::{self, Json, Object, Doc};
use crate::otlp;
use crate::reduce;
use crate::text;
use vstd::prelude::*;

verus! {

// ---------------------------------------------------------------------------
// Reading attributes and numbers
// ---------------------------------------------------------------------------

/// The value of the first attribute with that key, among those from `from` on.
pub open spec fn attr(a: Seq<Json>, key: Seq<char>, from: nat) -> Option<Json>
    decreases a.len() - from,
{
    if from >= a.len() {
        None
    } else if json::member(a[from as int], "key"@) == Json::Str(key) {
        Some(json::member(a[from as int], "value"@))
    } else {
        attr(a, key, from + 1)
    }
}

/// The items of an array; none of anything else.
pub open spec fn elements(j: Json) -> Seq<Json> {
    match j {
        Json::Arr(a) => a,
        _ => Seq::empty(),
    }
}

pub open spec fn attr_text(attrs: Json, key: Seq<char>) -> Option<Seq<char>> {
    match attr(elements(attrs), key, 0) {
        Some(v) => json::str_field(v, "stringValue"@),
        None => None,
    }
}

pub open spec fn attr_number(attrs: Json, key: Seq<char>) -> Option<i64> {
    match attr(elements(attrs), key, 0) {
        Some(v) => match json::member(v, "intValue"@) {
            Json::Str(s) => match text::signed(s) {
                Some(n) => Some(n as i64),
                None => None,
            },
            j => json::i64_of(j),
        },
        None => None,
    }
}

pub open spec fn attr_flag(attrs: Json, key: Seq<char>) -> Option<bool> {
    match attr(elements(attrs), key, 0) {
        Some(v) => json::bool_of(json::member(v, "boolValue"@)),
        None => None,
    }
}

fn attr_val<'a>(attrs: Option<&'a Doc>, key: &str) -> (r: Option<Option<&'a Doc>>)
    ensures
        match r {
            Some(v) => attr(elements(or_null(attrs)), key@, 0) == Some(or_null(v)),
            None => attr(elements(or_null(attrs)), key@, 0) is None,
        },
{
    let a = match attrs {
        Some(x) => match x.as_array() {
            Some(a) => a,
            None => {
                return None;
            },
        },
        None => {
            return None;
        },
    };
    let ghost all = json::jsons(a@);
    let mut i: usize = 0;
    while i < a.len()
        invariant
            i <= a@.len(),
            all == json::jsons(a@),
            attr(all, key@, 0) == attr(all, key@, i as nat),
            elements(or_null(attrs)) == all,
        decreases a@.len() - i,
    {
        assert(all[i as int] == a@[i as int]@);
        if let Some(k) = a[i].str_at("key") {
            if text::same(k, key) {
                return Some(a[i].get("value"));
            }
        }
        i += 1;
    }
    None
}

/// What an optional reference holds, null where there is nothing.
pub open spec fn or_null(o: Option<&Doc>) -> Json {
    match o {
        Some(v) => v@,
        None => Json::Null,
    }
}

fn attr_str(attrs: Option<&Doc>, key: &str) -> (r: Option<String>)
    ensures
        text::opt_text(r) == attr_text(or_null(attrs), key@),
{
    match attr_val(attrs, key) {
        Some(Some(v)) => match v.str_at("stringValue") {
            Some(s) => Some(s.to_owned()),
            None => None,
        },
        _ => None,
    }
}

fn attr_int(attrs: Option<&Doc>, key: &str) -> (r: Option<i64>)
    ensures
        r == attr_number(or_null(attrs), key@),
{
    match attr_val(attrs, key) {
        Some(Some(v)) => match v.get("intValue") {
            Some(x) => match x.as_str() {
                Some(s) => text::parse_signed(s),
                None => x.as_i64(),
            },
            None => None,
        },
        _ => None,
    }
}

fn attr_bool(attrs: Option<&Doc>, key: &str) -> (r: Option<bool>)
    ensures
        r == attr_flag(or_null(attrs), key@),
{
    match attr_val(attrs, key) {
        Some(Some(v)) => match v.get("boolValue") {
            Some(x) => x.as_bool(),
            None => None,
        },
        _ => None,
    }
}

/// A whole number that OTLP/JSON writes as text or as a number; zero where it
/// is neither.
pub open spec fn count(j: Json) -> u64 {
    match j {
        Json::Str(s) => match text::unsigned(s, u64::MAX as nat) {
            Some(n) => n as u64,
            None => 0,
        },
        _ => match json::u64_of(j) {
            Some(n) => n,
            None => 0,
        },
    }
}

fn str_u64(v: Option<&Doc>) -> (r: u64)
    ensures
        r == count(or_null(v)),
{
    match v {
        Some(x) => match x.as_str() {
            Some(s) => match text::parse_unsigned(s, u64::MAX) {
                Some(n) => n,
                None => 0,
            },
            None => match x.as_u64() {
                Some(n) => n,
                None => 0,
            },
        },
        None => 0,
    }
}

/// Whole numbers as a document.
pub open spec fn counts(a: Seq<Json>) -> Json {
    Json::Arr(a.map_values(|j: Json| Json::Int(count(j) as int)))
}

fn str_array_u64(v: Option<&Doc>) -> (r: Doc)
    ensures
        r@ == counts(elements(or_null(v))),
{
    let ghost all = elements(or_null(v)).map_values(|j: Json| Json::Int(count(j) as int));
    let mut out: Vec<Doc> = Vec::new();
    if let Some(x) = v {
        if let Some(a) = x.as_array() {
            let mut i: usize = 0;
            while i < a.len()
                invariant
                    i <= a@.len(),
                    all == json::jsons(a@).map_values(|j: Json| Json::Int(count(j) as int)),
                    json::jsons(out@) =~= all.take(i as int),
                decreases a@.len() - i,
            {
                let ghost was = out@;
                out.push(json::uint(str_u64(Some(&a[i]))));
                assert(json::jsons(out@) =~= json::jsons(was).push(all[i as int]));
                i += 1;
            }
            assert(all.take(i as int) =~= all);
        }
    }
    assert(json::jsons(out@) =~= all);
    json::array(out)
}

// ---------------------------------------------------------------------------
// Spans
// ---------------------------------------------------------------------------

/// The items under the key `k` of each of the documents, in order.
pub open spec fn gathered(a: Seq<Json>, k: Seq<char>) -> Seq<Json>
    decreases a.len(),
{
    if a.len() == 0 {
        Seq::empty()
    } else {
        gathered(a.drop_last(), k) + json::items(a.last(), k)
    }
}

pub open spec fn refs(s: Seq<&Doc>) -> Seq<Json> {
    s.map_values(|v: &Doc| v@)
}

fn add_items<'a>(out: &mut Vec<&'a Doc>, v: &'a Doc, k: &str)
    ensures
        refs(final(out)@) == refs(old(out)@) + json::items(v@, k@),
{
    let ghost was = refs(out@);
    let ghost more = json::items(v@, k@);
    assert(was + Seq::<Json>::empty() =~= was);
    if let Some(x) = v.get(k) {
        if let Some(a) = x.as_array() {
            assert(more == json::jsons(a@));
            let mut i: usize = 0;
            assert(was + more.take(0) =~= was);
            while i < a.len()
                invariant
                    i <= a@.len(),
                    more == json::jsons(a@),
                    refs(out@) =~= was + more.take(i as int),
                decreases a@.len() - i,
            {
                let ghost before = out@;
                out.push(&a[i]);
                assert(refs(out@) =~= refs(before).push(more[i as int]));
                i += 1;
                assert(more.take(i as int) =~= more.take(i - 1).push(more[i - 1]));
            }
            assert(more.take(i as int) =~= more);
        }
    }
}

fn gather<'a>(vs: &Vec<&'a Doc>, k: &str) -> (r: Vec<&'a Doc>)
    ensures
        refs(r@) == gathered(refs(vs@), k@),
{
    let ghost all = refs(vs@);
    let mut out: Vec<&'a Doc> = Vec::new();
    assert(refs(out@) =~= Seq::empty());
    assert(all.take(0) =~= Seq::empty());
    let mut i: usize = 0;
    while i < vs.len()
        invariant
            i <= vs@.len(),
            all == refs(vs@),
            refs(out@) == gathered(all.take(i as int), k@),
        decreases vs@.len() - i,
    {
        assert(all.take(i + 1).drop_last() =~= all.take(i as int));
        assert(all.take(i + 1).last() == vs@[i as int]@);
        add_items(&mut out, vs[i], k);
        i += 1;
    }
    assert(all.take(all.len() as int) =~= all);
    out
}

/// The spans of a document.
pub open spec fn raw_spans(doc: Json) -> Seq<Json> {
    gathered(gathered(json::items(doc, "resourceSpans"@), "scopeSpans"@), "spans"@)
}

/// The metrics of a document.
pub open spec fn raw_metrics(doc: Json) -> Seq<Json> {
    gathered(gathered(json::items(doc, "resourceMetrics"@), "scopeMetrics"@), "metrics"@)
}

fn nested<'a>(doc: &'a Doc, top: &str, scopes: &str, leaves: &str) -> (r: Vec<&'a Doc>)
    ensures
        refs(r@) == gathered(gathered(json::items(doc@, top@), scopes@), leaves@),
{
    let mut first: Vec<&'a Doc> = Vec::new();
    assert(refs(first@) =~= Seq::empty());
    add_items(&mut first, doc, top);
    assert(refs(first@) =~= json::items(doc@, top@));
    gather(&gather(&first, scopes), leaves)
}

/// The name of the last span with that id that has a name.
pub open spec fn name_of(spans: Seq<Json>, id: Seq<char>) -> Option<Seq<char>>
    decreases spans.len(),
{
    if spans.len() == 0 {
        None
    } else {
        let s = spans.last();
        match (json::str_field(s, "spanId"@), json::str_field(s, "name"@)) {
            (Some(i), Some(n)) if i == id => Some(n),
            _ => name_of(spans.drop_last(), id),
        }
    }
}

fn find_name(spans: &Vec<&Doc>, id: &str) -> (r: Option<String>)
    ensures
        text::opt_text(r) == name_of(refs(spans@), id@),
{
    let ghost all = refs(spans@);
    let mut i: usize = spans.len();
    assert(all.take(i as int) =~= all);
    while i > 0
        invariant
            i <= spans@.len(),
            all == refs(spans@),
            name_of(all, id@) == name_of(all.take(i as int), id@),
        decreases i,
    {
        assert(all.take(i as int).drop_last() =~= all.take(i - 1));
        i -= 1;
        assert(all[i as int] == spans@[i as int]@);
        if let (Some(s), Some(n)) = (spans[i].str_at("spanId"), spans[i].str_at("name")) {
            if text::same(s, id) {
                return Some(n.to_owned());
            }
        }
    }
    None
}

/// The plain value of an attribute.
pub open spec fn plain_value(v: Json) -> Json {
    match json::str_field(v, "stringValue"@) {
        Some(s) => Json::Str(s),
        None => match json::bool_of(json::member(v, "boolValue"@)) {
            Some(b) => Json::Bool(b),
            None => match otlp::double_at(v, "doubleValue"@) {
                Some(d) => d,
                None => match json::str_field(v, "intValue"@) {
                    Some(s) => match text::signed(s) {
                        Some(n) => Json::Int(n),
                        None => Json::Null,
                    },
                    None => Json::Null,
                },
            },
        },
    }
}

fn plain(v: Option<&Doc>) -> (r: Doc)
    ensures
        r@ == plain_value(or_null(v)),
{
    let v = match v {
        Some(x) => x,
        None => {
            return Doc::Null;
        },
    };
    if let Some(s) = v.str_at("stringValue") {
        return json::string(s);
    }
    if let Some(x) = v.get("boolValue") {
        if let Some(b) = x.as_bool() {
            return Doc::Bool(b);
        }
    }
    if let Some(d) = otlp::double_field(v, "doubleValue") {
        return d;
    }
    match v.str_at("intValue") {
        Some(s) => match text::parse_signed(s) {
            Some(n) => json::signed(n),
            None => Doc::Null,
        },
        None => Doc::Null,
    }
}

/// Attributes as the members of an object.
pub open spec fn unlisted(a: Seq<Json>) -> Seq<(Seq<char>, Json)>
    decreases a.len(),
{
    if a.len() == 0 {
        json::none()
    } else {
        let e = unlisted(a.drop_last());
        match json::str_field(a.last(), "key"@) {
            Some(k) => json::put(e, k, plain_value(json::member(a.last(), "value"@))),
            None => e,
        }
    }
}

fn kv_list_to_object(v: Option<&Doc>) -> (r: Object)
    ensures
        r@ == unlisted(elements(or_null(v))),
{
    let mut o = Object::new();
    if let Some(x) = v {
        if let Some(a) = x.as_array() {
            let ghost all = json::jsons(a@);
            assert(all.take(0) =~= Seq::empty());
            let mut i: usize = 0;
            while i < a.len()
                invariant
                    i <= a@.len(),
                    all == json::jsons(a@),
                    o@ == unlisted(all.take(i as int)),
                decreases a@.len() - i,
            {
                assert(all.take(i + 1).drop_last() =~= all.take(i as int));
                assert(all.take(i + 1).last() == a@[i as int]@);
                if let Some(k) = a[i].str_at("key") {
                    o = o.with(k, plain(a[i].get("value")));
                }
                i += 1;
            }
            assert(all.take(all.len() as int) =~= all);
        }
    }
    o
}

/// The name that a span's parent resolves to.
pub open spec fn parent_name(spans: Seq<Json>, s: Json) -> Option<Json> {
    match json::str_field(s, "parentSpanId"@) {
        Some(p) => match name_of(spans, p) {
            Some(n) => Some(Json::Str(n)),
            None => None,
        },
        None => None,
    }
}

/// A span's attributes, where it has any.
pub open spec fn kept_attributes(s: Json) -> Option<Json> {
    let e = unlisted(elements(json::member(s, "attributes"@)));
    if e.len() == 0 {
        None
    } else {
        Some(Json::Obj(e))
    }
}

/// A span as a run records it.
pub open spec fn imported_span(spans: Seq<Json>, s: Json) -> Json {
    json::fields().with("name"@, json::member(s, "name"@)).with(
        "start_unix_nano"@,
        Json::Int(count(json::member(s, "startTimeUnixNano"@)) as int),
    ).with(
        "end_unix_nano"@,
        Json::Int(count(json::member(s, "endTimeUnixNano"@)) as int),
    ).maybe("parent"@, parent_name(spans, s)).maybe("attributes"@, kept_attributes(s)).json()
}

fn import_span(spans: &Vec<&Doc>, s: &Doc) -> (r: Doc)
    ensures
        r@ == imported_span(refs(spans@), s@),
{
    let name = match s.get("name") {
        Some(n) => n.clone(),
        None => Doc::Null,
    };
    let parent = match s.str_at("parentSpanId") {
        Some(p) => match find_name(spans, p) {
            Some(n) => Some(Doc::String(n)),
            None => None,
        },
        None => None,
    };
    let attrs = kv_list_to_object(s.get("attributes"));
    let kept = if attrs.len() == 0 {
        None
    } else {
        Some(Doc::Object(attrs))
    };
    Doc::Object(
        Object::new().with("name", name).with(
            "start_unix_nano",
            json::uint(str_u64(s.get("startTimeUnixNano"))),
        ).with("end_unix_nano", json::uint(str_u64(s.get("endTimeUnixNano")))).maybe(
            "parent",
            parent,
        ).maybe("attributes", kept),
    )
}

/// The spans of a document as a run records them.
pub open spec fn imported_spans(raw: Seq<Json>) -> Seq<Json> {
    raw.map_values(|s: Json| imported_span(raw, s))
}

fn import_spans(raw: &Vec<&Doc>) -> (r: Vec<Doc>)
    ensures
        json::jsons(r@) == imported_spans(refs(raw@)),
{
    let ghost all = imported_spans(refs(raw@));
    let mut out: Vec<Doc> = Vec::new();
    let mut i: usize = 0;
    while i < raw.len()
        invariant
            i <= raw@.len(),
            all == imported_spans(refs(raw@)),
            json::jsons(out@) =~= all.take(i as int),
        decreases raw@.len() - i,
    {
        let ghost was = out@;
        out.push(import_span(raw, raw[i]));
        assert(refs(raw@)[i as int] == raw@[i as int]@);
        assert(json::jsons(out@) =~= json::jsons(was).push(all[i as int]));
        i += 1;
    }
    assert(all.take(i as int) =~= all);
    out
}

// ---------------------------------------------------------------------------
// Series
// ---------------------------------------------------------------------------

/// The first data point of a metric's body.
pub open spec fn first_point(body: Json) -> Option<Json> {
    let a = json::items(body, "dataPoints"@);
    if a.len() > 0 {
        Some(a[0])
    } else {
        None
    }
}

fn point_of<'a>(body: &'a Doc) -> (r: Option<&'a Doc>)
    ensures
        json::found(r) == first_point(body@),
{
    match body.get("dataPoints") {
        Some(x) => match x.as_array() {
            Some(a) => if a.len() > 0 {
                assert(json::jsons(a@)[0] == a@[0]@);
                Some(&a[0])
            } else {
                None
            },
            None => None,
        },
        None => None,
    }
}

/// What every series of a metric begins with: name, unit and kind, and the
/// source and key of its data point.
pub open spec fn series_head(
    name: Seq<char>,
    unit: Seq<char>,
    kind: Seq<char>,
    dp: Json,
) -> json::Fields {
    let attrs = json::member(dp, "attributes"@);
    json::fields().text("name"@, name).text("unit"@, unit).text("kind"@, kind).maybe(
        "source"@,
        as_json(attr_text(attrs, "assayist.source"@)),
    ).maybe("key"@, as_json(attr_text(attrs, "assayist.key"@)))
}

/// An optional text as an optional document.
pub open spec fn as_json(o: Option<Seq<char>>) -> Option<Json> {
    match o {
        Some(s) => Some(Json::Str(s)),
        None => None,
    }
}

fn text_value(o: Option<String>) -> (r: Option<Doc>)
    ensures
        json::opt_json(r) == as_json(text::opt_text(o)),
{
    match o {
        Some(s) => Some(Doc::String(s)),
        None => None,
    }
}

fn head(name: &str, unit: &str, kind: &str, dp: &Doc) -> (r: Object)
    ensures
        r@ == series_head(name@, unit@, kind@, dp@).members,
{
    let attrs = dp.get("attributes");
    Object::new().text("name", name).text("unit", unit).text("kind", kind).maybe(
        "source",
        text_value(attr_str(attrs, "assayist.source")),
    ).maybe("key", text_value(attr_str(attrs, "assayist.key")))
}

pub open spec fn log2_data(dp: Json) -> Json {
    json::fields().text("layout"@, "log2"@).with(
        "buckets"@,
        counts(elements(json::member(json::member(dp, "positive"@), "bucketCounts"@))),
    ).with("count"@, Json::Int(count(json::member(dp, "count"@)) as int)).maybe(
        "sum"@,
        otlp::double_at(dp, "sum"@),
    ).json()
}

pub open spec fn explicit_data(dp: Json) -> Json {
    json::fields().text("layout"@, "explicit"@).with(
        "buckets"@,
        counts(elements(json::member(dp, "bucketCounts"@))),
    ).with(
        "explicit_bounds"@,
        match json::field(dp, "explicitBounds"@) {
            Some(b) => b,
            None => Json::Arr(Seq::empty()),
        },
    ).with("count"@, Json::Int(count(json::member(dp, "count"@)) as int)).maybe(
        "sum"@,
        otlp::double_at(dp, "sum"@),
    ).json()
}

pub open spec fn counter_data(dp: Json) -> Json {
    json::fields().with("value"@, Json::Int(count(json::member(dp, "asInt"@)) as int)).with(
        "start_unix_nano"@,
        Json::Int(count(json::member(dp, "timeUnixNano"@)) as int),
    ).json()
}

pub open spec fn gauge_data(dp: Json) -> Json {
    json::fields().with("value"@, otlp::double_or_zero(dp, "asDouble"@)).with(
        "time_unix_nano"@,
        Json::Int(count(json::member(dp, "timeUnixNano"@)) as int),
    ).json()
}

/// A metric as a series, where it has a name, a known kind and a data point.
pub open spec fn series_of(m: Json) -> Option<Json> {
    let unit = reduce::text_or_empty(m, "unit"@);
    match json::str_field(m, "name"@) {
        None => None,
        Some(name) => if json::field(m, "exponentialHistogram"@) is Some {
            match first_point(json::member(m, "exponentialHistogram"@)) {
                Some(dp) => Some(
                    series_head(name, unit, "histogram"@, dp).with("data"@, log2_data(dp)).json(),
                ),
                None => None,
            }
        } else if json::field(m, "histogram"@) is Some {
            match first_point(json::member(m, "histogram"@)) {
                Some(dp) => Some(
                    series_head(name, unit, "histogram"@, dp).with(
                        "data"@,
                        explicit_data(dp),
                    ).json(),
                ),
                None => None,
            }
        } else if json::field(m, "sum"@) is Some {
            match first_point(json::member(m, "sum"@)) {
                Some(dp) => Some(
                    series_head(name, unit, "counter"@, dp).with("data"@, counter_data(dp)).json(),
                ),
                None => None,
            }
        } else {
            match first_point(json::member(m, "gauge"@)) {
                Some(dp) => Some(
                    series_head(name, unit, "gauge"@, dp).with("data"@, gauge_data(dp)).json(),
                ),
                None => None,
            }
        },
    }
}

fn metric_to_series(m: &Doc) -> (r: Option<Doc>)
    ensures
        json::opt_json(r) == series_of(m@),
{
    let name = match m.str_at("name") {
        Some(n) => n,
        None => {
            return None;
        },
    };
    let unit = reduce::text_at(m, "unit");
    if let Some(body) = m.get("exponentialHistogram") {
        return match point_of(body) {
            Some(dp) => {
                let counts = match dp.get("positive") {
                    Some(p) => str_array_u64(p.get("bucketCounts")),
                    None => str_array_u64(None),
                };
                let data = Object::new().text("layout", "log2").with("buckets", counts).with(
                    "count",
                    json::uint(str_u64(dp.get("count"))),
                ).maybe("sum", otlp::double_field(dp, "sum"));
                Some(
                    Doc::Object(
                        head(name, &unit, "histogram", dp).with("data", Doc::Object(data)),
                    ),
                )
            },
            None => None,
        };
    }
    if let Some(body) = m.get("histogram") {
        return match point_of(body) {
            Some(dp) => {
                let bounds = match dp.get("explicitBounds") {
                    Some(b) => b.clone(),
                    None => {
                        let none: Vec<Doc> = Vec::new();
                        assert(json::jsons(none@) =~= Seq::empty());
                        json::array(none)
                    },
                };
                let data = Object::new().text("layout", "explicit").with(
                    "buckets",
                    str_array_u64(dp.get("bucketCounts")),
                ).with("explicit_bounds", bounds).with(
                    "count",
                    json::uint(str_u64(dp.get("count"))),
                ).maybe("sum", otlp::double_field(dp, "sum"));
                Some(
                    Doc::Object(
                        head(name, &unit, "histogram", dp).with("data", Doc::Object(data)),
                    ),
                )
            },
            None => None,
        };
    }
    if let Some(body) = m.get("sum") {
        return match point_of(body) {
            Some(dp) => {
                let data = Object::new().with(
                    "value",
                    json::uint(str_u64(dp.get("asInt"))),
                ).with("start_unix_nano", json::uint(str_u64(dp.get("timeUnixNano"))));
                Some(
                    Doc::Object(
                        head(name, &unit, "counter", dp).with("data", Doc::Object(data)),
                    ),
                )
            },
            None => None,
        };
    }
    let body = match m.get("gauge") {
        Some(b) => b,
        None => {
            return None;
        },
    };
    match point_of(body) {
        Some(dp) => {
            let data = Object::new().with("value", otlp::double_else_zero(dp, "asDouble")).with(
                "time_unix_nano",
                json::uint(str_u64(dp.get("timeUnixNano"))),
            );
            Some(Doc::Object(head(name, &unit, "gauge", dp).with("data", Doc::Object(data))))
        },
        None => None,
    }
}

/// The series of the first metrics. Probe costs are no series.
pub open spec fn imported_series(ms: Seq<Json>) -> Seq<Json>
    decreases ms.len(),
{
    if ms.len() == 0 {
        Seq::empty()
    } else {
        let before = imported_series(ms.drop_last());
        if text::has_prefix(reduce::text_or_empty(ms.last(), "name"@), "assayist.probe."@) {
            before
        } else {
            match series_of(ms.last()) {
                Some(s) => before.push(s),
                None => before,
            }
        }
    }
}

fn import_series(ms: &Vec<&Doc>) -> (r: Vec<Doc>)
    ensures
        json::jsons(r@) == imported_series(refs(ms@)),
{
    let ghost all = refs(ms@);
    let mut out: Vec<Doc> = Vec::new();
    assert(json::jsons(out@) =~= Seq::empty());
    assert(all.take(0) =~= Seq::empty());
    let mut i: usize = 0;
    while i < ms.len()
        invariant
            i <= ms@.len(),
            all == refs(ms@),
            json::jsons(out@) == imported_series(all.take(i as int)),
        decreases ms@.len() - i,
    {
        assert(all.take(i + 1).drop_last() =~= all.take(i as int));
        assert(all.take(i + 1).last() == ms@[i as int]@);
        let m = ms[i];
        let name = reduce::text_at(m, "name");
        if !text::starts_with(&name, "assayist.probe.") {
            if let Some(s) = metric_to_series(m) {
                let ghost was = out@;
                out.push(s);
                assert(json::jsons(out@) =~= json::jsons(was).push(s@));
            }
        }
        i += 1;
    }
    assert(all.take(all.len() as int) =~= all);
    out
}

// ---------------------------------------------------------------------------
// The run
// ---------------------------------------------------------------------------

/// The attributes of the first resource that has spans, or else of the first
/// that has metrics.
pub open spec fn resource_attrs(doc: Json) -> Json {
    let spans = json::items(doc, "resourceSpans"@);
    let metrics = json::items(doc, "resourceMetrics"@);
    if spans.len() > 0 {
        json::member(json::member(spans[0], "resource"@), "attributes"@)
    } else if metrics.len() > 0 {
        json::member(json::member(metrics[0], "resource"@), "attributes"@)
    } else {
        Json::Null
    }
}

/// A text, or what stands for it where there is none.
pub open spec fn or_text(o: Option<Seq<char>>, d: Seq<char>) -> Seq<char> {
    match o {
        Some(s) => s,
        None => d,
    }
}

pub open spec fn or_number(o: Option<i64>) -> i64 {
    match o {
        Some(n) => n,
        None => 0,
    }
}

/// What an imported run knows of its host.
pub open spec fn imported_host(attrs: Json) -> Host {
    Host {
        hostname: or_text(attr_text(attrs, "host.name"@), Seq::empty()),
        kernel_version: or_text(attr_text(attrs, "os.version"@), Seq::empty()),
        os_release: or_text(attr_text(attrs, "os.description"@), Seq::empty()),
        cpu_model: or_text(attr_text(attrs, "host.cpu.model.name"@), Seq::empty()),
        cpu_count_logical: or_number(
            attr_number(attrs, "assayist.host.cpu_count_logical"@),
        ) as u32,
        cpu_count_physical: or_number(
            attr_number(attrs, "assayist.host.cpu_count_physical"@),
        ) as u32,
        smt_enabled: attr_flag(attrs, "assayist.host.smt_enabled"@) == Some(true),
        cpu_governor: or_text(attr_text(attrs, "assayist.host.cpu_governor"@), "unknown"@),
        thp_setting: or_text(attr_text(attrs, "assayist.host.thp"@), "unknown"@),
        total_memory_bytes: or_number(attr_number(attrs, "assayist.host.memory_bytes"@)) as u64,
        kvm_present: attr_flag(attrs, "assayist.host.kvm"@) == Some(true),
        tenancy: or_text(attr_text(attrs, "assayist.run.tenancy"@), "single_tenant"@),
        tuning_requested: json::fields().json(),
        tuning_readback: json::fields().json(),
        numa_topology: None,
        pinning_layout: None,
        mitigations: None,
        microcode_version: None,
        nested_virt: None,
    }
}

/// What an imported run knows of its identity.
pub open spec fn imported_identity(attrs: Json) -> Identified {
    Identified {
        target_adapter: or_text(attr_text(attrs, "assayist.target_adapter"@), "unknown"@),
        target_adapter_version: or_text(
            attr_text(attrs, "assayist.target_adapter_version"@),
            "unknown"@,
        ),
        workload_driver: or_text(attr_text(attrs, "assayist.workload_driver"@), "unknown"@),
        workload_driver_version: or_text(
            attr_text(attrs, "assayist.workload_driver_version"@),
            "unknown"@,
        ),
        sut_git_sha: or_text(attr_text(attrs, "assayist.sut_git_sha"@), "unknown"@),
        params: json::fields().json(),
        params_hash: or_text(attr_text(attrs, "assayist.params_hash"@), Seq::empty()),
        benchmark_def_sha: or_text(attr_text(attrs, "assayist.benchmark_def_sha"@), Seq::empty()),
        source: "imported"@,
    }
}

/// The run that a document describes.
pub open spec fn imported(doc: Json) -> Record {
    let attrs = resource_attrs(doc);
    let raw = raw_spans(doc);
    Record {
        schema_version: "0.1.0"@,
        run_id: if raw.len() > 0 {
            reduce::text_or_empty(raw[0], "traceId"@)
        } else {
            Seq::empty()
        },
        identity: imported_identity(attrs),
        fingerprint: imported_host(attrs),
        spans: imported_spans(raw),
        series: imported_series(raw_metrics(doc)),
        self_metrics: Seq::empty(),
        gate: json::fields().json(),
        outcome: None,
        workload_report: None,
        grade: Grade::Valid,
    }
}

fn first_resource<'a>(doc: &'a Doc, k: &str) -> (r: Option<&'a Doc>)
    ensures
        json::found(r) == (if json::items(doc@, k@).len() > 0 {
            Some(json::items(doc@, k@)[0])
        } else {
            None
        }),
{
    match doc.get(k) {
        Some(x) => match x.as_array() {
            Some(a) => if a.len() > 0 {
                assert(json::jsons(a@)[0] == a@[0]@);
                Some(&a[0])
            } else {
                None
            },
            None => None,
        },
        None => None,
    }
}

fn text_else(o: Option<String>, d: &str) -> (r: String)
    ensures
        r@ == or_text(text::opt_text(o), d@),
{
    match o {
        Some(s) => s,
        None => d.to_owned(),
    }
}

fn number_else(o: Option<i64>) -> (r: i64)
    ensures
        r == or_number(o),
{
    match o {
        Some(n) => n,
        None => 0,
    }
}

fn flag_else(o: Option<bool>) -> (r: bool)
    ensures
        r == (o == Some(true)),
{
    match o {
        Some(b) => b,
        None => false,
    }
}

fn import_fingerprint(attrs: Option<&Doc>) -> (r: Fingerprint)
    ensures
        r@ == imported_host(or_null(attrs)),
{
    proof {
        reveal_strlit("");
        assert(""@ =~= Seq::<char>::empty());
    }
    Fingerprint {
        hostname: text_else(attr_str(attrs, "host.name"), ""),
        kernel_version: text_else(attr_str(attrs, "os.version"), ""),
        os_release: text_else(attr_str(attrs, "os.description"), ""),
        cpu_model: text_else(attr_str(attrs, "host.cpu.model.name"), ""),
        cpu_count_logical: number_else(
            attr_int(attrs, "assayist.host.cpu_count_logical"),
        ) as u32,
        cpu_count_physical: number_else(
            attr_int(attrs, "assayist.host.cpu_count_physical"),
        ) as u32,
        smt_enabled: flag_else(attr_bool(attrs, "assayist.host.smt_enabled")),
        cpu_governor: text_else(attr_str(attrs, "assayist.host.cpu_governor"), "unknown"),
        thp_setting: text_else(attr_str(attrs, "assayist.host.thp"), "unknown"),
        total_memory_bytes: number_else(attr_int(attrs, "assayist.host.memory_bytes")) as u64,
        kvm_present: flag_else(attr_bool(attrs, "assayist.host.kvm")),
        tenancy: text_else(attr_str(attrs, "assayist.run.tenancy"), "single_tenant"),
        tuning_requested: Doc::Object(Object::new()),
        tuning_readback: Doc::Object(Object::new()),
        numa_topology: None,
        pinning_layout: None,
        mitigations: None,
        microcode_version: None,
        nested_virt: None,
    }
}

fn import_identity(attrs: Option<&Doc>) -> (r: Identity)
    ensures
        r@ == imported_identity(or_null(attrs)),
{
    proof {
        reveal_strlit("");
        assert(""@ =~= Seq::<char>::empty());
    }
    Identity {
        target_adapter: text_else(attr_str(attrs, "assayist.target_adapter"), "unknown"),
        target_adapter_version: text_else(
            attr_str(attrs, "assayist.target_adapter_version"),
            "unknown",
        ),
        workload_driver: text_else(attr_str(attrs, "assayist.workload_driver"), "unknown"),
        workload_driver_version: text_else(
            attr_str(attrs, "assayist.workload_driver_version"),
            "unknown",
        ),
        sut_git_sha: text_else(attr_str(attrs, "assayist.sut_git_sha"), "unknown"),
        params: Doc::Object(Object::new()),
        params_hash: text_else(attr_str(attrs, "assayist.params_hash"), ""),
        benchmark_def_sha: text_else(attr_str(attrs, "assayist.benchmark_def_sha"), ""),
        source: "imported".to_owned(),
    }
}

/// The run that a document describes. There is no document that is refused.
pub fn import(doc: &Doc) -> (r: Result<AssayRun, String>)
    ensures
        r is Ok,
        r->Ok_0@ == imported(doc@),
{
    let first = match first_resource(doc, "resourceSpans") {
        Some(x) => Some(x),
        None => first_resource(doc, "resourceMetrics"),
    };
    let attrs = match first {
        Some(x) => match x.get("resource") {
            Some(y) => y.get("attributes"),
            None => None,
        },
        None => None,
    };
    assert(or_null(attrs) == resource_attrs(doc@));
    let raw = nested(doc, "resourceSpans", "scopeSpans", "spans");
    let metrics = nested(doc, "resourceMetrics", "scopeMetrics", "metrics");
    let run_id = if raw.len() > 0 {
        assert(refs(raw@)[0] == raw@[0]@);
        reduce::text_at(raw[0], "traceId")
    } else {
        String::new()
    };
    let none: Vec<Doc> = Vec::new();
    assert(json::jsons(none@) =~= Seq::empty());
    let mut run = AssayRun {
        schema_version: contract::SCHEMA_VERSION.to_owned(),
        run_id,
        identity: import_identity(attrs),
        fingerprint: import_fingerprint(attrs),
        spans: import_spans(&raw),
        series: import_series(&metrics),
        self_metrics: none,
        gate: Doc::Object(Object::new()),
        outcome: None,
        workload_report: None,
        grade: Grade::Invalid,
    };
    run.grade = run.compute_grade(false);
    assert(contract::tuned(run@.fingerprint));
    assert(refs(raw@).len() == raw@.len());
    Ok(run)
}

} // verus!
