//! OTLP export and import.
//!
//! The run record is OTLP-shaped where the concepts overlap: the run id is the
//! trace id, a span's id is a hash of run id, name and position, identity and
//! fingerprint are resource attributes, a log2 histogram is an exponential
//! histogram at scale 0, a counter a monotonic sum, a gauge a gauge, and cost
//! records are `assayist.probe.*` metrics.
use crate::contract::{AssayRun, Grade, Record};
use crate::digest;
use crate::json::{self, Doc, Json, Num, Object};
use crate::reduce;
use crate::text;
use vstd::prelude::*;

verus! {

// ---------------------------------------------------------------------------
// Numbers
// ---------------------------------------------------------------------------

/// The text of the double nearest to a whole number.
pub uninterp spec fn double_of(n: nat) -> Seq<char>;

/// `serde_json::Value::as_f64` of a whole number, as `serde_json` writes the
/// double that it gives. The text depends on the number alone; how it is
/// rounded and written is not stated.
#[verifier::external_body]
fn double_text(n: u64) -> (r: String)
    ensures
        r@ == double_of(n as nat),
{
    serde_json::Value::from(serde_json::Value::from(n).as_f64()).to_string()
}

/// A number as a double.
pub open spec fn double(j: Json) -> Json {
    match j {
        Json::Int(n) => if n < 0 {
            Json::Float("-"@ + double_of((-n) as nat))
        } else {
            Json::Float(double_of(n as nat))
        },
        _ => j,
    }
}

/// A number as a double.
pub fn as_double(n: &Num) -> (r: Doc)
    ensures
        r@ == double(n@),
{
    match n {
        Num::Unsigned(n) => Doc::Num(Num::Float(double_text(*n))),
        Num::Negative(n) => if *n < 0 {
            let m: u64 = if *n == i64::MIN {
                0x8000_0000_0000_0000
            } else {
                (-*n) as u64
            };
            Doc::Num(Num::Float(text::join2("-", &double_text(m))))
        } else {
            Doc::Num(Num::Float(double_text(*n as u64)))
        },
        Num::Float(t) => Doc::Num(Num::Float(t.clone())),
    }
}

/// The number that the key `k` holds, as a double.
pub open spec fn double_at(j: Json, k: Seq<char>) -> Option<Json> {
    match reduce::number_at(j, k) {
        Some(n) => Some(double(n)),
        None => None,
    }
}

/// The number that the key `k` holds, as a double; zero where it holds none.
pub open spec fn double_or_zero(j: Json, k: Seq<char>) -> Json {
    match double_at(j, k) {
        Some(n) => n,
        None => Json::Float("0.0"@),
    }
}

pub fn double_field(v: &Doc, k: &str) -> (r: Option<Doc>)
    ensures
        json::opt_json(r) == double_at(v@, k@),
{
    match v.get(k) {
        Some(Doc::Num(n)) => Some(as_double(n)),
        _ => None,
    }
}

pub fn double_else_zero(v: &Doc, k: &str) -> (r: Doc)
    ensures
        r@ == double_or_zero(v@, k@),
{
    match double_field(v, k) {
        Some(d) => d,
        None => Doc::Num(Num::Float("0.0".to_owned())),
    }
}

/// A whole number as the decimal text that OTLP/JSON writes, zero where the
/// key holds none.
pub open spec fn count_text(j: Json, k: Seq<char>) -> Json {
    Json::Str(
        text::decimal(
            match json::u64_field(j, k) {
                Some(n) => n as nat,
                None => 0,
            },
        ),
    )
}

fn u64_str(v: &Doc, k: &str) -> (r: Doc)
    ensures
        r@ == count_text(v@, k@),
{
    let n: u64 = match v.u64_at(k) {
        Some(n) => n,
        None => 0,
    };
    Doc::String(text::dec(n))
}

// ---------------------------------------------------------------------------
// Attributes
// ---------------------------------------------------------------------------

/// An attribute.
pub open spec fn attribute(k: Seq<char>, any: Json) -> Json {
    json::fields().text("key"@, k).with("value"@, any).json()
}

pub open spec fn text_attribute(k: Seq<char>, v: Seq<char>) -> Json {
    attribute(k, json::fields().text("stringValue"@, v).json())
}

pub open spec fn int_attribute(k: Seq<char>, v: int) -> Json {
    attribute(k, json::fields().text("intValue"@, text::decimal_int(v)).json())
}

pub open spec fn bool_attribute(k: Seq<char>, v: bool) -> Json {
    attribute(k, json::fields().with("boolValue"@, Json::Bool(v)).json())
}

/// A document as an attribute: text, truth values and numbers as such, anything
/// else as its text.
pub open spec fn any_attribute(k: Seq<char>, v: Json) -> Json {
    match v {
        Json::Str(s) => text_attribute(k, s),
        Json::Bool(b) => bool_attribute(k, b),
        Json::Float(t) => attribute(k, json::fields().with("doubleValue"@, v).json()),
        Json::Int(n) => int_attribute(k, n),
        _ => text_attribute(k, json::text_of(v)),
    }
}

fn keyed(k: &str, any: Object) -> (r: Doc)
    ensures
        r@ == attribute(k@, Json::Obj(any@)),
{
    Doc::Object(Object::new().text("key", k).with("value", Doc::Object(any)))
}

fn kv_str(k: &str, v: &str) -> (r: Doc)
    ensures
        r@ == text_attribute(k@, v@),
{
    keyed(k, Object::new().text("stringValue", v))
}

fn kv_int(k: &str, v: i64) -> (r: Doc)
    ensures
        r@ == int_attribute(k@, v as int),
{
    keyed(k, Object::new().text("intValue", &text::dec_i64(v)))
}

fn kv_bool(k: &str, v: bool) -> (r: Doc)
    ensures
        r@ == bool_attribute(k@, v),
{
    keyed(k, Object::new().with("boolValue", Doc::Bool(v)))
}

fn any_kv(k: &str, v: &Doc) -> (r: Doc)
    ensures
        r@ == any_attribute(k@, v@),
{
    match v {
        Doc::String(s) => kv_str(k, s),
        Doc::Bool(b) => kv_bool(k, *b),
        Doc::Num(Num::Float(_)) => keyed(
            k,
            Object::new().with("doubleValue", v.clone()),
        ),
        Doc::Num(Num::Unsigned(n)) => keyed(
            k,
            Object::new().text("intValue", &text::dec(*n)),
        ),
        Doc::Num(Num::Negative(n)) => kv_int(k, *n),
        other => kv_str(k, &other.to_text()),
    }
}

/// The members of an object as attributes.
pub open spec fn attributes_of(j: Json) -> Seq<Json> {
    match j {
        Json::Obj(e) => e.map_values(|m: (Seq<char>, Json)| any_attribute(m.0, m.1)),
        _ => Seq::empty(),
    }
}

fn attributes_from(v: Option<&Doc>) -> (r: Vec<Doc>)
    ensures
        json::jsons(r@) == attributes_of(
            match v {
                Some(x) => x@,
                None => Json::Null,
            },
        ),
{
    let mut out: Vec<Doc> = Vec::new();
    assert(json::jsons(out@) =~= Seq::empty());
    if let Some(Doc::Object(o)) = v {
        let ghost all = attributes_of(Json::Obj(o@));
        let mut i: usize = 0;
        while i < o.len()
            invariant
                i <= o@.len(),
                all == attributes_of(Json::Obj(o@)),
                json::jsons(out@) =~= all.take(i as int),
            decreases o@.len() - i,
        {
            let ghost was = out@;
            out.push(any_kv(o.key(i), o.value(i)));
            assert(json::jsons(out@) =~= json::jsons(was).push(all[i as int]));
            i += 1;
        }
        assert(all.take(i as int) =~= all);
    }
    out
}

pub open spec fn grade_text(g: Grade) -> Seq<char> {
    match g {
        Grade::Reproducible => "reproducible"@,
        Grade::Valid => "valid"@,
        Grade::Invalid => "invalid"@,
    }
}

pub fn grade_str(g: Grade) -> (r: &'static str)
    ensures
        r@ == grade_text(g),
{
    match g {
        Grade::Reproducible => "reproducible",
        Grade::Valid => "valid",
        Grade::Invalid => "invalid",
    }
}

/// The attributes of the resource that a run is about.
pub open spec fn resource_attributes_of(r: Record) -> Seq<Json> {
    let f = r.fingerprint;
    let id = r.identity;
    let base = seq![
        text_attribute("host.name"@, f.hostname),
        text_attribute("os.version"@, f.kernel_version),
        text_attribute("os.description"@, f.os_release),
        text_attribute("host.cpu.model.name"@, f.cpu_model),
        int_attribute("assayist.host.cpu_count_logical"@, f.cpu_count_logical as int),
        int_attribute("assayist.host.cpu_count_physical"@, f.cpu_count_physical as int),
        bool_attribute("assayist.host.smt_enabled"@, f.smt_enabled),
        text_attribute("assayist.host.cpu_governor"@, f.cpu_governor),
        text_attribute("assayist.host.thp"@, f.thp_setting),
        int_attribute("assayist.host.memory_bytes"@, (f.total_memory_bytes as i64) as int),
        bool_attribute("assayist.host.kvm"@, f.kvm_present),
        text_attribute("assayist.run.tenancy"@, f.tenancy),
        text_attribute("assayist.target_adapter"@, id.target_adapter),
        text_attribute("assayist.target_adapter_version"@, id.target_adapter_version),
        text_attribute("assayist.workload_driver"@, id.workload_driver),
        text_attribute("assayist.workload_driver_version"@, id.workload_driver_version),
        text_attribute("assayist.sut_git_sha"@, id.sut_git_sha),
        text_attribute("assayist.params_hash"@, id.params_hash),
        text_attribute("assayist.benchmark_def_sha"@, id.benchmark_def_sha),
        text_attribute("assayist.grade"@, grade_text(r.grade)),
    ];
    match r.outcome {
        Some(o) => match json::str_field(o, "verdict"@) {
            Some(v) => base.push(text_attribute("assayist.gate.verdict"@, v)),
            None => base,
        },
        None => base,
    }
}

fn resource_attributes(run: &AssayRun) -> (r: Vec<Doc>)
    ensures
        json::jsons(r@) == resource_attributes_of(run@),
{
    let f = &run.fingerprint;
    let id = &run.identity;
    let mut a: Vec<Doc> = Vec::new();
    a.push(kv_str("host.name", &f.hostname));
    a.push(kv_str("os.version", &f.kernel_version));
    a.push(kv_str("os.description", &f.os_release));
    a.push(kv_str("host.cpu.model.name", &f.cpu_model));
    a.push(kv_int("assayist.host.cpu_count_logical", f.cpu_count_logical as i64));
    a.push(kv_int("assayist.host.cpu_count_physical", f.cpu_count_physical as i64));
    a.push(kv_bool("assayist.host.smt_enabled", f.smt_enabled));
    a.push(kv_str("assayist.host.cpu_governor", &f.cpu_governor));
    a.push(kv_str("assayist.host.thp", &f.thp_setting));
    a.push(kv_int("assayist.host.memory_bytes", f.total_memory_bytes as i64));
    a.push(kv_bool("assayist.host.kvm", f.kvm_present));
    a.push(kv_str("assayist.run.tenancy", &f.tenancy));
    a.push(kv_str("assayist.target_adapter", &id.target_adapter));
    a.push(kv_str("assayist.target_adapter_version", &id.target_adapter_version));
    a.push(kv_str("assayist.workload_driver", &id.workload_driver));
    a.push(kv_str("assayist.workload_driver_version", &id.workload_driver_version));
    a.push(kv_str("assayist.sut_git_sha", &id.sut_git_sha));
    a.push(kv_str("assayist.params_hash", &id.params_hash));
    a.push(kv_str("assayist.benchmark_def_sha", &id.benchmark_def_sha));
    a.push(kv_str("assayist.grade", grade_str(run.grade)));
    if let Some(o) = &run.outcome {
        if let Some(v) = o.str_at("verdict") {
            a.push(kv_str("assayist.gate.verdict", v));
        }
    }
    assert(json::jsons(a@) =~= resource_attributes_of(run@));
    a
}

// ---------------------------------------------------------------------------
// Spans
// ---------------------------------------------------------------------------

/// The id of a span: the first eight bytes of the digest of run id, name and
/// position, in hexadecimal digits.
pub open spec fn span_id_of(run_id: Seq<char>, name: Seq<char>, index: nat) -> Seq<char> {
    digest::hex_of(
        digest::sha256_of(
            vstd::utf8::encode_utf8(run_id) + seq![0u8] + vstd::utf8::encode_utf8(name) + seq![0u8]
                + vstd::bytes::spec_u64_to_le_bytes(index as u64),
        ).take(8),
    )
}

fn add_bytes(v: &mut Vec<u8>, b: &[u8])
    ensures
        final(v)@ == old(v)@ + b@,
{
    let ghost was = v@;
    let mut i: usize = 0;
    assert(was + b@.take(0) =~= was);
    while i < b.len()
        invariant
            i <= b@.len(),
            v@ == was + b@.take(i as int),
        decreases b@.len() - i,
    {
        v.push(b[i]);
        i += 1;
        assert(was + b@.take(i as int) =~= (was + b@.take(i - 1)).push(b@[i - 1]));
    }
    assert(b@.take(b@.len() as int) =~= b@);
}

/// The id of a span, the same for every export of a run.
pub fn span_id(run_id: &str, name: &str, index: usize) -> (r: String)
    ensures
        r@ == span_id_of(run_id@, name@, index as nat),
        r@.len() == 16,
{
    let mut b: Vec<u8> = Vec::new();
    add_bytes(&mut b, run_id.as_bytes());
    b.push(0);
    add_bytes(&mut b, name.as_bytes());
    b.push(0);
    let n = vstd::bytes::u64_to_le_bytes(index as u64);
    add_bytes(&mut b, n.as_slice());
    assert(b@ =~= vstd::utf8::encode_utf8(run_id@) + seq![0u8] + vstd::utf8::encode_utf8(name@)
        + seq![0u8] + vstd::bytes::spec_u64_to_le_bytes(index as u64));
    let d = digest::sha256(b.as_slice());
    digest::hex(&d, 8)
}

/// The name of a span.
pub open spec fn span_name(s: Json) -> Seq<char> {
    reduce::text_or_empty(s, "name"@)
}

/// The position of the first span of that name, from `from` on.
pub open spec fn first_named(spans: Seq<Json>, name: Seq<char>, from: nat) -> Option<nat>
    decreases spans.len() - from,
{
    if from >= spans.len() {
        None
    } else if span_name(spans[from as int]) == name {
        Some(from)
    } else {
        first_named(spans, name, from + 1)
    }
}

/// The id that a span's parent resolves to.
pub open spec fn parent_id(run_id: Seq<char>, spans: Seq<Json>, s: Json) -> Option<Json> {
    match json::str_field(s, "parent"@) {
        Some(p) => match first_named(spans, p, 0) {
            Some(i) => Some(Json::Str(span_id_of(run_id, p, i))),
            None => None,
        },
        None => None,
    }
}

/// A span of a run as OTLP has it.
pub open spec fn exported_span(run_id: Seq<char>, spans: Seq<Json>, i: int) -> Json {
    let s = spans[i];
    json::fields().text("traceId"@, run_id).text(
        "spanId"@,
        span_id_of(run_id, span_name(s), i as nat),
    ).maybe("parentSpanId"@, parent_id(run_id, spans, s)).text("name"@, span_name(s)).with(
        "kind"@,
        Json::Int(1),
    ).with("startTimeUnixNano"@, count_text(s, "start_unix_nano"@)).with(
        "endTimeUnixNano"@,
        count_text(s, "end_unix_nano"@),
    ).with("attributes"@, Json::Arr(attributes_of(json::member(s, "attributes"@)))).json()
}

/// The spans of a run as OTLP has them.
pub open spec fn exported_spans(run_id: Seq<char>, spans: Seq<Json>) -> Seq<Json> {
    Seq::new(spans.len(), |i: int| exported_span(run_id, spans, i))
}

fn find_named(spans: &Vec<Doc>, name: &str) -> (r: Option<usize>)
    ensures
        match r {
            Some(i) => first_named(json::jsons(spans@), name@, 0) == Some(i as nat),
            None => first_named(json::jsons(spans@), name@, 0) is None,
        },
{
    let ghost all = json::jsons(spans@);
    let mut i: usize = 0;
    while i < spans.len()
        invariant
            i <= spans@.len(),
            all == json::jsons(spans@),
            first_named(all, name@, 0) == first_named(all, name@, i as nat),
        decreases spans@.len() - i,
    {
        assert(all[i as int] == spans@[i as int]@);
        let n = reduce::text_at(&spans[i], "name");
        if text::same(&n, name) {
            return Some(i);
        }
        i += 1;
    }
    None
}

fn spans_of(run: &AssayRun) -> (r: Vec<Doc>)
    ensures
        json::jsons(r@) == exported_spans(run.run_id@, json::jsons(run.spans@)),
{
    let ghost all = json::jsons(run.spans@);
    let ghost target = exported_spans(run.run_id@, all);
    let mut out: Vec<Doc> = Vec::new();
    let mut i: usize = 0;
    while i < run.spans.len()
        invariant
            i <= run.spans@.len(),
            all == json::jsons(run.spans@),
            target == exported_spans(run.run_id@, all),
            json::jsons(out@) =~= target.take(i as int),
        decreases run.spans@.len() - i,
    {
        let s = &run.spans[i];
        assert(all[i as int] == s@);
        let name = reduce::text_at(s, "name");
        let parent = match s.str_at("parent") {
            Some(p) => match find_named(&run.spans, p) {
                Some(k) => Some(Doc::String(span_id(&run.run_id, p, k))),
                None => None,
            },
            None => None,
        };
        assert(json::opt_json(parent) == parent_id(run.run_id@, all, s@));
        let span = Object::new().text("traceId", &run.run_id).text(
            "spanId",
            &span_id(&run.run_id, &name, i),
        ).maybe("parentSpanId", parent).text("name", &name).with("kind", json::uint(1)).with(
            "startTimeUnixNano",
            u64_str(s, "start_unix_nano"),
        ).with("endTimeUnixNano", u64_str(s, "end_unix_nano")).with(
            "attributes",
            json::array(attributes_from(s.get("attributes"))),
        );
        let ghost was = out@;
        out.push(Doc::Object(span));
        assert(json::jsons(out@) =~= json::jsons(was).push(target[i as int]));
        i += 1;
    }
    assert(target.take(i as int) =~= target);
    out
}

// ---------------------------------------------------------------------------
// Metrics
// ---------------------------------------------------------------------------

/// The attributes of a series' data point: its source and its key.
pub open spec fn point_attributes(s: Json) -> Seq<Json> {
    (match json::str_field(s, "source"@) {
        Some(x) => seq![text_attribute("assayist.source"@, x)],
        None => Seq::empty(),
    }) + (match json::str_field(s, "key"@) {
        Some(x) => seq![text_attribute("assayist.key"@, x)],
        None => Seq::empty(),
    })
}

fn series_attributes(s: &Doc) -> (r: Vec<Doc>)
    ensures
        json::jsons(r@) == point_attributes(s@),
{
    let mut a: Vec<Doc> = Vec::new();
    if let Some(x) = s.str_at("source") {
        a.push(kv_str("assayist.source", x));
    }
    if let Some(x) = s.str_at("key") {
        a.push(kv_str("assayist.key", x));
    }
    assert(json::jsons(a@) =~= point_attributes(s@));
    a
}

/// The whole numbers among `a`, as the decimal texts that OTLP/JSON writes.
pub open spec fn bucket_texts(a: Seq<Json>) -> Seq<Json>
    decreases a.len(),
{
    if a.len() == 0 {
        Seq::empty()
    } else {
        match json::i64_of(a.last()) {
            Some(n) => bucket_texts(a.drop_last()).push(Json::Str(text::decimal_int(n as int))),
            None => bucket_texts(a.drop_last()),
        }
    }
}

fn bucket_strings(data: &Doc) -> (r: Vec<Doc>)
    ensures
        json::jsons(r@) == bucket_texts(json::items(data@, "buckets"@)),
{
    let mut out: Vec<Doc> = Vec::new();
    assert(json::jsons(out@) =~= Seq::empty());
    if let Some(x) = data.get("buckets") {
        if let Some(a) = x.as_array() {
            let ghost all = json::jsons(a@);
            assert(all.take(0) =~= Seq::empty());
            let mut i: usize = 0;
            while i < a.len()
                invariant
                    i <= a@.len(),
                    all == json::jsons(a@),
                    json::jsons(out@) == bucket_texts(all.take(i as int)),
                decreases a@.len() - i,
            {
                assert(all.take(i + 1).drop_last() =~= all.take(i as int));
                assert(all.take(i + 1).last() == a@[i as int]@);
                if let Some(n) = a[i].as_i64() {
                    let ghost was = out@;
                    out.push(Doc::String(text::dec_i64(n)));
                    assert(json::jsons(out@) =~= json::jsons(was).push(
                        Json::Str(text::decimal_int(n as int)),
                    ));
                }
                i += 1;
            }
            assert(all.take(all.len() as int) =~= all);
        }
    }
    out
}

/// The numbers among `a`, as doubles.
pub open spec fn doubles(a: Seq<Json>) -> Seq<Json> {
    reduce::numeric(a).map_values(|j: Json| double(j))
}

fn bound_doubles(data: &Doc) -> (r: Vec<Doc>)
    ensures
        json::jsons(r@) == doubles(json::items(data@, "explicit_bounds"@)),
{
    let b = reduce::f64s(data, "explicit_bounds");
    let ghost all = doubles(json::items(data@, "explicit_bounds"@));
    let mut out: Vec<Doc> = Vec::new();
    let mut i: usize = 0;
    while i < b.len()
        invariant
            i <= b@.len(),
            all =~= reduce::numbers(b@).map_values(|j: Json| double(j)),
            json::jsons(out@) =~= all.take(i as int),
        decreases b@.len() - i,
    {
        let ghost was = out@;
        out.push(as_double(&b[i]));
        assert(json::jsons(out@) =~= json::jsons(was).push(all[i as int]));
        i += 1;
    }
    assert(all.take(i as int) =~= all);
    out
}

/// The layout of a histogram.
pub open spec fn layout_of(data: Json) -> Seq<char> {
    match json::str_field(data, "layout"@) {
        Some(l) => l,
        None => "log2"@,
    }
}

/// One data point, cumulative.
pub open spec fn cumulative(point: Json) -> json::Fields {
    json::fields().with("aggregationTemporality"@, Json::Int(2)).with(
        "dataPoints"@,
        Json::Arr(seq![point]),
    )
}

fn one(v: Doc) -> (r: Doc)
    ensures
        r@ == Json::Arr(seq![v@]),
{
    let mut a: Vec<Doc> = Vec::new();
    a.push(v);
    assert(json::jsons(a@) =~= seq![v@]);
    json::array(a)
}

fn cumulative_of(point: Doc) -> (r: Object)
    ensures
        r@ == cumulative(point@).members,
{
    Object::new().with("aggregationTemporality", json::uint(2)).with("dataPoints", one(point))
}

/// What histograms of both layouts have in common.
pub open spec fn histogram_point(data: Json, attrs: Seq<Json>, ts: u64) -> json::Fields {
    json::fields().with("attributes"@, Json::Arr(attrs)).text(
        "timeUnixNano"@,
        text::decimal(ts as nat),
    ).with("count"@, count_text(data, "count"@)).maybe("sum"@, double_at(data, "sum"@))
}

pub open spec fn log2_point(data: Json, attrs: Seq<Json>, ts: u64) -> Json {
    histogram_point(data, attrs, ts).with("scale"@, Json::Int(0)).text("zeroCount"@, "0"@).with(
        "positive"@,
        json::fields().with("offset"@, Json::Int(0)).with(
            "bucketCounts"@,
            Json::Arr(bucket_texts(json::items(data, "buckets"@))),
        ).json(),
    ).json()
}

pub open spec fn explicit_point(data: Json, attrs: Seq<Json>, ts: u64) -> Json {
    histogram_point(data, attrs, ts).with(
        "explicitBounds"@,
        Json::Arr(doubles(json::items(data, "explicit_bounds"@))),
    ).with("bucketCounts"@, Json::Arr(bucket_texts(json::items(data, "buckets"@)))).json()
}

/// What OTLP calls a histogram of that layout, and its body.
pub open spec fn histogram_body_of(data: Json, attrs: Seq<Json>, ts: u64) -> Option<
    (Seq<char>, Json),
> {
    if layout_of(data) == "log2"@ {
        Some(("exponentialHistogram"@, cumulative(log2_point(data, attrs, ts)).json()))
    } else if layout_of(data) == "explicit"@ {
        Some(("histogram"@, cumulative(explicit_point(data, attrs, ts)).json()))
    } else {
        None
    }
}

/// The view of an optional name with a document.
pub open spec fn named_view(o: Option<(&'static str, Doc)>) -> Option<(Seq<char>, Json)> {
    match o {
        Some((n, v)) => Some((n@, v@)),
        None => None,
    }
}

fn histogram_body(data: &Doc, attrs: Vec<Doc>, ts: u64) -> (r: Option<(&'static str, Doc)>)
    ensures
        named_view(r) == histogram_body_of(data@, json::jsons(attrs@), ts),
{
    let layout = match data.str_at("layout") {
        Some(l) => l,
        None => "log2",
    };
    let common = Object::new().with("attributes", json::array(attrs)).text(
        "timeUnixNano",
        &text::dec(ts),
    ).with("count", u64_str(data, "count")).maybe("sum", double_field(data, "sum"));
    if text::same(layout, "log2") {
        let positive = Object::new().with("offset", json::uint(0)).with(
            "bucketCounts",
            json::array(bucket_strings(data)),
        );
        let point = common.with("scale", json::uint(0)).text("zeroCount", "0").with(
            "positive",
            Doc::Object(positive),
        );
        Some(("exponentialHistogram", Doc::Object(cumulative_of(Doc::Object(point)))))
    } else if text::same(layout, "explicit") {
        let point = common.with("explicitBounds", json::array(bound_doubles(data))).with(
            "bucketCounts",
            json::array(bucket_strings(data)),
        );
        Some(("histogram", Doc::Object(cumulative_of(Doc::Object(point)))))
    } else {
        None
    }
}

pub open spec fn counter_point(data: Json, attrs: Seq<Json>) -> Json {
    json::fields().with("attributes"@, Json::Arr(attrs)).with(
        "asInt"@,
        count_text(data, "value"@),
    ).with("startTimeUnixNano"@, count_text(data, "start_unix_nano"@)).with(
        "timeUnixNano"@,
        count_text(data, "start_unix_nano"@),
    ).json()
}

pub open spec fn gauge_point(data: Json, attrs: Seq<Json>) -> Json {
    json::fields().with("attributes"@, Json::Arr(attrs)).with(
        "asDouble"@,
        double_or_zero(data, "value"@),
    ).with("timeUnixNano"@, count_text(data, "time_unix_nano"@)).json()
}

pub open spec fn sum_body(point: Json) -> Json {
    cumulative(point).with("isMonotonic"@, Json::Bool(true)).json()
}

pub open spec fn gauge_body(point: Json) -> Json {
    json::fields().with("dataPoints"@, Json::Arr(seq![point])).json()
}

/// What OTLP calls a series of that kind, and its body.
pub open spec fn body_of(kind: Seq<char>, data: Json, attrs: Seq<Json>, ts: u64) -> Option<
    (Seq<char>, Json),
> {
    if kind == "histogram"@ {
        histogram_body_of(data, attrs, ts)
    } else if kind == "counter"@ {
        Some(("sum"@, sum_body(counter_point(data, attrs))))
    } else if kind == "gauge"@ {
        Some(("gauge"@, gauge_body(gauge_point(data, attrs))))
    } else {
        None
    }
}

/// A series as a metric, where it has a name, a known kind and data.
pub open spec fn metric_of(s: Json, ts: u64) -> Option<Json> {
    match (json::str_field(s, "name"@), json::str_field(s, "kind"@), json::field(s, "data"@)) {
        (Some(name), Some(kind), Some(data)) => match body_of(
            kind,
            data,
            point_attributes(s),
            ts,
        ) {
            Some((k, body)) => Some(
                json::fields().text("name"@, name).text(
                    "unit"@,
                    reduce::text_or_empty(s, "unit"@),
                ).with(k, body).json(),
            ),
            None => None,
        },
        _ => None,
    }
}

fn series_to_metric(s: &Doc, ts: u64) -> (r: Option<Doc>)
    ensures
        json::opt_json(r) == metric_of(s@, ts),
{
    let name = match s.str_at("name") {
        Some(n) => n,
        None => {
            return None;
        },
    };
    let kind = match s.str_at("kind") {
        Some(k) => k,
        None => {
            return None;
        },
    };
    let data = match s.get("data") {
        Some(d) => d,
        None => {
            return None;
        },
    };
    let attrs = series_attributes(s);
    let ghost a = json::jsons(attrs@);
    let body: Option<(&'static str, Doc)> = if text::same(kind, "histogram") {
        histogram_body(data, attrs, ts)
    } else if text::same(kind, "counter") {
        let point = Object::new().with("attributes", json::array(attrs)).with(
            "asInt",
            u64_str(data, "value"),
        ).with("startTimeUnixNano", u64_str(data, "start_unix_nano")).with(
            "timeUnixNano",
            u64_str(data, "start_unix_nano"),
        );
        Some(
            (
                "sum",
                Doc::Object(
                    cumulative_of(Doc::Object(point)).with("isMonotonic", Doc::Bool(true)),
                ),
            ),
        )
    } else if text::same(kind, "gauge") {
        let point = Object::new().with("attributes", json::array(attrs)).with(
            "asDouble",
            double_else_zero(data, "value"),
        ).with("timeUnixNano", u64_str(data, "time_unix_nano"));
        Some(
            ("gauge", Doc::Object(Object::new().with("dataPoints", one(Doc::Object(point))))),
        )
    } else {
        None
    };
    assert(named_view(body) == body_of(kind@, data@, a, ts));
    match body {
        Some((k, b)) => Some(
            Doc::Object(
                Object::new().text("name", name).text("unit", &reduce::text_at(s, "unit")).with(
                    k,
                    b,
                ),
            ),
        ),
        None => None,
    }
}

/// The metrics of the first series.
pub open spec fn series_metrics_of(a: Seq<Json>, ts: u64) -> Seq<Json>
    decreases a.len(),
{
    if a.len() == 0 {
        Seq::empty()
    } else {
        match metric_of(a.last(), ts) {
            Some(m) => series_metrics_of(a.drop_last(), ts).push(m),
            None => series_metrics_of(a.drop_last(), ts),
        }
    }
}

/// The attributes of a cost record's data points.
pub open spec fn probe_attributes(pm: Json) -> Seq<Json> {
    (match json::str_field(pm, "probe_id"@) {
        Some(x) => seq![text_attribute("assayist.probe.id"@, x)],
        None => Seq::empty(),
    }) + (match json::str_field(pm, "attach_kind"@) {
        Some(x) => seq![text_attribute("assayist.probe.attach_kind"@, x)],
        None => Seq::empty(),
    }) + (match json::bool_of(json::member(pm, "over_budget"@)) {
        Some(b) => seq![bool_attribute("assayist.probe.over_budget"@, b)],
        None => Seq::empty(),
    })
}

/// A cost record as two metrics.
pub open spec fn probe_pair(pm: Json, ts: u64) -> Seq<Json> {
    let attrs = Json::Arr(probe_attributes(pm));
    let stamp = text::decimal(ts as nat);
    seq![
        json::fields().text("name"@, "assayist.probe.steady_cpu_fraction"@).text(
            "unit"@,
            "1"@,
        ).with(
            "gauge"@,
            gauge_body(
                json::fields().with("attributes"@, attrs).with(
                    "asDouble"@,
                    double_or_zero(pm, "steady_cpu_fraction"@),
                ).text("timeUnixNano"@, stamp).json(),
            ),
        ).json(),
        json::fields().text("name"@, "assayist.probe.run_time_ns"@).text("unit"@, "ns"@).with(
            "sum"@,
            sum_body(
                json::fields().with("attributes"@, attrs).with(
                    "asInt"@,
                    count_text(pm, "run_time_ns"@),
                ).text("timeUnixNano"@, stamp).json(),
            ),
        ).json(),
    ]
}

/// The metrics of the first cost records.
pub open spec fn probe_metrics_of(a: Seq<Json>, ts: u64) -> Seq<Json>
    decreases a.len(),
{
    if a.len() == 0 {
        Seq::empty()
    } else {
        probe_metrics_of(a.drop_last(), ts) + probe_pair(a.last(), ts)
    }
}

fn probe_attrs(pm: &Doc) -> (r: Vec<Doc>)
    ensures
        json::jsons(r@) == probe_attributes(pm@),
{
    let mut a: Vec<Doc> = Vec::new();
    if let Some(x) = pm.str_at("probe_id") {
        a.push(kv_str("assayist.probe.id", x));
    }
    if let Some(x) = pm.str_at("attach_kind") {
        a.push(kv_str("assayist.probe.attach_kind", x));
    }
    if let Some(x) = pm.get("over_budget") {
        if let Some(b) = x.as_bool() {
            a.push(kv_bool("assayist.probe.over_budget", b));
        }
    }
    assert(json::jsons(a@) =~= probe_attributes(pm@));
    a
}

fn metrics_of(run: &AssayRun, ts: u64) -> (r: Vec<Doc>)
    ensures
        json::jsons(r@) == series_metrics_of(json::jsons(run.series@), ts) + probe_metrics_of(
            json::jsons(run.self_metrics@),
            ts,
        ),
{
    let ghost series = json::jsons(run.series@);
    let ghost costs = json::jsons(run.self_metrics@);
    let mut out: Vec<Doc> = Vec::new();
    assert(json::jsons(out@) =~= Seq::empty());
    assert(series.take(0) =~= Seq::empty());
    let mut i: usize = 0;
    while i < run.series.len()
        invariant
            i <= run.series@.len(),
            series == json::jsons(run.series@),
            json::jsons(out@) == series_metrics_of(series.take(i as int), ts),
        decreases run.series@.len() - i,
    {
        assert(series.take(i + 1).drop_last() =~= series.take(i as int));
        assert(series.take(i + 1).last() == run.series@[i as int]@);
        if let Some(m) = series_to_metric(&run.series[i], ts) {
            let ghost was = out@;
            out.push(m);
            assert(json::jsons(out@) =~= json::jsons(was).push(m@));
        }
        i += 1;
    }
    assert(series.take(series.len() as int) =~= series);
    let ghost base = json::jsons(out@);
    assert(costs.take(0) =~= Seq::empty());
    assert(base + probe_metrics_of(Seq::empty(), ts) =~= base);
    let mut k: usize = 0;
    while k < run.self_metrics.len()
        invariant
            k <= run.self_metrics@.len(),
            costs == json::jsons(run.self_metrics@),
            json::jsons(out@) == base + probe_metrics_of(costs.take(k as int), ts),
        decreases run.self_metrics@.len() - k,
    {
        assert(costs.take(k + 1).drop_last() =~= costs.take(k as int));
        let pm = &run.self_metrics[k];
        assert(costs.take(k + 1).last() == pm@);
        let stamp = text::dec(ts);
        let cpu = Object::new().with("attributes", json::array(probe_attrs(pm))).with(
            "asDouble",
            double_else_zero(pm, "steady_cpu_fraction"),
        ).text("timeUnixNano", &stamp);
        let time = Object::new().with("attributes", json::array(probe_attrs(pm))).with(
            "asInt",
            u64_str(pm, "run_time_ns"),
        ).text("timeUnixNano", &stamp);
        let first = Doc::Object(
            Object::new().text("name", "assayist.probe.steady_cpu_fraction").text(
                "unit",
                "1",
            ).with(
                "gauge",
                Doc::Object(Object::new().with("dataPoints", one(Doc::Object(cpu)))),
            ),
        );
        let second = Doc::Object(
            Object::new().text("name", "assayist.probe.run_time_ns").text("unit", "ns").with(
                "sum",
                Doc::Object(
                    cumulative_of(Doc::Object(time)).with("isMonotonic", Doc::Bool(true)),
                ),
            ),
        );
        assert(seq![first@, second@] =~= probe_pair(pm@, ts));
        let ghost was = out@;
        out.push(first);
        out.push(second);
        assert(json::jsons(out@) =~= json::jsons(was) + seq![first@, second@]);
        k += 1;
        assert(json::jsons(out@) =~= base + probe_metrics_of(costs.take(k as int), ts));
    }
    assert(costs.take(costs.len() as int) =~= costs);
    out
}

// ---------------------------------------------------------------------------
// Documents
// ---------------------------------------------------------------------------

pub open spec fn resource_of(r: Record) -> Json {
    json::fields().with("attributes"@, Json::Arr(resource_attributes_of(r))).json()
}

pub open spec fn scope() -> Json {
    json::fields().text("name"@, "assayist"@).json()
}

/// The spans of a run, under their resource and scope.
pub open spec fn resource_spans(r: Record) -> Json {
    Json::Arr(
        seq![
            json::fields().with("resource"@, resource_of(r)).with(
                "scopeSpans"@,
                Json::Arr(
                    seq![
                        json::fields().with("scope"@, scope()).with(
                            "spans"@,
                            Json::Arr(exported_spans(r.run_id, r.spans)),
                        ).json(),
                    ],
                ),
            ).json(),
        ],
    )
}

/// The metrics of a run, under their resource and scope.
pub open spec fn resource_metrics(r: Record, ts: u64) -> Json {
    Json::Arr(
        seq![
            json::fields().with("resource"@, resource_of(r)).with(
                "scopeMetrics"@,
                Json::Arr(
                    seq![
                        json::fields().with("scope"@, scope()).with(
                            "metrics"@,
                            Json::Arr(
                                series_metrics_of(r.series, ts) + probe_metrics_of(
                                    r.self_metrics,
                                    ts,
                                ),
                            ),
                        ).json(),
                    ],
                ),
            ).json(),
        ],
    )
}

/// Both signals of a run in one document.
pub open spec fn exported(r: Record, ts: u64) -> Json {
    json::fields().with("resourceSpans"@, resource_spans(r)).with(
        "resourceMetrics"@,
        resource_metrics(r, ts),
    ).json()
}

fn resource_value(run: &AssayRun) -> (r: Doc)
    ensures
        r@ == resource_of(run@),
{
    Doc::Object(Object::new().with("attributes", json::array(resource_attributes(run))))
}

fn spans_value(run: &AssayRun) -> (r: Doc)
    ensures
        r@ == resource_spans(run@),
{
    let scope = Object::new().text("name", "assayist");
    let inner = Object::new().with("scope", Doc::Object(scope)).with(
        "spans",
        json::array(spans_of(run)),
    );
    one(
        Doc::Object(
            Object::new().with("resource", resource_value(run)).with(
                "scopeSpans",
                one(Doc::Object(inner)),
            ),
        ),
    )
}

fn metrics_value(run: &AssayRun, ts: u64) -> (r: Doc)
    ensures
        r@ == resource_metrics(run@, ts),
{
    let scope = Object::new().text("name", "assayist");
    let inner = Object::new().with("scope", Doc::Object(scope)).with(
        "metrics",
        json::array(metrics_of(run, ts)),
    );
    one(
        Doc::Object(
            Object::new().with("resource", resource_value(run)).with(
                "scopeMetrics",
                one(Doc::Object(inner)),
            ),
        ),
    )
}

/// Both signals of a run, data points without a time stamped with zero.
pub fn export(run: &AssayRun) -> (r: Doc)
    ensures
        r@ == exported(run@, 0),
{
    export_at(run, 0)
}

/// Both signals of a run, data points without a time stamped with `ts`.
pub fn export_at(run: &AssayRun, ts: u64) -> (r: Doc)
    ensures
        r@ == exported(run@, ts),
{
    Doc::Object(
        Object::new().with("resourceSpans", spans_value(run)).with(
            "resourceMetrics",
            metrics_value(run, ts),
        ),
    )
}

/// The spans of a run.
pub fn export_traces(run: &AssayRun) -> (r: Doc)
    ensures
        r@ == json::fields().with("resourceSpans"@, resource_spans(run@)).json(),
{
    Doc::Object(Object::new().with("resourceSpans", spans_value(run)))
}

/// The metrics of a run, data points without a time stamped with zero.
pub fn export_metrics(run: &AssayRun) -> (r: Doc)
    ensures
        r@ == json::fields().with("resourceMetrics"@, resource_metrics(run@, 0)).json(),
{
    export_metrics_at(run, 0)
}

/// The metrics of a run, data points without a time stamped with `ts`.
pub fn export_metrics_at(run: &AssayRun, ts: u64) -> (r: Doc)
    ensures
        r@ == json::fields().with("resourceMetrics"@, resource_metrics(run@, ts)).json(),
{
    Doc::Object(Object::new().with("resourceMetrics", metrics_value(run, ts)))
}

} // verus!
