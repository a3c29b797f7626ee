//! Memory measured on the host around a run: how far available memory dropped,
//! and how much of a snapshot's memory file is resident.
use crate::adapter::{self, Event, Machine, Session};
use crate::contract::{Fragment, Piece};
use crate::json::{self, Json, Object, Doc};
use crate::reduce::{self, Polarity};
use crate::text;
use vstd::prelude::*;

verus! {

/// The first of the texts, from `from` on, that begins with `p`.
pub open spec fn first_with(s: Seq<Seq<char>>, p: Seq<char>, from: nat) -> Option<Seq<char>>
    decreases s.len() - from,
{
    if from >= s.len() {
        None
    } else if text::has_prefix(s[from as int], p) {
        Some(s[from as int])
    } else {
        first_with(s, p, from + 1)
    }
}

/// The number that a field of a `/proc/meminfo` text holds, zero where there is
/// none.
pub open spec fn mem_field(t: Seq<char>, name: Seq<char>) -> int {
    match first_with(text::lines_of(t), name, 0) {
        Some(l) => {
            let w = text::words_of(l);
            if w.len() > 1 {
                match text::signed(w[1]) {
                    Some(n) => n,
                    None => 0,
                }
            } else {
                0
            }
        },
        None => 0,
    }
}

/// The first text with a prefix has it.
pub proof fn lemma_first_has_prefix(s: Seq<Seq<char>>, p: Seq<char>, from: nat)
    ensures
        first_with(s, p, from) matches Some(l) ==> text::has_prefix(l, p),
    decreases s.len() - from,
{
    if from < s.len() && !text::has_prefix(s[from as int], p) {
        lemma_first_has_prefix(s, p, from + 1);
    }
}

/// The first line of a text that begins with `p`.
pub fn line_with(t: &str, p: &str) -> (r: Option<String>)
    ensures
        text::opt_text(r) == first_with(text::lines_of(t@), p@, 0),
{
    let ls = text::lines(t);
    let ghost all = text::lines_of(t@);
    let mut i: usize = 0;
    while i < ls.len()
        invariant
            i <= ls@.len(),
            all == text::texts(ls@),
            all == text::lines_of(t@),
            first_with(all, p@, 0) == first_with(all, p@, i as nat),
        decreases ls@.len() - i,
    {
        assert(all[i as int] == ls@[i as int]@);
        if text::starts_with(&ls[i], p) {
            return Some(ls[i].clone());
        }
        i += 1;
    }
    None
}

fn field(t: &str, name: &str) -> (r: i64)
    ensures
        r == mem_field(t@, name@),
{
    match line_with(t, name) {
        Some(l) => {
            let w = text::words(&l);
            assert(text::texts(w@).len() == w@.len());
            if w.len() > 1 {
                assert(text::texts(w@)[1] == w@[1]@);
                match text::parse_signed(&w[1]) {
                    Some(n) => n,
                    None => 0,
                }
            } else {
                0
            }
        },
        None => 0,
    }
}

/// Available and cached memory in a `/proc/meminfo` text, in KiB.
pub fn parse_meminfo(t: &str) -> (r: (i64, i64))
    ensures
        r.0 == mem_field(t@, "MemAvailable:"@),
        r.1 == mem_field(t@, "Cached:"@),
{
    (field(t, "MemAvailable:"), field(t, "Cached:"))
}

/// What an answer to a memory sample says. No answer says zero.
pub open spec fn sampled(a: Result<Seq<char>, Seq<char>>) -> (int, int) {
    match a {
        Ok(t) => (mem_field(t, "MemAvailable:"@), mem_field(t, "Cached:"@)),
        Err(_) => (mem_field(Seq::empty(), "MemAvailable:"@), mem_field(Seq::empty(), "Cached:"@)),
    }
}

/// Sample available and cached memory.
pub fn sample_meminfo<M: Machine>(sh: &mut Session<M>) -> (r: (i64, i64))
    ensures
        exists|a: Result<Seq<char>, Seq<char>>|
            final(sh).log() == old(sh).log().push(Event::Ran("cat /proc/meminfo"@, a)) && (
                r.0 as int,
                r.1 as int,
            ) == #[trigger] sampled(a),
{
    let a = sh.run("cat /proc/meminfo");
    let ghost v = adapter::reply(a);
    let t = match a {
        Ok(t) => t,
        Err(_) => String::new(),
    };
    let r = parse_meminfo(&t);
    assert((r.0 as int, r.1 as int) == sampled(v));
    r
}

/// A gauge that stands alone.
pub open spec fn host_gauge(name: Seq<char>, value: int) -> Json {
    json::fields().text("name"@, name).text("unit"@, "KiBy"@).text("kind"@, "gauge"@).text(
        "source"@,
        "hostmem"@,
    ).with("cardinality"@, singleton()).with(
        "data"@,
        json::fields().with("value"@, Json::Int(value)).with("time_unix_nano"@, Json::Int(0)).json(),
    ).json()
}

pub open spec fn singleton() -> Json {
    json::fields().text("class"@, "singleton"@).json()
}

fn singleton_value() -> (r: Doc)
    ensures
        r@ == singleton(),
{
    Doc::Object(Object::new().text("class", "singleton"))
}

fn gauge(name: &str, value: i64) -> (r: Doc)
    ensures
        r@ == host_gauge(name@, value as int),
{
    let data = Object::new().with("value", json::signed(value)).with(
        "time_unix_nano",
        json::uint(0),
    );
    Doc::Object(
        Object::new().text("name", name).text("unit", "KiBy").text("kind", "gauge").text(
            "source",
            "hostmem",
        ).with("cardinality", singleton_value()).with("data", Doc::Object(data)),
    )
}

/// A difference of 64-bit numbers, wrapping around.
pub open spec fn difference(a: i64, b: i64) -> int {
    vstd::wrapping::i64_specs::wrapping_sub(a, b) as int
}

/// What memory did between two samples: how far available memory dropped, lower
/// being better, and how far the page cache grew, which has no direction.
pub open spec fn hostmem_piece(before: (i64, i64), after: (i64, i64)) -> Piece {
    Piece {
        series: seq![
            host_gauge("hostmem.mem_consumed_kib"@, difference(before.0, after.0)),
            host_gauge("hostmem.cached_delta_kib"@, difference(after.1, before.1)),
        ],
        self_metrics: Seq::empty(),
        capture_meta: Some(
            json::fields().text("gadget"@, "hostmem"@).text("source"@, "/proc/meminfo"@).json(),
        ),
    }
}

pub fn hostmem_fragment(before: (i64, i64), after: (i64, i64)) -> (r: Fragment)
    ensures
        r@ == hostmem_piece(before, after),
{
    let mut series: Vec<Doc> = Vec::new();
    series.push(gauge("hostmem.mem_consumed_kib", before.0.wrapping_sub(after.0)));
    series.push(gauge("hostmem.cached_delta_kib", after.1.wrapping_sub(before.1)));
    let meta = Object::new().text("gadget", "hostmem").text("source", "/proc/meminfo");
    let r = Fragment {
        series,
        self_metrics: Vec::new(),
        capture_meta: Some(Doc::Object(meta)),
    };
    assert(r@.series =~= hostmem_piece(before, after).series);
    assert(r@.self_metrics =~= Seq::empty());
    r
}

// ---------------------------------------------------------------------------
// Residency
// ---------------------------------------------------------------------------

/// The residency of one snapshot memory file: resident and total pages, and
/// their quotient as the decimal text of a number.
#[derive(Debug)]
pub struct Resident {
    pub label: String,
    pub resident: u64,
    pub total: u64,
    pub fraction: String,
}

/// A `Resident` as a mathematical value.
pub struct Held {
    pub label: Seq<char>,
    pub resident: u64,
    pub total: u64,
    pub fraction: Seq<char>,
}

impl View for Resident {
    type V = Held;

    open spec fn view(&self) -> Held {
        Held {
            label: self.label@,
            resident: self.resident,
            total: self.total,
            fraction: self.fraction@,
        }
    }
}

pub open spec fn held(s: Seq<Resident>) -> Seq<Held> {
    s.map_values(|x: Resident| x@)
}

/// How the series of a label are bounded: by the index of the guest where there
/// are several labelled ones.
pub open spec fn resident_cardinality(count: nat, label: Seq<char>) -> Json {
    if count > 1 && label.len() > 0 {
        json::fields().text("class"@, "bounded"@).text("key_source"@, "guest_index"@).with(
            "max_keys"@,
            Json::Int(count as int),
        ).json()
    } else {
        singleton()
    }
}

pub open spec fn resident_gauge(
    name: Seq<char>,
    count: nat,
    label: Seq<char>,
    value: Json,
) -> Json {
    json::fields().text("name"@, name).text("unit"@, "1"@).text("kind"@, "gauge"@).text(
        "source"@,
        "resident"@,
    ).maybe(
        "key"@,
        if label.len() > 0 {
            Some(Json::Str(label))
        } else {
            None
        },
    ).with("cardinality"@, resident_cardinality(count, label)).with(
        "data"@,
        json::fields().with("value"@, value).with("time_unix_nano"@, Json::Int(0)).json(),
    ).json()
}

/// The three series of one file.
pub open spec fn resident_series(count: nat, s: Held) -> Seq<Json> {
    seq![
        resident_gauge(
            "resident.snapshot_resident_pages"@,
            count,
            s.label,
            Json::Int(s.resident as int),
        ),
        resident_gauge(
            "resident.snapshot_total_pages"@,
            count,
            s.label,
            Json::Int(s.total as int),
        ),
        resident_gauge("resident.snapshot_fraction"@, count, s.label, Json::Float(s.fraction)),
    ]
}

/// The series of the first files.
pub open spec fn all_resident(count: nat, s: Seq<Held>) -> Seq<Json>
    decreases s.len(),
{
    if s.len() == 0 {
        Seq::empty()
    } else {
        all_resident(count, s.drop_last()) + resident_series(count, s.last())
    }
}

/// The residency of snapshot memory, by guest.
pub open spec fn resident_piece(s: Seq<Held>) -> Piece {
    Piece {
        series: all_resident(s.len(), s),
        self_metrics: Seq::empty(),
        capture_meta: Some(
            json::fields().text("gadget"@, "resident"@).text("source"@, "mincore"@).json(),
        ),
    }
}

fn resident_value(name: &str, count: usize, label: &str, value: Doc) -> (r: Doc)
    ensures
        r@ == resident_gauge(name@, count as nat, label@, value@),
{
    let keyed = !label.is_empty();
    let key = if keyed {
        Some(json::string(label))
    } else {
        None
    };
    let cardinality = if count > 1 && keyed {
        Doc::Object(
            Object::new().text("class", "bounded").text("key_source", "guest_index").with(
                "max_keys",
                json::uint(count as u64),
            ),
        )
    } else {
        singleton_value()
    };
    let data = Object::new().with("value", value).with("time_unix_nano", json::uint(0));
    Doc::Object(
        Object::new().text("name", name).text("unit", "1").text("kind", "gauge").text(
            "source",
            "resident",
        ).maybe("key", key).with("cardinality", cardinality).with("data", Doc::Object(data)),
    )
}

/// What the residency of the measured files comes to; nothing where none was
/// measured.
pub fn resident_fragment(samples: &Vec<Resident>) -> (r: Option<Fragment>)
    ensures
        samples@.len() == 0 ==> r is None,
        samples@.len() > 0 ==> r is Some && r->0@ == resident_piece(held(samples@)),
{
    if samples.len() == 0 {
        return None;
    }
    let n: usize = samples.len();
    let mut series: Vec<Doc> = Vec::new();
    let ghost all = held(samples@);
    assert(all.take(0) =~= Seq::empty());
    assert(json::jsons(series@) =~= Seq::empty());
    let mut i: usize = 0;
    while i < samples.len()
        invariant
            i <= samples@.len(),
            n == samples@.len(),
            all == held(samples@),
            json::jsons(series@) == all_resident(n as nat, all.take(i as int)),
        decreases samples@.len() - i,
    {
        let s = &samples[i];
        assert(all.take(i + 1).drop_last() =~= all.take(i as int));
        assert(all[i as int] == s@);
        let ghost was = series@;
        series.push(
            resident_value(
                "resident.snapshot_resident_pages",
                n,
                &s.label,
                json::uint(s.resident),
            ),
        );
        series.push(
            resident_value("resident.snapshot_total_pages", n, &s.label, json::uint(s.total)),
        );
        let fraction = Doc::Num(json::Num::Float(s.fraction.clone()));
        series.push(resident_value("resident.snapshot_fraction", n, &s.label, fraction));
        assert(json::jsons(series@) =~= json::jsons(was) + resident_series(n as nat, s@));
        i += 1;
    }
    assert(all.take(all.len() as int) =~= all);
    let meta = Object::new().text("gadget", "resident").text("source", "mincore");
    let f = Fragment {
        series,
        self_metrics: Vec::new(),
        capture_meta: Some(Doc::Object(meta)),
    };
    assert(f@.self_metrics =~= Seq::empty());
    Some(f)
}

/// No part of a text begins where it would have to.
proof fn lemma_no_part(l: Seq<char>, p: Seq<char>)
    requires
        p.len() >= 3,
        forall|i: int|
            0 <= i && i + 2 < l.len() ==> !(#[trigger] l[i] == p[0] && l[i + 1] == p[1] && l[i + 2]
                == p[2]),
    ensures
        !text::has_part(l, p),
{
    if text::has_part(l, p) {
        let i = choose|i: int| text::occurs_at(l, p, i);
        let sub = l.subrange(i, i + p.len());
        assert(sub[0] == l[i] && sub[1] == l[i + 1] && sub[2] == l[i + 2]);
    }
}

proof fn lemma_consumed_is_plain(l: Seq<char>)
    requires
        l == "hostmem.mem_consumed_kib|value"@,
    ensures
        !text::has_part(l, "bytes"@),
        !text::has_part(l, "packets"@),
        !text::has_part(l, "throughput"@),
        !text::has_part(l, "iops"@),
        !text::has_part(l, "on_cpu"@),
        !text::has_part(l, "utilis"@),
        !text::has_part(l, "cpu_ns"@),
        text::has_prefix(l, "hostmem.mem_consumed_kib|"@),
{
    reveal_strlit("hostmem.mem_consumed_kib|value");
    reveal_strlit("hostmem.mem_consumed_kib|");
    reveal_strlit("bytes");
    reveal_strlit("packets");
    reveal_strlit("throughput");
    reveal_strlit("iops");
    reveal_strlit("on_cpu");
    reveal_strlit("utilis");
    reveal_strlit("cpu_ns");
    assert(l.take(25) =~= "hostmem.mem_consumed_kib|"@);
    lemma_no_part(l, "bytes"@);
    lemma_no_part(l, "packets"@);
    lemma_no_part(l, "throughput"@);
    lemma_no_part(l, "iops"@);
    lemma_no_part(l, "on_cpu"@);
    lemma_no_part(l, "utilis"@);
    lemma_no_part(l, "cpu_ns"@);
}

proof fn lemma_cached_is_plain(l: Seq<char>)
    requires
        l == "hostmem.cached_delta_kib|value"@,
    ensures
        !text::has_part(l, "bytes"@),
        !text::has_part(l, "packets"@),
        !text::has_part(l, "throughput"@),
        !text::has_part(l, "iops"@),
        l != "hostmem.mem_consumed_kib"@,
        !text::has_prefix(l, "hostmem.mem_consumed_kib|"@),
{
    reveal_strlit("hostmem.cached_delta_kib|value");
    reveal_strlit("hostmem.mem_consumed_kib");
    reveal_strlit("hostmem.mem_consumed_kib|");
    reveal_strlit("bytes");
    reveal_strlit("packets");
    reveal_strlit("throughput");
    reveal_strlit("iops");
    lemma_no_part(l, "bytes"@);
    lemma_no_part(l, "packets"@);
    lemma_no_part(l, "throughput"@);
    lemma_no_part(l, "iops"@);
    assert(l[8] != "hostmem.mem_consumed_kib"@[8]);
    assert(l.take(25)[8] != "hostmem.mem_consumed_kib|"@[8]);
}

/// A gauge of the host is one metric, named after it.
proof fn lemma_gauge_reading(run: Json, name: Seq<char>, value: int)
    ensures
        reduce::series_readings(run, host_gauge(name, value)).len() == 1,
        reduce::series_readings(run, host_gauge(name, value))[0] == reduce::reading(
            name + "|value"@,
            "KiBy"@,
            reduce::tainted(run, host_gauge(name, value)),
            reduce::Amount::Plain(Json::Int(value)),
        ),
{
    broadcast use json::law_lookup_put;

    reveal_strlit("name");
    reveal_strlit("unit");
    reveal_strlit("kind");
    reveal_strlit("source");
    reveal_strlit("cardinality");
    reveal_strlit("data");
    reveal_strlit("key");
    reveal_strlit("labels");
    reveal_strlit("value");
    reveal_strlit("time_unix_nano");
    reveal_strlit("gauge");
    reveal_strlit("histogram");
    reveal_strlit("counter");
    assert("name"@[0] == 'n' && "unit"@[0] == 'u' && "kind"@[0] == 'k' && "source"@[0] == 's'
        && "cardinality"@[0] == 'c' && "data"@[0] == 'd' && "labels"@[0] == 'l' && "key"@[0] == 'k');
    assert("kind"@[1] == 'i' && "key"@[1] == 'e');
    assert("value"@[0] == 'v' && "time_unix_nano"@[0] == 't');
    assert("gauge"@[0] == 'g' && "histogram"@[0] == 'h' && "counter"@[0] == 'c');
    let s = host_gauge(name, value);
    assert(json::str_field(s, "name"@) == Some(name));
    assert(json::str_field(s, "unit"@) == Some("KiBy"@));
    assert(json::str_field(s, "kind"@) == Some("gauge"@));
    assert(json::field(s, "key"@) is None);
    assert(json::field(s, "labels"@) is None);
}

/// In every run the memory that was taken from the host is better low, and what
/// the page cache gained has no direction, by the ids that the two are compared
/// under. Both ids are in lower case already.
pub proof fn law_host_memory_is_graded(run: Json, before: (i64, i64), after: (i64, i64))
    ensures
        ({
            let consumed = reduce::series_readings(run, hostmem_piece(before, after).series[0]);
            let cached = reduce::series_readings(run, hostmem_piece(before, after).series[1]);
            &&& consumed.len() == 1 && cached.len() == 1
            &&& consumed[0].id == "hostmem.mem_consumed_kib|value"@
            &&& cached[0].id == "hostmem.cached_delta_kib|value"@
            &&& text::lowercase(consumed[0].id) == consumed[0].id ==> consumed[0].polarity
                == Polarity::LowerBetter
            &&& text::lowercase(cached[0].id) == cached[0].id ==> cached[0].polarity
                == Polarity::Unknown
        }),
{
    let a = "hostmem.mem_consumed_kib|value"@;
    let b = "hostmem.cached_delta_kib|value"@;
    lemma_gauge_reading(run, "hostmem.mem_consumed_kib"@, difference(before.0, after.0));
    lemma_gauge_reading(run, "hostmem.cached_delta_kib"@, difference(after.1, before.1));
    lemma_consumed_is_plain(a);
    lemma_cached_is_plain(b);
    assert("hostmem.mem_consumed_kib"@ + "|value"@ =~= a) by {
        reveal_strlit("hostmem.mem_consumed_kib");
        reveal_strlit("hostmem.mem_consumed_kib|value");
        reveal_strlit("|value");
    }
    assert("hostmem.cached_delta_kib"@ + "|value"@ =~= b) by {
        reveal_strlit("hostmem.cached_delta_kib");
        reveal_strlit("hostmem.cached_delta_kib|value");
        reveal_strlit("|value");
    }
    reveal_strlit("KiBy");
    reveal_strlit("By");
    reveal_strlit("ns");
    reveal_strlit("us");
    reveal_strlit("ms");
    reveal_strlit("s");
    assert("KiBy"@.len() == 4);
    assert("By"@.len() == 2 && "ns"@.len() == 2 && "us"@.len() == 2 && "ms"@.len() == 2);
    assert("s"@.len() == 1);
    assert(reduce::polarity_for(a, "KiBy"@) == Polarity::LowerBetter);
    assert(reduce::polarity_for(b, "KiBy"@) == Polarity::Unknown);
    assert(hostmem_piece(before, after).series[0] == host_gauge(
        "hostmem.mem_consumed_kib"@,
        difference(before.0, after.0),
    ));
    assert(hostmem_piece(before, after).series[1] == host_gauge(
        "hostmem.cached_delta_kib"@,
        difference(after.1, before.1),
    ));
}

} // verus!
