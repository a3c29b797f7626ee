//! What the capture gadgets share: reading kernel maps, and the fragments that
//! are made of them.
use crate::json::{self, Doc, Json, Num, Object};
use crate::text;
use vstd::prelude::*;

verus! {

// ---------------------------------------------------------------------------
// Bytes
// ---------------------------------------------------------------------------

/// The order of a number's bytes on a machine.
#[derive(Clone, Copy, Debug, PartialEq, Eq, Structural)]
pub enum Order {
    /// The least significant byte first.
    Little,
    Big,
}

/// A key of a kernel map and the value under it.
#[derive(Debug)]
pub struct Entry {
    pub key: Vec<u8>,
    pub value: Vec<u8>,
}

/// The number that bytes are, the least significant byte first.
pub open spec fn little(b: Seq<u8>) -> nat
    decreases b.len(),
{
    if b.len() == 0 {
        0
    } else {
        b[0] as nat + 256 * little(b.skip(1))
    }
}

/// The number that bytes are.
pub open spec fn number(b: Seq<u8>, order: Order) -> nat {
    match order {
        Order::Little => little(b),
        Order::Big => little(b.reverse()),
    }
}

proof fn lemma_four(b: Seq<u8>)
    requires
        b.len() == 4,
    ensures
        little(b) == b[0] + 0x100 * b[1] + 0x1_0000 * b[2] + 0x100_0000 * b[3],
        little(b) <= u32::MAX,
{
    reveal_with_fuel(little, 5);
    assert(b.skip(1)[0] == b[1]);
    assert(b.skip(1).skip(1)[0] == b[2]);
    assert(b.skip(1).skip(1).skip(1)[0] == b[3]);
}

proof fn lemma_split(b: Seq<u8>, n: int)
    requires
        0 <= n <= b.len(),
    ensures
        little(b) == little(b.take(n)) + power(n as nat) * little(b.skip(n)),
    decreases n,
{
    if n == 0 {
        assert(b.skip(0) =~= b);
        assert(power(0) == 1);
        assert(1 * little(b) == little(b)) by (nonlinear_arith);
    } else {
        let t = b.skip(1);
        lemma_split(t, n - 1);
        assert(b.take(n).skip(1) =~= t.take(n - 1));
        assert(b.take(n)[0] == b[0]);
        assert(t.skip(n - 1) =~= b.skip(n));
        let p = power((n - 1) as nat);
        let q = little(b.skip(n));
        assert(256 * (p * q) == (256 * p) * q) by (nonlinear_arith);
    }
}

/// A power of 256.
pub open spec fn power(n: nat) -> nat
    decreases n,
{
    if n == 0 {
        1
    } else {
        256 * power((n - 1) as nat)
    }
}

fn little_u32(b: &[u8], at: usize) -> (r: u32)
    requires
        at + 4 <= b@.len(),
    ensures
        r == little(b@.subrange(at as int, at + 4)),
{
    proof {
        lemma_four(b@.subrange(at as int, at + 4));
    }
    (b[at] as u32) + 0x100 * (b[at + 1] as u32) + 0x1_0000 * (b[at + 2] as u32) + 0x100_0000 * (b[at
        + 3] as u32)
}

fn big_u32(b: &[u8], at: usize) -> (r: u32)
    requires
        at + 4 <= b@.len(),
    ensures
        r == little(b@.subrange(at as int, at + 4).reverse()),
{
    proof {
        lemma_four(b@.subrange(at as int, at + 4).reverse());
        assert(b.len() == b@.len());
    }
    (b[at + 3] as u32) + 0x100 * (b[at + 2] as u32) + 0x1_0000 * (b[at + 1] as u32) + 0x100_0000 * (
    b[at] as u32)
}

/// The four bytes at a place as a number.
pub fn u32_at(b: &[u8], at: usize, order: Order) -> (r: u32)
    requires
        at + 4 <= b@.len(),
    ensures
        r == number(b@.subrange(at as int, at + 4), order),
{
    match order {
        Order::Little => little_u32(b, at),
        Order::Big => big_u32(b, at),
    }
}

proof fn lemma_halves(b: Seq<u8>)
    requires
        b.len() == 8,
    ensures
        little(b) == little(b.take(4)) + 0x1_0000_0000 * little(b.skip(4)),
        little(b.take(4)) <= u32::MAX,
        little(b.skip(4)) <= u32::MAX,
{
    lemma_split(b, 4);
    assert(power(4) == 0x1_0000_0000) by {
        reveal_with_fuel(power, 5);
    }
    lemma_four(b.take(4));
    lemma_four(b.skip(4));
}

/// The eight bytes at a place as a number.
pub fn u64_at(b: &[u8], at: usize, order: Order) -> (r: u64)
    requires
        at + 8 <= b@.len(),
    ensures
        r == number(b@.subrange(at as int, at + 8), order),
{
    let ghost s = b@.subrange(at as int, at + 8);
    assert(b.len() == b@.len());
    match order {
        Order::Little => {
            let low: u32 = little_u32(b, at);
            let high: u32 = little_u32(b, at + 4);
            proof {
                lemma_halves(s);
                assert(s.take(4) =~= b@.subrange(at as int, at + 4));
                assert(s.skip(4) =~= b@.subrange(at + 4, at + 8));
            }
            (low as u64) + 0x1_0000_0000 * (high as u64)
        },
        Order::Big => {
            let high: u32 = big_u32(b, at);
            let low: u32 = big_u32(b, at + 4);
            proof {
                lemma_halves(s.reverse());
                assert(s.reverse().take(4) =~= b@.subrange(at + 4, at + 8).reverse());
                assert(s.reverse().skip(4) =~= b@.subrange(at as int, at + 4).reverse());
            }
            (low as u64) + 0x1_0000_0000 * (high as u64)
        },
    }
}

/// A number as so many bytes, the least significant first.
pub open spec fn little_bytes(n: nat, width: nat) -> Seq<u8>
    decreases width,
{
    if width == 0 {
        Seq::empty()
    } else {
        seq![(n % 256) as u8] + little_bytes(n / 256, (width - 1) as nat)
    }
}

/// A number as so many bytes.
pub open spec fn bytes_of(n: nat, width: nat, order: Order) -> Seq<u8> {
    match order {
        Order::Little => little_bytes(n, width),
        Order::Big => little_bytes(n, width).reverse(),
    }
}

proof fn lemma_little_bytes_len(n: nat, width: nat)
    ensures
        little_bytes(n, width).len() == width,
    decreases width,
{
    if width > 0 {
        lemma_little_bytes_len(n / 256, (width - 1) as nat);
    }
}

/// A number's bytes read as that number.
pub proof fn law_bytes_read_back(n: nat, width: nat, order: Order)
    requires
        n < power(width),
    ensures
        bytes_of(n, width, order).len() == width,
        number(bytes_of(n, width, order), order) == n,
{
    lemma_little_bytes_len(n, width);
    lemma_reads_back(n, width);
    assert(little_bytes(n, width).reverse().reverse() =~= little_bytes(n, width));
}

proof fn lemma_reads_back(n: nat, width: nat)
    requires
        n < power(width),
    ensures
        little(little_bytes(n, width)) == n,
    decreases width,
{
    if width > 0 {
        lemma_reads_back(n / 256, (width - 1) as nat);
        let b = little_bytes(n, width);
        assert(b.skip(1) =~= little_bytes(n / 256, (width - 1) as nat));
    }
}

/// The number that bytes are is written as those bytes.
pub proof fn law_number_writes_back(b: Seq<u8>, order: Order)
    ensures
        bytes_of(number(b, order), b.len(), order) == b,
{
    lemma_writes_back(b);
    lemma_writes_back(b.reverse());
    assert(b.reverse().reverse() =~= b);
}

proof fn lemma_writes_back(b: Seq<u8>)
    ensures
        little_bytes(little(b), b.len()) == b,
    decreases b.len(),
{
    if b.len() > 0 {
        lemma_writes_back(b.skip(1));
        assert(seq![b[0]] + b.skip(1) =~= b);
    } else {
        assert(little_bytes(little(b), 0) =~= b);
    }
}

/// A number as so many bytes.
pub fn to_bytes(n: u64, width: usize, order: Order) -> (r: Vec<u8>)
    ensures
        r@ == bytes_of(n as nat, width as nat, order),
{
    let mut out: Vec<u8> = Vec::new();
    let mut rest: u64 = n;
    let mut i: usize = 0;
    assert(out@ + little_bytes(n as nat, width as nat) =~= little_bytes(n as nat, width as nat));
    while i < width
        invariant
            i <= width,
            out@ + little_bytes(rest as nat, (width - i) as nat) == little_bytes(
                n as nat,
                width as nat,
            ),
        decreases width - i,
    {
        let ghost was = out@;
        let d: u8 = (rest % 256) as u8;
        out.push(d);
        assert(was + (seq![d] + little_bytes((rest / 256) as nat, (width - i - 1) as nat)) =~= out@
            + little_bytes((rest / 256) as nat, (width - i - 1) as nat));
        rest = rest / 256;
        i += 1;
    }
    assert(out@ + Seq::<u8>::empty() =~= out@);
    match order {
        Order::Little => out,
        Order::Big => reversed(&out),
    }
}

fn reversed(v: &Vec<u8>) -> (r: Vec<u8>)
    ensures
        r@ == v@.reverse(),
{
    let mut out: Vec<u8> = Vec::new();
    let n: usize = v.len();
    let mut i: usize = 0;
    while i < n
        invariant
            n == v@.len(),
            i <= n,
            out@ =~= v@.reverse().take(i as int),
        decreases n - i,
    {
        out.push(v[n - 1 - i]);
        i += 1;
    }
    out
}

// ---------------------------------------------------------------------------
// Histograms
// ---------------------------------------------------------------------------

/// The first `n` counts of a histogram.
pub open spec fn counts(b: Seq<u8>, n: nat, order: Order) -> Seq<u32> {
    Seq::new(n, |i: int| number(b.subrange(4 * i, 4 * i + 4), order) as u32)
}

/// The sum of counts.
pub open spec fn total(s: Seq<u32>) -> nat
    decreases s.len(),
{
    if s.len() == 0 {
        0
    } else {
        total(s.drop_last()) + s.last() as nat
    }
}

pub proof fn lemma_total_bound(s: Seq<u32>)
    ensures
        total(s) <= s.len() * u32::MAX,
    decreases s.len(),
{
    if s.len() > 0 {
        lemma_total_bound(s.drop_last());
        assert(s.len() * u32::MAX == (s.len() - 1) * u32::MAX + u32::MAX) by (nonlinear_arith);
    }
}

/// Read a histogram's counts.
pub fn read_counts(b: &[u8], n: usize, order: Order) -> (r: Vec<u32>)
    requires
        4 * n <= b@.len(),
    ensures
        r@ == counts(b@, n as nat, order),
{
    let mut out: Vec<u32> = Vec::new();
    let mut i: usize = 0;
    while i < n
        invariant
            i <= n,
            4 * n <= b@.len(),
            out@ =~= counts(b@, i as nat, order),
        decreases n - i,
    {
        assert(b.len() == b@.len());
        out.push(u32_at(b, 4 * i, order));
        i += 1;
    }
    out
}

/// The sum of counts.
pub fn sum(v: &Vec<u32>) -> (r: u64)
    requires
        v@.len() <= u32::MAX,
    ensures
        r == total(v@),
{
    let mut t: u64 = 0;
    let mut i: usize = 0;
    assert(v@.take(0) =~= Seq::empty());
    while i < v.len()
        invariant
            i <= v@.len(),
            v@.len() <= u32::MAX,
            t == total(v@.take(i as int)),
        decreases v@.len() - i,
    {
        proof {
            assert(v@.take(i + 1).drop_last() =~= v@.take(i as int));
            lemma_total_bound(v@.take(i as int));
            assert(i * u32::MAX <= u32::MAX * u32::MAX) by (nonlinear_arith)
                requires
                    0 <= i <= u32::MAX,
            ;
        }
        t = t + v[i] as u64;
        i += 1;
    }
    assert(v@.take(i as int) =~= v@);
    t
}

/// Counts as a document.
pub open spec fn numbers_json(s: Seq<u32>) -> Json {
    Json::Arr(s.map_values(|n: u32| Json::Int(n as int)))
}

/// Counts as a document.
pub fn numbers(v: &Vec<u32>) -> (r: Doc)
    ensures
        r@ == numbers_json(v@),
{
    let ghost all = v@.map_values(|n: u32| Json::Int(n as int));
    let mut out: Vec<Doc> = Vec::new();
    let mut i: usize = 0;
    while i < v.len()
        invariant
            i <= v@.len(),
            all == v@.map_values(|n: u32| Json::Int(n as int)),
            json::jsons(out@) =~= all.take(i as int),
        decreases v@.len() - i,
    {
        let ghost was = out@;
        out.push(json::uint(v[i] as u64));
        assert(json::jsons(out@) =~= json::jsons(was).push(all[i as int]));
        i += 1;
    }
    assert(all.take(i as int) =~= all);
    json::array(out)
}

/// The data of a histogram whose buckets are powers of two.
pub open spec fn log2_data(buckets: Seq<u32>, count: int) -> Json {
    json::fields().text("layout"@, "log2"@).with("buckets"@, numbers_json(buckets)).with(
        "count"@,
        Json::Int(count),
    ).json()
}

pub fn log2(buckets: &Vec<u32>, count: u64) -> (r: Doc)
    ensures
        r@ == log2_data(buckets@, count as int),
{
    Doc::Object(
        Object::new().text("layout", "log2").with("buckets", numbers(buckets)).with(
            "count",
            json::uint(count),
        ),
    )
}

/// The data of a counter.
pub open spec fn counter_data(value: int) -> Json {
    json::fields().with("value"@, Json::Int(value)).with("start_unix_nano"@, Json::Int(0)).json()
}

pub fn counter(value: u64) -> (r: Doc)
    ensures
        r@ == counter_data(value as int),
{
    Doc::Object(
        Object::new().with("value", json::uint(value)).with("start_unix_nano", json::uint(0)),
    )
}

/// The cardinality of series that are keyed and bounded.
pub open spec fn bounded(source: Seq<char>, max_keys: u64) -> Json {
    json::fields().text("class"@, "bounded"@).text("key_source"@, source).with(
        "max_keys"@,
        Json::Int(max_keys as int),
    ).json()
}

pub fn bounded_by(source: &str, max_keys: u64) -> (r: Doc)
    ensures
        r@ == bounded(source@, max_keys),
{
    Doc::Object(
        Object::new().text("class", "bounded").text("key_source", source).with(
            "max_keys",
            json::uint(max_keys),
        ),
    )
}

/// A series.
pub open spec fn series_json(
    name: Seq<char>,
    unit: Seq<char>,
    kind: Seq<char>,
    source: Seq<char>,
    key: Option<Seq<char>>,
    cardinality: Json,
    data: Json,
) -> Json {
    json::fields().text("name"@, name).text("unit"@, unit).text("kind"@, kind).text(
        "source"@,
        source,
    ).maybe(
        "key"@,
        match key {
            Some(k) => Some(Json::Str(k)),
            None => None,
        },
    ).with("cardinality"@, cardinality).with("data"@, data).json()
}

pub fn series(
    name: &str,
    unit: &str,
    kind: &str,
    source: &str,
    key: Option<String>,
    cardinality: Doc,
    data: Doc,
) -> (r: Doc)
    ensures
        r@ == series_json(
            name@,
            unit@,
            kind@,
            source@,
            text::opt_text(key),
            cardinality@,
            data@,
        ),
{
    let k = match key {
        Some(s) => Some(Doc::String(s)),
        None => None,
    };
    Doc::Object(
        Object::new().text("name", name).text("unit", unit).text("kind", kind).text(
            "source",
            source,
        ).maybe("key", k).with("cardinality", cardinality).with("data", data),
    )
}

// ---------------------------------------------------------------------------
// Probe costs
// ---------------------------------------------------------------------------

/// What a probe cost over a window: how long and how often it ran, the mean of
/// that and its share of a core in decimal, and whether that is over budget.
#[derive(Debug)]
pub struct Cost {
    pub run_time_ns: u64,
    pub run_cnt: u64,
    pub mean_ns: String,
    pub steady_cpu_fraction: String,
    pub over_budget: bool,
}

/// The record of a probe's cost.
pub open spec fn cost_json(probe: Seq<char>, attach: Seq<char>, c: Cost) -> Json {
    json::fields().text("probe_id"@, probe).text("attach_kind"@, attach).with(
        "run_time_ns"@,
        Json::Int(c.run_time_ns as int),
    ).with("run_cnt"@, Json::Int(c.run_cnt as int)).with("mean_ns"@, Json::Float(c.mean_ns@)).with(
        "steady_cpu_fraction"@,
        Json::Float(c.steady_cpu_fraction@),
    ).with("over_budget"@, Json::Bool(c.over_budget)).with("hot_path"@, Json::Bool(true)).json()
}

/// The record of a probe's cost. All probes of the gadgets stand on hot paths.
pub fn probe_cost(probe: &str, attach: &str, c: &Cost) -> (r: Doc)
    ensures
        r@ == cost_json(probe@, attach@, *c),
{
    Doc::Object(
        Object::new().text("probe_id", probe).text("attach_kind", attach).with(
            "run_time_ns",
            json::uint(c.run_time_ns),
        ).with("run_cnt", json::uint(c.run_cnt)).with(
            "mean_ns",
            Doc::Num(Num::Float(c.mean_ns.clone())),
        ).with(
            "steady_cpu_fraction",
            Doc::Num(Num::Float(c.steady_cpu_fraction.clone())),
        ).with("over_budget", Doc::Bool(c.over_budget)).with("hot_path", Doc::Bool(true)),
    )
}

/// A fragment as a document.
pub open spec fn fragment_json(series: Seq<Json>, costs: Seq<Json>, meta: Json) -> Json {
    json::fields().with("series"@, Json::Arr(series)).with("self_metrics"@, Json::Arr(costs)).with(
        "capture_meta"@,
        meta,
    ).json()
}

/// A fragment as a document.
pub fn fragment(series: Vec<Doc>, costs: Vec<Doc>, meta: Doc) -> (r: Doc)
    ensures
        r@ == fragment_json(json::jsons(series@), json::jsons(costs@), meta@),
{
    Doc::Object(
        Object::new().with("series", json::array(series)).with(
            "self_metrics",
            json::array(costs),
        ).with("capture_meta", meta),
    )
}

} // verus!
