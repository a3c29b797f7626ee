//! Block I/O: the log-linear latency histogram of each device and direction.
use crate::gadget::{self, Cost, Entry, Order};
use crate::json::{self, Doc, Json, Num, Object};
use crate::text;
use vstd::arithmetic::power2::{lemma2_to64, lemma2_to64_rest, lemma_pow2_pos, lemma_pow2_strictly_increases, lemma_pow2_unfold, pow2};
use vstd::prelude::*;

verus! {

/// The linear buckets of an octave.
pub const SUBSLOTS: usize = 4;

/// The octaves of the histogram, each twice as wide as the one before.
pub const MAX_OCTAVES: usize = 40;

pub const MAX_SLOTS: usize = 160;

/// The sum of one octave's buckets.
pub open spec fn octave_sum(slots: Seq<u32>, octave: int) -> int {
    slots[4 * octave] + slots[4 * octave + 1] + slots[4 * octave + 2] + slots[4 * octave + 3]
}

/// Whether each octave's sum fits in a count.
pub open spec fn octaves_fit(slots: Seq<u32>) -> bool {
    forall|o: int| 0 <= o < MAX_OCTAVES ==> #[trigger] octave_sum(slots, o) <= u32::MAX
}

/// The histogram by octaves.
pub open spec fn collapsed(slots: Seq<u32>) -> Seq<u32> {
    Seq::new(MAX_OCTAVES as nat, |o: int| octave_sum(slots, o) as u32)
}

/// Whether each octave's sum fits in a count.
pub fn collapse_fits(slots: &Vec<u32>) -> (r: bool)
    requires
        slots@.len() == MAX_SLOTS,
    ensures
        r == octaves_fit(slots@),
{
    let mut o: usize = 0;
    while o < MAX_OCTAVES
        invariant
            o <= MAX_OCTAVES,
            slots@.len() == MAX_SLOTS,
            forall|k: int| 0 <= k < o ==> #[trigger] octave_sum(slots@, k) <= u32::MAX,
        decreases MAX_OCTAVES - o,
    {
        let t: u64 = slots[4 * o] as u64 + slots[4 * o + 1] as u64 + slots[4 * o + 2] as u64
            + slots[4 * o + 3] as u64;
        assert(t == octave_sum(slots@, o as int));
        if t > u32::MAX as u64 {
            return false;
        }
        o += 1;
    }
    true
}

fn collapse(slots: &Vec<u32>) -> (r: Vec<u32>)
    requires
        slots@.len() == MAX_SLOTS,
        octaves_fit(slots@),
    ensures
        r@ == collapsed(slots@),
{
    let mut out: Vec<u32> = Vec::new();
    let mut o: usize = 0;
    while o < MAX_OCTAVES
        invariant
            o <= MAX_OCTAVES,
            slots@.len() == MAX_SLOTS,
            octaves_fit(slots@),
            out@ =~= collapsed(slots@).take(o as int),
        decreases MAX_OCTAVES - o,
    {
        assert(octave_sum(slots@, o as int) <= u32::MAX);
        out.push(slots[4 * o] + slots[4 * o + 1] + slots[4 * o + 2] + slots[4 * o + 3]);
        o += 1;
    }
    out
}

/// The histogram by octaves: what a plain power-of-two histogram would hold.
pub fn collapse_to_log2(slots: &[u32; MAX_SLOTS]) -> (r: Vec<u32>)
    requires
        octaves_fit(slots@),
    ensures
        r@ == collapsed(slots@),
{
    let mut v: Vec<u32> = Vec::new();
    let mut i: usize = 0;
    while i < MAX_SLOTS
        invariant
            i <= MAX_SLOTS,
            v@ =~= slots@.take(i as int),
        decreases MAX_SLOTS - i,
    {
        v.push(slots[i]);
        i += 1;
    }
    assert(v@ =~= slots@);
    collapse(&v)
}

/// Collapsing loses no observation.
pub proof fn law_collapse_keeps_the_count(slots: Seq<u32>)
    requires
        slots.len() == MAX_SLOTS,
        octaves_fit(slots),
    ensures
        gadget::total(collapsed(slots)) == gadget::total(slots),
{
    lemma_collapse_total(slots, MAX_OCTAVES as nat);
    assert(collapsed(slots).take(MAX_OCTAVES as int) =~= collapsed(slots));
    assert(slots.take(MAX_SLOTS as int) =~= slots);
}

proof fn lemma_collapse_total(slots: Seq<u32>, n: nat)
    requires
        slots.len() == MAX_SLOTS,
        octaves_fit(slots),
        n <= MAX_OCTAVES,
    ensures
        gadget::total(collapsed(slots).take(n as int)) == gadget::total(slots.take(4 * n as int)),
    decreases n,
{
    let c = collapsed(slots);
    if n == 0 {
        assert(c.take(0) =~= Seq::empty());
        assert(slots.take(0) =~= Seq::empty());
    } else {
        let m = n - 1;
        lemma_collapse_total(slots, m as nat);
        assert(c.take(n as int).drop_last() =~= c.take(m));
        assert(octave_sum(slots, m) <= u32::MAX);
        assert(c.take(n as int).last() == octave_sum(slots, m));
        assert(slots.take(4 * n as int).drop_last() =~= slots.take(4 * m + 3));
        assert(slots.take(4 * m + 3).drop_last() =~= slots.take(4 * m + 2));
        assert(slots.take(4 * m + 2).drop_last() =~= slots.take(4 * m + 1));
        assert(slots.take(4 * m + 1).drop_last() =~= slots.take(4 * m));
        let t0 = gadget::total(slots.take(4 * m));
        assert(gadget::total(slots.take(4 * m + 1)) == t0 + slots[4 * m]);
        assert(gadget::total(slots.take(4 * m + 2)) == t0 + slots[4 * m] + slots[4 * m + 1]);
        assert(gadget::total(slots.take(4 * m + 3)) == t0 + slots[4 * m] + slots[4 * m + 1] + slots[
            4 * m + 2
        ]);
    }
}

/// The upper edge of a bucket, in quarters.
pub open spec fn edge(s: nat) -> nat {
    pow2(s / 4) * (5 + s % 4)
}

/// A number of quarters in decimal.
pub open spec fn quarters(q: nat) -> Seq<char> {
    text::decimal(q / 4) + (if q % 4 == 0 {
        ".0"@
    } else if q % 4 == 1 {
        ".25"@
    } else if q % 4 == 2 {
        ".5"@
    } else {
        ".75"@
    })
}

/// The upper edges of all buckets but the last, which is open.
pub open spec fn bounds() -> Seq<Seq<char>> {
    Seq::new((MAX_SLOTS - 1) as nat, |s: int| quarters(edge(s as nat)))
}

proof fn lemma_edge_fits(s: nat)
    requires
        s < MAX_SLOTS,
    ensures
        pow2(s / 4) <= 0x80_0000_0000,
        edge(s) <= 0x400_0000_0000,
{
    lemma2_to64_rest();
    if s / 4 < 39 {
        lemma_pow2_strictly_increases(s / 4, 39);
    }
    let p = pow2(s / 4);
    let m = 5 + s % 4;
    assert(p * m <= 0x80_0000_0000 * 8) by (nonlinear_arith)
        requires
            p <= 0x80_0000_0000,
            m <= 8,
    ;
}

fn quarters_text(q: u64) -> (r: String)
    ensures
        r@ == quarters(q as nat),
{
    let whole: String = text::dec(q / 4);
    let rest: u64 = q % 4;
    if rest == 0 {
        text::join2(&whole, ".0")
    } else if rest == 1 {
        text::join2(&whole, ".25")
    } else if rest == 2 {
        text::join2(&whole, ".5")
    } else {
        text::join2(&whole, ".75")
    }
}

/// The upper edges of all buckets but the last, in decimal. Bucket `sub` of an
/// octave ends at `2^octave * (1 + (sub + 1) / SUBSLOTS)`.
pub fn log_linear_bounds() -> (r: Vec<String>)
    ensures
        text::texts(r@) == bounds(),
{
    let mut out: Vec<String> = Vec::new();
    let mut base: u64 = 1;
    let mut s: usize = 0;
    proof {
        lemma2_to64();
    }
    while s < MAX_SLOTS - 1
        invariant
            s <= MAX_SLOTS - 1,
            base == pow2((s / 4) as nat),
            text::texts(out@) =~= bounds().take(s as int),
        decreases MAX_SLOTS - s,
    {
        let ghost was = out@;
        proof {
            lemma_edge_fits(s as nat);
            lemma_edge_fits((s + 1) as nat);
            let p = pow2((s / 4) as nat);
            let m = 5 + s % 4;
            assert(base * m == p * m);
        }
        out.push(quarters_text(base * (5 + (s % 4) as u64)));
        assert(text::texts(out@) =~= text::texts(was).push(quarters(edge(s as nat))));
        if s % 4 == 3 {
            proof {
                lemma_pow2_unfold(((s + 1) / 4) as nat);
            }
            base = base * 2;
        }
        s += 1;
    }
    out
}

/// The edges increase, so the buckets do not overlap.
pub proof fn law_bounds_increase(s: nat)
    ensures
        edge(s) < edge(s + 1),
{
    lemma_pow2_pos(s / 4);
    let p = pow2(s / 4) as int;
    if s % 4 == 3 {
        lemma_pow2_unfold((s + 1) / 4);
        assert(edge(s) == 8 * p) by (nonlinear_arith)
            requires
                edge(s) == p * 8,
        ;
        assert(edge(s + 1) == 10 * p) by (nonlinear_arith)
            requires
                edge(s + 1) == (2 * p) * 5,
        ;
    } else {
        let m = (5 + s % 4) as int;
        assert(p * m < p * (m + 1)) by (nonlinear_arith)
            requires
                p > 0,
        ;
    }
}

/// An octave is four times as finely divided as a power-of-two histogram, and
/// its last edge is the start of the next octave.
pub proof fn law_octaves_join(octave: nat)
    ensures
        edge(4 * octave + 3) == 4 * pow2(octave + 1),
{
    lemma_pow2_unfold(octave + 1);
    assert((4 * octave + 3) / 4 == octave);
    let p = pow2(octave) as int;
    assert(p * 8 == 4 * (2 * p)) by (nonlinear_arith);
}

/// A device as `major:minor`.
pub open spec fn device(dev: u32) -> Seq<char> {
    text::decimal((dev / 0x10_0000) as nat) + ":"@ + text::decimal((dev % 0x10_0000) as nat)
}

/// A device as `major:minor`: twelve bits of the one, twenty of the other.
pub fn dev_str(dev: u32) -> (r: String)
    ensures
        r@ == device(dev),
{
    text::join2(
        &text::join2(&text::dec((dev / 0x10_0000) as u64), ":"),
        &text::dec((dev % 0x10_0000) as u64),
    )
}

/// Read a key: the device, and whether it was written.
pub fn parse_blk_key(bytes: &[u8], order: Order) -> (r: (u32, bool))
    requires
        bytes@.len() >= 5,
    ensures
        r.0 == gadget::number(bytes@.subrange(0, 4), order),
        r.1 == (bytes@[4] != 0),
{
    (gadget::u32_at(bytes, 0, order), bytes[4] != 0)
}

/// Read a value: the histogram, its count, and the bytes moved.
pub fn parse_blk_stat(bytes: &[u8], order: Order) -> (r: (Vec<u32>, u64, u64))
    requires
        bytes@.len() >= 648,
    ensures
        r.0@ == gadget::counts(bytes@, MAX_SLOTS as nat, order),
        r.1 == gadget::total(r.0@),
        r.2 == gadget::number(bytes@.subrange(640, 648), order),
{
    let slots: Vec<u32> = gadget::read_counts(bytes, MAX_SLOTS, order);
    let count: u64 = gadget::sum(&slots);
    let moved: u64 = gadget::u64_at(bytes, 640, order);
    (slots, count, moved)
}

/// The data of a latency histogram.
pub open spec fn latency_data(slots: Seq<u32>, hires: bool) -> Json {
    if hires {
        json::fields().text("layout"@, "explicit"@).with("buckets"@, gadget::numbers_json(slots)).with(
            "explicit_bounds"@,
            Json::Arr(bounds().map_values(|t: Seq<char>| Json::Float(t))),
        ).with("count"@, Json::Int(gadget::total(slots) as int)).json()
    } else {
        gadget::log2_data(collapsed(slots), gadget::total(slots) as int)
    }
}

fn floats(v: &Vec<String>) -> (r: Doc)
    ensures
        r@ == Json::Arr(text::texts(v@).map_values(|t: Seq<char>| Json::Float(t))),
{
    let ghost all = text::texts(v@).map_values(|t: Seq<char>| Json::Float(t));
    let mut out: Vec<Doc> = Vec::new();
    let mut i: usize = 0;
    while i < v.len()
        invariant
            i <= v@.len(),
            all == text::texts(v@).map_values(|t: Seq<char>| Json::Float(t)),
            json::jsons(out@) =~= all.take(i as int),
        decreases v@.len() - i,
    {
        let ghost was = out@;
        out.push(Doc::Num(Num::Float(v[i].clone())));
        assert(json::jsons(out@) =~= json::jsons(was).push(all[i as int]));
        i += 1;
    }
    assert(all.take(i as int) =~= all);
    json::array(out)
}

fn latency(slots: &Vec<u32>, count: u64, hires: bool) -> (r: Doc)
    requires
        slots@.len() == MAX_SLOTS,
        count == gadget::total(slots@),
        !hires ==> octaves_fit(slots@),
    ensures
        r@ == latency_data(slots@, hires),
{
    if hires {
        let edges: Vec<String> = log_linear_bounds();
        Doc::Object(
            Object::new().text("layout", "explicit").with("buckets", gadget::numbers(slots)).with(
                "explicit_bounds",
                floats(&edges),
            ).with("count", json::uint(count)),
        )
    } else {
        gadget::log2(&collapse(slots), count)
    }
}

/// The histogram of an entry.
pub open spec fn slots_of(e: Entry, order: Order) -> Seq<u32> {
    gadget::counts(e.value@, MAX_SLOTS as nat, order)
}

/// The two series of an entry.
pub open spec fn entry_series(e: Entry, hires: bool, max_keys: u64, order: Order) -> Seq<Json> {
    let rw = if e.key@[4] != 0 {
        "write"@
    } else {
        "read"@
    };
    let dev = device(gadget::number(e.key@.subrange(0, 4), order) as u32);
    let card = gadget::bounded("device"@, max_keys);
    seq![
        gadget::series_json(
            "block.io_latency:"@ + rw,
            "ns"@,
            "histogram"@,
            "block_rq_complete"@,
            Some(dev),
            card,
            latency_data(slots_of(e, order), hires),
        ),
        gadget::series_json(
            "block.io_bytes:"@ + rw,
            "By"@,
            "counter"@,
            "block_rq_complete"@,
            Some(dev),
            card,
            gadget::counter_data(gadget::number(e.value@.subrange(640, 648), order) as int),
        ),
    ]
}

/// The series of the map: two for each entry that counted anything.
pub open spec fn block_series(
    entries: Seq<Entry>,
    hires: bool,
    max_keys: u64,
    order: Order,
) -> Seq<Json>
    decreases entries.len(),
{
    if entries.len() == 0 {
        Seq::empty()
    } else {
        let before = block_series(entries.drop_last(), hires, max_keys, order);
        let e = entries.last();
        if gadget::total(slots_of(e, order)) == 0 {
            before
        } else {
            before + entry_series(e, hires, max_keys, order)
        }
    }
}

/// Whether an entry can be read, and its octaves summed where they will be.
pub open spec fn sound(e: Entry, hires: bool, order: Order) -> bool {
    &&& e.key@.len() >= 5
    &&& e.value@.len() >= 648
    &&& !hires ==> octaves_fit(slots_of(e, order))
}

fn push_entry(out: &mut Vec<Doc>, e: &Entry, hires: bool, max_keys: u64, order: Order)
    requires
        sound(*e, hires, order),
    ensures
        json::jsons(final(out)@) == json::jsons(old(out)@) + (if gadget::total(slots_of(*e, order))
            == 0 {
            Seq::empty()
        } else {
            entry_series(*e, hires, max_keys, order)
        }),
{
    let ghost was = out@;
    let (dev, is_write) = parse_blk_key(&e.key, order);
    let (slots, count, moved) = parse_blk_stat(&e.value, order);
    if count != 0 {
        let rw: &str = if is_write {
            "write"
        } else {
            "read"
        };
        out.push(
            gadget::series(
                &text::join2("block.io_latency:", rw),
                "ns",
                "histogram",
                "block_rq_complete",
                Some(dev_str(dev)),
                gadget::bounded_by("device", max_keys),
                latency(&slots, count, hires),
            ),
        );
        out.push(
            gadget::series(
                &text::join2("block.io_bytes:", rw),
                "By",
                "counter",
                "block_rq_complete",
                Some(dev_str(dev)),
                gadget::bounded_by("device", max_keys),
                gadget::counter(moved),
            ),
        );
        assert(json::jsons(out@) =~= json::jsons(was) + entry_series(*e, hires, max_keys, order));
    } else {
        assert(json::jsons(out@) =~= json::jsons(was) + Seq::empty());
    }
}

/// The series of the map.
pub fn series(entries: &Vec<Entry>, hires: bool, max_keys: u64, order: Order) -> (r: Vec<Doc>)
    requires
        forall|i: int| 0 <= i < entries@.len() ==> sound(#[trigger] entries@[i], hires, order),
    ensures
        json::jsons(r@) == block_series(entries@, hires, max_keys, order),
{
    let mut out: Vec<Doc> = Vec::new();
    let mut i: usize = 0;
    assert(entries@.take(0) =~= Seq::empty());
    assert(json::jsons(out@) =~= Seq::empty());
    while i < entries.len()
        invariant
            i <= entries@.len(),
            forall|k: int| 0 <= k < entries@.len() ==> sound(#[trigger] entries@[k], hires, order),
            json::jsons(out@) == block_series(entries@.take(i as int), hires, max_keys, order),
        decreases entries@.len() - i,
    {
        assert(entries@.take(i + 1).drop_last() =~= entries@.take(i as int));
        push_entry(&mut out, &entries[i], hires, max_keys, order);
        assert(json::jsons(out@) =~= block_series(
            entries@.take(i + 1),
            hires,
            max_keys,
            order,
        ));
        i += 1;
    }
    assert(entries@.take(i as int) =~= entries@);
    out
}

/// What the gadget reports.
pub open spec fn report(series: Seq<Json>, issue: Cost, complete: Cost, window_ns: u64) -> Json {
    gadget::fragment_json(
        series,
        seq![
            gadget::cost_json("block_rq_issue"@, "tracepoint"@, issue),
            gadget::cost_json("block_rq_complete"@, "tracepoint"@, complete),
        ],
        json::fields().text("gadget"@, "assayist-capture-block"@).with(
            "window_ns"@,
            Json::Int(window_ns as int),
        ).json(),
    )
}

/// What the gadget reports: its series and what its two probes cost.
pub fn fragment(series: Vec<Doc>, issue: &Cost, complete: &Cost, window_ns: u64) -> (r: Doc)
    ensures
        r@ == report(json::jsons(series@), *issue, *complete, window_ns),
{
    let mut costs: Vec<Doc> = Vec::new();
    costs.push(gadget::probe_cost("block_rq_issue", "tracepoint", issue));
    costs.push(gadget::probe_cost("block_rq_complete", "tracepoint", complete));
    assert(json::jsons(costs@) =~= seq![
        gadget::cost_json("block_rq_issue"@, "tracepoint"@, *issue),
        gadget::cost_json("block_rq_complete"@, "tracepoint"@, *complete),
    ]);
    let meta = Object::new().text("gadget", "assayist-capture-block").with(
        "window_ns",
        json::uint(window_ns),
    );
    gadget::fragment(series, costs, Doc::Object(meta))
}

} // verus!
