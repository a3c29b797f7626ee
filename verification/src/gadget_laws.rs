//! What the gadgets tell of the entries that they read.
use crate::block;
use crate::ctrlplane;
use crate::gadget::{self, Cost, Entry, Order};
use crate::json::{self, Json};
use crate::kvm::{self, Keying};
use crate::net::{self, Tap};
use crate::text;
use vstd::prelude::*;

verus! {

broadcast use json::law_lookup_put;

// ---------------------------------------------------------------------------
// Documents
// ---------------------------------------------------------------------------

/// Whether a document is a series of a name, a unit, a kind and a source, with a key or
/// without.
pub open spec fn is_series(
    s: Json,
    name: Seq<char>,
    unit: Seq<char>,
    kind: Seq<char>,
    source: Seq<char>,
    key: Option<Seq<char>>,
) -> bool {
    &&& json::str_field(s, "name"@) == Some(name)
    &&& json::str_field(s, "unit"@) == Some(unit)
    &&& json::str_field(s, "kind"@) == Some(kind)
    &&& json::str_field(s, "source"@) == Some(source)
    &&& json::str_field(s, "key"@) == key
}

proof fn lemma_series(
    name: Seq<char>,
    unit: Seq<char>,
    kind: Seq<char>,
    source: Seq<char>,
    key: Option<Seq<char>>,
    card: Json,
    data: Json,
)
    ensures
        ({
            let s = gadget::series_json(name, unit, kind, source, key, card, data);
            &&& is_series(s, name, unit, kind, source, key)
            &&& json::member(s, "cardinality"@) == card
            &&& json::member(s, "data"@) == data
        }),
{
    reveal_strlit("name");
    reveal_strlit("unit");
    reveal_strlit("kind");
    reveal_strlit("source");
    reveal_strlit("key");
    reveal_strlit("cardinality");
    reveal_strlit("data");
    assert("name"@[0] == 'n' && "unit"@[0] == 'u' && "kind"@[0] == 'k' && "source"@[0] == 's');
    assert("key"@[0] == 'k' && "cardinality"@[0] == 'c' && "data"@[0] == 'd');
    assert("kind"@.len() == 4 && "key"@.len() == 3);
}

proof fn lemma_data(slots: Seq<u32>, n: int)
    ensures
        json::str_field(gadget::log2_data(slots, n), "layout"@) == Some("log2"@),
        json::member(gadget::log2_data(slots, n), "buckets"@) == gadget::numbers_json(slots),
        json::member(gadget::log2_data(slots, n), "count"@) == Json::Int(n),
        json::member(gadget::counter_data(n), "value"@) == Json::Int(n),
        json::str_field(net::size_data(slots), "layout"@) == Some("explicit"@),
        json::member(net::size_data(slots), "buckets"@) == gadget::numbers_json(slots),
        json::member(net::size_data(slots), "explicit_bounds"@) == gadget::numbers_json(
            net::size_bounds(),
        ),
        json::member(net::size_data(slots), "count"@) == Json::Int(gadget::total(slots) as int),
        json::str_field(block::latency_data(slots, true), "layout"@) == Some("explicit"@),
        json::member(block::latency_data(slots, true), "buckets"@) == gadget::numbers_json(slots),
        json::member(block::latency_data(slots, true), "count"@) == Json::Int(
            gadget::total(slots) as int,
        ),
{
    reveal_strlit("layout");
    reveal_strlit("buckets");
    reveal_strlit("count");
    reveal_strlit("value");
    reveal_strlit("start_unix_nano");
    reveal_strlit("explicit_bounds");
    assert("layout"@[0] == 'l' && "buckets"@[0] == 'b' && "count"@[0] == 'c');
    assert("value"@[0] == 'v' && "start_unix_nano"@[0] == 's' && "explicit_bounds"@[0] == 'e');
}

/// The record of a probe's cost says which probe it is, how long and how often it ran,
/// its share of a core and whether that is over budget.
pub proof fn law_costs_are_told(probe: Seq<char>, attach: Seq<char>, c: Cost)
    ensures
        ({
            let d = gadget::cost_json(probe, attach, c);
            &&& json::str_field(d, "probe_id"@) == Some(probe)
            &&& json::str_field(d, "attach_kind"@) == Some(attach)
            &&& json::member(d, "run_time_ns"@) == Json::Int(c.run_time_ns as int)
            &&& json::member(d, "run_cnt"@) == Json::Int(c.run_cnt as int)
            &&& json::member(d, "mean_ns"@) == Json::Float(c.mean_ns@)
            &&& json::member(d, "steady_cpu_fraction"@) == Json::Float(c.steady_cpu_fraction@)
            &&& json::member(d, "over_budget"@) == Json::Bool(c.over_budget)
        }),
{
    reveal_strlit("probe_id");
    reveal_strlit("attach_kind");
    reveal_strlit("run_time_ns");
    reveal_strlit("run_cnt");
    reveal_strlit("mean_ns");
    reveal_strlit("steady_cpu_fraction");
    reveal_strlit("over_budget");
    reveal_strlit("hot_path");
    assert("probe_id"@[0] == 'p' && "attach_kind"@[0] == 'a' && "mean_ns"@[0] == 'm');
    assert("run_time_ns"@.len() == 11 && "run_cnt"@.len() == 7 && "run_cnt"@[0] == 'r');
    assert("run_time_ns"@[0] == 'r' && "steady_cpu_fraction"@[0] == 's');
    assert("over_budget"@[0] == 'o' && "hot_path"@[0] == 'h');
}

/// A gadget's report has its series, what its probes cost and what it says of itself.
pub proof fn law_reports_have_their_parts(series: Seq<Json>, costs: Seq<Json>, meta: Json)
    ensures
        ({
            let d = gadget::fragment_json(series, costs, meta);
            &&& json::items(d, "series"@) == series
            &&& json::items(d, "self_metrics"@) == costs
            &&& json::member(d, "capture_meta"@) == meta
        }),
{
    reveal_strlit("series");
    reveal_strlit("self_metrics");
    reveal_strlit("capture_meta");
    assert("series"@.len() == 6 && "self_metrics"@.len() == 12 && "capture_meta"@.len() == 12);
    assert("self_metrics"@[0] == 's' && "capture_meta"@[0] == 'c');
}

/// Counts add up to nothing exactly where each of them is zero, and one more adds
/// itself.
pub proof fn law_counts_add_up(s: Seq<u32>, x: u32)
    ensures
        gadget::total(s.push(x)) == gadget::total(s) + x,
        gadget::total(s) == 0 <==> forall|i: int| 0 <= i < s.len() ==> #[trigger] s[i] == 0,
    decreases s.len(),
{
    assert(s.push(x).drop_last() =~= s);
    if s.len() > 0 {
        let less = s.drop_last();
        law_counts_add_up(less, x);
        assert(s[s.len() - 1] == s.last());
        if gadget::total(s) == 0 {
            assert forall|i: int| 0 <= i < s.len() implies #[trigger] s[i] == 0 by {
                if i < less.len() {
                    assert(less[i] == s[i]);
                }
            }
        }
        if forall|i: int| 0 <= i < s.len() ==> #[trigger] s[i] == 0 {
            assert forall|i: int| 0 <= i < less.len() implies #[trigger] less[i] == 0 by {
                assert(less[i] == s[i]);
            }
        }
    }
}

// ---------------------------------------------------------------------------
// Block devices
// ---------------------------------------------------------------------------

proof fn lemma_block_at(entries: Seq<Entry>, hires: bool, max_keys: u64, order: Order, i: int, k: int)
    requires
        0 <= i < entries.len(),
        gadget::total(block::slots_of(entries[i], order)) > 0,
        0 <= k < 2,
    ensures
        block::block_series(entries, hires, max_keys, order).contains(
            block::entry_series(entries[i], hires, max_keys, order)[k],
        ),
    decreases entries.len(),
{
    let x = block::entry_series(entries[i], hires, max_keys, order)[k];
    let less = entries.drop_last();
    let before = block::block_series(less, hires, max_keys, order);
    let all = block::block_series(entries, hires, max_keys, order);
    if i < less.len() {
        lemma_block_at(less, hires, max_keys, order, i, k);
        let at = before.index_of(x);
        assert(all[at] == x);
    } else {
        assert(all[before.len() + k] == x);
    }
}

/// Every entry of the map of block requests that counted any is told as two series of
/// its device, apart for reads and writes: the latencies of the requests, with a count
/// for each, and the bytes that they moved.
pub proof fn law_block_requests_are_told(
    entries: Seq<Entry>,
    hires: bool,
    max_keys: u64,
    order: Order,
    i: int,
) -> (s: (Json, Json))
    requires
        0 <= i < entries.len(),
        gadget::total(block::slots_of(entries[i], order)) > 0,
    ensures
        ({
            let e = entries[i];
            let slots = gadget::counts(e.value@, 160, order);
            let dev = gadget::number(e.key@.subrange(0, 4), order) as u32;
            let key = text::decimal((dev / 0x10_0000) as nat) + ":"@ + text::decimal(
                (dev % 0x10_0000) as nat,
            );
            let way = if e.key@[4] == 0 {
                "read"@
            } else {
                "write"@
            };
            &&& block::block_series(entries, hires, max_keys, order).contains(s.0)
            &&& block::block_series(entries, hires, max_keys, order).contains(s.1)
            &&& is_series(
                s.0,
                "block.io_latency:"@ + way,
                "ns"@,
                "histogram"@,
                "block_rq_complete"@,
                Some(key),
            )
            &&& json::member(json::member(s.0, "data"@), "count"@) == Json::Int(
                gadget::total(slots) as int,
            )
            &&& hires ==> json::member(json::member(s.0, "data"@), "buckets"@)
                == gadget::numbers_json(slots)
            &&& !hires ==> json::member(json::member(s.0, "data"@), "buckets"@)
                == gadget::numbers_json(
                Seq::new(
                    40,
                    |o: int|
                        (slots[4 * o] + slots[4 * o + 1] + slots[4 * o + 2] + slots[4 * o + 3]) as u32,
                ),
            )
            &&& is_series(
                s.1,
                "block.io_bytes:"@ + way,
                "By"@,
                "counter"@,
                "block_rq_complete"@,
                Some(key),
            )
            &&& json::member(json::member(s.1, "data"@), "value"@) == Json::Int(
                gadget::number(e.value@.subrange(640, 648), order) as int,
            )
        }),
{
    let e = entries[i];
    let pair = block::entry_series(e, hires, max_keys, order);
    let slots = block::slots_of(e, order);
    let dev = block::device(gadget::number(e.key@.subrange(0, 4), order) as u32);
    let way = if e.key@[4] != 0 {
        "write"@
    } else {
        "read"@
    };
    let card = gadget::bounded("device"@, max_keys);
    lemma_block_at(entries, hires, max_keys, order, i, 0);
    lemma_block_at(entries, hires, max_keys, order, i, 1);
    let moved = gadget::number(e.value@.subrange(640, 648), order) as int;
    lemma_series(
        "block.io_latency:"@ + way,
        "ns"@,
        "histogram"@,
        "block_rq_complete"@,
        Some(dev),
        card,
        block::latency_data(slots, hires),
    );
    lemma_series(
        "block.io_bytes:"@ + way,
        "By"@,
        "counter"@,
        "block_rq_complete"@,
        Some(dev),
        card,
        gadget::counter_data(moved),
    );
    lemma_data(slots, moved);
    lemma_data(block::collapsed(slots), gadget::total(slots) as int);
    assert(block::collapsed(slots) =~= Seq::new(
        40,
        |o: int| (slots[4 * o] + slots[4 * o + 1] + slots[4 * o + 2] + slots[4 * o + 3]) as u32,
    ));
    (pair[0], pair[1])
}

// ---------------------------------------------------------------------------
// Exits of virtual machines
// ---------------------------------------------------------------------------

proof fn lemma_kvm_at(entries: Seq<Entry>, vendor: Seq<char>, k: Keying, order: Order, i: int)
    requires
        0 <= i < entries.len(),
        gadget::total(kvm::slots_of(entries[i], order)) > 0,
    ensures
        kvm::kvm_series(entries, vendor, k, order).contains(
            kvm::entry_series(entries[i], vendor, k, order),
        ),
    decreases entries.len(),
{
    let x = kvm::entry_series(entries[i], vendor, k, order);
    let less = entries.drop_last();
    let before = kvm::kvm_series(less, vendor, k, order);
    let all = kvm::kvm_series(entries, vendor, k, order);
    if i < less.len() {
        lemma_kvm_at(less, vendor, k, order, i);
        let at = before.index_of(x);
        assert(all[at] == x);
    } else {
        assert(all[before.len() as int] == x);
    }
}

/// Every entry of the map of exits that counted any is told as a series of its reason:
/// how long the exits took, with a count for each. Where guests are told apart it has
/// the guest's control group as its key, and otherwise no key.
pub proof fn law_exits_are_told(
    entries: Seq<Entry>,
    vendor: Seq<char>,
    k: Keying,
    order: Order,
    i: int,
) -> (s: Json)
    requires
        0 <= i < entries.len(),
        gadget::total(kvm::slots_of(entries[i], order)) > 0,
    ensures
        ({
            let e = entries[i];
            let slots = gadget::counts(e.value@, 40, order);
            &&& kvm::kvm_series(entries, vendor, k, order).contains(s)
            &&& is_series(
                s,
                "kvm.exit_handling_latency:"@ + kvm::reason(
                    vendor,
                    gadget::number(e.key@.subrange(8, 12), order) as u32,
                ),
                "ns"@,
                "histogram"@,
                "kvm_exit"@,
                if k.per_guest {
                    Some(text::decimal(gadget::number(e.key@.subrange(0, 8), order)))
                } else {
                    None
                },
            )
            &&& json::member(json::member(s, "data"@), "buckets"@) == gadget::numbers_json(slots)
            &&& json::member(json::member(s, "data"@), "count"@) == Json::Int(
                gadget::total(slots) as int,
            )
        }),
{
    let e = entries[i];
    let slots = kvm::slots_of(e, order);
    let s = kvm::entry_series(e, vendor, k, order);
    lemma_kvm_at(entries, vendor, k, order, i);
    lemma_data(slots, gadget::total(slots) as int);
    lemma_series(
        "kvm.exit_handling_latency:"@ + kvm::reason(
            vendor,
            gadget::number(e.key@.subrange(8, 12), order) as u32,
        ),
        "ns"@,
        "histogram"@,
        "kvm_exit"@,
        if k.per_guest {
            Some(text::decimal(gadget::number(e.key@.subrange(0, 8), order)))
        } else {
            None
        },
        if k.per_guest {
            gadget::bounded("cgroup_id"@, k.max_keys)
        } else {
            json::fields().text("class"@, "singleton"@).json()
        },
        gadget::log2_data(slots, gadget::total(slots) as int),
    );
    s
}

/// A report of exits warns that keys may be missing exactly where the map is full.
pub proof fn law_full_maps_are_flagged(
    series: Seq<Json>,
    exit: Cost,
    entry: Cost,
    window_ns: u64,
    vendor: Seq<char>,
    per_guest: bool,
    live_keys: u64,
    max_entries: u64,
)
    ensures
        ({
            let d = kvm::report(
                series,
                exit,
                entry,
                window_ns,
                vendor,
                per_guest,
                live_keys,
                max_entries,
            );
            let meta = json::member(d, "capture_meta"@);
            &&& json::items(d, "series"@) == series
            &&& json::items(d, "self_metrics"@).len() == 2
            &&& json::member(meta, "window_ns"@) == Json::Int(window_ns as int)
            &&& json::member(meta, "cardinality_overflow"@) == Json::Bool(true) <==> live_keys
                >= max_entries
        }),
{
    reveal_strlit("gadget");
    reveal_strlit("window_ns");
    reveal_strlit("cpu_vendor");
    reveal_strlit("per_guest");
    reveal_strlit("cardinality_overflow");
    assert("gadget"@[0] == 'g' && "window_ns"@[0] == 'w' && "per_guest"@[0] == 'p');
    assert("cpu_vendor"@.len() == 10 && "cardinality_overflow"@.len() == 20);
    assert("cpu_vendor"@[0] == 'c' && "cardinality_overflow"@[0] == 'c');
    law_reports_have_their_parts(
        series,
        seq![
            gadget::cost_json("kvm_exit"@, "tracepoint"@, exit),
            gadget::cost_json("kvm_entry"@, "tracepoint"@, entry),
        ],
        json::fields().text("gadget"@, "assayist-capture-kvm"@).with(
            "window_ns"@,
            Json::Int(window_ns as int),
        ).text("cpu_vendor"@, vendor).with("per_guest"@, Json::Bool(per_guest)).with(
            "cardinality_overflow"@,
            Json::Bool(live_keys >= max_entries),
        ).json(),
    );
}

// ---------------------------------------------------------------------------
// Taps
// ---------------------------------------------------------------------------

proof fn lemma_net_at(taps: Seq<Tap>, tx: bool, max_keys: u64, order: Order, i: int, k: int)
    requires
        0 <= i < taps.len(),
        0 <= k < net::tap_series(taps[i], tx, max_keys, order).len(),
    ensures
        net::net_series(taps, tx, max_keys, order).contains(
            net::tap_series(taps[i], tx, max_keys, order)[k],
        ),
    decreases taps.len(),
{
    let x = net::tap_series(taps[i], tx, max_keys, order)[k];
    let less = taps.drop_last();
    let before = net::net_series(less, tx, max_keys, order);
    let all = net::net_series(taps, tx, max_keys, order);
    if i < less.len() {
        lemma_net_at(less, tx, max_keys, order, i, k);
        let at = before.index_of(x);
        assert(all[at] == x);
    } else {
        assert(all[before.len() + k] == x);
    }
}

proof fn lemma_flow(dir: Seq<char>, f: net::Carried, name: Seq<char>, max_keys: u64)
    requires
        f.packets > 0,
    ensures
        ({
            let s = net::flow_series(dir, f, name, max_keys);
            &&& s.len() == 3
            &&& is_series(
                s[0],
                "net.tap_"@ + dir + "_packets"@,
                "1"@,
                "counter"@,
                "tap_"@ + dir,
                Some(name),
            )
            &&& json::member(json::member(s[0], "data"@), "value"@) == Json::Int(f.packets as int)
            &&& is_series(
                s[1],
                "net.tap_"@ + dir + "_bytes"@,
                "By"@,
                "counter"@,
                "tap_"@ + dir,
                Some(name),
            )
            &&& json::member(json::member(s[1], "data"@), "value"@) == Json::Int(f.bytes as int)
            &&& is_series(
                s[2],
                "net.tap_"@ + dir + "_packet_size"@,
                "By"@,
                "histogram"@,
                "tap_"@ + dir,
                Some(name),
            )
            &&& json::member(json::member(s[2], "data"@), "buckets"@) == gadget::numbers_json(
                f.sizes,
            )
        }),
{
    let source = "tap_"@ + dir;
    let card = gadget::bounded("netdev"@, max_keys);
    lemma_series(
        "net.tap_"@ + dir + "_packets"@,
        "1"@,
        "counter"@,
        source,
        Some(name),
        card,
        gadget::counter_data(f.packets as int),
    );
    lemma_series(
        "net.tap_"@ + dir + "_bytes"@,
        "By"@,
        "counter"@,
        source,
        Some(name),
        card,
        gadget::counter_data(f.bytes as int),
    );
    lemma_series(
        "net.tap_"@ + dir + "_packet_size"@,
        "By"@,
        "histogram"@,
        source,
        Some(name),
        card,
        net::size_data(f.sizes),
    );
    lemma_data(f.sizes, f.packets as int);
    lemma_data(f.sizes, f.bytes as int);
}

/// Where a tap received anything, the packets and the bytes that it received are told
/// under its name, from the first two numbers of its entry.
pub proof fn law_received_packets_are_told(
    taps: Seq<Tap>,
    tx: bool,
    max_keys: u64,
    order: Order,
    i: int,
) -> (s: (Json, Json))
    requires
        0 <= i < taps.len(),
        gadget::number(taps[i].value@.subrange(0, 8), order) as u64 > 0,
    ensures
        net::net_series(taps, tx, max_keys, order).contains(s.0),
        net::net_series(taps, tx, max_keys, order).contains(s.1),
        is_series(
            s.0,
            "net.tap_"@ + "rx"@ + "_packets"@,
            "1"@,
            "counter"@,
            "tap_"@ + "rx"@,
            Some(taps[i].name@),
        ),
        json::member(json::member(s.0, "data"@), "value"@) == Json::Int(
            gadget::number(taps[i].value@.subrange(0, 8), order) as u64 as int,
        ),
        is_series(
            s.1,
            "net.tap_"@ + "rx"@ + "_bytes"@,
            "By"@,
            "counter"@,
            "tap_"@ + "rx"@,
            Some(taps[i].name@),
        ),
        json::member(json::member(s.1, "data"@), "value"@) == Json::Int(
            gadget::number(taps[i].value@.subrange(8, 16), order) as u64 as int,
        ),
{
    let f = net::received(taps[i].value@, order);
    let rx = net::flow_series("rx"@, f, taps[i].name@, max_keys);
    lemma_flow("rx"@, f, taps[i].name@, max_keys);
    let all = net::tap_series(taps[i], tx, max_keys, order);
    assert(all[0] == rx[0] && all[1] == rx[1]);
    lemma_net_at(taps, tx, max_keys, order, i, 0);
    lemma_net_at(taps, tx, max_keys, order, i, 1);
    (rx[0], rx[1])
}

/// Where the sending side is watched and a tap sent anything, the packets and the bytes
/// that it sent are told under its name, from the next two numbers of its entry.
pub proof fn law_sent_packets_are_told(
    taps: Seq<Tap>,
    max_keys: u64,
    order: Order,
    i: int,
) -> (s: (Json, Json))
    requires
        0 <= i < taps.len(),
        gadget::number(taps[i].value@.subrange(16, 24), order) as u64 > 0,
    ensures
        net::net_series(taps, true, max_keys, order).contains(s.0),
        net::net_series(taps, true, max_keys, order).contains(s.1),
        is_series(
            s.0,
            "net.tap_"@ + "tx"@ + "_packets"@,
            "1"@,
            "counter"@,
            "tap_"@ + "tx"@,
            Some(taps[i].name@),
        ),
        json::member(json::member(s.0, "data"@), "value"@) == Json::Int(
            gadget::number(taps[i].value@.subrange(16, 24), order) as u64 as int,
        ),
        is_series(
            s.1,
            "net.tap_"@ + "tx"@ + "_bytes"@,
            "By"@,
            "counter"@,
            "tap_"@ + "tx"@,
            Some(taps[i].name@),
        ),
        json::member(json::member(s.1, "data"@), "value"@) == Json::Int(
            gadget::number(taps[i].value@.subrange(24, 32), order) as u64 as int,
        ),
{
    let f = net::sent(taps[i].value@, order);
    let tx = net::flow_series("tx"@, f, taps[i].name@, max_keys);
    let rx = net::flow_series("rx"@, net::received(taps[i].value@, order), taps[i].name@, max_keys);
    lemma_flow("tx"@, f, taps[i].name@, max_keys);
    let all = net::tap_series(taps[i], true, max_keys, order);
    let n = rx.len() as int;
    assert(all[n] == tx[0] && all[n + 1] == tx[1]);
    lemma_net_at(taps, true, max_keys, order, i, n);
    lemma_net_at(taps, true, max_keys, order, i, n + 1);
    (tx[0], tx[1])
}

// ---------------------------------------------------------------------------
// Control groups
// ---------------------------------------------------------------------------

/// The processor time of each control group is told under its name.
pub proof fn law_processor_times_are_told(
    entries: Seq<Entry>,
    names: Seq<(u64, Seq<char>)>,
    max_keys: u64,
    order: Order,
    i: int,
)
    requires
        0 <= i < entries.len(),
    ensures
        ({
            let all = ctrlplane::times(entries, names, max_keys, order);
            let group = gadget::number(entries[i].key@.subrange(0, 8), order) as u64;
            &&& all.len() == entries.len()
            &&& is_series(
                all[i],
                "sched.on_cpu_ns"@,
                "ns"@,
                "counter"@,
                "sched_switch"@,
                Some(ctrlplane::name_of(names, group)),
            )
            &&& json::member(json::member(all[i], "data"@), "value"@) == Json::Int(
                gadget::number(entries[i].value@.subrange(0, 8), order) as int,
            )
        }),
{
    let e = entries[i];
    let n = gadget::number(e.value@.subrange(0, 8), order) as int;
    lemma_data(Seq::empty(), n);
    lemma_series(
        "sched.on_cpu_ns"@,
        "ns"@,
        "counter"@,
        "sched_switch"@,
        Some(ctrlplane::name_of(names, ctrlplane::group_in(e.key@, order))),
        gadget::bounded("cgroup_id"@, max_keys),
        gadget::counter_data(n),
    );
}

proof fn lemma_latency_at(
    entries: Seq<Entry>,
    names: Seq<(u64, Seq<char>)>,
    max_keys: u64,
    order: Order,
    i: int,
)
    requires
        0 <= i < entries.len(),
        gadget::total(kvm::slots_of(entries[i], order)) > 0,
    ensures
        ctrlplane::latencies(entries, names, max_keys, order).contains(
            ctrlplane::latency_series(entries[i], names, max_keys, order),
        ),
    decreases entries.len(),
{
    let x = ctrlplane::latency_series(entries[i], names, max_keys, order);
    let less = entries.drop_last();
    let before = ctrlplane::latencies(less, names, max_keys, order);
    let all = ctrlplane::latencies(entries, names, max_keys, order);
    if i < less.len() {
        lemma_latency_at(less, names, max_keys, order, i);
        let at = before.index_of(x);
        assert(all[at] == x);
    } else {
        assert(all[before.len() as int] == x);
    }
}

/// The run-queue latency of each control group that was scheduled is told under its
/// name, with a count for each time that it was.
pub proof fn law_runqueue_latencies_are_told(
    entries: Seq<Entry>,
    names: Seq<(u64, Seq<char>)>,
    max_keys: u64,
    order: Order,
    i: int,
) -> (s: Json)
    requires
        0 <= i < entries.len(),
        gadget::total(kvm::slots_of(entries[i], order)) > 0,
    ensures
        ({
            let slots = gadget::counts(entries[i].value@, 40, order);
            let group = gadget::number(entries[i].key@.subrange(0, 8), order) as u64;
            &&& ctrlplane::latencies(entries, names, max_keys, order).contains(s)
            &&& is_series(
                s,
                "sched.runqueue_latency"@,
                "ns"@,
                "histogram"@,
                "sched_switch"@,
                Some(ctrlplane::name_of(names, group)),
            )
            &&& json::member(json::member(s, "data"@), "buckets"@) == gadget::numbers_json(slots)
            &&& json::member(json::member(s, "data"@), "count"@) == Json::Int(
                gadget::total(slots) as int,
            )
        }),
{
    let e = entries[i];
    let slots = kvm::slots_of(e, order);
    lemma_latency_at(entries, names, max_keys, order, i);
    lemma_data(slots, gadget::total(slots) as int);
    lemma_series(
        "sched.runqueue_latency"@,
        "ns"@,
        "histogram"@,
        "sched_switch"@,
        Some(ctrlplane::name_of(names, ctrlplane::group_in(e.key@, order))),
        gadget::bounded("cgroup_id"@, max_keys),
        gadget::log2_data(slots, gadget::total(slots) as int),
    );
    ctrlplane::latency_series(e, names, max_keys, order)
}

} // verus!
