//! Taps: the packets, bytes and packet sizes of each watched interface.
use crate::gadget::{self, Cost, Order};
use crate::json::{self, Doc, Json, Object};
use crate::text;
use vstd::prelude::*;

verus! {

pub const SIZE_BUCKETS: usize = 8;

/// The upper edges of all size buckets but the last, which is open.
pub open spec fn size_bounds() -> Seq<u32> {
    seq![64u32, 128, 256, 512, 1024, 1500, 9000]
}

// ---------------------------------------------------------------------------
// Which interfaces are watched
// ---------------------------------------------------------------------------

/// An interface, and its index where the system knows it.
#[derive(Debug)]
pub struct Iface {
    pub name: String,
    pub index: Option<u32>,
}

/// The indices of interfaces that were asked for by name, or which of them is
/// not there.
pub open spec fn indices(ifaces: Seq<Iface>, n: nat) -> Result<Seq<u32>, Seq<char>>
    recommends
        n <= ifaces.len(),
    decreases n,
{
    if n == 0 {
        Ok(Seq::empty())
    } else {
        match indices(ifaces, (n - 1) as nat) {
            Err(e) => Err(e),
            Ok(before) => match ifaces[n - 1].index {
                Some(i) => Ok(before.push(i)),
                None => Err("interface not found: "@ + ifaces[n - 1].name@),
            },
        }
    }
}

proof fn lemma_indices_fail(ifaces: Seq<Iface>, n: nat, m: nat)
    requires
        n <= m <= ifaces.len(),
        indices(ifaces, n) is Err,
    ensures
        indices(ifaces, m) == indices(ifaces, n),
    decreases m - n,
{
    if n < m {
        lemma_indices_fail(ifaces, n, (m - 1) as nat);
    }
}

fn named_ifaces(ifaces: &Vec<Iface>) -> (r: Result<Vec<u32>, String>)
    ensures
        (match r {
            Ok(v) => Ok(v@),
            Err(e) => Err(e@),
        }) == indices(ifaces@, ifaces@.len()),
{
    let mut out: Vec<u32> = Vec::new();
    let mut k: usize = 0;
    while k < ifaces.len()
        invariant
            k <= ifaces@.len(),
            indices(ifaces@, k as nat) == Ok::<Seq<u32>, Seq<char>>(out@),
        decreases ifaces@.len() - k,
    {
        match ifaces[k].index {
            Some(i) => {
                out.push(i);
            },
            None => {
                proof {
                    lemma_indices_fail(ifaces@, (k + 1) as nat, ifaces@.len());
                }
                return Err(text::join2("interface not found: ", &ifaces[k].name));
            },
        }
        k += 1;
    }
    Ok(out)
}

/// Whether a prefix of a list, with the space round it taken off, begins a name.
/// An empty prefix begins none.
pub open spec fn begun_by(name: Seq<char>, prefix: Seq<char>) -> bool {
    let p = text::trimmed(prefix);
    p.len() > 0 && text::has_prefix(name, p)
}

/// Whether one of the first prefixes begins a name.
pub open spec fn begun(name: Seq<char>, prefixes: Seq<Seq<char>>, n: nat) -> bool
    decreases n,
{
    n > 0 && (begun(name, prefixes, (n - 1) as nat) || begun_by(name, prefixes[n - 1]))
}

/// Whether a name begins with one of the prefixes of a list with commas.
pub open spec fn listed(name: Seq<char>, prefix: Seq<char>) -> bool {
    let ps = text::split_of(prefix, ',');
    begun(name, ps, ps.len())
}

fn is_listed(name: &str, prefixes: &Vec<String>) -> (r: bool)
    ensures
        r == begun(name@, text::texts(prefixes@), prefixes@.len()),
{
    let ghost ps = text::texts(prefixes@);
    let mut found: bool = false;
    let mut i: usize = 0;
    while i < prefixes.len()
        invariant
            i <= prefixes@.len(),
            ps == text::texts(prefixes@),
            found == begun(name@, ps, i as nat),
        decreases prefixes@.len() - i,
    {
        let p: String = text::trim(&prefixes[i]);
        let empty: bool = text::same(&p, "");
        proof {
            reveal_strlit("");
            assert(empty == (p@.len() == 0)) by {
                if p@.len() == 0 {
                    assert(p@ =~= ""@);
                }
            }
        }
        if !empty && text::starts_with(name, &p) {
            found = true;
        }
        i += 1;
    }
    found
}

/// The indices of those of the first interfaces that a prefix lists.
pub open spec fn matched(ifaces: Seq<Iface>, prefix: Seq<char>, n: nat) -> Seq<u32>
    decreases n,
{
    if n == 0 {
        Seq::empty()
    } else {
        let before = matched(ifaces, prefix, (n - 1) as nat);
        if listed(ifaces[n - 1].name@, prefix) && ifaces[n - 1].index is Some {
            before.push(ifaces[n - 1].index->0)
        } else {
            before
        }
    }
}

/// The interfaces to watch: those asked for by name where there are any, else
/// those present that a prefix lists.
pub open spec fn targets(asked: Seq<Iface>, prefix: Seq<char>, present: Seq<Iface>) -> Result<
    Seq<u32>,
    Seq<char>,
> {
    if asked.len() > 0 {
        indices(asked, asked.len())
    } else {
        let found = matched(present, prefix, present.len());
        if found.len() == 0 {
            Err("no interfaces matched prefix '"@ + prefix + "'"@)
        } else {
            Ok(found)
        }
    }
}

/// The interfaces to watch.
pub fn target_ifaces(asked: &Vec<Iface>, prefix: &str, present: &Vec<Iface>) -> (r: Result<
    Vec<u32>,
    String,
>)
    ensures
        (match r {
            Ok(v) => Ok(v@),
            Err(e) => Err(e@),
        }) == targets(asked@, prefix@, present@),
{
    if asked.len() > 0 {
        return named_ifaces(asked);
    }
    let prefixes: Vec<String> = text::split(prefix, ',');
    let mut out: Vec<u32> = Vec::new();
    let mut k: usize = 0;
    while k < present.len()
        invariant
            k <= present@.len(),
            text::texts(prefixes@) == text::split_of(prefix@, ','),
            out@ == matched(present@, prefix@, k as nat),
        decreases present@.len() - k,
    {
        assert(prefixes@.len() == text::texts(prefixes@).len());
        if is_listed(&present[k].name, &prefixes) {
            match present[k].index {
                Some(i) => {
                    out.push(i);
                },
                None => {},
            }
        }
        k += 1;
    }
    if out.len() == 0 {
        Err(text::join2(&text::join2("no interfaces matched prefix '", prefix), "'"))
    } else {
        Ok(out)
    }
}

/// What is watched by prefix begins with one of the prefixes.
pub proof fn law_watched_by_prefix_are_listed(ifaces: Seq<Iface>, prefix: Seq<char>, n: nat, k: int)
    requires
        n <= ifaces.len(),
        0 <= k < matched(ifaces, prefix, n).len(),
    ensures
        exists|i: int|
            0 <= i < n && listed((#[trigger] ifaces[i]).name@, prefix) && ifaces[i].index == Some(
                matched(ifaces, prefix, n)[k],
            ),
    decreases n,
{
    if n > 0 {
        let before = matched(ifaces, prefix, (n - 1) as nat);
        if k < before.len() {
            law_watched_by_prefix_are_listed(ifaces, prefix, (n - 1) as nat, k);
        } else {
            let i = n - 1;
            assert(listed(ifaces[i].name@, prefix));
        }
    }
}

/// The name of an interface, or one made of its index where the system has none.
pub fn name_or_index(name: Option<String>, index: u32) -> (r: String)
    ensures
        r@ == (match name {
            Some(n) => n@,
            None => "if"@ + text::decimal(index as nat),
        }),
{
    match name {
        Some(n) => n,
        None => text::join2("if", &text::dec(index as u64)),
    }
}

// ---------------------------------------------------------------------------
// Series
// ---------------------------------------------------------------------------

/// What one direction of an interface carried.
#[derive(Debug)]
pub struct Flow {
    pub packets: u64,
    pub bytes: u64,
    pub sizes: Vec<u32>,
}

/// What one direction carried, with the packet sizes as a sequence.
pub struct Carried {
    pub packets: u64,
    pub bytes: u64,
    pub sizes: Seq<u32>,
}

impl View for Flow {
    type V = Carried;

    open spec fn view(&self) -> Carried {
        Carried { packets: self.packets, bytes: self.bytes, sizes: self.sizes@ }
    }
}

/// What an entry says that was received.
pub open spec fn received(b: Seq<u8>, order: Order) -> Carried {
    Carried {
        packets: gadget::number(b.subrange(0, 8), order) as u64,
        bytes: gadget::number(b.subrange(8, 16), order) as u64,
        sizes: gadget::counts(b.skip(32), SIZE_BUCKETS as nat, order),
    }
}

/// What an entry says that was sent.
pub open spec fn sent(b: Seq<u8>, order: Order) -> Carried {
    Carried {
        packets: gadget::number(b.subrange(16, 24), order) as u64,
        bytes: gadget::number(b.subrange(24, 32), order) as u64,
        sizes: gadget::counts(b.skip(64), SIZE_BUCKETS as nat, order),
    }
}

fn sizes_at(b: &[u8], at: usize, order: Order) -> (r: Vec<u32>)
    requires
        at + 32 <= b@.len(),
    ensures
        r@ == gadget::counts(b@.skip(at as int), SIZE_BUCKETS as nat, order),
{
    let mut out: Vec<u32> = Vec::new();
    let mut i: usize = 0;
    assert(b.len() == b@.len());
    while i < SIZE_BUCKETS
        invariant
            i <= SIZE_BUCKETS,
            at + 32 <= b@.len(),
            b@.len() <= usize::MAX,
            out@ =~= gadget::counts(b@.skip(at as int), i as nat, order),
        decreases SIZE_BUCKETS - i,
    {
        assert(b@.skip(at as int).subrange(4 * i, 4 * i + 4) =~= b@.subrange(
            at + 4 * i,
            at + 4 * i + 4,
        ));
        out.push(gadget::u32_at(b, at + 4 * i, order));
        i += 1;
    }
    out
}

/// Read a value: what was received, and what was sent.
pub fn parse_if_stat(b: &[u8], order: Order) -> (r: (Flow, Flow))
    requires
        b@.len() >= 96,
    ensures
        r.0@ == received(b@, order),
        r.1@ == sent(b@, order),
{
    let rx = Flow {
        packets: gadget::u64_at(b, 0, order),
        bytes: gadget::u64_at(b, 8, order),
        sizes: sizes_at(b, 32, order),
    };
    let tx = Flow {
        packets: gadget::u64_at(b, 16, order),
        bytes: gadget::u64_at(b, 24, order),
        sizes: sizes_at(b, 64, order),
    };
    (rx, tx)
}

/// The data of a packet-size histogram.
pub open spec fn size_data(sizes: Seq<u32>) -> Json {
    json::fields().text("layout"@, "explicit"@).with(
        "explicit_bounds"@,
        gadget::numbers_json(size_bounds()),
    ).with("buckets"@, gadget::numbers_json(sizes)).with(
        "count"@,
        Json::Int(gadget::total(sizes) as int),
    ).json()
}

/// The series of one direction: none where nothing was carried.
pub open spec fn flow_series(dir: Seq<char>, f: Carried, name: Seq<char>, max_keys: u64) -> Seq<
    Json,
> {
    let source = "tap_"@ + dir;
    let card = gadget::bounded("netdev"@, max_keys);
    if f.packets == 0 {
        Seq::empty()
    } else {
        seq![
            gadget::series_json(
                "net.tap_"@ + dir + "_packets"@,
                "1"@,
                "counter"@,
                source,
                Some(name),
                card,
                gadget::counter_data(f.packets as int),
            ),
            gadget::series_json(
                "net.tap_"@ + dir + "_bytes"@,
                "By"@,
                "counter"@,
                source,
                Some(name),
                card,
                gadget::counter_data(f.bytes as int),
            ),
            gadget::series_json(
                "net.tap_"@ + dir + "_packet_size"@,
                "By"@,
                "histogram"@,
                source,
                Some(name),
                card,
                size_data(f.sizes),
            ),
        ]
    }
}

fn sizes_doc(sizes: &Vec<u32>) -> (r: Doc)
    requires
        sizes@.len() <= u32::MAX,
    ensures
        r@ == size_data(sizes@),
{
    let mut edges: Vec<u32> = Vec::new();
    edges.push(64);
    edges.push(128);
    edges.push(256);
    edges.push(512);
    edges.push(1024);
    edges.push(1500);
    edges.push(9000);
    assert(edges@ =~= size_bounds());
    Doc::Object(
        Object::new().text("layout", "explicit").with(
            "explicit_bounds",
            gadget::numbers(&edges),
        ).with("buckets", gadget::numbers(sizes)).with("count", json::uint(gadget::sum(sizes))),
    )
}

fn push_dir(out: &mut Vec<Doc>, dir: &str, f: &Flow, name: &str, max_keys: u64)
    requires
        f.sizes@.len() <= u32::MAX,
    ensures
        json::jsons(final(out)@) == json::jsons(old(out)@) + flow_series(
            dir@,
            f@,
            name@,
            max_keys,
        ),
{
    let ghost was = out@;
    if f.packets == 0 {
        assert(json::jsons(out@) =~= json::jsons(was) + Seq::empty());
        return;
    }
    let source: String = text::join2("tap_", dir);
    let stem: String = text::join2("net.tap_", dir);
    out.push(
        gadget::series(
            &text::join2(&stem, "_packets"),
            "1",
            "counter",
            &source,
            Some(name.to_owned()),
            gadget::bounded_by("netdev", max_keys),
            gadget::counter(f.packets),
        ),
    );
    out.push(
        gadget::series(
            &text::join2(&stem, "_bytes"),
            "By",
            "counter",
            &source,
            Some(name.to_owned()),
            gadget::bounded_by("netdev", max_keys),
            gadget::counter(f.bytes),
        ),
    );
    out.push(
        gadget::series(
            &text::join2(&stem, "_packet_size"),
            "By",
            "histogram",
            &source,
            Some(name.to_owned()),
            gadget::bounded_by("netdev", max_keys),
            sizes_doc(&f.sizes),
        ),
    );
    assert(json::jsons(out@) =~= json::jsons(was) + flow_series(dir@, f@, name@, max_keys));
}

/// An interface's name and the value that the map holds of it.
#[derive(Debug)]
pub struct Tap {
    pub name: String,
    pub value: Vec<u8>,
}

/// The series of an interface: what it received and, where asked, what it sent.
pub open spec fn tap_series(t: Tap, tx: bool, max_keys: u64, order: Order) -> Seq<Json> {
    flow_series("rx"@, received(t.value@, order), t.name@, max_keys) + (if tx {
        flow_series("tx"@, sent(t.value@, order), t.name@, max_keys)
    } else {
        Seq::empty()
    })
}

/// The series of all interfaces.
pub open spec fn net_series(taps: Seq<Tap>, tx: bool, max_keys: u64, order: Order) -> Seq<Json>
    decreases taps.len(),
{
    if taps.len() == 0 {
        Seq::empty()
    } else {
        net_series(taps.drop_last(), tx, max_keys, order) + tap_series(
            taps.last(),
            tx,
            max_keys,
            order,
        )
    }
}

/// The series of all interfaces.
pub fn series(taps: &Vec<Tap>, tx: bool, max_keys: u64, order: Order) -> (r: Vec<Doc>)
    requires
        forall|i: int| 0 <= i < taps@.len() ==> (#[trigger] taps@[i]).value@.len() >= 96,
    ensures
        json::jsons(r@) == net_series(taps@, tx, max_keys, order),
{
    let mut out: Vec<Doc> = Vec::new();
    let mut i: usize = 0;
    assert(taps@.take(0) =~= Seq::empty());
    assert(json::jsons(out@) =~= Seq::empty());
    while i < taps.len()
        invariant
            i <= taps@.len(),
            forall|k: int| 0 <= k < taps@.len() ==> (#[trigger] taps@[k]).value@.len() >= 96,
            json::jsons(out@) == net_series(taps@.take(i as int), tx, max_keys, order),
        decreases taps@.len() - i,
    {
        assert(taps@.take(i + 1).drop_last() =~= taps@.take(i as int));
        let ghost before = json::jsons(out@);
        let t = &taps[i];
        let (received, sent) = parse_if_stat(&t.value, order);
        assert(received.sizes@ == received@.sizes && sent.sizes@ == sent@.sizes);
        push_dir(&mut out, "rx", &received, &t.name, max_keys);
        if tx {
            push_dir(&mut out, "tx", &sent, &t.name, max_keys);
        }
        assert(json::jsons(out@) =~= before + tap_series(*t, tx, max_keys, order));
        i += 1;
    }
    assert(taps@.take(i as int) =~= taps@);
    out
}

/// What the probes cost: one on what is received, and one on what is sent.
pub open spec fn probe_costs(rx: Cost, tx: Option<Cost>) -> Seq<Json> {
    let first = seq![gadget::cost_json("tap_rx"@, "xdp"@, rx)];
    match tx {
        Some(c) => first.push(gadget::cost_json("tap_tx"@, "tc"@, c)),
        None => first,
    }
}

/// What the gadget reports.
pub open spec fn report(
    series: Seq<Json>,
    rx: Cost,
    tx: Option<Cost>,
    window_ns: u64,
    interfaces: Seq<Seq<char>>,
) -> Json {
    gadget::fragment_json(
        series,
        probe_costs(rx, tx),
        json::fields().text("gadget"@, "assayist-capture-net"@).with(
            "window_ns"@,
            Json::Int(window_ns as int),
        ).with("interfaces"@, json::strs(interfaces)).with(
            "tx_enabled"@,
            Json::Bool(tx is Some),
        ).json(),
    )
}

/// What the gadget reports: its series, what its probes cost, and the
/// interfaces that it watched. The cost of the sending side is there exactly
/// where that side was watched.
pub fn fragment(
    series: Vec<Doc>,
    rx: &Cost,
    tx: &Option<Cost>,
    window_ns: u64,
    interfaces: &Vec<String>,
) -> (r: Doc)
    ensures
        r@ == report(json::jsons(series@), *rx, *tx, window_ns, text::texts(interfaces@)),
{
    let mut costs: Vec<Doc> = Vec::new();
    costs.push(gadget::probe_cost("tap_rx", "xdp", rx));
    let enabled: bool = match tx {
        Some(c) => {
            costs.push(gadget::probe_cost("tap_tx", "tc", c));
            true
        },
        None => false,
    };
    assert(json::jsons(costs@) =~= probe_costs(*rx, *tx));
    let meta = Object::new().text("gadget", "assayist-capture-net").with(
        "window_ns",
        json::uint(window_ns),
    ).with("interfaces", json::strings(interfaces)).with("tx_enabled", Doc::Bool(enabled));
    gadget::fragment(series, costs, Doc::Object(meta))
}

} // verus!
