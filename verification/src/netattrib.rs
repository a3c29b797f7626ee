//! Per-VM attribution: dense handles, provenance, the control channel to the
//! owner of the attribution map, and the rewrite of handles to VM ids.
//!
//! Kernel maps and fragments carry a dense handle, which is cheap as a map value
//! and as a label. The id that describes itself appears in the assembled run.
use crate::adapter;
use crate::contract::{self, Fragment, Piece};
use crate::digest;
use crate::json::{self, Json, Object, Doc};
use crate::text;
use vstd::prelude::*;

verus! {

/// Lifecycle states, as the shared map has them.
pub const LIFECYCLE_RUNNING: u8 = 0;

pub const LIFECYCLE_PAUSING: u8 = 1;

pub const LIFECYCLE_PAUSED: u8 = 2;

pub const LIFECYCLE_RESUMING: u8 = 3;

/// What is known of one attributed VM.
#[derive(Debug)]
pub struct VmProvenance {
    pub handle: u64,
    pub vm_id: String,
    pub tap: String,
    pub guest_mac: String,
    pub ifindex: u32,
    pub netns_inum: u32,
}

/// A `VmProvenance` as a mathematical value.
pub struct Vm {
    pub handle: u64,
    pub vm_id: Seq<char>,
    pub tap: Seq<char>,
    pub guest_mac: Seq<char>,
    pub ifindex: u32,
    pub netns_inum: u32,
}

impl View for VmProvenance {
    type V = Vm;

    open spec fn view(&self) -> Vm {
        Vm {
            handle: self.handle,
            vm_id: self.vm_id@,
            tap: self.tap@,
            guest_mac: self.guest_mac@,
            ifindex: self.ifindex,
            netns_inum: self.netns_inum,
        }
    }
}

// ---------------------------------------------------------------------------
// Guest addresses
// ---------------------------------------------------------------------------

/// A byte as two hexadecimal digits.
pub open spec fn hex_byte(b: int) -> Seq<char> {
    seq![json::hex_digit(b / 16), json::hex_digit(b % 16)]
}

/// The guest MAC of a handle: locally administered, the last two bytes being
/// the low 16 bits of the handle.
pub open spec fn guest_mac(handle: u64) -> Seq<char> {
    "02:00:00:00:"@ + hex_byte(handle as int / 256 % 256) + ":"@ + hex_byte(handle as int % 256)
}

fn hex2(b: u8) -> (r: String)
    ensures
        r@ == hex_byte(b as int),
{
    let mut v: Vec<u8> = Vec::new();
    v.push(b);
    let r = digest::hex(&v, 1);
    assert(v@.take(1) =~= seq![b]);
    assert(r@ =~= hex_byte(b as int));
    r
}

/// The guest MAC of a handle.
pub fn guest_mac_for(handle: u64) -> (r: String)
    ensures
        r@ == guest_mac(handle),
{
    let hi: u8 = (handle / 256 % 256) as u8;
    let lo: u8 = (handle % 256) as u8;
    let mut s = text::join2("02:00:00:00:", &hex2(hi));
    s.append(":");
    s.append(&hex2(lo));
    s
}

/// Handles that differ in their low 16 bits have different guest MACs.
pub proof fn law_guest_macs_differ(a: u64, b: u64)
    requires
        a % 65536 != b % 65536,
    ensures
        guest_mac(a) != guest_mac(b),
{
    reveal_strlit("02:00:00:00:");
    reveal_strlit(":");
    let x = guest_mac(a);
    let y = guest_mac(b);
    if x == y {
        assert(x[12] == y[12] && x[13] == y[13] && x[15] == y[15] && x[16] == y[16]);
        lemma_hex_digit(a as int / 256 % 256 / 16, b as int / 256 % 256 / 16);
        lemma_hex_digit(a as int / 256 % 256 % 16, b as int / 256 % 256 % 16);
        lemma_hex_digit(a as int % 256 / 16, b as int % 256 / 16);
        lemma_hex_digit(a as int % 256 % 16, b as int % 256 % 16);
        assert(a as int / 256 % 256 == b as int / 256 % 256);
        assert(a as int % 256 == b as int % 256);
        assert(a as int % 65536 == a as int / 256 % 256 * 256 + a as int % 256);
        assert(b as int % 65536 == b as int / 256 % 256 * 256 + b as int % 256);
    }
}

proof fn lemma_hex_digit(a: int, b: int)
    requires
        0 <= a < 16,
        0 <= b < 16,
        json::hex_digit(a) == json::hex_digit(b),
    ensures
        a == b,
{
}

// ---------------------------------------------------------------------------
// Handles
// ---------------------------------------------------------------------------

/// The VMs of a run by handle. Handles count up from zero and are never handed
/// out twice, whether a registration went through or not.
#[derive(Debug)]
pub struct HandleTable {
    rows: Vec<VmProvenance>,
    next: u64,
}

pub open spec fn vms(s: Seq<VmProvenance>) -> Seq<Vm> {
    s.map_values(|p: VmProvenance| p@)
}

/// Whether handles are in ascending order and below `next`.
pub open spec fn ascending(rows: Seq<Vm>, next: u64) -> bool {
    &&& forall|i: int| 0 <= i < rows.len() ==> (#[trigger] rows[i]).handle < next
    &&& forall|i: int, j: int|
        0 <= i < j < rows.len() ==> (#[trigger] rows[i]).handle < (#[trigger] rows[j]).handle
}

/// The VM of a handle, among those from `from` on.
pub open spec fn vm_of(rows: Seq<Vm>, handle: u64, from: nat) -> Option<Vm>
    decreases rows.len() - from,
{
    if from >= rows.len() {
        None
    } else if rows[from as int].handle == handle {
        Some(rows[from as int])
    } else {
        vm_of(rows, handle, from + 1)
    }
}

/// One VM as provenance.
pub open spec fn provenance_row(v: Vm) -> Json {
    json::fields().with("handle"@, Json::Int(v.handle as int)).text("vm_id"@, v.vm_id).text(
        "tap"@,
        v.tap,
    ).text("guest_mac"@, v.guest_mac).with("ifindex"@, Json::Int(v.ifindex as int)).with(
        "netns_inum"@,
        Json::Int(v.netns_inum as int),
    ).json()
}

impl HandleTable {
    /// The VMs, in the order of their handles.
    pub closed spec fn rows(&self) -> Seq<Vm> {
        vms(self.rows@)
    }

    /// The handle that is handed out next.
    pub closed spec fn next(&self) -> u64 {
        self.next
    }

    pub open spec fn wf(&self) -> bool {
        ascending(self.rows(), self.next())
    }

    pub fn new() -> (r: HandleTable)
        ensures
            r.wf(),
            r.rows() == Seq::<Vm>::empty(),
            r.next() == 0,
    {
        let r = HandleTable { rows: Vec::new(), next: 0 };
        assert(r.rows() =~= Seq::empty());
        r
    }

    /// Reserve the next handle without recording a VM for it. The handle is
    /// spent even where no VM is ever recorded.
    pub fn reserve(&mut self) -> (r: u64)
        requires
            old(self).wf(),
            old(self).next() < u64::MAX,
        ensures
            final(self).wf(),
            r == old(self).next(),
            final(self).next() == r + 1,
            final(self).rows() == old(self).rows(),
    {
        let handle: u64 = self.next;
        self.next = handle + 1;
        handle
    }

    /// Record a VM for the handle that was reserved last.
    fn insert(&mut self, p: VmProvenance)
        requires
            old(self).wf(),
            p.handle < old(self).next(),
            forall|i: int| 0 <= i < old(self).rows().len() ==> (#[trigger] old(self).rows()[i]).handle < p.handle,
        ensures
            final(self).wf(),
            final(self).next() == old(self).next(),
            final(self).rows() == old(self).rows().push(p@),
    {
        let ghost was = self.rows@;
        self.rows.push(p);
        assert(vms(self.rows@) =~= vms(was).push(p@));
    }

    pub fn assign(
        &mut self,
        vm_id: String,
        tap: String,
        guest_mac: String,
        ifindex: u32,
        netns_inum: u32,
    ) -> (r: u64)
        requires
            old(self).wf(),
            old(self).next() < u64::MAX,
        ensures
            final(self).wf(),
            r == old(self).next(),
            final(self).next() == r + 1,
            final(self).rows() == old(self).rows().push(
                Vm {
                    handle: r,
                    vm_id: vm_id@,
                    tap: tap@,
                    guest_mac: guest_mac@,
                    ifindex,
                    netns_inum,
                },
            ),
    {
        let handle: u64 = self.reserve();
        self.insert(VmProvenance { handle, vm_id, tap, guest_mac, ifindex, netns_inum });
        handle
    }

    pub fn get(&self, handle: u64) -> (r: Option<&VmProvenance>)
        ensures
            match r {
                Some(p) => vm_of(self.rows(), handle, 0) == Some(p@),
                None => vm_of(self.rows(), handle, 0) is None,
            },
    {
        let mut i: usize = 0;
        while i < self.rows.len()
            invariant
                i <= self.rows@.len(),
                vm_of(self.rows(), handle, 0) == vm_of(self.rows(), handle, i as nat),
            decreases self.rows@.len() - i,
        {
            assert(self.rows()[i as int] == self.rows@[i as int]@);
            if self.rows[i].handle == handle {
                return Some(&self.rows[i]);
            }
            i += 1;
        }
        None
    }

    pub fn len(&self) -> (r: usize)
        ensures
            r == self.rows().len(),
    {
        self.rows.len()
    }

    pub fn is_empty(&self) -> (r: bool)
        ensures
            r == (self.rows().len() == 0),
    {
        self.rows.len() == 0
    }

    /// The table as provenance, in the order of the handles.
    pub fn provenance_json(&self) -> (r: Doc)
        ensures
            r@ == Json::Arr(self.rows().map_values(|v: Vm| provenance_row(v))),
    {
        let ghost all = self.rows().map_values(|v: Vm| provenance_row(v));
        let mut out: Vec<Doc> = Vec::new();
        let mut i: usize = 0;
        while i < self.rows.len()
            invariant
                i <= self.rows@.len(),
                all == self.rows().map_values(|v: Vm| provenance_row(v)),
                json::jsons(out@) =~= all.take(i as int),
            decreases self.rows@.len() - i,
        {
            let p = &self.rows[i];
            assert(self.rows()[i as int] == p@);
            let ghost was = out@;
            out.push(
                Doc::Object(
                    Object::new().with("handle", json::uint(p.handle)).text(
                        "vm_id",
                        &p.vm_id,
                    ).text("tap", &p.tap).text("guest_mac", &p.guest_mac).with(
                        "ifindex",
                        json::uint(p.ifindex as u64),
                    ).with("netns_inum", json::uint(p.netns_inum as u64)),
                ),
            );
            assert(json::jsons(out@) =~= json::jsons(was).push(all[i as int]));
            i += 1;
        }
        assert(all.take(i as int) =~= all);
        json::array(out)
    }
}

/// The handle of a VM in the table finds that VM.
pub proof fn law_handles_identify_vms(rows: Seq<Vm>, next: u64, i: int)
    requires
        ascending(rows, next),
        0 <= i < rows.len(),
    ensures
        vm_of(rows, rows[i].handle, 0) == Some(rows[i]),
{
    lemma_vm_of(rows, next, i, 0);
}

proof fn lemma_vm_of(rows: Seq<Vm>, next: u64, i: int, from: nat)
    requires
        ascending(rows, next),
        from <= i < rows.len(),
    ensures
        vm_of(rows, rows[i].handle, from) == Some(rows[i]),
    decreases i - from,
{
    if from < i {
        assert(rows[from as int].handle < rows[i].handle);
        lemma_vm_of(rows, next, i, from + 1);
    }
}

// ---------------------------------------------------------------------------
// Rewriting labels
// ---------------------------------------------------------------------------

/// The VM id label of a series.
pub open spec fn vm_label(s: Json) -> Option<Seq<char>> {
    json::str_field(json::member(s, "labels"@), "vm_id"@)
}

/// The VM that a label names by its handle.
pub open spec fn labelled_vm(rows: Seq<Vm>, raw: Seq<char>) -> Option<Vm> {
    match text::unsigned(raw, u64::MAX as nat) {
        Some(h) => vm_of(rows, h as u64, 0),
        None => None,
    }
}

/// A series with the handle in its VM label replaced by the VM's id, where the
/// handle is known.
pub open spec fn relabelled(rows: Seq<Vm>, s: Json) -> Json {
    match (vm_label(s), s, json::member(s, "labels"@)) {
        (Some(raw), Json::Obj(e), Json::Obj(l)) => match labelled_vm(rows, raw) {
            Some(v) => Json::Obj(
                json::put(e, "labels"@, Json::Obj(json::put(l, "vm_id"@, Json::Str(v.vm_id)))),
            ),
            None => s,
        },
        _ => s,
    }
}

/// The labels whose handle is not known, with that of one more series.
pub open spec fn with_unknown(rows: Seq<Vm>, unknown: Seq<Seq<char>>, s: Json) -> Seq<Seq<char>> {
    match vm_label(s) {
        Some(raw) => if labelled_vm(rows, raw) is None && !unknown.contains(raw) {
            unknown.push(raw)
        } else {
            unknown
        },
        None => unknown,
    }
}

/// The labels of the series whose handle is not known, in the order in which
/// they are first seen.
pub open spec fn unknown_in(rows: Seq<Vm>, series: Seq<Json>) -> Seq<Seq<char>>
    decreases series.len(),
{
    if series.len() == 0 {
        Seq::empty()
    } else {
        with_unknown(rows, unknown_in(rows, series.drop_last()), series.last())
    }
}

/// A fragment with its series relabelled.
pub open spec fn relabelled_piece(rows: Seq<Vm>, p: Piece) -> Piece {
    Piece { series: p.series.map_values(|s: Json| relabelled(rows, s)), ..p }
}

/// The fragments with their series relabelled.
pub open spec fn relabelled_pieces(rows: Seq<Vm>, ps: Seq<Piece>) -> Seq<Piece> {
    ps.map_values(|p: Piece| relabelled_piece(rows, p))
}

fn relabel(s: &Doc, table: &HandleTable, unknown: &mut Vec<String>) -> (r: Doc)
    ensures
        r@ == relabelled(table.rows(), s@),
        text::texts(final(unknown)@) == with_unknown(
            table.rows(),
            text::texts(old(unknown)@),
            s@,
        ),
{
    if let Doc::Object(o) = s {
        if let Some(Doc::Object(l)) = o.get("labels") {
            if let Some(x) = l.get("vm_id") {
                if let Some(raw) = x.as_str() {
                    let found = match text::parse_unsigned(raw, u64::MAX) {
                        Some(h) => table.get(h),
                        None => None,
                    };
                    match found {
                        Some(p) => {
                            let labels = l.clone().text("vm_id", &p.vm_id);
                            return Doc::Object(o.clone().with("labels", Doc::Object(labels)));
                        },
                        None => {
                            if !text::is_among(unknown, raw) {
                                let ghost was = unknown@;
                                unknown.push(raw.to_owned());
                                assert(text::texts(unknown@) =~= text::texts(was).push(raw@));
                            }
                            return s.clone();
                        },
                    }
                }
            }
        }
    }
    s.clone()
}

fn relabel_all(
    series: &Vec<Doc>,
    table: &HandleTable,
    unknown: &mut Vec<String>,
    Ghost(done): Ghost<Seq<Json>>,
) -> (r: Vec<Doc>)
    requires
        text::texts(old(unknown)@) == unknown_in(table.rows(), done),
    ensures
        json::jsons(r@) == json::jsons(series@).map_values(|s: Json| relabelled(table.rows(), s)),
        text::texts(final(unknown)@) == unknown_in(table.rows(), done + json::jsons(series@)),
{
    let ghost rows = table.rows();
    let ghost all = json::jsons(series@);
    let ghost target = all.map_values(|s: Json| relabelled(rows, s));
    let mut out: Vec<Doc> = Vec::new();
    assert(done + all.take(0) =~= done);
    let mut i: usize = 0;
    while i < series.len()
        invariant
            i <= series@.len(),
            rows == table.rows(),
            all == json::jsons(series@),
            target == all.map_values(|s: Json| relabelled(rows, s)),
            json::jsons(out@) =~= target.take(i as int),
            text::texts(unknown@) == unknown_in(rows, done + all.take(i as int)),
        decreases series@.len() - i,
    {
        let ghost now = done + all.take(i + 1);
        assert(now.drop_last() =~= done + all.take(i as int));
        assert(now.last() == series@[i as int]@);
        let v = relabel(&series[i], table, unknown);
        let ghost was = out@;
        out.push(v);
        assert(json::jsons(out@) =~= json::jsons(was).push(target[i as int]));
        i += 1;
    }
    assert(all.take(all.len() as int) =~= all);
    assert(target.take(i as int) =~= target);
    out
}

/// Rewrite the VM labels of every series from handles to VM ids. What comes
/// back are the handles that are not in the table: a handle that was never
/// issued means a stale map, and is reported rather than dropped.
pub fn rewrite_vm_id_labels(fragments: &mut Vec<Fragment>, table: &HandleTable) -> (r: Vec<String>)
    ensures
        contract::fragment_views(final(fragments)@) == relabelled_pieces(
            table.rows(),
            contract::fragment_views(old(fragments)@),
        ),
        text::texts(r@) == unknown_in(
            table.rows(),
            contract::merged_series(contract::fragment_views(old(fragments)@)),
        ),
{
    let ghost rows = table.rows();
    let ghost fs = contract::fragment_views(fragments@);
    let ghost target = relabelled_pieces(rows, fs);
    let mut unknown: Vec<String> = Vec::new();
    assert(text::texts(unknown@) =~= Seq::empty());
    let mut out: Vec<Fragment> = Vec::new();
    let n: usize = fragments.len();
    assert(fs.take(0) =~= Seq::empty());
    let mut i: usize = 0;
    while i < n
        invariant
            i <= n,
            n == fragments@.len(),
            rows == table.rows(),
            fs == contract::fragment_views(fragments@),
            target == relabelled_pieces(rows, fs),
            contract::fragment_views(out@) =~= target.take(i as int),
            text::texts(unknown@) == unknown_in(rows, contract::merged_series(fs.take(i as int))),
        decreases n - i,
    {
        assert(fs.take(i + 1).drop_last() =~= fs.take(i as int));
        let f = &fragments[i];
        assert(fs[i as int] == f@);
        let series = relabel_all(
            &f.series,
            table,
            &mut unknown,
            Ghost(contract::merged_series(fs.take(i as int))),
        );
        let g = Fragment {
            series,
            self_metrics: json::copy_values(&f.self_metrics),
            capture_meta: json::copy_opt(&f.capture_meta),
        };
        assert(g@ == target[i as int]);
        let ghost was = out@;
        out.push(g);
        assert(contract::fragment_views(out@) =~= contract::fragment_views(was).push(
            target[i as int],
        ));
        i += 1;
    }
    assert(fs.take(fs.len() as int) =~= fs);
    assert(target.take(i as int) =~= target);
    *fragments = out;
    unknown
}

/// Rewriting a series changes its VM label and nothing else.
pub proof fn law_rewrite_changes_only_the_vm_label(rows: Seq<Vm>, s: Json, k: Seq<char>)
    ensures
        k != "labels"@ ==> json::field(relabelled(rows, s), k) == json::field(s, k),
        k != "vm_id"@ ==> json::field(json::member(relabelled(rows, s), "labels"@), k)
            == json::field(json::member(s, "labels"@), k),
{
    broadcast use json::law_lookup_put;

}

/// A series whose label names a VM of the table ends up with that VM's id.
pub proof fn law_rewrite_resolves_known_handles(rows: Seq<Vm>, s: Json)
    requires
        vm_label(s) is Some,
        labelled_vm(rows, vm_label(s)->0) is Some,
    ensures
        vm_label(relabelled(rows, s)) == Some(labelled_vm(rows, vm_label(s)->0)->0.vm_id),
{
    broadcast use json::law_lookup_put;

}

// ---------------------------------------------------------------------------
// The control channel
// ---------------------------------------------------------------------------

/// The name of a lifecycle state on the wire.
pub open spec fn state_text(state: u8) -> Seq<char> {
    if state == LIFECYCLE_PAUSING {
        "PAUSING"@
    } else if state == LIFECYCLE_PAUSED {
        "PAUSED"@
    } else if state == LIFECYCLE_RESUMING {
        "RESUMING"@
    } else {
        "RUNNING"@
    }
}

/// The name of a lifecycle state on the wire.
pub fn state_name(state: u8) -> (r: &'static str)
    ensures
        r@ == state_text(state),
{
    if state == LIFECYCLE_PAUSING {
        "PAUSING"
    } else if state == LIFECYCLE_PAUSED {
        "PAUSED"
    } else if state == LIFECYCLE_RESUMING {
        "RESUMING"
    } else {
        "RUNNING"
    }
}

/// The seam over the control socket.
pub trait Wire {
    /// Send a line and wait for the line that answers it.
    fn exchange(&self, line: &str) -> Result<String, String>;
}

/// A line that was sent, and its answer.
pub struct Exchange {
    pub line: Seq<char>,
    pub answer: Result<Seq<char>, Seq<char>>,
}

/// Whether an exchange is one that a wire may make.
pub open spec fn heard<W: Wire>(wire: W, e: Exchange) -> bool {
    exists|line: &str, answer: Result<String, String>| #[trigger]
        call_ensures(W::exchange, (&wire, line), answer) && line@ == e.line && adapter::reply(
            answer,
        ) == e.answer
}

/// What an answer to a line means: `ok`, or a refusal that begins with `err`.
pub open spec fn understood(line: Seq<char>, answer: Result<Seq<char>, Seq<char>>) -> Result<
    (),
    Seq<char>,
> {
    match answer {
        Err(e) => Err(e),
        Ok(s) => {
            let t = text::trimmed(s);
            match text::after_prefix(t, "err"@) {
                Some(m) => Err("attribution owner rejected '"@ + line + "':"@ + m),
                None => if t == "ok"@ {
                    Ok(())
                } else {
                    Err("unexpected reply to '"@ + line + "': "@ + text::debug_of(t))
                },
            }
        },
    }
}

/// What to do where the owner's socket refuses a connection.
#[derive(Clone, Copy, Debug, PartialEq, Eq, Structural)]
pub enum Retry {
    GiveUp,
    /// Try again after so many milliseconds.
    Pause(u64),
}

/// The owner is a freshly spawned process, so that its socket may not exist yet:
/// a connection is tried again until a time is up.
pub fn after_refusal(now: u64, deadline: u64) -> (r: Retry)
    ensures
        r == (if now >= deadline {
            Retry::GiveUp
        } else {
            Retry::Pause(20)
        }),
{
    if now >= deadline {
        Retry::GiveUp
    } else {
        Retry::Pause(20)
    }
}

/// What an answer to a line means.
pub fn understand(line: &str, answer: Result<String, String>) -> (r: Result<(), String>)
    ensures
        outcome(r) == understood(line@, adapter::reply(answer)),
{
    let s = match answer {
        Ok(s) => s,
        Err(e) => {
            return Err(e);
        },
    };
    let t = text::trim(&s);
    match text::strip_prefix(&t, "err") {
        Some(m) => {
            let mut e = text::join2("attribution owner rejected '", line);
            e.append("':");
            e.append(&m);
            Err(e)
        },
        None => if text::same(&t, "ok") {
            Ok(())
        } else {
            let mut e = text::join2("unexpected reply to '", line);
            e.append("': ");
            e.append(&text::debug_str(&t));
            Err(e)
        },
    }
}

/// A client of the owner's control socket. Every command waits for its answer,
/// so that a slow owner holds the run back rather than missing an update.
pub struct ControlClient<W: Wire> {
    wire: W,
    log: Ghost<Seq<Exchange>>,
}

pub open spec fn add_line(ifindex: u32, handle: u64, netns_inum: u32) -> Seq<char> {
    "add "@ + text::decimal(ifindex as nat) + " "@ + text::decimal(handle as nat) + " "@
        + text::decimal(netns_inum as nat)
}

pub open spec fn state_line(handle: u64, state: u8) -> Seq<char> {
    "state "@ + text::decimal(handle as nat) + " "@ + state_text(state)
}

pub open spec fn remove_line(handle: u64) -> Seq<char> {
    "remove "@ + text::decimal(handle as nat)
}

/// Whether one line was sent over the wire of a client and its answer
/// understood.
pub open spec fn commanded<W: Wire>(
    pre: ControlClient<W>,
    post: ControlClient<W>,
    line: Seq<char>,
    r: Result<(), Seq<char>>,
) -> bool {
    &&& post.wire() == pre.wire()
    &&& post.log().len() == pre.log().len() + 1
    &&& post.log().drop_last() == pre.log()
    &&& post.log().last().line == line
    &&& heard(pre.wire(), post.log().last())
    &&& r == understood(line, post.log().last().answer)
}

/// What came of an answer.
pub open spec fn outcome(r: Result<(), String>) -> Result<(), Seq<char>> {
    match r {
        Ok(()) => Ok(()),
        Err(e) => Err(e@),
    }
}

impl<W: Wire> ControlClient<W> {
    pub closed spec fn log(&self) -> Seq<Exchange> {
        self.log@
    }

    pub closed spec fn wire(&self) -> W {
        self.wire
    }

    /// A client on a connected socket.
    pub fn new(wire: W) -> (r: Self)
        ensures
            r.log() == Seq::<Exchange>::empty(),
            r.wire() == wire,
    {
        ControlClient { wire, log: Ghost(Seq::empty()) }
    }

    fn command(&mut self, line: &str) -> (r: Result<(), String>)
        ensures
            commanded(*old(self), *final(self), line@, outcome(r)),
    {
        let ghost was = self.log@;
        let a = self.wire.exchange(line);
        let ghost e = Exchange { line: line@, answer: adapter::reply(a) };
        assert(heard(self.wire, e));
        self.log = Ghost(self.log@.push(e));
        assert(self.log@.drop_last() =~= was);
        understand(line, a)
    }

    /// Tell the owner of a VM.
    pub fn add(&mut self, ifindex: u32, handle: u64, netns_inum: u32) -> (r: Result<(), String>)
        ensures
            commanded(
                *old(self),
                *final(self),
                add_line(ifindex, handle, netns_inum),
                outcome(r),
            ),
    {
        let mut line = text::join2("add ", &text::dec(ifindex as u64));
        line.append(" ");
        line.append(&text::dec(handle));
        line.append(" ");
        line.append(&text::dec(netns_inum as u64));
        self.command(&line)
    }

    /// Tell the owner of a VM's state.
    pub fn state(&mut self, handle: u64, state: u8) -> (r: Result<(), String>)
        ensures
            commanded(*old(self), *final(self), state_line(handle, state), outcome(r)),
    {
        let mut line = text::join2("state ", &text::dec(handle));
        line.append(" ");
        line.append(state_name(state));
        self.command(&line)
    }

    /// Tell the owner that a VM is gone.
    pub fn remove(&mut self, handle: u64) -> (r: Result<(), String>)
        ensures
            commanded(*old(self), *final(self), remove_line(handle), outcome(r)),
    {
        let line = text::join2("remove ", &text::dec(handle));
        self.command(&line)
    }
}

/// One run's attribution: the channel to the owner and the handle table.
pub struct AttributionSession<W: Wire> {
    pub client: ControlClient<W>,
    pub table: HandleTable,
}

/// The view of a result of a handle.
pub open spec fn registered(r: Result<u64, String>) -> Result<(), Seq<char>> {
    match r {
        Ok(_) => Ok(()),
        Err(e) => Err(e@),
    }
}

impl<W: Wire> AttributionSession<W> {
    /// Hand a VM its handle and tell the owner. A VM that the owner does not
    /// accept is not recorded, but its handle is spent.
    pub fn register(
        &mut self,
        vm_id: String,
        tap: String,
        guest_mac: String,
        ifindex: u32,
        netns_inum: u32,
    ) -> (r: Result<u64, String>)
        requires
            old(self).table.wf(),
            old(self).table.next() < u64::MAX,
        ensures
            final(self).table.wf(),
            final(self).table.next() == old(self).table.next() + 1,
            commanded(
                old(self).client,
                final(self).client,
                add_line(ifindex, old(self).table.next(), netns_inum),
                registered(r),
            ),
            match r {
                Ok(h) => h == old(self).table.next() && final(self).table.rows() == old(
                    self,
                ).table.rows().push(
                    Vm {
                        handle: h,
                        vm_id: vm_id@,
                        tap: tap@,
                        guest_mac: guest_mac@,
                        ifindex,
                        netns_inum,
                    },
                ),
                Err(_) => final(self).table.rows() == old(self).table.rows(),
            },
    {
        let handle: u64 = self.table.reserve();
        match self.client.add(ifindex, handle, netns_inum) {
            Ok(()) => {},
            Err(e) => {
                return Err(e);
            },
        }
        self.table.insert(
            VmProvenance { handle, vm_id, tap, guest_mac, ifindex, netns_inum },
        );
        Ok(handle)
    }

    pub fn set_state(&mut self, handle: u64, state: u8) -> (r: Result<(), String>)
        ensures
            final(self).table == old(self).table,
            commanded(
                old(self).client,
                final(self).client,
                state_line(handle, state),
                outcome(r),
            ),
    {
        self.client.state(handle, state)
    }

    pub fn deregister(&mut self, handle: u64) -> (r: Result<(), String>)
        ensures
            final(self).table == old(self).table,
            commanded(
                old(self).client,
                final(self).client,
                remove_line(handle),
                outcome(r),
            ),
    {
        self.client.remove(handle)
    }
}

} // verus!
