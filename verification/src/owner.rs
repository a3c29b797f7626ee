//! The owner of the attribution map: the map's values, the control commands
//! that change them, and what the owner reports.
use crate::gadget::{self, Entry, Order};
use crate::json::{self, Doc, Json, Object};
use crate::netattrib::{
    self, LIFECYCLE_PAUSED, LIFECYCLE_PAUSING, LIFECYCLE_RESUMING, LIFECYCLE_RUNNING,
};
use crate::text;
use vstd::prelude::*;

verus! {

// ---------------------------------------------------------------------------
// The map's value
// ---------------------------------------------------------------------------

/// What the map holds of a VM. The probes read it, so its layout is fixed: the
/// fields in this order, padded to sixteen bytes.
#[derive(Clone, Copy, Debug, PartialEq, Eq)]
pub struct VmCtx {
    pub vm_id: u64,
    pub netns_inum: u32,
    pub lifecycle_state: u8,
    pub _pad: [u8; 3],
}

/// The bytes of a value.
pub open spec fn ctx_bytes(c: VmCtx, order: Order) -> Seq<u8> {
    gadget::bytes_of(c.vm_id as nat, 8, order) + gadget::bytes_of(c.netns_inum as nat, 4, order)
        + seq![c.lifecycle_state, 0u8, 0u8, 0u8]
}

/// Whether a value is what bytes hold.
pub open spec fn is_ctx(b: Seq<u8>, order: Order, c: VmCtx) -> bool {
    &&& c.vm_id == gadget::number(b.subrange(0, 8), order)
    &&& c.netns_inum == gadget::number(b.subrange(8, 12), order)
    &&& c.lifecycle_state == b[12]
    &&& c._pad@ =~= seq![0u8, 0u8, 0u8]
}

/// The VM that bytes name.
pub open spec fn vm_id_in(b: Seq<u8>, order: Order) -> nat {
    gadget::number(b.subrange(0, 8), order)
}

impl VmCtx {
    pub fn as_bytes(&self, order: Order) -> (r: Vec<u8>)
        ensures
            r@ == ctx_bytes(*self, order),
            r@.len() == 16,
    {
        proof {
            assert(self.vm_id < gadget::power(8) && self.netns_inum < gadget::power(4)) by {
                reveal_with_fuel(gadget::power, 9);
            }
            gadget::law_bytes_read_back(self.vm_id as nat, 8, order);
            gadget::law_bytes_read_back(self.netns_inum as nat, 4, order);
        }
        let mut b: Vec<u8> = gadget::to_bytes(self.vm_id, 8, order);
        let mut n: Vec<u8> = gadget::to_bytes(self.netns_inum as u64, 4, order);
        b.append(&mut n);
        b.push(self.lifecycle_state);
        b.push(0);
        b.push(0);
        b.push(0);
        assert(b@ =~= ctx_bytes(*self, order));
        b
    }

    pub fn from_bytes(b: &[u8], order: Order) -> (r: VmCtx)
        requires
            b@.len() >= 13,
        ensures
            is_ctx(b@, order, r),
    {
        VmCtx {
            vm_id: gadget::u64_at(b, 0, order),
            netns_inum: gadget::u32_at(b, 8, order),
            lifecycle_state: b[12],
            _pad: [0, 0, 0],
        }
    }
}

/// A value's bytes hold that value.
pub proof fn law_values_read_back(c: VmCtx, order: Order)
    requires
        c._pad@ =~= seq![0u8, 0u8, 0u8],
    ensures
        ctx_bytes(c, order).len() == 16,
        is_ctx(ctx_bytes(c, order), order, c),
{
    assert(c.vm_id < gadget::power(8) && c.netns_inum < gadget::power(4)) by {
        reveal_with_fuel(gadget::power, 9);
    }
    gadget::law_bytes_read_back(c.vm_id as nat, 8, order);
    gadget::law_bytes_read_back(c.netns_inum as nat, 4, order);
    let b = ctx_bytes(c, order);
    assert(b.subrange(0, 8) =~= gadget::bytes_of(c.vm_id as nat, 8, order));
    assert(b.subrange(8, 12) =~= gadget::bytes_of(c.netns_inum as nat, 4, order));
}

// ---------------------------------------------------------------------------
// Commands
// ---------------------------------------------------------------------------

/// A command on the control socket.
#[derive(Debug, PartialEq, Eq, Structural)]
pub enum Command {
    Add { ifindex: u32, handle: u64, netns_inum: u32 },
    State { handle: u64, state: u8 },
    Remove { handle: u64 },
}

/// The state with this name, in any case.
pub open spec fn named_state(name: Seq<char>) -> Option<u8> {
    let n = text::upper(name);
    if n == "RUNNING"@ {
        Some(LIFECYCLE_RUNNING)
    } else if n == "PAUSING"@ {
        Some(LIFECYCLE_PAUSING)
    } else if n == "PAUSED"@ {
        Some(LIFECYCLE_PAUSED)
    } else if n == "RESUMING"@ {
        Some(LIFECYCLE_RESUMING)
    } else {
        None
    }
}

/// The state with this name, in any case: the wire can be typed by hand.
pub fn state_from_name(name: &str) -> (r: Option<u8>)
    ensures
        r == named_state(name@),
{
    let n: String = text::to_upper(name);
    if text::same(&n, "RUNNING") {
        Some(LIFECYCLE_RUNNING)
    } else if text::same(&n, "PAUSING") {
        Some(LIFECYCLE_PAUSING)
    } else if text::same(&n, "PAUSED") {
        Some(LIFECYCLE_PAUSED)
    } else if text::same(&n, "RESUMING") {
        Some(LIFECYCLE_RESUMING)
    } else {
        None
    }
}

/// The name of each state reads as that state.
pub proof fn law_state_names_round_trip(state: u8)
    requires
        state <= LIFECYCLE_RESUMING,
    ensures
        named_state(netattrib::state_text(state)) == Some(state),
{
    reveal_strlit("RUNNING");
    reveal_strlit("PAUSING");
    reveal_strlit("PAUSED");
    reveal_strlit("RESUMING");
    let n = netattrib::state_text(state);
    assert(text::upper(n) =~= n);
    assert("RUNNING"@[1] != "PAUSING"@[1]);
    assert("RUNNING"@.len() != "PAUSED"@.len());
    assert("RUNNING"@.len() != "RESUMING"@.len());
}

/// A word read as a `u32`, or std's refusal.
pub open spec fn word_u32(w: Seq<char>) -> Result<u32, Seq<char>> {
    match text::unsigned(w, u32::MAX as nat) {
        Some(n) => Ok(n as u32),
        None => Err(text::u32_refusal(w)),
    }
}

/// A word read as a `u64`, or std's refusal.
pub open spec fn word_u64(w: Seq<char>) -> Result<u64, Seq<char>> {
    match text::unsigned(w, u64::MAX as nat) {
        Some(n) => Ok(n as u64),
        None => Err(text::u64_refusal(w)),
    }
}

fn read_u32(w: &str) -> (r: Result<u32, String>)
    ensures
        (match r {
            Ok(n) => Ok(n),
            Err(e) => Err(e@),
        }) == word_u32(w@),
{
    match text::parse_unsigned(w, u32::MAX as u64) {
        Some(n) => Ok(n as u32),
        None => Err(text::u32_error(w)),
    }
}

fn read_u64(w: &str) -> (r: Result<u64, String>)
    ensures
        (match r {
            Ok(n) => Ok(n),
            Err(e) => Err(e@),
        }) == word_u64(w@),
{
    match text::parse_unsigned(w, u64::MAX) {
        Some(n) => Ok(n),
        None => Err(text::u64_error(w)),
    }
}

/// The addition that the words after `add` ask for.
pub open spec fn add_in(w: Seq<Seq<char>>) -> Result<Command, Seq<char>> {
    if w.len() < 2 {
        Err("add needs an ifindex"@)
    } else {
        match word_u32(w[1]) {
            Err(e) => Err(e),
            Ok(ifindex) => if w.len() < 3 {
                Err("add needs a handle"@)
            } else {
                match word_u64(w[2]) {
                    Err(e) => Err(e),
                    Ok(handle) => if w.len() < 4 {
                        Err("add needs a netns_inum"@)
                    } else {
                        match word_u32(w[3]) {
                            Err(e) => Err(e),
                            Ok(netns_inum) => Ok(Command::Add { ifindex, handle, netns_inum }),
                        }
                    },
                }
            },
        }
    }
}

/// The change of state that the words after `state` ask for.
pub open spec fn state_in(w: Seq<Seq<char>>) -> Result<Command, Seq<char>> {
    if w.len() < 2 {
        Err("state needs a handle"@)
    } else {
        match word_u64(w[1]) {
            Err(e) => Err(e),
            Ok(handle) => if w.len() < 3 {
                Err("state needs a state name"@)
            } else {
                match named_state(w[2]) {
                    None => Err("unknown state '"@ + w[2] + "'"@),
                    Some(state) => Ok(Command::State { handle, state }),
                }
            },
        }
    }
}

/// The removal that the words after `remove` ask for.
pub open spec fn remove_in(w: Seq<Seq<char>>) -> Result<Command, Seq<char>> {
    if w.len() < 2 {
        Err("remove needs a handle"@)
    } else {
        match word_u64(w[1]) {
            Err(e) => Err(e),
            Ok(handle) => Ok(Command::Remove { handle }),
        }
    }
}

/// The command that words are. Words beyond those of the command are ignored.
pub open spec fn command_in(w: Seq<Seq<char>>) -> Result<Command, Seq<char>> {
    if w.len() == 0 {
        Err("empty command"@)
    } else if w[0] == "add"@ {
        add_in(w)
    } else if w[0] == "state"@ {
        state_in(w)
    } else if w[0] == "remove"@ {
        remove_in(w)
    } else {
        Err("unknown command '"@ + w[0] + "'"@)
    }
}

/// A result with its message as text.
pub open spec fn told(r: Result<Command, String>) -> Result<Command, Seq<char>> {
    match r {
        Ok(c) => Ok(c),
        Err(e) => Err(e@),
    }
}

fn parse_add(w: &Vec<String>) -> (r: Result<Command, String>)
    ensures
        told(r) == add_in(text::texts(w@)),
{
    if w.len() < 2 {
        return Err("add needs an ifindex".to_owned());
    }
    let ifindex: u32 = match read_u32(&w[1]) {
        Ok(n) => n,
        Err(e) => return Err(e),
    };
    if w.len() < 3 {
        return Err("add needs a handle".to_owned());
    }
    let handle: u64 = match read_u64(&w[2]) {
        Ok(n) => n,
        Err(e) => return Err(e),
    };
    if w.len() < 4 {
        return Err("add needs a netns_inum".to_owned());
    }
    let netns_inum: u32 = match read_u32(&w[3]) {
        Ok(n) => n,
        Err(e) => return Err(e),
    };
    Ok(Command::Add { ifindex, handle, netns_inum })
}

fn parse_state(w: &Vec<String>) -> (r: Result<Command, String>)
    ensures
        told(r) == state_in(text::texts(w@)),
{
    if w.len() < 2 {
        return Err("state needs a handle".to_owned());
    }
    let handle: u64 = match read_u64(&w[1]) {
        Ok(n) => n,
        Err(e) => return Err(e),
    };
    if w.len() < 3 {
        return Err("state needs a state name".to_owned());
    }
    match state_from_name(&w[2]) {
        Some(state) => Ok(Command::State { handle, state }),
        None => Err(text::join2(&text::join2("unknown state '", &w[2]), "'")),
    }
}

fn parse_remove(w: &Vec<String>) -> (r: Result<Command, String>)
    ensures
        told(r) == remove_in(text::texts(w@)),
{
    if w.len() < 2 {
        return Err("remove needs a handle".to_owned());
    }
    match read_u64(&w[1]) {
        Ok(handle) => Ok(Command::Remove { handle }),
        Err(e) => Err(e),
    }
}

/// Read one line of the control socket.
pub fn parse_command(line: &str) -> (r: Result<Command, String>)
    ensures
        told(r) == command_in(text::words_of(line@)),
{
    let w: Vec<String> = text::words(line);
    if w.len() == 0 {
        return Err("empty command".to_owned());
    }
    if text::same(&w[0], "add") {
        parse_add(&w)
    } else if text::same(&w[0], "state") {
        parse_state(&w)
    } else if text::same(&w[0], "remove") {
        parse_remove(&w)
    } else {
        Err(text::join2(&text::join2("unknown command '", &w[0]), "'"))
    }
}

/// A word after a text that ends in white space, or begins it.
proof fn lemma_next_word(s: Seq<char>, w: Seq<char>)
    requires
        text::word_state(s).1.len() == 0,
        forall|i: int| 0 <= i < w.len() ==> !text::is_space(#[trigger] w[i]),
        w.len() > 0,
    ensures
        text::word_state(s + w) == (text::word_state(s).0, w),
        text::word_state((s + w).push(' ')) == (text::word_state(s).0.push(w), Seq::<char>::empty()),
{
    text::lemma_word_goes_on(s, w);
    assert(text::word_state(s).1 + w =~= w);
    text::lemma_word_ends(s + w, ' ');
}

proof fn lemma_decimal_word(n: nat)
    ensures
        text::decimal(n).len() > 0,
        forall|i: int| 0 <= i < text::decimal(n).len() ==> !text::is_space(
            #[trigger] text::decimal(n)[i],
        ),
{
    text::lemma_decimal(n);
    assert forall|i: int| 0 <= i < text::decimal(n).len() implies !text::is_space(
        #[trigger] text::decimal(n)[i],
    ) by {
        assert(text::is_digit(text::decimal(n)[i]));
    }
}

/// What a client asks to add is what the owner reads.
pub proof fn law_additions_arrive(ifindex: u32, handle: u64, netns_inum: u32)
    ensures
        command_in(text::words_of(netattrib::add_line(ifindex, handle, netns_inum))) == Ok::<
            Command,
            Seq<char>,
        >(Command::Add { ifindex, handle, netns_inum }),
{
    reveal_strlit("add ");
    reveal_strlit("add");
    reveal_strlit(" ");
    let i = text::decimal(ifindex as nat);
    let h = text::decimal(handle as nat);
    let n = text::decimal(netns_inum as nat);
    let none = Seq::<char>::empty();
    let a = (none + "add"@).push(' ');
    let b = (a + i).push(' ');
    let c = (b + h).push(' ');
    lemma_next_word(none, "add"@);
    lemma_decimal_word(ifindex as nat);
    lemma_decimal_word(handle as nat);
    lemma_decimal_word(netns_inum as nat);
    lemma_next_word(a, i);
    lemma_next_word(b, h);
    lemma_next_word(c, n);
    assert(netattrib::add_line(ifindex, handle, netns_inum) =~= c + n);
    text::law_unsigned_reads_decimal(ifindex as nat, u32::MAX as nat);
    text::law_unsigned_reads_decimal(handle as nat, u64::MAX as nat);
    text::law_unsigned_reads_decimal(netns_inum as nat, u32::MAX as nat);
    assert(text::words_of(c + n) =~= seq!["add"@, i, h, n]);
}

/// The state that a client sets is what the owner reads.
pub proof fn law_states_arrive(handle: u64, state: u8)
    requires
        state <= LIFECYCLE_RESUMING,
    ensures
        command_in(text::words_of(netattrib::state_line(handle, state))) == Ok::<
            Command,
            Seq<char>,
        >(Command::State { handle, state }),
{
    reveal_strlit("state ");
    reveal_strlit("state");
    reveal_strlit("add");
    reveal_strlit(" ");
    reveal_strlit("RUNNING");
    reveal_strlit("PAUSING");
    reveal_strlit("PAUSED");
    reveal_strlit("RESUMING");
    let h = text::decimal(handle as nat);
    let n = netattrib::state_text(state);
    let none = Seq::<char>::empty();
    let a = (none + "state"@).push(' ');
    let b = (a + h).push(' ');
    lemma_next_word(none, "state"@);
    lemma_decimal_word(handle as nat);
    lemma_next_word(a, h);
    lemma_next_word(b, n);
    assert(netattrib::state_line(handle, state) =~= b + n);
    text::law_unsigned_reads_decimal(handle as nat, u64::MAX as nat);
    law_state_names_round_trip(state);
    assert(text::words_of(b + n) =~= seq!["state"@, h, n]);
    assert("state"@.len() != "add"@.len());
}

/// What a client asks to remove is what the owner reads.
pub proof fn law_removals_arrive(handle: u64)
    ensures
        command_in(text::words_of(netattrib::remove_line(handle))) == Ok::<Command, Seq<char>>(
            Command::Remove { handle },
        ),
{
    reveal_strlit("remove ");
    reveal_strlit("remove");
    reveal_strlit("state");
    reveal_strlit("add");
    let h = text::decimal(handle as nat);
    let none = Seq::<char>::empty();
    let a = (none + "remove"@).push(' ');
    lemma_next_word(none, "remove"@);
    lemma_decimal_word(handle as nat);
    lemma_next_word(a, h);
    assert(netattrib::remove_line(handle) =~= a + h);
    text::law_unsigned_reads_decimal(handle as nat, u64::MAX as nat);
    assert(text::words_of(a + h) =~= seq!["remove"@, h]);
    assert("remove"@.len() != "add"@.len());
    assert("remove"@.len() != "state"@.len());
}

// ---------------------------------------------------------------------------
// The map
// ---------------------------------------------------------------------------

/// A change of the map.
#[derive(Debug)]
pub enum Change {
    Put { key: Vec<u8>, value: Vec<u8> },
    Delete { key: Vec<u8> },
}

/// A change, in bytes.
pub enum Changed {
    Put(Seq<u8>, Seq<u8>),
    Delete(Seq<u8>),
}

impl View for Change {
    type V = Changed;

    open spec fn view(&self) -> Changed {
        match *self {
            Change::Put { key, value } => Changed::Put(key@, value@),
            Change::Delete { key } => Changed::Delete(key@),
        }
    }
}

/// Whether every value of the map is whole.
pub open spec fn whole(entries: Seq<Entry>) -> bool {
    forall|i: int| 0 <= i < entries.len() ==> (#[trigger] entries[i]).value@.len() >= 13
}

/// The place of the first entry of a VM.
pub open spec fn entry_of(entries: Seq<Entry>, handle: u64, order: Order, from: nat) -> Option<nat>
    decreases entries.len() - from,
{
    if from >= entries.len() {
        None
    } else if vm_id_in(entries[from as int].value@, order) == handle {
        Some(from)
    } else {
        entry_of(entries, handle, order, from + 1)
    }
}

/// The place of the first entry of a VM. The map is keyed by interface, which
/// is what the probes have in hand; states and removals come by handle.
pub fn key_for_handle(entries: &Vec<Entry>, handle: u64, order: Order) -> (r: Option<usize>)
    requires
        whole(entries@),
    ensures
        (match r {
            Some(i) => Some(i as nat),
            None => None,
        }) == entry_of(entries@, handle, order, 0),
        r is Some ==> r->0 < entries@.len(),
{
    let mut i: usize = 0;
    while i < entries.len()
        invariant
            i <= entries@.len(),
            whole(entries@),
            entry_of(entries@, handle, order, 0) == entry_of(entries@, handle, order, i as nat),
        decreases entries@.len() - i,
    {
        let e = &entries[i];
        assert(e.value@.len() >= 13);
        if VmCtx::from_bytes(&e.value, order).vm_id == handle {
            return Some(i);
        }
        i += 1;
    }
    None
}

/// The value that a state change leaves: the same VM in another state.
pub open spec fn in_state(b: Seq<u8>, state: u8, order: Order) -> Seq<u8> {
    gadget::bytes_of(gadget::number(b.subrange(0, 8), order), 8, order) + gadget::bytes_of(
        gadget::number(b.subrange(8, 12), order),
        4,
        order,
    ) + seq![state, 0u8, 0u8, 0u8]
}

/// The change that a command makes to a map.
pub open spec fn change_for(cmd: Command, entries: Seq<Entry>, order: Order) -> Result<
    Changed,
    Seq<char>,
> {
    match cmd {
        Command::Add { ifindex, handle, netns_inum } => Ok(
            Changed::Put(
                gadget::bytes_of(ifindex as nat, 4, order),
                gadget::bytes_of(handle as nat, 8, order) + gadget::bytes_of(
                    netns_inum as nat,
                    4,
                    order,
                ) + seq![LIFECYCLE_RUNNING, 0u8, 0u8, 0u8],
            ),
        ),
        Command::State { handle, state } => match entry_of(entries, handle, order, 0) {
            Some(i) => Ok(
                Changed::Put(
                    entries[i as int].key@,
                    in_state(entries[i as int].value@, state, order),
                ),
            ),
            None => Err("no entry for handle "@ + text::decimal(handle as nat)),
        },
        Command::Remove { handle } => match entry_of(entries, handle, order, 0) {
            Some(i) => Ok(Changed::Delete(entries[i as int].key@)),
            None => Err("no entry for handle "@ + text::decimal(handle as nat)),
        },
    }
}

fn copy_bytes(v: &Vec<u8>) -> (r: Vec<u8>)
    ensures
        r@ == v@,
{
    let mut out: Vec<u8> = Vec::new();
    let mut i: usize = 0;
    while i < v.len()
        invariant
            i <= v@.len(),
            out@ =~= v@.take(i as int),
        decreases v@.len() - i,
    {
        out.push(v[i]);
        i += 1;
    }
    out
}

/// The change that a command makes to a map.
pub fn plan(cmd: &Command, entries: &Vec<Entry>, order: Order) -> (r: Result<Change, String>)
    requires
        whole(entries@),
    ensures
        (match r {
            Ok(c) => Ok(c@),
            Err(e) => Err(e@),
        }) == change_for(*cmd, entries@, order),
{
    match cmd {
        Command::Add { ifindex, handle, netns_inum } => {
            let v = VmCtx {
                vm_id: *handle,
                netns_inum: *netns_inum,
                lifecycle_state: LIFECYCLE_RUNNING,
                _pad: [0, 0, 0],
            };
            Ok(
                Change::Put {
                    key: gadget::to_bytes(*ifindex as u64, 4, order),
                    value: v.as_bytes(order),
                },
            )
        },
        Command::State { handle, state } => match key_for_handle(entries, *handle, order) {
            Some(i) => {
                assert(entries@[i as int].value@.len() >= 13);
                let mut v = VmCtx::from_bytes(&entries[i].value, order);
                v.lifecycle_state = *state;
                Ok(Change::Put { key: copy_bytes(&entries[i].key), value: v.as_bytes(order) })
            },
            None => Err(text::join2("no entry for handle ", &text::dec(*handle))),
        },
        Command::Remove { handle } => match key_for_handle(entries, *handle, order) {
            Some(i) => Ok(Change::Delete { key: copy_bytes(&entries[i].key) }),
            None => Err(text::join2("no entry for handle ", &text::dec(*handle))),
        },
    }
}

/// A change of state keeps the VM and its namespace.
pub proof fn law_states_keep_the_vm(b: Seq<u8>, state: u8, order: Order)
    requires
        b.len() >= 13,
    ensures
        in_state(b, state, order).subrange(0, 12) =~= b.subrange(0, 12),
        in_state(b, state, order)[12] == state,
{
    gadget::law_number_writes_back(b.subrange(0, 8), order);
    gadget::law_number_writes_back(b.subrange(8, 12), order);
}

/// An added VM is found by its handle.
pub proof fn law_added_vms_are_found(
    entries: Seq<Entry>,
    e: Entry,
    ifindex: u32,
    handle: u64,
    netns_inum: u32,
    order: Order,
)
    requires
        change_for(Command::Add { ifindex, handle, netns_inum }, entries, order) == Ok::<
            Changed,
            Seq<char>,
        >(Changed::Put(e.key@, e.value@)),
        entry_of(entries, handle, order, 0) is None,
    ensures
        entry_of(entries.push(e), handle, order, 0) == Some(entries.len()),
{
    assert(handle < gadget::power(8)) by {
        reveal_with_fuel(gadget::power, 9);
    }
    gadget::law_bytes_read_back(handle as nat, 8, order);
    assert(e.value@.subrange(0, 8) =~= gadget::bytes_of(handle as nat, 8, order));
    lemma_found_last(entries, e, handle, order, 0);
}

proof fn lemma_found_last(entries: Seq<Entry>, e: Entry, handle: u64, order: Order, from: nat)
    requires
        from <= entries.len(),
        entry_of(entries, handle, order, from) is None,
        vm_id_in(e.value@, order) == handle,
    ensures
        entry_of(entries.push(e), handle, order, from) == Some(entries.len()),
    decreases entries.len() - from,
{
    if from < entries.len() {
        assert(entries.push(e)[from as int] == entries[from as int]);
        lemma_found_last(entries, e, handle, order, from + 1);
    }
}

// ---------------------------------------------------------------------------
// Bookkeeping
// ---------------------------------------------------------------------------

/// How many commands were applied and refused, and how many VMs the map held.
#[derive(Debug)]
pub struct Stats {
    pub peak_live: u64,
    pub final_live: u64,
    pub adds: u64,
    pub states: u64,
    pub removes: u64,
    pub errors: u64,
}

impl Default for Stats {
    fn default() -> (r: Stats)
        ensures
            r == (Stats { peak_live: 0, final_live: 0, adds: 0, states: 0, removes: 0, errors: 0 }),
    {
        Stats { peak_live: 0, final_live: 0, adds: 0, states: 0, removes: 0, errors: 0 }
    }
}

/// How many commands of a command's kind were applied.
pub open spec fn applied_before(s: Stats, cmd: Command) -> u64 {
    match cmd {
        Command::Add { .. } => s.adds,
        Command::State { .. } => s.states,
        Command::Remove { .. } => s.removes,
    }
}

/// The books after a command was applied, with so many VMs in the map.
pub open spec fn booked(s: Stats, cmd: Command, live: u64) -> Stats {
    Stats {
        peak_live: if live > s.peak_live {
            live
        } else {
            s.peak_live
        },
        final_live: live,
        adds: if cmd is Add {
            (s.adds + 1) as u64
        } else {
            s.adds
        },
        states: if cmd is State {
            (s.states + 1) as u64
        } else {
            s.states
        },
        removes: if cmd is Remove {
            (s.removes + 1) as u64
        } else {
            s.removes
        },
        errors: s.errors,
    }
}

impl Stats {
    /// Book a command that was applied, with so many VMs in the map after it.
    pub fn applied(&mut self, cmd: &Command, live: u64)
        requires
            applied_before(*old(self), *cmd) < u64::MAX,
        ensures
            *final(self) == booked(*old(self), *cmd, live),
    {
        match cmd {
            Command::Add { .. } => {
                self.adds = self.adds + 1;
            },
            Command::State { .. } => {
                self.states = self.states + 1;
            },
            Command::Remove { .. } => {
                self.removes = self.removes + 1;
            },
        }
        self.final_live = live;
        if live > self.peak_live {
            self.peak_live = live;
        }
    }

    /// Book a command that was refused.
    pub fn refused(&mut self)
        requires
            old(self).errors < u64::MAX,
        ensures
            *final(self) == (Stats { errors: (old(self).errors + 1) as u64, ..*old(self) }),
    {
        self.errors = self.errors + 1;
    }
}

/// The peak is never below what the map holds at the end.
pub proof fn law_peak_covers_the_end(s: Stats, cmd: Command, live: u64)
    ensures
        booked(s, cmd, live).final_live <= booked(s, cmd, live).peak_live,
        s.peak_live <= booked(s, cmd, live).peak_live,
{
}

/// The answer to a command.
pub open spec fn answer(r: Result<(), Seq<char>>) -> Seq<char> {
    match r {
        Ok(_) => "ok\n"@,
        Err(e) => "err "@ + e + "\n"@,
    }
}

/// The answer to a command.
pub fn reply(r: &Result<(), String>) -> (s: String)
    ensures
        s@ == answer(netattrib::outcome(*r)),
{
    match r {
        Ok(_) => "ok\n".to_owned(),
        Err(e) => text::join2(&text::join2("err ", e), "\n"),
    }
}

/// What the owner reports. It attaches no probe, so there is no series and no
/// probe cost.
pub open spec fn owner_fragment(s: Stats, window_ns: u64) -> Json {
    gadget::fragment_json(
        Seq::empty(),
        Seq::empty(),
        json::fields().text("gadget"@, "assayist-capture-netattrib"@).with(
            "window_ns"@,
            Json::Int(window_ns as int),
        ).with("peak_live"@, Json::Int(s.peak_live as int)).with(
            "final_live"@,
            Json::Int(s.final_live as int),
        ).with(
            "commands"@,
            json::fields().with("add"@, Json::Int(s.adds as int)).with(
                "state"@,
                Json::Int(s.states as int),
            ).with("remove"@, Json::Int(s.removes as int)).json(),
        ).with("command_errors"@, Json::Int(s.errors as int)).json(),
    )
}

pub fn fragment(stats: &Stats, window_ns: u64) -> (r: Doc)
    ensures
        r@ == owner_fragment(*stats, window_ns),
{
    let commands = Object::new().with("add", json::uint(stats.adds)).with(
        "state",
        json::uint(stats.states),
    ).with("remove", json::uint(stats.removes));
    let meta = Object::new().text("gadget", "assayist-capture-netattrib").with(
        "window_ns",
        json::uint(window_ns),
    ).with("peak_live", json::uint(stats.peak_live)).with(
        "final_live",
        json::uint(stats.final_live),
    ).with("commands", Doc::Object(commands)).with("command_errors", json::uint(stats.errors));
    let none: Vec<Doc> = Vec::new();
    let nothing: Vec<Doc> = Vec::new();
    assert(json::jsons(none@) =~= Seq::empty());
    assert(json::jsons(nothing@) =~= Seq::empty());
    gadget::fragment(none, nothing, Doc::Object(meta))
}

} // verus!
