//! KVM exits: the handling-latency histogram of each exit reason.
use crate::gadget::{self, Cost, Entry, Order};
use crate::json::{self, Doc, Json, Object};
use crate::text;
use vstd::prelude::*;

verus! {

/// The buckets of a histogram, each twice as wide as the one before.
pub const MAX_SLOTS: usize = 40;

/// The maker of the processor that `/proc/cpuinfo` describes.
pub open spec fn vendor_in(cpuinfo: Option<Seq<char>>) -> Seq<char> {
    match cpuinfo {
        Some(s) => if text::has_part(s, "AuthenticAMD"@) {
            "amd"@
        } else if text::has_part(s, "GenuineIntel"@) {
            "intel"@
        } else {
            "unknown"@
        },
        None => "unknown"@,
    }
}

/// The maker of the processor that `/proc/cpuinfo` describes, if it was read.
pub fn cpu_vendor(cpuinfo: Option<&str>) -> (r: &'static str)
    ensures
        r@ == vendor_in(json::opt_str(cpuinfo)),
{
    match cpuinfo {
        Some(s) => if text::contains(s, "AuthenticAMD") {
            "amd"
        } else if text::contains(s, "GenuineIntel") {
            "intel"
        } else {
            "unknown"
        },
        None => "unknown",
    }
}

/// The name of an exit reason of Intel processors.
pub open spec fn vmx_name(r: u32) -> Option<Seq<char>> {
    if r == 0 {
        Some("EXCEPTION_NMI"@)
    } else if r == 1 {
        Some("EXTERNAL_INTERRUPT"@)
    } else if r == 2 {
        Some("TRIPLE_FAULT"@)
    } else if r == 7 {
        Some("INTERRUPT_WINDOW"@)
    } else if r == 12 {
        Some("HLT"@)
    } else if r == 18 {
        Some("VMCALL"@)
    } else if r == 28 {
        Some("CR_ACCESS"@)
    } else if r == 30 {
        Some("IO_INSTRUCTION"@)
    } else if r == 31 {
        Some("MSR_READ"@)
    } else if r == 32 {
        Some("MSR_WRITE"@)
    } else if r == 44 {
        Some("APIC_ACCESS"@)
    } else if r == 48 {
        Some("EPT_VIOLATION"@)
    } else if r == 49 {
        Some("EPT_MISCONFIG"@)
    } else if r == 52 {
        Some("PREEMPTION_TIMER"@)
    } else {
        None
    }
}

/// The name of an exit reason of Intel processors.
pub fn vmx_reason(r: u32) -> (s: Option<&'static str>)
    ensures
        json::opt_str(s) == vmx_name(r),
{
    if r == 0 {
        Some("EXCEPTION_NMI")
    } else if r == 1 {
        Some("EXTERNAL_INTERRUPT")
    } else if r == 2 {
        Some("TRIPLE_FAULT")
    } else if r == 7 {
        Some("INTERRUPT_WINDOW")
    } else if r == 12 {
        Some("HLT")
    } else if r == 18 {
        Some("VMCALL")
    } else if r == 28 {
        Some("CR_ACCESS")
    } else if r == 30 {
        Some("IO_INSTRUCTION")
    } else if r == 31 {
        Some("MSR_READ")
    } else if r == 32 {
        Some("MSR_WRITE")
    } else if r == 44 {
        Some("APIC_ACCESS")
    } else if r == 48 {
        Some("EPT_VIOLATION")
    } else if r == 49 {
        Some("EPT_MISCONFIG")
    } else if r == 52 {
        Some("PREEMPTION_TIMER")
    } else {
        None
    }
}

/// The name of an exit reason of AMD processors.
pub open spec fn svm_name(r: u32) -> Option<Seq<char>> {
    if r == 0x060 {
        Some("INTR"@)
    } else if r == 0x061 {
        Some("NMI"@)
    } else if r == 0x078 {
        Some("HLT"@)
    } else if r == 0x07b {
        Some("IOIO"@)
    } else if r == 0x07c {
        Some("MSR"@)
    } else if r == 0x081 {
        Some("VMMCALL"@)
    } else if r == 0x400 {
        Some("NPF"@)
    } else {
        None
    }
}

/// The name of an exit reason of AMD processors.
pub fn svm_reason(r: u32) -> (s: Option<&'static str>)
    ensures
        json::opt_str(s) == svm_name(r),
{
    if r == 0x060 {
        Some("INTR")
    } else if r == 0x061 {
        Some("NMI")
    } else if r == 0x078 {
        Some("HLT")
    } else if r == 0x07b {
        Some("IOIO")
    } else if r == 0x07c {
        Some("MSR")
    } else if r == 0x081 {
        Some("VMMCALL")
    } else if r == 0x400 {
        Some("NPF")
    } else {
        None
    }
}

/// The name of an exit reason, or its number where it has none.
pub open spec fn reason(vendor: Seq<char>, r: u32) -> Seq<char> {
    let named = if vendor == "amd"@ {
        svm_name(r)
    } else if vendor == "intel"@ {
        vmx_name(r)
    } else {
        None
    };
    match named {
        Some(n) => n,
        None => "reason_"@ + text::decimal(r as nat),
    }
}

/// The name of an exit reason. The makers number their reasons differently.
pub fn reason_name(vendor: &str, r: u32) -> (s: String)
    ensures
        s@ == reason(vendor@, r),
{
    let named = if text::same(vendor, "amd") {
        svm_reason(r)
    } else if text::same(vendor, "intel") {
        vmx_reason(r)
    } else {
        None
    };
    match named {
        Some(n) => n.to_owned(),
        None => text::join2("reason_", &text::dec(r as u64)),
    }
}

/// Read a key: the control group and the exit reason.
pub fn parse_hist_key(bytes: &[u8], order: Order) -> (r: (u64, u32))
    requires
        bytes@.len() >= 12,
    ensures
        r.0 == gadget::number(bytes@.subrange(0, 8), order),
        r.1 == gadget::number(bytes@.subrange(8, 12), order),
{
    (gadget::u64_at(bytes, 0, order), gadget::u32_at(bytes, 8, order))
}

/// Read a value: the histogram and its count.
pub fn parse_hist(bytes: &[u8], order: Order) -> (r: (Vec<u32>, u64))
    requires
        bytes@.len() >= 160,
    ensures
        r.0@ == gadget::counts(bytes@, MAX_SLOTS as nat, order),
        r.1 == gadget::total(r.0@),
{
    let slots: Vec<u32> = gadget::read_counts(bytes, MAX_SLOTS, order);
    let count: u64 = gadget::sum(&slots);
    (slots, count)
}

/// How the gadget was asked to key its histograms.
#[derive(Debug)]
pub struct Keying {
    /// One histogram for each control group, or one for all.
    pub per_guest: bool,
    pub max_keys: u64,
}

/// The histogram of an entry.
pub open spec fn slots_of(e: Entry, order: Order) -> Seq<u32> {
    gadget::counts(e.value@, MAX_SLOTS as nat, order)
}

/// The series of an entry.
pub open spec fn entry_series(e: Entry, vendor: Seq<char>, k: Keying, order: Order) -> Json {
    let slots = slots_of(e, order);
    gadget::series_json(
        "kvm.exit_handling_latency:"@ + reason(
            vendor,
            gadget::number(e.key@.subrange(8, 12), order) as u32,
        ),
        "ns"@,
        "histogram"@,
        "kvm_exit"@,
        if k.per_guest {
            Some(text::decimal(gadget::number(e.key@.subrange(0, 8), order)))
        } else {
            None
        },
        if k.per_guest {
            gadget::bounded("cgroup_id"@, k.max_keys)
        } else {
            json::fields().text("class"@, "singleton"@).json()
        },
        gadget::log2_data(slots, gadget::total(slots) as int),
    )
}

/// The series of the map: one for each entry that counted anything.
pub open spec fn kvm_series(entries: Seq<Entry>, vendor: Seq<char>, k: Keying, order: Order) -> Seq<
    Json,
>
    decreases entries.len(),
{
    if entries.len() == 0 {
        Seq::empty()
    } else {
        let before = kvm_series(entries.drop_last(), vendor, k, order);
        if gadget::total(slots_of(entries.last(), order)) == 0 {
            before
        } else {
            before.push(entry_series(entries.last(), vendor, k, order))
        }
    }
}

/// Whether an entry can be read.
pub open spec fn sound(e: Entry) -> bool {
    e.key@.len() >= 12 && e.value@.len() >= 160
}

fn series_of(
    e: &Entry,
    slots: &Vec<u32>,
    count: u64,
    vendor: &str,
    k: &Keying,
    order: Order,
) -> (r: Doc)
    requires
        sound(*e),
        slots@ == slots_of(*e, order),
        count == gadget::total(slots@),
    ensures
        r@ == entry_series(*e, vendor@, *k, order),
{
    let (cgroup_id, exit_reason) = parse_hist_key(&e.key, order);
    let name: String = text::join2(
        "kvm.exit_handling_latency:",
        &reason_name(vendor, exit_reason),
    );
    let key: Option<String> = if k.per_guest {
        Some(text::dec(cgroup_id))
    } else {
        None
    };
    let cardinality = if k.per_guest {
        gadget::bounded_by("cgroup_id", k.max_keys)
    } else {
        Doc::Object(Object::new().text("class", "singleton"))
    };
    gadget::series(
        &name,
        "ns",
        "histogram",
        "kvm_exit",
        key,
        cardinality,
        gadget::log2(slots, count),
    )
}

/// The series of the map.
pub fn series(entries: &Vec<Entry>, vendor: &str, k: &Keying, order: Order) -> (r: Vec<Doc>)
    requires
        forall|i: int| 0 <= i < entries@.len() ==> sound(#[trigger] entries@[i]),
    ensures
        json::jsons(r@) == kvm_series(entries@, vendor@, *k, order),
{
    let mut out: Vec<Doc> = Vec::new();
    let mut i: usize = 0;
    assert(entries@.take(0) =~= Seq::empty());
    assert(json::jsons(out@) =~= Seq::empty());
    while i < entries.len()
        invariant
            i <= entries@.len(),
            forall|j: int| 0 <= j < entries@.len() ==> sound(#[trigger] entries@[j]),
            json::jsons(out@) == kvm_series(entries@.take(i as int), vendor@, *k, order),
        decreases entries@.len() - i,
    {
        assert(entries@.take(i + 1).drop_last() =~= entries@.take(i as int));
        let ghost was = out@;
        let e = &entries[i];
        let (slots, count) = parse_hist(&e.value, order);
        if count != 0 {
            let s = series_of(e, &slots, count, vendor, k, order);
            let ghost j = s@;
            out.push(s);
            assert(json::jsons(out@) =~= json::jsons(was).push(j));
        }
        i += 1;
    }
    assert(entries@.take(i as int) =~= entries@);
    out
}

/// What the gadget reports. Where the map is as full as it can be, keys may be
/// missing, and the report says so.
pub open spec fn report(
    series: Seq<Json>,
    exit: Cost,
    entry: Cost,
    window_ns: u64,
    vendor: Seq<char>,
    per_guest: bool,
    live_keys: u64,
    max_entries: u64,
) -> Json {
    gadget::fragment_json(
        series,
        seq![
            gadget::cost_json("kvm_exit"@, "tracepoint"@, exit),
            gadget::cost_json("kvm_entry"@, "tracepoint"@, entry),
        ],
        json::fields().text("gadget"@, "assayist-capture-kvm"@).with(
            "window_ns"@,
            Json::Int(window_ns as int),
        ).text("cpu_vendor"@, vendor).with("per_guest"@, Json::Bool(per_guest)).with(
            "cardinality_overflow"@,
            Json::Bool(live_keys >= max_entries),
        ).json(),
    )
}

pub fn fragment(
    series: Vec<Doc>,
    exit: &Cost,
    entry: &Cost,
    window_ns: u64,
    vendor: &str,
    per_guest: bool,
    live_keys: u64,
    max_entries: u64,
) -> (r: Doc)
    ensures
        r@ == report(
            json::jsons(series@),
            *exit,
            *entry,
            window_ns,
            vendor@,
            per_guest,
            live_keys,
            max_entries,
        ),
{
    let mut costs: Vec<Doc> = Vec::new();
    costs.push(gadget::probe_cost("kvm_exit", "tracepoint", exit));
    costs.push(gadget::probe_cost("kvm_entry", "tracepoint", entry));
    assert(json::jsons(costs@) =~= seq![
        gadget::cost_json("kvm_exit"@, "tracepoint"@, *exit),
        gadget::cost_json("kvm_entry"@, "tracepoint"@, *entry),
    ]);
    let meta = Object::new().text("gadget", "assayist-capture-kvm").with(
        "window_ns",
        json::uint(window_ns),
    ).text("cpu_vendor", vendor).with("per_guest", Doc::Bool(per_guest)).with(
        "cardinality_overflow",
        Doc::Bool(live_keys >= max_entries),
    );
    gadget::fragment(series, costs, Doc::Object(meta))
}

} // verus!
