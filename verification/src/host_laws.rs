//! How a host is tuned, what is launched on it, and what it is known by.
use crate::adapter;
use crate::capture;
use crate::def::CaptureEntry;
use crate::hostmem;
use crate::hostprep::{self, Facts, Knobs};
use crate::json::{self, Json};
use crate::linux::{self, Tune};
use crate::pipeline::{self, TargetKind, WorkloadKind};
use crate::text;
use vstd::prelude::*;

verus! {

broadcast use json::law_lookup_put;

// ---------------------------------------------------------------------------
// Tuning
// ---------------------------------------------------------------------------

/// Whether an entry is a processor whose governor can be set.
pub open spec fn governed(e: (Seq<char>, bool)) -> bool {
    linux::is_cpu(e.0) && e.1
}

/// Writing a governor to a processor.
pub open spec fn governor_write(cpu: Seq<char>, governor: Seq<char>) -> Tune {
    Tune::Write("/sys/devices/system/cpu/"@ + cpu + "/cpufreq/scaling_governor"@, governor)
}

proof fn lemma_writes(es: Seq<(Seq<char>, bool)>, governor: Seq<char>, i: int)
    ensures
        0 <= i < es.len() && governed(es[i]) ==> linux::governor_writes(es, governor).contains(
            governor_write(es[i].0, governor),
        ),
        forall|k: int|
            0 <= k < linux::governor_writes(es, governor).len() ==> (
            #[trigger] linux::governor_writes(es, governor)[k]) is Write,
        linux::governor_writes(es, governor).len() > 0 <==> exists|j: int|
            0 <= j < es.len() && governed(#[trigger] es[j]),
    decreases es.len(),
{
    if es.len() > 0 {
        let less = es.drop_last();
        lemma_writes(less, governor, i);
        let before = linux::governor_writes(less, governor);
        let all = linux::governor_writes(es, governor);
        assert(es[es.len() - 1] == es.last());
        if 0 <= i < es.len() && governed(es[i]) {
            let x = governor_write(es[i].0, governor);
            if i < less.len() {
                assert(less[i] == es[i]);
                let k = before.index_of(x);
                assert(all[k] == x);
            } else {
                assert(all[before.len() as int] == x);
            }
        }
        assert forall|k: int| 0 <= k < all.len() implies (#[trigger] all[k]) is Write by {
            if k < before.len() {
                assert(before[k] is Write);
                assert(all[k] == before[k]);
            }
        }
        if exists|j: int| 0 <= j < less.len() && governed(#[trigger] less[j]) {
            let j = choose|j: int| 0 <= j < less.len() && governed(#[trigger] less[j]);
            assert(governed(es[j]));
        }
        if exists|j: int| 0 <= j < es.len() && governed(#[trigger] es[j]) {
            let j = choose|j: int| 0 <= j < es.len() && governed(#[trigger] es[j]);
            if j < less.len() {
                assert(governed(less[j]));
            }
        }
    }
}

/// Tuning is refused exactly where a governor is asked for and no processor has one, or
/// multithreading is to be switched and the host has no control for it.
pub proof fn law_which_tunings_are_refused(k: Knobs, es: Seq<(Seq<char>, bool)>, control: bool)
    ensures
        linux::refused(linux::tuning_steps(k, es, control)) <==> (k.cpu_governor is Some && !exists|
            j: int,
        |
            0 <= j < es.len() && governed(#[trigger] es[j])) || (k.smt is Some && !control),
{
    if let Some(g) = k.cpu_governor {
        lemma_writes(es, g, 0);
        let ws = linux::governor_writes(es, g);
        if ws.len() > 0 {
            assert(ws[ws.len() - 1] is Write);
        }
    }
}

/// Where tuning is not refused, the governor that is asked for is written to every
/// processor that has one, multithreading is switched on or off as asked, and the
/// setting of huge pages is written as asked.
pub proof fn law_asked_tunings_are_written(
    k: Knobs,
    es: Seq<(Seq<char>, bool)>,
    control: bool,
    i: int,
)
    requires
        !linux::refused(linux::tuning_steps(k, es, control)),
    ensures
        ({
            let ts = linux::tuning_steps(k, es, control);
            &&& k.cpu_governor matches Some(g) ==> (0 <= i < es.len() && governed(es[i])
                ==> ts.contains(governor_write(es[i].0, g)))
            &&& k.smt == Some(true) ==> ts.contains(
                Tune::Write("/sys/devices/system/cpu/smt/control"@, "on"@),
            )
            &&& k.smt == Some(false) ==> ts.contains(
                Tune::Write("/sys/devices/system/cpu/smt/control"@, "off"@),
            )
            &&& k.thp matches Some(t) ==> ts.contains(
                Tune::Write("/sys/kernel/mm/transparent_hugepage/enabled"@, t),
            )
        }),
{
    let ts = linux::tuning_steps(k, es, control);
    law_which_tunings_are_refused(k, es, control);
    let first = match k.cpu_governor {
        Some(g) => linux::governor_steps(es, g),
        None => Seq::empty(),
    };
    if let Some(g) = k.cpu_governor {
        lemma_writes(es, g, i);
        assert(first == linux::governor_writes(es, g));
        assert(first[first.len() - 1] is Write);
        if 0 <= i < es.len() && governed(es[i]) {
            let at = first.index_of(governor_write(es[i].0, g));
            assert(ts[at] == first[at]);
        }
    }
    assert(!linux::refused(first));
    let second = match k.smt {
        Some(on) => linux::followed(first, linux::smt_steps(control, on)),
        None => first,
    };
    if let Some(on) = k.smt {
        assert(second[first.len() as int] == linux::smt_steps(control, on)[0]);
        assert(ts[first.len() as int] == second[first.len() as int]);
    }
    if let Some(t) = k.thp {
        assert(!linux::refused(second));
        assert(ts[second.len() as int] == Tune::Write(
            "/sys/kernel/mm/transparent_hugepage/enabled"@,
            t,
        ));
    }
}

// ---------------------------------------------------------------------------
// Fingerprints
// ---------------------------------------------------------------------------

/// A fingerprint has the facts of the host as they were read, the tuning that was asked
/// for and the one that was read back, each in its place.
pub proof fn law_fingerprints_hold_the_facts(
    f: Facts,
    requested: Knobs,
    readback: Knobs,
    tenancy: Seq<char>,
    layout: Option<Json>,
)
    ensures
        ({
            let h = hostprep::fingerprint_of(f, requested, readback, tenancy, layout);
            &&& h.hostname == f.hostname@
            &&& h.kernel_version == f.kernel_version@
            &&& h.os_release == f.os_release@
            &&& h.cpu_model == f.cpu_model@
            &&& h.cpu_count_logical == f.cpu_count_logical
            &&& h.cpu_count_physical == f.cpu_count_physical
            &&& h.smt_enabled == f.smt_enabled
            &&& h.cpu_governor == f.cpu_governor@
            &&& h.thp_setting == f.thp_setting@
            &&& h.total_memory_bytes == f.total_memory_bytes
            &&& h.kvm_present == f.kvm_present
            &&& h.tenancy == tenancy
            &&& h.numa_topology == json::opt_json(f.numa_topology)
            &&& h.mitigations == json::opt_json(f.mitigations)
            &&& h.microcode_version == text::opt_text(f.microcode_version)
            &&& h.nested_virt == f.nested_virt
            &&& h.pinning_layout == layout
            &&& json::str_field(h.tuning_requested, "cpu_governor"@) == requested.cpu_governor
            &&& json::str_field(h.tuning_requested, "thp"@) == requested.thp
            &&& json::bool_of(json::member(h.tuning_requested, "smt"@)) == requested.smt
            &&& json::str_field(h.tuning_readback, "cpu_governor"@) == readback.cpu_governor
            &&& json::str_field(h.tuning_readback, "thp"@) == readback.thp
            &&& json::bool_of(json::member(h.tuning_readback, "smt"@)) == readback.smt
        }),
{
    reveal_strlit("cpu_governor");
    reveal_strlit("smt");
    reveal_strlit("thp");
    assert("cpu_governor"@[0] == 'c' && "smt"@[0] == 's' && "thp"@[0] == 't');
}

// ---------------------------------------------------------------------------
// Launches
// ---------------------------------------------------------------------------

/// A gadget is launched for the length of the window, told where to write, and given
/// its own arguments with the variables put in, in their order.
pub proof fn law_gadgets_are_told_window_and_output(
    es: Seq<CaptureEntry>,
    duration: u64,
    dir: Seq<char>,
    vars: Seq<(Seq<char>, Seq<char>)>,
    i: int,
    k: int,
)
    requires
        capture::planned(es, duration, dir, vars) is Ok,
        0 <= i < es.len(),
    ensures
        es[i].gadget is Some,
        ({
            let l = capture::planned(es, duration, dir, vars)->Ok_0[i];
            &&& l.gadget == es[i].gadget->0@
            &&& l.probe == es[i].probe@
            &&& l.args.len() == 4 + es[i].args@.len()
            &&& l.args[0] == "--duration"@
            &&& l.args[1] == text::decimal(duration as nat)
            &&& l.args[2] == "--out"@
            &&& l.args[3] == l.out_path
            &&& 0 <= k < es[i].args@.len() ==> l.args[4 + k] == adapter::rendered(
                es[i].args@[k]@,
                vars,
            )
        }),
{
    capture::law_every_entry_is_launched(es, duration, dir, vars, i);
}

/// The machine of each kind of name: firecracker and qemu are driven natively, all others
/// by their commands. So are fio, wrk and vsock, with their variants.
pub proof fn law_names_select_adapters(name: Seq<char>)
    ensures
        pipeline::target_kind_of(name) == TargetKind::Firecracker <==> name == "firecracker"@,
        pipeline::target_kind_of(name) == TargetKind::Qemu <==> name == "qemu"@,
        pipeline::workload_kind_of(name) == WorkloadKind::Fio <==> name == "fio"@
            || text::has_prefix(name, "fio-"@),
        pipeline::workload_kind_of(name) == WorkloadKind::Wrk <==> text::has_prefix(name, "wrk"@),
        pipeline::workload_kind_of(name) == WorkloadKind::Vsock <==> name == "vsock"@,
{
    reveal_strlit("firecracker");
    reveal_strlit("qemu");
    reveal_strlit("fio");
    reveal_strlit("fio-");
    reveal_strlit("wrk");
    reveal_strlit("vsock");
    assert("firecracker"@.len() == 11 && "qemu"@.len() == 4);
    assert("fio"@[0] == 'f' && "fio-"@[0] == 'f' && "wrk"@[0] == 'w' && "vsock"@[0] == 'v');
    if text::has_prefix(name, "fio-"@) {
        assert(name.take("fio-"@.len() as int)[0] == name[0]);
    }
    if text::has_prefix(name, "wrk"@) {
        assert(name.take("wrk"@.len() as int)[0] == name[0]);
    }
    if name == "wrk"@ {
        assert(name.take("wrk"@.len() as int) =~= "wrk"@);
    }
}

/// As many instances are brought up as the cell or the settings say, one where they say
/// nothing. Of several, each knows its own number and, where threads are pinned, the
/// first processor of its own.
pub proof fn law_instances_are_numbered(
    config: Seq<(Seq<char>, Json)>,
    vars: Seq<(Seq<char>, Seq<char>)>,
    pin_threads: bool,
    n: nat,
    vcpu: nat,
    i: int,
)
    requires
        json::lookup(vars, "instances"@) matches Some(s) && text::unsigned(s, u32::MAX as nat)
            == Some(n),
        json::lookup(vars, "vcpu"@) matches Some(s) && text::unsigned(s, u32::MAX as nat) == Some(
            vcpu,
        ),
        n >= 2,
        vcpu >= 1,
        0 <= i < n,
        n * vcpu <= u32::MAX,
    ensures
        ({
            let all = pipeline::all_vars(config, vars, pin_threads);
            &&& all.len() == n
            &&& json::lookup(all[i], "instance"@) == Some(text::decimal(i as nat))
            &&& pin_threads ==> json::lookup(all[i], "cpu_base"@) == Some(
                text::decimal((i * vcpu) as nat),
            )
            &&& forall|k: Seq<char>|
                k != "instance"@ && k != "cpu_base"@ ==> #[trigger] json::lookup(all[i], k)
                    == json::lookup(vars, k)
        }),
{
    reveal_strlit("instance");
    reveal_strlit("cpu_base");
    assert("instance"@[0] == 'i' && "cpu_base"@[0] == 'c');
    assert(0 <= i * vcpu <= n * vcpu) by (nonlinear_arith)
        requires
            0 <= i < n,
            vcpu >= 0,
    ;
}

// ---------------------------------------------------------------------------
// Files of a host
// ---------------------------------------------------------------------------

proof fn lemma_field(ls: Seq<Seq<char>>, key: Seq<char>, from: nat, i: int)
    requires
        from <= i < ls.len(),
        linux::keyed(ls[i]) matches Some(p) && p.0 == key,
        forall|j: int|
            from <= j < i ==> (linux::keyed(#[trigger] ls[j]) matches Some(p) ==> p.0 != key),
    ensures
        linux::field_from(ls, key, from) == Some((linux::keyed(ls[i])->0).1),
    decreases i - from,
{
    if from < i {
        assert(linux::keyed(ls[from as int]) matches Some(p) ==> p.0 != key);
        lemma_field(ls, key, from + 1, i);
    }
}

/// A field of the processor table is what stands behind the colon of the first line that
/// has the key before it, white space aside.
pub proof fn law_processor_fields_are_read(t: Seq<char>, key: Seq<char>, i: int)
    requires
        0 <= i < text::lines_of(t).len(),
        text::cut_at(text::lines_of(t)[i], ':') matches Some(p) && text::trimmed(p.0) == key,
        forall|j: int|
            0 <= j < i ==> (text::cut_at(#[trigger] text::lines_of(t)[j], ':') matches Some(p)
                ==> text::trimmed(p.0) != key),
    ensures
        linux::cpu_field(t, key) == Some(
            text::trimmed((text::cut_at(text::lines_of(t)[i], ':')->0).1),
        ),
{
    let ls = text::lines_of(t);
    assert forall|j: int| 0 <= j < i implies (linux::keyed(#[trigger] ls[j]) matches Some(p) ==> p.0
        != key) by {
        assert(text::cut_at(text::lines_of(t)[j], ':') matches Some(p) ==> text::trimmed(p.0)
            != key);
    }
    lemma_field(ls, key, 0, i);
}

/// How many of the lines begin a processor.
pub open spec fn processors(ls: Seq<Seq<char>>) -> nat
    decreases ls.len(),
{
    if ls.len() == 0 {
        0
    } else {
        processors(ls.drop_last()) + (if text::cut_at(ls.last(), ':') matches Some(p) && text::trimmed(
            p.0,
        ) == "processor"@ {
            1nat
        } else {
            0
        })
    }
}

proof fn lemma_tally(ls: Seq<Seq<char>>)
    ensures
        linux::tally(ls).logical == processors(ls),
        linux::tally(ls).cores.no_duplicates(),
    decreases ls.len(),
{
    if ls.len() > 0 {
        lemma_tally(ls.drop_last());
        reveal_strlit("processor");
        reveal_strlit("physical id");
        reveal_strlit("core id");
        assert("processor"@.len() == 9 && "physical id"@.len() == 11 && "core id"@.len() == 7);
    }
}

/// A host has as many logical processors as its table has lines that begin one; and no
/// core is counted twice.
pub proof fn law_processors_are_counted(t: Seq<char>)
    requires
        0 < processors(text::lines_of(t)) <= u32::MAX,
    ensures
        linux::counts(t).0 == processors(text::lines_of(t)),
        linux::with_core(linux::tally(text::lines_of(t))).no_duplicates(),
{
    lemma_tally(text::lines_of(t));
    vstd::arithmetic::div_mod::lemma_small_mod(processors(text::lines_of(t)), 0x1_0000_0000);
}

proof fn lemma_first_line(ls: Seq<Seq<char>>, p: Seq<char>, from: nat, i: int)
    requires
        from <= i < ls.len(),
        text::has_prefix(ls[i], p),
        forall|j: int| from <= j < i ==> !text::has_prefix(#[trigger] ls[j], p),
    ensures
        hostmem::first_with(ls, p, from) == Some(ls[i]),
    decreases i - from,
{
    if from < i {
        assert(!text::has_prefix(ls[from as int], p));
        lemma_first_line(ls, p, from + 1, i);
    }
}

/// The memory of a host in bytes is 1024 times the number behind `MemTotal:`.
pub proof fn law_total_memory_is_in_bytes(t: Seq<char>, i: int, kb: nat)
    requires
        0 <= i < text::lines_of(t).len(),
        text::has_prefix(text::lines_of(t)[i], "MemTotal:"@),
        forall|j: int|
            0 <= j < i ==> !text::has_prefix(#[trigger] text::lines_of(t)[j], "MemTotal:"@),
        ({
            let ws = text::words_of(text::lines_of(t)[i].skip("MemTotal:"@.len() as int));
            ws.len() > 0 && text::unsigned(ws[0], u64::MAX as nat) == Some(kb)
        }),
        kb * 1024 <= u64::MAX,
    ensures
        linux::total_memory(t) matches Some(n) && n == kb * 1024,
{
    lemma_first_line(text::lines_of(t), "MemTotal:"@, 0, i);
}

proof fn lemma_first_bracketed(ws: Seq<Seq<char>>, from: nat, i: int)
    requires
        from <= i < ws.len(),
        linux::bracketed(ws[i]) is Some,
        forall|j: int| from <= j < i ==> linux::bracketed(#[trigger] ws[j]) is None,
    ensures
        linux::first_bracketed(ws, from) == linux::bracketed(ws[i]),
    decreases i - from,
{
    if from < i {
        assert(linux::bracketed(ws[from as int]) is None);
        lemma_first_bracketed(ws, from + 1, i);
    }
}

/// Of a list of settings the active one is the first that stands in brackets.
pub proof fn law_active_settings_stand_in_brackets(t: Seq<char>, i: int, w: Seq<char>)
    requires
        0 <= i < text::words_of(t).len(),
        text::words_of(t)[i] == seq!['['] + w + seq![']'],
        forall|j: int|
            0 <= j < i ==> text::words_of(t)[j].len() == 0 || (#[trigger] text::words_of(t)[j])[0]
                != '[',
    ensures
        linux::active_setting(t) == Some(w),
{
    let ws = text::words_of(t);
    let x = ws[i];
    assert(x[0] == '[' && x.last() == ']' && x.skip(1).len() > 0);
    assert(x.subrange(1, x.len() - 1) =~= w);
    assert forall|j: int| 0 <= j < i implies linux::bracketed(#[trigger] ws[j]) is None by {
        assert(text::words_of(t)[j].len() == 0 || text::words_of(t)[j][0] != '[');
    }
    lemma_first_bracketed(ws, 0, i);
}

/// The state of each vulnerability that could be read is told under its name.
pub proof fn law_mitigations_are_told(es: Seq<(Seq<char>, Option<Seq<char>>)>, i: int)
    requires
        0 <= i < es.len(),
        es[i].1 is Some,
        forall|j: int| i < j < es.len() ==> (#[trigger] es[j]).0 != es[i].0,
    ensures
        json::lookup(linux::states_of(es), es[i].0) == Some(Json::Str(es[i].1->0)),
    decreases es.len(),
{
    if i < es.len() - 1 {
        let less = es.drop_last();
        assert forall|j: int| i < j < less.len() implies (#[trigger] less[j]).0 != less[i].0 by {
            assert(less[j] == es[j]);
        }
        law_mitigations_are_told(less, i);
        assert(es[es.len() - 1].0 != es[i].0);
    }
}

/// The processors of each node are told under its name.
pub proof fn law_nodes_are_told(es: Seq<(Seq<char>, Option<Seq<char>>)>, i: int)
    requires
        0 <= i < es.len(),
        linux::is_node(es[i].0),
        es[i].1 is Some,
        forall|j: int| i < j < es.len() ==> (#[trigger] es[j]).0 != es[i].0,
    ensures
        json::lookup(linux::nodes_of(es), es[i].0) == Some(Json::Str(es[i].1->0)),
    decreases es.len(),
{
    if i < es.len() - 1 {
        let less = es.drop_last();
        assert forall|j: int| i < j < less.len() implies (#[trigger] less[j]).0 != less[i].0 by {
            assert(less[j] == es[j]);
        }
        law_nodes_are_told(less, i);
        assert(es[es.len() - 1].0 != es[i].0);
    }
}

} // verus!
