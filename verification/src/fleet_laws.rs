//! What is told of several instances and of the virtual machines among them.
use crate::adapter::NetAttribution;
use crate::drive;
use crate::fanout;
use crate::json::{self, Json};
use crate::netattrib::{self, Vm};
use crate::reduce;
use crate::text;
use vstd::prelude::*;

verus! {

broadcast use json::law_lookup_put;

// ---------------------------------------------------------------------------
// Instances
// ---------------------------------------------------------------------------

proof fn lemma_labels(i: nat, j: nat)
    requires
        i != j,
    ensures
        "instance"@ + text::decimal(i) != "instance"@ + text::decimal(j),
{
    let a = "instance"@ + text::decimal(i);
    let b = "instance"@ + text::decimal(j);
    text::lemma_decimal(i);
    text::lemma_decimal(j);
    assert(a.skip("instance"@.len() as int) =~= text::decimal(i));
    assert(b.skip("instance"@.len() as int) =~= text::decimal(j));
}

proof fn lemma_layouts(ls: Seq<Option<Json>>, n: nat, i: int)
    requires
        n <= ls.len(),
        0 <= i < ls.len(),
    ensures
        json::lookup(fanout::merged_layouts(ls, n), "instance"@ + text::decimal(i as nat)) == (if i
            < n {
            ls[i]
        } else {
            None
        }),
        fanout::merged_layouts(ls, n).len() == 0 <==> forall|j: int|
            0 <= j < n ==> (#[trigger] ls[j]) is None,
    decreases n,
{
    if n > 0 {
        lemma_layouts(ls, (n - 1) as nat, i);
        if i != n - 1 {
            lemma_labels(i as nat, (n - 1) as nat);
        }
        let before = fanout::merged_layouts(ls, (n - 1) as nat);
        if let Some(l) = ls[n - 1] {
            let k = fanout::instance_label(n - 1);
            json::law_lookup_put(before, k, l, k);
            assert(json::lookup(json::put(before, k, l), k) is Some);
            assert(fanout::merged_layouts(ls, n).len() > 0);
        } else {
            assert(fanout::merged_layouts(ls, n) == before);
        }
    }
}

/// The layout of several instances has that of each instance that pinned under the
/// instance's number. There is none exactly where no instance pinned.
pub proof fn law_layouts_are_told_by_instance(ls: Seq<Option<Json>>, i: int)
    requires
        0 <= i < ls.len(),
    ensures
        fanout::merged_layout(ls) is None <==> forall|j: int|
            0 <= j < ls.len() ==> (#[trigger] ls[j]) is None,
        fanout::merged_layout(ls) matches Some(m) ==> json::field(
            m,
            "instance"@ + text::decimal(i as nat),
        ) == ls[i],
{
    lemma_layouts(ls, ls.len(), i);
}

proof fn lemma_files(fs: Seq<Seq<(String, String)>>, n: nat, i: int, k: int) -> (at: int)
    requires
        n <= fs.len(),
        0 <= i < n,
        0 <= k < fs[i].len(),
    ensures
        0 <= at < fanout::labelled_files(fs, n).len(),
        fanout::labelled_files(fs, n)[at] == ("instance"@ + text::decimal(i as nat), fs[i][k].1@),
    decreases n,
{
    let before = fanout::labelled_files(fs, (n - 1) as nat);
    if i < n - 1 {
        lemma_files(fs, (n - 1) as nat, i, k)
    } else {
        before.len() + k
    }
}

/// Each snapshot file of each instance is among those of all, under the instance's
/// number.
pub proof fn law_files_are_told_by_instance(fs: Seq<Seq<(String, String)>>, i: int, k: int)
    requires
        0 <= i < fs.len(),
        0 <= k < fs[i].len(),
    ensures
        fanout::labelled_files(fs, fs.len()).contains(
            ("instance"@ + text::decimal(i as nat), fs[i][k].1@),
        ),
{
    let at = lemma_files(fs, fs.len(), i, k);
    assert(fanout::labelled_files(fs, fs.len())[at] == (
        "instance"@ + text::decimal(i as nat),
        fs[i][k].1@,
    ));
}

proof fn lemma_taps(ns: Seq<Seq<NetAttribution>>, n: nat, i: int, k: int) -> (at: int)
    requires
        n <= ns.len(),
        0 <= i < n,
        0 <= k < ns[i].len(),
    ensures
        0 <= at < fanout::all_taps(ns, n).len(),
        fanout::all_taps(ns, n)[at] == ns[i][k],
    decreases n,
{
    let before = fanout::all_taps(ns, (n - 1) as nat);
    if i < n - 1 {
        lemma_taps(ns, (n - 1) as nat, i, k)
    } else {
        before.len() + k
    }
}

proof fn lemma_taps_from(ns: Seq<Seq<NetAttribution>>, n: nat, at: int) -> (i: int)
    requires
        n <= ns.len(),
        0 <= at < fanout::all_taps(ns, n).len(),
    ensures
        0 <= i < n,
        ns[i].contains(fanout::all_taps(ns, n)[at]),
    decreases n,
{
    let before = fanout::all_taps(ns, (n - 1) as nat);
    if at < before.len() {
        lemma_taps_from(ns, (n - 1) as nat, at)
    } else {
        assert(ns[n - 1][at - before.len()] == fanout::all_taps(ns, n)[at]);
        n - 1
    }
}

/// The taps of several instances are those of each of them, and no others.
pub proof fn law_taps_are_those_of_all_instances(ns: Seq<Seq<NetAttribution>>, t: NetAttribution)
    ensures
        fanout::all_taps(ns, ns.len()).contains(t) <==> exists|i: int|
            0 <= i < ns.len() && (#[trigger] ns[i]).contains(t),
{
    let all = fanout::all_taps(ns, ns.len());
    if all.contains(t) {
        let at = all.index_of(t);
        let i = lemma_taps_from(ns, ns.len(), at);
        assert(ns[i].contains(t));
    }
    if exists|i: int| 0 <= i < ns.len() && (#[trigger] ns[i]).contains(t) {
        let i = choose|i: int| 0 <= i < ns.len() && (#[trigger] ns[i]).contains(t);
        let k = ns[i].index_of(t);
        let at = lemma_taps(ns, ns.len(), i, k);
        assert(all[at] == t);
    }
}

// ---------------------------------------------------------------------------
// Virtual machines
// ---------------------------------------------------------------------------

/// The provenance of a virtual machine says its handle, its id, its tap, its address,
/// and the interface and the namespace that it is known by.
pub proof fn law_provenance_tells_the_machine(v: Vm)
    ensures
        ({
            let d = netattrib::provenance_row(v);
            &&& json::member(d, "handle"@) == Json::Int(v.handle as int)
            &&& json::str_field(d, "vm_id"@) == Some(v.vm_id)
            &&& json::str_field(d, "tap"@) == Some(v.tap)
            &&& json::str_field(d, "guest_mac"@) == Some(v.guest_mac)
            &&& json::member(d, "ifindex"@) == Json::Int(v.ifindex as int)
            &&& json::member(d, "netns_inum"@) == Json::Int(v.netns_inum as int)
        }),
{
    reveal_strlit("handle");
    reveal_strlit("vm_id");
    reveal_strlit("tap");
    reveal_strlit("guest_mac");
    reveal_strlit("ifindex");
    reveal_strlit("netns_inum");
    assert("handle"@[0] == 'h' && "vm_id"@[0] == 'v' && "tap"@[0] == 't');
    assert("guest_mac"@[0] == 'g' && "ifindex"@[0] == 'i' && "netns_inum"@[0] == 'n');
}

/// The provenance of a run lists each of its virtual machines, and the handles that
/// could not be resolved exactly where there are any.
pub proof fn law_provenance_lists_the_machines(rows: Seq<Vm>, unknown: Seq<Seq<char>>, i: int)
    ensures
        ({
            let d = drive::provenance(rows, unknown);
            &&& json::items(d, "vms"@).len() == rows.len()
            &&& 0 <= i < rows.len() ==> json::items(d, "vms"@)[i] == netattrib::provenance_row(rows[i])
            &&& unknown.len() == 0 ==> json::field(d, "unresolved_handles"@) is None
            &&& unknown.len() > 0 ==> json::field(d, "unresolved_handles"@) == Some(
                json::strs(unknown),
            )
        }),
{
    reveal_strlit("vms");
    reveal_strlit("unresolved_handles");
    assert("vms"@[0] == 'v' && "unresolved_handles"@[0] == 'u');
}

/// A label is among the unresolved exactly where a series has it and it names no virtual
/// machine that was handed out a handle. None is listed twice.
pub proof fn law_unresolved_labels_are_listed_once(rows: Seq<Vm>, series: Seq<Json>, raw: Seq<char>)
    ensures
        netattrib::unknown_in(rows, series).contains(raw) <==> (exists|i: int|
            0 <= i < series.len() && json::str_field(
                json::member(#[trigger] series[i], "labels"@),
                "vm_id"@,
            ) == Some(raw)) && netattrib::labelled_vm(rows, raw) is None,
        netattrib::unknown_in(rows, series).no_duplicates(),
    decreases series.len(),
{
    if series.len() > 0 {
        let less = series.drop_last();
        law_unresolved_labels_are_listed_once(rows, less, raw);
        let before = netattrib::unknown_in(rows, less);
        let all = netattrib::unknown_in(rows, series);
        let last = series.last();
        assert(series[series.len() - 1] == last);
        if before.contains(raw) {
            let k = before.index_of(raw);
            assert(all[k] == raw);
        }
        if netattrib::vm_label(last) == Some(raw) && netattrib::labelled_vm(rows, raw) is None
            && !before.contains(raw) {
            assert(all[before.len() as int] == raw);
        }
        if all.contains(raw) && !before.contains(raw) {
            let k = all.index_of(raw);
            assert(k == before.len());
        }
        if exists|i: int|
            0 <= i < less.len() && json::str_field(
                json::member(#[trigger] less[i], "labels"@),
                "vm_id"@,
            ) == Some(raw) {
            let i = choose|i: int|
                0 <= i < less.len() && json::str_field(
                    json::member(#[trigger] less[i], "labels"@),
                    "vm_id"@,
                ) == Some(raw);
            assert(series[i] == less[i]);
        }
        if exists|i: int|
            0 <= i < series.len() && json::str_field(
                json::member(#[trigger] series[i], "labels"@),
                "vm_id"@,
            ) == Some(raw) {
            let i = choose|i: int|
                0 <= i < series.len() && json::str_field(
                    json::member(#[trigger] series[i], "labels"@),
                    "vm_id"@,
                ) == Some(raw);
            if i < less.len() {
                assert(less[i] == series[i]);
            }
        }
    }
}

// ---------------------------------------------------------------------------
// Ids of series
// ---------------------------------------------------------------------------

/// A series is known by its name; then by its key, where it has one; then by each of its
/// labels, where it has any, one after another.
pub proof fn law_series_are_known_by_name_key_and_labels(
    s: Json,
    name: Seq<char>,
    labels: Seq<(Seq<char>, Json)>,
    k: Seq<char>,
    v: Seq<char>,
)
    requires
        json::str_field(s, "name"@) == Some(name),
    ensures
        json::str_field(s, "key"@) is None && json::field(s, "labels"@) is None ==> reduce::series_id(
            s,
        ) == name,
        json::str_field(s, "key"@) matches Some(key) ==> (json::field(s, "labels"@) is None
            ==> reduce::series_id(s) == name + "|"@ + key),
        reduce::label_suffix(labels.push((k, Json::Str(v))), labels.len() + 1)
            == reduce::label_suffix(labels, labels.len()) + "|"@ + k + "="@ + v,
{
    lemma_suffix(labels, (k, Json::Str(v)), labels.len());
}

proof fn lemma_suffix(labels: Seq<(Seq<char>, Json)>, more: (Seq<char>, Json), n: nat)
    requires
        n <= labels.len(),
    ensures
        reduce::label_suffix(labels.push(more), n) == reduce::label_suffix(labels, n),
    decreases n,
{
    if n > 0 {
        lemma_suffix(labels, more, (n - 1) as nat);
    }
}

} // verus!
