//! What the summaries of workloads and of host memory hold.
use crate::hostmem::{self, Held};
use crate::json::{self, Json};
use crate::text;
use crate::vsock;
use crate::workloads;
use vstd::prelude::*;

verus! {

broadcast use json::law_lookup_put;

// ---------------------------------------------------------------------------
// fio
// ---------------------------------------------------------------------------

proof fn lemma_direction_keys()
    ensures
        "iops"@ != "bw_kb_s"@ && "iops"@ != "clat_ns_mean"@ && "iops"@ != "clat_ns_p99"@,
        "bw_kb_s"@ != "clat_ns_mean"@ && "bw_kb_s"@ != "clat_ns_p99"@,
        "clat_ns_mean"@ != "clat_ns_p99"@,
        "driver"@ != "fio_version"@ && "driver"@ != "read"@ && "driver"@ != "write"@,
        "fio_version"@ != "read"@ && "fio_version"@ != "write"@ && "read"@ != "write"@,
{
    reveal_strlit("iops");
    reveal_strlit("bw_kb_s");
    reveal_strlit("clat_ns_mean");
    reveal_strlit("clat_ns_p99");
    reveal_strlit("driver");
    reveal_strlit("fio_version");
    reveal_strlit("read");
    reveal_strlit("write");
    assert("iops"@[0] == 'i' && "bw_kb_s"@[0] == 'b');
    assert("clat_ns_mean"@.len() == 12 && "clat_ns_p99"@.len() == 11);
    assert("clat_ns_mean"@[0] == 'c' && "clat_ns_p99"@[0] == 'c');
    assert("driver"@[0] == 'd' && "fio_version"@[0] == 'f' && "read"@[0] == 'r' && "write"@[0]
        == 'w');
}

/// The summary of an fio report has, for reads and for writes apart, what the first
/// job says of that direction: its operations and its bandwidth, and the mean and the
/// 99th percentile of its completion latency in nanoseconds.
pub proof fn law_fio_summary_is_of_the_first_job(v: Json, jobs: Seq<Json>, name: Seq<char>)
    requires
        json::field(v, "jobs"@) == Some(Json::Arr(jobs)),
        jobs.len() > 0,
        name == "read"@ || name == "write"@,
    ensures
        ({
            let s = json::member(workloads::fio_summarised(v), name);
            let d = json::member(jobs[0], name);
            let clat = json::member(d, "clat_ns"@);
            &&& json::str_field(workloads::fio_summarised(v), "driver"@) == Some("fio"@)
            &&& json::member(s, "iops"@) == json::member(d, "iops"@)
            &&& json::member(s, "bw_kb_s"@) == json::member(d, "bw"@)
            &&& json::field(d, "clat_ns"@) is Some ==> json::member(s, "clat_ns_mean"@)
                == json::member(clat, "mean"@) && json::member(s, "clat_ns_p99"@) == json::member(
                json::member(clat, "percentile"@),
                "99.000000"@,
            )
            &&& json::field(d, "clat_ns"@) is None ==> json::member(s, "clat_ns_mean"@)
                == json::member(json::member(d, "clat"@), "mean"@)
        }),
{
    lemma_direction_keys();
    let job = workloads::first_job(v);
    assert(job == Some(jobs[0]));
    let d = workloads::field_of(job, name);
    assert(json::member(workloads::fio_summarised(v), name) == workloads::direction(job, name));
}

/// Without a job the summary of an fio report has nothing to say of either direction.
pub proof fn law_fio_summary_without_jobs(v: Json, name: Seq<char>)
    requires
        json::field(v, "jobs"@) is None,
        name == "read"@ || name == "write"@,
    ensures
        ({
            let s = json::member(workloads::fio_summarised(v), name);
            &&& json::member(s, "iops"@) is Null
            &&& json::member(s, "bw_kb_s"@) is Null
            &&& json::member(s, "clat_ns_mean"@) is Null
            &&& json::member(s, "clat_ns_p99"@) is Null
        }),
{
    lemma_direction_keys();
    assert(json::member(workloads::fio_summarised(v), name) == workloads::direction(
        workloads::first_job(v),
        name,
    ));
}

// ---------------------------------------------------------------------------
// wrk
// ---------------------------------------------------------------------------

proof fn lemma_labelled(ls: Seq<Seq<char>>, label: Seq<char>, from: nat, i: int)
    requires
        from <= i < ls.len(),
        text::has_prefix(text::trim_start(ls[i]), label),
        forall|j: int| from <= j < i ==> !text::has_prefix(text::trim_start(#[trigger] ls[j]), label),
    ensures
        workloads::labelled_line(ls, label, from) == Some(ls[i]),
    decreases i - from,
{
    if from < i {
        assert(!text::has_prefix(text::trim_start(ls[from as int]), label));
        lemma_labelled(ls, label, from + 1, i);
    }
}

proof fn lemma_holding(ls: Seq<Seq<char>>, part: Seq<char>, from: nat, i: int)
    requires
        from <= i < ls.len(),
        text::has_part(ls[i], part),
        forall|j: int| from <= j < i ==> !text::has_part(#[trigger] ls[j], part),
    ensures
        workloads::line_holding(ls, part, from) == Some(ls[i]),
    decreases i - from,
{
    if from < i {
        assert(!text::has_part(ls[from as int], part));
        lemma_holding(ls, part, from + 1, i);
    }
}

proof fn lemma_wrk_keys()
    ensures
        "driver"@ != "requests_per_sec"@ && "driver"@ != "transfer_per_sec"@,
        "driver"@ != "latency_avg"@ && "driver"@ != "latency_max"@ && "driver"@ != "total_requests"@,
        "requests_per_sec"@ != "transfer_per_sec"@ && "requests_per_sec"@ != "latency_avg"@,
        "requests_per_sec"@ != "latency_max"@ && "requests_per_sec"@ != "total_requests"@,
        "transfer_per_sec"@ != "latency_avg"@ && "transfer_per_sec"@ != "latency_max"@,
        "transfer_per_sec"@ != "total_requests"@ && "latency_avg"@ != "latency_max"@,
        "latency_avg"@ != "total_requests"@ && "latency_max"@ != "total_requests"@,
{
    reveal_strlit("driver");
    reveal_strlit("requests_per_sec");
    reveal_strlit("transfer_per_sec");
    reveal_strlit("latency_avg");
    reveal_strlit("latency_max");
    reveal_strlit("total_requests");
    assert("driver"@[0] == 'd' && "requests_per_sec"@[0] == 'r' && "transfer_per_sec"@[0] == 't');
    assert("total_requests"@[0] == 't' && "transfer_per_sec"@[1] == 'r' && "total_requests"@[1]
        == 'o');
    assert("latency_avg"@[0] == 'l' && "latency_max"@[0] == 'l');
    assert("latency_avg"@[8] == 'a' && "latency_max"@[8] == 'm');
}

/// Whether a line is the first that begins with a label, white space aside.
pub open spec fn first_labelled(ls: Seq<Seq<char>>, label: Seq<char>, i: int) -> bool {
    &&& 0 <= i < ls.len()
    &&& text::has_prefix(text::trim_start(ls[i]), label)
    &&& forall|j: int| 0 <= j < i ==> !text::has_prefix(text::trim_start(#[trigger] ls[j]), label)
}

/// The summary of a load test has the rates that stand after the colon of their lines.
pub proof fn law_wrk_rates_stand_after_the_colon(out: Seq<char>, i: int)
    ensures
        ({
            let ls = text::lines_of(out);
            let d = workloads::wrk_summarised(out);
            let after = text::split_of(ls[i], ':');
            &&& json::str_field(d, "driver"@) == Some("wrk"@)
            &&& first_labelled(ls, "Requests/sec"@, i) && after.len() > 1 ==> json::member(
                d,
                "requests_per_sec"@,
            ) == workloads::rate(Some(text::trimmed(after[1])))
            &&& first_labelled(ls, "Transfer/sec"@, i) && after.len() > 1 ==> json::str_field(
                d,
                "transfer_per_sec"@,
            ) == Some(text::trimmed(after[1]))
        }),
{
    lemma_wrk_keys();
    let ls = text::lines_of(out);
    if first_labelled(ls, "Requests/sec"@, i) {
        lemma_labelled(ls, "Requests/sec"@, 0, i);
    }
    if first_labelled(ls, "Transfer/sec"@, i) {
        lemma_labelled(ls, "Transfer/sec"@, 0, i);
    }
}

/// The summary of a load test has the first and the third word after `Latency` as the
/// average and the greatest latency, and the number before `requests in` as the number
/// of requests.
pub proof fn law_wrk_latencies_and_requests(out: Seq<char>, i: int, rest: Seq<char>, n: nat)
    ensures
        ({
            let ls = text::lines_of(out);
            let d = workloads::wrk_summarised(out);
            &&& first_labelled(ls, "Latency"@, i) && text::after_prefix(
                text::trim_start(ls[i]),
                "Latency"@,
            ) == Some(rest) && text::words_of(rest).len() > 2 ==> json::str_field(
                d,
                "latency_avg"@,
            ) == Some(text::words_of(rest)[0]) && json::str_field(d, "latency_max"@) == Some(
                text::words_of(rest)[2],
            )
            &&& 0 <= i < ls.len() && text::has_part(ls[i], "requests in"@) && (forall|j: int|
                0 <= j < i ==> !text::has_part(#[trigger] ls[j], "requests in"@))
                && text::words_of(ls[i]).len() > 0 && text::unsigned(
                text::words_of(ls[i])[0],
                u64::MAX as nat,
            ) == Some(n) ==> json::member(d, "total_requests"@) == Json::Int(n as int)
        }),
{
    lemma_wrk_keys();
    let ls = text::lines_of(out);
    if first_labelled(ls, "Latency"@, i) {
        lemma_labelled(ls, "Latency"@, 0, i);
    }
    if 0 <= i < ls.len() && text::has_part(ls[i], "requests in"@) && forall|j: int|
        0 <= j < i ==> !text::has_part(#[trigger] ls[j], "requests in"@) {
        lemma_holding(ls, "requests in"@, 0, i);
    }
}

// ---------------------------------------------------------------------------
// vsock
// ---------------------------------------------------------------------------

proof fn lemma_vsock_keys()
    ensures
        "driver"@ != "invocations"@ && "driver"@ != "requested"@ && "driver"@ != "errors"@,
        "invocations"@ != "requested"@ && "invocations"@ != "errors"@ && "requested"@ != "errors"@,
        forall|k: Seq<char>|
            k.len() == 14 ==> k != "driver"@ && k != "invocations"@ && k != "requested"@ && k
                != "errors"@,
        "latency_avg_ns"@.len() == 14 && "latency_p50_ns"@.len() == 14,
        "latency_p99_ns"@.len() == 14 && "latency_max_ns"@.len() == 14,
        "latency_avg_ns"@ != "latency_p50_ns"@ && "latency_avg_ns"@ != "latency_p99_ns"@,
        "latency_avg_ns"@ != "latency_max_ns"@ && "latency_p50_ns"@ != "latency_p99_ns"@,
        "latency_p50_ns"@ != "latency_max_ns"@ && "latency_p99_ns"@ != "latency_max_ns"@,
{
    reveal_strlit("driver");
    reveal_strlit("invocations");
    reveal_strlit("requested");
    reveal_strlit("errors");
    reveal_strlit("latency_avg_ns");
    reveal_strlit("latency_p50_ns");
    reveal_strlit("latency_p99_ns");
    reveal_strlit("latency_max_ns");
    assert("driver"@.len() == 6 && "invocations"@.len() == 11 && "requested"@.len() == 9);
    assert("errors"@.len() == 6 && "driver"@[0] == 'd' && "errors"@[0] == 'e');
    assert("latency_avg_ns"@[8] == 'a' && "latency_max_ns"@[8] == 'm');
    assert("latency_p50_ns"@[8] == 'p' && "latency_p99_ns"@[8] == 'p');
    assert("latency_p50_ns"@[9] == '5' && "latency_p99_ns"@[9] == '9');
}

/// A summary of invocations counts those that went through, those that failed and those
/// that were asked for. Its latencies are those of the samples in ascending order: the
/// one in the middle, the one at the 99th percentile and the last; and the sum of the
/// samples over their number.
pub proof fn law_vsock_summary_is_of_the_samples(s: Seq<u128>, errors: u32, requested: u32)
    requires
        forall|i: int| 0 <= i < s.len() ==> #[trigger] s[i] <= u64::MAX,
    ensures
        ({
            let d = vsock::vsock_summarised(s, errors, requested);
            let n = s.len() as int;
            let r = vsock::ranked(s);
            &&& json::str_field(d, "driver"@) == Some("vsock"@)
            &&& json::member(d, "invocations"@) == Json::Int(n)
            &&& json::member(d, "requested"@) == Json::Int(requested as int)
            &&& json::member(d, "errors"@) == Json::Int(errors as int)
            &&& n == 0 ==> json::field(d, "latency_avg_ns"@) is None && json::field(
                d,
                "latency_max_ns"@,
            ) is None
            &&& vsock::ascending(r) && r.to_multiset() == s.to_multiset() && r.len() == n
            &&& n > 0 ==> json::member(d, "latency_p50_ns"@) == Json::Int(
                r[(50 * (n - 1) + 50) / 100] as int,
            )
            &&& n > 0 ==> json::member(d, "latency_p99_ns"@) == Json::Int(
                r[(99 * (n - 1) + 50) / 100] as int,
            )
            &&& n > 0 ==> json::member(d, "latency_max_ns"@) == Json::Int(r[n - 1] as int)
            &&& n > 0 ==> json::member(d, "latency_avg_ns"@) == Json::Int(
                vsock::total(s) as int / n,
            )
        }),
{
    lemma_vsock_keys();
    vsock::law_ranking(s);
    let n = s.len() as int;
    let r = vsock::ranked(s);
    if n > 0 {
        lemma_kept(s, r, (50 * (n - 1) + 50) / 100);
        lemma_kept(s, r, (99 * (n - 1) + 50) / 100);
        lemma_kept(s, r, n - 1);
        lemma_total(s);
        let t = vsock::total(s) as int;
        assert(0 <= t / n <= u64::MAX) by (nonlinear_arith)
            requires
                0 <= t <= n * u64::MAX,
                0 < n,
        ;
        vstd::arithmetic::div_mod::lemma_small_mod(
            (t / n) as nat,
            0x1_0000_0000_0000_0000,
        );
    }
}

proof fn lemma_kept(s: Seq<u128>, r: Seq<u128>, i: int)
    requires
        r.to_multiset() == s.to_multiset(),
        0 <= i < r.len(),
        forall|k: int| 0 <= k < s.len() ==> #[trigger] s[k] <= u64::MAX,
    ensures
        r[i] <= u64::MAX,
        vsock::low(r[i] as nat) == r[i],
{
    broadcast use vstd::seq_lib::group_to_multiset_ensures;

    assert(r.contains(r[i]));
    assert(s.to_multiset().contains(r[i]));
    assert(s.contains(r[i]));
    vstd::arithmetic::div_mod::lemma_small_mod(r[i] as nat, 0x1_0000_0000_0000_0000);
}

proof fn lemma_total(s: Seq<u128>)
    requires
        forall|i: int| 0 <= i < s.len() ==> #[trigger] s[i] <= u64::MAX,
    ensures
        vsock::total(s) <= s.len() * u64::MAX,
    decreases s.len(),
{
    if s.len() > 0 {
        let less = s.drop_last();
        assert forall|i: int| 0 <= i < less.len() implies #[trigger] less[i] <= u64::MAX by {
            assert(s[i] == less[i]);
        }
        lemma_total(less);
        assert(s[s.len() - 1] <= u64::MAX);
        assert(less.len() * u64::MAX + u64::MAX == s.len() * u64::MAX) by (nonlinear_arith)
            requires
                less.len() + 1 == s.len(),
        ;
    }
}

/// The total of samples is nothing without any, and one more sample adds itself.
pub proof fn law_totals_add_up(s: Seq<u128>, x: u128)
    ensures
        vsock::total(Seq::<u128>::empty()) == 0,
        vsock::total(s.push(x)) == vsock::total(s) + x,
{
    assert(s.push(x).drop_last() =~= s);
}

// ---------------------------------------------------------------------------
// Host memory
// ---------------------------------------------------------------------------

proof fn lemma_gauge_keys()
    ensures
        "name"@ != "unit"@ && "name"@ != "kind"@ && "name"@ != "source"@ && "name"@ != "key"@,
        "name"@ != "cardinality"@ && "name"@ != "data"@ && "unit"@ != "kind"@,
        "unit"@ != "source"@ && "unit"@ != "key"@ && "unit"@ != "cardinality"@ && "unit"@ != "data"@,
        "kind"@ != "source"@ && "kind"@ != "key"@ && "kind"@ != "cardinality"@ && "kind"@ != "data"@,
        "source"@ != "key"@ && "source"@ != "cardinality"@ && "source"@ != "data"@,
        "key"@ != "cardinality"@ && "key"@ != "data"@ && "cardinality"@ != "data"@,
        "value"@ != "time_unix_nano"@,
{
    reveal_strlit("name");
    reveal_strlit("unit");
    reveal_strlit("kind");
    reveal_strlit("source");
    reveal_strlit("key");
    reveal_strlit("cardinality");
    reveal_strlit("data");
    reveal_strlit("value");
    reveal_strlit("time_unix_nano");
    assert("name"@[0] == 'n' && "unit"@[0] == 'u' && "kind"@[0] == 'k' && "source"@[0] == 's');
    assert("key"@[0] == 'k' && "cardinality"@[0] == 'c' && "data"@[0] == 'd');
    assert("kind"@.len() == 4 && "key"@.len() == 3);
    assert("value"@[0] == 'v' && "time_unix_nano"@[0] == 't');
}

/// What a run consumed of the host's memory is what was available before less what is
/// available after. What the page cache gained is what is cached after less what was
/// cached before.
pub proof fn law_consumed_memory_is_what_is_no_longer_available(
    before: (i64, i64),
    after: (i64, i64),
)
    requires
        i64::MIN <= before.0 - after.0 <= i64::MAX,
        i64::MIN <= after.1 - before.1 <= i64::MAX,
    ensures
        ({
            let p = hostmem::hostmem_piece(before, after);
            let consumed = p.series[0];
            let cached = p.series[1];
            &&& p.series.len() == 2 && p.self_metrics.len() == 0 && p.capture_meta is Some
            &&& json::str_field(consumed, "name"@) == Some("hostmem.mem_consumed_kib"@)
            &&& json::str_field(consumed, "kind"@) == Some("gauge"@)
            &&& json::str_field(consumed, "unit"@) == Some("KiBy"@)
            &&& json::member(json::member(consumed, "data"@), "value"@) == Json::Int(
                before.0 - after.0,
            )
            &&& json::str_field(cached, "name"@) == Some("hostmem.cached_delta_kib"@)
            &&& json::str_field(cached, "kind"@) == Some("gauge"@)
            &&& json::str_field(cached, "unit"@) == Some("KiBy"@)
            &&& json::member(json::member(cached, "data"@), "value"@) == Json::Int(
                after.1 - before.1,
            )
        }),
{
    lemma_gauge_keys();
}

proof fn lemma_first(s: Seq<Seq<char>>, p: Seq<char>, from: nat, i: int)
    requires
        from <= i < s.len(),
        text::has_prefix(s[i], p),
        forall|j: int| from <= j < i ==> !text::has_prefix(#[trigger] s[j], p),
    ensures
        hostmem::first_with(s, p, from) == Some(s[i]),
    decreases i - from,
{
    if from < i {
        assert(!text::has_prefix(s[from as int], p));
        lemma_first(s, p, from + 1, i);
    }
}

/// A field of a memory table is the number in the second word of the first line that
/// begins with its name.
pub proof fn law_memory_fields_are_read(t: Seq<char>, name: Seq<char>, i: int, n: int)
    requires
        0 <= i < text::lines_of(t).len(),
        text::has_prefix(text::lines_of(t)[i], name),
        forall|j: int| 0 <= j < i ==> !text::has_prefix(#[trigger] text::lines_of(t)[j], name),
        text::words_of(text::lines_of(t)[i]).len() > 1,
        text::signed(text::words_of(text::lines_of(t)[i])[1]) == Some(n),
    ensures
        hostmem::mem_field(t, name) == n,
{
    lemma_first(text::lines_of(t), name, 0, i);
}

proof fn lemma_resident_at(count: nat, s: Seq<Held>, i: int, k: int)
    requires
        0 <= i < s.len(),
        0 <= k < 3,
    ensures
        hostmem::all_resident(count, s).len() == 3 * s.len(),
        hostmem::all_resident(count, s)[3 * i + k] == hostmem::resident_series(count, s[i])[k],
    decreases s.len(),
{
    let less = s.drop_last();
    if less.len() > 0 {
        if i < less.len() {
            lemma_resident_at(count, less, i, k);
        } else {
            lemma_resident_at(count, less, 0, 0);
        }
    }
    let before = hostmem::all_resident(count, less);
    assert(before.len() == 3 * less.len());
    assert(hostmem::all_resident(count, s) == before + hostmem::resident_series(count, s.last()));
}

/// Of each snapshot's memory file that was measured, the series have the pages that are
/// resident, all pages and the fraction, in the order of the files, under the label of
/// the guest where it has one.
pub proof fn law_residency_is_told_by_guest(s: Seq<Held>, i: int)
    requires
        0 <= i < s.len(),
    ensures
        ({
            let p = hostmem::resident_piece(s);
            let a = p.series[3 * i];
            let b = p.series[3 * i + 1];
            let c = p.series[3 * i + 2];
            &&& p.series.len() == 3 * s.len()
            &&& json::str_field(a, "name"@) == Some("resident.snapshot_resident_pages"@)
            &&& json::member(json::member(a, "data"@), "value"@) == Json::Int(s[i].resident as int)
            &&& json::str_field(b, "name"@) == Some("resident.snapshot_total_pages"@)
            &&& json::member(json::member(b, "data"@), "value"@) == Json::Int(s[i].total as int)
            &&& json::str_field(c, "name"@) == Some("resident.snapshot_fraction"@)
            &&& json::member(json::member(c, "data"@), "value"@) == Json::Float(s[i].fraction)
            &&& s[i].label.len() > 0 ==> json::str_field(a, "key"@) == Some(s[i].label)
                && json::str_field(b, "key"@) == Some(s[i].label) && json::str_field(c, "key"@)
                == Some(s[i].label)
            &&& s[i].label.len() == 0 ==> json::field(a, "key"@) is None && json::field(b, "key"@) is None
                && json::field(c, "key"@) is None
        }),
{
    lemma_gauge_keys();
    lemma_resident_at(s.len(), s, i, 0);
    lemma_resident_at(s.len(), s, i, 1);
    lemma_resident_at(s.len(), s, i, 2);
}

} // verus!
