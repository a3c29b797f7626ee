//! Invoking an agentless guest over the host side of its vsock.
//!
//! The connection is the invocation. The workload decides what to do next from
//! what came of the last step; connecting and sleeping are done around it.
use crate::json::{self, Doc, Json, Object};
use crate::native::{self, setting};
use crate::table::Table;
use crate::text;
use vstd::prelude::*;

verus! {

/// Invocations of a guest through a host socket.
#[derive(Debug)]
pub struct VsockWorkload {
    pub uds: String,
    pub port: u32,
    pub invocations: u32,
    pub payload: String,
    pub timeout_ms: u64,
    pub latencies_ns: Vec<u128>,
    pub errors: u32,
    pub phase: Phase,
}

/// How far the invocations have come.
#[derive(Clone, Copy, Debug, PartialEq, Eq, Structural)]
pub enum Phase {
    Idle,
    /// The first one is retried up to a time.
    First(u128),
    /// So many were made.
    Rest(u32),
}

/// What to do next.
#[derive(Clone, Copy, Debug, PartialEq, Eq, Structural)]
pub enum Turn {
    Invoke,
    /// Wait a moment, then invoke.
    Pause,
    Over,
}

/// A number of a setting, or a default where it holds none.
pub open spec fn number_setting(
    config: Seq<(Seq<char>, Json)>,
    vars: Seq<(Seq<char>, Seq<char>)>,
    key: Seq<char>,
    default: Seq<char>,
    max: nat,
    fallback: nat,
) -> nat {
    match text::unsigned(setting(config, vars, key, default), max) {
        Some(n) => n,
        None => fallback,
    }
}

fn number_cfg(
    config: &Object,
    vars: &Table<String>,
    key: &str,
    default: &str,
    max: u64,
    fallback: u64,
) -> (r: u64)
    requires
        fallback <= max,
    ensures
        r == number_setting(config@, vars@, key@, default@, max as nat, fallback as nat),
        r <= max,
{
    match text::parse_unsigned(&native::cfg(config, vars, key, default), max) {
        Some(n) => n,
        None => fallback,
    }
}

/// The vsock workload of a definition's settings.
pub fn vsock_workload(config: &Object, vars: &Table<String>) -> (r: VsockWorkload)
    ensures
        r.uds@ == setting(config@, vars@, "uds"@, ""@),
        r.port == number_setting(config@, vars@, "port"@, "5252"@, u32::MAX as nat, 5252),
        r.invocations == number_setting(
            config@,
            vars@,
            "invocations"@,
            "50"@,
            u32::MAX as nat,
            50,
        ),
        r.payload@ == setting(config@, vars@, "payload"@, ""@),
        r.timeout_ms == number_setting(
            config@,
            vars@,
            "timeout_ms"@,
            "5000"@,
            u64::MAX as nat,
            5000,
        ),
        r.latencies_ns@.len() == 0,
        r.errors == 0,
        r.phase == Phase::Idle,
{
    VsockWorkload {
        uds: native::cfg(config, vars, "uds", ""),
        port: number_cfg(config, vars, "port", "5252", 0xffff_ffff, 5252) as u32,
        invocations: number_cfg(config, vars, "invocations", "50", 0xffff_ffff, 50) as u32,
        payload: native::cfg(config, vars, "payload", ""),
        timeout_ms: number_cfg(config, vars, "timeout_ms", "5000", u64::MAX, 5000),
        latencies_ns: Vec::new(),
        errors: 0,
        phase: Phase::Idle,
    }
}

// ---------------------------------------------------------------------------
// The handshake
// ---------------------------------------------------------------------------

/// The line that asks for a guest's port.
pub open spec fn connect_text(port: u32) -> Seq<char> {
    "CONNECT "@ + text::decimal(port as nat) + "\n"@
}

/// The line that asks for a guest's port.
pub fn connect_line(port: u32) -> (r: String)
    ensures
        r@ == connect_text(port),
{
    let mut s = text::join2("CONNECT ", &text::dec(port as u64));
    s.append("\n");
    s
}

/// What the answer to that line means: it begins with `OK ` once the guest
/// accepts.
pub open spec fn accepted(port: u32, line: Seq<char>) -> Result<(), Seq<char>> {
    if text::has_prefix(line, "OK "@) {
        Ok(())
    } else {
        Err(
            "vsock CONNECT "@ + text::decimal(port as nat) + " rejected: "@ + text::debug_of(line),
        )
    }
}

/// What the answer to that line means.
pub fn handshake(port: u32, line: &str) -> (r: Result<(), String>)
    ensures
        crate::adapter::outcome(r) == accepted(port, line@),
{
    if text::starts_with(line, "OK ") {
        Ok(())
    } else {
        let mut s = text::join2("vsock CONNECT ", &text::dec(port as u64));
        s.append(" rejected: ");
        s.append(&text::debug_str(line));
        Err(s)
    }
}

// ---------------------------------------------------------------------------
// The invocations
// ---------------------------------------------------------------------------

/// The view of what to do next.
pub open spec fn turn_view(r: Result<Turn, String>) -> Result<Turn, Seq<char>> {
    match r {
        Ok(t) => Ok(t),
        Err(e) => Err(e@),
    }
}

/// The time up to which the first invocation is retried.
pub open spec fn deadline(now: u64, timeout_ms: u64) -> u128 {
    (now + timeout_ms * 1_000_000) as u128
}

/// Whether one more invocation follows so many.
pub open spec fn after_made(made: int, invocations: u32) -> Turn {
    if made < invocations {
        Turn::Invoke
    } else {
        Turn::Over
    }
}

/// Whether what came of an invocation took a workload from one state to the
/// next, and what is to be done then. A first invocation that fails is tried
/// again until its time is up; one that fails later is an error counted.
pub open spec fn took(
    a: VsockWorkload,
    b: VsockWorkload,
    outcome: Result<u128, String>,
    now: u64,
    r: Result<Turn, String>,
) -> bool {
    match (a.phase, outcome) {
        (Phase::Idle, _) => r == Ok::<Turn, String>(Turn::Over) && b == a,
        (Phase::First(_), Ok(d)) => b.went_through(a, d, 1) && r == Ok::<Turn, String>(
            after_made(1, a.invocations),
        ),
        (Phase::First(end), Err(e)) => b == a && turn_view(r) == (if now >= end {
            Err("vsock first invocation failed: "@ + e@)
        } else {
            Ok(Turn::Pause)
        }),
        (Phase::Rest(n), Ok(d)) => b.went_through(a, d, n + 1) && r == Ok::<Turn, String>(
            after_made(n + 1, a.invocations),
        ),
        (Phase::Rest(n), Err(_)) => b == (VsockWorkload {
            phase: Phase::Rest((n + 1) as u32),
            errors: (a.errors + 1) as u32,
            ..a
        }) && r == Ok::<Turn, String>(after_made(n + 1, a.invocations)),
    }
}

impl VsockWorkload {
    /// Begin. A guest that has just resumed may not be listening yet, so the
    /// first invocation is retried for a while.
    pub fn begin(&mut self, now: u64) -> (r: Result<Turn, String>)
        ensures
            if text::trimmed(old(self).uds@).len() == 0 {
                turn_view(r) == Err::<Turn, Seq<char>>(
                    "vsock workload needs a 'uds' (the firecracker host vsock socket)"@,
                ) && *final(self) == *old(self)
            } else {
                r == Ok::<Turn, String>(Turn::Invoke) && *final(self) == (VsockWorkload {
                    phase: Phase::First(deadline(now, old(self).timeout_ms)),
                    ..*old(self)
                })
            },
    {
        if text::trim(&self.uds).as_str().is_empty() {
            return Err(
                "vsock workload needs a 'uds' (the firecracker host vsock socket)".to_owned(),
            );
        }
        self.phase = Phase::First((now as u128) + (self.timeout_ms as u128) * 1_000_000);
        Ok(Turn::Invoke)
    }

    /// Take what came of an invocation, at a time.
    pub fn invoked(&mut self, outcome: Result<u128, String>, now: u64) -> (r: Result<Turn, String>)
        requires
            old(self).phase matches Phase::Rest(n) ==> n < old(self).invocations && old(
                self,
            ).errors < u32::MAX,
        ensures
            took(*old(self), *final(self), outcome, now, r),
    {
        match self.phase {
            Phase::Idle => Ok(Turn::Over),
            Phase::First(end) => match outcome {
                Ok(d) => {
                    self.latencies_ns.push(d);
                    self.phase = Phase::Rest(1);
                    if 1 < self.invocations {
                        Ok(Turn::Invoke)
                    } else {
                        Ok(Turn::Over)
                    }
                },
                Err(e) => if (now as u128) >= end {
                    Err(text::join2("vsock first invocation failed: ", &e))
                } else {
                    Ok(Turn::Pause)
                },
            },
            Phase::Rest(n) => {
                match outcome {
                    Ok(d) => {
                        self.latencies_ns.push(d);
                    },
                    Err(_) => {
                        self.errors = self.errors + 1;
                    },
                }
                self.phase = Phase::Rest(n + 1);
                if n + 1 < self.invocations {
                    Ok(Turn::Invoke)
                } else {
                    Ok(Turn::Over)
                }
            },
        }
    }

    /// Whether this is `a` after an invocation that took `d`, the `made`th.
    pub open spec fn went_through(self, a: VsockWorkload, d: u128, made: int) -> bool {
        &&& self == (VsockWorkload {
            phase: Phase::Rest(made as u32),
            latencies_ns: self.latencies_ns,
            ..a
        })
        &&& self.latencies_ns@ == a.latencies_ns@.push(d)
    }

    /// Whether every invocation made was counted, since a workload that had not
    /// begun.
    pub open spec fn counted(self) -> bool {
        match self.phase {
            Phase::Rest(n) => self.latencies_ns@.len() + self.errors == n && n >= 1 && (n
                <= self.invocations || n == 1),
            _ => self.latencies_ns@.len() == 0 && self.errors == 0,
        }
    }
}

/// Each invocation is counted once, as a latency or as an error: one more step
/// keeps the count.
pub proof fn law_invocations_are_counted(
    a: VsockWorkload,
    b: VsockWorkload,
    outcome: Result<u128, String>,
    now: u64,
    r: Result<Turn, String>,
)
    requires
        a.counted(),
        a.phase matches Phase::Rest(n) ==> n < a.invocations,
        took(a, b, outcome, now, r),
    ensures
        b.counted(),
{
}

// ---------------------------------------------------------------------------
// The summary
// ---------------------------------------------------------------------------

/// Numbers in ascending order, with one more put in.
pub open spec fn ranked_in(s: Seq<u128>, x: u128) -> Seq<u128>
    decreases s.len(),
{
    if s.len() == 0 || s.last() <= x {
        s.push(x)
    } else {
        ranked_in(s.drop_last(), x).push(s.last())
    }
}

/// Numbers in ascending order.
pub open spec fn ranked(s: Seq<u128>) -> Seq<u128>
    decreases s.len(),
{
    if s.len() == 0 {
        s
    } else {
        ranked_in(ranked(s.drop_last()), s.last())
    }
}

pub open spec fn ascending(s: Seq<u128>) -> bool {
    forall|i: int, j: int| 0 <= i <= j < s.len() ==> s[i] <= s[j]
}

proof fn lemma_ranked_in(s: Seq<u128>, x: u128)
    requires
        ascending(s),
    ensures
        ascending(ranked_in(s, x)),
        ranked_in(s, x).len() == s.len() + 1,
        ranked_in(s, x).to_multiset() == s.to_multiset().insert(x),
        forall|i: int|
            0 <= i < ranked_in(s, x).len() ==> (#[trigger] ranked_in(s, x)[i] == x || exists|j: int|
                0 <= j < s.len() && #[trigger] s[j] == ranked_in(s, x)[i]),
    decreases s.len(),
{
    broadcast use vstd::seq_lib::group_to_multiset_ensures;

    let r = ranked_in(s, x);
    if s.len() == 0 || s.last() <= x {
        assert forall|i: int| 0 <= i < r.len() implies (#[trigger] r[i] == x || exists|j: int|
            0 <= j < s.len() && #[trigger] s[j] == r[i]) by {
            if i < s.len() {
                assert(s[i] == r[i]);
            }
        }
    } else {
        let d = s.drop_last();
        lemma_ranked_in(d, x);
        let q = ranked_in(d, x);
        assert(s =~= d.push(s.last()));
        assert(r.to_multiset() =~= s.to_multiset().insert(x));
        assert forall|i: int| 0 <= i < r.len() implies (#[trigger] r[i] == x || exists|j: int|
            0 <= j < s.len() && #[trigger] s[j] == r[i]) by {
            if i < q.len() {
                assert(r[i] == q[i]);
                if q[i] != x {
                    let j = choose|j: int| 0 <= j < d.len() && #[trigger] d[j] == q[i];
                    assert(s[j] == r[i]);
                }
            } else {
                assert(s[s.len() - 1] == r[i]);
            }
        }
        assert forall|i: int, j: int| 0 <= i <= j < r.len() implies r[i] <= r[j] by {
            if j == r.len() - 1 && i < j {
                assert(r[i] == q[i]);
                if q[i] != x {
                    let k = choose|k: int| 0 <= k < d.len() && #[trigger] d[k] == q[i];
                    assert(s[k] <= s[s.len() - 1]);
                }
            }
        }
    }
}

/// Ranking puts samples in ascending order and keeps each of them.
pub proof fn law_ranking(s: Seq<u128>)
    ensures
        ascending(ranked(s)),
        ranked(s).len() == s.len(),
        ranked(s).to_multiset() == s.to_multiset(),
    decreases s.len(),
{
    broadcast use vstd::seq_lib::group_to_multiset_ensures;

    if s.len() > 0 {
        law_ranking(s.drop_last());
        lemma_ranked_in(ranked(s.drop_last()), s.last());
        assert(s =~= s.drop_last().push(s.last()));
    }
}

fn rank_in(v: &mut Vec<u128>, x: u128)
    requires
        ascending(old(v)@),
    ensures
        final(v)@ == ranked_in(old(v)@, x),
{
    let ghost s = v@;
    let mut k: usize = v.len();
    assert(s.take(s.len() as int) =~= s);
    assert(ranked_in(s.take(k as int), x) + s.skip(k as int) =~= ranked_in(s, x));
    while k > 0 && v[k - 1] > x
        invariant
            k <= v@.len(),
            v@ == s,
            ranked_in(s.take(k as int), x) + s.skip(k as int) == ranked_in(s, x),
        decreases k,
    {
        let ghost t = s.take(k as int);
        assert(t.drop_last() =~= s.take(k - 1));
        assert(t.last() == s[k - 1]);
        assert(ranked_in(s.take(k - 1), x) + s.skip(k - 1) =~= ranked_in(t, x) + s.skip(k as int));
        k -= 1;
    }
    v.insert(k, x);
    assert(ranked_in(s.take(k as int), x) == s.take(k as int).push(x));
    assert(v@ =~= s.take(k as int).push(x) + s.skip(k as int));
}

fn rank(v: &Vec<u128>) -> (r: Vec<u128>)
    ensures
        r@ == ranked(v@),
{
    let mut out: Vec<u128> = Vec::new();
    let mut i: usize = 0;
    assert(v@.take(0) =~= Seq::empty());
    while i < v.len()
        invariant
            i <= v@.len(),
            out@ == ranked(v@.take(i as int)),
        decreases v@.len() - i,
    {
        proof {
            law_ranking(v@.take(i as int));
            assert(v@.take(i + 1).drop_last() =~= v@.take(i as int));
        }
        rank_in(&mut out, v[i]);
        i += 1;
    }
    assert(v@.take(i as int) =~= v@);
    out
}

/// The sum of samples.
pub open spec fn total(s: Seq<u128>) -> nat
    decreases s.len(),
{
    if s.len() == 0 {
        0
    } else {
        total(s.drop_last()) + s.last() as nat
    }
}

proof fn lemma_total_part(s: Seq<u128>, n: int)
    requires
        0 <= n <= s.len(),
    ensures
        total(s.take(n)) <= total(s),
    decreases s.len() - n,
{
    if n < s.len() {
        assert(s.take(n + 1).drop_last() =~= s.take(n));
        lemma_total_part(s, n + 1);
    } else {
        assert(s.take(n) =~= s);
    }
}

fn sum(v: &Vec<u128>) -> (r: u128)
    requires
        total(v@) <= u128::MAX,
    ensures
        r == total(v@),
{
    let mut t: u128 = 0;
    let mut i: usize = 0;
    assert(v@.take(0) =~= Seq::empty());
    while i < v.len()
        invariant
            i <= v@.len(),
            t == total(v@.take(i as int)),
            total(v@) <= u128::MAX,
        decreases v@.len() - i,
    {
        proof {
            assert(v@.take(i + 1).drop_last() =~= v@.take(i as int));
            lemma_total_part(v@, i + 1);
        }
        t = t + v[i];
        i += 1;
    }
    assert(v@.take(i as int) =~= v@);
    t
}

/// The low 64 bits of a number.
pub open spec fn low(x: nat) -> int {
    (x % 0x1_0000_0000_0000_0000) as int
}

fn low_bits(x: u128) -> (r: u64)
    ensures
        r == low(x as nat),
{
    (x % 0x1_0000_0000_0000_0000) as u64
}

/// The nearest rank of a percentile among so many samples.
pub open spec fn rank_of(percent: int, n: int) -> int {
    (percent * (n - 1) + 50) / 100
}

/// The summary of invocations: how many went through of how many, and their
/// latencies. Without any that went through there are no latencies.
pub open spec fn vsock_summarised(s: Seq<u128>, errors: u32, requested: u32) -> Json {
    let n = s.len();
    let base = json::fields().text("driver"@, "vsock"@).with(
        "invocations"@,
        Json::Int(n as int),
    ).with("requested"@, Json::Int(requested as int)).with("errors"@, Json::Int(errors as int));
    if n == 0 {
        base.json()
    } else {
        base.with("latency_avg_ns"@, Json::Int(low(total(s) / n))).with(
            "latency_p50_ns"@,
            Json::Int(low(ranked(s)[rank_of(50, n as int)] as nat)),
        ).with(
            "latency_p99_ns"@,
            Json::Int(low(ranked(s)[rank_of(99, n as int)] as nat)),
        ).with("latency_max_ns"@, Json::Int(low(ranked(s)[n - 1] as nat))).json()
    }
}

/// The summary of invocations.
pub fn vsock_summary(latencies_ns: &Vec<u128>, errors: u32, requested: u32) -> (r: Doc)
    requires
        total(latencies_ns@) <= u128::MAX,
    ensures
        r@ == vsock_summarised(latencies_ns@, errors, requested),
{
    let n: usize = latencies_ns.len();
    let base = Object::new().text("driver", "vsock").with("invocations", json::uint(n as u64)).with(
        "requested",
        json::uint(requested as u64),
    ).with("errors", json::uint(errors as u64));
    if n == 0 {
        return Doc::Object(base);
    }
    let sorted = rank(latencies_ns);
    proof {
        law_ranking(latencies_ns@);
    }
    let last: u128 = (n - 1) as u128;
    let p50: usize = ((50 * last + 50) / 100) as usize;
    let p99: usize = ((99 * last + 50) / 100) as usize;
    let avg: u128 = sum(latencies_ns) / (n as u128);
    Doc::Object(
        base.with("latency_avg_ns", json::uint(low_bits(avg))).with(
            "latency_p50_ns",
            json::uint(low_bits(sorted[p50])),
        ).with("latency_p99_ns", json::uint(low_bits(sorted[p99]))).with(
            "latency_max_ns",
            json::uint(low_bits(sorted[n - 1])),
        ),
    )
}

/// The median lies at or below the ninety-ninth percentile, and that at or below
/// the greatest latency.
pub proof fn law_percentiles_are_ordered(s: Seq<u128>)
    requires
        s.len() > 0,
    ensures
        ({
            let n = s.len() as int;
            let r = ranked(s);
            r[0] <= r[rank_of(50, n)] <= r[rank_of(99, n)] <= r[n - 1]
        }),
{
    law_ranking(s);
}

} // verus!
