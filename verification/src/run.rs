//! The pieces of a run that its driver owns: identity, gate context, run id.
use crate::adapter::{Event, Machine, Session};
use crate::contract::{self, AssayRun, Fingerprint, Fragment, Identified, Identity};
use crate::def::BenchmarkDef;
use crate::digest;
use crate::gate_call;
use crate::json::{self, Doc, Json, Num, Object};
use crate::text;
use vstd::prelude::*;

verus! {

/// The versions that the running adapters report. A definition carries a
/// constraint on a version, not the version that produced a result.
#[derive(Debug)]
pub struct AdapterVersions {
    pub target: String,
    pub workload: String,
}

impl Default for AdapterVersions {
    fn default() -> (r: Self)
        ensures
            r.target@ == "0.0.0"@,
            r.workload@ == "0.0.0"@,
    {
        AdapterVersions { target: "0.0.0".to_owned(), workload: "0.0.0".to_owned() }
    }
}

/// Build the identity of a run of one cell.
pub fn build_identity(
    def: &BenchmarkDef,
    params: Doc,
    params_hash: String,
    benchmark_def_sha: &str,
    sut_git_sha: &str,
    versions: &AdapterVersions,
) -> (r: Identity)
    ensures
        r@ == (Identified {
            target_adapter: def.target.adapter@,
            target_adapter_version: versions.target@,
            workload_driver: def.workload.driver@,
            workload_driver_version: versions.workload@,
            sut_git_sha: sut_git_sha@,
            params: params@,
            params_hash: params_hash@,
            benchmark_def_sha: benchmark_def_sha@,
            source: "captured"@,
        }),
{
    Identity {
        target_adapter: def.target.adapter.clone(),
        target_adapter_version: versions.target.clone(),
        workload_driver: def.workload.driver.clone(),
        workload_driver_version: versions.workload.clone(),
        sut_git_sha: sut_git_sha.to_owned(),
        params,
        params_hash,
        benchmark_def_sha: benchmark_def_sha.to_owned(),
        source: "captured".to_owned(),
    }
}

/// The comparison context of a definition: what it sets, and the defaults of what it
/// leaves open.
pub open spec fn gate_context(def: BenchmarkDef, baseline_ref: Seq<char>) -> Json {
    json::fields().text("mode"@, def.gate.mode@).text("baseline_ref"@, baseline_ref).with(
        "p_threshold"@,
        Json::Float(gate_call::p_threshold(def.gate)),
    ).with("noise_threshold"@, Json::Float(gate_call::noise_threshold(def.gate))).with(
        "resamples"@,
        Json::Int(gate_call::resamples(def.gate) as int),
    ).with("ignore"@, json::strs(text::texts(def.gate.ignore@))).text(
        "tenancy"@,
        def.tenancy@,
    ).json()
}

/// Build the comparison context. The baseline is empty when a run is captured: the id
/// of the first run is known only once both groups exist.
pub fn build_gate_context(def: &BenchmarkDef, baseline_ref: &str) -> (r: Doc)
    ensures
        r@ == gate_context(*def, baseline_ref@),
{
    let t = gate_call::thresholds(&def.gate, false);
    Doc::Object(
        Object::new().text("mode", &def.gate.mode).text("baseline_ref", baseline_ref).with(
            "p_threshold",
            Doc::Num(Num::Float(t.p_threshold)),
        ).with("noise_threshold", Doc::Num(Num::Float(t.noise_threshold))).with(
            "resamples",
            json::uint(t.resamples),
        ).with("ignore", json::strings(&t.ignore)).text("tenancy", &def.tenancy),
    )
}

/// Assemble and grade one run.
pub fn assemble(
    run_id: String,
    identity: Identity,
    fingerprint: Fingerprint,
    gate: Doc,
    fragments: &[Fragment],
    spans: Vec<Doc>,
) -> (r: AssayRun)
    ensures
        r@ == contract::assembled(
            run_id@,
            identity@,
            fingerprint@,
            gate@,
            contract::fragment_views(fragments@),
            json::jsons(spans@),
        ),
{
    AssayRun::assemble(run_id, identity, fingerprint, gate, fragments, spans)
}

// ---------------------------------------------------------------------------
// Run ids
// ---------------------------------------------------------------------------

/// A number in hexadecimal, in so many digits.
pub open spec fn hex_of(n: nat, width: nat) -> Seq<char>
    decreases width,
{
    if width == 0 {
        Seq::empty()
    } else {
        hex_of(n / 16, (width - 1) as nat).push(json::hex_digit(n as int % 16))
    }
}

fn hex(n: u128, width: usize) -> (r: String)
    ensures
        r@ == hex_of(n as nat, width as nat),
    decreases width,
{
    if width == 0 {
        return String::new();
    }
    let mut s = hex(n / 16, width - 1);
    s.push(digest::hex_char((n % 16) as u8));
    s
}

/// The number of a run: the time, above the process that it ran in.
pub open spec fn run_number(nanos: u64, process: u32) -> u128 {
    ((nanos as u128) << 32u128) ^ ((process * 0x9E37_79B9_7F4A_7C15) as u128)
}

/// The id of a run: its number, as 32 hexadecimal digits.
pub open spec fn run_id(nanos: u64, process: u32) -> Seq<char> {
    hex_of(run_number(nanos, process) as nat, 32)
}

/// The id of a run that began at a time, in a process.
pub fn run_id_at(nanos: u64, process: u32) -> (r: String)
    ensures
        r@ == run_id(nanos, process),
{
    let p: u128 = (process as u128) * 0x9E37_79B9_7F4A_7C15u128;
    let mixed: u128 = ((nanos as u128) << 32u128) ^ p;
    hex(mixed, 32)
}

/// A new run id, from the time as the machine tells it.
pub fn new_run_id<M: Machine>(sh: &mut Session<M>, process: u32) -> (r: String)
    ensures
        final(sh).machine() == old(sh).machine(),
        exists|t: u64|
            final(sh).log() == old(sh).log().push(Event::Clocked(t)) && r@ == #[trigger] run_id(
                t,
                process,
            ),
{
    let t: u64 = sh.now_nanos();
    run_id_at(t, process)
}

/// A run id is 32 hexadecimal digits.
pub proof fn law_run_ids_are_hex(nanos: u64, process: u32)
    ensures
        run_id(nanos, process).len() == 32,
        forall|i: int|
            0 <= i < 32 ==> {
                let c = #[trigger] run_id(nanos, process)[i];
                '0' <= c <= '9' || 'a' <= c <= 'f'
            },
{
    lemma_hex(run_number(nanos, process) as nat, 32);
}

proof fn lemma_hex(n: nat, width: nat)
    ensures
        hex_of(n, width).len() == width,
        forall|i: int|
            0 <= i < width ==> {
                let c = #[trigger] hex_of(n, width)[i];
                '0' <= c <= '9' || 'a' <= c <= 'f'
            },
    decreases width,
{
    if width > 0 {
        lemma_hex(n / 16, (width - 1) as nat);
        let d = json::hex_digit(n as int % 16);
        assert('0' <= d <= '9' || 'a' <= d <= 'f');
        let h = hex_of(n / 16, (width - 1) as nat);
        assert forall|i: int| 0 <= i < width implies {
            let c = #[trigger] hex_of(n, width)[i];
            '0' <= c <= '9' || 'a' <= c <= 'f'
        } by {
            if i < width - 1 {
                assert(hex_of(n, width)[i] == h[i]);
            }
        }
    }
}

/// Runs of one process that begin at different times have different ids.
pub proof fn law_run_ids_differ(a: u64, b: u64, process: u32)
    requires
        a != b,
    ensures
        run_id(a, process) != run_id(b, process),
{
    let p = (process * 0x9E37_79B9_7F4A_7C15) as u128;
    let x = a as u128;
    let y = b as u128;
    assert((x << 32u128) ^ p != (y << 32u128) ^ p) by (bit_vector)
        requires
            x != y,
            x <= 0xffff_ffff_ffff_ffff,
            y <= 0xffff_ffff_ffff_ffff,
    ;
    let m = run_number(a, process);
    let n = run_number(b, process);
    assert(power16(32) == 0x1_0000_0000_0000_0000_0000_0000_0000_0000) by {
        reveal_with_fuel(power16, 33);
    }
    if run_id(a, process) == run_id(b, process) {
        lemma_hex_injective(m as nat, n as nat, 32);
    }
}

spec fn power16(n: nat) -> nat
    decreases n,
{
    if n == 0 {
        1
    } else {
        16 * power16((n - 1) as nat)
    }
}

proof fn lemma_hex_injective(m: nat, n: nat, width: nat)
    requires
        hex_of(m, width) == hex_of(n, width),
        m < power16(width),
        n < power16(width),
    ensures
        m == n,
    decreases width,
{
    if width > 0 {
        let a = hex_of(m / 16, (width - 1) as nat);
        let b = hex_of(n / 16, (width - 1) as nat);
        let x = json::hex_digit(m as int % 16);
        let y = json::hex_digit(n as int % 16);
        assert(a.push(x).drop_last() =~= a);
        assert(b.push(y).drop_last() =~= b);
        assert(a.push(x).last() == x);
        assert(b.push(y).last() == y);
        assert(m as int % 16 == n as int % 16);
        lemma_hex_injective(m / 16, n / 16, (width - 1) as nat);
    }
}

} // verus!
