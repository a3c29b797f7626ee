//! Host preparation and fingerprinting.
//!
//! What preparation asked for must equal what the host reports back, or else
//! the run says something untrue and is thrown out.
use crate::args;
use crate::contract::{self, Fingerprint};
use crate::host::{Asked, HostSession};
use crate::json::{self, Doc, Json, Object};
use crate::text;
use vstd::prelude::*;

verus! {

/// The tuning that can be verified: each knob is set only where it was asked
/// for, and read back in the same shape.
#[derive(Debug)]
pub struct TuningKnobs {
    pub cpu_governor: Option<String>,
    pub smt: Option<bool>,
    pub thp: Option<String>,
}

/// `TuningKnobs` as a mathematical value.
pub struct Knobs {
    pub cpu_governor: Option<Seq<char>>,
    pub smt: Option<bool>,
    pub thp: Option<Seq<char>>,
}

impl View for TuningKnobs {
    type V = Knobs;

    open spec fn view(&self) -> Knobs {
        Knobs {
            cpu_governor: text::opt_text(self.cpu_governor),
            smt: self.smt,
            thp: text::opt_text(self.thp),
        }
    }
}

impl Default for TuningKnobs {
    fn default() -> (r: Self)
        ensures
            r@ == (Knobs { cpu_governor: None, smt: None, thp: None }),
    {
        TuningKnobs { cpu_governor: None, smt: None, thp: None }
    }
}

pub open spec fn opt_str(o: Option<Seq<char>>) -> Option<Json> {
    match o {
        Some(s) => Some(Json::Str(s)),
        None => None,
    }
}

pub open spec fn opt_bool(o: Option<bool>) -> Option<Json> {
    match o {
        Some(b) => Some(Json::Bool(b)),
        None => None,
    }
}

/// The knobs that are set.
pub open spec fn knobs_json(k: Knobs) -> Json {
    json::fields().maybe("cpu_governor"@, opt_str(k.cpu_governor)).maybe(
        "smt"@,
        opt_bool(k.smt),
    ).maybe("thp"@, opt_str(k.thp)).json()
}

fn str_doc(o: &Option<String>) -> (r: Option<Doc>)
    ensures
        json::opt_json(r) == opt_str(text::opt_text(*o)),
{
    match o {
        Some(s) => Some(Doc::String(s.clone())),
        None => None,
    }
}

impl TuningKnobs {
    /// The knobs that are set, as a document.
    pub fn to_value(&self) -> (r: Doc)
        ensures
            r@ == knobs_json(self@),
    {
        let smt = match self.smt {
            Some(b) => Some(Doc::Bool(b)),
            None => None,
        };
        Doc::Object(
            Object::new().maybe("cpu_governor", str_doc(&self.cpu_governor)).maybe(
                "smt",
                smt,
            ).maybe("thp", str_doc(&self.thp)),
        )
    }
}

/// What a definition asks of the host. Pinning threads is no setting of the
/// host: the target carries it out.
#[derive(Debug)]
pub struct HostPrep {
    pub knobs: TuningKnobs,
    pub pin_threads: bool,
}

impl Default for HostPrep {
    fn default() -> (r: Self)
        ensures
            r.knobs@ == (Knobs { cpu_governor: None, smt: None, thp: None }),
            !r.pin_threads,
    {
        HostPrep { knobs: TuningKnobs::default(), pin_threads: false }
    }
}

/// A switch: a boolean, or one of the words that YAML authors write for one.
pub open spec fn switch(j: Json) -> Option<bool> {
    match j {
        Json::Bool(b) => Some(b),
        Json::Str(s) => {
            let l = s.map_values(|c: char| text::ascii_lower(c));
            if l == "on"@ || l == "yes"@ || l == "true"@ || l == "1"@ {
                Some(true)
            } else if l == "off"@ || l == "no"@ || l == "false"@ || l == "0"@ {
                Some(false)
            } else {
                None
            }
        },
        _ => None,
    }
}

fn as_switch(v: &Doc) -> (r: Option<bool>)
    ensures
        r == switch(v@),
{
    match v {
        Doc::Bool(b) => Some(*b),
        Doc::String(s) => {
            let l = text::string(&args::lowered(s));
            if text::same(&l, "on") || text::same(&l, "yes") || text::same(&l, "true")
                || text::same(&l, "1") {
                Some(true)
            } else if text::same(&l, "off") || text::same(&l, "no") || text::same(&l, "false")
                || text::same(&l, "0") {
                Some(false)
            } else {
                None
            }
        },
        _ => None,
    }
}

pub open spec fn switch_at(v: Json, k: Seq<char>) -> Option<bool> {
    match json::field(v, k) {
        Some(j) => switch(j),
        None => None,
    }
}

fn get_switch(v: &Doc, k: &str) -> (r: Option<bool>)
    ensures
        r == switch_at(v@, k@),
{
    match v.get(k) {
        Some(j) => as_switch(j),
        None => None,
    }
}

fn get_text(v: &Doc, k: &str) -> (r: Option<String>)
    ensures
        text::opt_text(r) == json::str_field(v@, k@),
{
    match v.str_at(k) {
        Some(s) => Some(s.to_owned()),
        None => None,
    }
}

impl HostPrep {
    /// Read what a definition asks of the host.
    pub fn from_value(v: &Doc) -> (r: HostPrep)
        ensures
            r.knobs@ == (Knobs {
                cpu_governor: json::str_field(v@, "cpu_governor"@),
                smt: switch_at(v@, "smt"@),
                thp: json::str_field(v@, "thp"@),
            }),
            r.pin_threads == (switch_at(v@, "pin_threads"@) == Some(true)),
    {
        HostPrep {
            knobs: TuningKnobs {
                cpu_governor: get_text(v, "cpu_governor"),
                smt: get_switch(v, "smt"),
                thp: get_text(v, "thp"),
            },
            pin_threads: match get_switch(v, "pin_threads") {
                Some(b) => b,
                None => false,
            },
        }
    }
}

/// What is known of a host apart from its tuning. The optional ones are
/// extended: without them a run is valid rather than reproducible.
#[derive(Debug)]
pub struct Facts {
    pub hostname: String,
    pub kernel_version: String,
    pub os_release: String,
    pub cpu_model: String,
    pub cpu_count_logical: u32,
    pub cpu_count_physical: u32,
    pub smt_enabled: bool,
    pub cpu_governor: String,
    pub thp_setting: String,
    pub total_memory_bytes: u64,
    pub kvm_present: bool,
    pub numa_topology: Option<Doc>,
    pub mitigations: Option<Doc>,
    pub microcode_version: Option<String>,
    pub nested_virt: Option<bool>,
}

/// The seam over the host, so that tests do not touch the machine.
pub trait Host {
    fn facts(&self) -> Result<Facts, String>;

    /// Read back the knobs that were asked for, and only those.
    fn read_tuning(&self, want: &TuningKnobs) -> Result<TuningKnobs, String>;

    /// Write the knobs that were asked for.
    fn apply_tuning(&self, want: &TuningKnobs) -> Result<(), String>;
}

/// The fingerprint of a host.
pub open spec fn fingerprint_of(
    f: Facts,
    requested: Knobs,
    readback: Knobs,
    tenancy: Seq<char>,
    pinning_layout: Option<Json>,
) -> contract::Host {
    contract::Host {
        hostname: f.hostname@,
        kernel_version: f.kernel_version@,
        os_release: f.os_release@,
        cpu_model: f.cpu_model@,
        cpu_count_logical: f.cpu_count_logical,
        cpu_count_physical: f.cpu_count_physical,
        smt_enabled: f.smt_enabled,
        cpu_governor: f.cpu_governor@,
        thp_setting: f.thp_setting@,
        total_memory_bytes: f.total_memory_bytes,
        kvm_present: f.kvm_present,
        tenancy,
        tuning_requested: knobs_json(requested),
        tuning_readback: knobs_json(readback),
        numa_topology: json::opt_json(f.numa_topology),
        pinning_layout,
        mitigations: json::opt_json(f.mitigations),
        microcode_version: text::opt_text(f.microcode_version),
        nested_virt: f.nested_virt,
    }
}

/// Build the fingerprint of a host from its facts, the tuning that was asked
/// for and what the host reported back.
pub fn build_fingerprint(
    facts: &Facts,
    requested: &TuningKnobs,
    readback: &TuningKnobs,
    tenancy: &str,
    pinning_layout: Option<Doc>,
) -> (r: Fingerprint)
    ensures
        r@ == fingerprint_of(
            *facts,
            requested@,
            readback@,
            tenancy@,
            json::opt_json(pinning_layout),
        ),
{
    Fingerprint {
        hostname: facts.hostname.clone(),
        kernel_version: facts.kernel_version.clone(),
        os_release: facts.os_release.clone(),
        cpu_model: facts.cpu_model.clone(),
        cpu_count_logical: facts.cpu_count_logical,
        cpu_count_physical: facts.cpu_count_physical,
        smt_enabled: facts.smt_enabled,
        cpu_governor: facts.cpu_governor.clone(),
        thp_setting: facts.thp_setting.clone(),
        total_memory_bytes: facts.total_memory_bytes,
        kvm_present: facts.kvm_present,
        tenancy: tenancy.to_owned(),
        tuning_requested: requested.to_value(),
        tuning_readback: readback.to_value(),
        numa_topology: json::copy_opt(&facts.numa_topology),
        pinning_layout,
        mitigations: json::copy_opt(&facts.mitigations),
        microcode_version: facts.microcode_version.clone(),
        nested_virt: facts.nested_virt,
    }
}

/// The view of a fingerprint that may have failed.
pub open spec fn observed(r: Result<Fingerprint, String>) -> Result<contract::Host, Seq<char>> {
    match r {
        Ok(f) => Ok(f@),
        Err(e) => Err(e@),
    }
}

/// What comes of a host's facts and readback: the first error, or a
/// fingerprint.
pub open spec fn put_together(
    facts: Result<Facts, String>,
    readback: Result<TuningKnobs, String>,
    requested: Knobs,
    tenancy: Seq<char>,
) -> Result<contract::Host, Seq<char>> {
    match (facts, readback) {
        (Err(e), _) => Err(e@),
        (Ok(_), Err(e)) => Err(e@),
        (Ok(f), Ok(k)) => Ok(fingerprint_of(f, requested, k@, tenancy, None)),
    }
}

/// Whether a host gave its facts and its readback.
pub open spec fn answered<H: Host>(
    host: H,
    want: TuningKnobs,
    facts: Result<Facts, String>,
    readback: Result<TuningKnobs, String>,
) -> bool {
    &&& call_ensures(H::facts, (&host,), facts)
    &&& facts is Ok ==> call_ensures(H::read_tuning, (&host, &want), readback)
}

/// What is asked when a host is observed: its facts, and then a readback.
pub open spec fn looked_at(
    want: TuningKnobs,
    facts: Result<Facts, String>,
    readback: Result<TuningKnobs, String>,
) -> Seq<Asked> {
    if facts is Ok {
        seq![Asked::Facts(facts), Asked::Read(want, readback)]
    } else {
        seq![Asked::Facts(facts)]
    }
}

/// Whether a host was observed, nothing else being asked of it, and the
/// observation is what its answers come to.
pub open spec fn seen<'a, H: Host>(
    pre: HostSession<'a, H>,
    post: HostSession<'a, H>,
    prep: HostPrep,
    tenancy: Seq<char>,
    r: Result<contract::Host, Seq<char>>,
) -> bool {
    &&& post.host() == pre.host()
    &&& exists|f: Result<Facts, String>, k: Result<TuningKnobs, String>|
        {
            &&& #[trigger] answered(pre.host(), prep.knobs, f, k)
            &&& post.log() == pre.log() + looked_at(prep.knobs, f, k)
            &&& r == put_together(f, k, prep.knobs@, tenancy)
        }
}

/// The current facts and a readback of the knobs that were asked for. Nothing
/// on the host changes.
pub fn observe<H: Host>(host: &mut HostSession<H>, prep: &HostPrep, tenancy: &str) -> (r: Result<
    Fingerprint,
    String,
>)
    ensures
        seen(*old(host), *final(host), *prep, tenancy@, observed(r)),
{
    let ghost was = host.log();
    let f = host.facts();
    let facts = match f {
        Ok(x) => x,
        Err(e) => {
            proof {
                let g = Err::<Facts, String>(e);
                let k = Err::<TuningKnobs, String>(e);
                assert(answered(host.host(), prep.knobs, g, k));
                assert(host.log() =~= was + looked_at(prep.knobs, g, k));
            }
            return Err(e);
        },
    };
    let k = host.read_tuning(&prep.knobs);
    let ghost g = Ok::<Facts, String>(facts);
    assert(answered(host.host(), prep.knobs, g, k));
    assert(host.log() =~= was + looked_at(prep.knobs, g, k));
    let readback = match k {
        Ok(x) => x,
        Err(e) => {
            return Err(e);
        },
    };
    Ok(build_fingerprint(&facts, &prep.knobs, &readback, tenancy, None))
}

/// Whether a host's tuning was applied, and where that went well the host was
/// observed after it.
pub open spec fn tuned_then_seen<'a, H: Host>(
    pre: HostSession<'a, H>,
    mid: HostSession<'a, H>,
    post: HostSession<'a, H>,
    prep: HostPrep,
    tenancy: Seq<char>,
    applied: Result<(), String>,
    r: Result<contract::Host, Seq<char>>,
) -> bool {
    &&& call_ensures(H::apply_tuning, (&pre.host(), &prep.knobs), applied)
    &&& mid.host() == pre.host()
    &&& mid.log() == pre.log().push(Asked::Applied(prep.knobs, applied))
    &&& match applied {
        Ok(()) => seen(mid, post, prep, tenancy, r),
        Err(e) => post == mid && r == Err::<contract::Host, Seq<char>>(e@),
    }
}

/// Apply the tuning that was asked for, read it back, and build the fingerprint.
/// Whether the tuning took is for the caller to check before a run is admitted.
pub fn prepare<H: Host>(host: &mut HostSession<H>, prep: &HostPrep, tenancy: &str) -> (r: Result<
    Fingerprint,
    String,
>)
    ensures
        exists|mid: HostSession<H>, applied: Result<(), String>| #[trigger]
            tuned_then_seen(
                *old(host),
                mid,
                *final(host),
                *prep,
                tenancy@,
                applied,
                observed(r),
            ),
{
    let a = host.apply_tuning(&prep.knobs);
    let ghost mid = *host;
    let ghost done = a;
    match a {
        Ok(()) => {},
        Err(e) => {
            assert(tuned_then_seen(
                *old(host),
                mid,
                *host,
                *prep,
                tenancy@,
                done,
                Err::<contract::Host, Seq<char>>(e@),
            ));
            return Err(e);
        },
    }
    let r = observe(host, prep, tenancy);
    assert(tuned_then_seen(*old(host), mid, *host, *prep, tenancy@, done, observed(r)));
    r
}

/// Observing a host never writes its tuning.
pub proof fn law_observing_writes_nothing<'a, H: Host>(
    pre: HostSession<'a, H>,
    post: HostSession<'a, H>,
    prep: HostPrep,
    tenancy: Seq<char>,
    r: Result<contract::Host, Seq<char>>,
    i: int,
)
    requires
        seen(pre, post, prep, tenancy, r),
        pre.log().len() <= i < post.log().len(),
    ensures
        !(post.log()[i] is Applied),
{
}

/// A host is tuned consistently just where it reports back what was asked for.
pub proof fn law_consistent_just_where_the_tuning_took(
    f: Facts,
    a: Knobs,
    b: Knobs,
    tenancy: Seq<char>,
    pinning: Option<Json>,
)
    ensures
        contract::tuned(fingerprint_of(f, a, b, tenancy, pinning)) <==> a == b,
{
    let x = knobs_json(a);
    let y = knobs_json(b);
    if a == b {
        json::law_alike_reflexive(x);
    }
    if json::alike(x, y) {
        lemma_knobs(a);
        lemma_knobs(b);
        lemma_alike_at(x->Obj_0, y->Obj_0, "cpu_governor"@);
        lemma_alike_at(x->Obj_0, y->Obj_0, "smt"@);
        lemma_alike_at(x->Obj_0, y->Obj_0, "thp"@);
    }
}

proof fn lemma_knobs(k: Knobs)
    ensures
        json::lookup(knobs_json(k)->Obj_0, "cpu_governor"@) == opt_str(k.cpu_governor),
        json::lookup(knobs_json(k)->Obj_0, "smt"@) == opt_bool(k.smt),
        json::lookup(knobs_json(k)->Obj_0, "thp"@) == opt_str(k.thp),
{
    broadcast use json::law_lookup_put;

    reveal_strlit("cpu_governor");
    reveal_strlit("smt");
    reveal_strlit("thp");
    assert("cpu_governor"@.len() == 12);
    assert("smt"@.len() == 3);
    assert("thp"@.len() == 3);
    assert("smt"@[0] != "thp"@[0]);
}

/// Objects that are alike hold something under the same keys, and alike.
proof fn lemma_alike_at(a: Seq<(Seq<char>, Json)>, b: Seq<(Seq<char>, Json)>, k: Seq<char>)
    requires
        a.len() == b.len(),
        forall|i: int|
            0 <= i < a.len() ==> (#[trigger] a[i]).0 == b[i].0 && json::alike(a[i].1, b[i].1),
    ensures
        match (json::lookup(a, k), json::lookup(b, k)) {
            (Some(x), Some(y)) => json::alike(x, y),
            (None, None) => true,
            _ => false,
        },
    decreases a.len(),
{
    if a.len() > 0 {
        assert(a[0].0 == b[0].0 && json::alike(a[0].1, b[0].1));
        if a[0].0 != k {
            let x = a.skip(1);
            let y = b.skip(1);
            assert forall|i: int| 0 <= i < x.len() implies (#[trigger] x[i]).0 == y[i].0
                && json::alike(x[i].1, y[i].1) by {
                assert(x[i] == a[i + 1] && y[i] == b[i + 1]);
            }
            lemma_alike_at(x, y, k);
        }
    }
}

} // verus!
