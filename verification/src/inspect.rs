//! What `inspect` prints of a definition and of the host.
use crate::contract::{self, Fingerprint};
use crate::def::{BenchmarkDef, CaptureEntry, Cell};
use crate::hostprep::{self, HostPrep};
use crate::json;
use crate::pipeline;
use crate::text;
use vstd::prelude::*;

verus! {

/// A label and its value.
pub open spec fn entry_line_text(label: Seq<char>, value: Seq<char>) -> Seq<char> {
    text::cat(seq![label, ": "@, value])
}

fn entry_line(label: &str, value: &str) -> (r: String)
    ensures
        r@ == entry_line_text(label@, value@),
{
    let parts: Vec<&str> = vec![label, ": ", value];
    let r = text::concat(&parts);
    assert(text::slices(parts@) =~= seq![label@, ": "@, value@]);
    r
}

/// The target of a definition.
pub open spec fn target_line_text(adapter: Seq<char>, version: Seq<char>) -> Seq<char> {
    text::cat(seq!["target: "@, adapter, " "@, version])
}

fn target_line(adapter: &str, version: &str) -> (r: String)
    ensures
        r@ == target_line_text(adapter@, version@),
{
    let parts: Vec<&str> = vec!["target: ", adapter, " ", version];
    let r = text::concat(&parts);
    assert(text::slices(parts@) =~= seq!["target: "@, adapter@, " "@, version@]);
    r
}

/// A cell: the start of its hash, and its parameters.
pub open spec fn cell_line_text(hash: Seq<char>, params: Seq<char>) -> Seq<char> {
    text::cat(seq!["  "@, hash, " -> "@, params])
}

fn cell_line(hash: &str, params: &str) -> (r: String)
    ensures
        r@ == cell_line_text(hash@, params@),
{
    let parts: Vec<&str> = vec!["  ", hash, " -> ", params];
    let r = text::concat(&parts);
    assert(text::slices(parts@) =~= seq!["  "@, hash@, " -> "@, params@]);
    r
}

/// A capture entry.
pub open spec fn gadget_line_text(probe: Seq<char>, gadget: Seq<char>, class: Seq<char>) -> Seq<char> {
    text::cat(seq!["  "@, probe, " via "@, gadget, " ["@, class, "]"@])
}

fn gadget_line(probe: &str, gadget: &str, class: &str) -> (r: String)
    ensures
        r@ == gadget_line_text(probe@, gadget@, class@),
{
    let parts: Vec<&str> = vec!["  ", probe, " via ", gadget, " [", class, "]"];
    let r = text::concat(&parts);
    assert(text::slices(parts@) =~= seq!["  "@, probe@, " via "@, gadget@, " ["@, class@, "]"@]);
    r
}

/// The system of a host.
pub open spec fn system_line_text(hostname: Seq<char>, kernel: Seq<char>, os: Seq<char>) -> Seq<char> {
    text::cat(seq!["  "@, hostname, " / "@, kernel, " / "@, os])
}

fn system_line(hostname: &str, kernel: &str, os: &str) -> (r: String)
    ensures
        r@ == system_line_text(hostname@, kernel@, os@),
{
    let parts: Vec<&str> = vec!["  ", hostname, " / ", kernel, " / ", os];
    let r = text::concat(&parts);
    assert(text::slices(parts@) =~= seq!["  "@, hostname@, " / "@, kernel@, " / "@, os@]);
    r
}

/// The processor of a host.
pub open spec fn processor_line_text(model: Seq<char>, logical: Seq<char>, physical: Seq<char>, smt: Seq<char>) -> Seq<char> {
    text::cat(seq!["  "@, model, " ("@, logical, " logical, "@, physical, " physical cores), smt="@, smt])
}

fn processor_line(model: &str, logical: &str, physical: &str, smt: &str) -> (r: String)
    ensures
        r@ == processor_line_text(model@, logical@, physical@, smt@),
{
    let parts: Vec<&str> = vec!["  ", model, " (", logical, " logical, ", physical, " physical cores), smt=", smt];
    let r = text::concat(&parts);
    assert(text::slices(parts@) =~= seq!["  "@, model@, " ("@, logical@, " logical, "@, physical@, " physical cores), smt="@, smt@]);
    r
}

/// The settings of a host.
pub open spec fn settings_line_text(governor: Seq<char>, thp: Seq<char>, kvm: Seq<char>) -> Seq<char> {
    text::cat(seq!["  governor="@, governor, " thp="@, thp, " kvm="@, kvm])
}

fn settings_line(governor: &str, thp: &str, kvm: &str) -> (r: String)
    ensures
        r@ == settings_line_text(governor@, thp@, kvm@),
{
    let parts: Vec<&str> = vec!["  governor=", governor, " thp=", thp, " kvm=", kvm];
    let r = text::concat(&parts);
    assert(text::slices(parts@) =~= seq!["  governor="@, governor@, " thp="@, thp@, " kvm="@, kvm@]);
    r
}

/// Whether the extended facts of a host are all known.
pub open spec fn extended_line_text(present: Seq<char>) -> Seq<char> {
    text::cat(seq!["  extended fields present: "@, present])
}

fn extended_line(present: &str) -> (r: String)
    ensures
        r@ == extended_line_text(present@),
{
    let parts: Vec<&str> = vec!["  extended fields present: ", present];
    let r = text::concat(&parts);
    assert(text::slices(parts@) =~= seq!["  extended fields present: "@, present@]);
    r
}

/// The tuning that a definition asks for.
pub open spec fn tuning_line_text(knobs: Seq<char>, matches: Seq<char>) -> Seq<char> {
    text::cat(seq!["  requested tuning: "@, knobs, " | matches now: "@, matches])
}

fn tuning_line(knobs: &str, matches: &str) -> (r: String)
    ensures
        r@ == tuning_line_text(knobs@, matches@),
{
    let parts: Vec<&str> = vec!["  requested tuning: ", knobs, " | matches now: ", matches];
    let r = text::concat(&parts);
    assert(text::slices(parts@) =~= seq!["  requested tuning: "@, knobs@, " | matches now: "@, matches@]);
    r
}

/// The grade that a host would give.
pub open spec fn grade_line_text(grade: Seq<char>) -> Seq<char> {
    text::cat(seq!["  fingerprint would grade: "@, grade, " (before host prep applies)"@])
}

fn grade_line(grade: &str) -> (r: String)
    ensures
        r@ == grade_line_text(grade@),
{
    let parts: Vec<&str> = vec!["  fingerprint would grade: ", grade, " (before host prep applies)"];
    let r = text::concat(&parts);
    assert(text::slices(parts@) =~= seq!["  fingerprint would grade: "@, grade@, " (before host prep applies)"@]);
    r
}

pub open spec fn bool_text(b: bool) -> Seq<char> {
    if b {
        "true"@
    } else {
        "false"@
    }
}

fn bool_str(b: bool) -> (r: &'static str)
    ensures
        r@ == bool_text(b),
{
    if b {
        "true"
    } else {
        "false"
    }
}

/// What is printed of the first `n` cells.
pub open spec fn cell_lines(cells: Seq<Cell>, n: nat) -> Seq<Seq<char>>
    decreases n,
{
    if n == 0 {
        Seq::empty()
    } else {
        cell_lines(cells, (n - 1) as nat).push(
            cell_line_text(
                cells[n - 1].params_hash@.take(12),
                json::text_of(cells[n - 1].params@),
            ),
        )
    }
}

/// What is printed of a capture entry.
pub open spec fn gadget_of(c: CaptureEntry) -> Seq<char> {
    gadget_line_text(
        c.probe@,
        match c.gadget {
            Some(g) => g@,
            None => "(unspecified)"@,
        },
        c.cardinality.class@,
    )
}

pub open spec fn gadget_lines(cs: Seq<CaptureEntry>) -> Seq<Seq<char>> {
    cs.map_values(|c: CaptureEntry| gadget_of(c))
}

/// What is printed of a definition.
pub open spec fn def_lines(d: BenchmarkDef, sha: Seq<char>, cells: Seq<Cell>) -> Seq<Seq<char>> {
    seq![
        entry_line_text("benchmark"@, d.name@),
        entry_line_text("benchmark_def_sha"@, sha),
        target_line_text(d.target.adapter@, d.target.version@),
        entry_line_text("workload"@, d.workload.driver@),
        entry_line_text("gate mode"@, d.gate.mode@),
        entry_line_text("tenancy"@, d.tenancy@),
        entry_line_text("parameterisation cells"@, text::decimal(cells.len())),
    ] + cell_lines(cells, cells.len()) + seq![
        entry_line_text("capture gadgets"@, text::decimal(d.capture@.len())),
    ] + gadget_lines(d.capture@)
}

fn push_line(v: &mut Vec<String>, s: String)
    ensures
        text::texts(final(v)@) == text::texts(old(v)@).push(s@),
{
    let ghost was = v@;
    v.push(s);
    assert(text::texts(v@) =~= text::texts(was).push(s@));
}

/// What is printed of a definition.
pub fn describe_def(def: &BenchmarkDef, sha: &str, cells: &Vec<Cell>) -> (r: Vec<String>)
    requires
        forall|i: int|
            0 <= i < cells@.len() ==> (#[trigger] cells@[i]).params_hash@.len() >= 12,
    ensures
        text::texts(r@) == def_lines(*def, sha@, cells@),
{
    let mut v: Vec<String> = Vec::new();
    assert(text::texts(v@) =~= Seq::empty());
    push_line(&mut v, entry_line("benchmark", &def.name));
    push_line(&mut v, entry_line("benchmark_def_sha", sha));
    push_line(&mut v, target_line(&def.target.adapter, &def.target.version));
    push_line(&mut v, entry_line("workload", &def.workload.driver));
    push_line(&mut v, entry_line("gate mode", &def.gate.mode));
    push_line(&mut v, entry_line("tenancy", &def.tenancy));
    push_line(&mut v, entry_line("parameterisation cells", &text::dec(cells.len() as u64)));
    let ghost head = text::texts(v@);
    let mut i: usize = 0;
    assert(head + cell_lines(cells@, 0) =~= head);
    while i < cells.len()
        invariant
            i <= cells@.len(),
            forall|k: int|
                0 <= k < cells@.len() ==> (#[trigger] cells@[k]).params_hash@.len() >= 12,
            text::texts(v@) == head + cell_lines(cells@, i as nat),
        decreases cells@.len() - i,
    {
        let cs = text::chars(&cells[i].params_hash);
        let short = text::slice(&cs, 0, 12);
        assert(short@ =~= cells@[i as int].params_hash@.take(12));
        push_line(&mut v, cell_line(&short, &cells[i].params.to_text()));
        assert(text::texts(v@) =~= head + cell_lines(cells@, (i + 1) as nat));
        i += 1;
    }
    push_line(&mut v, entry_line("capture gadgets", &text::dec(def.capture.len() as u64)));
    let ghost mid = text::texts(v@);
    let ghost all = gadget_lines(def.capture@);
    let mut j: usize = 0;
    assert(mid + all.take(0) =~= mid);
    while j < def.capture.len()
        invariant
            j <= def.capture@.len(),
            all == gadget_lines(def.capture@),
            text::texts(v@) == mid + all.take(j as int),
        decreases def.capture@.len() - j,
    {
        let c = &def.capture[j];
        let g = match &c.gadget {
            Some(g) => g.clone(),
            None => "(unspecified)".to_owned(),
        };
        push_line(&mut v, gadget_line(&c.probe, &g, &c.cardinality.class));
        assert(all.take(j + 1) =~= all.take(j as int).push(all[j as int]));
        assert(text::texts(v@) =~= mid + all.take(j + 1));
        j += 1;
    }
    assert(all.take(j as int) =~= all);
    assert(text::texts(v@) =~= def_lines(*def, sha@, cells@));
    v
}

/// What is printed of a host that was observed.
pub open spec fn host_lines(h: contract::Host, prep: HostPrep) -> Seq<Seq<char>> {
    seq![
        "host (observed, not applied):"@,
        system_line_text(h.hostname, h.kernel_version, h.os_release),
        processor_line_text(
            h.cpu_model,
            text::decimal(h.cpu_count_logical as nat),
            text::decimal(h.cpu_count_physical as nat),
            bool_text(h.smt_enabled),
        ),
        settings_line_text(h.cpu_governor, h.thp_setting, bool_text(h.kvm_present)),
        extended_line_text(bool_text(contract::extended(h))),
    ] + (if prep.knobs.cpu_governor is Some || prep.knobs.smt is Some || prep.knobs.thp is Some {
        seq![
            tuning_line_text(
                json::text_of(hostprep::knobs_json(prep.knobs@)),
                bool_text(contract::tuned(h)),
            ),
        ]
    } else {
        Seq::empty()
    }) + seq![
        grade_line_text(
            if contract::extended(h) {
                "Reproducible"@
            } else {
                "Valid"@
            },
        ),
    ]
}

/// What is printed of a host that was observed.
pub fn describe_host(fp: &Fingerprint, prep: &HostPrep) -> (r: Vec<String>)
    ensures
        text::texts(r@) == host_lines(fp@, *prep),
{
    let mut v: Vec<String> = Vec::new();
    assert(text::texts(v@) =~= Seq::empty());
    push_line(&mut v, "host (observed, not applied):".to_owned());
    push_line(&mut v, system_line(&fp.hostname, &fp.kernel_version, &fp.os_release));
    push_line(
        &mut v,
        processor_line(
            &fp.cpu_model,
            &text::dec(fp.cpu_count_logical as u64),
            &text::dec(fp.cpu_count_physical as u64),
            bool_str(fp.smt_enabled),
        ),
    );
    push_line(
        &mut v,
        settings_line(&fp.cpu_governor, &fp.thp_setting, bool_str(fp.kvm_present)),
    );
    let whole = fp.has_extended();
    push_line(&mut v, extended_line(bool_str(whole)));
    if pipeline::has_knobs(prep) {
        push_line(
            &mut v,
            tuning_line(
                &prep.knobs.to_value().to_text(),
                bool_str(fp.tuning_consistent()),
            ),
        );
    }
    push_line(
        &mut v,
        grade_line(
            if whole {
                "Reproducible"
            } else {
                "Valid"
            },
        ),
    );
    assert(text::texts(v@) =~= host_lines(fp@, *prep));
    v
}

} // verus!
