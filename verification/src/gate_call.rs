//! Handing the assembled groups to the comparator, and reading its answer.
//!
//! The comparator's exit code carries the conclusion, so it is passed on rather than
//! derived anew.
use crate::def::GateSpec;
use crate::json::{self, Doc, Json};
use crate::parse;
use crate::text;
use vstd::prelude::*;

verus! {

/// What the comparator is told. The thresholds are in decimal.
#[derive(Debug)]
pub struct GateThresholds {
    pub p_threshold: String,
    pub noise_threshold: String,
    pub resamples: u64,
    pub ignore: Vec<String>,
    pub allow_ungraded: bool,
}

/// A decimal that is set, or else a default.
pub open spec fn decimal_or(o: Option<String>, default: Seq<char>) -> Seq<char> {
    match o {
        Some(s) => s@,
        None => default,
    }
}

fn decimal_else(o: &Option<String>, default: &str) -> (r: String)
    ensures
        r@ == decimal_or(*o, default@),
{
    match o {
        Some(s) => s.clone(),
        None => default.to_owned(),
    }
}

/// The threshold of significance that a definition sets, or else its default.
pub open spec fn p_threshold(g: GateSpec) -> Seq<char> {
    decimal_or(g.p_threshold, "0.01"@)
}

/// The threshold of noise that a definition sets, or else its default.
pub open spec fn noise_threshold(g: GateSpec) -> Seq<char> {
    decimal_or(g.noise_threshold, "0.05"@)
}

/// How often a definition has the samples shuffled, or else the default.
pub open spec fn resamples(g: GateSpec) -> u64 {
    match g.resamples {
        Some(n) => n,
        None => 10000,
    }
}

/// What the comparator is told by a definition: what it sets, and the defaults of
/// what it leaves open.
pub fn thresholds(g: &GateSpec, allow_ungraded: bool) -> (r: GateThresholds)
    ensures
        r.p_threshold@ == p_threshold(*g),
        r.noise_threshold@ == noise_threshold(*g),
        r.resamples == resamples(*g),
        text::texts(r.ignore@) == text::texts(g.ignore@),
        r.allow_ungraded == allow_ungraded,
{
    GateThresholds {
        p_threshold: decimal_else(&g.p_threshold, "0.01"),
        noise_threshold: decimal_else(&g.noise_threshold, "0.05"),
        resamples: match g.resamples {
            Some(n) => n,
            None => 10000,
        },
        ignore: text::copy_strings(&g.ignore),
        allow_ungraded,
    }
}

/// What the comparator said.
#[derive(Debug)]
pub struct GateOutput {
    pub outcome: Doc,
    pub verdict: String,
    pub exit_code: i32,
}

/// The comparator's program: the one that is named, or else one beside this program,
/// or else whichever is found.
pub fn resolve_gate_bin(named: Option<String>, beside: Option<String>) -> (r: String)
    ensures
        r@ == match (named, beside) {
            (Some(p), _) => p@,
            (None, Some(p)) => p@,
            (None, None) => "assayist-gate"@,
        },
{
    match named {
        Some(p) => p,
        None => match beside {
            Some(p) => p,
            None => "assayist-gate".to_owned(),
        },
    }
}

/// Each of the values after a flag of its own.
pub open spec fn flagged(flag: Seq<char>, vs: Seq<Seq<char>>) -> Seq<Seq<char>>
    decreases vs.len(),
{
    if vs.len() == 0 {
        Seq::empty()
    } else {
        flagged(flag, vs.drop_last()).push(flag).push(vs.last())
    }
}

/// The comparator's command line.
pub open spec fn gate_line(
    mode: Seq<char>,
    a: Seq<Seq<char>>,
    b: Seq<Seq<char>>,
    t: GateThresholds,
) -> Seq<Seq<char>> {
    seq!["--mode"@, mode, "--a"@] + a + seq!["--b"@] + b + seq![
        "--p-threshold"@,
        t.p_threshold@,
        "--noise-threshold"@,
        t.noise_threshold@,
        "--resamples"@,
        text::decimal(t.resamples as nat),
    ] + flagged("--ignore"@, text::texts(t.ignore@)) + (if t.allow_ungraded {
        seq!["--allow-ungraded"@]
    } else {
        Seq::empty()
    })
}

fn push_word(v: &mut Vec<String>, w: &str)
    ensures
        text::texts(final(v)@) == text::texts(old(v)@).push(w@),
{
    let ghost was = v@;
    v.push(w.to_owned());
    assert(text::texts(v@) =~= text::texts(was).push(w@));
}

fn push_words(v: &mut Vec<String>, ws: &Vec<String>)
    ensures
        text::texts(final(v)@) == text::texts(old(v)@) + text::texts(ws@),
{
    let ghost start = text::texts(v@);
    let ghost all = text::texts(ws@);
    let mut i: usize = 0;
    assert(start + all.take(0) =~= start);
    while i < ws.len()
        invariant
            i <= ws@.len(),
            all == text::texts(ws@),
            text::texts(v@) == start + all.take(i as int),
        decreases ws@.len() - i,
    {
        push_word(v, &ws[i]);
        assert(all.take(i + 1) =~= all.take(i as int).push(all[i as int]));
        assert(text::texts(v@) =~= start + all.take(i + 1));
        i += 1;
    }
    assert(all.take(i as int) =~= all);
}

fn push_flagged(v: &mut Vec<String>, flag: &str, ws: &Vec<String>)
    ensures
        text::texts(final(v)@) == text::texts(old(v)@) + flagged(flag@, text::texts(ws@)),
{
    let ghost start = text::texts(v@);
    let ghost all = text::texts(ws@);
    let mut i: usize = 0;
    assert(all.take(0) =~= Seq::empty());
    assert(start + flagged(flag@, all.take(0)) =~= start);
    while i < ws.len()
        invariant
            i <= ws@.len(),
            all == text::texts(ws@),
            text::texts(v@) == start + flagged(flag@, all.take(i as int)),
        decreases ws@.len() - i,
    {
        push_word(v, flag);
        push_word(v, &ws[i]);
        assert(all.take(i + 1).drop_last() =~= all.take(i as int));
        assert(text::texts(v@) =~= start + flagged(flag@, all.take(i + 1)));
        i += 1;
    }
    assert(all.take(i as int) =~= all);
}

/// The comparator's command line.
pub fn gate_args(mode: &str, a: &Vec<String>, b: &Vec<String>, t: &GateThresholds) -> (r: Vec<
    String,
>)
    ensures
        text::texts(r@) == gate_line(mode@, text::texts(a@), text::texts(b@), *t),
{
    let mut v: Vec<String> = Vec::new();
    assert(text::texts(v@) =~= Seq::empty());
    push_word(&mut v, "--mode");
    push_word(&mut v, mode);
    push_word(&mut v, "--a");
    push_words(&mut v, a);
    push_word(&mut v, "--b");
    push_words(&mut v, b);
    push_word(&mut v, "--p-threshold");
    push_word(&mut v, &t.p_threshold);
    push_word(&mut v, "--noise-threshold");
    push_word(&mut v, &t.noise_threshold);
    push_word(&mut v, "--resamples");
    push_word(&mut v, &text::dec(t.resamples));
    push_flagged(&mut v, "--ignore", &t.ignore);
    if t.allow_ungraded {
        push_word(&mut v, "--allow-ungraded");
    }
    assert(text::texts(v@) =~= gate_line(mode@, text::texts(a@), text::texts(b@), *t));
    v
}

/// The outcome that the comparator printed, or null.
pub open spec fn printed(stdout: Seq<char>) -> Json {
    match parse::parsed(text::trimmed(stdout)) {
        Ok(v) => v,
        Err(_) => Json::Null,
    }
}

/// The overall outcome of an exit code.
pub open spec fn verdict_of(code: i32) -> Seq<char> {
    if code == 0 {
        "pass"@
    } else if code == 2 {
        "fail"@
    } else if code == 3 {
        "contaminated"@
    } else {
        "unknown"@
    }
}

/// The overall outcome of an outcome, or else that of the exit code.
pub open spec fn verdict(outcome: Json, code: i32) -> Seq<char> {
    match json::str_field(json::member(outcome, "outcome"@), "verdict"@) {
        Some(v) => v,
        None => verdict_of(code),
    }
}

/// The overall outcome of an outcome, or else that of the exit code.
pub fn verdict_in(outcome: &Doc, code: i32) -> (r: String)
    ensures
        r@ == verdict(outcome@, code),
{
    if let Some(o) = outcome.get("outcome") {
        if let Some(v) = o.str_at("verdict") {
            return v.to_owned();
        }
    }
    let v = if code == 0 {
        "pass"
    } else if code == 2 {
        "fail"
    } else if code == 3 {
        "contaminated"
    } else {
        "unknown"
    };
    v.to_owned()
}

/// Read the comparator's answer. An error of the comparator's is an error; a conclusion is a
/// result, whatever it is.
pub fn read_gate(code: i32, stdout: &str, stderr: &str) -> (r: Result<GateOutput, String>)
    ensures
        if code == 1 {
            r is Err && r->Err_0@ == "gate error: "@ + text::trimmed(stderr@)
        } else {
            r is Ok && r->Ok_0.exit_code == code && r->Ok_0.outcome@ == printed(stdout@)
                && r->Ok_0.verdict@ == verdict(printed(stdout@), code)
        },
{
    if code == 1 {
        return Err(text::join2("gate error: ", &text::trim(stderr)));
    }
    let outcome = match parse::read(&text::trim(stdout)) {
        Ok(v) => v,
        Err(_) => Doc::Null,
    };
    let verdict = verdict_in(&outcome, code);
    Ok(GateOutput { outcome, verdict, exit_code: code })
}

/// The exit code that a gate's code is passed on as.
pub fn exit_with(code: i32) -> (r: u8)
    ensures
        r == (if code < 0 {
            0int
        } else if code > 255 {
            255
        } else {
            code as int
        }),
{
    if code < 0 {
        0
    } else if code > 255 {
        255
    } else {
        code as u8
    }
}

/// Codes that carry different verdicts name different verdicts.
pub proof fn law_verdict_codes_differ(a: i32, b: i32)
    requires
        a == 0 || a == 2 || a == 3,
        b == 0 || b == 2 || b == 3,
        verdict_of(a) == verdict_of(b),
    ensures
        a == b,
{
    reveal_strlit("pass");
    reveal_strlit("fail");
    reveal_strlit("contaminated");
    assert("pass"@.len() == 4);
    assert("fail"@.len() == 4);
    assert("contaminated"@.len() == 12);
    assert("pass"@[0] == 'p');
    assert("fail"@[0] == 'f');
}

} // verus!
