//! The orchestrator's command lines.
use crate::args::{self, Tok, Token};
use crate::contract::{self, AssayRun};
use crate::json::{self, Doc, Json};
use crate::otlp;
use crate::parse;
use crate::table::Table;
use crate::text;
use vstd::prelude::*;

verus! {

// ---------------------------------------------------------------------------
// Reading a command line
// ---------------------------------------------------------------------------

/// What a command line holds: at most one word, the value given last to each
/// flag, and the switches.
#[derive(Debug)]
pub struct Options {
    pub word: Option<String>,
    pub values: Table<String>,
    pub switches: Vec<String>,
}

/// `Options` as a mathematical value.
pub struct Given {
    pub word: Option<Seq<char>>,
    pub values: Seq<(Seq<char>, Seq<char>)>,
    pub switches: Seq<Seq<char>>,
}

impl View for Options {
    type V = Given;

    open spec fn view(&self) -> Given {
        Given {
            word: text::opt_text(self.word),
            values: self.values@,
            switches: text::texts(self.switches@),
        }
    }
}

/// The greatest number that a flag takes, where it takes a number.
pub open spec fn limit(numeric: Seq<(Seq<char>, u64)>, flag: Seq<char>, from: nat) -> Option<u64>
    decreases numeric.len() - from,
{
    if from >= numeric.len() {
        None
    } else if numeric[from as int].0 == flag {
        Some(numeric[from as int].1)
    } else {
        limit(numeric, flag, from + 1)
    }
}

pub open spec fn limits(v: Seq<(&str, u64)>) -> Seq<(Seq<char>, u64)> {
    v.map_values(|p: (&str, u64)| (p.0@, p.1))
}

fn limit_of(numeric: &Vec<(&str, u64)>, flag: &str) -> (r: Option<u64>)
    ensures
        r == limit(limits(numeric@), flag@, 0),
{
    let ghost all = limits(numeric@);
    let mut i: usize = 0;
    while i < numeric.len()
        invariant
            i <= numeric@.len(),
            all == limits(numeric@),
            limit(all, flag@, 0) == limit(all, flag@, i as nat),
        decreases numeric@.len() - i,
    {
        assert(all[i as int] == (numeric@[i as int].0@, numeric@[i as int].1));
        if text::same(numeric[i].0, flag) {
            return Some(numeric[i].1);
        }
        i += 1;
    }
    None
}

/// What is given after one more piece. A number that does not read as one, and
/// a second word, are errors.
pub open spec fn with_piece(
    g: Given,
    numeric: Seq<(Seq<char>, u64)>,
    t: Tok,
) -> Result<Given, Seq<char>> {
    match t {
        Tok::Valued(flag, v) => match limit(numeric, flag, 0) {
            Some(max) => if text::unsigned(v, max as nat) is Some {
                Ok(Given { values: json::put(g.values, flag, v), ..g })
            } else {
                Err("bad "@ + flag)
            },
            None => Ok(Given { values: json::put(g.values, flag, v), ..g }),
        },
        Tok::Switch(flag) => Ok(Given { switches: g.switches.push(flag), ..g }),
        Tok::Word(w) => match g.word {
            Some(_) => Err("unexpected argument "@ + w),
            None => Ok(Given { word: Some(w), ..g }),
        },
    }
}

pub open spec fn nothing_given() -> Given {
    Given { word: None, values: Seq::empty(), switches: Seq::empty() }
}

/// What pieces give, or what is wrong with the first that is wrong.
pub open spec fn given(ts: Seq<Tok>, numeric: Seq<(Seq<char>, u64)>) -> Result<Given, Seq<char>>
    decreases ts.len(),
{
    if ts.len() == 0 {
        Ok(nothing_given())
    } else {
        match given(ts.drop_last(), numeric) {
            Ok(g) => with_piece(g, numeric, ts.last()),
            Err(e) => Err(e),
        }
    }
}

/// What a command line gives, or what is wrong with it first.
pub open spec fn read_line(
    argv: Seq<Seq<char>>,
    valued: Seq<Seq<char>>,
    switches: Seq<Seq<char>>,
    numeric: Seq<(Seq<char>, u64)>,
) -> Result<Given, Seq<char>> {
    let (ts, broken) = args::pieces(argv, valued, switches);
    match (given(ts, numeric), broken) {
        (Err(e), _) => Err(e),
        (_, Some(e)) => Err(e),
        (Ok(g), None) => Ok(g),
    }
}

proof fn lemma_given_err(ts: Seq<Tok>, numeric: Seq<(Seq<char>, u64)>, n: int)
    requires
        0 <= n <= ts.len(),
        given(ts.take(n), numeric) is Err,
    ensures
        given(ts, numeric) == given(ts.take(n), numeric),
    decreases ts.len() - n,
{
    if n == ts.len() {
        assert(ts.take(n) =~= ts);
    } else {
        assert(ts.take(n + 1).drop_last() =~= ts.take(n));
        lemma_given_err(ts, numeric, n + 1);
    }
}

fn take_piece(o: Options, numeric: &Vec<(&str, u64)>, t: &Token) -> (r: Result<Options, String>)
    ensures
        match with_piece(o@, limits(numeric@), t@) {
            Ok(g) => r is Ok && r->Ok_0@ == g,
            Err(e) => r is Err && r->Err_0@ == e,
        },
{
    let mut o = o;
    match t {
        Token::Valued(flag, v) => {
            if let Some(max) = limit_of(numeric, flag) {
                if text::parse_unsigned(v, max).is_none() {
                    return Err(text::join2("bad ", flag));
                }
            }
            Ok(
                Options {
                    word: o.word,
                    values: o.values.with(flag, v.clone()),
                    switches: o.switches,
                },
            )
        },
        Token::Switch(flag) => {
            let ghost was = o.switches@;
            o.switches.push(flag.clone());
            assert(text::texts(o.switches@) =~= text::texts(was).push(flag@));
            Ok(o)
        },
        Token::Word(w) => {
            if o.word.is_some() {
                return Err(text::join2("unexpected argument ", w));
            }
            o.word = Some(w.clone());
            Ok(o)
        },
    }
}

/// The view of options that may be wrong.
pub open spec fn options_view(r: Result<Options, String>) -> Result<Given, Seq<char>> {
    match r {
        Ok(o) => Ok(o@),
        Err(e) => Err(e@),
    }
}

/// Read a command line.
fn read_options(
    argv: &[String],
    valued: &Vec<&str>,
    switches: &Vec<&str>,
    numeric: &Vec<(&str, u64)>,
) -> (r: Result<Options, String>)
    ensures
        options_view(r) == read_line(
            text::texts(argv@),
            text::slices(valued@),
            text::slices(switches@),
            limits(numeric@),
        ),
{
    let (tokens, broken) = args::scan(argv, valued, switches);
    let ghost ts = args::toks(tokens@);
    let ghost ns = limits(numeric@);
    let mut o = Options { word: None, values: Table::new(), switches: Vec::new() };
    assert(text::texts(o.switches@) =~= Seq::empty());
    assert(ts.take(0) =~= Seq::empty());
    let mut i: usize = 0;
    while i < tokens.len()
        invariant
            i <= tokens@.len(),
            ts == args::toks(tokens@),
            ns == limits(numeric@),
            (ts, text::opt_text(broken)) == args::pieces(
                text::texts(argv@),
                text::slices(valued@),
                text::slices(switches@),
            ),
            given(ts.take(i as int), ns) == Ok::<Given, Seq<char>>(o@),
        decreases tokens@.len() - i,
    {
        assert(ts.take(i + 1).drop_last() =~= ts.take(i as int));
        assert(ts[i as int] == tokens@[i as int]@);
        match take_piece(o, numeric, &tokens[i]) {
            Ok(next) => {
                o = next;
            },
            Err(e) => {
                proof {
                    lemma_given_err(ts, ns, i + 1);
                }
                return Err(e);
            },
        }
        i += 1;
    }
    assert(ts.take(i as int) =~= ts);
    match broken {
        Some(e) => Err(e),
        None => Ok(o),
    }
}

// ---------------------------------------------------------------------------
// Taking what is given
// ---------------------------------------------------------------------------

/// The value of a flag, or a default.
pub open spec fn value_or(g: Given, flag: Seq<char>, default: Seq<char>) -> Seq<char> {
    match json::lookup(g.values, flag) {
        Some(v) => v,
        None => default,
    }
}

/// The number of a flag, or a default.
pub open spec fn number_or(g: Given, flag: Seq<char>, max: nat, default: nat) -> nat {
    match json::lookup(g.values, flag) {
        Some(v) => match text::unsigned(v, max) {
            Some(n) => n,
            None => default,
        },
        None => default,
    }
}

fn value_else(o: &Options, flag: &str, default: &str) -> (r: String)
    ensures
        r@ == value_or(o@, flag@, default@),
{
    match o.values.get(flag) {
        Some(v) => v.clone(),
        None => default.to_owned(),
    }
}

fn number_else(o: &Options, flag: &str, max: u64, default: u64) -> (r: u64)
    requires
        default <= max,
    ensures
        r == number_or(o@, flag@, max as nat, default as nat),
        r <= max,
{
    match o.values.get(flag) {
        Some(v) => match text::parse_unsigned(v, max) {
            Some(n) => n,
            None => default,
        },
        None => default,
    }
}

// ---------------------------------------------------------------------------
// run
// ---------------------------------------------------------------------------

#[derive(Debug)]
pub struct RunArgs {
    pub def_path: String,
    pub repeat: u32,
    pub a_sut: String,
    pub b_sut: String,
    pub out_dir: String,
    pub duration: u64,
    pub allow_ungraded: bool,
    pub apply_prep: bool,
}

/// `RunArgs` as a mathematical value.
pub struct RunAsked {
    pub def_path: Seq<char>,
    pub repeat: nat,
    pub a_sut: Seq<char>,
    pub b_sut: Seq<char>,
    pub out_dir: Seq<char>,
    pub duration: nat,
    pub allow_ungraded: bool,
    pub apply_prep: bool,
}

impl View for RunArgs {
    type V = RunAsked;

    open spec fn view(&self) -> RunAsked {
        RunAsked {
            def_path: self.def_path@,
            repeat: self.repeat as nat,
            a_sut: self.a_sut@,
            b_sut: self.b_sut@,
            out_dir: self.out_dir@,
            duration: self.duration as nat,
            allow_ungraded: self.allow_ungraded,
            apply_prep: self.apply_prep,
        }
    }
}

pub open spec fn run_flags() -> Seq<Seq<char>> {
    seq!["--repeat"@, "--a-sut"@, "--b-sut"@, "--out"@, "--duration"@]
}

pub open spec fn run_switches() -> Seq<Seq<char>> {
    seq!["--allow-ungraded"@, "--apply-prep"@]
}

pub open spec fn run_numbers() -> Seq<(Seq<char>, u64)> {
    seq![("--repeat"@, 0xffff_ffffu64), ("--duration"@, u64::MAX)]
}

/// What a `run` command line asks for: a definition, and at least one repeat.
pub open spec fn run_asked(argv: Seq<Seq<char>>) -> Result<RunAsked, Seq<char>> {
    match read_line(argv, run_flags(), run_switches(), run_numbers()) {
        Err(e) => Err(e),
        Ok(g) => match g.word {
            None => Err("run needs a <def.yaml> path"@),
            Some(def_path) => {
                let repeat = number_or(g, "--repeat"@, u32::MAX as nat, 3);
                if repeat == 0 {
                    Err("--repeat must be > 0"@)
                } else {
                    Ok(
                        RunAsked {
                            def_path,
                            repeat,
                            a_sut: value_or(g, "--a-sut"@, "unknown-a"@),
                            b_sut: value_or(g, "--b-sut"@, "unknown-b"@),
                            out_dir: value_or(g, "--out"@, "assayist-out"@),
                            duration: number_or(g, "--duration"@, u64::MAX as nat, 30),
                            allow_ungraded: g.switches.contains("--allow-ungraded"@),
                            apply_prep: g.switches.contains("--apply-prep"@),
                        },
                    )
                }
            },
        },
    }
}

/// What a `run` command line asks for.
pub fn parse_run_args(argv: &[String]) -> (r: Result<RunArgs, String>)
    ensures
        match run_asked(text::texts(argv@)) {
            Ok(q) => r is Ok && r->Ok_0@ == q,
            Err(e) => r is Err && r->Err_0@ == e,
        },
{
    let valued: Vec<&str> = vec!["--repeat", "--a-sut", "--b-sut", "--out", "--duration"];
    let switches: Vec<&str> = vec!["--allow-ungraded", "--apply-prep"];
    let numeric: Vec<(&str, u64)> = vec![("--repeat", 0xffff_ffff), ("--duration", u64::MAX)];
    assert(text::slices(valued@) =~= run_flags());
    assert(text::slices(switches@) =~= run_switches());
    assert(limits(numeric@) =~= run_numbers());
    let o = match read_options(argv, &valued, &switches, &numeric) {
        Ok(o) => o,
        Err(e) => {
            return Err(e);
        },
    };
    let def_path = match &o.word {
        Some(w) => w.clone(),
        None => {
            return Err("run needs a <def.yaml> path".to_owned());
        },
    };
    let repeat: u32 = number_else(&o, "--repeat", 0xffff_ffff, 3) as u32;
    if repeat == 0 {
        return Err("--repeat must be > 0".to_owned());
    }
    Ok(
        RunArgs {
            def_path,
            repeat,
            a_sut: value_else(&o, "--a-sut", "unknown-a"),
            b_sut: value_else(&o, "--b-sut", "unknown-b"),
            out_dir: value_else(&o, "--out", "assayist-out"),
            duration: number_else(&o, "--duration", u64::MAX, 30),
            allow_ungraded: text::is_among(&o.switches, "--allow-ungraded"),
            apply_prep: text::is_among(&o.switches, "--apply-prep"),
        },
    )
}

// ---------------------------------------------------------------------------
// capture
// ---------------------------------------------------------------------------

#[derive(Debug)]
pub struct CaptureArgs {
    pub def_path: String,
    pub duration: u64,
    pub out: String,
    pub sut_sha: String,
    pub work_dir: Option<String>,
}

/// `CaptureArgs` as a mathematical value.
pub struct CaptureAsked {
    pub def_path: Seq<char>,
    pub duration: nat,
    pub out: Seq<char>,
    pub sut_sha: Seq<char>,
    pub work_dir: Option<Seq<char>>,
}

impl View for CaptureArgs {
    type V = CaptureAsked;

    open spec fn view(&self) -> CaptureAsked {
        CaptureAsked {
            def_path: self.def_path@,
            duration: self.duration as nat,
            out: self.out@,
            sut_sha: self.sut_sha@,
            work_dir: text::opt_text(self.work_dir),
        }
    }
}

pub open spec fn capture_flags() -> Seq<Seq<char>> {
    seq!["--duration"@, "--out"@, "--sut-sha"@, "--work-dir"@]
}

pub open spec fn capture_numbers() -> Seq<(Seq<char>, u64)> {
    seq![("--duration"@, u64::MAX)]
}

/// What a `capture` command line asks for.
pub open spec fn capture_asked(argv: Seq<Seq<char>>) -> Result<CaptureAsked, Seq<char>> {
    match read_line(argv, capture_flags(), Seq::empty(), capture_numbers()) {
        Err(e) => Err(e),
        Ok(g) => match g.word {
            None => Err("capture needs a <def.yaml> path"@),
            Some(def_path) => Ok(
                CaptureAsked {
                    def_path,
                    duration: number_or(g, "--duration"@, u64::MAX as nat, 30),
                    out: value_or(g, "--out"@, "-"@),
                    sut_sha: value_or(g, "--sut-sha"@, "unknown"@),
                    work_dir: json::lookup(g.values, "--work-dir"@),
                },
            ),
        },
    }
}

/// What a `capture` command line asks for.
pub fn parse_capture_args(argv: &[String]) -> (r: Result<CaptureArgs, String>)
    ensures
        match capture_asked(text::texts(argv@)) {
            Ok(q) => r is Ok && r->Ok_0@ == q,
            Err(e) => r is Err && r->Err_0@ == e,
        },
{
    let valued: Vec<&str> = vec!["--duration", "--out", "--sut-sha", "--work-dir"];
    let switches: Vec<&str> = Vec::new();
    let numeric: Vec<(&str, u64)> = vec![("--duration", u64::MAX)];
    assert(text::slices(valued@) =~= capture_flags());
    assert(text::slices(switches@) =~= Seq::empty());
    assert(limits(numeric@) =~= capture_numbers());
    let o = match read_options(argv, &valued, &switches, &numeric) {
        Ok(o) => o,
        Err(e) => {
            return Err(e);
        },
    };
    let def_path = match &o.word {
        Some(w) => w.clone(),
        None => {
            return Err("capture needs a <def.yaml> path".to_owned());
        },
    };
    let work_dir = match o.values.get("--work-dir") {
        Some(d) => Some(d.clone()),
        None => None,
    };
    Ok(
        CaptureArgs {
            def_path,
            duration: number_else(&o, "--duration", u64::MAX, 30),
            out: value_else(&o, "--out", "-"),
            sut_sha: value_else(&o, "--sut-sha", "unknown"),
            work_dir,
        },
    )
}

// ---------------------------------------------------------------------------
// export and import
// ---------------------------------------------------------------------------

#[derive(Debug)]
pub struct ExportArgs {
    pub run_path: String,
    pub signal: String,
    pub out: String,
}

#[derive(Debug)]
pub struct ImportArgs {
    pub in_path: String,
    pub out: String,
}

/// What an `export` command line asks for: the run, the signal and where the
/// document goes.
pub open spec fn export_asked(argv: Seq<Seq<char>>) -> Result<
    (Seq<char>, Seq<char>, Seq<char>),
    Seq<char>,
> {
    match read_line(argv, seq!["--signal"@, "--out"@], Seq::empty(), Seq::empty()) {
        Err(e) => Err(e),
        Ok(g) => match g.word {
            None => Err("export needs a <run.json> path"@),
            Some(p) => Ok((p, value_or(g, "--signal"@, "both"@), value_or(g, "--out"@, "-"@))),
        },
    }
}

/// What an `export` command line asks for.
pub fn parse_export_args(argv: &[String]) -> (r: Result<ExportArgs, String>)
    ensures
        match export_asked(text::texts(argv@)) {
            Ok(q) => r is Ok && (r->Ok_0.run_path@, r->Ok_0.signal@, r->Ok_0.out@) == q,
            Err(e) => r is Err && r->Err_0@ == e,
        },
{
    let valued: Vec<&str> = vec!["--signal", "--out"];
    let switches: Vec<&str> = Vec::new();
    let numeric: Vec<(&str, u64)> = Vec::new();
    assert(text::slices(valued@) =~= seq!["--signal"@, "--out"@]);
    assert(text::slices(switches@) =~= Seq::empty());
    assert(limits(numeric@) =~= Seq::empty());
    let o = match read_options(argv, &valued, &switches, &numeric) {
        Ok(o) => o,
        Err(e) => {
            return Err(e);
        },
    };
    match &o.word {
        Some(w) => Ok(
            ExportArgs {
                run_path: w.clone(),
                signal: value_else(&o, "--signal", "both"),
                out: value_else(&o, "--out", "-"),
            },
        ),
        None => Err("export needs a <run.json> path".to_owned()),
    }
}

/// What an `import` command line asks for: the document and where the run goes.
pub open spec fn import_asked(argv: Seq<Seq<char>>) -> Result<(Seq<char>, Seq<char>), Seq<char>> {
    match read_line(argv, seq!["--out"@], Seq::empty(), Seq::empty()) {
        Err(e) => Err(e),
        Ok(g) => match g.word {
            None => Err("import needs an <otlp.json> path"@),
            Some(p) => Ok((p, value_or(g, "--out"@, "-"@))),
        },
    }
}

/// What an `import` command line asks for.
pub fn parse_import_args(argv: &[String]) -> (r: Result<ImportArgs, String>)
    ensures
        match import_asked(text::texts(argv@)) {
            Ok(q) => r is Ok && (r->Ok_0.in_path@, r->Ok_0.out@) == q,
            Err(e) => r is Err && r->Err_0@ == e,
        },
{
    let valued: Vec<&str> = vec!["--out"];
    let switches: Vec<&str> = Vec::new();
    let numeric: Vec<(&str, u64)> = Vec::new();
    assert(text::slices(valued@) =~= seq!["--out"@]);
    assert(text::slices(switches@) =~= Seq::empty());
    assert(limits(numeric@) =~= Seq::empty());
    let o = match read_options(argv, &valued, &switches, &numeric) {
        Ok(o) => o,
        Err(e) => {
            return Err(e);
        },
    };
    match &o.word {
        Some(w) => Ok(ImportArgs { in_path: w.clone(), out: value_else(&o, "--out", "-") }),
        None => Err("import needs an <otlp.json> path".to_owned()),
    }
}

/// The document of a signal, stamped with a time where its points carry none.
pub open spec fn signal_document(
    run: contract::Record,
    signal: Seq<char>,
    now: u64,
) -> Result<Json, Seq<char>> {
    if signal == "both"@ {
        Ok(otlp::exported(run, now))
    } else if signal == "traces"@ {
        Ok(json::fields().with("resourceSpans"@, otlp::resource_spans(run)).json())
    } else if signal == "metrics"@ {
        Ok(json::fields().with("resourceMetrics"@, otlp::resource_metrics(run, now)).json())
    } else {
        Err("unknown --signal '"@ + signal + "' (want both, traces, or metrics)"@)
    }
}

/// The document of a signal.
pub fn export_signal(run: &AssayRun, signal: &str, now: u64) -> (r: Result<Doc, String>)
    ensures
        parse::document(r) == signal_document(run@, signal@, now),
{
    if text::same(signal, "both") {
        Ok(otlp::export_at(run, now))
    } else if text::same(signal, "traces") {
        Ok(otlp::export_traces(run))
    } else if text::same(signal, "metrics") {
        Ok(otlp::export_metrics_at(run, now))
    } else {
        let mut e = text::join2("unknown --signal '", signal);
        e.append("' (want both, traces, or metrics)");
        Err(e)
    }
}

} // verus!
