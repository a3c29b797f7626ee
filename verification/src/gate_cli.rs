//! The comparator's command line: which runs to compare, how, and where the conclusion
//! goes.
use crate::args::{self, Tok, Token};
use crate::gate::Config;
use crate::text;
use vstd::prelude::*;

verus! {

/// Which list bare words feed.
#[derive(Debug, Clone, Copy, PartialEq, Eq, Structural)]
pub enum Feed {
    Nothing,
    A,
    B,
    Baseline,
    Candidate,
}

#[derive(Debug)]
pub struct Args {
    pub mode: String,
    pub a: Vec<String>,
    pub b: Vec<String>,
    pub baseline: Vec<String>,
    pub candidate: Vec<String>,
    pub out: String,
    pub cfg: Config,
}

/// `Args` as a mathematical value.
pub struct Request {
    pub mode: Seq<char>,
    pub a: Seq<Seq<char>>,
    pub b: Seq<Seq<char>>,
    pub baseline: Seq<Seq<char>>,
    pub candidate: Seq<Seq<char>>,
    pub out: Seq<char>,
    pub p_threshold: Seq<char>,
    pub noise_threshold: Seq<char>,
    pub min_effect: Seq<char>,
    pub resamples: int,
    pub drift_k: Seq<char>,
    pub seed: int,
    pub ignore: Seq<Seq<char>>,
    pub allow_ungraded: bool,
    pub strict_single_cell: bool,
}

impl View for Args {
    type V = Request;

    open spec fn view(&self) -> Request {
        Request {
            mode: self.mode@,
            a: text::texts(self.a@),
            b: text::texts(self.b@),
            baseline: text::texts(self.baseline@),
            candidate: text::texts(self.candidate@),
            out: self.out@,
            p_threshold: self.cfg.p_threshold@,
            noise_threshold: self.cfg.noise_threshold@,
            min_effect: self.cfg.min_effect@,
            resamples: self.cfg.resamples as int,
            drift_k: self.cfg.drift_k@,
            seed: self.cfg.seed as int,
            ignore: text::texts(self.cfg.ignore@),
            allow_ungraded: self.cfg.allow_ungraded,
            strict_single_cell: self.cfg.strict_single_cell,
        }
    }
}

/// What an empty command line asks for.
pub open spec fn unasked() -> Request {
    Request {
        mode: "ab_permutation"@,
        a: Seq::empty(),
        b: Seq::empty(),
        baseline: Seq::empty(),
        candidate: Seq::empty(),
        out: "-"@,
        p_threshold: "0.01"@,
        noise_threshold: "0.05"@,
        min_effect: "0.05"@,
        resamples: 10000,
        drift_k: "3.0"@,
        seed: 0xA55A_1571_D000_0001,
        ignore: Seq::empty(),
        allow_ungraded: false,
        strict_single_cell: false,
    }
}

/// The flags that take a value.
pub open spec fn valued_flags() -> Seq<Seq<char>> {
    seq![
        "--mode"@,
        "--out"@,
        "--p-threshold"@,
        "--noise-threshold"@,
        "--min-effect"@,
        "--resamples"@,
        "--drift-k"@,
        "--seed"@,
        "--ignore"@,
    ]
}

/// The flags that take none.
pub open spec fn switch_flags() -> Seq<Seq<char>> {
    seq![
        "--a"@,
        "--b"@,
        "--baseline"@,
        "--candidate"@,
        "--allow-ungraded"@,
        "--strict-single-cell"@,
    ]
}

/// A request with one more flag and its value.
pub open spec fn with_value(r: Request, flag: Seq<char>, v: Seq<char>) -> Result<
    Request,
    Seq<char>,
> {
    if flag == "--mode"@ {
        Ok(Request { mode: v, ..r })
    } else if flag == "--out"@ {
        Ok(Request { out: v, ..r })
    } else if flag == "--ignore"@ {
        Ok(Request { ignore: r.ignore.push(v), ..r })
    } else if flag == "--resamples"@ {
        match text::unsigned(v, usize::MAX as nat) {
            Some(n) => Ok(Request { resamples: n as int, ..r }),
            None => Err("bad --resamples"@),
        }
    } else if flag == "--seed"@ {
        match text::unsigned(v, u64::MAX as nat) {
            Some(n) => Ok(Request { seed: n as int, ..r }),
            None => Err("bad --seed"@),
        }
    } else if !args::is_decimal(v) {
        Err("bad "@ + flag)
    } else if flag == "--p-threshold"@ {
        Ok(Request { p_threshold: v, ..r })
    } else if flag == "--noise-threshold"@ {
        Ok(Request { noise_threshold: v, ..r })
    } else if flag == "--min-effect"@ {
        Ok(Request { min_effect: v, ..r })
    } else {
        Ok(Request { drift_k: v, ..r })
    }
}

/// A request with one more piece of the command line, and which list the words
/// after it feed.
pub open spec fn with_piece(r: Request, feed: Feed, t: Tok) -> Result<(Request, Feed), Seq<char>> {
    match t {
        Tok::Valued(flag, v) => match with_value(r, flag, v) {
            Ok(q) => Ok((q, Feed::Nothing)),
            Err(e) => Err(e),
        },
        Tok::Switch(flag) => if flag == "--a"@ {
            Ok((r, Feed::A))
        } else if flag == "--b"@ {
            Ok((r, Feed::B))
        } else if flag == "--baseline"@ {
            Ok((r, Feed::Baseline))
        } else if flag == "--candidate"@ {
            Ok((r, Feed::Candidate))
        } else if flag == "--allow-ungraded"@ {
            Ok((Request { allow_ungraded: true, ..r }, Feed::Nothing))
        } else {
            Ok((Request { strict_single_cell: true, ..r }, Feed::Nothing))
        },
        Tok::Word(w) => match feed {
            Feed::A => Ok((Request { a: r.a.push(w), ..r }, feed)),
            Feed::B => Ok((Request { b: r.b.push(w), ..r }, feed)),
            Feed::Baseline => Ok((Request { baseline: r.baseline.push(w), ..r }, feed)),
            Feed::Candidate => Ok((Request { candidate: r.candidate.push(w), ..r }, feed)),
            Feed::Nothing => Err("stray argument "@ + w),
        },
    }
}

/// What the pieces ask for, or what is wrong with the first that is wrong.
pub open spec fn asked(ts: Seq<Tok>) -> Result<(Request, Feed), Seq<char>>
    decreases ts.len(),
{
    if ts.len() == 0 {
        Ok((unasked(), Feed::Nothing))
    } else {
        match asked(ts.drop_last()) {
            Ok((r, feed)) => with_piece(r, feed, ts.last()),
            Err(e) => Err(e),
        }
    }
}

/// What a command line asks for, or what is wrong with it first.
pub open spec fn requested(argv: Seq<Seq<char>>) -> Result<Request, Seq<char>> {
    let (ts, broken) = args::pieces(argv, valued_flags(), switch_flags());
    match (asked(ts), broken) {
        (Err(e), _) => Err(e),
        (_, Some(e)) => Err(e),
        (Ok((r, _)), None) => Ok(r),
    }
}

proof fn lemma_asked_err(ts: Seq<Tok>, n: nat)
    requires
        n <= ts.len(),
        asked(ts.take(n as int)) is Err,
    ensures
        asked(ts) == asked(ts.take(n as int)),
    decreases ts.len() - n,
{
    if n == ts.len() {
        assert(ts.take(n as int) =~= ts);
    } else {
        assert(ts.take(n as int + 1).drop_last() =~= ts.take(n as int));
        lemma_asked_err(ts, n + 1);
    }
}

fn push_text(v: &mut Vec<String>, s: &str)
    ensures
        text::texts(final(v)@) == text::texts(old(v)@).push(s@),
{
    let ghost was = v@;
    v.push(s.to_owned());
    assert(text::texts(v@) =~= text::texts(was).push(s@));
}

fn set_value(a: &mut Args, flag: &str, v: &str) -> (r: Result<(), String>)
    ensures
        match with_value(old(a)@, flag@, v@) {
            Ok(q) => r is Ok && final(a)@ == q,
            Err(e) => r is Err && r->Err_0@ == e,
        },
{
    if text::same(flag, "--mode") {
        a.mode = v.to_owned();
    } else if text::same(flag, "--out") {
        a.out = v.to_owned();
    } else if text::same(flag, "--ignore") {
        push_text(&mut a.cfg.ignore, v);
    } else if text::same(flag, "--resamples") {
        match text::parse_unsigned(v, usize::MAX as u64) {
            Some(n) => {
                a.cfg.resamples = n as usize;
            },
            None => {
                return Err("bad --resamples".to_owned());
            },
        }
    } else if text::same(flag, "--seed") {
        match text::parse_unsigned(v, u64::MAX) {
            Some(n) => {
                a.cfg.seed = n;
            },
            None => {
                return Err("bad --seed".to_owned());
            },
        }
    } else if !args::reads_as_decimal(v) {
        return Err(text::join2("bad ", flag));
    } else if text::same(flag, "--p-threshold") {
        a.cfg.p_threshold = v.to_owned();
    } else if text::same(flag, "--noise-threshold") {
        a.cfg.noise_threshold = v.to_owned();
    } else if text::same(flag, "--min-effect") {
        a.cfg.min_effect = v.to_owned();
    } else {
        a.cfg.drift_k = v.to_owned();
    }
    Ok(())
}

fn set_piece(a: &mut Args, feed: Feed, t: &Token) -> (r: Result<Feed, String>)
    ensures
        match with_piece(old(a)@, feed, t@) {
            Ok((q, f)) => r == Ok::<Feed, String>(f) && final(a)@ == q,
            Err(e) => r is Err && r->Err_0@ == e,
        },
{
    match t {
        Token::Valued(flag, v) => match set_value(a, flag, v) {
            Ok(()) => Ok(Feed::Nothing),
            Err(e) => Err(e),
        },
        Token::Switch(flag) => if text::same(flag, "--a") {
            Ok(Feed::A)
        } else if text::same(flag, "--b") {
            Ok(Feed::B)
        } else if text::same(flag, "--baseline") {
            Ok(Feed::Baseline)
        } else if text::same(flag, "--candidate") {
            Ok(Feed::Candidate)
        } else if text::same(flag, "--allow-ungraded") {
            a.cfg.allow_ungraded = true;
            Ok(Feed::Nothing)
        } else {
            a.cfg.strict_single_cell = true;
            Ok(Feed::Nothing)
        },
        Token::Word(w) => {
            match feed {
                Feed::A => push_text(&mut a.a, w),
                Feed::B => push_text(&mut a.b, w),
                Feed::Baseline => push_text(&mut a.baseline, w),
                Feed::Candidate => push_text(&mut a.candidate, w),
                Feed::Nothing => {
                    return Err(text::join2("stray argument ", w));
                },
            }
            Ok(feed)
        },
    }
}

/// What a command line asks for, or what is wrong with it first.
pub fn parse_args(argv: &[String]) -> (r: Result<Args, String>)
    ensures
        match requested(text::texts(argv@)) {
            Ok(q) => r is Ok && r->Ok_0@ == q,
            Err(e) => r is Err && r->Err_0@ == e,
        },
{
    let valued: Vec<&str> = vec![
        "--mode",
        "--out",
        "--p-threshold",
        "--noise-threshold",
        "--min-effect",
        "--resamples",
        "--drift-k",
        "--seed",
        "--ignore",
    ];
    let switches: Vec<&str> = vec![
        "--a",
        "--b",
        "--baseline",
        "--candidate",
        "--allow-ungraded",
        "--strict-single-cell",
    ];
    assert(text::slices(valued@) =~= valued_flags());
    assert(text::slices(switches@) =~= switch_flags());
    let (tokens, broken) = args::scan(argv, &valued, &switches);
    let ghost ts = args::toks(tokens@);
    let mut a = Args {
        mode: "ab_permutation".to_owned(),
        a: Vec::new(),
        b: Vec::new(),
        baseline: Vec::new(),
        candidate: Vec::new(),
        out: "-".to_owned(),
        cfg: Config::default(),
    };
    assert(text::texts(Seq::<String>::empty()) =~= Seq::empty());
    assert(a@ == unasked());
    let mut feed = Feed::Nothing;
    assert(ts.take(0) =~= Seq::empty());
    let mut i: usize = 0;
    while i < tokens.len()
        invariant
            i <= tokens@.len(),
            ts == args::toks(tokens@),
            (ts, text::opt_text(broken)) == args::pieces(
                text::texts(argv@),
                valued_flags(),
                switch_flags(),
            ),
            asked(ts.take(i as int)) == Ok::<(Request, Feed), Seq<char>>((a@, feed)),
        decreases tokens@.len() - i,
    {
        assert(ts.take(i + 1).drop_last() =~= ts.take(i as int));
        assert(ts.take(i + 1).last() == tokens@[i as int]@);
        match set_piece(&mut a, feed, &tokens[i]) {
            Ok(f) => {
                feed = f;
            },
            Err(e) => {
                proof {
                    lemma_asked_err(ts, (i + 1) as nat);
                }
                return Err(e);
            },
        }
        i += 1;
    }
    assert(ts.take(ts.len() as int) =~= ts);
    match broken {
        Some(e) => Err(e),
        None => Ok(a),
    }
}

// ---------------------------------------------------------------------------
// Which runs a mode needs
// ---------------------------------------------------------------------------

#[derive(Debug, Clone, Copy, PartialEq, Eq, Structural)]
pub enum Mode {
    Ab,
    Drift,
    Triad,
}

/// The mode of that name.
pub open spec fn mode_named(m: Seq<char>) -> Option<Mode> {
    if m == "ab_permutation"@ {
        Some(Mode::Ab)
    } else if m == "longitudinal_drift"@ {
        Some(Mode::Drift)
    } else if m == "subsystem_triad"@ {
        Some(Mode::Triad)
    } else {
        None
    }
}

/// What a mode says where one of its two groups is empty.
pub open spec fn lacking(m: Mode) -> Seq<char> {
    match m {
        Mode::Ab => "ab_permutation needs --a and --b run files"@,
        Mode::Drift => "longitudinal_drift needs --baseline and --candidate"@,
        Mode::Triad => "subsystem_triad needs --a and --b run files"@,
    }
}

/// The mode of that name.
pub fn mode_of(name: &str) -> (r: Result<Mode, String>)
    ensures
        match mode_named(name@) {
            Some(m) => r == Ok::<Mode, String>(m),
            None => r is Err && r->Err_0@ == "unknown mode '"@ + name@ + "'"@,
        },
{
    if text::same(name, "ab_permutation") {
        Ok(Mode::Ab)
    } else if text::same(name, "longitudinal_drift") {
        Ok(Mode::Drift)
    } else if text::same(name, "subsystem_triad") {
        Ok(Mode::Triad)
    } else {
        let mut m = text::join2("unknown mode '", name);
        m.append("'");
        Err(m)
    }
}

/// Whether both groups of a mode hold a run.
pub fn both_present(m: Mode, first: usize, second: usize) -> (r: Result<(), String>)
    ensures
        r is Ok <==> first > 0 && second > 0,
        r is Err ==> r->Err_0@ == lacking(m),
{
    if first == 0 || second == 0 {
        Err(
            (match m {
                Mode::Ab => "ab_permutation needs --a and --b run files",
                Mode::Drift => "longitudinal_drift needs --baseline and --candidate",
                Mode::Triad => "subsystem_triad needs --a and --b run files",
            }).to_owned(),
        )
    } else {
        Ok(())
    }
}

} // verus!
