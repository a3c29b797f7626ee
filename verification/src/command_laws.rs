//! Which templates command adapters run, and that the comparator reads the command line
//! that it is called with.
use crate::adapter::{self, Event, Phase, Target, Turn, Workload};
use crate::args::{self, Tok};
use crate::command::{CommandTarget, CommandWorkload};
use crate::gate_call::{self, GateThresholds};
use crate::gate_cli::{self, Feed, Request};
use crate::json::{self, Json};
use crate::parse;
use crate::text;
use vstd::prelude::*;

verus! {

// ---------------------------------------------------------------------------
// Command adapters
// ---------------------------------------------------------------------------

/// Whether the log grew by the template of a phase, with the variables put in, and by
/// nothing where there is no such template; and whether the result is the command's.
pub open spec fn ran_template(
    c: adapter::CommandSet,
    phase: Seq<char>,
    l0: Seq<Event>,
    l1: Seq<Event>,
    ok: bool,
) -> bool {
    match json::lookup(c.commands@, phase) {
        None => l1 == l0 && ok,
        Some(t) => {
            &&& l1.len() == l0.len() + 1
            &&& l1.drop_last() == l0
            &&& l1.last() matches Event::Ran(cmd, a) && cmd == adapter::rendered(t, c.vars@) && (
            a is Ok <==> ok)
        },
    }
}

/// A target of commands is provisioned, started, brought to steady and torn down by the
/// templates of these names, and fails exactly where the command does.
pub proof fn law_targets_run_the_template_of_their_phase(
    phase: Phase,
    pre: CommandTarget,
    post: CommandTarget,
    l0: Seq<Event>,
    l1: Seq<Event>,
    r: Result<(), Seq<char>>,
)
    requires
        CommandTarget::did(phase, pre, post, l0, l1, r),
    ensures
        post == pre,
        phase == Phase::Provision ==> ran_template(pre.0, "provision"@, l0, l1, r is Ok),
        phase == Phase::Start ==> ran_template(pre.0, "start"@, l0, l1, r is Ok),
        phase == Phase::Steady ==> ran_template(pre.0, "reach_steady"@, l0, l1, r is Ok),
        phase == Phase::Teardown ==> ran_template(pre.0, "teardown"@, l0, l1, r is Ok),
{
}

/// A workload of commands is started and stopped by the templates of these names.
pub proof fn law_workloads_run_the_template_of_their_turn(
    turn: Turn,
    pre: CommandWorkload,
    post: CommandWorkload,
    l0: Seq<Event>,
    l1: Seq<Event>,
    r: Result<(), Seq<char>>,
)
    requires
        CommandWorkload::took(turn, pre, post, l0, l1, r),
    ensures
        post == pre,
        turn == Turn::Start ==> ran_template(pre.0, "start"@, l0, l1, r is Ok),
        turn == Turn::Stop ==> ran_template(pre.0, "stop"@, l0, l1, r is Ok),
{
}

/// What a workload of commands reports is the document that its `report` template
/// printed. It is null where there is no such template or nothing was printed.
pub proof fn law_commands_report_what_they_print(
    w: CommandWorkload,
    l0: Seq<Event>,
    l1: Seq<Event>,
    r: Result<Json, Seq<char>>,
)
    requires
        w.reported(l0, l1, r),
    ensures
        json::lookup(w.0.commands@, "report"@) is None ==> r == Ok::<Json, Seq<char>>(Json::Null)
            && l1 == l0,
        json::lookup(w.0.commands@, "report"@) matches Some(t) ==> {
            &&& l1.len() == l0.len() + 1
            &&& l1.last() matches Event::Ran(cmd, a) && cmd == adapter::rendered(t, w.0.vars@) && {
                &&& a is Err ==> r is Err
                &&& a matches Ok(out) ==> (text::trimmed(out).len() == 0 ==> r == Ok::<
                    Json,
                    Seq<char>,
                >(Json::Null))
                &&& a matches Ok(out) ==> (text::trimmed(out).len() > 0 ==> (parse::parsed(
                    text::trimmed(out),
                ) matches Ok(j) ==> r == Ok::<Json, Seq<char>>(j)))
                &&& a matches Ok(out) ==> (text::trimmed(out).len() > 0 && parse::parsed(
                    text::trimmed(out),
                ) is Err ==> r is Err)
            }
        },
{
}

/// The spans of a target of commands are those of the list that its `spans` template
/// printed. There are none where there is no such template or nothing was printed.
pub proof fn law_commands_tell_the_spans_they_print(
    c: CommandTarget,
    l0: Seq<Event>,
    l1: Seq<Event>,
    r: Result<Seq<Json>, Seq<char>>,
)
    requires
        c.spanned(l0, l1, r),
    ensures
        json::lookup(c.0.commands@, "spans"@) is None ==> r == Ok::<Seq<Json>, Seq<char>>(
            Seq::empty(),
        ) && l1 == l0,
        json::lookup(c.0.commands@, "spans"@) matches Some(t) ==> {
            &&& l1.len() == l0.len() + 1
            &&& l1.last() matches Event::Ran(cmd, a) && cmd == adapter::rendered(t, c.0.vars@) && {
                &&& a is Err ==> r is Err
                &&& a matches Ok(out) ==> (text::trimmed(out).len() == 0 ==> r == Ok::<
                    Seq<Json>,
                    Seq<char>,
                >(Seq::empty()))
                &&& a matches Ok(out) ==> (text::trimmed(out).len() > 0 ==> (parse::parsed_list(
                    text::trimmed(out),
                ) matches Ok(s) ==> r == Ok::<Seq<Json>, Seq<char>>(s)))
            }
        },
{
}

// ---------------------------------------------------------------------------
// The comparator's command line
// ---------------------------------------------------------------------------

proof fn lemma_flags()
    ensures
        gate_cli::valued_flags().contains("--mode"@),
        gate_cli::valued_flags().contains("--p-threshold"@),
        gate_cli::valued_flags().contains("--noise-threshold"@),
        gate_cli::valued_flags().contains("--resamples"@),
        gate_cli::valued_flags().contains("--ignore"@),
        !gate_cli::valued_flags().contains("--a"@),
        !gate_cli::valued_flags().contains("--b"@),
        !gate_cli::valued_flags().contains("--allow-ungraded"@),
        gate_cli::switch_flags().contains("--a"@),
        gate_cli::switch_flags().contains("--b"@),
        gate_cli::switch_flags().contains("--allow-ungraded"@),
        "--a"@ != "--b"@ && "--a"@ != "--allow-ungraded"@ && "--b"@ != "--allow-ungraded"@,
        "--allow-ungraded"@ != "--baseline"@ && "--allow-ungraded"@ != "--candidate"@,
        "--p-threshold"@ != "--mode"@ && "--p-threshold"@ != "--out"@,
        "--p-threshold"@ != "--ignore"@ && "--p-threshold"@ != "--resamples"@,
        "--p-threshold"@ != "--seed"@ && "--p-threshold"@ != "--noise-threshold"@,
        "--noise-threshold"@ != "--mode"@ && "--noise-threshold"@ != "--out"@,
        "--noise-threshold"@ != "--ignore"@ && "--noise-threshold"@ != "--resamples"@,
        "--noise-threshold"@ != "--seed"@,
        "--resamples"@ != "--mode"@ && "--resamples"@ != "--out"@ && "--resamples"@ != "--ignore"@,
        "--ignore"@ != "--mode"@ && "--ignore"@ != "--out"@,
{
    reveal_strlit("--mode");
    reveal_strlit("--out");
    reveal_strlit("--p-threshold");
    reveal_strlit("--noise-threshold");
    reveal_strlit("--min-effect");
    reveal_strlit("--resamples");
    reveal_strlit("--drift-k");
    reveal_strlit("--seed");
    reveal_strlit("--ignore");
    reveal_strlit("--a");
    reveal_strlit("--b");
    reveal_strlit("--baseline");
    reveal_strlit("--candidate");
    reveal_strlit("--allow-ungraded");
    reveal_strlit("--strict-single-cell");
    assert("--mode"@.len() == 6 && "--out"@.len() == 5 && "--p-threshold"@.len() == 13);
    assert("--noise-threshold"@.len() == 17 && "--min-effect"@.len() == 12);
    assert("--resamples"@.len() == 11 && "--drift-k"@.len() == 9 && "--seed"@.len() == 6);
    assert("--ignore"@.len() == 8 && "--a"@.len() == 3 && "--b"@.len() == 3);
    assert("--baseline"@.len() == 10 && "--candidate"@.len() == 11);
    assert("--allow-ungraded"@.len() == 16);
    assert("--a"@[2] == 'a' && "--b"@[2] == 'b');
    let vs = gate_cli::valued_flags();
    assert(vs[0] == "--mode"@ && vs[2] == "--p-threshold"@ && vs[3] == "--noise-threshold"@);
    assert(vs[5] == "--resamples"@ && vs[8] == "--ignore"@);
    let ss = gate_cli::switch_flags();
    assert(ss[0] == "--a"@ && ss[1] == "--b"@ && ss[4] == "--allow-ungraded"@);
}

/// The pieces of the comparator's command line.
#[verifier::opaque]
spec fn pieces_of(argv: Seq<Seq<char>>) -> (Seq<Tok>, Option<Seq<char>>) {
    args::pieces(argv, gate_cli::valued_flags(), gate_cli::switch_flags())
}

proof fn lemma_valued(flag: Seq<char>, v: Seq<char>, rest: Seq<Seq<char>>)
    requires
        gate_cli::valued_flags().contains(flag),
    ensures
        pieces_of(seq![flag, v] + rest) == (
            seq![Tok::Valued(flag, v)] + pieces_of(rest).0,
            pieces_of(rest).1,
        ),
{
    reveal(pieces_of);
    assert((seq![flag, v] + rest).skip(2) =~= rest);
}

proof fn lemma_switch(flag: Seq<char>, rest: Seq<Seq<char>>)
    requires
        !gate_cli::valued_flags().contains(flag),
        gate_cli::switch_flags().contains(flag),
    ensures
        pieces_of(seq![flag] + rest) == (
            seq![Tok::Switch(flag)] + pieces_of(rest).0,
            pieces_of(rest).1,
        ),
{
    reveal(pieces_of);
    assert((seq![flag] + rest).skip(1) =~= rest);
}

/// Whether no word begins as a flag does.
pub open spec fn no_flags(ws: Seq<Seq<char>>) -> bool {
    forall|i: int| 0 <= i < ws.len() ==> !text::has_prefix(#[trigger] ws[i], "--"@)
}

spec fn words(ws: Seq<Seq<char>>) -> Seq<Tok> {
    ws.map_values(|w: Seq<char>| Tok::Word(w))
}

proof fn lemma_flag_prefixes(w: Seq<char>)
    requires
        !text::has_prefix(w, "--"@),
    ensures
        !gate_cli::valued_flags().contains(w),
        !gate_cli::switch_flags().contains(w),
{
    reveal_strlit("--");
    reveal_strlit("--mode");
    reveal_strlit("--out");
    reveal_strlit("--p-threshold");
    reveal_strlit("--noise-threshold");
    reveal_strlit("--min-effect");
    reveal_strlit("--resamples");
    reveal_strlit("--drift-k");
    reveal_strlit("--seed");
    reveal_strlit("--ignore");
    reveal_strlit("--a");
    reveal_strlit("--b");
    reveal_strlit("--baseline");
    reveal_strlit("--candidate");
    reveal_strlit("--allow-ungraded");
    reveal_strlit("--strict-single-cell");
    assert("--mode"@.take(2) =~= "--"@);
    assert("--out"@.take(2) =~= "--"@);
    assert("--p-threshold"@.take(2) =~= "--"@);
    assert("--noise-threshold"@.take(2) =~= "--"@);
    assert("--min-effect"@.take(2) =~= "--"@);
    assert("--resamples"@.take(2) =~= "--"@);
    assert("--drift-k"@.take(2) =~= "--"@);
    assert("--seed"@.take(2) =~= "--"@);
    assert("--ignore"@.take(2) =~= "--"@);
    assert("--a"@.take(2) =~= "--"@);
    assert("--b"@.take(2) =~= "--"@);
    assert("--baseline"@.take(2) =~= "--"@);
    assert("--candidate"@.take(2) =~= "--"@);
    assert("--allow-ungraded"@.take(2) =~= "--"@);
    assert("--strict-single-cell"@.take(2) =~= "--"@);
}

proof fn lemma_words(ws: Seq<Seq<char>>, rest: Seq<Seq<char>>)
    requires
        no_flags(ws),
    ensures
        pieces_of(ws + rest) == (words(ws) + pieces_of(rest).0, pieces_of(rest).1),
    decreases ws.len(),
{
    reveal(pieces_of);
    if ws.len() == 0 {
        assert(ws + rest =~= rest);
        assert(words(ws) + pieces_of(rest).0 =~= pieces_of(rest).0);
    } else {
        let all = ws + rest;
        let tail = ws.skip(1);
        assert(!text::has_prefix(ws[0], "--"@));
        lemma_flag_prefixes(ws[0]);
        assert(all.skip(1) =~= tail + rest);
        assert forall|i: int| 0 <= i < tail.len() implies !text::has_prefix(
            #[trigger] tail[i],
            "--"@,
        ) by {
            assert(tail[i] == ws[i + 1]);
        }
        lemma_words(tail, rest);
        assert(all[0] == ws[0]);
        assert(seq![Tok::Word(ws[0])] + (words(tail) + pieces_of(rest).0) =~= words(ws) + pieces_of(
            rest,
        ).0);
    }
}

spec fn ignores(vs: Seq<Seq<char>>) -> Seq<Tok> {
    vs.map_values(|v: Seq<char>| Tok::Valued("--ignore"@, v))
}

proof fn lemma_ignores(vs: Seq<Seq<char>>, rest: Seq<Seq<char>>)
    ensures
        pieces_of(gate_call::flagged("--ignore"@, vs) + rest) == (
            ignores(vs) + pieces_of(rest).0,
            pieces_of(rest).1,
        ),
    decreases vs.len(),
{
    if vs.len() == 0 {
        assert(gate_call::flagged("--ignore"@, vs) + rest =~= rest);
        assert(ignores(vs) + pieces_of(rest).0 =~= pieces_of(rest).0);
    } else {
        let less = vs.drop_last();
        let more = seq!["--ignore"@, vs.last()] + rest;
        assert(gate_call::flagged("--ignore"@, vs) + rest =~= gate_call::flagged("--ignore"@, less)
            + more);
        lemma_ignores(less, more);
        lemma_flags();
        lemma_valued("--ignore"@, vs.last(), rest);
        assert(ignores(less) + (seq![Tok::Valued("--ignore"@, vs.last())] + pieces_of(rest).0)
            =~= ignores(vs) + pieces_of(rest).0);
    }
}

proof fn lemma_pushed(ts: Seq<Tok>, t: Tok)
    ensures
        gate_cli::asked(ts.push(t)) == (match gate_cli::asked(ts) {
            Ok((r, feed)) => gate_cli::with_piece(r, feed, t),
            Err(e) => Err(e),
        }),
{
    assert(ts.push(t).drop_last() =~= ts);
}

proof fn lemma_words_feed(ts: Seq<Tok>, ws: Seq<Seq<char>>, r: Request, feed: Feed)
    requires
        gate_cli::asked(ts) == Ok::<(Request, Feed), Seq<char>>((r, feed)),
        feed == Feed::A || feed == Feed::B,
    ensures
        feed == Feed::A ==> gate_cli::asked(ts + words(ws)) == Ok::<(Request, Feed), Seq<char>>(
            (Request { a: r.a + ws, ..r }, feed),
        ),
        feed == Feed::B ==> gate_cli::asked(ts + words(ws)) == Ok::<(Request, Feed), Seq<char>>(
            (Request { b: r.b + ws, ..r }, feed),
        ),
    decreases ws.len(),
{
    if ws.len() == 0 {
        assert(ts + words(ws) =~= ts);
        assert(r.a + ws =~= r.a);
        assert(r.b + ws =~= r.b);
    } else {
        let less = ws.drop_last();
        lemma_words_feed(ts, less, r, feed);
        assert(ts + words(ws) =~= (ts + words(less)).push(Tok::Word(ws.last())));
        lemma_pushed(ts + words(less), Tok::Word(ws.last()));
        assert((r.a + less).push(ws.last()) =~= r.a + ws);
        assert((r.b + less).push(ws.last()) =~= r.b + ws);
    }
}

proof fn lemma_ignores_feed(ts: Seq<Tok>, vs: Seq<Seq<char>>, r: Request)
    requires
        gate_cli::asked(ts) == Ok::<(Request, Feed), Seq<char>>((r, Feed::Nothing)),
    ensures
        gate_cli::asked(ts + ignores(vs)) == Ok::<(Request, Feed), Seq<char>>(
            (Request { ignore: r.ignore + vs, ..r }, Feed::Nothing),
        ),
    decreases vs.len(),
{
    if vs.len() == 0 {
        assert(ts + ignores(vs) =~= ts);
        assert(r.ignore + vs =~= r.ignore);
    } else {
        let less = vs.drop_last();
        let t = Tok::Valued("--ignore"@, vs.last());
        lemma_ignores_feed(ts, less, r);
        assert(ts + ignores(vs) =~= (ts + ignores(less)).push(t));
        lemma_pushed(ts + ignores(less), t);
        lemma_flags();
        assert((r.ignore + less).push(vs.last()) =~= r.ignore + vs);
    }
}

/// The tail of a command line, from the thresholds on.
spec fn tail_of(t: GateThresholds) -> Seq<Seq<char>> {
    gate_call::flagged("--ignore"@, text::texts(t.ignore@)) + (if t.allow_ungraded {
        seq!["--allow-ungraded"@]
    } else {
        Seq::empty()
    })
}

spec fn tail_toks(t: GateThresholds) -> Seq<Tok> {
    ignores(text::texts(t.ignore@)) + (if t.allow_ungraded {
        seq![Tok::Switch("--allow-ungraded"@)]
    } else {
        Seq::empty()
    })
}

spec fn threshold_toks(t: GateThresholds) -> Seq<Tok> {
    seq![
        Tok::Valued("--p-threshold"@, t.p_threshold@),
        Tok::Valued("--noise-threshold"@, t.noise_threshold@),
        Tok::Valued("--resamples"@, text::decimal(t.resamples as nat)),
    ]
}

/// What follows the groups of a command line.
spec fn end_of(t: GateThresholds) -> Seq<Seq<char>> {
    seq!["--p-threshold"@, t.p_threshold@] + (seq!["--noise-threshold"@, t.noise_threshold@] + (seq![
        "--resamples"@,
        text::decimal(t.resamples as nat),
    ] + tail_of(t)))
}

proof fn lemma_tail(t: GateThresholds)
    ensures
        pieces_of(tail_of(t)) == (tail_toks(t), None::<Seq<char>>),
{
    lemma_flags();
    let none = Seq::<Seq<char>>::empty();
    assert(pieces_of(none) == (Seq::<Tok>::empty(), None::<Seq<char>>)) by {
        reveal(pieces_of);
    }
    if t.allow_ungraded {
        lemma_switch("--allow-ungraded"@, none);
        assert(seq!["--allow-ungraded"@] + none =~= seq!["--allow-ungraded"@]);
        assert(seq![Tok::Switch("--allow-ungraded"@)] + Seq::<Tok>::empty() =~= seq![
            Tok::Switch("--allow-ungraded"@),
        ]);
        lemma_ignores(text::texts(t.ignore@), seq!["--allow-ungraded"@]);
    } else {
        lemma_ignores(text::texts(t.ignore@), none);
    }
}

proof fn lemma_end(t: GateThresholds)
    ensures
        pieces_of(end_of(t)) == (threshold_toks(t) + tail_toks(t), None::<Seq<char>>),
{
    lemma_flags();
    lemma_tail(t);
    let n = text::decimal(t.resamples as nat);
    let r1 = tail_of(t);
    let r2 = seq!["--resamples"@, n] + r1;
    lemma_valued("--resamples"@, n, r1);
    let r3 = seq!["--noise-threshold"@, t.noise_threshold@] + r2;
    lemma_valued("--noise-threshold"@, t.noise_threshold@, r2);
    lemma_valued("--p-threshold"@, t.p_threshold@, r3);
    assert(pieces_of(end_of(t)).0 =~= threshold_toks(t) + tail_toks(t));
}

/// The words of a command line, in the order of its parts.
spec fn line_of(
    mode: Seq<char>,
    a: Seq<Seq<char>>,
    b: Seq<Seq<char>>,
    t: GateThresholds,
) -> Seq<Seq<char>> {
    seq!["--mode"@, mode] + (seq!["--a"@] + (a + (seq!["--b"@] + (b + end_of(t)))))
}

proof fn lemma_same_line(mode: Seq<char>, a: Seq<Seq<char>>, b: Seq<Seq<char>>, t: GateThresholds)
    ensures
        gate_call::gate_line(mode, a, b, t) == line_of(mode, a, b, t),
{
    assert(gate_call::gate_line(mode, a, b, t) =~= line_of(mode, a, b, t));
}

proof fn lemma_line(mode: Seq<char>, a: Seq<Seq<char>>, b: Seq<Seq<char>>, t: GateThresholds)
    requires
        no_flags(a),
        no_flags(b),
    ensures
        pieces_of(gate_call::gate_line(mode, a, b, t)) == (
            seq![Tok::Valued("--mode"@, mode), Tok::Switch("--a"@)] + words(a) + seq![
                Tok::Switch("--b"@),
            ] + words(b) + threshold_toks(t) + tail_toks(t),
            None::<Seq<char>>,
        ),
{
    lemma_flags();
    lemma_end(t);
    lemma_same_line(mode, a, b, t);
    let r4 = end_of(t);
    let r5 = b + r4;
    lemma_words(b, r4);
    let r6 = seq!["--b"@] + r5;
    lemma_switch("--b"@, r5);
    let r7 = a + r6;
    lemma_words(a, r6);
    let r8 = seq!["--a"@] + r7;
    lemma_switch("--a"@, r7);
    lemma_valued("--mode"@, mode, r8);
    assert(pieces_of(line_of(mode, a, b, t)).0 =~= seq![
        Tok::Valued("--mode"@, mode),
        Tok::Switch("--a"@),
    ] + words(a) + seq![Tok::Switch("--b"@)] + words(b) + threshold_toks(t) + tail_toks(t));
}

/// The comparator reads, from the command line that it is called with, the mode, the two
/// groups, the thresholds, what to ignore and whether to allow lower grades, just as the
/// caller meant them.
pub proof fn law_the_comparator_reads_its_call(
    mode: Seq<char>,
    a: Seq<Seq<char>>,
    b: Seq<Seq<char>>,
    t: GateThresholds,
)
    requires
        no_flags(a),
        no_flags(b),
        args::is_decimal(t.p_threshold@),
        args::is_decimal(t.noise_threshold@),
        t.resamples <= usize::MAX,
    ensures
        gate_cli::requested(gate_call::gate_line(mode, a, b, t)) matches Ok(r) && {
            &&& r.mode == mode
            &&& r.a == a
            &&& r.b == b
            &&& r.p_threshold == t.p_threshold@
            &&& r.noise_threshold == t.noise_threshold@
            &&& r.resamples == t.resamples
            &&& r.ignore == text::texts(t.ignore@)
            &&& r.allow_ungraded == t.allow_ungraded
            &&& r.baseline.len() == 0 && r.candidate.len() == 0
            &&& !r.strict_single_cell
        },
{
    lemma_flags();
    reveal(pieces_of);
    lemma_line(mode, a, b, t);
    text::law_unsigned_reads_decimal(t.resamples as nat, usize::MAX as nat);
    let t0 = Seq::<Tok>::empty();
    let t1 = t0.push(Tok::Valued("--mode"@, mode));
    lemma_pushed(t0, Tok::Valued("--mode"@, mode));
    let t2 = t1.push(Tok::Switch("--a"@));
    lemma_pushed(t1, Tok::Switch("--a"@));
    let q2 = Request { mode, ..gate_cli::unasked() };
    assert(gate_cli::asked(t2) == Ok::<(Request, Feed), Seq<char>>((q2, Feed::A)));
    lemma_words_feed(t2, a, q2, Feed::A);
    let q3 = Request { a: q2.a + a, ..q2 };
    let t3 = t2 + words(a);
    let t4 = t3.push(Tok::Switch("--b"@));
    lemma_pushed(t3, Tok::Switch("--b"@));
    assert(gate_cli::asked(t4) == Ok::<(Request, Feed), Seq<char>>((q3, Feed::B)));
    lemma_words_feed(t4, b, q3, Feed::B);
    let q5 = Request { b: q3.b + b, ..q3 };
    let t5 = t4 + words(b);
    let t6 = t5.push(Tok::Valued("--p-threshold"@, t.p_threshold@));
    lemma_pushed(t5, Tok::Valued("--p-threshold"@, t.p_threshold@));
    let t7 = t6.push(Tok::Valued("--noise-threshold"@, t.noise_threshold@));
    lemma_pushed(t6, Tok::Valued("--noise-threshold"@, t.noise_threshold@));
    let n = text::decimal(t.resamples as nat);
    let t8 = t7.push(Tok::Valued("--resamples"@, n));
    lemma_pushed(t7, Tok::Valued("--resamples"@, n));
    let q8 = Request {
        p_threshold: t.p_threshold@,
        noise_threshold: t.noise_threshold@,
        resamples: t.resamples as int,
        ..q5
    };
    assert(gate_cli::asked(t8) == Ok::<(Request, Feed), Seq<char>>((q8, Feed::Nothing)));
    lemma_ignores_feed(t8, text::texts(t.ignore@), q8);
    let t9 = t8 + ignores(text::texts(t.ignore@));
    let all = pieces_of(gate_call::gate_line(mode, a, b, t)).0;
    if t.allow_ungraded {
        lemma_pushed(t9, Tok::Switch("--allow-ungraded"@));
        assert(all =~= t9.push(Tok::Switch("--allow-ungraded"@)));
    } else {
        assert(all =~= t9);
    }
    assert(q3.a =~= a);
    assert(q5.b =~= b);
    assert(q8.ignore + text::texts(t.ignore@) =~= text::texts(t.ignore@));
}

} // verus!
