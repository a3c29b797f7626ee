//! What command lines ask for.
use crate::args::{self, Tok};
use crate::cli::{self, Given};
use crate::json;
use crate::text;
use vstd::prelude::*;

verus! {

broadcast use json::law_lookup_put;

/// A flag has the value that was given to it last, and the other flags keep theirs.
pub proof fn law_the_last_value_holds(
    ts: Seq<Tok>,
    numeric: Seq<(Seq<char>, u64)>,
    flag: Seq<char>,
    v: Seq<char>,
    other: Seq<char>,
)
    requires
        cli::given(ts, numeric) is Ok,
        cli::limit(numeric, flag, 0) matches Some(max) ==> text::unsigned(v, max as nat) is Some,
    ensures
        ({
            let g = cli::given(ts, numeric)->Ok_0;
            cli::given(ts.push(Tok::Valued(flag, v)), numeric) matches Ok(h) && {
                &&& json::lookup(h.values, flag) == Some(v)
                &&& other != flag ==> json::lookup(h.values, other) == json::lookup(g.values, other)
                &&& h.word == g.word
                &&& h.switches == g.switches
            }
        }),
{
    assert(ts.push(Tok::Valued(flag, v)).drop_last() =~= ts);
}

/// A word is taken once: a second one is an error.
pub proof fn law_one_word_is_taken(
    ts: Seq<Tok>,
    numeric: Seq<(Seq<char>, u64)>,
    w: Seq<char>,
)
    requires
        cli::given(ts, numeric) is Ok,
    ensures
        ({
            let g = cli::given(ts, numeric)->Ok_0;
            let after = cli::given(ts.push(Tok::Word(w)), numeric);
            &&& g.word is Some ==> after is Err
            &&& g.word is None ==> (after matches Ok(h) && h.word == Some(w) && h.values == g.values
                && h.switches == g.switches)
        }),
{
    assert(ts.push(Tok::Word(w)).drop_last() =~= ts);
}

/// What a flag was given as a text, or a default.
pub open spec fn text_of_flag(g: Given, flag: Seq<char>, default: Seq<char>) -> Seq<char> {
    match json::lookup(g.values, flag) {
        Some(v) => v,
        None => default,
    }
}

/// A `run` takes the definition from the word, each setting from the flag of its name,
/// and its default where the flag is not given: three repeats, thirty seconds, builds
/// that are not known. No repeat at all is an error.
pub proof fn law_runs_take_their_flags(argv: Seq<Seq<char>>, g: Given, path: Seq<char>)
    requires
        cli::read_line(argv, cli::run_flags(), cli::run_switches(), cli::run_numbers()) == Ok::<
            Given,
            Seq<char>,
        >(g),
        g.word == Some(path),
    ensures
        ({
            let r = cli::run_asked(argv);
            let repeat = json::lookup(g.values, "--repeat"@);
            let duration = json::lookup(g.values, "--duration"@);
            &&& (repeat matches Some(v) && text::unsigned(v, u32::MAX as nat) == Some(0nat)) ==> r is Err
            &&& repeat is None ==> r is Ok && r->Ok_0.repeat == 3
            &&& (repeat matches Some(v) && (text::unsigned(v, u32::MAX as nat) matches Some(n) && n > 0))
                ==> r is Ok && r->Ok_0.repeat == text::unsigned(repeat->0, u32::MAX as nat)->0
            &&& r matches Ok(q) ==> {
                &&& q.def_path == path
                &&& q.a_sut == text_of_flag(g, "--a-sut"@, "unknown-a"@)
                &&& q.b_sut == text_of_flag(g, "--b-sut"@, "unknown-b"@)
                &&& q.out_dir == text_of_flag(g, "--out"@, "assayist-out"@)
                &&& duration is None ==> q.duration == 30
                &&& duration matches Some(v) ==> (text::unsigned(v, u64::MAX as nat) matches Some(n)
                    ==> q.duration == n)
                &&& q.allow_ungraded <==> g.switches.contains("--allow-ungraded"@)
                &&& q.apply_prep <==> g.switches.contains("--apply-prep"@)
            }
        }),
{
}

/// A `capture` takes the definition from the word and each setting from the flag of its
/// name, and its default where the flag is not given.
pub proof fn law_captures_take_their_flags(argv: Seq<Seq<char>>, g: Given, path: Seq<char>)
    requires
        cli::read_line(argv, cli::capture_flags(), Seq::empty(), cli::capture_numbers()) == Ok::<
            Given,
            Seq<char>,
        >(g),
        g.word == Some(path),
    ensures
        cli::capture_asked(argv) matches Ok(q) && {
            &&& q.def_path == path
            &&& q.out == text_of_flag(g, "--out"@, "-"@)
            &&& q.sut_sha == text_of_flag(g, "--sut-sha"@, "unknown"@)
            &&& q.work_dir == json::lookup(g.values, "--work-dir"@)
            &&& json::lookup(g.values, "--duration"@) is None ==> q.duration == 30
            &&& json::lookup(g.values, "--duration"@) matches Some(v) ==> (text::unsigned(
                v,
                u64::MAX as nat,
            ) matches Some(n) ==> q.duration == n)
        },
{
}

proof fn lemma_split(
    argv: Seq<Seq<char>>,
    more: Seq<Seq<char>>,
    valued: Seq<Seq<char>>,
    switches: Seq<Seq<char>>,
)
    requires
        args::pieces(argv, valued, switches).1 is None,
    ensures
        args::pieces(argv + more, valued, switches) == (
            args::pieces(argv, valued, switches).0 + args::pieces(more, valued, switches).0,
            args::pieces(more, valued, switches).1,
        ),
    decreases argv.len(),
{
    let all = argv + more;
    let (mt, me) = args::pieces(more, valued, switches);
    if argv.len() == 0 {
        assert(all =~= more);
        assert(Seq::<Tok>::empty() + mt =~= mt);
    } else {
        assert(all[0] == argv[0]);
        if valued.contains(argv[0]) {
            assert(all[1] == argv[1]);
            assert(all.skip(2) =~= argv.skip(2) + more);
            lemma_split(argv.skip(2), more, valued, switches);
            let rest = args::pieces(argv.skip(2), valued, switches).0;
            assert(seq![Tok::Valued(argv[0], argv[1])] + (rest + mt) =~= seq![
                Tok::Valued(argv[0], argv[1]),
            ] + rest + mt);
        } else {
            assert(all.skip(1) =~= argv.skip(1) + more);
            lemma_split(argv.skip(1), more, valued, switches);
            let rest = args::pieces(argv.skip(1), valued, switches).0;
            if switches.contains(argv[0]) {
                assert(seq![Tok::Switch(argv[0])] + (rest + mt) =~= seq![Tok::Switch(argv[0])] + rest
                    + mt);
            } else {
                assert(seq![Tok::Word(argv[0])] + (rest + mt) =~= seq![Tok::Word(argv[0])] + rest
                    + mt);
            }
        }
    }
}

/// A flag that takes a value takes the word after it, wherever it stands behind a command
/// line that is in order; and where no word is after it that is an error.
pub proof fn law_flags_take_the_word_after_them(
    argv: Seq<Seq<char>>,
    flag: Seq<char>,
    v: Seq<char>,
    valued: Seq<Seq<char>>,
    switches: Seq<Seq<char>>,
)
    requires
        args::pieces(argv, valued, switches).1 is None,
        valued.contains(flag),
    ensures
        args::pieces(argv + seq![flag, v], valued, switches) == (
            args::pieces(argv, valued, switches).0.push(Tok::Valued(flag, v)),
            None::<Seq<char>>,
        ),
        args::pieces(argv.push(flag), valued, switches).1 is Some,
{
    let none = Seq::<Seq<char>>::empty();
    lemma_split(argv, seq![flag, v], valued, switches);
    assert(seq![flag, v].skip(2) =~= none);
    assert(args::pieces(none, valued, switches) == (Seq::<Tok>::empty(), None::<Seq<char>>));
    assert(args::pieces(argv, valued, switches).0 + (seq![Tok::Valued(flag, v)] + Seq::<
        Tok,
    >::empty()) =~= args::pieces(argv, valued, switches).0.push(Tok::Valued(flag, v)));
    lemma_split(argv, seq![flag], valued, switches);
    assert(argv + seq![flag] =~= argv.push(flag));
}

/// A flag that is not known is an error, and a word that is none is taken as it is.
pub proof fn law_unknown_flags_are_refused(
    argv: Seq<Seq<char>>,
    w: Seq<char>,
    valued: Seq<Seq<char>>,
    switches: Seq<Seq<char>>,
)
    requires
        args::pieces(argv, valued, switches).1 is None,
        !valued.contains(w),
        !switches.contains(w),
    ensures
        args::pieces(argv.push(w), valued, switches).1 is Some <==> text::has_prefix(w, "--"@),
        !text::has_prefix(w, "--"@) ==> args::pieces(argv.push(w), valued, switches).0
            == args::pieces(argv, valued, switches).0.push(Tok::Word(w)),
{
    let none = Seq::<Seq<char>>::empty();
    lemma_split(argv, seq![w], valued, switches);
    assert(argv + seq![w] =~= argv.push(w));
    assert(seq![w].skip(1) =~= none);
    assert(args::pieces(none, valued, switches) == (Seq::<Tok>::empty(), None::<Seq<char>>));
    assert(args::pieces(argv, valued, switches).0 + (seq![Tok::Word(w)] + Seq::<Tok>::empty())
        =~= args::pieces(argv, valued, switches).0.push(Tok::Word(w)));
}

} // verus!
