//! What the moves of the metrics make of a comparison and of a drift test.
use crate::gate::{self, Comparison, Config, Finding, Match, Pair, Shift, Sign, Status};
use crate::json::{self, Json};
use crate::reduce::{self, Polarity};
use crate::text;
use vstd::prelude::*;

verus! {

broadcast use json::law_lookup_put;

// ---------------------------------------------------------------------------
// Comparisons
// ---------------------------------------------------------------------------

/// Whether a clean metric that counts moved: significantly, by enough, and above
/// the noise.
pub open spec fn moved(m: Match, c: Comparison) -> bool {
    !m.ignored && !m.contaminated && c.significant && c.strong && !c.noisy
}

/// Whether a metric that should fall rose, or one that should rise fell.
pub open spec fn against(m: Match, s: Sign) -> bool {
    ||| m.polarity == Polarity::LowerBetter && s == Sign::Up
    ||| m.polarity == Polarity::HigherBetter && s == Sign::Down
}

/// A rise of a metric that should fall is for the worse, and so is a fall of one
/// that should rise. Any other move of either is not. Of a metric without a
/// direction nothing is said.
pub proof fn law_direction(polarity: Polarity, sign: Sign)
    ensures
        gate::worse(polarity, sign) == Some(true) <==> (polarity == Polarity::LowerBetter && sign
            == Sign::Up) || (polarity == Polarity::HigherBetter && sign == Sign::Down),
        gate::worse(polarity, sign) is None <==> polarity == Polarity::Unknown,
        gate::worse(Polarity::LowerBetter, Sign::Up) == gate::worse(
            Polarity::HigherBetter,
            Sign::Down,
        ),
        gate::worse(Polarity::LowerBetter, Sign::Down) == gate::worse(
            Polarity::HigherBetter,
            Sign::Up,
        ),
{
}

/// A significant, strong move of a clean metric, above the noise, is a regression
/// exactly where it is up on a metric that should fall or down on one that should
/// rise. It is an improvement where such a metric moved the other way, and a mere
/// change where the metric has no direction. Nothing else is any of the three.
pub proof fn law_moves_are_judged_by_their_direction(m: Match, c: Comparison)
    ensures
        gate::status(m, c) == Status::Regressed <==> moved(m, c) && against(m, c.sign),
        gate::status(m, c) == Status::Improved <==> moved(m, c) && m.polarity != Polarity::Unknown
            && !against(m, c.sign),
        gate::status(m, c) == Status::Changed <==> moved(m, c) && m.polarity == Polarity::Unknown,
        gate::status(m, c) == Status::Ignored <==> m.ignored,
        gate::status(m, c) == Status::Contaminated <==> m.contaminated && !m.ignored,
        gate::status(m, c) == Status::Stable <==> !m.ignored && !m.contaminated && !moved(m, c),
{
}

/// Whether one of the metrics moved for the worse.
pub open spec fn some_against(ms: Seq<Match>, cs: Seq<Comparison>) -> bool {
    exists|i: int|
        0 <= i < ms.len() && moved(#[trigger] ms[i], cs[i]) && against(ms[i], cs[i].sign)
}

/// Whether one of the metrics that count cannot be trusted.
pub open spec fn some_contaminated(ms: Seq<Match>) -> bool {
    exists|i: int| 0 <= i < ms.len() && (#[trigger] ms[i]).contaminated && !ms[i].ignored
}

proof fn lemma_any(ms: Seq<Match>, cs: Seq<Comparison>)
    ensures
        gate::any(ms, cs, Status::Regressed) <==> some_against(ms, cs),
        gate::any(ms, cs, Status::Contaminated) <==> some_contaminated(ms),
{
    if gate::any(ms, cs, Status::Regressed) {
        let i = choose|i: int|
            0 <= i < ms.len() && gate::status(#[trigger] ms[i], cs[i]) == Status::Regressed;
        assert(moved(ms[i], cs[i]) && against(ms[i], cs[i].sign));
    }
    if gate::any(ms, cs, Status::Contaminated) {
        let i = choose|i: int|
            0 <= i < ms.len() && gate::status(#[trigger] ms[i], cs[i]) == Status::Contaminated;
        assert(ms[i].contaminated && !ms[i].ignored);
    }
    if some_against(ms, cs) {
        let i = choose|i: int|
            0 <= i < ms.len() && moved(#[trigger] ms[i], cs[i]) && against(ms[i], cs[i].sign);
        assert(gate::status(ms[i], cs[i]) == Status::Regressed);
    }
    if some_contaminated(ms) {
        let i = choose|i: int|
            0 <= i < ms.len() && (#[trigger] ms[i]).contaminated && !ms[i].ignored;
        assert(gate::status(ms[i], cs[i]) == Status::Contaminated);
    }
}

proof fn lemma_document(f: Finding, mode: Seq<char>, o: Option<Json>)
    ensures
        gate::verdict_in(gate::document(f, mode, o)) == f.verdict,
        json::member(json::member(gate::document(f, mode, o), "outcome"@), "per_metric"@)
            == Json::Obj(f.per_metric),
        json::member(json::member(gate::document(f, mode, o), "report"@), "detail"@) == Json::Arr(
            f.detail,
        ),
        json::member(json::member(gate::document(f, mode, o), "report"@), "mode"@) == Json::Str(
            mode,
        ),
{
    reveal_strlit("outcome");
    reveal_strlit("report");
    reveal_strlit("verdict");
    reveal_strlit("per_metric");
    reveal_strlit("notes");
    reveal_strlit("mode");
    reveal_strlit("detail");
    reveal_strlit("overhead");
    assert("outcome"@[0] == 'o');
    assert("report"@[0] == 'r');
    assert("verdict"@[0] == 'v');
    assert("per_metric"@[0] == 'p');
    assert("notes"@[0] == 'n');
    assert("mode"@[0] == 'm');
    assert("detail"@[0] == 'd');
    assert("overhead"@[0] == 'o');
    assert("overhead"@.len() == 8);
    assert("outcome"@.len() == 7);
}

/// A comparison is contaminated, with exit code 3, exactly where a metric that
/// counts cannot be trusted. Otherwise it fails, with exit code 2, exactly where a
/// clean metric moved significantly, strongly and above the noise, up where it
/// should fall or down where it should rise. Otherwise it passes, with exit code 0.
/// Whether a single cell is trusted bears on none of this.
pub proof fn law_comparison_fails_on_a_move_for_the_worse(
    ms: Seq<Match>,
    cs: Seq<Comparison>,
    notes: Seq<Seq<char>>,
    strict: bool,
    mode: Seq<char>,
    o: Option<Json>,
)
    ensures
        ({
            let f = gate::concluded(ms, cs, notes, strict);
            let d = gate::document(f, mode, o);
            &&& gate::verdict_in(d) == f.verdict
            &&& f.verdict == "contaminated"@ <==> some_contaminated(ms)
            &&& f.verdict == "fail"@ <==> some_against(ms, cs) && !some_contaminated(ms)
            &&& f.verdict == "pass"@ <==> !some_against(ms, cs) && !some_contaminated(ms)
            &&& gate::exit_code_for(f.verdict) == 3 <==> some_contaminated(ms)
            &&& gate::exit_code_for(f.verdict) == 2 <==> some_against(ms, cs)
                && !some_contaminated(ms)
            &&& gate::exit_code_for(f.verdict) == 0 <==> !some_against(ms, cs)
                && !some_contaminated(ms)
        }),
{
    lemma_any(ms, cs);
    gate::lemma_verdict_names();
    lemma_document(gate::concluded(ms, cs, notes, strict), mode, o);
}

/// What runs are compared to: the document of a comparison of two groups of runs
/// fails, with exit code 2, exactly where a clean metric of theirs was judged to
/// have moved for the worse and every metric that counts can be trusted.
pub proof fn law_runs_fail_on_a_move_for_the_worse<F: Fn(&Pair) -> Comparison>(
    judge: F,
    x: Seq<Json>,
    y: Seq<Json>,
    cfg: Config,
    d: Json,
)
    requires
        gate::ab_gave(judge, x, y, cfg, Ok(d)),
    ensures
        exists|cs: Seq<Comparison>| #[trigger]
            gate::answered(judge, gate::compared(x, y, text::texts(cfg.ignore@)), cs) && ({
                let ms = gate::compared(x, y, text::texts(cfg.ignore@));
                &&& gate::exit_code_for(gate::verdict_in(d)) == 2 <==> some_against(ms, cs)
                    && !some_contaminated(ms)
                &&& gate::exit_code_for(gate::verdict_in(d)) == 3 <==> some_contaminated(ms)
                &&& gate::exit_code_for(gate::verdict_in(d)) == 0 <==> !some_against(ms, cs)
                    && !some_contaminated(ms)
            }),
{
    let ms = gate::compared(x, y, text::texts(cfg.ignore@));
    let cs = choose|cs: Seq<Comparison>| #[trigger]
        gate::answered(judge, ms, cs) && d == gate::document(
            gate::found(x, y, cfg, cs),
            "ab_permutation"@,
            None,
        );
    let f = gate::found(x, y, cfg, cs);
    lemma_document(f, "ab_permutation"@, None);
    law_comparison_fails_on_a_move_for_the_worse(
        ms,
        cs,
        f.notes,
        cfg.strict_single_cell,
        "ab_permutation"@,
        None,
    );
}

proof fn lemma_status_texts()
    ensures
        "ignored"@ != "contaminated"@ && "ignored"@ != "stable"@ && "ignored"@ != "regressed"@,
        "ignored"@ != "improved"@ && "ignored"@ != "changed"@,
        "contaminated"@ != "stable"@ && "contaminated"@ != "regressed"@,
        "contaminated"@ != "improved"@ && "contaminated"@ != "changed"@,
        "stable"@ != "regressed"@ && "stable"@ != "improved"@ && "stable"@ != "changed"@,
        "regressed"@ != "improved"@ && "regressed"@ != "changed"@ && "improved"@ != "changed"@,
{
    reveal_strlit("ignored");
    reveal_strlit("contaminated");
    reveal_strlit("stable");
    reveal_strlit("regressed");
    reveal_strlit("improved");
    reveal_strlit("changed");
    assert("ignored"@[1] == 'g' && "improved"@[1] == 'm');
    assert("contaminated"@[1] == 'o' && "changed"@[1] == 'h');
    assert("stable"@[0] == 's' && "regressed"@[0] == 'r');
    assert("ignored"@[0] == 'i' && "improved"@[0] == 'i');
    assert("contaminated"@[0] == 'c' && "changed"@[0] == 'c');
}

proof fn lemma_line(m: Match, c: Comparison)
    ensures
        ({
            let line = gate::detail_line(m, c);
            &&& json::str_field(line, "id"@) == Some(m.id)
            &&& json::str_field(line, "status"@) == Some(gate::status_text(gate::status(m, c)))
            &&& json::member(line, "mean_a"@) == c.mean_a@
            &&& json::member(line, "mean_b"@) == c.mean_b@
            &&& json::member(line, "rel_delta"@) == c.delta@
            &&& json::member(line, "p"@) == c.p@
            &&& json::member(line, "cov"@) == c.cov@
            &&& json::member(line, "n_a"@) == Json::Int(m.a.len() as int)
            &&& json::member(line, "n_b"@) == Json::Int(m.b.len() as int)
        }),
{
    reveal_strlit("id");
    reveal_strlit("status");
    reveal_strlit("mean_a");
    reveal_strlit("mean_b");
    reveal_strlit("rel_delta");
    reveal_strlit("p");
    reveal_strlit("cov");
    reveal_strlit("n_a");
    reveal_strlit("n_b");
    reveal_strlit("cells");
    assert("id"@[0] == 'i' && "status"@[0] == 's' && "rel_delta"@[0] == 'r' && "p"@[0] == 'p');
    assert("cov"@[1] == 'o' && "cells"@[1] == 'e' && "cov"@[0] == 'c' && "cells"@[0] == 'c');
    assert("mean_a"@[5] == 'a' && "mean_b"@[5] == 'b');
    assert("mean_a"@[0] == 'm' && "mean_b"@[0] == 'm');
    assert("n_a"@[2] == 'a' && "n_b"@[2] == 'b' && "n_a"@[0] == 'n' && "n_b"@[0] == 'n');
}

/// The report has a line for each metric that was compared, in their order. It
/// calls the metric regressed exactly where it moved for the worse, and improved
/// exactly where it moved for the better; and it gives the first group's mean and
/// number of samples as those of `a`, the second's as those of `b`.
pub proof fn law_report_tells_the_moves(
    ms: Seq<Match>,
    cs: Seq<Comparison>,
    notes: Seq<Seq<char>>,
    strict: bool,
    i: int,
)
    requires
        0 <= i < ms.len(),
    ensures
        ({
            let detail = gate::concluded(ms, cs, notes, strict).detail;
            let s = json::str_field(detail[i], "status"@);
            &&& detail.len() == ms.len()
            &&& json::str_field(detail[i], "id"@) == Some(ms[i].id)
            &&& s == Some("regressed"@) <==> moved(ms[i], cs[i]) && against(ms[i], cs[i].sign)
            &&& s == Some("improved"@) <==> moved(ms[i], cs[i]) && !against(ms[i], cs[i].sign)
                && ms[i].polarity != Polarity::Unknown
            &&& s == Some("changed"@) <==> moved(ms[i], cs[i]) && ms[i].polarity
                == Polarity::Unknown
            &&& s == Some("ignored"@) <==> ms[i].ignored
            &&& s == Some("contaminated"@) <==> ms[i].contaminated && !ms[i].ignored
            &&& s == Some("stable"@) <==> !ms[i].ignored && !ms[i].contaminated && !moved(
                ms[i],
                cs[i],
            )
            &&& json::member(detail[i], "mean_a"@) == cs[i].mean_a@
            &&& json::member(detail[i], "mean_b"@) == cs[i].mean_b@
            &&& json::member(detail[i], "rel_delta"@) == cs[i].delta@
            &&& json::member(detail[i], "p"@) == cs[i].p@
            &&& json::member(detail[i], "cov"@) == cs[i].cov@
            &&& json::member(detail[i], "n_a"@) == Json::Int(ms[i].a.len() as int)
            &&& json::member(detail[i], "n_b"@) == Json::Int(ms[i].b.len() as int)
        }),
{
    lemma_line(ms[i], cs[i]);
    lemma_status_texts();
    law_moves_are_judged_by_their_direction(ms[i], cs[i]);
}

proof fn lemma_entry(delta: Json, p: Json, significant: bool, noisy: bool)
    ensures
        ({
            let e = gate::entry(delta, p, significant, noisy);
            &&& json::member(e, "delta"@) == delta
            &&& json::member(e, "p"@) == p
            &&& json::member(e, "significant"@) == Json::Bool(significant)
            &&& json::member(e, "noisy"@) == Json::Bool(noisy)
        }),
{
    reveal_strlit("delta");
    reveal_strlit("p");
    reveal_strlit("significant");
    reveal_strlit("noisy");
    assert("delta"@[0] == 'd' && "p"@[0] == 'p' && "significant"@[0] == 's' && "noisy"@[0] == 'n');
}

proof fn lemma_entries(ms: Seq<Match>, cs: Seq<Comparison>, n: nat, i: int)
    requires
        0 <= i < n <= ms.len(),
        forall|j: int| i < j < n ==> (#[trigger] ms[j]).id != ms[i].id,
    ensures
        json::lookup(gate::entries(ms, cs, n), ms[i].id) == Some(
            gate::entry(cs[i].delta@, cs[i].p@, cs[i].significant, cs[i].noisy),
        ),
    decreases n,
{
    if i < n - 1 {
        lemma_entries(ms, cs, (n - 1) as nat, i);
    }
}

/// The outcome has, under the id of each metric that was compared, the change, the
/// p value, and whether the change was significant and whether it was noisy.
pub proof fn law_outcome_has_each_metric(
    ms: Seq<Match>,
    cs: Seq<Comparison>,
    notes: Seq<Seq<char>>,
    strict: bool,
    i: int,
)
    requires
        0 <= i < ms.len(),
        forall|j: int| i < j < ms.len() ==> (#[trigger] ms[j]).id != ms[i].id,
    ensures
        ({
            let found = json::lookup(gate::concluded(ms, cs, notes, strict).per_metric, ms[i].id);
            &&& found is Some
            &&& json::member(found->0, "delta"@) == cs[i].delta@
            &&& json::member(found->0, "p"@) == cs[i].p@
            &&& json::member(found->0, "significant"@) == Json::Bool(cs[i].significant)
            &&& json::member(found->0, "noisy"@) == Json::Bool(cs[i].noisy)
        }),
{
    lemma_entries(ms, cs, ms.len(), i);
    lemma_entry(cs[i].delta@, cs[i].p@, cs[i].significant, cs[i].noisy);
}

proof fn lemma_single(ms: Seq<Match>, cs: Seq<Comparison>, n: nat)
    requires
        n <= ms.len(),
    ensures
        gate::single_cell(ms, cs, n).len() > 0 <==> exists|i: int|
            0 <= i < n && moved(#[trigger] ms[i], cs[i]) && against(ms[i], cs[i].sign)
                && ms[i].cells.len() < 2,
    decreases n,
{
    if n > 0 {
        lemma_single(ms, cs, (n - 1) as nat);
        law_moves_are_judged_by_their_direction(ms[n - 1], cs[n - 1]);
    }
}

/// One note is added to those of admitting the runs exactly where the comparison fails,
/// a single cell is not trusted, and a metric moved for the worse that fewer than two
/// cells have.
pub proof fn law_single_cells_are_noted(
    ms: Seq<Match>,
    cs: Seq<Comparison>,
    notes: Seq<Seq<char>>,
    strict: bool,
)
    ensures
        ({
            let f = gate::concluded(ms, cs, notes, strict);
            let noted = !strict && !some_contaminated(ms) && exists|i: int|
                0 <= i < ms.len() && moved(#[trigger] ms[i], cs[i]) && against(ms[i], cs[i].sign)
                    && ms[i].cells.len() < 2;
            &&& noted ==> f.notes.len() == notes.len() + 1 && f.notes.drop_last() == notes
            &&& !noted ==> f.notes == notes
        }),
{
    law_comparison_fails_on_a_move_for_the_worse(ms, cs, notes, strict, ""@, None);
    lemma_single(ms, cs, ms.len());
    let f = gate::concluded(ms, cs, notes, strict);
    let some = exists|i: int|
        0 <= i < ms.len() && moved(#[trigger] ms[i], cs[i]) && against(ms[i], cs[i].sign)
            && ms[i].cells.len() < 2;
    if some {
        let i = choose|i: int|
            0 <= i < ms.len() && moved(#[trigger] ms[i], cs[i]) && against(ms[i], cs[i].sign)
                && ms[i].cells.len() < 2;
        assert(some_against(ms, cs));
    }
    assert(f.notes != notes ==> f.notes.drop_last() =~= notes);
}

// ---------------------------------------------------------------------------
// The triad
// ---------------------------------------------------------------------------

/// Whether one of the runs has a cost record that says that its probe ran over budget.
pub open spec fn some_over_budget(runs: Seq<Json>) -> bool {
    exists|r: int, i: int|
        0 <= r < runs.len() && 0 <= i < json::items(runs[r], "self_metrics"@).len() && json::member(
            #[trigger] json::items(runs[r], "self_metrics"@)[i],
            "over_budget"@,
        ) == Json::Bool(true)
}

proof fn lemma_cost_records(runs: Seq<Json>, at: int)
    ensures
        0 <= at < gate::cost_records(runs).len() ==> exists|r: int, i: int|
            0 <= r < runs.len() && 0 <= i < json::items(runs[r], "self_metrics"@).len()
                && #[trigger] json::items(runs[r], "self_metrics"@)[i] == gate::cost_records(runs)[at],
    decreases runs.len(),
{
    if runs.len() > 0 {
        let less = runs.drop_last();
        lemma_cost_records(less, at);
        let before = gate::cost_records(less);
        if 0 <= at < before.len() {
            let (r, i) = choose|r: int, i: int|
                0 <= r < less.len() && 0 <= i < json::items(less[r], "self_metrics"@).len()
                    && #[trigger] json::items(less[r], "self_metrics"@)[i] == before[at];
            assert(json::items(runs[r], "self_metrics"@)[i] == before[at]);
        } else if before.len() <= at < gate::cost_records(runs).len() {
            let last = runs.len() - 1;
            assert(json::items(runs[last], "self_metrics"@)[at - before.len()]
                == gate::cost_records(runs)[at]);
        }
    }
}

proof fn lemma_cost_record_at(runs: Seq<Json>, r: int, i: int) -> (at: int)
    requires
        0 <= r < runs.len(),
        0 <= i < json::items(runs[r], "self_metrics"@).len(),
    ensures
        0 <= at < gate::cost_records(runs).len(),
        gate::cost_records(runs)[at] == json::items(runs[r], "self_metrics"@)[i],
    decreases runs.len(),
{
    let before = gate::cost_records(runs.drop_last());
    if r < runs.len() - 1 {
        lemma_cost_record_at(runs.drop_last(), r, i)
    } else {
        before.len() + i
    }
}

proof fn lemma_over(records: Seq<Json>)
    ensures
        gate::over(records).len() > 0 <==> exists|i: int|
            0 <= i < records.len() && json::member(#[trigger] records[i], "over_budget"@)
                == Json::Bool(true),
    decreases records.len(),
{
    if records.len() > 0 {
        let less = records.drop_last();
        lemma_over(less);
        assert(records[records.len() - 1] == records.last());
        if exists|i: int|
            0 <= i < less.len() && json::member(#[trigger] less[i], "over_budget"@) == Json::Bool(
                true,
            ) {
            let i = choose|i: int|
                0 <= i < less.len() && json::member(#[trigger] less[i], "over_budget"@)
                    == Json::Bool(true);
            assert(records[i] == less[i]);
        }
        if exists|i: int|
            0 <= i < records.len() && json::member(#[trigger] records[i], "over_budget"@)
                == Json::Bool(true) {
            let i = choose|i: int|
                0 <= i < records.len() && json::member(#[trigger] records[i], "over_budget"@)
                    == Json::Bool(true);
            if i < less.len() {
                assert(less[i] == records[i]);
            } else {
                assert(reduce::flag(records.last(), "over_budget"@));
            }
        }
    }
}

proof fn lemma_some_over(runs: Seq<Json>)
    ensures
        gate::over(gate::cost_records(runs)).len() > 0 <==> some_over_budget(runs),
{
    let records = gate::cost_records(runs);
    lemma_over(records);
    if gate::over(records).len() > 0 {
        let at = choose|i: int|
            0 <= i < records.len() && json::member(#[trigger] records[i], "over_budget"@)
                == Json::Bool(true);
        lemma_cost_records(runs, at);
        let (r, i) = choose|r: int, i: int|
            0 <= r < runs.len() && 0 <= i < json::items(runs[r], "self_metrics"@).len()
                && #[trigger] json::items(runs[r], "self_metrics"@)[i] == records[at];
        assert(json::member(json::items(runs[r], "self_metrics"@)[i], "over_budget"@)
            == Json::Bool(true));
    }
    if some_over_budget(runs) {
        let (r, i) = choose|r: int, i: int|
            0 <= r < runs.len() && 0 <= i < json::items(runs[r], "self_metrics"@).len()
                && json::member(
                #[trigger] json::items(runs[r], "self_metrics"@)[i],
                "over_budget"@,
            ) == Json::Bool(true);
        let at = lemma_cost_record_at(runs, r, i);
        assert(json::member(records[at], "over_budget"@) == Json::Bool(true));
    }
}

/// A triad is contaminated, with exit code 3, where a metric that counts cannot be
/// trusted. Otherwise it fails, with exit code 2, exactly where a metric moved for the
/// worse or a cost record of the second group says that a probe ran over its budget.
/// Otherwise it passes, with exit code 0.
pub proof fn law_triad_fails_over_budget(
    ms: Seq<Match>,
    cs: Seq<Comparison>,
    notes: Seq<Seq<char>>,
    strict: bool,
    y: Seq<Json>,
    ws: Seq<Json>,
)
    ensures
        ({
            let code = gate::exit_code_for(
                gate::verdict_in(gate::weighed(gate::concluded(ms, cs, notes, strict), y, ws)),
            );
            &&& code == 3 <==> some_contaminated(ms)
            &&& code == 2 <==> !some_contaminated(ms) && (some_against(ms, cs) || some_over_budget(
                y,
            ))
            &&& code == 0 <==> !some_contaminated(ms) && !some_against(ms, cs) && !some_over_budget(
                y,
            )
        }),
{
    let f = gate::concluded(ms, cs, notes, strict);
    law_comparison_fails_on_a_move_for_the_worse(ms, cs, notes, strict, ""@, None);
    lemma_some_over(y);
    gate::lemma_verdict_names();
    let e = gate::costs(gate::cost_records(y));
    let o = gate::over(gate::cost_records(y));
    lemma_document(
        gate::folded(f, o),
        "subsystem_triad"@,
        Some(gate::overhead(gate::worst_costs(e, ws, e.len()), o)),
    );
}

// ---------------------------------------------------------------------------
// Drift
// ---------------------------------------------------------------------------

/// Whether one of the metrics left the baseline's band and moved by at least the
/// minimum effect, for the worse.
pub open spec fn some_drift_against(ms: Seq<Match>, cs: Seq<Shift>) -> bool {
    exists|i: int|
        0 <= i < ms.len() && against(#[trigger] ms[i], cs[i].sign) && cs[i].level_shift
            && cs[i].strong
}

/// A drift test fails, with exit code 2, exactly where some metric both left the
/// baseline's band and moved by at least the minimum effect, up where it should fall
/// or down where it should rise. Otherwise it passes, with exit code 0, and says so
/// in a note.
pub proof fn law_drift_fails_outside_the_band_only(
    ms: Seq<Match>,
    cs: Seq<Shift>,
    mode: Seq<char>,
    o: Option<Json>,
)
    ensures
        ({
            let f = gate::drift_concluded(ms, cs);
            let d = gate::document(f, mode, o);
            &&& gate::verdict_in(d) == f.verdict
            &&& f.verdict == "fail"@ <==> some_drift_against(ms, cs)
            &&& f.verdict == "pass"@ <==> !some_drift_against(ms, cs)
            &&& gate::exit_code_for(f.verdict) == 2 <==> some_drift_against(ms, cs)
            &&& gate::exit_code_for(f.verdict) == 0 <==> !some_drift_against(ms, cs)
            &&& f.notes.len() == 0 <==> some_drift_against(ms, cs)
        }),
{
    gate::lemma_verdict_names();
    let f = gate::drift_concluded(ms, cs);
    lemma_document(f, mode, o);
    if some_drift_against(ms, cs) {
        let i = choose|i: int|
            0 <= i < ms.len() && against(#[trigger] ms[i], cs[i].sign) && cs[i].level_shift
                && cs[i].strong;
        assert(gate::drifted_badly(ms[i], cs[i]));
        assert(f.verdict == "fail"@);
    }
    if exists|i: int| 0 <= i < ms.len() && gate::drifted_badly(#[trigger] ms[i], cs[i]) {
        let i = choose|i: int| 0 <= i < ms.len() && gate::drifted_badly(#[trigger] ms[i], cs[i]);
        assert(against(ms[i], cs[i].sign));
    }
}

/// Where every metric's level stayed in the baseline's band, or no metric moved by
/// the minimum effect, a drift test passes whatever else was found.
pub proof fn law_no_drift_within_the_band(ms: Seq<Match>, cs: Seq<Shift>)
    requires
        forall|i: int| 0 <= i < ms.len() ==> !(#[trigger] cs[i]).level_shift || !cs[i].strong,
    ensures
        gate::drift_concluded(ms, cs).verdict == "pass"@,
{
    law_drift_fails_outside_the_band_only(ms, cs, ""@, None);
    if some_drift_against(ms, cs) {
        let i = choose|i: int|
            0 <= i < ms.len() && against(#[trigger] ms[i], cs[i].sign) && cs[i].level_shift
                && cs[i].strong;
        assert(!cs[i].level_shift || !cs[i].strong);
    }
}

proof fn lemma_drift_texts()
    ensures
        "drift_bad"@ != "drift"@ && "drift_bad"@ != "trending"@ && "drift_bad"@ != "stable"@,
        "drift"@ != "trending"@ && "drift"@ != "stable"@ && "trending"@ != "stable"@,
{
    reveal_strlit("drift_bad");
    reveal_strlit("drift");
    reveal_strlit("trending");
    reveal_strlit("stable");
    assert("drift_bad"@.len() == 9 && "drift"@.len() == 5);
    assert("trending"@.len() == 8 && "stable"@.len() == 6);
}

proof fn lemma_drift_line(m: Match, c: Shift)
    ensures
        ({
            let line = gate::drift_line(m, c);
            &&& json::str_field(line, "id"@) == Some(m.id)
            &&& json::str_field(line, "status"@) == Some(gate::drift_status(m, c))
            &&& json::member(line, "base_mean"@) == c.base_mean@
            &&& json::member(line, "base_std"@) == c.base_std@
            &&& json::member(line, "cand_mean"@) == c.cand_mean@
            &&& json::member(line, "rel_delta"@) == c.delta@
            &&& json::member(line, "slope"@) == c.slope@
            &&& json::member(line, "slope_stderr"@) == c.slope_stderr@
        }),
{
    reveal_strlit("id");
    reveal_strlit("status");
    reveal_strlit("base_mean");
    reveal_strlit("base_std");
    reveal_strlit("cand_mean");
    reveal_strlit("rel_delta");
    reveal_strlit("slope");
    reveal_strlit("slope_stderr");
    assert("id"@.len() == 2 && "status"@.len() == 6 && "base_std"@.len() == 8);
    assert("slope"@.len() == 5 && "slope_stderr"@.len() == 12);
    assert("base_mean"@.len() == 9 && "cand_mean"@.len() == 9 && "rel_delta"@.len() == 9);
    assert("base_mean"@[0] == 'b' && "cand_mean"@[0] == 'c' && "rel_delta"@[0] == 'r');
}

proof fn lemma_drift_entries(ms: Seq<Match>, cs: Seq<Shift>, n: nat, i: int)
    requires
        0 <= i < n <= ms.len(),
        forall|j: int| i < j < n ==> (#[trigger] ms[j]).id != ms[i].id,
    ensures
        json::lookup(gate::drift_entries(ms, cs, n), ms[i].id) == Some(
            gate::entry(cs[i].delta@, Json::Float("0.0"@), gate::drifted(cs[i]), false),
        ),
    decreases n,
{
    if i < n - 1 {
        lemma_drift_entries(ms, cs, (n - 1) as nat, i);
    }
}

/// A metric is reported as drift exactly where it both left the baseline's band and
/// moved by at least the minimum effect, and as bad drift exactly where that was for
/// the worse; one that did not is trending or stable. Its line carries the numbers of
/// its test.
pub proof fn law_drift_is_reported_outside_the_band_only(ms: Seq<Match>, cs: Seq<Shift>, i: int)
    requires
        0 <= i < ms.len(),
    ensures
        ({
            let detail = gate::drift_concluded(ms, cs).detail;
            let s = json::str_field(detail[i], "status"@);
            &&& detail.len() == ms.len()
            &&& json::str_field(detail[i], "id"@) == Some(ms[i].id)
            &&& s == Some("drift_bad"@) <==> cs[i].level_shift && cs[i].strong && against(
                ms[i],
                cs[i].sign,
            )
            &&& s == Some("drift"@) <==> cs[i].level_shift && cs[i].strong && !against(
                ms[i],
                cs[i].sign,
            )
            &&& s == Some("trending"@) <==> (!cs[i].level_shift || !cs[i].strong) && cs[i].trending
            &&& s == Some("stable"@) <==> (!cs[i].level_shift || !cs[i].strong) && !cs[i].trending
            &&& json::member(detail[i], "base_mean"@) == cs[i].base_mean@
            &&& json::member(detail[i], "base_std"@) == cs[i].base_std@
            &&& json::member(detail[i], "cand_mean"@) == cs[i].cand_mean@
            &&& json::member(detail[i], "rel_delta"@) == cs[i].delta@
            &&& json::member(detail[i], "slope"@) == cs[i].slope@
            &&& json::member(detail[i], "slope_stderr"@) == cs[i].slope_stderr@
        }),
{
    lemma_drift_line(ms[i], cs[i]);
    lemma_drift_texts();
}

/// A metric is significant in the outcome of a drift test exactly where it both
/// left the baseline's band and moved by at least the minimum effect.
pub proof fn law_drift_is_significant_outside_the_band_only(
    ms: Seq<Match>,
    cs: Seq<Shift>,
    i: int,
)
    requires
        0 <= i < ms.len(),
        forall|j: int| i < j < ms.len() ==> (#[trigger] ms[j]).id != ms[i].id,
    ensures
        ({
            let found = json::lookup(gate::drift_concluded(ms, cs).per_metric, ms[i].id);
            &&& found is Some
            &&& json::member(found->0, "delta"@) == cs[i].delta@
            &&& json::member(found->0, "significant"@) == Json::Bool(
                cs[i].level_shift && cs[i].strong,
            )
            &&& json::member(found->0, "noisy"@) == Json::Bool(false)
        }),
{
    lemma_drift_entries(ms, cs, ms.len(), i);
    lemma_entry(cs[i].delta@, Json::Float("0.0"@), gate::drifted(cs[i]), false);
}

} // verus!
