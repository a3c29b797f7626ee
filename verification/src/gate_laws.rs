//! What a comparison makes of the runs that it is given.
use crate::gate::{self, Comparison, Config, Finding, Match, Pair, Status, Track};
use crate::json::{self, Json};
use crate::otlp;
use crate::reduce::{self, Amount, Polarity, Reading};
use crate::text;
use vstd::prelude::*;

verus! {

/// The values of a metric among the readings of one run.
pub open spec fn values_in(ms: Seq<Reading>, id: Seq<char>) -> Seq<Amount>
    decreases ms.len(),
{
    if ms.len() == 0 {
        Seq::empty()
    } else if ms.last().id == id {
        values_in(ms.drop_last(), id).push(ms.last().value)
    } else {
        values_in(ms.drop_last(), id)
    }
}

/// The values of a metric, in the order of the runs.
pub open spec fn values_of(runs: Seq<Json>, id: Seq<char>) -> Seq<Amount>
    decreases runs.len(),
{
    if runs.len() == 0 {
        Seq::empty()
    } else {
        values_of(runs.drop_last(), id) + values_in(reduce::reduced(runs.last()), id)
    }
}

/// Whether one of the readings of a metric cannot be trusted.
pub open spec fn spoiled_in(ms: Seq<Reading>, id: Seq<char>) -> bool {
    exists|k: int| 0 <= k < ms.len() && (#[trigger] ms[k]).id == id && ms[k].contaminated
}

/// Whether a metric cannot be trusted in one of the runs.
pub open spec fn spoiled(runs: Seq<Json>, id: Seq<char>) -> bool {
    exists|r: int| 0 <= r < runs.len() && #[trigger] spoiled_in(reduce::reduced(runs[r]), id)
}

/// The samples of a metric that a group may not have.
spec fn samples(t: Option<Track>) -> Seq<Amount> {
    match t {
        Some(x) => x.samples,
        None => Seq::empty(),
    }
}

spec fn bad(t: Option<Track>) -> bool {
    t matches Some(x) && x.contaminated
}

proof fn lemma_absorbed(
    g: Seq<(Seq<char>, Track)>,
    ms: Seq<Reading>,
    cell: Seq<char>,
    id: Seq<char>,
)
    requires
        json::sorted(json::keys(g)),
    ensures
        json::sorted(json::keys(gate::absorbed(g, ms, cell))),
        samples(json::lookup(gate::absorbed(g, ms, cell), id)) == samples(json::lookup(g, id))
            + values_in(ms, id),
        bad(json::lookup(gate::absorbed(g, ms, cell), id)) == (bad(json::lookup(g, id))
            || spoiled_in(ms, id)),
    decreases ms.len(),
{
    if ms.len() == 0 {
        assert(samples(json::lookup(g, id)) + Seq::<Amount>::empty() =~= samples(
            json::lookup(g, id),
        ));
    } else {
        let before = gate::absorbed(g, ms.drop_last(), cell);
        let m = ms.last();
        lemma_absorbed(g, ms.drop_last(), cell, id);
        let t = gate::extended(json::lookup(before, m.id), m, cell);
        json::law_put_sorted(before, m.id, t);
        json::law_lookup_put(before, m.id, t, id);
        let was = samples(json::lookup(g, id));
        let vs = values_in(ms.drop_last(), id);
        if m.id == id {
            assert(samples(Some(t)) =~= samples(json::lookup(before, id)).push(m.value));
            assert((was + vs).push(m.value) =~= was + vs.push(m.value));
            if m.contaminated {
                assert(ms[ms.len() - 1].contaminated);
            }
        }
        if spoiled_in(ms.drop_last(), id) {
            let k = choose|k: int|
                0 <= k < ms.drop_last().len() && (#[trigger] ms.drop_last()[k]).id == id
                    && ms.drop_last()[k].contaminated;
            assert(ms[k] == ms.drop_last()[k]);
        }
        if spoiled_in(ms, id) {
            let k = choose|k: int|
                0 <= k < ms.len() && (#[trigger] ms[k]).id == id && ms[k].contaminated;
            if k < ms.len() - 1 {
                assert(ms.drop_last()[k] == ms[k]);
            }
        }
    }
}

proof fn lemma_collected(runs: Seq<Json>, id: Seq<char>)
    ensures
        json::sorted(json::keys(gate::collected(runs))),
        samples(json::lookup(gate::collected(runs), id)) == values_of(runs, id),
        bad(json::lookup(gate::collected(runs), id)) == spoiled(runs, id),
    decreases runs.len(),
{
    if runs.len() > 0 {
        let init = runs.drop_last();
        lemma_collected(init, id);
        lemma_absorbed(
            gate::collected(init),
            reduce::reduced(runs.last()),
            gate::cell(runs.last()),
            id,
        );
        if spoiled_in(reduce::reduced(runs.last()), id) {
            assert(spoiled_in(reduce::reduced(runs[runs.len() - 1]), id));
        }
        if spoiled(init, id) {
            let r = choose|r: int|
                0 <= r < init.len() && #[trigger] spoiled_in(reduce::reduced(init[r]), id);
            assert(spoiled_in(reduce::reduced(runs[r]), id));
        }
        if spoiled(runs, id) {
            let r = choose|r: int|
                0 <= r < runs.len() && #[trigger] spoiled_in(reduce::reduced(runs[r]), id);
            if r < runs.len() - 1 {
                assert(spoiled_in(reduce::reduced(init[r]), id));
            }
        }
    }
}

proof fn lemma_found(g: Seq<(Seq<char>, Track)>, i: int)
    requires
        json::sorted(json::keys(g)),
        0 <= i < g.len(),
    ensures
        json::lookup(g, g[i].0) == Some(g[i].1),
{
    let ks = json::keys(g);
    assert forall|j: int| 0 <= j < i implies #[trigger] g[j].0 != g[i].0 by {
        assert(ks[j] == g[j].0 && ks[i] == g[i].0);
        assert(json::before(ks[j], ks[i]));
        json::lemma_before_irreflexive(ks[i]);
    }
    json::lemma_lookup_at(g, g[i].0, i);
}

proof fn lemma_matched(
    a: Seq<(Seq<char>, Track)>,
    b: Seq<(Seq<char>, Track)>,
    patterns: Seq<Seq<char>>,
    n: nat,
    i: int,
)
    requires
        json::sorted(json::keys(a)),
        n <= a.len(),
        0 <= i < gate::matches_of(a, b, patterns, n).len(),
    ensures
        ({
            let m = gate::matches_of(a, b, patterns, n)[i];
            let x = json::lookup(a, m.id);
            let y = json::lookup(b, m.id);
            &&& x is Some && y is Some
            &&& m.a == samples(x) && m.b == samples(y)
            &&& m.contaminated == (bad(x) || bad(y))
            &&& m.ignored == gate::ignores(patterns, m.id)
        }),
    decreases n,
{
    if n > 0 {
        let before = gate::matches_of(a, b, patterns, (n - 1) as nat);
        lemma_found(a, n - 1);
        if i < before.len() {
            lemma_matched(a, b, patterns, (n - 1) as nat, i);
        }
    }
}

/// What is compared of a metric is its values, in the order of the runs.
pub proof fn law_samples_are_the_values(
    a: Seq<Json>,
    b: Seq<Json>,
    patterns: Seq<Seq<char>>,
    i: int,
)
    requires
        0 <= i < gate::compared(a, b, patterns).len(),
    ensures
        ({
            let m = gate::compared(a, b, patterns)[i];
            m.a == values_of(a, m.id) && m.b == values_of(b, m.id)
        }),
{
    let m = gate::compared(a, b, patterns)[i];
    lemma_collected(a, m.id);
    lemma_collected(b, m.id);
    lemma_matched(gate::collected(a), gate::collected(b), patterns, gate::collected(a).len(), i);
}

/// A metric that one run cannot be trusted for makes the comparison
/// contaminated, unless it is ignored.
pub proof fn law_one_bad_reading_contaminates(
    a: Seq<Json>,
    b: Seq<Json>,
    patterns: Seq<Seq<char>>,
    cs: Seq<Comparison>,
    i: int,
)
    requires
        0 <= i < gate::compared(a, b, patterns).len(),
        !gate::ignores(patterns, gate::compared(a, b, patterns)[i].id),
        spoiled(a, gate::compared(a, b, patterns)[i].id) || spoiled(
            b,
            gate::compared(a, b, patterns)[i].id,
        ),
    ensures
        gate::verdict(gate::compared(a, b, patterns), cs) == "contaminated"@,
{
    let ms = gate::compared(a, b, patterns);
    let m: Match = ms[i];
    lemma_collected(a, m.id);
    lemma_collected(b, m.id);
    lemma_matched(gate::collected(a), gate::collected(b), patterns, gate::collected(a).len(), i);
    assert(gate::status(ms[i], cs[i]) == Status::Contaminated);
}

/// A comparison of runs that can all be trusted is not contaminated.
pub proof fn law_clean_runs_are_not_contaminated(
    a: Seq<Json>,
    b: Seq<Json>,
    patterns: Seq<Seq<char>>,
    cs: Seq<Comparison>,
)
    requires
        forall|id: Seq<char>| !#[trigger] spoiled(a, id) && !spoiled(b, id),
    ensures
        gate::verdict(gate::compared(a, b, patterns), cs) != "contaminated"@,
{
    let ms = gate::compared(a, b, patterns);
    gate::lemma_verdict_names();
    if gate::any(ms, cs, Status::Contaminated) {
        let i = choose|i: int|
            0 <= i < ms.len() && gate::status(#[trigger] ms[i], cs[i]) == Status::Contaminated;
        let m = ms[i];
        lemma_collected(a, m.id);
        lemma_collected(b, m.id);
        lemma_matched(
            gate::collected(a),
            gate::collected(b),
            patterns,
            gate::collected(a).len(),
            i,
        );
        assert(!spoiled(a, m.id));
    }
}

// ---------------------------------------------------------------------------
// Which metrics are compared
// ---------------------------------------------------------------------------

proof fn lemma_present(g: Seq<(Seq<char>, Track)>, id: Seq<char>) -> (i: int)
    requires
        json::lookup(g, id) is Some,
    ensures
        0 <= i < g.len(),
        g[i] == (id, json::lookup(g, id)->0),
    decreases g.len(),
{
    if g[0].0 == id {
        0
    } else {
        let i = lemma_present(g.skip(1), id);
        assert(g.skip(1)[i] == g[i + 1]);
        i + 1
    }
}

proof fn lemma_matches(
    a: Seq<(Seq<char>, Track)>,
    b: Seq<(Seq<char>, Track)>,
    patterns: Seq<Seq<char>>,
    n: nat,
    i: int,
) -> (k: int)
    requires
        n <= a.len(),
        0 <= i < n,
        a[i].1.samples.len() >= 2,
        json::lookup(b, a[i].0) matches Some(y) && y.samples.len() >= 2,
    ensures
        0 <= k < gate::matches_of(a, b, patterns, n).len(),
        gate::matches_of(a, b, patterns, n)[k].id == a[i].0,
    decreases n,
{
    let before = gate::matches_of(a, b, patterns, (n - 1) as nat);
    if i < n - 1 {
        lemma_matches(a, b, patterns, (n - 1) as nat, i)
    } else {
        before.len() as int
    }
}

proof fn lemma_matches_from(
    a: Seq<(Seq<char>, Track)>,
    b: Seq<(Seq<char>, Track)>,
    patterns: Seq<Seq<char>>,
    n: nat,
    k: int,
) -> (i: int)
    requires
        n <= a.len(),
        0 <= k < gate::matches_of(a, b, patterns, n).len(),
    ensures
        k <= i < n,
        gate::matches_of(a, b, patterns, n)[k].id == a[i].0,
        gate::matches_of(a, b, patterns, n)[k].polarity == a[i].1.polarity,
        gate::matches_of(a, b, patterns, n)[k].cells == a[i].1.cells,
        a[i].1.samples.len() >= 2,
        json::lookup(b, a[i].0) matches Some(y) && y.samples.len() >= 2,
        forall|l: int|
            k < l < gate::matches_of(a, b, patterns, n).len() ==> exists|j: int|
                i < j < n && (#[trigger] a[j]).0 == (#[trigger] gate::matches_of(a, b, patterns, n)[l]).id,
    decreases n,
{
    let before = gate::matches_of(a, b, patterns, (n - 1) as nat);
    let all = gate::matches_of(a, b, patterns, n);
    if k < before.len() {
        let i = lemma_matches_from(a, b, patterns, (n - 1) as nat, k);
        assert forall|l: int| k < l < all.len() implies exists|j: int|
            i < j < n && (#[trigger] a[j]).0 == (#[trigger] all[l]).id by {
            if l < before.len() {
                let j = choose|j: int| i < j < n - 1 && (#[trigger] a[j]).0 == before[l].id;
                assert(a[j].0 == all[l].id);
            } else {
                assert(a[n - 1].0 == all[l].id);
            }
        }
        i
    } else {
        lemma_matches_len(a, b, patterns, (n - 1) as nat);
        n - 1
    }
}

proof fn lemma_matches_len(
    a: Seq<(Seq<char>, Track)>,
    b: Seq<(Seq<char>, Track)>,
    patterns: Seq<Seq<char>>,
    n: nat,
)
    requires
        n <= a.len(),
    ensures
        gate::matches_of(a, b, patterns, n).len() <= n,
    decreases n,
{
    if n > 0 {
        lemma_matches_len(a, b, patterns, (n - 1) as nat);
    }
}

/// A metric is compared exactly where each group has at least two values of it.
pub proof fn law_compared_just_where_both_groups_have_two_values(
    a: Seq<Json>,
    b: Seq<Json>,
    patterns: Seq<Seq<char>>,
    id: Seq<char>,
)
    ensures
        (exists|i: int|
            0 <= i < gate::compared(a, b, patterns).len() && (#[trigger] gate::compared(
                a,
                b,
                patterns,
            )[i]).id == id) <==> values_of(a, id).len() >= 2 && values_of(b, id).len() >= 2,
{
    let x = gate::collected(a);
    let y = gate::collected(b);
    let ms = gate::compared(a, b, patterns);
    lemma_collected(a, id);
    lemma_collected(b, id);
    if values_of(a, id).len() >= 2 && values_of(b, id).len() >= 2 {
        let i = lemma_present(x, id);
        let k = lemma_matches(x, y, patterns, x.len(), i);
        assert(ms[k].id == id);
    }
    if exists|i: int| 0 <= i < ms.len() && (#[trigger] ms[i]).id == id {
        let i = choose|i: int| 0 <= i < ms.len() && (#[trigger] ms[i]).id == id;
        let j = lemma_matches_from(x, y, patterns, x.len(), i);
        lemma_found(x, j);
    }
}

/// A metric is compared once, and is ignored exactly where one of the patterns
/// stands in its id.
pub proof fn law_each_metric_is_compared_once(
    a: Seq<Json>,
    b: Seq<Json>,
    patterns: Seq<Seq<char>>,
    k: int,
)
    requires
        0 <= k < gate::compared(a, b, patterns).len(),
    ensures
        forall|l: int|
            k < l < gate::compared(a, b, patterns).len() ==> (#[trigger] gate::compared(
                a,
                b,
                patterns,
            )[l]).id != gate::compared(a, b, patterns)[k].id,
        gate::compared(a, b, patterns)[k].ignored <==> exists|i: int|
            0 <= i < patterns.len() && text::has_part(
                gate::compared(a, b, patterns)[k].id,
                #[trigger] patterns[i],
            ),
{
    let x = gate::collected(a);
    let y = gate::collected(b);
    let ms = gate::compared(a, b, patterns);
    lemma_collected(a, ms[k].id);
    lemma_matched(x, y, patterns, x.len(), k);
    let i = lemma_matches_from(x, y, patterns, x.len(), k);
    assert forall|l: int| k < l < ms.len() implies (#[trigger] ms[l]).id != ms[k].id by {
        let j = choose|j: int| i < j < x.len() && (#[trigger] x[j]).0 == ms[l].id;
        let ks = json::keys(x);
        assert(ks[i] == x[i].0 && ks[j] == x[j].0);
        assert(json::before(ks[i], ks[j]));
        json::lemma_before_irreflexive(ks[i]);
    }
}

/// Whether one of the first runs has a reading of a metric with a polarity.
spec fn directed_in(ms: Seq<Reading>, id: Seq<char>, p: Polarity) -> bool {
    exists|k: int| 0 <= k < ms.len() && (#[trigger] ms[k]).id == id && ms[k].polarity == p
}

/// Whether a run has a reading of a metric.
pub open spec fn reads(run: Json, id: Seq<char>) -> bool {
    exists|k: int|
        0 <= k < reduce::reduced(run).len() && (#[trigger] reduce::reduced(run)[k]).id == id
}

/// Whether a run of a cell has a reading of a metric.
pub open spec fn reads_in_cell(run: Json, id: Seq<char>, cell: Seq<char>) -> bool {
    gate::cell(run) == cell && reads(run, id)
}

/// Whether a run has a reading of a metric with a polarity.
pub open spec fn directed(run: Json, id: Seq<char>, p: Polarity) -> bool {
    exists|k: int|
        0 <= k < reduce::reduced(run).len() && (#[trigger] reduce::reduced(run)[k]).id == id
            && reduce::reduced(run)[k].polarity == p
}

spec fn cells_of(t: Option<Track>) -> Seq<Seq<char>> {
    match t {
        Some(x) => x.cells,
        None => Seq::empty(),
    }
}

spec fn reads_any(ms: Seq<Reading>, id: Seq<char>) -> bool {
    exists|k: int| 0 <= k < ms.len() && (#[trigger] ms[k]).id == id
}

proof fn lemma_absorbed_kind(
    g: Seq<(Seq<char>, Track)>,
    ms: Seq<Reading>,
    cell: Seq<char>,
    id: Seq<char>,
    c: Seq<char>,
)
    ensures
        ({
            let h = json::lookup(gate::absorbed(g, ms, cell), id);
            let was = json::lookup(g, id);
            &&& h is Some <==> was is Some || reads_any(ms, id)
            &&& was is Some ==> h->0.polarity == was->0.polarity
            &&& h is Some && was is None ==> directed_in(ms, id, h->0.polarity)
            &&& cells_of(h).contains(c) <==> cells_of(was).contains(c) || (c == cell && reads_any(
                ms,
                id,
            ))
        }),
    decreases ms.len(),
{
    if ms.len() > 0 {
        let less = ms.drop_last();
        let before = gate::absorbed(g, less, cell);
        let m = ms.last();
        lemma_absorbed_kind(g, less, cell, id, c);
        let t = gate::extended(json::lookup(before, m.id), m, cell);
        json::law_lookup_put(before, m.id, t, id);
        assert(ms[ms.len() - 1] == m);
        if reads_any(less, id) {
            let k = choose|k: int| 0 <= k < less.len() && (#[trigger] less[k]).id == id;
            assert(ms[k].id == id);
        }
        if reads_any(ms, id) {
            let k = choose|k: int| 0 <= k < ms.len() && (#[trigger] ms[k]).id == id;
            if k < less.len() {
                assert(less[k].id == id);
            }
        }
        let now = json::lookup(before, id);
        if now is Some && json::lookup(g, id) is None {
            let k = choose|k: int|
                0 <= k < less.len() && (#[trigger] less[k]).id == id && less[k].polarity
                    == now->0.polarity;
            assert(ms[k] == less[k]);
        }
        if m.id == id {
            let cs = cells_of(now);
            if !cs.contains(cell) {
                assert(cells_of(Some(t)) =~= cs.push(cell));
                assert(cs.push(cell)[cs.len() as int] == cell);
                if cs.contains(c) {
                    let k = cs.index_of(c);
                    assert(cs.push(cell)[k] == c);
                }
                if cs.push(cell).contains(c) && c != cell {
                    let k = cs.push(cell).index_of(c);
                    assert(cs[k] == c);
                }
            }
        }
    }
}

proof fn lemma_collected_kind(runs: Seq<Json>, id: Seq<char>, c: Seq<char>)
    ensures
        ({
            let h = json::lookup(gate::collected(runs), id);
            &&& h is Some ==> exists|r: int|
                0 <= r < runs.len() && #[trigger] directed(runs[r], id, h->0.polarity)
            &&& cells_of(h).contains(c) <==> exists|r: int|
                0 <= r < runs.len() && #[trigger] reads_in_cell(runs[r], id, c)
        }),
    decreases runs.len(),
{
    if runs.len() > 0 {
        let less = runs.drop_last();
        let last = runs.last();
        lemma_collected_kind(less, id, c);
        lemma_absorbed_kind(
            gate::collected(less),
            reduce::reduced(last),
            gate::cell(last),
            id,
            c,
        );
        let was = json::lookup(gate::collected(less), id);
        let h = json::lookup(gate::collected(runs), id);
        assert(runs[runs.len() - 1] == last);
        if was is Some {
            let r = choose|r: int|
                0 <= r < less.len() && #[trigger] directed(less[r], id, was->0.polarity);
            assert(directed(runs[r], id, h->0.polarity));
        } else if h is Some {
            assert(directed(last, id, h->0.polarity));
        }
        if exists|r: int| 0 <= r < less.len() && #[trigger] reads_in_cell(less[r], id, c) {
            let r = choose|r: int| 0 <= r < less.len() && #[trigger] reads_in_cell(less[r], id, c);
            assert(reads_in_cell(runs[r], id, c));
        }
        if c == gate::cell(last) && reads_any(reduce::reduced(last), id) {
            assert(reads_in_cell(runs[runs.len() - 1], id, c));
        }
        if exists|r: int| 0 <= r < runs.len() && #[trigger] reads_in_cell(runs[r], id, c) {
            let r = choose|r: int| 0 <= r < runs.len() && #[trigger] reads_in_cell(runs[r], id, c);
            if r < less.len() {
                assert(reads_in_cell(less[r], id, c));
            } else {
                assert(reads_any(reduce::reduced(last), id));
            }
        }
    }
}

/// The direction of a metric that is compared is one that a run of the first group
/// reads it with, and its cells are those whose runs in the first group read it.
pub proof fn law_metrics_keep_their_direction_and_cells(
    a: Seq<Json>,
    b: Seq<Json>,
    patterns: Seq<Seq<char>>,
    k: int,
    c: Seq<char>,
)
    requires
        0 <= k < gate::compared(a, b, patterns).len(),
    ensures
        ({
            let m = gate::compared(a, b, patterns)[k];
            &&& exists|r: int| 0 <= r < a.len() && #[trigger] directed(a[r], m.id, m.polarity)
            &&& m.cells.contains(c) <==> exists|r: int|
                0 <= r < a.len() && #[trigger] reads_in_cell(a[r], m.id, c)
        }),
{
    let x = gate::collected(a);
    let m = gate::compared(a, b, patterns)[k];
    lemma_collected(a, m.id);
    let i = lemma_matches_from(x, gate::collected(b), patterns, x.len(), k);
    lemma_found(x, i);
    lemma_collected_kind(a, m.id, c);
}

// ---------------------------------------------------------------------------
// What is not compared
// ---------------------------------------------------------------------------

proof fn lemma_recorded(runs: Seq<Json>, k: Seq<char>, i: int)
    requires
        0 <= i < runs.len(),
        gate::fingerprinted(runs[i], k) is Some,
    ensures
        json::lookup(gate::all_recorded(runs, k), gate::fingerprinted(runs[i], k)->0) is Some,
    decreases runs.len(),
{
    let v = gate::fingerprinted(runs[i], k)->0;
    let e = gate::all_recorded(runs.drop_last(), k);
    if i < runs.len() - 1 {
        assert(runs.drop_last()[i] == runs[i]);
        lemma_recorded(runs.drop_last(), k, i);
    }
    if let Some(t) = gate::fingerprinted(runs.last(), k) {
        json::law_lookup_put(e, t, (), v);
    }
}

proof fn lemma_two_recorded(runs: Seq<Json>, k: Seq<char>, i: int, j: int)
    requires
        0 <= i < runs.len(),
        0 <= j < runs.len(),
        gate::fingerprinted(runs[i], k) is Some,
        gate::fingerprinted(runs[j], k) is Some,
        gate::fingerprinted(runs[i], k) != gate::fingerprinted(runs[j], k),
    ensures
        gate::all_recorded(runs, k).len() > 1,
{
    lemma_recorded(runs, k, i);
    lemma_recorded(runs, k, j);
    reveal_with_fuel(json::lookup, 3);
}

/// Runs of two hosts are refused, whatever else is allowed: by an A/B comparison
/// and a triad, which need the groups to be valid, and by a drift test.
pub proof fn law_hosts_are_not_mixed(
    a: Seq<Json>,
    b: Seq<Json>,
    allow: bool,
    i: int,
    j: int,
)
    requires
        0 <= i < (a + b).len(),
        0 <= j < (a + b).len(),
        gate::fingerprinted((a + b)[i], "hostname"@) is Some,
        gate::fingerprinted((a + b)[j], "hostname"@) is Some,
        gate::fingerprinted((a + b)[i], "hostname"@) != gate::fingerprinted(
            (a + b)[j],
            "hostname"@,
        ),
    ensures
        gate::validated(a, b, allow) is Err,
        gate::hosts_refused(a + b) is Some,
{
    lemma_two_recorded(a + b, "hostname"@, i, j);
}

/// Runs of two tenancy classes are refused, whatever else is allowed.
pub proof fn law_tenancies_are_not_mixed(
    a: Seq<Json>,
    b: Seq<Json>,
    allow: bool,
    i: int,
    j: int,
)
    requires
        0 <= i < (a + b).len(),
        0 <= j < (a + b).len(),
        gate::fingerprinted((a + b)[i], "tenancy"@) is Some,
        gate::fingerprinted((a + b)[j], "tenancy"@) is Some,
        gate::fingerprinted((a + b)[i], "tenancy"@) != gate::fingerprinted((a + b)[j], "tenancy"@),
    ensures
        gate::validated(a, b, allow) is Err,
{
    lemma_two_recorded(a + b, "tenancy"@, i, j);
}

/// A run's grade is what its record says. A record that says none is valid where its
/// fingerprint has the kernel's version, the processor's model, the tenancy and the
/// governor, and invalid where one of them is missing.
pub proof fn law_unstated_grades(run: Json)
    ensures
        json::str_field(run, "grade"@) matches Some(g) ==> gate::grade(run) == g,
        json::str_field(run, "grade"@) is None ==> (gate::grade(run) == "valid"@ <==> !(json::member(
            json::member(run, "fingerprint"@),
            "kernel_version"@,
        ) is Null) && !(json::member(json::member(run, "fingerprint"@), "cpu_model"@) is Null)
            && !(json::member(json::member(run, "fingerprint"@), "tenancy"@) is Null)
            && !(json::member(json::member(run, "fingerprint"@), "cpu_governor"@) is Null)),
        json::str_field(run, "grade"@) is None ==> gate::grade(run) == "valid"@ || gate::grade(run)
            == "invalid"@,
{
    reveal_strlit("valid");
    reveal_strlit("invalid");
    assert("valid"@.len() == 5 && "invalid"@.len() == 7);
}

proof fn lemma_admitted(label: Seq<char>, runs: Seq<Json>, allow: bool)
    ensures
        gate::admitted(label, runs, allow) is Ok <==> allow || forall|i: int|
            0 <= i < runs.len() ==> gate::grade(#[trigger] runs[i]) == "reproducible"@,
    decreases runs.len(),
{
    if runs.len() > 0 {
        let less = runs.drop_last();
        lemma_admitted(label, less, allow);
        if !allow {
            if forall|i: int|
                0 <= i < less.len() ==> gate::grade(#[trigger] less[i]) == "reproducible"@ {
                if gate::grade(runs.last()) == "reproducible"@ {
                    assert forall|i: int| 0 <= i < runs.len() implies gate::grade(
                        #[trigger] runs[i],
                    ) == "reproducible"@ by {
                        if i < less.len() {
                            assert(less[i] == runs[i]);
                        }
                    }
                } else {
                    assert(runs[runs.len() - 1] == runs.last());
                }
            } else {
                let i = choose|i: int|
                    0 <= i < less.len() && gate::grade(#[trigger] less[i]) != "reproducible"@;
                assert(runs[i] == less[i]);
            }
        }
    }
}

proof fn lemma_one_recorded(runs: Seq<Json>, k: Seq<char>)
    requires
        forall|i: int, j: int|
            0 <= i < runs.len() && 0 <= j < runs.len() && gate::fingerprinted(
                #[trigger] runs[i],
                k,
            ) is Some && gate::fingerprinted(#[trigger] runs[j], k) is Some ==> gate::fingerprinted(
                runs[i],
                k,
            ) == gate::fingerprinted(runs[j], k),
    ensures
        gate::all_recorded(runs, k).len() <= 1,
        gate::all_recorded(runs, k).len() == 1 ==> exists|i: int|
            0 <= i < runs.len() && gate::fingerprinted(#[trigger] runs[i], k) == Some(
                gate::all_recorded(runs, k)[0].0,
            ),
    decreases runs.len(),
{
    if runs.len() > 0 {
        let less = runs.drop_last();
        assert forall|i: int, j: int|
            0 <= i < less.len() && 0 <= j < less.len() && gate::fingerprinted(
                #[trigger] less[i],
                k,
            ) is Some && gate::fingerprinted(#[trigger] less[j], k) is Some implies
            gate::fingerprinted(less[i], k) == gate::fingerprinted(less[j], k) by {
            assert(less[i] == runs[i] && less[j] == runs[j]);
        }
        lemma_one_recorded(less, k);
        let e = gate::all_recorded(less, k);
        let last = runs.len() - 1;
        assert(runs[last] == runs.last());
        if e.len() == 1 {
            let i = choose|i: int|
                0 <= i < less.len() && gate::fingerprinted(#[trigger] less[i], k) == Some(e[0].0);
            assert(runs[i] == less[i]);
            if let Some(t) = gate::fingerprinted(runs.last(), k) {
                assert(gate::fingerprinted(runs[i], k) == gate::fingerprinted(runs[last], k));
                assert(t == e[0].0);
                assert(e[0] == (t, ()));
                assert(json::put(e, t, ()).len() == 1 && json::put(e, t, ())[0] == (t, ()));
                assert(json::put(e, t, ()) =~= e);
            }
        } else if let Some(t) = gate::fingerprinted(runs.last(), k) {
            assert(json::put(e, t, ()) =~= seq![(t, ())]);
        }
    }
}

/// What a run's fingerprint says under a key, where it says a text.
pub open spec fn says(run: Json, k: Seq<char>) -> Option<Seq<char>> {
    json::str_of(json::member(json::member(run, "fingerprint"@), k))
}

/// Whether no two runs record different things under a key of their fingerprints.
pub open spec fn agree(runs: Seq<Json>, k: Seq<char>) -> bool {
    forall|i: int, j: int|
        0 <= i < runs.len() && 0 <= j < runs.len() && says(#[trigger] runs[i], k) is Some && says(
            #[trigger] runs[j],
            k,
        ) is Some ==> says(runs[i], k) == says(runs[j], k)
}

/// Two groups may be compared exactly where each run is reproducible, or lower grades
/// are allowed; and no two runs are of different tenancy classes or different hosts.
pub proof fn law_which_groups_may_be_compared(a: Seq<Json>, b: Seq<Json>, allow: bool)
    ensures
        gate::validated(a, b, allow) is Ok <==> (allow || forall|i: int|
            0 <= i < (a + b).len() ==> gate::grade(#[trigger] (a + b)[i]) == "reproducible"@) && agree(
            a + b,
            "tenancy"@,
        ) && agree(a + b, "hostname"@),
        gate::hosts_refused(a + b) is None <==> agree(a + b, "hostname"@),
{
    let all = a + b;
    lemma_admitted("A"@, a, allow);
    lemma_admitted("B"@, b, allow);
    if agree(all, "tenancy"@) {
        lemma_one_recorded(all, "tenancy"@);
    } else {
        let (i, j) = choose|i: int, j: int|
            0 <= i < all.len() && 0 <= j < all.len() && gate::fingerprinted(
                #[trigger] all[i],
                "tenancy"@,
            ) is Some && gate::fingerprinted(#[trigger] all[j], "tenancy"@) is Some
                && gate::fingerprinted(all[i], "tenancy"@) != gate::fingerprinted(
                all[j],
                "tenancy"@,
            );
        lemma_two_recorded(all, "tenancy"@, i, j);
    }
    if agree(all, "hostname"@) {
        lemma_one_recorded(all, "hostname"@);
    } else {
        let (i, j) = choose|i: int, j: int|
            0 <= i < all.len() && 0 <= j < all.len() && gate::fingerprinted(
                #[trigger] all[i],
                "hostname"@,
            ) is Some && gate::fingerprinted(#[trigger] all[j], "hostname"@) is Some
                && gate::fingerprinted(all[i], "hostname"@) != gate::fingerprinted(
                all[j],
                "hostname"@,
            );
        lemma_two_recorded(all, "hostname"@, i, j);
    }
    if forall|i: int| 0 <= i < all.len() ==> gate::grade(#[trigger] all[i]) == "reproducible"@ {
        assert forall|i: int| 0 <= i < a.len() implies gate::grade(#[trigger] a[i])
            == "reproducible"@ by {
            assert(all[i] == a[i]);
        }
        assert forall|i: int| 0 <= i < b.len() implies gate::grade(#[trigger] b[i])
            == "reproducible"@ by {
            assert(all[a.len() + i] == b[i]);
        }
    }
}

proof fn lemma_noted(label: Seq<char>, runs: Seq<Json>, i: int)
    requires
        0 <= i < runs.len(),
        gate::grade(runs[i]) != "reproducible"@,
    ensures
        gate::admitted(label, runs, true) is Ok,
        gate::admitted(label, runs, true)->Ok_0.contains(
            gate::admission_note(label, gate::grade(runs[i])),
        ),
    decreases runs.len(),
{
    let less = runs.drop_last();
    lemma_admitted(label, less, true);
    let note = gate::admission_note(label, gate::grade(runs[i]));
    let before = gate::admitted(label, less, true)->Ok_0;
    let all = gate::admitted(label, runs, true)->Ok_0;
    if i < less.len() {
        assert(less[i] == runs[i]);
        lemma_noted(label, less, i);
        let k = before.index_of(note);
        assert(all[k] == note);
    } else {
        assert(all[before.len() as int] == note);
    }
}

/// Where lower grades are allowed, each run that is not reproducible is noted with its
/// group and its grade.
pub proof fn law_lower_grades_are_noted(a: Seq<Json>, b: Seq<Json>, i: int)
    requires
        gate::validated(a, b, true) is Ok,
    ensures
        0 <= i < a.len() && gate::grade(a[i]) != "reproducible"@ ==> gate::validated(
            a,
            b,
            true,
        )->Ok_0.contains(
            "A"@ + " run admitted at grade '"@ + gate::grade(a[i]) + "' (--allow-ungraded)"@,
        ),
        0 <= i < b.len() && gate::grade(b[i]) != "reproducible"@ ==> gate::validated(
            a,
            b,
            true,
        )->Ok_0.contains(
            "B"@ + " run admitted at grade '"@ + gate::grade(b[i]) + "' (--allow-ungraded)"@,
        ),
{
    lemma_admitted("A"@, a, true);
    lemma_admitted("B"@, b, true);
    let x = gate::admitted("A"@, a, true)->Ok_0;
    let y = gate::admitted("B"@, b, true)->Ok_0;
    let all = gate::validated(a, b, true)->Ok_0;
    if 0 <= i < a.len() && gate::grade(a[i]) != "reproducible"@ {
        lemma_noted("A"@, a, i);
        let k = x.index_of(gate::admission_note("A"@, gate::grade(a[i])));
        assert(all[k] == x[k]);
    }
    if 0 <= i < b.len() && gate::grade(b[i]) != "reproducible"@ {
        lemma_noted("B"@, b, i);
        let k = y.index_of(gate::admission_note("B"@, gate::grade(b[i])));
        assert(all[x.len() + k] == y[k]);
    }
}

/// A drift test looks at every metric that is not ignored, and at no other.
pub proof fn law_drift_looks_at_what_is_not_ignored(ms: Seq<Match>, m: Match)
    ensures
        gate::heeded(ms).contains(m) <==> ms.contains(m) && !m.ignored,
    decreases ms.len(),
{
    if ms.len() > 0 {
        let less = ms.drop_last();
        law_drift_looks_at_what_is_not_ignored(less, m);
        let before = gate::heeded(less);
        let all = gate::heeded(ms);
        assert(ms[ms.len() - 1] == ms.last());
        if before.contains(m) {
            let k = before.index_of(m);
            assert(all[k] == m);
        }
        if m == ms.last() && !m.ignored {
            assert(all[before.len() as int] == m);
        }
        if all.contains(m) && !before.contains(m) {
            let k = all.index_of(m);
            assert(k == before.len());
        }
        if less.contains(m) {
            let k = less.index_of(m);
            assert(ms[k] == m);
        }
        if ms.contains(m) && m != ms.last() {
            let k = ms.index_of(m);
            assert(less[k] == m);
        }
    }
}

// ---------------------------------------------------------------------------
// The triad and the A/B comparison
// ---------------------------------------------------------------------------

/// Whether a judge answers the same of the same metric.
pub open spec fn steadfast<F: Fn(&Pair) -> Comparison>(judge: F) -> bool {
    forall|p: Pair, q: Pair, c: Comparison, d: Comparison|
        p@ == q@ && #[trigger] call_ensures(judge, (&p,), c) && #[trigger] call_ensures(
            judge,
            (&q,),
            d,
        ) ==> c == d
}

proof fn lemma_same_answers<F: Fn(&Pair) -> Comparison>(
    judge: F,
    ms: Seq<Match>,
    cs: Seq<Comparison>,
    ds: Seq<Comparison>,
)
    requires
        steadfast(judge),
        gate::answered(judge, ms, cs),
        gate::answered(judge, ms, ds),
    ensures
        cs == ds,
{
    assert forall|i: int| 0 <= i < cs.len() implies cs[i] == ds[i] by {
        assert(gate::answer(judge, ms[i], cs[i]));
        assert(gate::answer(judge, ms[i], ds[i]));
        let p = choose|p: Pair| p@ == ms[i] && #[trigger] call_ensures(judge, (&p,), cs[i]);
        let q = choose|q: Pair| q@ == ms[i] && #[trigger] call_ensures(judge, (&q,), ds[i]);
        assert(call_ensures(judge, (&p,), cs[i]) && call_ensures(judge, (&q,), ds[i]));
    }
    assert(cs =~= ds);
}

/// What a gate's document says of its metrics.
pub open spec fn metrics_in(doc: Json) -> Json {
    json::member(json::member(doc, "outcome"@), "per_metric"@)
}

/// What a triad's document says of the cost of the probes.
pub open spec fn overhead_in(doc: Json) -> Json {
    json::member(json::member(doc, "report"@), "overhead"@)
}

proof fn lemma_metrics(f: Finding, mode: Seq<char>, o: Option<Json>)
    ensures
        metrics_in(gate::document(f, mode, o)) == Json::Obj(f.per_metric),
{
    broadcast use json::law_lookup_put;

    reveal_strlit("outcome");
    reveal_strlit("report");
    reveal_strlit("per_metric");
    reveal_strlit("notes");
    assert("outcome"@[0] != "report"@[0]);
    assert("per_metric"@[0] != "notes"@[0]);
}

proof fn lemma_overhead(f: Finding, mode: Seq<char>, x: Json)
    ensures
        overhead_in(gate::document(f, mode, Some(x))) == x,
{
    broadcast use json::law_lookup_put;

}

/// Whether what a triad gives is what an A/B comparison gives, extended by what
/// the probes of the second group cost: it fails where that fails; its metrics are
/// the same; its outcome is that of the comparison, but that probes of the second
/// group over their budget fail what is not contaminated; and it says what those
/// cost. The probes of the first group do not count.
pub open spec fn extends<G: Fn(&json::Num, &json::Num) -> bool>(
    above: G,
    y: Seq<Json>,
    base: Result<Json, Seq<char>>,
    r: Result<Json, Seq<char>>,
) -> bool {
    let over = gate::over(gate::cost_records(y));
    match (base, r) {
        (Err(e), Err(f)) => e == f,
        (Ok(d), Ok(x)) => {
            let v = gate::verdict_in(d);
            &&& metrics_in(x) == metrics_in(d)
            &&& gate::verdict_in(x) == (if v == "contaminated"@ {
                v
            } else if over.len() > 0 {
                "fail"@
            } else {
                v
            })
            &&& exists|ws: Seq<Json>|
                {
                    &&& #[trigger] gate::worst_answered(
                        above,
                        gate::costs(gate::cost_records(y)),
                        ws,
                    )
                    &&& overhead_in(x) == gate::overhead(
                        gate::worst_costs(
                            gate::costs(gate::cost_records(y)),
                            ws,
                            gate::costs(gate::cost_records(y)).len(),
                        ),
                        over,
                    )
                }
        },
        _ => false,
    }
}

proof fn lemma_extends<G: Fn(&json::Num, &json::Num) -> bool>(
    above: G,
    y: Seq<Json>,
    f: Finding,
    ws: Seq<Json>,
)
    requires
        gate::worst_answered(above, gate::costs(gate::cost_records(y)), ws),
    ensures
        extends(
            above,
            y,
            Ok(gate::document(f, "ab_permutation"@, None)),
            Ok(gate::weighed(f, y, ws)),
        ),
{
    let e = gate::costs(gate::cost_records(y));
    let over = gate::over(gate::cost_records(y));
    let o = gate::overhead(gate::worst_costs(e, ws, e.len()), over);
    gate::law_exit_code_carries_the_verdict(f, "ab_permutation"@, None);
    gate::law_exit_code_carries_the_verdict(gate::folded(f, over), "subsystem_triad"@, Some(o));
    lemma_metrics(f, "ab_permutation"@, None);
    lemma_metrics(gate::folded(f, over), "subsystem_triad"@, Some(o));
    lemma_overhead(gate::folded(f, over), "subsystem_triad"@, o);
    assert(gate::worst_answered(above, e, ws));
}

/// What a triad gives extends what the A/B comparison of the same groups by the same
/// judge gives, the judge answering as it did.
pub proof fn law_triad_extends_a_comparison<
    F: Fn(&Pair) -> Comparison,
    G: Fn(&json::Num, &json::Num) -> bool,
>(judge: F, above: G, x: Seq<Json>, y: Seq<Json>, cfg: Config, r: Result<Json, Seq<char>>)
    requires
        gate::triad_gave(judge, above, x, y, cfg, r),
    ensures
        exists|base: Result<Json, Seq<char>>| #[trigger]
            gate::ab_gave(judge, x, y, cfg, base) && extends(above, y, base, r),
{
    match gate::not_compared(x, y, cfg) {
        Some(e) => {
            assert(gate::ab_gave(judge, x, y, cfg, Err(e)));
        },
        None => {
            let ms = gate::compared(x, y, crate::text::texts(cfg.ignore@));
            let e = gate::costs(gate::cost_records(y));
            let (cs, ws) = choose|cs: Seq<Comparison>, ws: Seq<Json>|
                {
                    &&& #[trigger] gate::answered(judge, ms, cs)
                    &&& #[trigger] gate::worst_answered(above, e, ws)
                    &&& r == Ok::<Json, Seq<char>>(gate::weighed(gate::found(x, y, cfg, cs), y, ws))
                };
            let f = gate::found(x, y, cfg, cs);
            lemma_extends(above, y, f, ws);
            assert(gate::answered(judge, ms, cs));
            assert(gate::ab_gave(
                judge,
                x,
                y,
                cfg,
                Ok(gate::document(f, "ab_permutation"@, None)),
            ));
        },
    }
}

/// Of a judge that answers the same of the same metric, what a triad gives extends
/// whatever the A/B comparison of the same groups gives.
pub proof fn law_triad_extends_the_comparison<
    F: Fn(&Pair) -> Comparison,
    G: Fn(&json::Num, &json::Num) -> bool,
>(
    judge: F,
    above: G,
    x: Seq<Json>,
    y: Seq<Json>,
    cfg: Config,
    base: Result<Json, Seq<char>>,
    r: Result<Json, Seq<char>>,
)
    requires
        steadfast(judge),
        gate::ab_gave(judge, x, y, cfg, base),
        gate::triad_gave(judge, above, x, y, cfg, r),
    ensures
        extends(above, y, base, r),
{
    if gate::not_compared(x, y, cfg) is None {
        let ms = gate::compared(x, y, crate::text::texts(cfg.ignore@));
        let e = gate::costs(gate::cost_records(y));
        let cs = choose|cs: Seq<Comparison>| #[trigger]
            gate::answered(judge, ms, cs) && base == Ok::<Json, Seq<char>>(
                gate::document(gate::found(x, y, cfg, cs), "ab_permutation"@, None),
            );
        let (ds, ws) = choose|ds: Seq<Comparison>, ws: Seq<Json>|
            {
                &&& #[trigger] gate::answered(judge, ms, ds)
                &&& #[trigger] gate::worst_answered(above, e, ws)
                &&& r == Ok::<Json, Seq<char>>(gate::weighed(gate::found(x, y, cfg, ds), y, ws))
            };
        lemma_same_answers(judge, ms, cs, ds);
        lemma_extends(above, y, gate::found(x, y, cfg, cs), ws);
    }
}

/// Where `above` orders numbers by a rank, the worst cost of a probe is the largest
/// of its fractions, and at least zero.
pub proof fn law_worst_is_the_largest<G: Fn(&json::Num, &json::Num) -> bool>(
    above: G,
    rank: spec_fn(Json) -> int,
    fs: Seq<Json>,
    w: Json,
)
    requires
        forall|p: json::Num, q: json::Num, b: bool| #[trigger]
            call_ensures(above, (&p, &q), b) ==> b == (rank(p@) > rank(q@)),
        gate::worst_answer(above, fs, w),
    ensures
        exists|x: Json|
            {
                &&& w == #[trigger] otlp::double(x)
                &&& x == gate::no_cost() || fs.contains(x)
                &&& rank(x) >= rank(gate::no_cost())
                &&& forall|i: int| 0 <= i < fs.len() ==> rank(#[trigger] fs[i]) <= rank(x)
            },
{
    let bs = choose|bs: Seq<bool>| #[trigger]
        gate::above_answered(above, fs, bs) && w == otlp::double(
            gate::largest(fs, bs, fs.len()),
        );
    lemma_largest_holds(above, rank, fs, bs, fs.len());
    assert(w == otlp::double(gate::largest(fs, bs, fs.len())));
}

proof fn lemma_largest_holds<G: Fn(&json::Num, &json::Num) -> bool>(
    above: G,
    rank: spec_fn(Json) -> int,
    fs: Seq<Json>,
    bs: Seq<bool>,
    n: nat,
)
    requires
        forall|p: json::Num, q: json::Num, b: bool| #[trigger]
            call_ensures(above, (&p, &q), b) ==> b == (rank(p@) > rank(q@)),
        gate::above_answered(above, fs, bs),
        n <= fs.len(),
    ensures
        ({
            let x = gate::largest(fs, bs, n);
            &&& x == gate::no_cost() || fs.contains(x)
            &&& rank(x) >= rank(gate::no_cost())
            &&& forall|i: int| 0 <= i < n ==> rank(#[trigger] fs[i]) <= rank(x)
        }),
    decreases n,
{
    if n > 0 {
        lemma_largest_holds(above, rank, fs, bs, (n - 1) as nat);
        let b = bs[n - 1];
        assert(gate::above_answer(
            above,
            fs[n - 1],
            gate::largest(fs, bs, (n - 1) as nat),
            b,
        ));
    }
}

/// The probe of a record.
pub open spec fn probe(record: Json) -> Seq<char> {
    reduce::text_or_empty(record, "probe_id"@)
}

/// Whether one of the records shows a probe over its budget.
pub open spec fn overspent(records: Seq<Json>, id: Seq<char>) -> bool {
    exists|i: int|
        0 <= i < records.len() && probe(#[trigger] records[i]) == id && reduce::flag(
            records[i],
            "over_budget"@,
        )
}

/// The probes over their budget are listed once each, and no others; more
/// records add to the end of the list, so that it is in the order in which they
/// were first seen.
pub proof fn law_overspent_probes_are_listed_once(records: Seq<Json>, more: Seq<Json>, id: Seq<char>)
    ensures
        gate::over(records).no_duplicates(),
        gate::over(records).contains(id) <==> overspent(records, id),
        gate::over(records).len() > 0 <==> exists|i: int|
            0 <= i < records.len() && reduce::flag(#[trigger] records[i], "over_budget"@),
        gate::over(records).is_prefix_of(gate::over(records + more)),
    decreases records.len(), more.len(),
{
    if more.len() > 0 {
        law_overspent_probes_are_listed_once(records, more.drop_last(), id);
        assert((records + more).drop_last() =~= records + more.drop_last());
    } else {
        assert(records + more =~= records);
    }
    if records.len() > 0 {
        let d = records.drop_last();
        let was = gate::over(d);
        let now = gate::over(records);
        let last = probe(records.last());
        law_overspent_probes_are_listed_once(d, Seq::empty(), id);
        assert forall|i: int| 0 <= i < d.len() implies #[trigger] records[i] == d[i] by {}
        if was.len() > 0 {
            let i = choose|i: int|
                0 <= i < d.len() && reduce::flag(#[trigger] d[i], "over_budget"@);
            assert(reduce::flag(records[i], "over_budget"@));
        }
        if overspent(d, id) {
            let i = choose|i: int|
                0 <= i < d.len() && probe(#[trigger] d[i]) == id && reduce::flag(
                    d[i],
                    "over_budget"@,
                );
            assert(records[i] == d[i]);
        }
        if overspent(records, id) {
            let i = choose|i: int|
                0 <= i < records.len() && probe(#[trigger] records[i]) == id && reduce::flag(
                    records[i],
                    "over_budget"@,
                );
            if i < d.len() {
                assert(d[i] == records[i]);
            }
        }
        if reduce::flag(records.last(), "over_budget"@) {
            assert(records[records.len() - 1] == records.last());
            assert(overspent(records, last));
            if !was.contains(last) {
                assert(now == was.push(last));
                assert(now[now.len() - 1] == last);
            }
        }
        assert(forall|i: int| 0 <= i < was.len() ==> now[i] == was[i]);
        if was.contains(id) {
            let i = choose|i: int| 0 <= i < was.len() && was[i] == id;
            assert(now[i] == id);
        }
    }
}

/// The fractions that the records show of a probe, in order.
pub open spec fn fractions(records: Seq<Json>, id: Seq<char>) -> Seq<Json>
    decreases records.len(),
{
    if records.len() == 0 {
        Seq::empty()
    } else if probe(records.last()) == id {
        fractions(records.drop_last(), id).push(
            reduce::number_or_zero(records.last(), "steady_cpu_fraction"@),
        )
    } else {
        fractions(records.drop_last(), id)
    }
}

/// What a probe cost is judged by all the fractions that the records show of it,
/// in order.
pub proof fn law_costs_are_the_fractions(records: Seq<Json>, id: Seq<char>)
    ensures
        json::lookup(gate::costs(records), id) == (if fractions(records, id).len() > 0 {
            Some(fractions(records, id))
        } else {
            None
        }),
    decreases records.len(),
{
    broadcast use json::law_lookup_put;

    if records.len() > 0 {
        law_costs_are_the_fractions(records.drop_last(), id);
        law_costs_are_the_fractions(records.drop_last(), probe(records.last()));
        let f = reduce::number_or_zero(records.last(), "steady_cpu_fraction"@);
        assert(Seq::<Json>::empty().push(f) =~= seq![f]);
        if fractions(records.drop_last(), id).len() == 0 {
            assert(fractions(records.drop_last(), id) =~= Seq::empty());
        }
    }
}

} // verus!
