//! Which cells a definition has, which runs are made of them, and what the record of
//! a run holds.
use crate::adapter::{Target, Workload};
use crate::contract::{self, Grade, Host, Identified, Piece, Record};
use crate::def::{self, BenchmarkDef, Cell};
use crate::drive::{Artifacts, Scene};
use crate::job;
use crate::json::{self, Json};
use crate::netattrib::Wire;
use crate::pipeline::{self, Side, Work};
use crate::run::{self, AdapterVersions};
use crate::text;
use vstd::prelude::*;

verus! {

broadcast use json::law_lookup_put;

// ---------------------------------------------------------------------------
// The matrix
// ---------------------------------------------------------------------------

/// Whether the parameters of a definition have different names.
pub open spec fn named_apart(axes: Seq<(Seq<char>, Seq<Json>)>) -> bool {
    forall|i: int, j: int| 0 <= i < j < axes.len() ==> (#[trigger] axes[i]).0 != (#[trigger] axes[j]).0
}

proof fn lemma_spread_from(
    sets: Seq<Seq<(Seq<char>, Json)>>,
    k: Seq<char>,
    values: Seq<Json>,
    n: nat,
    i: int,
) -> (at: (int, int))
    requires
        n <= sets.len(),
        0 <= i < def::spread(sets, k, values, n).len(),
    ensures
        0 <= at.0 < n,
        0 <= at.1 < values.len(),
        def::spread(sets, k, values, n)[i] == json::put(sets[at.0], k, values[at.1]),
    decreases n,
{
    let before = def::spread(sets, k, values, (n - 1) as nat);
    if i < before.len() {
        lemma_spread_from(sets, k, values, (n - 1) as nat, i)
    } else {
        (n - 1, i - before.len())
    }
}

proof fn lemma_spread_has(
    sets: Seq<Seq<(Seq<char>, Json)>>,
    k: Seq<char>,
    values: Seq<Json>,
    n: nat,
    s: int,
    v: int,
) -> (i: int)
    requires
        n <= sets.len(),
        0 <= s < n,
        0 <= v < values.len(),
    ensures
        0 <= i < def::spread(sets, k, values, n).len(),
        def::spread(sets, k, values, n)[i] == json::put(sets[s], k, values[v]),
    decreases n,
{
    let before = def::spread(sets, k, values, (n - 1) as nat);
    if s < n - 1 {
        lemma_spread_has(sets, k, values, (n - 1) as nat, s, v)
    } else {
        before.len() + v
    }
}

/// Each set of parameters has, for each parameter, one of the values that were
/// declared for it.
pub proof fn law_cells_take_declared_values(
    axes: Seq<(Seq<char>, Seq<Json>)>,
    n: nat,
    i: int,
    j: int,
)
    requires
        named_apart(axes),
        0 <= j < n <= axes.len(),
        0 <= i < def::combinations(axes, n).len(),
    ensures
        json::lookup(def::combinations(axes, n)[i], axes[j].0) matches Some(v)
            && axes[j].1.contains(v),
    decreases n,
{
    let before = def::combinations(axes, (n - 1) as nat);
    let at = lemma_spread_from(before, axes[n - 1].0, axes[n - 1].1, before.len(), i);
    if j < n - 1 {
        law_cells_take_declared_values(axes, (n - 1) as nat, at.0, j);
    }
}

/// Whether a set of parameters has, for each of the first `n`, the value that was
/// picked.
pub open spec fn chosen(
    e: Seq<(Seq<char>, Json)>,
    axes: Seq<(Seq<char>, Seq<Json>)>,
    n: nat,
    picks: Seq<int>,
) -> bool {
    forall|j: int| 0 <= j < n ==> json::lookup(e, axes[j].0) == Some(axes[j].1[#[trigger] picks[j]])
}

/// Whatever value is picked for each parameter, there is a cell with just those.
pub proof fn law_every_choice_is_a_cell(
    axes: Seq<(Seq<char>, Seq<Json>)>,
    n: nat,
    picks: Seq<int>,
) -> (i: int)
    requires
        named_apart(axes),
        n <= axes.len(),
        n <= picks.len(),
        forall|j: int| 0 <= j < n ==> 0 <= #[trigger] picks[j] < axes[j].1.len(),
    ensures
        0 <= i < def::combinations(axes, n).len(),
        chosen(def::combinations(axes, n)[i], axes, n, picks),
    decreases n,
{
    if n == 0 {
        0
    } else {
        let m = (n - 1) as nat;
        let before = def::combinations(axes, m);
        let s = law_every_choice_is_a_cell(axes, m, picks);
        let i = lemma_spread_has(before, axes[n - 1].0, axes[n - 1].1, before.len(), s, picks[n - 1]);
        let e = def::combinations(axes, n)[i];
        assert forall|j: int| 0 <= j < n implies json::lookup(e, axes[j].0) == Some(
            axes[j].1[#[trigger] picks[j]],
        ) by {
            if j < n - 1 {
                assert(axes[j].0 != axes[n - 1].0);
            }
        }
        i
    }
}

// ---------------------------------------------------------------------------
// Groups
// ---------------------------------------------------------------------------

proof fn lemma_members(cells: Seq<Cell>, dim: Seq<char>, v: Json, n: nat, i: int)
    requires
        n <= cells.len() <= usize::MAX,
        0 <= i < n,
    ensures
        pipeline::cells_with(cells, dim, v, n).contains(i as usize) <==> (json::field(
            cells[i].params@,
            dim,
        ) matches Some(x) && json::alike(x, v)),
    decreases n,
{
    lemma_ascending(cells, dim, v, (n - 1) as nat);
    let before = pipeline::cells_with(cells, dim, v, (n - 1) as nat);
    let all = pipeline::cells_with(cells, dim, v, n);
    if i < n - 1 {
        lemma_members(cells, dim, v, (n - 1) as nat, i);
        if before.contains(i as usize) {
            let k = before.index_of(i as usize);
            assert(all[k] == i as usize);
        }
        if all.contains(i as usize) {
            let k = all.index_of(i as usize);
            assert(k < before.len());
            assert(before[k] == i as usize);
        }
    } else {
        if json::field(cells[i].params@, dim) matches Some(x) && json::alike(x, v) {
            assert(all[before.len() as int] == i as usize);
        } else if all.contains(i as usize) {
            let k = all.index_of(i as usize);
            assert(before[k] == i as usize);
        }
    }
}

proof fn lemma_ascending(cells: Seq<Cell>, dim: Seq<char>, v: Json, n: nat)
    requires
        n <= cells.len() <= usize::MAX,
    ensures
        forall|k: int|
            0 <= k < pipeline::cells_with(cells, dim, v, n).len()
                ==> #[trigger] pipeline::cells_with(cells, dim, v, n)[k] < n,
        forall|k: int, l: int|
            0 <= k < l < pipeline::cells_with(cells, dim, v, n).len()
                ==> #[trigger] pipeline::cells_with(cells, dim, v, n)[k]
                < #[trigger] pipeline::cells_with(cells, dim, v, n)[l],
    decreases n,
{
    if n > 0 {
        lemma_ascending(cells, dim, v, (n - 1) as nat);
        let before = pipeline::cells_with(cells, dim, v, (n - 1) as nat);
        let all = pipeline::cells_with(cells, dim, v, n);
        assert(forall|k: int| 0 <= k < before.len() ==> #[trigger] all[k] == before[k]);
        assert forall|k: int| 0 <= k < all.len() implies #[trigger] all[k] < n by {
            if k < before.len() {
                assert(before[k] < n - 1);
            }
        }
        assert forall|k: int, l: int| 0 <= k < l < all.len() implies #[trigger] all[k]
            < #[trigger] all[l] by {
            assert(before[k] < n - 1);
            if l < before.len() {
                assert(before[k] < before[l]);
            }
        }
    }
}

/// A cell is in the group of a value exactly where its parameter has that value.
pub proof fn law_a_group_has_the_cells_of_its_value(
    cells: Seq<Cell>,
    dim: Seq<char>,
    v: Json,
)
    requires
        cells.len() <= usize::MAX,
    ensures
        forall|i: int|
            0 <= i < cells.len() ==> (pipeline::cells_with(cells, dim, v, cells.len()).contains(
                i as usize,
            ) <==> (json::field((#[trigger] cells[i]).params@, dim) matches Some(x) && json::alike(
                x,
                v,
            ))),
{
    assert forall|i: int| 0 <= i < cells.len() implies (pipeline::cells_with(
        cells,
        dim,
        v,
        cells.len(),
    ).contains(i as usize) <==> (json::field((#[trigger] cells[i]).params@, dim) matches Some(x)
        && json::alike(x, v))) by {
        lemma_members(cells, dim, v, cells.len(), i);
    }
}

/// The cells of a group are cells of the definition, each once and in their order.
pub proof fn law_a_group_has_each_cell_once(cells: Seq<Cell>, dim: Seq<char>, v: Json, k: int, l: int)
    requires
        cells.len() <= usize::MAX,
        0 <= k < l < pipeline::cells_with(cells, dim, v, cells.len()).len(),
    ensures
        pipeline::cells_with(cells, dim, v, cells.len())[k] < pipeline::cells_with(
            cells,
            dim,
            v,
            cells.len(),
        )[l] < cells.len(),
{
    lemma_ascending(cells, dim, v, cells.len());
}

/// The first group is that of the first value of the parameter that is compared, and
/// the second that of the second. The first is labelled `a` and runs the first build,
/// the second `b` and the second build.
pub proof fn law_groups_are_the_two_values(
    d: BenchmarkDef,
    cells: Seq<Cell>,
    a_sut: Seq<char>,
    b_sut: Seq<char>,
    dim: Seq<char>,
    values: Seq<Json>,
    i: int,
)
    requires
        cells.len() <= usize::MAX,
        text::opt_text(d.compare) == Some(dim),
        json::lookup(d.parameterise@, dim) == Some(values),
        values.len() >= 2,
        0 <= i < cells.len(),
    ensures
        ({
            let gs = pipeline::grouped(d, cells, a_sut, b_sut);
            &&& gs.len() == 2
            &&& gs[0].label == "a"@ && gs[0].sut == a_sut
            &&& gs[1].label == "b"@ && gs[1].sut == b_sut
            &&& gs[0].cells.contains(i as usize) <==> (json::field(cells[i].params@, dim) matches Some(
                x,
            ) && json::alike(x, values[0]))
            &&& gs[1].cells.contains(i as usize) <==> (json::field(cells[i].params@, dim) matches Some(
                x,
            ) && json::alike(x, values[1]))
        }),
{
    lemma_members(cells, dim, values[0], cells.len(), i);
    lemma_members(cells, dim, values[1], cells.len(), i);
}

/// Where no parameter is compared, both groups run every cell.
pub proof fn law_both_groups_run_every_cell(
    d: BenchmarkDef,
    cells: Seq<Cell>,
    a_sut: Seq<char>,
    b_sut: Seq<char>,
)
    requires
        cells.len() <= usize::MAX,
        d.compare is None,
    ensures
        ({
            let gs = pipeline::grouped(d, cells, a_sut, b_sut);
            &&& gs.len() == 2
            &&& gs[0].label == "a"@ && gs[0].sut == a_sut
            &&& gs[1].label == "b"@ && gs[1].sut == b_sut
            &&& gs[0].cells.len() == cells.len()
            &&& gs[1].cells.len() == cells.len()
            &&& forall|i: int|
                0 <= i < cells.len() ==> #[trigger] gs[0].cells[i] == i && #[trigger] gs[1].cells[i] == i
        }),
{
}

proof fn lemma_axis(axes: Seq<(Seq<char>, Seq<Json>)>, k: Seq<char>) -> (j: int)
    requires
        json::lookup(axes, k) is Some,
    ensures
        0 <= j < axes.len(),
        axes[j] == (k, json::lookup(axes, k)->0),
    decreases axes.len(),
{
    if axes[0].0 == k {
        0
    } else {
        let j = lemma_axis(axes.skip(1), k);
        assert(axes.skip(1)[j] == axes[j + 1]);
        j + 1
    }
}

/// In an accepted definition that compares two different values of a parameter,
/// every cell is in one of the two groups, and in one only.
pub proof fn law_every_cell_is_in_one_group(
    d: BenchmarkDef,
    cells: Seq<Cell>,
    a_sut: Seq<char>,
    b_sut: Seq<char>,
    i: int,
)
    requires
        def::problems(d).len() == 0,
        named_apart(d.parameterise@),
        d.compare is Some,
        def::is_cells(d, cells),
        cells.len() <= usize::MAX,
        !json::alike(
            json::lookup(d.parameterise@, d.compare->0@)->0[0],
            json::lookup(d.parameterise@, d.compare->0@)->0[1],
        ),
        0 <= i < cells.len(),
    ensures
        ({
            let gs = pipeline::grouped(d, cells, a_sut, b_sut);
            gs[0].cells.contains(i as usize) != gs[1].cells.contains(i as usize)
        }),
{
    let dim = d.compare->0@;
    let axes = d.parameterise@;
    def::law_compared_axis_has_two_values(d);
    let values = json::lookup(axes, dim)->0;
    let j = lemma_axis(axes, dim);
    law_cells_take_declared_values(axes, axes.len(), i, j);
    law_groups_are_the_two_values(d, cells, a_sut, b_sut, dim, values, i);
    pipeline::law_groups_do_not_mix(cells, dim, values[0], values[1], i as usize);
    let x = json::field(cells[i].params@, dim)->0;
    let k = values.index_of(x);
    assert(x == values[0] || x == values[1]);
    json::law_alike_reflexive(x);
}

// ---------------------------------------------------------------------------
// Runs
// ---------------------------------------------------------------------------

/// Each cell of each group is run `repeat` times, in the build of its group.
pub proof fn law_every_cell_is_run_repeatedly(
    gs: Seq<Side>,
    repeat: u32,
    g: int,
    ci: int,
    k: int,
) -> (at: int)
    requires
        0 <= g < gs.len(),
        0 <= ci < gs[g].cells.len(),
        0 <= k < repeat,
    ensures
        0 <= at < pipeline::all_works(gs, repeat).len(),
        pipeline::all_works(gs, repeat)[at] == (Work {
            label: gs[g].label,
            sut: gs[g].sut,
            cell: gs[g].cells[ci],
            ci,
            repeat: k,
        }),
    decreases gs.len(),
{
    let before = pipeline::all_works(gs.drop_last(), repeat);
    if g < gs.len() - 1 {
        law_every_cell_is_run_repeatedly(gs.drop_last(), repeat, g, ci, k)
    } else {
        let n = gs[g].cells.len() as int;
        let r = repeat as int;
        let at = ci * r + k;
        vstd::arithmetic::div_mod::lemma_fundamental_div_mod_converse(at, r, ci, k);
        assert(0 <= at < n * r) by (nonlinear_arith)
            requires
                0 <= ci < n,
                0 <= k < r,
                at == ci * r + k,
        ;
        before.len() + at
    }
}

/// Nothing else is run: a run is of a cell of a group, with the group's label and
/// build, and one of its repeats.
pub proof fn law_only_cells_of_groups_are_run(gs: Seq<Side>, repeat: u32, at: int) -> (g: int)
    requires
        repeat > 0,
        0 <= at < pipeline::all_works(gs, repeat).len(),
    ensures
        0 <= g < gs.len(),
        ({
            let w = pipeline::all_works(gs, repeat)[at];
            &&& w.label == gs[g].label
            &&& w.sut == gs[g].sut
            &&& 0 <= w.ci < gs[g].cells.len()
            &&& w.cell == gs[g].cells[w.ci]
            &&& 0 <= w.repeat < repeat
        }),
    decreases gs.len(),
{
    let before = pipeline::all_works(gs.drop_last(), repeat);
    if at < before.len() {
        law_only_cells_of_groups_are_run(gs.drop_last(), repeat, at)
    } else {
        let k = at - before.len();
        let n = gs.last().cells.len() as int;
        let r = repeat as int;
        vstd::arithmetic::div_mod::lemma_fundamental_div_mod(k, r);
        vstd::arithmetic::div_mod::lemma_mod_bound(k, r);
        vstd::arithmetic::div_mod::lemma_div_pos_is_pos(k, r);
        let q = k / r;
        assert(q < n) by (nonlinear_arith)
            requires
                k == r * q + k % r,
                0 <= k % r,
                k < n * r,
                0 < r,
        ;
        gs.len() - 1
    }
}

// ---------------------------------------------------------------------------
// Records
// ---------------------------------------------------------------------------

/// Where the workload's report is not null, the record of the run holds it; where it
/// is null, the record holds none.
pub proof fn law_reports_are_recorded(
    run_id: Seq<char>,
    identity: Identified,
    h: Host,
    context: Json,
    a: Artifacts,
)
    ensures
        ({
            let r = pipeline::recorded(run_id, identity, h, context, a);
            &&& a.workload_report is Null ==> r.workload_report is None
            &&& !(a.workload_report is Null) ==> r.workload_report == Some(a.workload_report)
        }),
{
}

proof fn lemma_merged(fs: Seq<Piece>, i: int, k: int) -> (at: (int, int))
    requires
        0 <= i < fs.len(),
    ensures
        0 <= k < fs[i].series.len() ==> 0 <= at.0 < contract::merged_series(fs).len()
            && contract::merged_series(fs)[at.0] == fs[i].series[k],
        0 <= k < fs[i].self_metrics.len() ==> 0 <= at.1 < contract::merged_costs(fs).len()
            && contract::merged_costs(fs)[at.1] == fs[i].self_metrics[k],
    decreases fs.len(),
{
    if i < fs.len() - 1 {
        lemma_merged(fs.drop_last(), i, k)
    } else {
        (
            contract::merged_series(fs.drop_last()).len() + k,
            contract::merged_costs(fs.drop_last()).len() + k,
        )
    }
}

proof fn lemma_merged_from(fs: Seq<Piece>, at: int)
    ensures
        0 <= at < contract::merged_series(fs).len() ==> exists|i: int|
            0 <= i < fs.len() && (#[trigger] fs[i]).series.contains(contract::merged_series(fs)[at]),
        0 <= at < contract::merged_costs(fs).len() ==> exists|i: int|
            0 <= i < fs.len() && (#[trigger] fs[i]).self_metrics.contains(
                contract::merged_costs(fs)[at],
            ),
    decreases fs.len(),
{
    if fs.len() > 0 {
        let less = fs.drop_last();
        lemma_merged_from(less, at);
        let s = contract::merged_series(less);
        let c = contract::merged_costs(less);
        if 0 <= at < s.len() {
            let i = choose|i: int| 0 <= i < less.len() && (#[trigger] less[i]).series.contains(s[at]);
            assert(fs[i] == less[i]);
        } else if s.len() <= at < contract::merged_series(fs).len() {
            assert(fs[fs.len() - 1].series[at - s.len()] == contract::merged_series(fs)[at]);
        }
        if 0 <= at < c.len() {
            let i = choose|i: int|
                0 <= i < less.len() && (#[trigger] less[i]).self_metrics.contains(c[at]);
            assert(fs[i] == less[i]);
        } else if c.len() <= at < contract::merged_costs(fs).len() {
            assert(fs[fs.len() - 1].self_metrics[at - c.len()] == contract::merged_costs(fs)[at]);
        }
    }
}

/// The record of a run holds its id, its identity, its host, its context and its
/// spans; and every series and every cost record of its fragments, and no others. It
/// has no outcome yet.
pub proof fn law_records_hold_what_the_run_produced(
    run_id: Seq<char>,
    identity: Identified,
    h: Host,
    context: Json,
    a: Artifacts,
)
    ensures
        ({
            let r = pipeline::recorded(run_id, identity, h, context, a);
            &&& r.run_id == run_id
            &&& r.identity == identity
            &&& r.fingerprint == h
            &&& r.gate == context
            &&& r.spans == a.spans
            &&& r.outcome is None
            &&& forall|i: int, k: int|
                0 <= i < a.fragments.len() && 0 <= k < a.fragments[i].series.len()
                    ==> r.series.contains(#[trigger] a.fragments[i].series[k])
            &&& forall|i: int, k: int|
                0 <= i < a.fragments.len() && 0 <= k < a.fragments[i].self_metrics.len()
                    ==> r.self_metrics.contains(#[trigger] a.fragments[i].self_metrics[k])
            &&& forall|at: int|
                0 <= at < r.series.len() ==> exists|i: int|
                    0 <= i < a.fragments.len() && (#[trigger] a.fragments[i]).series.contains(
                        #[trigger] r.series[at],
                    )
            &&& forall|at: int|
                0 <= at < r.self_metrics.len() ==> exists|i: int|
                    0 <= i < a.fragments.len() && (#[trigger] a.fragments[i]).self_metrics.contains(
                        #[trigger] r.self_metrics[at],
                    )
        }),
{
    let r = pipeline::recorded(run_id, identity, h, context, a);
    let fs = a.fragments;
    assert forall|i: int, k: int| 0 <= i < fs.len() && 0 <= k < fs[i].series.len() implies
        r.series.contains(#[trigger] fs[i].series[k]) by {
        let at = lemma_merged(fs, i, k);
        assert(r.series[at.0] == fs[i].series[k]);
    }
    assert forall|i: int, k: int| 0 <= i < fs.len() && 0 <= k < fs[i].self_metrics.len() implies
        r.self_metrics.contains(#[trigger] fs[i].self_metrics[k]) by {
        let at = lemma_merged(fs, i, k);
        assert(r.self_metrics[at.1] == fs[i].self_metrics[k]);
    }
    assert forall|at: int| 0 <= at < r.series.len() implies exists|i: int|
        0 <= i < fs.len() && (#[trigger] fs[i]).series.contains(#[trigger] r.series[at]) by {
        lemma_merged_from(fs, at);
    }
    assert forall|at: int| 0 <= at < r.self_metrics.len() implies exists|i: int|
        0 <= i < fs.len() && (#[trigger] fs[i]).self_metrics.contains(
            #[trigger] r.self_metrics[at],
        ) by {
        lemma_merged_from(fs, at);
    }
}

/// A captured run is invalid exactly where the tuning that was read back is not what was
/// asked for. It is reproducible exactly where it is, the host's topology, pinning,
/// mitigations, microcode and nesting are known, and its fragments have a cost record
/// wherever one of them has series or capture metadata.
pub proof fn law_captured_runs_are_graded(
    run_id: Seq<char>,
    identity: Identified,
    h: Host,
    context: Json,
    a: Artifacts,
)
    requires
        identity.source == "captured"@,
    ensures
        ({
            let r = pipeline::recorded(run_id, identity, h, context, a);
            &&& r.grade == Grade::Invalid <==> !json::alike(h.tuning_requested, h.tuning_readback)
            &&& r.grade == Grade::Reproducible <==> {
                &&& json::alike(h.tuning_requested, h.tuning_readback)
                &&& h.numa_topology is Some && h.pinning_layout is Some && h.mitigations is Some
                &&& h.microcode_version is Some && h.nested_virt is Some
                &&& r.self_metrics.len() > 0 || forall|i: int|
                    0 <= i < a.fragments.len() ==> (#[trigger] a.fragments[i]).series.len() == 0
                        && a.fragments[i].capture_meta is None
            }
        }),
{
    reveal_strlit("captured");
    reveal_strlit("imported");
    assert("captured"@[0] == 'c' && "imported"@[0] == 'i');
}

/// The record that is made of a run is that of its cell, its build and its definition;
/// it holds the host as it was seen after the run, what the run produced, and the
/// workload's report where there is one.
pub proof fn law_records_are_of_their_run<T: Target, W: Workload, C: Wire, H>(
    r: Record,
    end: Scene<T, W, C, H>,
    last: Scene<T, W, C, H>,
    process: u32,
    d: BenchmarkDef,
    cell: Cell,
    sha: Seq<char>,
    sut: Seq<char>,
    h: Host,
    a: Artifacts,
)
    requires
        job::record_of(r, end, last, process, d, cell, sha, sut, h, a),
    ensures
        a.workload_report is Null ==> r.workload_report is None,
        !(a.workload_report is Null) ==> r.workload_report == Some(a.workload_report),
        r.spans == a.spans,
        r.identity.params == cell.params@,
        r.identity.params_hash == cell.params_hash@,
        r.identity.sut_git_sha == sut,
        r.identity.benchmark_def_sha == sha,
        r.identity.target_adapter == d.target.adapter@,
        r.identity.workload_driver == d.workload.driver@,
        (Host { pinning_layout: h.pinning_layout, ..r.fingerprint }) == h,
        json::str_field(r.gate, "mode"@) == Some(d.gate.mode@),
        json::str_field(r.gate, "tenancy"@) == Some(d.tenancy@),
        r.outcome is None,
{
    law_context_is_of_the_definition(d, Seq::empty());
}

/// A run is known by the adapter and the driver that its definition names, the build
/// that it was of, and the parameters of its cell; and it is a captured one.
pub proof fn law_identity_is_of_the_cell(
    d: BenchmarkDef,
    cell: Cell,
    sha: Seq<char>,
    sut: Seq<char>,
    v: AdapterVersions,
)
    ensures
        ({
            let id = pipeline::identity_of(d, cell, sha, sut, v);
            &&& id.target_adapter == d.target.adapter@
            &&& id.target_adapter_version == v.target@
            &&& id.workload_driver == d.workload.driver@
            &&& id.workload_driver_version == v.workload@
            &&& id.sut_git_sha == sut
            &&& id.params == cell.params@
            &&& id.params_hash == cell.params_hash@
            &&& id.benchmark_def_sha == sha
            &&& id.source == "captured"@
        }),
{
}

/// A layout that threads were pinned to is recorded with the host, and nothing else
/// of the host changes; without one the host is recorded as it is.
pub proof fn law_layouts_are_recorded(h: Host, layout: Option<Json>)
    ensures
        layout is None ==> pipeline::pinned(h, layout) == h,
        layout is Some ==> pipeline::pinned(h, layout).pinning_layout == layout,
        (contract::Host { pinning_layout: h.pinning_layout, ..pipeline::pinned(h, layout) }) == h,
{
}

/// A run's context says how it is to be compared: the mode, the metrics to ignore and
/// the tenancy of the definition, and the run it is compared to.
pub proof fn law_context_is_of_the_definition(d: BenchmarkDef, baseline: Seq<char>)
    ensures
        ({
            let c = run::gate_context(d, baseline);
            &&& json::str_field(c, "mode"@) == Some(d.gate.mode@)
            &&& json::str_field(c, "baseline_ref"@) == Some(baseline)
            &&& json::str_field(c, "tenancy"@) == Some(d.tenancy@)
            &&& json::member(c, "ignore"@) == json::strs(text::texts(d.gate.ignore@))
        }),
{
    reveal_strlit("mode");
    reveal_strlit("baseline_ref");
    reveal_strlit("p_threshold");
    reveal_strlit("noise_threshold");
    reveal_strlit("resamples");
    reveal_strlit("ignore");
    reveal_strlit("tenancy");
    assert("mode"@[0] == 'm' && "baseline_ref"@[0] == 'b' && "p_threshold"@[0] == 'p');
    assert("noise_threshold"@[0] == 'n' && "resamples"@[0] == 'r' && "ignore"@[0] == 'i');
    assert("tenancy"@[0] == 't');
}

} // verus!
