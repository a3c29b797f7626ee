//! The A/B pipeline: which runs are made, of what, and under which names.
use crate::adapter;
use crate::contract::{self, AssayRun, Fingerprint, Identified, Record};
use crate::def::{self, BenchmarkDef, Cell};
use crate::drive::{Artifacts, RunArtifacts};
use crate::hostprep::HostPrep;
use crate::json::{self, Doc, Json, Object};
use crate::run::{self, AdapterVersions};
use crate::table::{self, Table};
use crate::text;
use vstd::prelude::*;

verus! {

// ---------------------------------------------------------------------------
// Adapters
// ---------------------------------------------------------------------------

/// Which target adapter a name selects. A name that is no native adapter's
/// selects the command adapter.
#[derive(Clone, Copy, Debug, PartialEq, Eq, Structural)]
pub enum TargetKind {
    Firecracker,
    Qemu,
    Command,
}

pub open spec fn target_kind_of(adapter: Seq<char>) -> TargetKind {
    if adapter == "firecracker"@ {
        TargetKind::Firecracker
    } else if adapter == "qemu"@ {
        TargetKind::Qemu
    } else {
        TargetKind::Command
    }
}

/// Pick a target adapter by name.
pub fn select_target(adapter: &str) -> (r: TargetKind)
    ensures
        r == target_kind_of(adapter@),
{
    if text::same(adapter, "firecracker") {
        TargetKind::Firecracker
    } else if text::same(adapter, "qemu") {
        TargetKind::Qemu
    } else {
        TargetKind::Command
    }
}

/// Which workload driver a name selects.
#[derive(Clone, Copy, Debug, PartialEq, Eq, Structural)]
pub enum WorkloadKind {
    Fio,
    Wrk,
    Vsock,
    Command,
}

pub open spec fn workload_kind_of(driver: Seq<char>) -> WorkloadKind {
    if driver == "fio"@ || text::has_prefix(driver, "fio-"@) {
        WorkloadKind::Fio
    } else if driver == "wrk"@ || text::has_prefix(driver, "wrk"@) {
        WorkloadKind::Wrk
    } else if driver == "vsock"@ {
        WorkloadKind::Vsock
    } else {
        WorkloadKind::Command
    }
}

/// Pick a workload driver by name.
pub fn select_workload(driver: &str) -> (r: WorkloadKind)
    ensures
        r == workload_kind_of(driver@),
{
    if text::same(driver, "fio") || text::starts_with(driver, "fio-") {
        WorkloadKind::Fio
    } else if text::same(driver, "wrk") || text::starts_with(driver, "wrk") {
        WorkloadKind::Wrk
    } else if text::same(driver, "vsock") {
        WorkloadKind::Vsock
    } else {
        WorkloadKind::Command
    }
}

// ---------------------------------------------------------------------------
// Instances
// ---------------------------------------------------------------------------

/// A number that a variable gives, or else a setting: at least one.
pub open spec fn count_of(
    config: Seq<(Seq<char>, Json)>,
    vars: Seq<(Seq<char>, Seq<char>)>,
    key: Seq<char>,
) -> u32 {
    let said = match json::lookup(vars, key) {
        Some(s) => Some(s),
        None => match json::lookup(config, key) {
            Some(Json::Str(s)) => Some(s),
            Some(other) => Some(json::text_of(other)),
            None => None,
        },
    };
    match said {
        Some(s) => match text::unsigned(s, u32::MAX as nat) {
            Some(n) => if n == 0 {
                1
            } else {
                n as u32
            },
            None => 1,
        },
        None => 1,
    }
}

fn count(config: &Object, vars: &Table<String>, key: &str) -> (r: u32)
    ensures
        r == count_of(config@, vars@, key@),
{
    let said = match vars.get(key) {
        Some(s) => Some(s.clone()),
        None => match config.get(key) {
            Some(Doc::String(s)) => Some(s.clone()),
            Some(other) => Some(other.to_text()),
            None => None,
        },
    };
    match said {
        Some(s) => match text::parse_unsigned(&s, 0xffff_ffff) {
            Some(n) => if n == 0 {
                1
            } else {
                n as u32
            },
            None => 1,
        },
        None => 1,
    }
}

/// How many instances are brought up at a time.
pub fn instances_of(def: &BenchmarkDef, vars: &Table<String>) -> (r: u32)
    ensures
        r == count_of(def.target.config@, vars@, "instances"@),
{
    count(&def.target.config, vars, "instances")
}

/// The variables of one instance among several: its number and, where threads
/// are pinned, the first processor that is its own.
pub open spec fn instance_vars(
    vars: Seq<(Seq<char>, Seq<char>)>,
    i: u32,
    vcpu: u32,
    pin_threads: bool,
) -> Seq<(Seq<char>, Seq<char>)> {
    let v = json::put(vars, "instance"@, text::decimal(i as nat));
    if pin_threads {
        json::put(
            v,
            "cpu_base"@,
            text::decimal(vstd::wrapping::u32_specs::wrapping_mul(i, vcpu) as nat),
        )
    } else {
        v
    }
}

/// The variables of every instance: one alone has those of the cell.
pub open spec fn all_vars(
    config: Seq<(Seq<char>, Json)>,
    vars: Seq<(Seq<char>, Seq<char>)>,
    pin_threads: bool,
) -> Seq<Seq<(Seq<char>, Seq<char>)>> {
    let n = count_of(config, vars, "instances"@);
    let vcpu = count_of(config, vars, "vcpu"@);
    if n <= 1 {
        seq![vars]
    } else {
        Seq::new(n as nat, |i: int| instance_vars(vars, i as u32, vcpu, pin_threads))
    }
}

pub open spec fn table_views(s: Seq<Table<String>>) -> Seq<Seq<(Seq<char>, Seq<char>)>> {
    s.map_values(|t: Table<String>| t@)
}

/// The variables of every instance of a definition's target.
pub fn build_target(def: &BenchmarkDef, vars: &Table<String>, pin_threads: bool) -> (r: Vec<
    Table<String>,
>)
    ensures
        table_views(r@) == all_vars(def.target.config@, vars@, pin_threads),
{
    let n: u32 = instances_of(def, vars);
    let mut out: Vec<Table<String>> = Vec::new();
    let ghost all = all_vars(def.target.config@, vars@, pin_threads);
    if n <= 1 {
        out.push(table::copy_texts(vars));
        assert(table_views(out@) =~= all);
        return out;
    }
    let vcpu: u32 = count(&def.target.config, vars, "vcpu");
    let mut i: u32 = 0;
    while i < n
        invariant
            i <= n,
            all.len() == n,
            all == Seq::new(
                n as nat,
                |k: int| instance_vars(vars@, k as u32, vcpu, pin_threads),
            ),
            table_views(out@) =~= all.take(i as int),
        decreases n - i,
    {
        let ghost was = out@;
        let mut v = table::copy_texts(vars).with("instance", text::dec(i as u64));
        if pin_threads {
            v = v.with("cpu_base", text::dec(i.wrapping_mul(vcpu) as u64));
        }
        out.push(v);
        assert(v@ == instance_vars(vars@, i, vcpu, pin_threads));
        assert(table_views(out@) =~= table_views(was).push(all[i as int]));
        i += 1;
    }
    assert(all.take(i as int) =~= all);
    out
}

/// Concurrent instances whose processors all have numbers are pinned apart: a
/// later one starts where an earlier one's processors end, or after.
pub proof fn law_pinned_instances_are_disjoint(i: u32, j: u32, vcpu: u32)
    requires
        i < j,
        (j + 1) * vcpu <= u32::MAX,
    ensures
        vstd::wrapping::u32_specs::wrapping_mul(i, vcpu) + vcpu
            <= vstd::wrapping::u32_specs::wrapping_mul(j, vcpu),
{
    assert(i * vcpu + vcpu <= j * vcpu) by (nonlinear_arith)
        requires
            i + 1 <= j,
            vcpu >= 0,
    ;
    assert(j * vcpu <= (j + 1) * vcpu) by (nonlinear_arith)
        requires
            vcpu >= 0,
    ;
    assert(0 <= i * vcpu) by (nonlinear_arith);
}

// ---------------------------------------------------------------------------
// Groups
// ---------------------------------------------------------------------------

/// A group of runs: its label, the build under test, and the cells it runs, by
/// their place among all cells.
#[derive(Debug)]
pub struct Group {
    pub label: String,
    pub sut: String,
    pub cells: Vec<usize>,
}

/// A `Group` as a mathematical value.
pub struct Side {
    pub label: Seq<char>,
    pub sut: Seq<char>,
    pub cells: Seq<usize>,
}

impl View for Group {
    type V = Side;

    open spec fn view(&self) -> Side {
        Side { label: self.label@, sut: self.sut@, cells: self.cells@ }
    }
}

pub open spec fn sides(s: Seq<Group>) -> Seq<Side> {
    s.map_values(|g: Group| g@)
}

/// Whether a cell has a value for a parameter.
pub open spec fn has_value(c: Cell, dim: Seq<char>, v: Json) -> bool {
    json::field(c.params@, dim) matches Some(x) && json::alike(x, v)
}

/// Which of the first `n` cells have a value for a parameter.
pub open spec fn cells_with(cells: Seq<Cell>, dim: Seq<char>, v: Json, n: nat) -> Seq<usize>
    decreases n,
{
    if n == 0 {
        Seq::empty()
    } else {
        let before = cells_with(cells, dim, v, (n - 1) as nat);
        if has_value(cells[n - 1], dim, v) {
            before.push((n - 1) as usize)
        } else {
            before
        }
    }
}

/// The two groups of a definition. Where it compares a parameter they are its two
/// values; otherwise both run every cell and differ by the build under test.
pub open spec fn grouped(
    d: BenchmarkDef,
    cells: Seq<Cell>,
    a_sut: Seq<char>,
    b_sut: Seq<char>,
) -> Seq<Side> {
    let (a, b) = match d.compare {
        Some(dim) => {
            let values = json::lookup(d.parameterise@, dim@)->0;
            (
                cells_with(cells, dim@, values[0], cells.len()),
                cells_with(cells, dim@, values[1], cells.len()),
            )
        },
        None => {
            let all = Seq::new(cells.len(), |i: int| i as usize);
            (all, all)
        },
    };
    seq![
        Side { label: "a"@, sut: a_sut, cells: a },
        Side { label: "b"@, sut: b_sut, cells: b },
    ]
}

fn pick(cells: &Vec<Cell>, dim: &str, v: &Doc) -> (r: Vec<usize>)
    ensures
        r@ == cells_with(cells@, dim@, v@, cells@.len()),
{
    let mut out: Vec<usize> = Vec::new();
    let mut i: usize = 0;
    while i < cells.len()
        invariant
            i <= cells@.len(),
            out@ == cells_with(cells@, dim@, v@, i as nat),
        decreases cells@.len() - i,
    {
        if let Some(x) = cells[i].params.get(dim) {
            if x.same(v) {
                out.push(i);
            }
        }
        i += 1;
    }
    out
}

fn every(n: usize) -> (r: Vec<usize>)
    ensures
        r@ == Seq::new(n as nat, |i: int| i as usize),
{
    let mut out: Vec<usize> = Vec::new();
    let mut i: usize = 0;
    while i < n
        invariant
            i <= n,
            out@ =~= Seq::new(i as nat, |k: int| k as usize),
        decreases n - i,
    {
        out.push(i);
        i += 1;
    }
    out
}

/// The two groups of a definition.
pub fn groups(def: &BenchmarkDef, cells: &Vec<Cell>, a_sut: &str, b_sut: &str) -> (r: Vec<Group>)
    requires
        def.compare matches Some(dim) ==> (json::lookup(def.parameterise@, dim@) matches Some(
            values,
        ) && values.len() >= 2),
    ensures
        sides(r@) == grouped(*def, cells@, a_sut@, b_sut@),
{
    let (a, b) = match &def.compare {
        Some(dim) => match def.parameterise.get(dim) {
            Some(axis) => {
                assert(axis@.len() == axis.values@.len());
                assert(axis@[0] == axis.values@[0]@);
                assert(axis@[1] == axis.values@[1]@);
                (pick(cells, dim, &axis.values[0]), pick(cells, dim, &axis.values[1]))
            },
            None => (Vec::new(), Vec::new()),
        },
        None => (every(cells.len()), every(cells.len())),
    };
    let mut out: Vec<Group> = Vec::new();
    out.push(Group { label: "a".to_owned(), sut: a_sut.to_owned(), cells: a });
    out.push(Group { label: "b".to_owned(), sut: b_sut.to_owned(), cells: b });
    assert(sides(out@) =~= grouped(*def, cells@, a_sut@, b_sut@));
    out
}

/// No cell is in both groups of a comparison over two different values.
pub proof fn law_groups_do_not_mix(cells: Seq<Cell>, dim: Seq<char>, v: Json, w: Json, i: usize)
    requires
        cells.len() <= usize::MAX,
        !json::alike(v, w),
    ensures
        !(cells_with(cells, dim, v, cells.len()).contains(i) && cells_with(
            cells,
            dim,
            w,
            cells.len(),
        ).contains(i)),
{
    if cells_with(cells, dim, v, cells.len()).contains(i) && cells_with(
        cells,
        dim,
        w,
        cells.len(),
    ).contains(i) {
        lemma_cells_with(cells, dim, v, cells.len(), i);
        lemma_cells_with(cells, dim, w, cells.len(), i);
        let x = json::field(cells[i as int].params@, dim)->0;
        json::law_alike_euclidean(x, v, w);
    }
}

proof fn lemma_cells_with(cells: Seq<Cell>, dim: Seq<char>, v: Json, n: nat, i: usize)
    requires
        n <= cells.len() <= usize::MAX,
        cells_with(cells, dim, v, n).contains(i),
    ensures
        i < n,
        has_value(cells[i as int], dim, v),
    decreases n,
{
    if n > 0 {
        let before = cells_with(cells, dim, v, (n - 1) as nat);
        let all = cells_with(cells, dim, v, n);
        let k = choose|k: int| 0 <= k < all.len() && all[k] == i;
        if k < before.len() {
            assert(before[k] == i);
            lemma_cells_with(cells, dim, v, (n - 1) as nat, i);
        }
    }
}

// ---------------------------------------------------------------------------
// Runs
// ---------------------------------------------------------------------------

/// One run to make: of which group, with which build, of which cell, the `ci`th
/// of its group, and which repeat.
#[derive(Debug)]
pub struct Job {
    pub label: String,
    pub sut: String,
    pub cell: usize,
    pub ci: usize,
    pub repeat: u32,
}

/// A `Job` as a mathematical value.
pub struct Work {
    pub label: Seq<char>,
    pub sut: Seq<char>,
    pub cell: usize,
    pub ci: int,
    pub repeat: int,
}

impl View for Job {
    type V = Work;

    open spec fn view(&self) -> Work {
        Work {
            label: self.label@,
            sut: self.sut@,
            cell: self.cell,
            ci: self.ci as int,
            repeat: self.repeat as int,
        }
    }
}

pub open spec fn works(s: Seq<Job>) -> Seq<Work> {
    s.map_values(|j: Job| j@)
}

/// The first `n` runs of a group: each cell, over and over.
pub open spec fn side_works(g: Side, repeat: u32, n: nat) -> Seq<Work> {
    Seq::new(
        n,
        |k: int|
            Work {
                label: g.label,
                sut: g.sut,
                cell: g.cells[k / repeat as int],
                ci: k / repeat as int,
                repeat: k % repeat as int,
            },
    )
}

/// The runs of groups, one group after another.
pub open spec fn all_works(gs: Seq<Side>, repeat: u32) -> Seq<Work>
    decreases gs.len(),
{
    if gs.len() == 0 {
        Seq::empty()
    } else {
        all_works(gs.drop_last(), repeat) + side_works(
            gs.last(),
            repeat,
            (gs.last().cells.len() * repeat) as nat,
        )
    }
}

proof fn lemma_place(ci: int, i: int, repeat: int)
    requires
        0 <= ci,
        0 <= i < repeat,
    ensures
        (ci * repeat + i) / repeat == ci,
        (ci * repeat + i) % repeat == i,
        0 <= ci * repeat + i,
{
    vstd::arithmetic::div_mod::lemma_fundamental_div_mod_converse(ci * repeat + i, repeat, ci, i);
    assert(0 <= ci * repeat) by (nonlinear_arith)
        requires
            0 <= ci,
            0 < repeat,
    ;
}

fn push_group(out: &mut Vec<Job>, g: &Group, repeat: u32)
    requires
        repeat > 0,
    ensures
        works(final(out)@) == works(old(out)@) + side_works(
            g@,
            repeat,
            (g.cells@.len() * repeat) as nat,
        ),
{
    let ghost start = works(out@);
    let mut ci: usize = 0;
    assert(start + side_works(g@, repeat, 0) =~= start);
    assert(0 * repeat == 0) by (nonlinear_arith);
    while ci < g.cells.len()
        invariant
            ci <= g.cells@.len(),
            repeat > 0,
            works(out@) == start + side_works(g@, repeat, (ci * repeat) as nat),
        decreases g.cells@.len() - ci,
    {
        let mut i: u32 = 0;
        assert(0 <= ci * repeat) by (nonlinear_arith);
        while i < repeat
            invariant
                ci < g.cells@.len(),
                i <= repeat,
                repeat > 0,
                0 <= ci * repeat,
                works(out@) == start + side_works(g@, repeat, (ci * repeat + i) as nat),
            decreases repeat - i,
        {
            let ghost was = works(out@);
            let job = Job {
                label: g.label.clone(),
                sut: g.sut.clone(),
                cell: g.cells[ci],
                ci,
                repeat: i,
            };
            out.push(job);
            proof {
                lemma_place(ci as int, i as int, repeat as int);
                assert(works(out@) =~= was.push(job@));
                let n = (ci * repeat + i) as nat;
                assert(side_works(g@, repeat, n + 1) =~= side_works(g@, repeat, n).push(job@));
                assert(works(out@) =~= start + side_works(g@, repeat, n + 1));
            }
            i += 1;
        }
        assert((ci + 1) * repeat == ci * repeat + repeat) by (nonlinear_arith);
        ci += 1;
    }
}

/// The runs to make, in the order in which they are made.
pub fn jobs(gs: &Vec<Group>, repeat: u32) -> (r: Vec<Job>)
    requires
        repeat > 0,
    ensures
        works(r@) == all_works(sides(gs@), repeat),
{
    let ghost all = sides(gs@);
    let mut out: Vec<Job> = Vec::new();
    let mut i: usize = 0;
    assert(works(out@) =~= Seq::empty());
    assert(all.take(0) =~= Seq::empty());
    while i < gs.len()
        invariant
            i <= gs@.len(),
            repeat > 0,
            all == sides(gs@),
            works(out@) == all_works(all.take(i as int), repeat),
        decreases gs@.len() - i,
    {
        assert(all.take(i + 1).drop_last() =~= all.take(i as int));
        assert(all[i as int] == gs@[i as int]@);
        push_group(&mut out, &gs[i], repeat);
        i += 1;
    }
    assert(all.take(i as int) =~= all);
    out
}

/// Where a run's record is written, below the output directory.
pub open spec fn record_name(label: Seq<char>, ci: nat, repeat: nat) -> Seq<char> {
    label + "_"@ + text::decimal(ci) + "_"@ + text::decimal(repeat) + ".json"@
}

/// Where a run's fragments are written, below the output directory.
pub open spec fn fragment_dir(label: Seq<char>, ci: nat, repeat: nat) -> Seq<char> {
    "frags/"@ + label + "-"@ + text::decimal(ci) + "-"@ + text::decimal(repeat)
}

/// Runs of groups with labels of one character are written to different files.
pub proof fn law_records_do_not_overwrite(
    l: Seq<char>,
    c: nat,
    r: nat,
    m: Seq<char>,
    d: nat,
    q: nat,
)
    requires
        l.len() == 1,
        m.len() == 1,
        record_name(l, c, r) == record_name(m, d, q),
    ensures
        l == m,
        c == d,
        r == q,
{
    let x = record_name(l, c, r);
    let y = record_name(m, d, q);
    reveal_strlit("_");
    reveal_strlit(".json");
    text::lemma_decimal(c);
    text::lemma_decimal(d);
    text::lemma_decimal(r);
    text::lemma_decimal(q);
    let a = text::decimal(c);
    let b = text::decimal(d);
    let n = a.len() as int;
    let k = b.len() as int;
    assert(x[0] == l[0] && y[0] == m[0]);
    assert(l =~= m);
    assert(x[2 + n] == '_');
    assert(y[2 + k] == '_');
    if n < k {
        assert(y[2 + n] == b[n]);
        assert(text::is_digit(b[n]));
    } else if k < n {
        assert(x[2 + k] == a[k]);
        assert(text::is_digit(a[k]));
    }
    assert(a =~= x.subrange(2, 2 + n));
    assert(b =~= y.subrange(2, 2 + k));
    let e = text::decimal(r);
    let f = text::decimal(q);
    assert(x.len() == 8 + n + e.len());
    assert(y.len() == 8 + k + f.len());
    assert(e =~= x.subrange(3 + n, 3 + n + e.len()));
    assert(f =~= y.subrange(3 + k, 3 + k + f.len()));
}

impl Job {
    /// Where the run's record is written, below the output directory.
    pub fn record_file(&self) -> (r: String)
        ensures
            r@ == record_name(self.label@, self.ci as nat, self.repeat as nat),
    {
        let mut s = text::join2(&self.label, "_");
        s.append(&text::dec(self.ci as u64));
        s.append("_");
        s.append(&text::dec(self.repeat as u64));
        s.append(".json");
        s
    }

    /// Where the run's fragments are written, below the output directory.
    pub fn work_dir(&self) -> (r: String)
        ensures
            r@ == fragment_dir(self.label@, self.ci as nat, self.repeat as nat),
    {
        let mut s = text::join2("frags/", &self.label);
        s.append("-");
        s.append(&text::dec(self.ci as u64));
        s.append("-");
        s.append(&text::dec(self.repeat as u64));
        s
    }
}

/// The variables of a run: those of its cell, and the directory of the
/// definition where it is known.
pub open spec fn run_vars(params: Json, sut: Seq<char>, def_dir: Seq<char>) -> Seq<
    (Seq<char>, Seq<char>),
> {
    let v = adapter::cell_vars(params, sut);
    if def_dir.len() > 0 {
        json::put(v, "def_dir"@, def_dir)
    } else {
        v
    }
}

/// The variables of a run.
pub fn vars_for(params: &Doc, sut: &str, def_dir: &str) -> (r: Table<String>)
    ensures
        r@ == run_vars(params@, sut@, def_dir@),
{
    let v = adapter::vars(params, sut);
    if def_dir.is_empty() {
        v
    } else {
        v.with("def_dir", def_dir.to_owned())
    }
}

// ---------------------------------------------------------------------------
// Records
// ---------------------------------------------------------------------------

/// A fingerprint with the layout that a run pinned its threads to, where it did.
pub open spec fn pinned(h: contract::Host, layout: Option<Json>) -> contract::Host {
    match layout {
        Some(_) => contract::Host { pinning_layout: layout, ..h },
        None => h,
    }
}

/// The identity of a run of a cell.
pub open spec fn identity_of(
    d: BenchmarkDef,
    cell: Cell,
    sha: Seq<char>,
    sut: Seq<char>,
    v: AdapterVersions,
) -> Identified {
    Identified {
        target_adapter: d.target.adapter@,
        target_adapter_version: v.target@,
        workload_driver: d.workload.driver@,
        workload_driver_version: v.workload@,
        sut_git_sha: sut,
        params: cell.params@,
        params_hash: cell.params_hash@,
        benchmark_def_sha: sha,
        source: "captured"@,
    }
}

/// The record of a run: assembled from what it produced, with the workload's
/// report where there is one.
pub open spec fn recorded(
    run_id: Seq<char>,
    identity: Identified,
    fingerprint: contract::Host,
    gate: Json,
    a: Artifacts,
) -> Record {
    let r = contract::assembled(run_id, identity, fingerprint, gate, a.fragments, a.spans);
    if a.workload_report is Null {
        r
    } else {
        Record { workload_report: Some(a.workload_report), ..r }
    }
}

/// Make the record of a run.
pub fn record_run(
    run_id: String,
    def: &BenchmarkDef,
    cell: &Cell,
    sha: &str,
    sut: &str,
    versions: &AdapterVersions,
    fingerprint: Fingerprint,
    layout: Option<Doc>,
    art: RunArtifacts,
) -> (r: AssayRun)
    ensures
        r@ == recorded(
            run_id@,
            identity_of(*def, *cell, sha@, sut@, *versions),
            pinned(fingerprint@, json::opt_json(layout)),
            run::gate_context(*def, Seq::empty()),
            art@,
        ),
{
    let identity = run::build_identity(
        def,
        cell.params.clone(),
        cell.params_hash.clone(),
        sha,
        sut,
        versions,
    );
    let gate = run::build_gate_context(def, "");
    proof {
        reveal_strlit("");
        assert(""@ =~= Seq::<char>::empty());
    }
    let mut fp = fingerprint;
    if let Some(l) = layout {
        fp.pinning_layout = Some(l);
    }
    assert(fp@ == pinned(fingerprint@, json::opt_json(layout)));
    let mut rec = run::assemble(run_id, identity, fp, gate, art.fragments.as_slice(), art.spans);
    if !art.workload_report.is_null() {
        rec.workload_report = Some(art.workload_report);
    }
    rec
}

/// The cell that a capture alone is of: the first, or one without parameters.
pub fn first_cell(cells: &Vec<Cell>) -> (r: (Doc, String))
    ensures
        if cells@.len() > 0 {
            r.0@ == cells@[0].params@ && r.1@ == cells@[0].params_hash@
        } else {
            r.0@ == Json::Obj(json::none()) && r.1@ == def::params_hash_of(
                Json::Obj(json::none()),
            )
        },
{
    if cells.len() > 0 {
        (cells[0].params.clone(), cells[0].params_hash.clone())
    } else {
        let none = Doc::Object(Object::new());
        let hash = def::params_hash(&none);
        (none, hash)
    }
}

// ---------------------------------------------------------------------------
// Host preparation
// ---------------------------------------------------------------------------

/// Whether a definition asks for any tuning.
pub fn has_knobs(prep: &HostPrep) -> (r: bool)
    ensures
        r == (prep.knobs.cpu_governor is Some || prep.knobs.smt is Some || prep.knobs.thp is Some),
{
    prep.knobs.cpu_governor.is_some() || prep.knobs.smt.is_some() || prep.knobs.thp.is_some()
}

/// Why a run whose host was prepared is refused: the tuning did not take.
pub open spec fn refusal(h: contract::Host) -> Option<Seq<char>> {
    if contract::tuned(h) {
        None
    } else {
        Some(
            "host prep did not take: requested "@ + json::text_of(h.tuning_requested)
                + " but host reports "@ + json::text_of(h.tuning_readback)
                + ". refusing the run."@,
        )
    }
}

/// Why a run whose host was prepared is refused.
pub fn refuse_unprepared(fp: &Fingerprint) -> (r: Option<String>)
    ensures
        text::opt_text(r) == refusal(fp@),
{
    if fp.tuning_consistent() {
        None
    } else {
        let mut m = text::join2(
            "host prep did not take: requested ",
            &fp.tuning_requested.to_text(),
        );
        m.append(" but host reports ");
        m.append(&fp.tuning_readback.to_text());
        m.append(". refusing the run.");
        Some(m)
    }
}

} // verus!
