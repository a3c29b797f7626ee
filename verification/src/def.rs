//! Benchmark definitions: hashing, validation and matrix expansion.
//!
//! A run is born from a declarative definition committed next to the code under
//! test. Load-time rejections: unbounded cardinality, a bounded series without
//! a key source or ceiling, an unknown gate mode, an unknown tenancy class, an
//! unknown attach kind, and a uprobe declared on a hot path.
use crate::digest;
use crate::json::{self, Json, Object, Doc};
use crate::table::Table;
use crate::text;
use vstd::prelude::*;

verus! {

/// The values of one parameter, in the order in which they were declared.
#[derive(Debug)]
pub struct Axis {
    pub values: Vec<Doc>,
}

impl View for Axis {
    type V = Seq<Json>;

    open spec fn view(&self) -> Seq<Json> {
        json::jsons(self.values@)
    }
}

#[derive(Debug)]
pub struct BenchmarkDef {
    pub api_version: String,
    pub name: String,
    pub target: Target,
    pub workload: Workload,
    pub gate: GateSpec,
    pub parameterise: Table<Axis>,
    /// The parameter whose two values are the groups A and B. Without it the
    /// groups are two builds of the same configuration.
    pub compare: Option<String>,
    pub capture: Vec<CaptureEntry>,
    pub host_prep: Doc,
    pub tenancy: String,
}

#[derive(Debug)]
pub struct Target {
    pub adapter: String,
    pub version: String,
    /// Shell templates by phase, for the command adapter.
    pub commands: Table<String>,
    /// Settings of a native adapter.
    pub config: Object,
}

#[derive(Debug)]
pub struct Workload {
    pub driver: String,
    pub version: String,
    /// Shell templates by phase, for the command adapter.
    pub commands: Table<String>,
    /// Settings of a native adapter.
    pub config: Object,
}

/// How the runs are judged. A threshold is the decimal text of its number.
#[derive(Debug)]
pub struct GateSpec {
    pub mode: String,
    pub p_threshold: Option<String>,
    pub noise_threshold: Option<String>,
    pub resamples: Option<u64>,
    pub ignore: Vec<String>,
}

#[derive(Debug)]
pub struct CaptureEntry {
    pub probe: String,
    pub gadget: Option<String>,
    pub cardinality: Cardinality,
    /// Declared by the author, not discovered from the gadget.
    pub attach: Option<String>,
    pub hot_path: bool,
    /// Extra flags of the gadget.
    pub args: Vec<String>,
}

#[derive(Debug)]
pub struct Cardinality {
    pub class: String,
    pub key_source: Option<String>,
    pub max_keys: Option<u64>,
}

/// One parameterisation cell: its parameters as an object, and their hash.
#[derive(Debug)]
pub struct Cell {
    pub params: Doc,
    pub params_hash: String,
}

// ---------------------------------------------------------------------------
// Validation
// ---------------------------------------------------------------------------

pub open spec fn is_gate_mode(m: Seq<char>) -> bool {
    m == "ab_permutation"@ || m == "longitudinal_drift"@ || m == "subsystem_triad"@
}

pub open spec fn is_tenancy(t: Seq<char>) -> bool {
    t == "single_tenant"@ || t == "density"@
}

pub open spec fn is_cardinality_class(c: Seq<char>) -> bool {
    c == "singleton"@ || c == "bounded"@
}

/// The kinds of attachment that the contract knows.
pub open spec fn is_attach_kind(a: Seq<char>) -> bool {
    a == "tp_btf"@ || a == "tracepoint"@ || a == "fentry"@ || a == "fexit"@ || a == "kprobe"@ || a
        == "kretprobe"@ || a == "uprobe"@ || a == "xdp"@ || a == "tc"@
}

/// One problem, or none.
pub open spec fn problem_if(b: bool, p: Seq<char>) -> Seq<Seq<char>> {
    if b {
        seq![p]
    } else {
        Seq::empty()
    }
}

/// What is wrong with the choice of the A/B axis.
pub open spec fn axis_problems(
    compare: Option<Seq<char>>,
    axes: Seq<(Seq<char>, Seq<Json>)>,
) -> Seq<Seq<char>> {
    match compare {
        None => Seq::empty(),
        Some(dim) => match json::lookup(axes, dim) {
            None => seq![
                "compare '"@ + dim
                    + "' names no parameterise dimension (declare it under parameterise with two values)"@,
            ],
            Some(values) => problem_if(
                values.len() != 2,
                "compare '"@ + dim
                    + "' needs exactly two values for an A/B comparison, found "@ + text::decimal(
                    values.len(),
                ),
            ),
        },
    }
}

/// How problems of a capture entry begin.
pub open spec fn place_of(c: CaptureEntry) -> Seq<char> {
    "capture '"@ + c.probe@ + "'"@
}

/// What is wrong with the cardinality of a capture entry.
pub open spec fn cardinality_problems(c: CaptureEntry) -> Seq<Seq<char>> {
    let k = c.cardinality;
    let at = place_of(c);
    problem_if(
        !is_cardinality_class(k.class@),
        at + ": cardinality.class '"@ + k.class@
            + "' unknown (want singleton or bounded; unbounded is rejected by design)"@,
    ) + if k.class@ == "bounded"@ {
        problem_if(
            k.key_source is None,
            at + ": bounded cardinality needs a key_source"@,
        ) + match k.max_keys {
            None => seq![at + ": bounded cardinality needs max_keys"@],
            Some(n) => problem_if(n == 0, at + ": bounded cardinality max_keys must be > 0"@),
        }
    } else {
        Seq::empty()
    }
}

/// What is wrong with the attachment of a capture entry.
pub open spec fn attach_problems(c: CaptureEntry) -> Seq<Seq<char>> {
    let at = place_of(c);
    match c.attach {
        None => Seq::empty(),
        Some(a) => problem_if(
            !is_attach_kind(a@),
            at + ": attach '"@ + a@
                + "' unknown (want one of tp_btf, tracepoint, fentry, fexit, kprobe, kretprobe, uprobe, xdp, tc)"@,
        ) + problem_if(
            a@ == "uprobe"@ && c.hot_path,
            at
                + ": uprobe on a hot path is banned (dual context switch); sample off the hot path instead"@,
        ),
    }
}

/// What is wrong with the first capture entries.
pub open spec fn capture_problems(cs: Seq<CaptureEntry>) -> Seq<Seq<char>>
    decreases cs.len(),
{
    if cs.len() == 0 {
        Seq::empty()
    } else {
        capture_problems(cs.drop_last()) + cardinality_problems(cs.last()) + attach_problems(
            cs.last(),
        )
    }
}

/// Every problem of a definition, in the order in which they are reported.
pub open spec fn problems(d: BenchmarkDef) -> Seq<Seq<char>> {
    problem_if(
        !is_gate_mode(d.gate.mode@),
        "gate.mode '"@ + d.gate.mode@
            + "' unknown (want one of ab_permutation, longitudinal_drift, subsystem_triad)"@,
    ) + problem_if(
        !is_tenancy(d.tenancy@),
        "tenancy '"@ + d.tenancy@ + "' unknown (want one of single_tenant, density)"@,
    ) + axis_problems(text::opt_text(d.compare), d.parameterise@) + capture_problems(d.capture@)
}

fn gate_mode(m: &str) -> (r: bool)
    ensures
        r == is_gate_mode(m@),
{
    text::same(m, "ab_permutation") || text::same(m, "longitudinal_drift") || text::same(
        m,
        "subsystem_triad",
    )
}

fn attach_kind(a: &str) -> (r: bool)
    ensures
        r == is_attach_kind(a@),
{
    text::same(a, "tp_btf") || text::same(a, "tracepoint") || text::same(a, "fentry")
        || text::same(a, "fexit") || text::same(a, "kprobe") || text::same(a, "kretprobe")
        || text::same(a, "uprobe") || text::same(a, "xdp") || text::same(a, "tc")
}

fn note(v: &mut Vec<String>, a: &str, b: &str, c: &str)
    ensures
        text::texts(final(v)@) == text::texts(old(v)@) + seq![a@ + b@ + c@],
{
    let mut m = text::join2(a, b);
    m.append(c);
    let ghost was = v@;
    v.push(m);
    assert(text::texts(v@) =~= text::texts(was) + seq![m@]);
}

fn note_at(v: &mut Vec<String>, at: &str, what: &str)
    ensures
        text::texts(final(v)@) == text::texts(old(v)@) + seq![at@ + what@],
{
    let m = text::join2(at, what);
    let ghost was = v@;
    v.push(m);
    assert(text::texts(v@) =~= text::texts(was) + seq![m@]);
}

fn check_axis(v: &mut Vec<String>, compare: &Option<String>, axes: &Table<Axis>)
    ensures
        text::texts(final(v)@) == text::texts(old(v)@) + axis_problems(
            text::opt_text(*compare),
            axes@,
        ),
{
    let ghost was = text::texts(v@);
    assert(was + Seq::<Seq<char>>::empty() =~= was);
    if let Some(dim) = compare {
        match axes.get(dim) {
            None => note(
                v,
                "compare '",
                dim,
                "' names no parameterise dimension (declare it under parameterise with two values)",
            ),
            Some(axis) => {
                assert(axis@.len() == axis.values@.len());
                if axis.values.len() != 2 {
                    let tail = text::join2(
                        "' needs exactly two values for an A/B comparison, found ",
                        &text::dec(axis.values.len() as u64),
                    );
                    note(v, "compare '", dim, &tail);
                    assert("compare '"@ + dim@ + tail@ =~= "compare '"@ + dim@
                        + "' needs exactly two values for an A/B comparison, found "@
                        + text::decimal(axis@.len()));
                }
            },
        }
    }
}

fn check_cardinality(v: &mut Vec<String>, c: &CaptureEntry, at: &str)
    requires
        at@ == place_of(*c),
    ensures
        text::texts(final(v)@) == text::texts(old(v)@) + cardinality_problems(*c),
{
    let ghost was = text::texts(v@);
    let k = &c.cardinality;
    if !text::same(&k.class, "singleton") && !text::same(&k.class, "bounded") {
        let head = text::join2(at, ": cardinality.class '");
        note(
            v,
            &head,
            &k.class,
            "' unknown (want singleton or bounded; unbounded is rejected by design)",
        );
    }
    if text::same(&k.class, "bounded") {
        if k.key_source.is_none() {
            note_at(v, at, ": bounded cardinality needs a key_source");
        }
        match k.max_keys {
            None => note_at(v, at, ": bounded cardinality needs max_keys"),
            Some(n) => if n == 0 {
                note_at(v, at, ": bounded cardinality max_keys must be > 0");
            },
        }
    }
    assert(text::texts(v@) =~= was + cardinality_problems(*c));
}

fn check_attach(v: &mut Vec<String>, c: &CaptureEntry, at: &str)
    requires
        at@ == place_of(*c),
    ensures
        text::texts(final(v)@) == text::texts(old(v)@) + attach_problems(*c),
{
    let ghost was = text::texts(v@);
    if let Some(a) = &c.attach {
        if !attach_kind(a) {
            let head = text::join2(at, ": attach '");
            note(
                v,
                &head,
                a,
                "' unknown (want one of tp_btf, tracepoint, fentry, fexit, kprobe, kretprobe, uprobe, xdp, tc)",
            );
        }
        if text::same(a, "uprobe") && c.hot_path {
            note_at(
                v,
                at,
                ": uprobe on a hot path is banned (dual context switch); sample off the hot path instead",
            );
        }
    }
    assert(text::texts(v@) =~= was + attach_problems(*c));
}

/// Check a definition against the load-time rules. Every problem is reported,
/// not just the first, so that the author fixes the file in one pass.
pub fn validate(def: &BenchmarkDef) -> (r: Result<(), Vec<String>>)
    ensures
        r is Ok <==> problems(*def).len() == 0,
        r is Err ==> text::texts(r->Err_0@) == problems(*def),
{
    let mut errs: Vec<String> = Vec::new();
    assert(text::texts(errs@) =~= Seq::empty());
    if !gate_mode(&def.gate.mode) {
        note(
            &mut errs,
            "gate.mode '",
            &def.gate.mode,
            "' unknown (want one of ab_permutation, longitudinal_drift, subsystem_triad)",
        );
    }
    if !text::same(&def.tenancy, "single_tenant") && !text::same(&def.tenancy, "density") {
        note(
            &mut errs,
            "tenancy '",
            &def.tenancy,
            "' unknown (want one of single_tenant, density)",
        );
    }
    check_axis(&mut errs, &def.compare, &def.parameterise);
    let ghost base = text::texts(errs@);
    let ghost cs = def.capture@;
    assert(cs.take(0) =~= Seq::empty());
    assert(base + capture_problems(Seq::empty()) =~= base);
    let mut i: usize = 0;
    while i < def.capture.len()
        invariant
            i <= def.capture@.len(),
            cs == def.capture@,
            text::texts(errs@) == base + capture_problems(cs.take(i as int)),
        decreases def.capture@.len() - i,
    {
        assert(cs.take(i + 1).drop_last() =~= cs.take(i as int));
        let c = &def.capture[i];
        let mut at = text::join2("capture '", &c.probe);
        at.append("'");
        check_cardinality(&mut errs, c, &at);
        check_attach(&mut errs, c, &at);
        i += 1;
        assert(text::texts(errs@) =~= base + capture_problems(cs.take(i as int)));
    }
    assert(cs.take(cs.len() as int) =~= cs);
    assert(text::texts(errs@) =~= problems(*def));
    assert(text::texts(errs@).len() == errs@.len());
    if errs.len() == 0 {
        Ok(())
    } else {
        Err(errs)
    }
}

proof fn lemma_capture_problem(cs: Seq<CaptureEntry>, i: int)
    requires
        0 <= i < cs.len(),
        cardinality_problems(cs[i]).len() + attach_problems(cs[i]).len() > 0,
    ensures
        capture_problems(cs).len() > 0,
    decreases cs.len(),
{
    if i < cs.len() - 1 {
        lemma_capture_problem(cs.drop_last(), i);
    }
}

/// No definition that declares an unbounded series is accepted.
pub proof fn law_unbounded_is_rejected(d: BenchmarkDef, i: int)
    requires
        0 <= i < d.capture@.len(),
        d.capture@[i].cardinality.class@ == "unbounded"@,
    ensures
        problems(d).len() > 0,
{
    reveal_strlit("unbounded");
    reveal_strlit("singleton");
    reveal_strlit("bounded");
    assert("unbounded"@[0] == 'u' && "singleton"@[0] == 's' && "bounded"@[0] == 'b');
    lemma_capture_problem(d.capture@, i);
}

/// No definition that declares a uprobe on a hot path is accepted.
pub proof fn law_hot_uprobe_is_rejected(d: BenchmarkDef, i: int)
    requires
        0 <= i < d.capture@.len(),
        text::opt_text(d.capture@[i].attach) == Some("uprobe"@),
        d.capture@[i].hot_path,
    ensures
        problems(d).len() > 0,
{
    lemma_capture_problem(d.capture@, i);
}

/// In an accepted definition, the A/B axis has exactly two values.
pub proof fn law_compared_axis_has_two_values(d: BenchmarkDef)
    requires
        problems(d).len() == 0,
        d.compare is Some,
    ensures
        json::lookup(d.parameterise@, d.compare->0@) matches Some(values) && values.len() == 2,
{
}

// ---------------------------------------------------------------------------
// Expansion
// ---------------------------------------------------------------------------

/// Each of the first `n` sets of parameters with each of the values of `k`.
pub open spec fn spread(
    sets: Seq<Seq<(Seq<char>, Json)>>,
    k: Seq<char>,
    values: Seq<Json>,
    n: nat,
) -> Seq<Seq<(Seq<char>, Json)>>
    decreases n,
{
    if n == 0 {
        Seq::empty()
    } else {
        spread(sets, k, values, (n - 1) as nat) + values.map_values(
            |v: Json| json::put(sets[n - 1], k, v),
        )
    }
}

/// The sets of parameters that the first `n` axes span: every choice of one
/// value for each, the last axis varying fastest.
pub open spec fn combinations(axes: Seq<(Seq<char>, Seq<Json>)>, n: nat) -> Seq<
    Seq<(Seq<char>, Json)>,
>
    decreases n,
{
    if n == 0 {
        seq![json::none()]
    } else {
        let before = combinations(axes, (n - 1) as nat);
        spread(before, axes[n - 1].0, axes[n - 1].1, before.len())
    }
}

/// How many choices of one value for each of the first `n` axes there are.
pub open spec fn choices(axes: Seq<(Seq<char>, Seq<Json>)>, n: nat) -> nat
    decreases n,
{
    if n == 0 {
        1
    } else {
        choices(axes, (n - 1) as nat) * axes[n - 1].1.len()
    }
}

proof fn lemma_spread_len(
    sets: Seq<Seq<(Seq<char>, Json)>>,
    k: Seq<char>,
    values: Seq<Json>,
    n: nat,
)
    ensures
        spread(sets, k, values, n).len() == n * values.len(),
    decreases n,
{
    if n > 0 {
        lemma_spread_len(sets, k, values, (n - 1) as nat);
        assert((n - 1) * values.len() + values.len() == n * values.len()) by (nonlinear_arith);
    } else {
        assert(0 * values.len() == 0) by (nonlinear_arith);
    }
}

/// The matrix has one cell for each choice of one value for each parameter; a
/// definition without parameters has a single cell, the empty one.
pub proof fn law_matrix_size(axes: Seq<(Seq<char>, Seq<Json>)>, n: nat)
    ensures
        combinations(axes, n).len() == choices(axes, n),
        n == 0 ==> combinations(axes, n) == seq![json::none()],
    decreases n,
{
    if n > 0 {
        law_matrix_size(axes, (n - 1) as nat);
        let before = combinations(axes, (n - 1) as nat);
        lemma_spread_len(before, axes[n - 1].0, axes[n - 1].1, before.len());
    }
}

/// The hash of parameters: that of their text, the keys in order.
pub open spec fn params_hash_of(params: Json) -> Seq<char> {
    digest::hex_of(digest::sha256_of(vstd::utf8::encode_utf8(json::text_of(params))))
}

/// A document as text: keys in order, no white space.
pub fn canonical_json(v: &Doc) -> (r: String)
    ensures
        r@ == json::text_of(v@),
{
    v.to_text()
}

/// The hash of parameters, whatever the order in which they were declared.
pub fn params_hash(params: &Doc) -> (r: String)
    ensures
        r@ == params_hash_of(params@),
        r@.len() == 64,
{
    let t = canonical_json(params);
    digest::sha256_hex(t.as_str().as_bytes())
}

/// The identity of a definition: the hash of its text as it stands.
pub open spec fn def_sha_of(text: Seq<char>) -> Seq<char> {
    digest::hex_of(digest::sha256_of(vstd::utf8::encode_utf8(text)))
}

/// The identity of a definition: the hash of its text as it stands.
pub fn benchmark_def_sha(text: &str) -> (r: String)
    ensures
        r@ == def_sha_of(text@),
        r@.len() == 64,
{
    digest::sha256_hex(text.as_bytes())
}

/// Parameters that were put in another order have the same hash.
pub proof fn law_params_hash_ignores_key_order(
    e: Seq<(Seq<char>, Json)>,
    a: Seq<char>,
    x: Json,
    b: Seq<char>,
    y: Json,
)
    requires
        json::sorted(json::keys(e)),
        a != b,
    ensures
        params_hash_of(Json::Obj(json::put(json::put(e, a, x), b, y))) == params_hash_of(
            Json::Obj(json::put(json::put(e, b, y), a, x)),
        ),
{
    json::law_put_order(e, a, x, b, y);
}

pub open spec fn object_views(s: Seq<Object>) -> Seq<Seq<(Seq<char>, Json)>> {
    s.map_values(|o: Object| o@)
}

fn spread_sets(sets: &Vec<Object>, k: &str, values: &Vec<Doc>) -> (r: Vec<Object>)
    ensures
        object_views(r@) == spread(
            object_views(sets@),
            k@,
            json::jsons(values@),
            sets@.len(),
        ),
{
    let ghost ss = object_views(sets@);
    let ghost vs = json::jsons(values@);
    let mut out: Vec<Object> = Vec::new();
    assert(object_views(out@) =~= Seq::empty());
    let mut i: usize = 0;
    while i < sets.len()
        invariant
            i <= sets@.len(),
            ss == object_views(sets@),
            vs == json::jsons(values@),
            object_views(out@) == spread(ss, k@, vs, i as nat),
        decreases sets@.len() - i,
    {
        let ghost base = object_views(out@);
        let ghost row = vs.map_values(|v: Json| json::put(ss[i as int], k@, v));
        assert(base + row.take(0) =~= base);
        let mut j: usize = 0;
        while j < values.len()
            invariant
                i < sets@.len(),
                j <= values@.len(),
                ss == object_views(sets@),
                vs == json::jsons(values@),
                row == vs.map_values(|v: Json| json::put(ss[i as int], k@, v)),
                object_views(out@) == base + row.take(j as int),
            decreases values@.len() - j,
        {
            let ghost was = out@;
            let o = sets[i].clone().with(k, values[j].clone());
            assert(ss[i as int] == sets@[i as int]@);
            assert(vs[j as int] == values@[j as int]@);
            assert(o@ == row[j as int]);
            out.push(o);
            assert(object_views(out@) =~= object_views(was).push(o@));
            assert(base + row.take(j + 1) =~= (base + row.take(j as int)).push(row[j as int]));
            j += 1;
        }
        assert(row.take(row.len() as int) =~= row);
        i += 1;
    }
    out
}

/// The cells of a definition.
pub open spec fn is_cells(d: BenchmarkDef, cells: Seq<Cell>) -> bool {
    let sets = combinations(d.parameterise@, d.parameterise@.len());
    &&& cells.len() == sets.len()
    &&& forall|i: int|
        0 <= i < cells.len() ==> (#[trigger] cells[i]).params@ == Json::Obj(sets[i])
            && cells[i].params_hash@ == params_hash_of(Json::Obj(sets[i]))
}

/// Expand the matrix into its cells. Parameters are taken in the order of their
/// names, values in the order in which they were declared.
pub fn expand_cells(def: &BenchmarkDef) -> (r: Vec<Cell>)
    ensures
        is_cells(*def, r@),
{
    let ghost axes = def.parameterise@;
    let mut sets: Vec<Object> = Vec::new();
    sets.push(Object::new());
    assert(object_views(sets@) =~= seq![json::none()]);
    let mut i: usize = 0;
    while i < def.parameterise.len()
        invariant
            i <= def.parameterise@.len(),
            axes == def.parameterise@,
            object_views(sets@) == combinations(axes, i as nat),
        decreases def.parameterise@.len() - i,
    {
        let axis = def.parameterise.value(i);
        assert(object_views(sets@).len() == sets@.len());
        sets = spread_sets(&sets, def.parameterise.key(i), &axis.values);
        i += 1;
    }
    let ghost all = combinations(axes, axes.len());
    let mut out: Vec<Cell> = Vec::new();
    let ghost mut n: int = 0;
    while sets.len() > 0
        invariant
            0 <= n <= all.len(),
            object_views(sets@) == all.skip(n),
            out@.len() == n,
            forall|i: int|
                0 <= i < n ==> (#[trigger] out@[i]).params@ == Json::Obj(all[i])
                    && out@[i].params_hash@ == params_hash_of(Json::Obj(all[i])),
        decreases sets@.len(),
    {
        let ghost was = sets@;
        assert(object_views(was).len() == was.len());
        assert(all.skip(n)[0] == all[n]);
        let o = sets.remove(0);
        assert(object_views(was)[0] == o@);
        proof {
            assert(sets@ =~= was.skip(1));
            assert forall|j: int| 0 <= j < sets@.len() implies #[trigger] object_views(sets@)[j]
                == all.skip(n + 1)[j] by {
                assert(object_views(was)[j + 1] == all.skip(n)[j + 1]);
            }
            assert(object_views(sets@) =~= all.skip(n + 1));
        }
        let params = Doc::Object(o);
        let params_hash = params_hash(&params);
        out.push(Cell { params, params_hash });
        proof {
            n = n + 1;
        }
    }
    assert(object_views(sets@).len() == 0);
    out
}

impl Clone for Cell {
    fn clone(&self) -> (r: Self)
        ensures
            r.params@ == self.params@,
            r.params_hash@ == self.params_hash@,
    {
        Cell { params: self.params.clone(), params_hash: self.params_hash.clone() }
    }
}

} // verus!
