//! The decision gate: permutation A/B, longitudinal drift and the subsystem
//! triad over reduced runs. The numbers behind each comparison are computed by
//! the caller; which metrics are compared, what each comparison means and what
//! the conclusion is are decided here.
use crate::json::{self, Json, Object, Doc};
use crate::otlp;
use crate::reduce::{self, Amount, Metric, Polarity, Quantity, Reading};
use crate::text;
use vstd::prelude::*;

verus! {

/// How the comparator compares. The thresholds are kept as they were written.
#[derive(Debug)]
pub struct Config {
    pub p_threshold: String,
    pub noise_threshold: String,
    pub min_effect: String,
    pub resamples: usize,
    pub drift_k: String,
    pub seed: u64,
    pub ignore: Vec<String>,
    pub allow_ungraded: bool,
    pub strict_single_cell: bool,
}

impl Default for Config {
    fn default() -> (r: Self)
        ensures
            r.p_threshold@ == "0.01"@,
            r.noise_threshold@ == "0.05"@,
            r.min_effect@ == "0.05"@,
            r.resamples == 10000,
            r.drift_k@ == "3.0"@,
            r.seed == 0xA55A_1571_D000_0001,
            r.ignore@ == Seq::<String>::empty(),
            !r.allow_ungraded,
            !r.strict_single_cell,
    {
        Config {
            p_threshold: "0.01".to_owned(),
            noise_threshold: "0.05".to_owned(),
            min_effect: "0.05".to_owned(),
            resamples: 10000,
            drift_k: "3.0".to_owned(),
            seed: 0xA55A_1571_D000_0001,
            ignore: Vec::new(),
            allow_ungraded: false,
            strict_single_cell: false,
        }
    }
}

// ---------------------------------------------------------------------------
// Admission
// ---------------------------------------------------------------------------

/// Whether the key `k` holds something other than null.
pub open spec fn present(j: Json, k: Seq<char>) -> bool {
    !(json::member(j, k) is Null)
}

/// The grade of a run: what its record says, or else `valid` where the
/// fingerprint has the fields that matter most.
pub open spec fn grade(run: Json) -> Seq<char> {
    match json::str_field(run, "grade"@) {
        Some(g) => g,
        None => {
            let fp = json::member(run, "fingerprint"@);
            if present(fp, "kernel_version"@) && present(fp, "cpu_model"@) && present(
                fp,
                "tenancy"@,
            ) && present(fp, "cpu_governor"@) {
                "valid"@
            } else {
                "invalid"@
            }
        },
    }
}

fn has(v: &Doc, k: &str) -> (r: bool)
    ensures
        r == present(v@, k@),
{
    match v.get(k) {
        Some(x) => !x.is_null(),
        None => false,
    }
}

pub fn grade_of(run: &Doc) -> (r: String)
    ensures
        r@ == grade(run@),
{
    if let Some(g) = run.str_at("grade") {
        return g.to_owned();
    }
    let core = match run.get("fingerprint") {
        Some(fp) => has(fp, "kernel_version") && has(fp, "cpu_model") && has(fp, "tenancy") && has(
            fp,
            "cpu_governor",
        ),
        None => false,
    };
    if core {
        "valid".to_owned()
    } else {
        "invalid".to_owned()
    }
}

/// A text that a run's fingerprint records.
pub open spec fn fingerprinted(run: Json, k: Seq<char>) -> Option<Seq<char>> {
    json::str_field(json::member(run, "fingerprint"@), k)
}

fn recorded_of(run: &Doc, k: &str) -> (r: Option<String>)
    ensures
        text::opt_text(r) == fingerprinted(run@, k@),
{
    match run.get("fingerprint") {
        Some(fp) => match fp.str_at(k) {
            Some(t) => Some(t.to_owned()),
            None => None,
        },
        None => None,
    }
}

/// The tenancy class that a run's fingerprint records.
pub fn tenancy_of(run: &Doc) -> (r: Option<String>)
    ensures
        text::opt_text(r) == fingerprinted(run@, "tenancy"@),
{
    recorded_of(run, "tenancy")
}

/// The parameterisation cell that a run belongs to.
pub open spec fn cell(run: Json) -> Seq<char> {
    match json::str_field(json::member(run, "identity"@), "params_hash"@) {
        Some(h) => h,
        None => "_"@,
    }
}

pub fn params_hash(run: &Doc) -> (r: String)
    ensures
        r@ == cell(run@),
{
    let found = match run.get("identity") {
        Some(id) => id.str_at("params_hash"),
        None => None,
    };
    match found {
        Some(h) => h.to_owned(),
        None => "_".to_owned(),
    }
}

/// Why a run of a group is refused.
pub open spec fn refusal(label: Seq<char>, grade: Seq<char>) -> Seq<char> {
    label + " run grade is '"@ + grade
        + "', not 'reproducible'; pass --allow-ungraded to override"@
}

/// What is noted of a run that is admitted below `reproducible`.
pub open spec fn admission_note(label: Seq<char>, grade: Seq<char>) -> Seq<char> {
    label + " run admitted at grade '"@ + grade + "' (--allow-ungraded)"@
}

/// What admitting the runs of one group notes, or why it is refused: the first
/// run below `reproducible`, unless such runs are allowed.
pub open spec fn admitted(label: Seq<char>, runs: Seq<Json>, allow: bool) -> Result<
    Seq<Seq<char>>,
    Seq<char>,
>
    decreases runs.len(),
{
    if runs.len() == 0 {
        Ok(Seq::empty())
    } else {
        match admitted(label, runs.drop_last(), allow) {
            Err(e) => Err(e),
            Ok(notes) => {
                let g = grade(runs.last());
                if g == "reproducible"@ {
                    Ok(notes)
                } else if allow {
                    Ok(notes.push(admission_note(label, g)))
                } else {
                    Err(refusal(label, g))
                }
            },
        }
    }
}

/// The view of a result whose value is a list of strings.
pub open spec fn listed(r: Result<Vec<String>, String>) -> Result<Seq<Seq<char>>, Seq<char>> {
    match r {
        Ok(v) => Ok(text::texts(v@)),
        Err(e) => Err(e@),
    }
}

fn let_in(label: &str, runs: &[Doc], allow: bool) -> (r: Result<Vec<String>, String>)
    ensures
        listed(r) == admitted(label@, json::jsons(runs@), allow),
{
    let ghost all = json::jsons(runs@);
    let mut notes: Vec<String> = Vec::new();
    assert(text::texts(notes@) =~= Seq::empty());
    assert(all.take(0) =~= Seq::empty());
    let mut i: usize = 0;
    while i < runs.len()
        invariant
            i <= runs@.len(),
            all == json::jsons(runs@),
            admitted(label@, all.take(i as int), allow) == Ok::<_, Seq<char>>(
                text::texts(notes@),
            ),
        decreases runs@.len() - i,
    {
        assert(all.take(i + 1).drop_last() =~= all.take(i as int));
        assert(all.take(i + 1).last() == runs@[i as int]@);
        let g = grade_of(&runs[i]);
        if !text::same(&g, "reproducible") {
            if !allow {
                let mut m = label.to_owned();
                m.append(" run grade is '");
                m.append(&g);
                m.append("', not 'reproducible'; pass --allow-ungraded to override");
                proof {
                    lemma_refused(label@, all, allow, (i + 1) as nat);
                }
                return Err(m);
            }
            let mut m = label.to_owned();
            m.append(" run admitted at grade '");
            m.append(&g);
            m.append("' (--allow-ungraded)");
            let ghost was = notes@;
            notes.push(m);
            assert(text::texts(notes@) =~= text::texts(was).push(m@));
        }
        i += 1;
    }
    assert(all.take(all.len() as int) =~= all);
    Ok(notes)
}

/// A group is refused for its first refused run.
proof fn lemma_refused(label: Seq<char>, runs: Seq<Json>, allow: bool, n: nat)
    requires
        n <= runs.len(),
        admitted(label, runs.take(n as int), allow) is Err,
    ensures
        admitted(label, runs, allow) == admitted(label, runs.take(n as int), allow),
    decreases runs.len() - n,
{
    if n == runs.len() {
        assert(runs.take(n as int) =~= runs);
    } else {
        assert(runs.take(n as int + 1).drop_last() =~= runs.take(n as int));
        lemma_refused(label, runs, allow, n + 1);
    }
}

/// Texts in order, none twice, with `k` among them.
pub open spec fn with_text(e: Seq<(Seq<char>, ())>, k: Seq<char>) -> Seq<(Seq<char>, ())> {
    json::put(e, k, ())
}

/// What the fingerprints of the runs record under a key, in order, none twice.
pub open spec fn all_recorded(runs: Seq<Json>, k: Seq<char>) -> Seq<(Seq<char>, ())>
    decreases runs.len(),
{
    if runs.len() == 0 {
        Seq::empty()
    } else {
        let e = all_recorded(runs.drop_last(), k);
        match fingerprinted(runs.last(), k) {
            Some(t) => with_text(e, t),
            None => e,
        }
    }
}

/// The tenancy classes of the runs, in order, none twice.
pub open spec fn tenancies(runs: Seq<Json>) -> Seq<(Seq<char>, ())> {
    all_recorded(runs, "tenancy"@)
}

/// The hosts of the runs, in order, none twice.
pub open spec fn hosts(runs: Seq<Json>) -> Seq<(Seq<char>, ())> {
    all_recorded(runs, "hostname"@)
}

pub open spec fn text_entries(v: Seq<String>) -> Seq<(Seq<char>, ())> {
    v.map_values(|s: String| (s@, ()))
}

/// Where `k` stands or would stand among texts in order.
fn place(v: &Vec<String>, k: &str) -> (r: (usize, bool))
    ensures
        r.0 <= v@.len(),
        forall|j: int| 0 <= j < r.0 ==> (#[trigger] v@[j])@ != k@ && !json::before(k@, v@[j]@),
        r.1 == (r.0 < v@.len() && v@[r.0 as int]@ == k@),
        r.0 < v@.len() && !r.1 ==> json::before(k@, v@[r.0 as int]@),
{
    let mut i: usize = 0;
    while i < v.len()
        invariant
            i <= v@.len(),
            forall|j: int| 0 <= j < i ==> (#[trigger] v@[j])@ != k@ && !json::before(k@, v@[j]@),
        decreases v@.len() - i,
    {
        if text::same(&v[i], k) {
            return (i, true);
        }
        if json::precedes(k, &v[i]) {
            return (i, false);
        }
        i += 1;
    }
    (i, false)
}

fn add_text(v: &mut Vec<String>, k: String)
    ensures
        text_entries(final(v)@) == with_text(text_entries(old(v)@), k@),
{
    let ghost was = v@;
    let ghost e = text_entries(was);
    let (i, found) = place(v, &k);
    proof {
        assert forall|j: int| 0 <= j < i implies #[trigger] e[j].0 != k@ && !json::before(
            k@,
            e[j].0,
        ) by {
            assert(e[j].0 == was[j]@);
        }
        json::lemma_put_at(e, k@, (), i as int);
    }
    if !found {
        v.insert(i, k);
        assert(text_entries(v@) =~= e.take(i as int) + seq![(k@, ())] + e.skip(i as int));
    } else {
        assert(e =~= e.take(i as int) + seq![(k@, ())] + e.skip(i + 1));
    }
}

fn add_recorded(v: &mut Vec<String>, runs: &[Doc], k: &str, Ghost(done): Ghost<Seq<Json>>)
    requires
        text_entries(old(v)@) == all_recorded(done, k@),
    ensures
        text_entries(final(v)@) == all_recorded(done + json::jsons(runs@), k@),
{
    let ghost all = json::jsons(runs@);
    let mut i: usize = 0;
    assert(done + all.take(0) =~= done);
    while i < runs.len()
        invariant
            i <= runs@.len(),
            all == json::jsons(runs@),
            text_entries(v@) == all_recorded(done + all.take(i as int), k@),
        decreases runs@.len() - i,
    {
        let ghost now = done + all.take(i + 1);
        assert(now.drop_last() =~= done + all.take(i as int));
        assert(now.last() == runs@[i as int]@);
        if let Some(t) = recorded_of(&runs[i], k) {
            add_text(v, t);
        }
        i += 1;
    }
    assert(all.take(all.len() as int) =~= all);
}

/// What the fingerprints of two groups record under a key, in order, none twice.
fn recorded_in(a: &[Doc], b: &[Doc], k: &str) -> (r: Vec<String>)
    ensures
        text_entries(r@) == all_recorded(json::jsons(a@) + json::jsons(b@), k@),
        text::texts(r@) == json::keys(text_entries(r@)),
        r@.len() == text_entries(r@).len(),
{
    let mut v: Vec<String> = Vec::new();
    assert(text_entries(v@) =~= all_recorded(Seq::empty(), k@));
    add_recorded(&mut v, a, k, Ghost(Seq::empty()));
    assert(Seq::empty() + json::jsons(a@) =~= json::jsons(a@));
    add_recorded(&mut v, b, k, Ghost(json::jsons(a@)));
    assert(text::texts(v@) =~= json::keys(text_entries(v@)));
    v
}

/// Why runs of more than one host are refused, where there are any.
pub open spec fn hosts_refused(runs: Seq<Json>) -> Option<Seq<char>> {
    if hosts(runs).len() > 1 {
        Some("refusing to compare across hosts: "@ + text::debug_list(json::keys(hosts(runs))))
    } else {
        None
    }
}

fn refuse_hosts(a: &[Doc], b: &[Doc]) -> (r: Option<String>)
    ensures
        text::opt_text(r) == hosts_refused(json::jsons(a@) + json::jsons(b@)),
{
    let names = recorded_in(a, b, "hostname");
    if names.len() > 1 {
        let mut m = "refusing to compare across hosts: ".to_owned();
        m.append(&text::debug_strings(&names));
        Some(m)
    } else {
        None
    }
}

/// Whether two groups may be compared: the notes of admitting them, or why
/// not. Runs of more than one tenancy class, or of more than one host, are never
/// compared.
pub open spec fn validated(a: Seq<Json>, b: Seq<Json>, allow: bool) -> Result<
    Seq<Seq<char>>,
    Seq<char>,
> {
    match admitted("A"@, a, allow) {
        Err(e) => Err(e),
        Ok(x) => match admitted("B"@, b, allow) {
            Err(e) => Err(e),
            Ok(y) => {
                let t = tenancies(a + b);
                if t.len() > 1 {
                    Err(
                        "refusing to compare across tenancy classes: "@ + text::debug_list(
                            json::keys(t),
                        ),
                    )
                } else {
                    match hosts_refused(a + b) {
                        Some(e) => Err(e),
                        None => Ok(x + y),
                    }
                }
            },
        },
    }
}

pub fn validate(a: &[Doc], b: &[Doc], allow: bool) -> (r: Result<Vec<String>, String>)
    ensures
        listed(r) == validated(json::jsons(a@), json::jsons(b@), allow),
{
    let mut notes = match let_in("A", a, allow) {
        Ok(n) => n,
        Err(e) => {
            return Err(e);
        },
    };
    let mut more = match let_in("B", b, allow) {
        Ok(n) => n,
        Err(e) => {
            return Err(e);
        },
    };
    let ghost x = notes@;
    let ghost y = more@;
    notes.append(&mut more);
    assert(text::texts(notes@) =~= text::texts(x) + text::texts(y));
    let classes = recorded_in(a, b, "tenancy");
    if classes.len() > 1 {
        let mut m = "refusing to compare across tenancy classes: ".to_owned();
        m.append(&text::debug_strings(&classes));
        return Err(m);
    }
    match refuse_hosts(a, b) {
        Some(m) => Err(m),
        None => Ok(notes),
    }
}

// ---------------------------------------------------------------------------
// Groups of runs
// ---------------------------------------------------------------------------

/// What a group of runs holds of one metric: its samples in the order of the
/// runs, whether any is contaminated, its polarity, and the parameterisation
/// cells that contributed.
#[derive(Debug)]
pub struct Series {
    pub samples: Vec<Quantity>,
    pub contaminated: bool,
    pub polarity: Polarity,
    pub cells: Vec<String>,
}

/// A `Series` as a mathematical value.
pub struct Track {
    pub samples: Seq<Amount>,
    pub contaminated: bool,
    pub polarity: Polarity,
    pub cells: Seq<Seq<char>>,
}

pub open spec fn amounts(s: Seq<Quantity>) -> Seq<Amount> {
    s.map_values(|q: Quantity| q@)
}

impl View for Series {
    type V = Track;

    open spec fn view(&self) -> Track {
        Track {
            samples: amounts(self.samples@),
            contaminated: self.contaminated,
            polarity: self.polarity,
            cells: text::texts(self.cells@),
        }
    }
}

/// A group of runs, metric by metric, in the order of the metrics' ids.
#[derive(Debug)]
pub struct Group {
    ids: Vec<String>,
    series: Vec<Series>,
}

impl View for Group {
    type V = Seq<(Seq<char>, Track)>;

    closed spec fn view(&self) -> Seq<(Seq<char>, Track)> {
        Seq::new(self.ids@.len(), |i: int| (self.ids@[i]@, self.series@[i]@))
    }
}

/// A metric's track with one more sample.
pub open spec fn extended(t: Option<Track>, m: Reading, cell: Seq<char>) -> Track {
    match t {
        None => Track {
            samples: seq![m.value],
            contaminated: m.contaminated,
            polarity: m.polarity,
            cells: seq![cell],
        },
        Some(t) => Track {
            samples: t.samples.push(m.value),
            contaminated: t.contaminated || m.contaminated,
            polarity: t.polarity,
            cells: if t.cells.contains(cell) {
                t.cells
            } else {
                t.cells.push(cell)
            },
        },
    }
}

/// A group with one more metric of a run in `cell`.
pub open spec fn recorded(g: Seq<(Seq<char>, Track)>, m: Reading, cell: Seq<char>) -> Seq<
    (Seq<char>, Track),
> {
    json::put(g, m.id, extended(json::lookup(g, m.id), m, cell))
}

/// A group with the metrics of one more run in `cell`.
pub open spec fn absorbed(
    g: Seq<(Seq<char>, Track)>,
    ms: Seq<Reading>,
    cell: Seq<char>,
) -> Seq<(Seq<char>, Track)>
    decreases ms.len(),
{
    if ms.len() == 0 {
        g
    } else {
        recorded(absorbed(g, ms.drop_last(), cell), ms.last(), cell)
    }
}

/// The metrics of a group of runs.
pub open spec fn collected(runs: Seq<Json>) -> Seq<(Seq<char>, Track)>
    decreases runs.len(),
{
    if runs.len() == 0 {
        Seq::empty()
    } else {
        absorbed(
            collected(runs.drop_last()),
            reduce::reduced(runs.last()),
            cell(runs.last()),
        )
    }
}

impl Group {
    /// The ids are in order, none twice, each with its series.
    pub closed spec fn wf(&self) -> bool {
        self.ids@.len() == self.series@.len() && json::sorted(json::keys(self@))
    }

    fn new() -> (r: Group)
        ensures
            r.wf(),
            r@ == Seq::<(Seq<char>, Track)>::empty(),
    {
        let r = Group { ids: Vec::new(), series: Vec::new() };
        assert(r@ =~= Seq::empty());
        r
    }

    fn record(self, m: Metric, cell: &str) -> (r: Group)
        requires
            self.wf(),
        ensures
            r.wf(),
            r@ == recorded(self@, m@, cell@),
    {
        let ghost g = self@;
        let ghost next = extended(json::lookup(g, m@.id), m@, cell@);
        let Group { ids, series } = self;
        let ghost ids0 = ids@;
        let mut ids = ids;
        let mut series = series;
        let (i, found) = place(&ids, &m.id);
        proof {
            assert forall|j: int| 0 <= j < i implies #[trigger] g[j].0 != m@.id && !json::before(
                m@.id,
                g[j].0,
            ) by {
                assert(g[j].0 == ids0[j]@);
            }
            json::lemma_slot(g, m@.id);
            let s = json::slot(g, m@.id);
            assert(s == i) by {
                if s < i {
                    assert(g[s].0 == m@.id || json::before(m@.id, g[s].0));
                }
                if s > i {
                    assert(g[i as int].0 != m@.id && !json::before(m@.id, g[i as int].0));
                    assert(g[i as int].0 == ids0[i as int]@);
                }
            }
            json::lemma_lookup_slot(g, m@.id);
            json::lemma_put_at(g, m@.id, next, i as int);
            json::law_put_sorted(g, m@.id, next);
        }
        let Metric { id, value, contaminated, polarity } = m;
        if found {
            let old_series = series.remove(i);
            assert(old_series@ == g[i as int].1);
            let Series { samples, contaminated: was_bad, polarity: kept, cells } = old_series;
            let mut samples = samples;
            let mut cells = cells;
            let ghost samples0 = samples@;
            samples.push(value);
            assert(amounts(samples@) =~= amounts(samples0).push(value@));
            if !text::is_among(&cells, cell) {
                let ghost cells0 = cells@;
                cells.push(cell.to_owned());
                assert(text::texts(cells@) =~= text::texts(cells0).push(cell@));
            }
            let now = Series { samples, contaminated: was_bad || contaminated, polarity: kept, cells };
            assert(now@ == next);
            series.insert(i, now);
            let r = Group { ids, series };
            assert(r@ =~= g.take(i as int) + seq![(m@.id, next)] + g.skip(i + 1));
            r
        } else {
            let mut samples: Vec<Quantity> = Vec::new();
            samples.push(value);
            let mut cells: Vec<String> = Vec::new();
            cells.push(cell.to_owned());
            let now = Series { samples, contaminated, polarity, cells };
            assert(amounts(now.samples@) =~= seq![value@]);
            assert(text::texts(now.cells@) =~= seq![cell@]);
            assert(now@ == next);
            ids.insert(i, id);
            series.insert(i, now);
            let r = Group { ids, series };
            assert(r@ =~= g.take(i as int) + seq![(m@.id, next)] + g.skip(i as int));
            r
        }
    }

    pub fn len(&self) -> (r: usize)
        ensures
            r == self@.len(),
    {
        self.ids.len()
    }

    fn id(&self, i: usize) -> (r: &str)
        requires
            self.wf(),
            i < self@.len(),
        ensures
            r@ == self@[i as int].0,
    {
        self.ids[i].as_str()
    }

    fn series_at(&self, i: usize) -> (r: &Series)
        requires
            self.wf(),
            i < self@.len(),
        ensures
            r@ == self@[i as int].1,
    {
        &self.series[i]
    }

    fn get(&self, id: &str) -> (r: Option<&Series>)
        requires
            self.wf(),
        ensures
            match r {
                Some(s) => json::lookup(self@, id@) == Some(s@),
                None => json::lookup(self@, id@) is None,
            },
    {
        let mut i: usize = 0;
        while i < self.ids.len()
            invariant
                i <= self.ids@.len(),
                self.wf(),
                forall|j: int| 0 <= j < i ==> #[trigger] self@[j].0 != id@,
            decreases self.ids@.len() - i,
        {
            assert(self@[i as int].0 == self.ids@[i as int]@);
            if text::same(&self.ids[i], id) {
                proof {
                    json::lemma_lookup_at(self@, id@, i as int);
                }
                return Some(&self.series[i]);
            }
            i += 1;
        }
        proof {
            json::lemma_lookup_at(self@, id@, i as int);
        }
        None
    }
}

/// The metrics of a group of runs.
pub fn collect(runs: &[Doc]) -> (r: Group)
    ensures
        r.wf(),
        r@ == collected(json::jsons(runs@)),
{
    let ghost all = json::jsons(runs@);
    let mut g = Group::new();
    assert(all.take(0) =~= Seq::empty());
    let mut i: usize = 0;
    while i < runs.len()
        invariant
            i <= runs@.len(),
            all == json::jsons(runs@),
            g.wf(),
            g@ == collected(all.take(i as int)),
        decreases runs@.len() - i,
    {
        assert(all.take(i + 1).drop_last() =~= all.take(i as int));
        assert(all.take(i + 1).last() == runs@[i as int]@);
        let ghost base = g@;
        let here = params_hash(&runs[i]);
        let mut ms = reduce::reduce(&runs[i]);
        let ghost rs = reduce::readings(ms@);
        assert(rs.take(0) =~= Seq::empty());
        let ghost mut n: int = 0;
        while ms.len() > 0
            invariant
                0 <= n <= rs.len(),
                reduce::readings(ms@) == rs.skip(n),
                g.wf(),
                g@ == absorbed(base, rs.take(n), here@),
            decreases ms@.len(),
        {
            let ghost was = ms@;
            let m = ms.remove(0);
            proof {
                assert(reduce::readings(was).len() == was.len());
                assert(n < rs.len());
                assert(reduce::readings(was)[0] == m@);
                assert(rs.skip(n)[0] == rs[n]);
                assert(ms@ =~= was.skip(1));
                assert forall|j: int| 0 <= j < ms@.len() implies #[trigger] reduce::readings(ms@)[j]
                    == rs.skip(n + 1)[j] by {
                    assert(reduce::readings(was)[j + 1] == rs.skip(n)[j + 1]);
                }
                assert(reduce::readings(ms@) =~= rs.skip(n + 1));
                assert(rs.take(n + 1).drop_last() =~= rs.take(n));
                assert(rs.take(n + 1).last() == m@);
            }
            g = g.record(m, &here);
            proof {
                n = n + 1;
            }
        }
        assert(rs.skip(n).len() == 0);
        assert(rs.take(n) =~= rs);
        i += 1;
    }
    assert(all.take(all.len() as int) =~= all);
    g
}

// ---------------------------------------------------------------------------
// What is compared
// ---------------------------------------------------------------------------

/// One metric of two groups that are compared.
#[derive(Debug)]
pub struct Pair {
    pub id: String,
    pub a: Vec<Quantity>,
    pub b: Vec<Quantity>,
    pub ignored: bool,
    pub contaminated: bool,
    pub polarity: Polarity,
    pub cells: Vec<String>,
}

/// A `Pair` as a mathematical value.
pub struct Match {
    pub id: Seq<char>,
    pub a: Seq<Amount>,
    pub b: Seq<Amount>,
    pub ignored: bool,
    pub contaminated: bool,
    pub polarity: Polarity,
    pub cells: Seq<Seq<char>>,
}

impl View for Pair {
    type V = Match;

    open spec fn view(&self) -> Match {
        Match {
            id: self.id@,
            a: amounts(self.a@),
            b: amounts(self.b@),
            ignored: self.ignored,
            contaminated: self.contaminated,
            polarity: self.polarity,
            cells: text::texts(self.cells@),
        }
    }
}

pub open spec fn pair_views(s: Seq<Pair>) -> Seq<Match> {
    s.map_values(|p: Pair| p@)
}

/// Whether one of the patterns stands in a metric's id.
pub open spec fn ignores(patterns: Seq<Seq<char>>, id: Seq<char>) -> bool {
    exists|i: int| 0 <= i < patterns.len() && text::has_part(id, #[trigger] patterns[i])
}

/// What is compared of the first `n` metrics of `a`: those that `b` has too,
/// with at least two samples on each side.
pub open spec fn matches_of(
    a: Seq<(Seq<char>, Track)>,
    b: Seq<(Seq<char>, Track)>,
    patterns: Seq<Seq<char>>,
    n: nat,
) -> Seq<Match>
    decreases n,
{
    if n == 0 || n > a.len() {
        Seq::empty()
    } else {
        let before = matches_of(a, b, patterns, (n - 1) as nat);
        let (id, x) = a[n - 1];
        match json::lookup(b, id) {
            Some(y) if x.samples.len() >= 2 && y.samples.len() >= 2 => before.push(
                Match {
                    id,
                    a: x.samples,
                    b: y.samples,
                    ignored: ignores(patterns, id),
                    contaminated: x.contaminated || y.contaminated,
                    polarity: x.polarity,
                    cells: x.cells,
                },
            ),
            _ => before,
        }
    }
}

fn is_ignored(patterns: &Vec<String>, id: &str) -> (r: bool)
    ensures
        r == ignores(text::texts(patterns@), id@),
{
    let ghost ps = text::texts(patterns@);
    let mut i: usize = 0;
    while i < patterns.len()
        invariant
            i <= patterns@.len(),
            ps == text::texts(patterns@),
            forall|j: int| 0 <= j < i ==> !text::has_part(id@, #[trigger] ps[j]),
        decreases patterns@.len() - i,
    {
        assert(ps[i as int] == patterns@[i as int]@);
        if text::contains(id, &patterns[i]) {
            return true;
        }
        i += 1;
    }
    false
}

fn copy_quantities(v: &Vec<Quantity>) -> (r: Vec<Quantity>)
    ensures
        amounts(r@) == amounts(v@),
{
    let mut out: Vec<Quantity> = Vec::new();
    let mut i: usize = 0;
    while i < v.len()
        invariant
            i <= v@.len(),
            amounts(out@) =~= amounts(v@).take(i as int),
        decreases v@.len() - i,
    {
        let ghost was = out@;
        out.push(v[i].clone());
        assert(amounts(out@) =~= amounts(was).push(v@[i as int]@));
        i += 1;
    }
    out
}

fn pairs(a: &Group, b: &Group, patterns: &Vec<String>) -> (r: Vec<Pair>)
    requires
        a.wf(),
        b.wf(),
    ensures
        pair_views(r@) == matches_of(a@, b@, text::texts(patterns@), a@.len()),
{
    let ghost ps = text::texts(patterns@);
    let mut out: Vec<Pair> = Vec::new();
    assert(pair_views(out@) =~= Seq::empty());
    let mut i: usize = 0;
    while i < a.len()
        invariant
            i <= a@.len(),
            a.wf(),
            b.wf(),
            ps == text::texts(patterns@),
            pair_views(out@) == matches_of(a@, b@, ps, i as nat),
        decreases a@.len() - i,
    {
        let id = a.id(i);
        let x = a.series_at(i);
        if let Some(y) = b.get(id) {
            assert(x.samples@.len() == x@.samples.len());
            assert(y.samples@.len() == y@.samples.len());
            if x.samples.len() >= 2 && y.samples.len() >= 2 {
                let p = Pair {
                    id: id.to_owned(),
                    a: copy_quantities(&x.samples),
                    b: copy_quantities(&y.samples),
                    ignored: is_ignored(patterns, id),
                    contaminated: x.contaminated || y.contaminated,
                    polarity: x.polarity,
                    cells: text::copy_strings(&x.cells),
                };
                let ghost was = out@;
                out.push(p);
                assert(pair_views(out@) =~= pair_views(was).push(p@));
            }
        }
        i += 1;
    }
    out
}

// ---------------------------------------------------------------------------
// What a comparison means
// ---------------------------------------------------------------------------

/// Which way a metric moved.
#[derive(Debug, Clone, Copy, PartialEq, Eq, Structural)]
pub enum Sign {
    Down,
    Flat,
    Up,
}

/// The numbers of one comparison, and how they stand to the thresholds.
#[derive(Debug)]
pub struct Comparison {
    pub mean_a: Doc,
    pub mean_b: Doc,
    pub delta: Doc,
    pub p: Doc,
    pub cov: Doc,
    pub significant: bool,
    pub strong: bool,
    pub noisy: bool,
    pub sign: Sign,
}

#[derive(Debug, Clone, Copy, PartialEq, Eq, Structural)]
pub enum Status {
    Ignored,
    Contaminated,
    Stable,
    Regressed,
    Improved,
    Changed,
}

/// Whether a move is for the worse; nothing where the metric has no direction.
pub open spec fn worse(polarity: Polarity, sign: Sign) -> Option<bool> {
    match polarity {
        Polarity::LowerBetter => Some(sign == Sign::Up),
        Polarity::HigherBetter => Some(sign == Sign::Down),
        Polarity::Unknown => None,
    }
}

pub fn bad_direction(polarity: Polarity, sign: Sign) -> (r: Option<bool>)
    ensures
        r == worse(polarity, sign),
{
    match polarity {
        Polarity::LowerBetter => Some(sign == Sign::Up),
        Polarity::HigherBetter => Some(sign == Sign::Down),
        Polarity::Unknown => None,
    }
}

/// What a comparison says of a metric. A move counts only where it is
/// significant, large enough and above the noise.
pub open spec fn judged(
    ignored: bool,
    contaminated: bool,
    polarity: Polarity,
    significant: bool,
    strong: bool,
    noisy: bool,
    sign: Sign,
) -> Status {
    if ignored {
        Status::Ignored
    } else if contaminated {
        Status::Contaminated
    } else if !significant || !strong || noisy {
        Status::Stable
    } else {
        match worse(polarity, sign) {
            Some(true) => Status::Regressed,
            Some(false) => Status::Improved,
            None => Status::Changed,
        }
    }
}

pub open spec fn status(m: Match, c: Comparison) -> Status {
    judged(m.ignored, m.contaminated, m.polarity, c.significant, c.strong, c.noisy, c.sign)
}

pub fn status_of(p: &Pair, c: &Comparison) -> (r: Status)
    ensures
        r == status(p@, *c),
{
    if p.ignored {
        Status::Ignored
    } else if p.contaminated {
        Status::Contaminated
    } else if !c.significant || !c.strong || c.noisy {
        Status::Stable
    } else {
        match bad_direction(p.polarity, c.sign) {
            Some(true) => Status::Regressed,
            Some(false) => Status::Improved,
            None => Status::Changed,
        }
    }
}

pub open spec fn status_text(s: Status) -> Seq<char> {
    match s {
        Status::Ignored => "ignored"@,
        Status::Contaminated => "contaminated"@,
        Status::Stable => "stable"@,
        Status::Regressed => "regressed"@,
        Status::Improved => "improved"@,
        Status::Changed => "changed"@,
    }
}

fn status_name(s: Status) -> (r: &'static str)
    ensures
        r@ == status_text(s),
{
    match s {
        Status::Ignored => "ignored",
        Status::Contaminated => "contaminated",
        Status::Stable => "stable",
        Status::Regressed => "regressed",
        Status::Improved => "improved",
        Status::Changed => "changed",
    }
}

/// A metric without a direction never counts as a regression.
pub proof fn law_no_direction_no_regression(m: Match, c: Comparison)
    requires
        m.polarity == Polarity::Unknown,
    ensures
        status(m, c) != Status::Regressed,
{
}

/// A metric that is ignored or contaminated never counts as a regression.
pub proof fn law_untrusted_no_regression(m: Match, c: Comparison)
    requires
        m.ignored || m.contaminated,
    ensures
        status(m, c) != Status::Regressed,
        status(m, c) != Status::Improved,
{
}

// ---------------------------------------------------------------------------
// The overall outcome of an A/B comparison
// ---------------------------------------------------------------------------

/// What a comparison came to.
#[derive(Debug)]
pub struct Findings {
    pub verdict: String,
    pub per_metric: Object,
    pub notes: Vec<String>,
    pub detail: Vec<Doc>,
}

/// `Findings` as a mathematical value.
pub struct Finding {
    pub verdict: Seq<char>,
    pub per_metric: Seq<(Seq<char>, Json)>,
    pub notes: Seq<Seq<char>>,
    pub detail: Seq<Json>,
}

impl View for Findings {
    type V = Finding;

    open spec fn view(&self) -> Finding {
        Finding {
            verdict: self.verdict@,
            per_metric: self.per_metric@,
            notes: text::texts(self.notes@),
            detail: json::jsons(self.detail@),
        }
    }
}

/// The entry of a metric in an outcome.
pub open spec fn entry(delta: Json, p: Json, significant: bool, noisy: bool) -> Json {
    Json::Obj(
        json::put(
            json::put(
                json::put(
                    json::put(json::none(), "delta"@, delta),
                    "p"@,
                    p,
                ),
                "significant"@,
                Json::Bool(significant),
            ),
            "noisy"@,
            Json::Bool(noisy),
        ),
    )
}

fn entry_value(delta: &Doc, p: &Doc, significant: bool, noisy: bool) -> (r: Doc)
    ensures
        r@ == entry(delta@, p@, significant, noisy),
{
    Doc::Object(
        Object::new().with("delta", delta.clone()).with("p", p.clone()).with(
            "significant",
            Doc::Bool(significant),
        ).with("noisy", Doc::Bool(noisy)),
    )
}

/// The outcome's entries for the first `n` comparisons.
pub open spec fn entries(ms: Seq<Match>, cs: Seq<Comparison>, n: nat) -> Seq<(Seq<char>, Json)>
    decreases n,
{
    if n == 0 {
        Seq::empty()
    } else {
        let c = cs[n - 1];
        json::put(
            entries(ms, cs, (n - 1) as nat),
            ms[n - 1].id,
            entry(c.delta@, c.p@, c.significant, c.noisy),
        )
    }
}

/// The report's line for a comparison.
pub open spec fn detail_line(m: Match, c: Comparison) -> Json {
    Json::Obj(
        json::put(
            json::put(
                json::put(
                    json::put(
                        json::put(
                            json::put(
                                json::put(
                                    json::put(
                                        json::put(
                                            json::put(json::none(), "id"@, Json::Str(m.id)),
                                            "status"@,
                                            Json::Str(status_text(status(m, c))),
                                        ),
                                        "mean_a"@,
                                        c.mean_a@,
                                    ),
                                    "mean_b"@,
                                    c.mean_b@,
                                ),
                                "rel_delta"@,
                                c.delta@,
                            ),
                            "p"@,
                            c.p@,
                        ),
                        "cov"@,
                        c.cov@,
                    ),
                    "n_a"@,
                    Json::Int(m.a.len() as int),
                ),
                "n_b"@,
                Json::Int(m.b.len() as int),
            ),
            "cells"@,
            json::strs(m.cells),
        ),
    )
}

fn detail_value(p: &Pair, c: &Comparison) -> (r: Doc)
    ensures
        r@ == detail_line(p@, *c),
{
    assert(p@.a.len() == p.a@.len());
    assert(p@.b.len() == p.b@.len());
    Doc::Object(
        Object::new().with("id", json::string(&p.id)).with(
            "status",
            json::string(status_name(status_of(p, c))),
        ).with("mean_a", c.mean_a.clone()).with("mean_b", c.mean_b.clone()).with(
            "rel_delta",
            c.delta.clone(),
        ).with("p", c.p.clone()).with("cov", c.cov.clone()).with(
            "n_a",
            json::uint(p.a.len() as u64),
        ).with("n_b", json::uint(p.b.len() as u64)).with("cells", json::strings(&p.cells)),
    )
}

/// The report's lines.
pub open spec fn detail_lines(ms: Seq<Match>, cs: Seq<Comparison>) -> Seq<Json> {
    Seq::new(ms.len(), |i: int| detail_line(ms[i], cs[i]))
}

/// Whether one of the metrics has the status `s`.
pub open spec fn any(ms: Seq<Match>, cs: Seq<Comparison>, s: Status) -> bool {
    exists|i: int| 0 <= i < ms.len() && status(#[trigger] ms[i], cs[i]) == s
}

/// The metrics that regressed in a single parameterisation cell, among the
/// first `n`.
pub open spec fn single_cell(ms: Seq<Match>, cs: Seq<Comparison>, n: nat) -> Seq<Seq<char>>
    decreases n,
{
    if n == 0 {
        Seq::empty()
    } else {
        let before = single_cell(ms, cs, (n - 1) as nat);
        if status(ms[n - 1], cs[n - 1]) == Status::Regressed && ms[n - 1].cells.len() < 2 {
            before.push(ms[n - 1].id)
        } else {
            before
        }
    }
}

/// The overall outcome: contaminated where a compared metric cannot be trusted, or
/// else fail where one regressed, or else pass.
pub open spec fn verdict(ms: Seq<Match>, cs: Seq<Comparison>) -> Seq<char> {
    if any(ms, cs, Status::Contaminated) {
        "contaminated"@
    } else if any(ms, cs, Status::Regressed) {
        "fail"@
    } else {
        "pass"@
    }
}

/// What is noted of regressions in a single parameterisation cell.
pub open spec fn single_cell_note(ids: Seq<Seq<char>>) -> Seq<char> {
    "regressions in a single parameterisation cell (possible noise): "@ + text::debug_list(ids)
        + "; verdict is fail but confirm across cells or pass --strict-single-cell to treat as definitive"@
}

/// What the comparisons come to.
pub open spec fn concluded(
    ms: Seq<Match>,
    cs: Seq<Comparison>,
    notes: Seq<Seq<char>>,
    strict: bool,
) -> Finding {
    let v = verdict(ms, cs);
    let singles = single_cell(ms, cs, ms.len());
    Finding {
        verdict: v,
        per_metric: entries(ms, cs, ms.len()),
        notes: if v == "fail"@ && singles.len() > 0 && !strict {
            notes.push(single_cell_note(singles))
        } else {
            notes
        },
        detail: detail_lines(ms, cs),
    }
}

pub proof fn lemma_verdict_names()
    ensures
        "contaminated"@ != "fail"@,
        "pass"@ != "fail"@,
        "contaminated"@ != "pass"@,
{
    reveal_strlit("contaminated");
    reveal_strlit("fail");
    reveal_strlit("pass");
    assert("contaminated"@[0] == 'c');
    assert("fail"@[0] == 'f');
    assert("pass"@[0] == 'p');
}

/// What the comparisons come to.
pub fn conclude(pairs: &Vec<Pair>, cs: &Vec<Comparison>, notes: Vec<String>, strict: bool) -> (r:
    Findings)
    requires
        pairs@.len() == cs@.len(),
    ensures
        r@ == concluded(pair_views(pairs@), cs@, text::texts(notes@), strict),
{
    let ghost ms = pair_views(pairs@);
    let mut per_metric = Object::new();
    let mut detail: Vec<Doc> = Vec::new();
    let mut singles: Vec<String> = Vec::new();
    let mut contaminated = false;
    let mut regressed = false;
    assert(text::texts(singles@) =~= Seq::empty());
    let mut i: usize = 0;
    while i < pairs.len()
        invariant
            i <= pairs@.len(),
            pairs@.len() == cs@.len(),
            ms == pair_views(pairs@),
            per_metric@ == entries(ms, cs@, i as nat),
            json::jsons(detail@) =~= detail_lines(ms, cs@).take(i as int),
            text::texts(singles@) == single_cell(ms, cs@, i as nat),
            contaminated == exists|j: int|
                0 <= j < i && status(#[trigger] ms[j], cs@[j]) == Status::Contaminated,
            regressed == exists|j: int|
                0 <= j < i && status(#[trigger] ms[j], cs@[j]) == Status::Regressed,
        decreases pairs@.len() - i,
    {
        let p = &pairs[i];
        let c = &cs[i];
        assert(ms[i as int] == p@);
        let s = status_of(p, c);
        if s == Status::Contaminated {
            contaminated = true;
        }
        if s == Status::Regressed {
            regressed = true;
            assert(p.cells@.len() == p@.cells.len());
            if p.cells.len() < 2 {
                let ghost was = singles@;
                singles.push(p.id.clone());
                assert(text::texts(singles@) =~= text::texts(was).push(p.id@));
            }
        }
        per_metric = per_metric.with(&p.id, entry_value(&c.delta, &c.p, c.significant, c.noisy));
        let ghost was = detail@;
        detail.push(detail_value(p, c));
        assert(json::jsons(detail@) =~= json::jsons(was).push(detail_line(ms[i as int], cs@[i as int])));
        i += 1;
    }
    proof {
        lemma_verdict_names();
    }
    let mut notes = notes;
    let verdict = if contaminated {
        "contaminated".to_owned()
    } else if regressed {
        if singles.len() > 0 && !strict {
            let mut m = "regressions in a single parameterisation cell (possible noise): ".to_owned();
            m.append(&text::debug_strings(&singles));
            m.append(
                "; verdict is fail but confirm across cells or pass --strict-single-cell to treat as definitive",
            );
            let ghost was = notes@;
            notes.push(m);
            assert(text::texts(notes@) =~= text::texts(was).push(m@));
        }
        "fail".to_owned()
    } else {
        "pass".to_owned()
    };
    assert(text::texts(singles@).len() == singles@.len());
    assert(detail_lines(ms, cs@).take(ms.len() as int) =~= detail_lines(ms, cs@));
    Findings { verdict, per_metric, notes, detail }
}

/// The document that the comparator returns.
pub open spec fn document(f: Finding, mode: Seq<char>, overhead: Option<Json>) -> Json {
    let outcome = json::put(
        json::put(
            json::put(json::none(), "verdict"@, Json::Str(f.verdict)),
            "per_metric"@,
            Json::Obj(f.per_metric),
        ),
        "notes"@,
        json::strs(f.notes),
    );
    let report = json::put(
        json::put(json::none(), "mode"@, Json::Str(mode)),
        "detail"@,
        Json::Arr(f.detail),
    );
    let full = match overhead {
        Some(o) => json::put(report, "overhead"@, o),
        None => report,
    };
    Json::Obj(
        json::put(json::put(json::none(), "outcome"@, Json::Obj(outcome)), "report"@, Json::Obj(full)),
    )
}

fn document_value(f: Findings, mode: &str, overhead: Option<Doc>) -> (r: Doc)
    ensures
        r@ == document(
            f@,
            mode@,
            match overhead {
                Some(o) => Some(o@),
                None => None,
            },
        ),
{
    let Findings { verdict, per_metric, notes, detail } = f;
    let outcome = Object::new().with("verdict", Doc::String(verdict)).with(
        "per_metric",
        Doc::Object(per_metric),
    ).with("notes", json::strings(&notes));
    let report = Object::new().with("mode", json::string(mode)).with("detail", json::array(detail));
    let full = match overhead {
        Some(o) => report.with("overhead", o),
        None => report,
    };
    Doc::Object(
        Object::new().with("outcome", Doc::Object(outcome)).with("report", Doc::Object(full)),
    )
}

/// Why a comparison that compared nothing is refused.
pub open spec fn nothing_compared(a: nat, b: nat) -> Seq<char> {
    "no metric was comparable: no series appears in both groups with at least two samples per group (A has "@
        + text::decimal(a) + " series, B has "@ + text::decimal(b)
        + "). A comparison this small cannot be gated; add more repeats per group."@
}

/// Whether `judge` may answer `c` of the metric `m`.
pub open spec fn answer<F: Fn(&Pair) -> Comparison>(judge: F, m: Match, c: Comparison) -> bool {
    exists|p: Pair| p@ == m && #[trigger] call_ensures(judge, (&p,), c)
}

/// Whether `judge` may answer the comparisons `cs` of the metrics `ms`, each
/// looked at on its own.
pub open spec fn answered<F: Fn(&Pair) -> Comparison>(
    judge: F,
    ms: Seq<Match>,
    cs: Seq<Comparison>,
) -> bool {
    cs.len() == ms.len() && forall|i: int|
        0 <= i < cs.len() ==> answer(judge, ms[i], #[trigger] cs[i])
}

/// What an A/B comparison compares.
pub open spec fn compared(a: Seq<Json>, b: Seq<Json>, patterns: Seq<Seq<char>>) -> Seq<Match> {
    matches_of(collected(a), collected(b), patterns, collected(a).len())
}

/// Compare two groups of runs, metric by metric. A comparison that compared
/// nothing is an error, not a pass.
fn ab_findings<F: Fn(&Pair) -> Comparison>(a: &[Doc], b: &[Doc], cfg: &Config, judge: &F) -> (r:
    Result<Findings, String>)
    requires
        forall|p: &Pair| call_requires(*judge, (p,)),
    ensures
        ({
            let x = json::jsons(a@);
            let y = json::jsons(b@);
            let ms = compared(x, y, text::texts(cfg.ignore@));
            match validated(x, y, cfg.allow_ungraded) {
                Err(e) => r is Err && r->Err_0@ == e,
                Ok(notes) => if ms.len() == 0 {
                    r is Err && r->Err_0@ == nothing_compared(
                        collected(x).len(),
                        collected(y).len(),
                    )
                } else {
                    r is Ok && exists|cs: Seq<Comparison>| #[trigger]
                        answered(*judge, ms, cs) && r->Ok_0@ == concluded(
                            ms,
                            cs,
                            notes,
                            cfg.strict_single_cell,
                        )
                },
            }
        }),
{
    let notes = match validate(a, b, cfg.allow_ungraded) {
        Ok(n) => n,
        Err(e) => {
            return Err(e);
        },
    };
    let ga = collect(a);
    let gb = collect(b);
    let ps = pairs(&ga, &gb, &cfg.ignore);
    let ghost ms = pair_views(ps@);
    if ps.len() == 0 {
        let mut m = "no metric was comparable: no series appears in both groups with at least two samples per group (A has ".to_owned();
        m.append(&text::dec(ga.len() as u64));
        m.append(" series, B has ");
        m.append(&text::dec(gb.len() as u64));
        m.append("). A comparison this small cannot be gated; add more repeats per group.");
        return Err(m);
    }
    let mut cs: Vec<Comparison> = Vec::new();
    let mut i: usize = 0;
    while i < ps.len()
        invariant
            i <= ps@.len(),
            ms == pair_views(ps@),
            cs@.len() == i,
            forall|p: &Pair| call_requires(*judge, (p,)),
            forall|j: int| 0 <= j < i ==> answer(*judge, ms[j], #[trigger] cs@[j]),
        decreases ps@.len() - i,
    {
        let c = (*judge)(&ps[i]);
        let ghost was = cs@;
        cs.push(c);
        proof {
            assert(ms[i as int] == ps@[i as int]@);
            assert(answer(*judge, ms[i as int], c));
            assert forall|j: int| 0 <= j < i + 1 implies answer(
                *judge,
                ms[j],
                #[trigger] cs@[j],
            ) by {
                if j < i {
                    assert(cs@[j] == was[j]);
                }
            }
        }
        i += 1;
    }
    assert(answered(*judge, ms, cs@));
    Ok(conclude(&ps, &cs, notes, cfg.strict_single_cell))
}

/// The view of a comparison's result.
pub open spec fn told(r: Result<Doc, String>) -> Result<Json, Seq<char>> {
    match r {
        Ok(d) => Ok(d@),
        Err(e) => Err(e@),
    }
}

/// Why two groups give no comparison: they may not be compared, or they have no
/// metric in common.
pub open spec fn not_compared(x: Seq<Json>, y: Seq<Json>, cfg: Config) -> Option<Seq<char>> {
    match validated(x, y, cfg.allow_ungraded) {
        Err(e) => Some(e),
        Ok(_) => if compared(x, y, text::texts(cfg.ignore@)).len() == 0 {
            Some(nothing_compared(collected(x).len(), collected(y).len()))
        } else {
            None
        },
    }
}

/// The findings of comparing two groups, where `cs` is what was answered of
/// their metrics.
pub open spec fn found(x: Seq<Json>, y: Seq<Json>, cfg: Config, cs: Seq<Comparison>) -> Finding {
    concluded(
        compared(x, y, text::texts(cfg.ignore@)),
        cs,
        validated(x, y, cfg.allow_ungraded)->Ok_0,
        cfg.strict_single_cell,
    )
}

/// Whether an A/B comparison by a judge may give a result.
pub open spec fn ab_gave<F: Fn(&Pair) -> Comparison>(
    judge: F,
    x: Seq<Json>,
    y: Seq<Json>,
    cfg: Config,
    r: Result<Json, Seq<char>>,
) -> bool {
    match not_compared(x, y, cfg) {
        Some(e) => r == Err::<Json, Seq<char>>(e),
        None => exists|cs: Seq<Comparison>| #[trigger]
            answered(judge, compared(x, y, text::texts(cfg.ignore@)), cs) && r == Ok::<
                Json,
                Seq<char>,
            >(document(found(x, y, cfg, cs), "ab_permutation"@, None)),
    }
}

/// Compare two groups of runs, metric by metric. A comparison that compared
/// nothing is an error, not a pass.
pub fn ab<F: Fn(&Pair) -> Comparison>(a: &[Doc], b: &[Doc], cfg: &Config, judge: F) -> (r: Result<
    Doc,
    String,
>)
    requires
        forall|p: &Pair| call_requires(judge, (p,)),
    ensures
        ab_gave(judge, json::jsons(a@), json::jsons(b@), *cfg, told(r)),
{
    match ab_findings(a, b, cfg, &judge) {
        Ok(f) => Ok(document_value(f, "ab_permutation", None)),
        Err(e) => Err(e),
    }
}

/// The overall outcome is fail just where a metric regressed and none is contaminated;
/// it is contaminated just where one is; otherwise it is pass.
pub proof fn law_verdict(ms: Seq<Match>, cs: Seq<Comparison>)
    ensures
        verdict(ms, cs) == "contaminated"@ <==> any(ms, cs, Status::Contaminated),
        verdict(ms, cs) == "fail"@ <==> any(ms, cs, Status::Regressed) && !any(
            ms,
            cs,
            Status::Contaminated,
        ),
        verdict(ms, cs) == "pass"@ <==> !any(ms, cs, Status::Regressed) && !any(
            ms,
            cs,
            Status::Contaminated,
        ),
{
    lemma_verdict_names();
}

/// Two series that differ in the value of one label alone are two metrics.
pub proof fn law_label_values_tell_series_apart(
    s: Json,
    t: Json,
    k: Seq<char>,
    x: Seq<char>,
    y: Seq<char>,
)
    requires
        json::str_field(s, "key"@) == json::str_field(t, "key"@),
        reduce::text_or_empty(s, "name"@) == reduce::text_or_empty(t, "name"@),
        json::member(s, "labels"@) == Json::Obj(seq![(k, Json::Str(x))]),
        json::member(t, "labels"@) == Json::Obj(seq![(k, Json::Str(y))]),
        x != y,
    ensures
        reduce::series_id(s) != reduce::series_id(t),
{
    let e = seq![(k, Json::Str(x))];
    let f = seq![(k, Json::Str(y))];
    reveal_with_fuel(reduce::label_suffix, 2);
    let named = match json::str_field(s, "key"@) {
        Some(q) => reduce::text_or_empty(s, "name"@) + "|"@ + q,
        None => reduce::text_or_empty(s, "name"@),
    };
    let prefix = named + "|"@ + k + "="@;
    assert(reduce::series_id(s) =~= prefix + x);
    assert(reduce::series_id(t) =~= prefix + y);
    if prefix + x == prefix + y {
        assert(x =~= (prefix + x).skip(prefix.len() as int));
        assert(y =~= (prefix + y).skip(prefix.len() as int));
    }
}

// ---------------------------------------------------------------------------
// Drift
// ---------------------------------------------------------------------------

/// The numbers of one drift test, and how they stand to the thresholds.
#[derive(Debug)]
pub struct Shift {
    pub base_mean: Doc,
    pub base_std: Doc,
    pub cand_mean: Doc,
    pub delta: Doc,
    pub slope: Doc,
    pub slope_stderr: Doc,
    pub level_shift: bool,
    pub strong: bool,
    pub trending: bool,
    pub sign: Sign,
}

/// Whether the level moved out of the baseline's band by enough to matter.
pub open spec fn drifted(c: Shift) -> bool {
    c.level_shift && c.strong
}

/// Whether it moved for the worse.
pub open spec fn drifted_badly(m: Match, c: Shift) -> bool {
    drifted(c) && worse(m.polarity, c.sign) == Some(true)
}

pub open spec fn drift_status(m: Match, c: Shift) -> Seq<char> {
    if drifted_badly(m, c) {
        "drift_bad"@
    } else if drifted(c) {
        "drift"@
    } else if c.trending {
        "trending"@
    } else {
        "stable"@
    }
}

pub open spec fn drift_entries(ms: Seq<Match>, cs: Seq<Shift>, n: nat) -> Seq<(Seq<char>, Json)>
    decreases n,
{
    if n == 0 {
        Seq::empty()
    } else {
        let c = cs[n - 1];
        json::put(
            drift_entries(ms, cs, (n - 1) as nat),
            ms[n - 1].id,
            entry(c.delta@, Json::Float("0.0"@), drifted(c), false),
        )
    }
}

pub open spec fn drift_line(m: Match, c: Shift) -> Json {
    Json::Obj(
        json::put(
            json::put(
                json::put(
                    json::put(
                        json::put(
                            json::put(
                                json::put(
                                    json::put(json::none(), "id"@, Json::Str(m.id)),
                                    "status"@,
                                    Json::Str(drift_status(m, c)),
                                ),
                                "base_mean"@,
                                c.base_mean@,
                            ),
                            "base_std"@,
                            c.base_std@,
                        ),
                        "cand_mean"@,
                        c.cand_mean@,
                    ),
                    "rel_delta"@,
                    c.delta@,
                ),
                "slope"@,
                c.slope@,
            ),
            "slope_stderr"@,
            c.slope_stderr@,
        ),
    )
}

/// What the drift tests come to: fail where a metric drifted for the worse,
/// pass otherwise.
pub open spec fn drift_concluded(ms: Seq<Match>, cs: Seq<Shift>) -> Finding {
    let bad = exists|i: int| 0 <= i < ms.len() && drifted_badly(#[trigger] ms[i], cs[i]);
    Finding {
        verdict: if bad {
            "fail"@
        } else {
            "pass"@
        },
        per_metric: drift_entries(ms, cs, ms.len()),
        notes: if bad {
            Seq::empty()
        } else {
            seq!["no bad-direction drift beyond band"@]
        },
        detail: Seq::new(ms.len(), |i: int| drift_line(ms[i], cs[i])),
    }
}

/// What the drift tests come to.
pub fn conclude_drift(pairs: &Vec<Pair>, cs: &Vec<Shift>) -> (r: Findings)
    requires
        pairs@.len() == cs@.len(),
    ensures
        r@ == drift_concluded(pair_views(pairs@), cs@),
{
    let ghost ms = pair_views(pairs@);
    let ghost lines = Seq::new(ms.len(), |i: int| drift_line(ms[i], cs@[i]));
    let mut per_metric = Object::new();
    let mut detail: Vec<Doc> = Vec::new();
    let mut bad = false;
    let mut i: usize = 0;
    while i < pairs.len()
        invariant
            i <= pairs@.len(),
            pairs@.len() == cs@.len(),
            ms == pair_views(pairs@),
            lines == Seq::new(ms.len(), |i: int| drift_line(ms[i], cs@[i])),
            per_metric@ == drift_entries(ms, cs@, i as nat),
            json::jsons(detail@) =~= lines.take(i as int),
            bad == exists|j: int| 0 <= j < i && drifted_badly(#[trigger] ms[j], cs@[j]),
        decreases pairs@.len() - i,
    {
        let p = &pairs[i];
        let c = &cs[i];
        assert(ms[i as int] == p@);
        let moved = c.level_shift && c.strong;
        let worsened = match bad_direction(p.polarity, c.sign) {
            Some(b) => b,
            None => false,
        };
        let status = if moved && worsened {
            bad = true;
            "drift_bad"
        } else if moved {
            "drift"
        } else if c.trending {
            "trending"
        } else {
            "stable"
        };
        let none = Doc::Num(json::Num::Float("0.0".to_owned()));
        per_metric = per_metric.with(&p.id, entry_value(&c.delta, &none, moved, false));
        let line = Doc::Object(
            Object::new().with("id", json::string(&p.id)).with("status", json::string(status)).with(
                "base_mean",
                c.base_mean.clone(),
            ).with("base_std", c.base_std.clone()).with("cand_mean", c.cand_mean.clone()).with(
                "rel_delta",
                c.delta.clone(),
            ).with("slope", c.slope.clone()).with("slope_stderr", c.slope_stderr.clone()),
        );
        let ghost was = detail@;
        detail.push(line);
        assert(json::jsons(detail@) =~= json::jsons(was).push(lines[i as int]));
        i += 1;
    }
    assert(lines.take(ms.len() as int) =~= lines);
    let mut notes: Vec<String> = Vec::new();
    if !bad {
        notes.push("no bad-direction drift beyond band".to_owned());
        assert(text::texts(notes@) =~= seq!["no bad-direction drift beyond band"@]);
    } else {
        assert(text::texts(notes@) =~= Seq::empty());
    }
    let verdict = if bad {
        "fail".to_owned()
    } else {
        "pass".to_owned()
    };
    Findings { verdict, per_metric, notes, detail }
}

/// The metrics that are not ignored.
pub open spec fn heeded(ms: Seq<Match>) -> Seq<Match>
    decreases ms.len(),
{
    if ms.len() == 0 {
        ms
    } else if ms.last().ignored {
        heeded(ms.drop_last())
    } else {
        heeded(ms.drop_last()).push(ms.last())
    }
}

fn drop_ignored(ps: Vec<Pair>) -> (r: Vec<Pair>)
    ensures
        pair_views(r@) == heeded(pair_views(ps@)),
    decreases ps@.len(),
{
    let ghost all = pair_views(ps@);
    let mut ps = ps;
    match ps.pop() {
        None => {
            assert(all =~= Seq::empty());
            assert(pair_views(ps@) =~= all);
            ps
        },
        Some(p) => {
            assert(all.drop_last() =~= pair_views(ps@));
            assert(all.last() == p@);
            let ignored = p.ignored;
            let mut kept = drop_ignored(ps);
            if !ignored {
                let ghost was = kept@;
                kept.push(p);
                assert(pair_views(kept@) =~= pair_views(was).push(p@));
            }
            kept
        },
    }
}

/// Why a drift test that tested nothing is refused.
pub open spec fn nothing_tested(a: nat, b: nat) -> Seq<char> {
    "no metric was comparable: no series appears in both baseline and candidate with at least two samples each (baseline has "@
        + text::decimal(a) + " series, candidate has "@ + text::decimal(b)
        + "). Add more samples per side."@
}

/// Whether `judge` may answer `c` of the metric `m`.
pub open spec fn shift_answer<F: Fn(&Pair) -> Shift>(judge: F, m: Match, c: Shift) -> bool {
    exists|p: Pair| p@ == m && #[trigger] call_ensures(judge, (&p,), c)
}

/// Whether `judge` may answer `cs` of the metrics `ms`, each looked at on its
/// own.
pub open spec fn shift_answered<F: Fn(&Pair) -> Shift>(
    judge: F,
    ms: Seq<Match>,
    cs: Seq<Shift>,
) -> bool {
    cs.len() == ms.len() && forall|i: int|
        0 <= i < cs.len() ==> shift_answer(judge, ms[i], #[trigger] cs[i])
}

/// Test a candidate trajectory against a baseline of the same host for drift. A
/// test that tested nothing is an error, not a pass.
pub fn drift<F: Fn(&Pair) -> Shift>(
    baseline: &[Doc],
    candidate: &[Doc],
    cfg: &Config,
    judge: F,
) -> (r: Result<Doc, String>)
    requires
        forall|p: &Pair| call_requires(judge, (p,)),
    ensures
        ({
            let x = json::jsons(baseline@);
            let y = json::jsons(candidate@);
            let ms = heeded(compared(x, y, text::texts(cfg.ignore@)));
            if let Some(e) = hosts_refused(x + y) {
                r is Err && r->Err_0@ == e
            } else if ms.len() == 0 {
                r is Err && r->Err_0@ == nothing_tested(collected(x).len(), collected(y).len())
            } else {
                r is Ok && exists|cs: Seq<Shift>| #[trigger]
                    shift_answered(judge, ms, cs) && r->Ok_0@ == document(
                        drift_concluded(ms, cs),
                        "longitudinal_drift"@,
                        None,
                    )
            }
        }),
{
    if let Some(m) = refuse_hosts(baseline, candidate) {
        return Err(m);
    }
    let gb = collect(baseline);
    let gc = collect(candidate);
    let ps = drop_ignored(pairs(&gb, &gc, &cfg.ignore));
    let ghost ms = pair_views(ps@);
    if ps.len() == 0 {
        let mut m = "no metric was comparable: no series appears in both baseline and candidate with at least two samples each (baseline has ".to_owned();
        m.append(&text::dec(gb.len() as u64));
        m.append(" series, candidate has ");
        m.append(&text::dec(gc.len() as u64));
        m.append("). Add more samples per side.");
        return Err(m);
    }
    let mut cs: Vec<Shift> = Vec::new();
    let mut i: usize = 0;
    while i < ps.len()
        invariant
            i <= ps@.len(),
            ms == pair_views(ps@),
            cs@.len() == i,
            forall|p: &Pair| call_requires(judge, (p,)),
            forall|j: int| 0 <= j < i ==> shift_answer(judge, ms[j], #[trigger] cs@[j]),
        decreases ps@.len() - i,
    {
        let c = judge(&ps[i]);
        let ghost was = cs@;
        cs.push(c);
        proof {
            assert(ms[i as int] == ps@[i as int]@);
            assert(shift_answer(judge, ms[i as int], c));
            assert forall|j: int| 0 <= j < i + 1 implies shift_answer(
                judge,
                ms[j],
                #[trigger] cs@[j],
            ) by {
                if j < i {
                    assert(cs@[j] == was[j]);
                }
            }
        }
        i += 1;
    }
    assert(shift_answered(judge, ms, cs@));
    Ok(document_value(conclude_drift(&ps, &cs), "longitudinal_drift", None))
}

/// A metric without a direction never makes a drift test fail.
pub proof fn law_no_direction_no_bad_drift(m: Match, c: Shift)
    requires
        m.polarity == Polarity::Unknown,
    ensures
        !drifted_badly(m, c),
{
}

// ---------------------------------------------------------------------------
// The subsystem triad
// ---------------------------------------------------------------------------

/// What probes cost, probe by probe in the order of their ids: the fractions of
/// a processor that were recorded, in the order of the records.
#[derive(Debug)]
pub struct Costs {
    ids: Vec<String>,
    fractions: Vec<Vec<json::Num>>,
}

impl View for Costs {
    type V = Seq<(Seq<char>, Seq<Json>)>;

    closed spec fn view(&self) -> Seq<(Seq<char>, Seq<Json>)> {
        Seq::new(
            self.ids@.len(),
            |i: int| (self.ids@[i]@, reduce::numbers(self.fractions@[i]@)),
        )
    }
}

/// Costs with one more record.
pub open spec fn costed(e: Seq<(Seq<char>, Seq<Json>)>, record: Json) -> Seq<
    (Seq<char>, Seq<Json>),
> {
    let id = reduce::text_or_empty(record, "probe_id"@);
    let fraction = reduce::number_or_zero(record, "steady_cpu_fraction"@);
    json::put(
        e,
        id,
        match json::lookup(e, id) {
            Some(f) => f.push(fraction),
            None => seq![fraction],
        },
    )
}

/// The costs that the records show.
pub open spec fn costs(records: Seq<Json>) -> Seq<(Seq<char>, Seq<Json>)>
    decreases records.len(),
{
    if records.len() == 0 {
        Seq::empty()
    } else {
        costed(costs(records.drop_last()), records.last())
    }
}

/// The probes that ran over budget, in the order of the records, none twice.
pub open spec fn over(records: Seq<Json>) -> Seq<Seq<char>>
    decreases records.len(),
{
    if records.len() == 0 {
        Seq::empty()
    } else {
        let before = over(records.drop_last());
        let id = reduce::text_or_empty(records.last(), "probe_id"@);
        if reduce::flag(records.last(), "over_budget"@) && !before.contains(id) {
            before.push(id)
        } else {
            before
        }
    }
}

/// The cost records of the runs, in order.
pub open spec fn cost_records(runs: Seq<Json>) -> Seq<Json>
    decreases runs.len(),
{
    if runs.len() == 0 {
        Seq::empty()
    } else {
        cost_records(runs.drop_last()) + json::items(runs.last(), "self_metrics"@)
    }
}

impl Costs {
    pub closed spec fn wf(&self) -> bool {
        self.ids@.len() == self.fractions@.len() && json::sorted(json::keys(self@))
    }

    fn new() -> (r: Costs)
        ensures
            r.wf(),
            r@ == costs(Seq::empty()),
    {
        let r = Costs { ids: Vec::new(), fractions: Vec::new() };
        assert(r@ =~= Seq::empty());
        r
    }

    fn record(self, record: &Doc) -> (r: Costs)
        requires
            self.wf(),
        ensures
            r.wf(),
            r@ == costed(self@, record@),
    {
        let ghost e = self@;
        let id = reduce::text_at(record, "probe_id");
        let fraction = reduce::number_else_zero(record, "steady_cpu_fraction");
        let ghost next = match json::lookup(e, id@) {
            Some(f) => f.push(fraction@),
            None => seq![fraction@],
        };
        let Costs { ids, fractions } = self;
        let ghost ids0 = ids@;
        let mut ids = ids;
        let mut fractions = fractions;
        let (i, found) = place(&ids, &id);
        proof {
            assert forall|j: int| 0 <= j < i implies #[trigger] e[j].0 != id@ && !json::before(
                id@,
                e[j].0,
            ) by {
                assert(e[j].0 == ids0[j]@);
            }
            json::lemma_slot(e, id@);
            let s = json::slot(e, id@);
            assert(s == i) by {
                if s < i {
                    assert(e[s].0 == id@ || json::before(id@, e[s].0));
                }
                if s > i {
                    assert(e[i as int].0 != id@ && !json::before(id@, e[i as int].0));
                    assert(e[i as int].0 == ids0[i as int]@);
                }
            }
            json::lemma_lookup_slot(e, id@);
            json::lemma_put_at(e, id@, next, i as int);
            json::law_put_sorted(e, id@, next);
        }
        if found {
            let mut f = fractions.remove(i);
            assert(reduce::numbers(f@) == e[i as int].1);
            f.push(fraction);
            assert(reduce::numbers(f@) =~= next);
            fractions.insert(i, f);
            let r = Costs { ids, fractions };
            assert(r@ =~= e.take(i as int) + seq![(id@, next)] + e.skip(i + 1));
            r
        } else {
            let mut f: Vec<json::Num> = Vec::new();
            f.push(fraction);
            assert(reduce::numbers(f@) =~= next);
            let ghost key = id@;
            ids.insert(i, id);
            fractions.insert(i, f);
            let r = Costs { ids, fractions };
            assert(r@ =~= e.take(i as int) + seq![(key, next)] + e.skip(i as int));
            r
        }
    }
}

/// The costs and the over-budget probes of a group of runs.
fn overheads(runs: &[Doc]) -> (r: (Costs, Vec<String>))
    ensures
        r.0.wf(),
        r.0@ == costs(cost_records(json::jsons(runs@))),
        text::texts(r.1@) == over(cost_records(json::jsons(runs@))),
{
    let ghost all = json::jsons(runs@);
    let ghost mut seen: Seq<Json> = Seq::empty();
    let mut c = Costs::new();
    let mut o: Vec<String> = Vec::new();
    assert(text::texts(o@) =~= Seq::empty());
    assert(all.take(0) =~= Seq::empty());
    let mut i: usize = 0;
    while i < runs.len()
        invariant
            i <= runs@.len(),
            all == json::jsons(runs@),
            seen == cost_records(all.take(i as int)),
            c.wf(),
            c@ == costs(seen),
            text::texts(o@) == over(seen),
        decreases runs@.len() - i,
    {
        assert(all.take(i + 1).drop_last() =~= all.take(i as int));
        assert(all.take(i + 1).last() == runs@[i as int]@);
        let ghost base = seen;
        let ghost records = json::items(runs@[i as int]@, "self_metrics"@);
        assert(base + records.take(0) =~= base);
        if let Some(x) = runs[i].get("self_metrics") {
            if let Some(v) = x.as_array() {
                assert(records == json::jsons(v@));
                let mut k: usize = 0;
                while k < v.len()
                    invariant
                        k <= v@.len(),
                        records == json::jsons(v@),
                        seen == base + records.take(k as int),
                        c.wf(),
                        c@ == costs(seen),
                        text::texts(o@) == over(seen),
                    decreases v@.len() - k,
                {
                    let ghost next = base + records.take(k + 1);
                    assert(next.drop_last() =~= seen);
                    assert(next.last() == v@[k as int]@);
                    let id = reduce::text_at(&v[k], "probe_id");
                    c = c.record(&v[k]);
                    if reduce::is_set(&v[k], "over_budget") && !text::is_among(&o, &id) {
                        let ghost was = o@;
                        let ghost name = id@;
                        o.push(id);
                        assert(text::texts(o@) =~= text::texts(was).push(name));
                    }
                    proof {
                        seen = next;
                    }
                    k += 1;
                }
                assert(records.take(v@.len() as int) =~= records);
            }
        }
        assert(seen =~= base + records);
        i += 1;
    }
    assert(all.take(all.len() as int) =~= all);
    (c, o)
}

/// The worst cost of each probe, `worst` being the largest of its fractions.
pub open spec fn worst_costs(e: Seq<(Seq<char>, Seq<Json>)>, worst: Seq<Json>, n: nat) -> Seq<
    (Seq<char>, Json),
>
    decreases n,
{
    if n == 0 {
        json::none()
    } else {
        json::put(worst_costs(e, worst, (n - 1) as nat), e[n - 1].0, worst[n - 1])
    }
}

/// The overhead section of a triad's report.
pub open spec fn overhead(worst: Seq<(Seq<char>, Json)>, over: Seq<Seq<char>>) -> Json {
    Json::Obj(
        json::put(
            json::put(
                json::put(
                    json::none(),
                    "verdict"@,
                    Json::Str(
                        if over.len() == 0 {
                            "pass"@
                        } else {
                            "fail"@
                        },
                    ),
                ),
                "worst_steady_cpu_fraction"@,
                Json::Obj(worst),
            ),
            "over_budget"@,
            json::strs(over),
        ),
    )
}

/// The findings of an A/B comparison with the overhead folded in: over budget
/// fails a comparison that is not contaminated.
pub open spec fn folded(f: Finding, over: Seq<Seq<char>>) -> Finding {
    if over.len() == 0 {
        f
    } else {
        Finding {
            verdict: if f.verdict == "contaminated"@ {
                f.verdict
            } else {
                "fail"@
            },
            notes: f.notes.push("subsystem overhead over budget; see report.overhead"@),
            ..f
        }
    }
}

/// What a probe costs of which nothing is known.
pub open spec fn no_cost() -> Json {
    Json::Float("0.0"@)
}

/// The largest of the first `n` fractions and of no cost, where `bs` says of each
/// whether it was above the largest before it.
pub open spec fn largest(fs: Seq<Json>, bs: Seq<bool>, n: nat) -> Json
    decreases n,
{
    if n == 0 {
        no_cost()
    } else if bs[n - 1] {
        fs[n - 1]
    } else {
        largest(fs, bs, (n - 1) as nat)
    }
}

/// Whether `above` may answer `b` of whether one number is above another.
pub open spec fn above_answer<G: Fn(&json::Num, &json::Num) -> bool>(
    above: G,
    x: Json,
    y: Json,
    b: bool,
) -> bool {
    exists|p: json::Num, q: json::Num|
        p@ == x && q@ == y && #[trigger] call_ensures(above, (&p, &q), b)
}

/// Whether `above` may answer `bs` of the fractions, each held against the largest
/// before it.
pub open spec fn above_answered<G: Fn(&json::Num, &json::Num) -> bool>(
    above: G,
    fs: Seq<Json>,
    bs: Seq<bool>,
) -> bool {
    bs.len() == fs.len() && forall|i: int|
        0 <= i < bs.len() ==> above_answer(
            above,
            fs[i],
            largest(fs, bs, i as nat),
            #[trigger] bs[i],
        )
}

/// Whether `w` is the largest of the fractions `f`, or no cost, by what `above` may
/// answer.
pub open spec fn worst_answer<G: Fn(&json::Num, &json::Num) -> bool>(
    above: G,
    f: Seq<Json>,
    w: Json,
) -> bool {
    exists|bs: Seq<bool>| #[trigger]
        above_answered(above, f, bs) && w == otlp::double(largest(f, bs, f.len()))
}

/// Whether `ws` are the largest of the costs `e`, probe by probe.
pub open spec fn worst_answered<G: Fn(&json::Num, &json::Num) -> bool>(
    above: G,
    e: Seq<(Seq<char>, Seq<Json>)>,
    ws: Seq<Json>,
) -> bool {
    ws.len() == e.len() && forall|i: int|
        0 <= i < ws.len() ==> worst_answer(above, e[i].1, #[trigger] ws[i])
}

proof fn lemma_largest(fs: Seq<Json>, bs: Seq<bool>, b: bool, n: nat)
    requires
        n <= bs.len(),
    ensures
        largest(fs, bs.push(b), n) == largest(fs, bs, n),
    decreases n,
{
    if n > 0 {
        lemma_largest(fs, bs, b, (n - 1) as nat);
    }
}

/// The largest of some fractions, as a double.
fn worst_of<G: Fn(&json::Num, &json::Num) -> bool>(v: &Vec<json::Num>, above: &G) -> (r: Doc)
    requires
        forall|p: &json::Num, q: &json::Num| call_requires(*above, (p, q)),
    ensures
        worst_answer(*above, reduce::numbers(v@), r@),
{
    let ghost fs = reduce::numbers(v@);
    let ghost mut bs: Seq<bool> = Seq::empty();
    let none = json::Num::Float("0.0".to_owned());
    let mut w = &none;
    let mut i: usize = 0;
    while i < v.len()
        invariant
            i <= v@.len(),
            fs == reduce::numbers(v@),
            bs.len() == i,
            w@ == largest(fs, bs, i as nat),
            forall|p: &json::Num, q: &json::Num| call_requires(*above, (p, q)),
            forall|j: int|
                0 <= j < i ==> above_answer(
                    *above,
                    fs[j],
                    largest(fs, bs, j as nat),
                    #[trigger] bs[j],
                ),
        decreases v@.len() - i,
    {
        let b = (*above)(&v[i], w);
        let ghost before = bs;
        proof {
            bs = bs.push(b);
            assert(fs[i as int] == v@[i as int]@);
            assert(call_ensures(*above, (&v@[i as int], w), b));
            assert(above_answer(*above, fs[i as int], w@, b));
            lemma_largest(fs, before, b, i as nat);
            assert forall|j: int| 0 <= j < i + 1 implies above_answer(
                *above,
                fs[j],
                largest(fs, bs, j as nat),
                #[trigger] bs[j],
            ) by {
                lemma_largest(fs, before, b, j as nat);
                if j < i {
                    assert(bs[j] == before[j]);
                }
            }
        }
        if b {
            w = &v[i];
        }
        i += 1;
    }
    assert(above_answered(*above, fs, bs));
    otlp::as_double(w)
}

fn worst_object<G: Fn(&json::Num, &json::Num) -> bool>(c: &Costs, above: &G) -> (r: (
    Object,
    Ghost<Seq<Json>>,
))
    requires
        c.wf(),
        forall|p: &json::Num, q: &json::Num| call_requires(*above, (p, q)),
    ensures
        worst_answered(*above, c@, r.1@),
        r.0@ == worst_costs(c@, r.1@, c@.len()),
{
    let ghost mut ws: Seq<Json> = Seq::empty();
    let mut o = Object::new();
    let mut i: usize = 0;
    while i < c.ids.len()
        invariant
            i <= c.ids@.len(),
            c.wf(),
            ws.len() == i,
            forall|p: &json::Num, q: &json::Num| call_requires(*above, (p, q)),
            forall|j: int| 0 <= j < i ==> worst_answer(*above, c@[j].1, #[trigger] ws[j]),
            o@ == worst_costs(c@, ws, i as nat),
        decreases c.ids@.len() - i,
    {
        let w = worst_of(&c.fractions[i], above);
        let ghost before = ws;
        proof {
            ws = ws.push(w@);
            lemma_worst_costs(c@, before, ws, i as nat);
            assert(worst_answer(*above, c@[i as int].1, w@));
            assert forall|j: int| 0 <= j < i + 1 implies worst_answer(
                *above,
                c@[j].1,
                #[trigger] ws[j],
            ) by {
                if j < i {
                    assert(ws[j] == before[j]);
                }
            }
        }
        o = o.with(&c.ids[i], w);
        i += 1;
    }
    (o, Ghost(ws))
}

proof fn lemma_worst_costs(e: Seq<(Seq<char>, Seq<Json>)>, a: Seq<Json>, b: Seq<Json>, n: nat)
    requires
        n <= a.len(),
        n <= b.len(),
        forall|i: int| 0 <= i < n ==> a[i] == b[i],
    ensures
        worst_costs(e, a, n) == worst_costs(e, b, n),
    decreases n,
{
    if n > 0 {
        lemma_worst_costs(e, a, b, (n - 1) as nat);
    }
}

/// Whether a triad by a judge, `above` saying which of two numbers is the larger,
/// may give a result: that of the A/B comparison of the same groups, with what the
/// probes of the second group cost folded in.
pub open spec fn triad_gave<F: Fn(&Pair) -> Comparison, G: Fn(&json::Num, &json::Num) -> bool>(
    judge: F,
    above: G,
    x: Seq<Json>,
    y: Seq<Json>,
    cfg: Config,
    r: Result<Json, Seq<char>>,
) -> bool {
    match not_compared(x, y, cfg) {
        Some(e) => r == Err::<Json, Seq<char>>(e),
        None => exists|cs: Seq<Comparison>, ws: Seq<Json>|
            {
                &&& #[trigger] answered(judge, compared(x, y, text::texts(cfg.ignore@)), cs)
                &&& #[trigger] worst_answered(above, costs(cost_records(y)), ws)
                &&& r == Ok::<Json, Seq<char>>(weighed(found(x, y, cfg, cs), y, ws))
            },
    }
}

/// The document of a comparison with the cost of the second group's probes.
pub open spec fn weighed(f: Finding, y: Seq<Json>, ws: Seq<Json>) -> Json {
    let e = costs(cost_records(y));
    let o = over(cost_records(y));
    document(
        folded(f, o),
        "subsystem_triad"@,
        Some(overhead(worst_costs(e, ws, e.len()), o)),
    )
}

/// Compare two groups of runs and weigh the overhead of the second group's own
/// probes.
pub fn triad<F: Fn(&Pair) -> Comparison, G: Fn(&json::Num, &json::Num) -> bool>(
    a: &[Doc],
    b: &[Doc],
    cfg: &Config,
    judge: F,
    above: G,
) -> (r: Result<Doc, String>)
    requires
        forall|p: &Pair| call_requires(judge, (p,)),
        forall|p: &json::Num, q: &json::Num| call_requires(above, (p, q)),
    ensures
        triad_gave(judge, above, json::jsons(a@), json::jsons(b@), *cfg, told(r)),
{
    let f = match ab_findings(a, b, cfg, &judge) {
        Ok(f) => f,
        Err(e) => {
            return Err(e);
        },
    };
    let ghost base = f@;
    let (c, o) = overheads(b);
    let (w, ws) = worst_object(&c, &above);
    assert(text::texts(o@).len() == o@.len());
    let within = o.len() == 0;
    let section = Doc::Object(
        Object::new().with(
            "verdict",
            json::string(
                if within {
                    "pass"
                } else {
                    "fail"
                },
            ),
        ).with("worst_steady_cpu_fraction", Doc::Object(w)).with(
            "over_budget",
            json::strings(&o),
        ),
    );
    let mut f = f;
    if !within {
        if !text::same(&f.verdict, "contaminated") {
            f.verdict = "fail".to_owned();
        }
        let ghost was = f.notes@;
        f.notes.push("subsystem overhead over budget; see report.overhead".to_owned());
        assert(text::texts(f.notes@) =~= text::texts(was).push(
            "subsystem overhead over budget; see report.overhead"@,
        ));
    }
    assert(f@ == folded(base, over(cost_records(json::jsons(b@)))));
    Ok(document_value(f, "subsystem_triad", Some(section)))
}

/// Overhead never turns a contaminated comparison into anything else, and
/// never makes one pass that did not.
pub proof fn law_overhead_only_fails(f: Finding, over: Seq<Seq<char>>)
    ensures
        f.verdict == "contaminated"@ ==> folded(f, over).verdict == "contaminated"@,
        folded(f, over).verdict == "pass"@ ==> f.verdict == "pass"@ && over.len() == 0,
{
    lemma_verdict_names();
}

// ---------------------------------------------------------------------------
// Exit codes
// ---------------------------------------------------------------------------

/// The exit code that carries a conclusion: 0 pass, 2 fail, 3 contaminated.
pub open spec fn exit_code_for(verdict: Seq<char>) -> u8 {
    if verdict == "fail"@ {
        2
    } else if verdict == "contaminated"@ {
        3
    } else {
        0
    }
}

/// The overall outcome that a gate's document carries.
pub open spec fn verdict_in(doc: Json) -> Seq<char> {
    match json::str_field(json::member(doc, "outcome"@), "verdict"@) {
        Some(v) => v,
        None => "pass"@,
    }
}

/// The exit code of a gate's document.
pub fn exit_code(doc: &Doc) -> (r: u8)
    ensures
        r == exit_code_for(verdict_in(doc@)),
{
    let found = match doc.get("outcome") {
        Some(o) => o.str_at("verdict"),
        None => None,
    };
    let verdict = match found {
        Some(v) => v,
        None => "pass",
    };
    if text::same(verdict, "fail") {
        2
    } else if text::same(verdict, "contaminated") {
        3
    } else {
        0
    }
}

/// The exit code of a comparison is that of its verdict.
pub proof fn law_exit_code_carries_the_verdict(f: Finding, mode: Seq<char>, o: Option<Json>)
    ensures
        verdict_in(document(f, mode, o)) == f.verdict,
{
    reveal_strlit("outcome");
    reveal_strlit("report");
    reveal_strlit("verdict");
    reveal_strlit("per_metric");
    reveal_strlit("notes");
    assert("outcome"@[0] != "report"@[0]);
    assert("verdict"@[0] != "per_metric"@[0]);
    assert("verdict"@[0] != "notes"@[0]);
    let vs = json::put(json::none(), "verdict"@, Json::Str(f.verdict));
    let pm = json::put(vs, "per_metric"@, Json::Obj(f.per_metric));
    let outcome = json::put(pm, "notes"@, json::strs(f.notes));
    json::law_lookup_put(json::none(), "verdict"@, Json::Str(f.verdict), "verdict"@);
    json::law_lookup_put(vs, "per_metric"@, Json::Obj(f.per_metric), "verdict"@);
    json::law_lookup_put(pm, "notes"@, json::strs(f.notes), "verdict"@);
    let top = json::put(json::none(), "outcome"@, Json::Obj(outcome));
    json::law_lookup_put(json::none(), "outcome"@, Json::Obj(outcome), "outcome"@);
    match document(f, mode, o) {
        Json::Obj(e) => {
            let full = json::member(document(f, mode, o), "report"@);
            let report = json::put(
                json::put(json::none(), "mode"@, Json::Str(mode)),
                "detail"@,
                Json::Arr(f.detail),
            );
            let r = match o {
                Some(x) => json::put(report, "overhead"@, x),
                None => report,
            };
            assert(e == json::put(top, "report"@, Json::Obj(r)));
            json::law_lookup_put(top, "report"@, Json::Obj(r), "outcome"@);
        },
        _ => {},
    }
}

} // verus!
