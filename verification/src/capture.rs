//! Firing capture gadgets and collecting their fragments.
//!
//! Gadgets must observe the same window, so all of them are spawned before any
//! is waited for.
use crate::adapter;
use crate::contract::Fragment;
use crate::crew::{able, done_by, Crew, Deed};
use crate::def::CaptureEntry;
use crate::table::Table;
use crate::text;
use vstd::prelude::*;

verus! {

/// A gadget to launch: which program, with which arguments, writing where.
#[derive(Debug)]
pub struct GadgetInvocation {
    pub gadget: String,
    pub probe: String,
    pub args: Vec<String>,
    pub out_path: String,
}

/// A `GadgetInvocation` as a mathematical value.
#[verifier::ext_equal]
pub struct Launch {
    pub gadget: Seq<char>,
    pub probe: Seq<char>,
    pub args: Seq<Seq<char>>,
    pub out_path: Seq<char>,
}

impl View for GadgetInvocation {
    type V = Launch;

    open spec fn view(&self) -> Launch {
        Launch {
            gadget: self.gadget@,
            probe: self.probe@,
            args: text::texts(self.args@),
            out_path: self.out_path@,
        }
    }
}

pub open spec fn launches(s: Seq<GadgetInvocation>) -> Seq<Launch> {
    s.map_values(|g: GadgetInvocation| g@)
}

// ---------------------------------------------------------------------------
// Planning
// ---------------------------------------------------------------------------

/// Whether a character may stand in a file name as it is.
pub open spec fn plain_char(c: char) -> bool {
    ('a' <= c <= 'z') || ('A' <= c <= 'Z') || ('0' <= c <= '9') || c == '-' || c == '_'
}

/// A text with every character that is not a letter, digit, `-` or `_`
/// replaced by `_`.
pub open spec fn sanitized(s: Seq<char>) -> Seq<char> {
    s.map_values(|c: char| if plain_char(c) { c } else { '_' })
}

pub fn sanitize(s: &str) -> (r: String)
    ensures
        r@ == sanitized(s@),
{
    let cs = text::chars(s);
    let mut out = String::new();
    let mut i: usize = 0;
    while i < cs.len()
        invariant
            i <= cs@.len(),
            cs@ == s@,
            out@ =~= sanitized(s@).take(i as int),
        decreases cs@.len() - i,
    {
        let c = cs[i];
        let plain = ('a' <= c && c <= 'z') || ('A' <= c && c <= 'Z') || ('0' <= c && c <= '9') || c
            == '-' || c == '_';
        out.push(
            if plain {
                c
            } else {
                '_'
            },
        );
        i += 1;
    }
    assert(sanitized(s@).take(i as int) =~= sanitized(s@));
    out
}

/// A sanitized name holds plain characters alone, and one that does already is
/// kept.
pub proof fn law_sanitized_is_plain(s: Seq<char>)
    ensures
        forall|i: int| 0 <= i < s.len() ==> plain_char(#[trigger] sanitized(s)[i]),
        sanitized(sanitized(s)) == sanitized(s),
{
    assert(sanitized(sanitized(s)) =~= sanitized(s));
}

/// The path of a file in a directory.
pub open spec fn in_dir(dir: Seq<char>, file: Seq<char>) -> Seq<char> {
    if dir.len() == 0 || dir.last() == '/' {
        dir + file
    } else {
        dir + "/"@ + file
    }
}

/// The path of a file in a directory.
pub fn path_in(dir: &str, file: &str) -> (r: String)
    ensures
        r@ == in_dir(dir@, file@),
{
    let cs = text::chars(dir);
    if cs.len() == 0 || cs[cs.len() - 1] == '/' {
        text::join2(dir, file)
    } else {
        let mut p = text::join2(dir, "/");
        p.append(file);
        p
    }
}

/// Where the fragment of a probe is written.
pub open spec fn fragment_path(dir: Seq<char>, probe: Seq<char>) -> Seq<char> {
    in_dir(dir, sanitized(probe) + ".frag.json"@)
}

/// A gadget's own arguments, with the variables put in.
pub open spec fn rendered_args(
    args: Seq<Seq<char>>,
    vars: Seq<(Seq<char>, Seq<char>)>,
) -> Seq<Seq<char>> {
    args.map_values(|a: Seq<char>| adapter::rendered(a, vars))
}

/// The launch of an entry that names a gadget: the window and the output first,
/// then its own arguments.
pub open spec fn launch_of(
    e: CaptureEntry,
    gadget: Seq<char>,
    duration: u64,
    dir: Seq<char>,
    vars: Seq<(Seq<char>, Seq<char>)>,
) -> Launch {
    let path = fragment_path(dir, e.probe@);
    Launch {
        gadget,
        probe: e.probe@,
        args: seq!["--duration"@, text::decimal(duration as nat), "--out"@, path] + rendered_args(
            text::texts(e.args@),
            vars,
        ),
        out_path: path,
    }
}

/// The launches of capture entries. An entry without a gadget is an error, the
/// first such entry naming it.
pub open spec fn planned(
    es: Seq<CaptureEntry>,
    duration: u64,
    dir: Seq<char>,
    vars: Seq<(Seq<char>, Seq<char>)>,
) -> Result<Seq<Launch>, Seq<char>>
    decreases es.len(),
{
    if es.len() == 0 {
        Ok(Seq::empty())
    } else {
        match planned(es.drop_last(), duration, dir, vars) {
            Err(e) => Err(e),
            Ok(done) => match es.last().gadget {
                None => Err("capture '"@ + es.last().probe@ + "' names no gadget binary to run"@),
                Some(g) => Ok(done.push(launch_of(es.last(), g@, duration, dir, vars))),
            },
        }
    }
}

proof fn lemma_plan_fails(
    es: Seq<CaptureEntry>,
    n: int,
    duration: u64,
    dir: Seq<char>,
    vars: Seq<(Seq<char>, Seq<char>)>,
)
    requires
        0 <= n <= es.len(),
        planned(es.take(n), duration, dir, vars) is Err,
    ensures
        planned(es, duration, dir, vars) == planned(es.take(n), duration, dir, vars),
    decreases es.len() - n,
{
    if n < es.len() {
        assert(es.take(n + 1).drop_last() =~= es.take(n));
        lemma_plan_fails(es, n + 1, duration, dir, vars);
    } else {
        assert(es.take(n) =~= es);
    }
}

fn launch(
    e: &CaptureEntry,
    gadget: &String,
    duration_secs: u64,
    out_dir: &str,
    vars: &Table<String>,
) -> (r: GadgetInvocation)
    ensures
        r@ == launch_of(*e, gadget@, duration_secs, out_dir@, vars@),
{
    let mut file = sanitize(&e.probe);
    file.append(".frag.json");
    let out_path = path_in(out_dir, &file);
    let mut args: Vec<String> = Vec::new();
    args.push("--duration".to_owned());
    args.push(text::dec(duration_secs));
    args.push("--out".to_owned());
    args.push(out_path.clone());
    let ghost first = seq![
        "--duration"@,
        text::decimal(duration_secs as nat),
        "--out"@,
        out_path@,
    ];
    let ghost own = rendered_args(text::texts(e.args@), vars@);
    let mut i: usize = 0;
    while i < e.args.len()
        invariant
            i <= e.args@.len(),
            own == rendered_args(text::texts(e.args@), vars@),
            text::texts(args@) =~= first + own.take(i as int),
        decreases e.args@.len() - i,
    {
        let ghost was = args@;
        args.push(adapter::render(&e.args[i], vars));
        assert(text::texts(args@) =~= text::texts(was).push(own[i as int]));
        i += 1;
    }
    assert(own.take(i as int) =~= own);
    GadgetInvocation { gadget: gadget.clone(), probe: e.probe.clone(), args, out_path }
}

/// The view of a plan.
pub open spec fn plan_view(r: Result<Vec<GadgetInvocation>, String>) -> Result<
    Seq<Launch>,
    Seq<char>,
> {
    match r {
        Ok(v) => Ok(launches(v@)),
        Err(e) => Err(e@),
    }
}

/// Turn capture entries into launches.
pub fn plan_gadgets(
    entries: &Vec<CaptureEntry>,
    duration_secs: u64,
    out_dir: &str,
    vars: &Table<String>,
) -> (r: Result<Vec<GadgetInvocation>, String>)
    ensures
        plan_view(r) == planned(entries@, duration_secs, out_dir@, vars@),
{
    let mut plan: Vec<GadgetInvocation> = Vec::new();
    let mut i: usize = 0;
    assert(launches(plan@) =~= Seq::empty());
    assert(entries@.take(0) =~= Seq::empty());
    while i < entries.len()
        invariant
            i <= entries@.len(),
            planned(entries@.take(i as int), duration_secs, out_dir@, vars@) == Ok::<
                Seq<Launch>,
                Seq<char>,
            >(launches(plan@)),
        decreases entries@.len() - i,
    {
        let e = &entries[i];
        assert(entries@.take(i + 1).drop_last() =~= entries@.take(i as int));
        match &e.gadget {
            Some(g) => {
                let ghost was = plan@;
                plan.push(launch(e, g, duration_secs, out_dir, vars));
                assert(launches(plan@) =~= launches(was).push(plan@.last()@));
            },
            None => {
                let mut m = text::join2("capture '", &e.probe);
                m.append("' names no gadget binary to run");
                proof {
                    lemma_plan_fails(entries@, i + 1, duration_secs, out_dir@, vars@);
                }
                return Err(m);
            },
        }
        i += 1;
    }
    assert(entries@.take(i as int) =~= entries@);
    Ok(plan)
}

/// A plan has one launch for each entry, in the order of the entries.
pub proof fn law_every_entry_is_launched(
    es: Seq<CaptureEntry>,
    duration: u64,
    dir: Seq<char>,
    vars: Seq<(Seq<char>, Seq<char>)>,
    i: int,
)
    requires
        planned(es, duration, dir, vars) is Ok,
        0 <= i < es.len(),
    ensures
        planned(es, duration, dir, vars)->Ok_0.len() == es.len(),
        es[i].gadget is Some,
        planned(es, duration, dir, vars)->Ok_0[i] == launch_of(
            es[i],
            es[i].gadget->0@,
            duration,
            dir,
            vars,
        ),
    decreases es.len(),
{
    let all = planned(es, duration, dir, vars)->Ok_0;
    if es.len() > 1 {
        let k = if i < es.len() - 1 {
            i
        } else {
            0
        };
        law_every_entry_is_launched(es.drop_last(), duration, dir, vars, k);
    } else {
        assert(planned(es.drop_last(), duration, dir, vars) == Ok::<Seq<Launch>, Seq<char>>(
            Seq::empty(),
        ));
    }
}

// ---------------------------------------------------------------------------
// Running
// ---------------------------------------------------------------------------

/// The seam over launching gadgets, in two phases so that all of them start
/// before any is waited for.
pub trait GadgetRunner {
    type Handle;

    fn spawn(&self, inv: &GadgetInvocation) -> Result<Self::Handle, String>;

    fn wait(&self, inv: &GadgetInvocation, handle: Self::Handle) -> Result<Fragment, String>;

    /// Abandon a gadget that was spawned without collecting it.
    fn kill(&self, _handle: Self::Handle) {
    }
}

/// The first launches, spawned.
pub open spec fn spawned<H>(plan: Seq<GadgetInvocation>, hs: Seq<H>) -> Seq<Deed<H>> {
    Seq::new(hs.len(), |i: int| Deed::Spawned(plan[i], Ok(hs[i])))
}

/// The first launches, collected.
pub open spec fn collected<H>(
    plan: Seq<GadgetInvocation>,
    hs: Seq<H>,
    fs: Seq<Fragment>,
) -> Seq<Deed<H>> {
    Seq::new(fs.len(), |i: int| Deed::Waited(plan[i], hs[i], Ok(fs[i])))
}

/// Gadgets, killed in order.
pub open spec fn killed<H>(hs: Seq<H>) -> Seq<Deed<H>> {
    Seq::new(hs.len(), |i: int| Deed::Killed(hs[i]))
}

/// Whether a capture took its course: the gadgets `hs` were spawned and the
/// fragments `fs` collected. A spawn that fails has the gadgets before it
/// killed. Nothing is waited for before everything is spawned.
pub open spec fn captured<H>(
    plan: Seq<GadgetInvocation>,
    deeds: Seq<Deed<H>>,
    hs: Seq<H>,
    fs: Seq<Fragment>,
    r: Result<Vec<Fragment>, String>,
) -> bool {
    match r {
        Ok(out) => {
            &&& hs.len() == plan.len()
            &&& fs.len() == plan.len()
            &&& out@ == fs
            &&& deeds == spawned(plan, hs) + collected(plan, hs, fs)
        },
        Err(e) => if hs.len() < plan.len() {
            &&& fs.len() == 0
            &&& deeds == spawned(plan, hs).push(
                Deed::Spawned(plan[hs.len() as int], Err(e)),
            ) + killed(hs)
        } else {
            let m = fs.len() as int;
            &&& hs.len() == plan.len()
            &&& m < plan.len()
            &&& deeds == (spawned(plan, hs) + collected(plan, hs, fs)).push(
                Deed::Waited(plan[m], hs[m], Err(e)),
            )
        },
    }
}

fn kill_all<R: GadgetRunner>(crew: &mut Crew<R>, handles: Vec<R::Handle>)
    ensures
        final(crew).runner() == old(crew).runner(),
        done_by(final(crew).runner(), killed(handles@)),
        final(crew).deeds() == old(crew).deeds() + killed(handles@),
{
    let mut handles = handles;
    let ghost start = crew.deeds();
    let ghost hs = handles@;
    let ghost mut i: int = 0;
    assert(start + killed(hs.take(0)) =~= start);
    while handles.len() > 0
        invariant
            0 <= i,
            i + handles@.len() == hs.len(),
            handles@ == hs.skip(i),
            crew.runner() == old(crew).runner(),
            done_by(crew.runner(), killed(hs.take(i))),
            crew.deeds() == start + killed(hs.take(i)),
        decreases handles@.len(),
    {
        let h = handles.remove(0);
        assert(h == hs[i]);
        crew.kill(h);
        assert(killed(hs.take(i + 1)) =~= killed(hs.take(i)).push(Deed::Killed(h)));
        assert(crew.deeds() =~= start + killed(hs.take(i + 1)));
        assert(handles@ =~= hs.skip(i + 1));
        proof {
            i = i + 1;
        }
    }
    assert(hs.take(i) =~= hs);
}

/// Spawn every gadget, then collect every fragment. A missing series means that
/// the assembled run cannot be trusted, so that any failure fails the capture.
pub fn capture<R: GadgetRunner>(plan: &Vec<GadgetInvocation>, crew: &mut Crew<R>) -> (r: Result<
    Vec<Fragment>,
    String,
>)
    ensures
        final(crew).runner() == old(crew).runner(),
        exists|deeds: Seq<Deed<R::Handle>>, hs: Seq<R::Handle>, fs: Seq<Fragment>|
            {
                &&& #[trigger] captured(plan@, deeds, hs, fs, r)
                &&& done_by(old(crew).runner(), deeds)
                &&& final(crew).deeds() == old(crew).deeds() + deeds
            },
{
    let ghost start = crew.deeds();
    let mut handles: Vec<R::Handle> = Vec::new();
    let mut i: usize = 0;
    assert(start + spawned(plan@, handles@) =~= start);
    while i < plan.len()
        invariant
            i <= plan@.len(),
            handles@.len() == i,
            start == old(crew).deeds(),
            crew.runner() == old(crew).runner(),
            done_by(crew.runner(), spawned(plan@, handles@)),
            crew.deeds() == start + spawned(plan@, handles@),
        decreases plan@.len() - i,
    {
        match crew.spawn(&plan[i]) {
            Ok(h) => {
                let ghost was = handles@;
                handles.push(h);
                assert(spawned(plan@, handles@) =~= spawned(plan@, was).push(
                    Deed::Spawned(plan@[i as int], Ok(h)),
                ));
                assert(crew.deeds() =~= start + spawned(plan@, handles@));
            },
            Err(e) => {
                let ghost hs = handles@;
                let ghost tried = spawned(plan@, hs).push(
                    Deed::Spawned(plan@[i as int], Err::<R::Handle, String>(e)),
                );
                assert(crew.deeds() =~= start + tried);
                kill_all(crew, handles);
                proof {
                    let deeds = tried + killed(hs);
                    assert(crew.deeds() =~= start + deeds);
                    lemma_done_by(crew.runner(), tried, killed(hs));
                    assert(captured(
                        plan@,
                        deeds,
                        hs,
                        Seq::empty(),
                        Err::<Vec<Fragment>, String>(e),
                    ));
                }
                return Err(e);
            },
        }
        i += 1;
    }
    let ghost hs = handles@;
    let mut fragments: Vec<Fragment> = Vec::new();
    let ghost mut deeds = spawned(plan@, hs);
    let mut j: usize = 0;
    assert(hs.skip(0) =~= hs);
    assert(deeds =~= spawned(plan@, hs) + collected(plan@, hs, fragments@));
    while j < plan.len()
        invariant
            j <= plan@.len(),
            hs.len() == plan@.len(),
            handles@ == hs.skip(j as int),
            fragments@.len() == j,
            start == old(crew).deeds(),
            crew.runner() == old(crew).runner(),
            deeds == spawned(plan@, hs) + collected(plan@, hs, fragments@),
            done_by(crew.runner(), deeds),
            crew.deeds() == start + deeds,
        decreases plan@.len() - j,
    {
        let h = handles.remove(0);
        assert(handles@ =~= hs.skip(j + 1));
        assert(h == hs[j as int]);
        let a = crew.wait(&plan[j], h);
        let ghost more = deeds.push(Deed::Waited(plan@[j as int], hs[j as int], a));
        assert(crew.deeds() =~= start + more);
        match a {
            Ok(f) => {
                fragments.push(f);
                assert(more =~= spawned(plan@, hs) + collected(plan@, hs, fragments@));
                proof {
                    deeds = more;
                }
            },
            Err(e) => {
                assert(captured(plan@, more, hs, fragments@, Err::<Vec<Fragment>, String>(e)));
                return Err(e);
            },
        }
        j += 1;
    }
    assert(captured(plan@, deeds, hs, fragments@, Ok::<Vec<Fragment>, String>(fragments)));
    Ok(fragments)
}

proof fn lemma_done_by<R: GadgetRunner>(
    runner: R,
    a: Seq<Deed<R::Handle>>,
    b: Seq<Deed<R::Handle>>,
)
    requires
        done_by(runner, a),
        done_by(runner, b),
    ensures
        done_by(runner, a + b),
{
    assert forall|i: int| 0 <= i < (a + b).len() implies able(
        runner,
        #[trigger] (a + b)[i],
    ) by {
        if i < a.len() {
            assert((a + b)[i] == a[i]);
        } else {
            assert((a + b)[i] == b[i - a.len()]);
        }
    }
}

/// In a capture every gadget is spawned before any is waited for, and they are
/// waited for in the order of the plan.
pub proof fn law_spawned_before_waited<H>(
    plan: Seq<GadgetInvocation>,
    deeds: Seq<Deed<H>>,
    hs: Seq<H>,
    fs: Seq<Fragment>,
    r: Result<Vec<Fragment>, String>,
    i: int,
)
    requires
        captured(plan, deeds, hs, fs, r),
        0 <= i < deeds.len(),
        deeds[i] is Waited,
    ensures
        plan.len() <= i,
        forall|j: int| 0 <= j < plan.len() ==> #[trigger] deeds[j] is Spawned,
        deeds[i]->Waited_0 == plan[i - plan.len()],
        deeds[i]->Waited_1 == hs[i - plan.len()],
{
}

/// Where a spawn fails, the gadgets killed are those that were spawned, in that
/// order, and nothing is left running or spawned after.
pub proof fn law_failed_spawn_leaves_nothing_running<H>(
    plan: Seq<GadgetInvocation>,
    deeds: Seq<Deed<H>>,
    hs: Seq<H>,
    fs: Seq<Fragment>,
    r: Result<Vec<Fragment>, String>,
    k: int,
)
    requires
        captured(plan, deeds, hs, fs, r),
        0 <= k < deeds.len(),
        deeds[k] matches Deed::Spawned(_, Err(_)),
    ensures
        r is Err,
        deeds[k] == Deed::Spawned(plan[k], Err::<H, String>(r->Err_0)),
        k == hs.len(),
        deeds.len() == 2 * k + 1,
        forall|j: int|
            0 <= j < k ==> deeds[j] == Deed::Spawned(plan[j], Ok::<H, String>(hs[j]))
                && #[trigger] deeds[k + 1 + j] == Deed::Killed(hs[j]),
{
    assert forall|j: int| 0 <= j < k implies deeds[j] == Deed::Spawned(
        plan[j],
        Ok::<H, String>(hs[j]),
    ) && #[trigger] deeds[k + 1 + j] == Deed::Killed(hs[j]) by {
        assert(killed(hs)[j] == Deed::Killed(hs[j]));
    }
}

} // verus!
