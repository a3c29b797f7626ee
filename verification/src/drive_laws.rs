//! What holds of every run, whatever target, workload and gadgets do.
use crate::adapter::{self, CommandSet, Event, Phase, Target, Workload};
use crate::capture::{self, GadgetRunner};
use crate::command::{CommandTarget, CommandWorkload};
use crate::contract::{self, Fragment};
use crate::drive::{
    self, came, came_at, concluded, course, fits, next, phased, played, proper, rank, regular,
    telling, Act, Artifacts, Course, Plan, Scene, Stage, Terms,
};
use crate::hostmem;
use crate::json::{self, Json};
use crate::netattrib::{self, Vm, Wire};
use crate::parse;
use vstd::prelude::*;

verus! {

// ---------------------------------------------------------------------------
// Order
// ---------------------------------------------------------------------------

/// One act takes a course on, or leaves it in its stage, and keeps a fault.
proof fn lemma_step(p: Plan, c: Course, a: Act)
    requires
        regular(p, c),
        fits(c.stage, a),
    ensures
        regular(p, next(p, c, a)),
        rank(c.stage) <= rank(next(p, c, a).stage),
        c.stage is Load ==> rank(next(p, c, a).stage) > 8,
        c.fault is Some ==> next(p, c, a).fault == c.fault,
{
}

proof fn lemma_regular(p: Plan, acts: Seq<Act>)
    requires
        proper(p, acts),
    ensures
        regular(p, course(p, acts)),
    decreases acts.len(),
{
    if acts.len() > 0 {
        lemma_regular(p, acts.drop_last());
        lemma_step(p, course(p, acts.drop_last()), acts.last());
    }
}

proof fn lemma_prefix(p: Plan, acts: Seq<Act>, n: int)
    requires
        proper(p, acts),
        0 <= n <= acts.len(),
    ensures
        proper(p, acts.take(n)),
        rank(course(p, acts.take(n)).stage) <= rank(course(p, acts).stage),
    decreases acts.len() - n,
{
    if n < acts.len() {
        let d = acts.drop_last();
        assert(d.take(n) =~= acts.take(n));
        lemma_prefix(p, d, n);
        lemma_regular(p, d);
        let c = course(p, d);
        assert(course(p, acts) == next(p, c, acts.last()));
        lemma_step(p, c, acts.last());
    } else {
        assert(acts.take(n) =~= acts);
    }
}

/// Every act of a proper course was of the kind to do next.
proof fn lemma_fits(p: Plan, acts: Seq<Act>, i: int)
    requires
        proper(p, acts),
        0 <= i < acts.len(),
    ensures
        proper(p, acts.take(i)),
        fits(course(p, acts.take(i)).stage, acts[i]),
        course(p, acts.take(i + 1)) == next(p, course(p, acts.take(i)), acts[i]),
        proper(p, acts.take(i + 1)),
{
    lemma_prefix(p, acts, i + 1);
    let t = acts.take(i + 1);
    assert(t.drop_last() =~= acts.take(i));
    assert(t.last() == acts[i]);
}

proof fn lemma_stage(p: Plan, acts: Seq<Act>, i: int)
    requires
        proper(p, acts),
        0 <= i < acts.len(),
    ensures
        proper(p, acts.take(i)),
        fits(course(p, acts.take(i)).stage, acts[i]),
{
    lemma_fits(p, acts, i);
}

proof fn lemma_in_order(p: Plan, acts: Seq<Act>, i: int, j: int)
    requires
        proper(p, acts),
        0 <= i <= j <= acts.len(),
    ensures
        rank(course(p, acts.take(i)).stage) <= rank(course(p, acts.take(j)).stage),
{
    lemma_prefix(p, acts, j);
    assert(acts.take(j).take(i) =~= acts.take(i));
    lemma_prefix(p, acts.take(j), i);
}

/// The beginning of a run is one.
proof fn lemma_begun<R: GadgetRunner, T: Target, W: Workload, C: Wire>(
    t: Terms<R>,
    p: Plan,
    acts: Seq<Act>,
    scenes: Seq<Scene<T, W, C, R::Handle>>,
    n: int,
)
    requires
        played(t, p, acts, scenes),
        0 <= n <= acts.len(),
    ensures
        played(t, p, acts.take(n), scenes.take(n + 1)),
{
    let b = acts.take(n);
    let ss = scenes.take(n + 1);
    assert forall|i: int| 0 <= i < b.len() implies #[trigger] came_at(t, p, b, ss, i) by {
        assert(came_at(t, p, acts, scenes, i));
        assert(b.take(i) =~= acts.take(i));
    }
}

proof fn lemma_proper<R: GadgetRunner, T: Target, W: Workload, C: Wire>(
    t: Terms<R>,
    p: Plan,
    acts: Seq<Act>,
    scenes: Seq<Scene<T, W, C, R::Handle>>,
)
    requires
        played(t, p, acts, scenes),
    ensures
        proper(p, acts),
    decreases acts.len(),
{
    if acts.len() > 0 {
        let n = acts.len() - 1;
        lemma_begun(t, p, acts, scenes, n);
        assert(acts.take(n) =~= acts.drop_last());
        lemma_proper(t, p, acts.drop_last(), scenes.take(n + 1));
        assert(came_at(t, p, acts, scenes, n));
    }
}

/// A run that is over ended with tearing the target down, and did that once,
/// whatever failed before.
pub proof fn law_teardown_ends_every_run<R: GadgetRunner, T: Target, W: Workload, C: Wire>(
    t: Terms<R>,
    p: Plan,
    acts: Seq<Act>,
    scenes: Seq<Scene<T, W, C, R::Handle>>,
)
    requires
        played(t, p, acts, scenes),
        course(p, acts).stage is Over,
    ensures
        acts.len() > 0,
        acts.last() matches Act::ToreDown(r) && phased(
            Phase::Teardown,
            scenes[acts.len() - 1],
            scenes.last(),
            r,
        ),
        forall|i: int| 0 <= i < acts.len() - 1 ==> !(#[trigger] acts[i] is ToreDown),
{
    lemma_proper(t, p, acts, scenes);
    lemma_regular(p, acts.drop_last());
    let n = acts.len() - 1;
    assert(acts.take(n) =~= acts.drop_last());
    assert(came_at(t, p, acts, scenes, n));
    assert forall|i: int| 0 <= i < acts.len() - 1 implies !(#[trigger] acts[i] is ToreDown) by {
        lemma_fits(p, acts, i);
        lemma_fits(p, acts, n);
        lemma_in_order(p, acts, i + 1, n);
    }
}

/// When the workload starts, every gadget has been spawned and none has been
/// waited for; none is spawned after.
pub proof fn law_gadgets_observe_the_window<R: GadgetRunner, T: Target, W: Workload, C: Wire>(
    t: Terms<R>,
    p: Plan,
    acts: Seq<Act>,
    scenes: Seq<Scene<T, W, C, R::Handle>>,
    k: int,
)
    requires
        played(t, p, acts, scenes),
        scenes[0].running.len() == 0,
        p.gadgets == t.gadgets.len(),
        0 <= k < acts.len(),
        acts[k] is Loaded,
    ensures
        scenes[k].running.len() == t.gadgets.len(),
        scenes[k].deeds == scenes[0].deeds + capture::spawned(t.gadgets, scenes[k].running),
        forall|i: int| 0 <= i < acts.len() && #[trigger] acts[i] is Spawned ==> i < k,
        forall|i: int| 0 <= i < acts.len() && #[trigger] acts[i] is Waited ==> k < i,
{
    lemma_proper(t, p, acts, scenes);
    lemma_stage(p, acts, k);
    lemma_regular(p, acts.take(k));
    lemma_begun(t, p, acts, scenes, k);
    lemma_launched(t, p, acts.take(k), scenes.take(k + 1));
    assert forall|i: int| 0 <= i < acts.len() && #[trigger] acts[i] is Spawned implies i < k by {
        lemma_stage(p, acts, i);
        if k <= i {
            lemma_in_order(p, acts, k, i);
        }
    }
    assert forall|i: int| 0 <= i < acts.len() && #[trigger] acts[i] is Waited implies k < i by {
        lemma_stage(p, acts, i);
        if i <= k {
            lemma_in_order(p, acts, i, k);
        }
    }
}

/// Up to the workload the runner was asked to spawn, and for nothing else.
proof fn lemma_launched<R: GadgetRunner, T: Target, W: Workload, C: Wire>(
    t: Terms<R>,
    p: Plan,
    acts: Seq<Act>,
    scenes: Seq<Scene<T, W, C, R::Handle>>,
)
    requires
        played(t, p, acts, scenes),
        scenes[0].running.len() == 0,
        p.gadgets == t.gadgets.len(),
        rank(course(p, acts).stage) <= 8,
    ensures
        scenes.last().running.len() == course(p, acts).spawned,
        scenes.last().deeds == scenes[0].deeds + capture::spawned(
            t.gadgets,
            scenes.last().running,
        ),
    decreases acts.len(),
{
    lemma_proper(t, p, acts, scenes);
    if acts.len() > 0 {
        let n = acts.len() - 1;
        let c = course(p, acts.drop_last());
        assert(acts.take(n) =~= acts.drop_last());
        lemma_begun(t, p, acts, scenes, n);
        lemma_prefix(p, acts, n);
        lemma_regular(p, acts.drop_last());
        assert(came_at(t, p, acts, scenes, n));
        lemma_launched(t, p, acts.take(n), scenes.take(n + 1));
        let a = scenes[n];
        let b = scenes[n + 1];
        if acts.last() is Spawned {
            let h = b.running.last();
            assert(b.deeds =~= scenes[0].deeds + capture::spawned(t.gadgets, b.running));
        }
    } else {
        assert(scenes[0].deeds + capture::spawned(t.gadgets, scenes[0].running)
            =~= scenes[0].deeds);
    }
}

/// Memory is sampled first, and the target is provisioned before anything else
/// is done to it.
pub proof fn law_memory_is_sampled_first<R: GadgetRunner, T: Target, W: Workload, C: Wire>(
    t: Terms<R>,
    p: Plan,
    acts: Seq<Act>,
    scenes: Seq<Scene<T, W, C, R::Handle>>,
)
    requires
        played(t, p, acts, scenes),
        acts.len() > 0,
    ensures
        acts[0] matches Act::Sampled(m) && drive::sampling(scenes[0].log, scenes[1].log, m),
        scenes[1].target == scenes[0].target,
        acts.len() > 1 ==> acts[1] is Provisioned,
{
    lemma_proper(t, p, acts, scenes);
    lemma_fits(p, acts, 0);
    assert(acts.take(0) =~= Seq::empty());
    assert(came_at(t, p, acts, scenes, 0));
    if acts.len() > 1 {
        lemma_fits(p, acts, 1);
    }
}

// ---------------------------------------------------------------------------
// Winding down
// ---------------------------------------------------------------------------

/// Whether the owner was told, in one of the acts, that a VM is gone.
pub open spec fn was_removed<T: Target, W: Workload, C: Wire, H>(
    acts: Seq<Act>,
    scenes: Seq<Scene<T, W, C, H>>,
    h: u64,
) -> bool {
    exists|i: int| 0 <= i < acts.len() && #[trigger] removed_at(acts, scenes, i, h)
}

/// Whether the owner was told, in an act, that a VM is gone.
pub open spec fn removed_at<T: Target, W: Workload, C: Wire, H>(
    acts: Seq<Act>,
    scenes: Seq<Scene<T, W, C, H>>,
    i: int,
    h: u64,
) -> bool {
    &&& scenes[i].attrib is Some && scenes[i + 1].attrib is Some
    &&& acts[i] matches Act::Removed(r) && telling(
        scenes[i].attrib->0,
        scenes[i + 1].attrib->0,
        netattrib::remove_line(h),
        r,
    )
}

/// Whether the owner was told of the first `n` of some VMs that they are gone.
pub open spec fn removed<T: Target, W: Workload, C: Wire, H>(
    acts: Seq<Act>,
    scenes: Seq<Scene<T, W, C, H>>,
    handles: Seq<u64>,
    n: int,
) -> bool {
    forall|k: int| 0 <= k < n ==> was_removed(acts, scenes, #[trigger] handles[k])
}

proof fn lemma_removed<R: GadgetRunner, T: Target, W: Workload, C: Wire>(
    t: Terms<R>,
    p: Plan,
    acts: Seq<Act>,
    scenes: Seq<Scene<T, W, C, R::Handle>>,
)
    requires
        played(t, p, acts, scenes),
    ensures
        removed(acts, scenes, course(p, acts).handles, course(p, acts).removed as int),
        course(p, acts).removed <= course(p, acts).handles.len(),
        course(p, acts).stage is Teardown || course(p, acts).stage is Over ==> course(
            p,
            acts,
        ).removed == course(p, acts).handles.len(),
    decreases acts.len(),
{
    lemma_proper(t, p, acts, scenes);
    if acts.len() > 0 {
        let n = acts.len() - 1;
        let d = acts.drop_last();
        let ss = scenes.take(n + 1);
        let c = course(p, d);
        assert(acts.take(n) =~= d);
        lemma_begun(t, p, acts, scenes, n);
        lemma_removed(t, p, d, ss);
        lemma_prefix(p, acts, n);
        lemma_regular(p, d);
        assert(came_at(t, p, acts, scenes, n));
        assert forall|h: u64| was_removed(d, ss, h) implies was_removed(acts, scenes, h) by {
            let i = choose|i: int| 0 <= i < d.len() && #[trigger] removed_at(d, ss, i, h);
            assert(removed_at(acts, scenes, i, h));
        }
        if acts.last() is Removed {
            assert(removed_at(acts, scenes, n, c.handles[c.removed as int]));
            assert(was_removed(acts, scenes, c.handles[c.removed as int]));
        }
        let e = course(p, acts);
        assert forall|k: int| 0 <= k < e.removed implies was_removed(
            acts,
            scenes,
            #[trigger] e.handles[k],
        ) by {
            if k < c.removed {
                assert(was_removed(d, ss, c.handles[k]));
            }
        }
    }
}

/// The owner has been told of every VM that was registered that it is gone when
/// the target is torn down.
pub proof fn law_registered_vms_are_removed<R: GadgetRunner, T: Target, W: Workload, C: Wire>(
    t: Terms<R>,
    p: Plan,
    acts: Seq<Act>,
    scenes: Seq<Scene<T, W, C, R::Handle>>,
    k: int,
)
    requires
        played(t, p, acts, scenes),
        0 <= k < acts.len(),
        acts[k] is ToreDown,
    ensures
        removed(
            acts.take(k),
            scenes.take(k + 1),
            course(p, acts.take(k)).handles,
            course(p, acts.take(k)).handles.len() as int,
        ),
{
    lemma_proper(t, p, acts, scenes);
    lemma_fits(p, acts, k);
    lemma_begun(t, p, acts, scenes, k);
    lemma_removed(t, p, acts.take(k), scenes.take(k + 1));
}

/// The error of an act that fails a run.
pub open spec fn failure(a: Act) -> Option<Seq<char>> {
    match a {
        Act::Provisioned(Err(e)) => Some(e@),
        Act::Started(Err(e)) => Some(e@),
        Act::Steadied(Err(e)) => Some(e@),
        Act::Added(_, Err(e)) => Some(e@),
        Act::Marked(Err(e)) => Some(e@),
        Act::Spawned(Err(e)) => Some(e@),
        Act::Loaded(Err(e)) => Some(e@),
        Act::Waited(Err(e)) => Some(e@),
        Act::Spanned(Err(e)) => Some(e@),
        _ => None,
    }
}

/// A step that fails is what the run reports.
pub proof fn law_failures_are_reported<R: GadgetRunner, T: Target, W: Workload, C: Wire>(
    t: Terms<R>,
    p: Plan,
    acts: Seq<Act>,
    scenes: Seq<Scene<T, W, C, R::Handle>>,
    rows: Seq<Vm>,
    i: int,
)
    requires
        played(t, p, acts, scenes),
        0 <= i < acts.len(),
        failure(acts[i]) is Some,
    ensures
        concluded(course(p, acts), rows) == Err::<Artifacts, Seq<char>>(failure(acts[i])->0),
{
    lemma_proper(t, p, acts, scenes);
    lemma_fits(p, acts, i);
    lemma_fault_stays(p, acts, i + 1);
}

proof fn lemma_fault_stays(p: Plan, acts: Seq<Act>, n: int)
    requires
        proper(p, acts),
        0 <= n <= acts.len(),
        course(p, acts.take(n)).fault is Some,
    ensures
        course(p, acts).fault == course(p, acts.take(n)).fault,
    decreases acts.len() - n,
{
    if n < acts.len() {
        let d = acts.drop_last();
        assert(d.take(n) =~= acts.take(n));
        lemma_fault_stays(p, d, n);
        lemma_regular(p, d);
        lemma_step(p, course(p, d), acts.last());
    } else {
        assert(acts.take(n) =~= acts);
    }
}

// ---------------------------------------------------------------------------
// A run that goes well
// ---------------------------------------------------------------------------

/// The stages of a run without attribution in which nothing fails.
pub open spec fn good_stage(gadgets: nat, i: int) -> Stage {
    if i <= 0 {
        Stage::Sample
    } else if i == 1 {
        Stage::Provision
    } else if i == 2 {
        Stage::Start
    } else if i == 3 {
        Stage::Steady
    } else if i == 4 {
        Stage::SampleAgain
    } else if i < 5 + gadgets {
        Stage::Spawn
    } else if i == 5 + gadgets {
        Stage::Load
    } else if i < 6 + 2 * gadgets {
        Stage::Wait
    } else if i == 6 + 2 * gadgets {
        Stage::Stop
    } else if i == 7 + 2 * gadgets {
        Stage::Report
    } else if i == 8 + 2 * gadgets {
        Stage::Spans
    } else if i == 9 + 2 * gadgets {
        Stage::Measure
    } else if i == 10 + 2 * gadgets {
        Stage::Teardown
    } else {
        Stage::Over
    }
}

/// Where a course without attribution stands after `i` acts in which nothing
/// failed.
spec fn good(p: Plan, c: Course, i: int) -> bool {
    &&& c.stage == good_stage(p.gadgets, i)
    &&& c.fault is None
    &&& 5 <= i <= 5 + p.gadgets ==> c.spawned == i - 5
    &&& i <= 5 + p.gadgets ==> c.pieces.len() == 0
    &&& 6 + p.gadgets <= i <= 6 + 2 * p.gadgets ==> c.pieces.len() == i - 6 - p.gadgets
    &&& 6 + 2 * p.gadgets <= i ==> c.pieces.len() == p.gadgets
    &&& i < 5 ==> c.spawned == 0
    &&& c.handles.len() == 0
    &&& i <= 11 + 2 * p.gadgets
}

proof fn lemma_good_step(p: Plan, c: Course, a: Act, i: int)
    requires
        !p.attributed,
        0 <= i,
        good(p, c, i),
        fits(c.stage, a),
        next(p, c, a).fault is None,
    ensures
        good(p, next(p, c, a), i + 1),
{
}

proof fn lemma_good(p: Plan, acts: Seq<Act>, i: int)
    requires
        proper(p, acts),
        !p.attributed,
        course(p, acts).fault is None,
        0 <= i <= acts.len(),
    ensures
        good(p, course(p, acts.take(i)), i),
    decreases i,
{
    if i > 0 {
        lemma_prefix(p, acts, i);
        lemma_no_fault(p, acts, i);
        lemma_good(p, acts, i - 1);
        lemma_fits(p, acts, i - 1);
        lemma_good_step(p, course(p, acts.take(i - 1)), acts[i - 1], i - 1);
    } else {
        assert(acts.take(0) =~= Seq::empty());
    }
}

proof fn lemma_no_fault(p: Plan, acts: Seq<Act>, n: int)
    requires
        proper(p, acts),
        0 <= n <= acts.len(),
        course(p, acts).fault is None,
    ensures
        course(p, acts.take(n)).fault is None,
{
    if course(p, acts.take(n)).fault is Some {
        lemma_fault_stays(p, acts, n);
    }
}

/// A run without attribution that ends well went through all its stages in
/// order: memory, target, memory, gadgets, workload, fragments, and the end. It
/// gives a fragment for each gadget and those of the host, and attributes nothing.
pub proof fn law_good_runs_take_their_course<R: GadgetRunner, T: Target, W: Workload, C: Wire>(
    t: Terms<R>,
    p: Plan,
    acts: Seq<Act>,
    scenes: Seq<Scene<T, W, C, R::Handle>>,
    rows: Seq<Vm>,
)
    requires
        played(t, p, acts, scenes),
        course(p, acts).stage is Over,
        concluded(course(p, acts), rows) is Ok,
        !p.attributed,
    ensures
        acts.len() == 11 + 2 * p.gadgets,
        forall|i: int|
            0 <= i < acts.len() ==> fits(good_stage(p.gadgets, i), #[trigger] acts[i]),
        ({
            let a = concluded(course(p, acts), rows)->Ok_0;
            &&& a.fragments.len() == p.gadgets + (if course(p, acts).residents.len() > 0 {
                2int
            } else {
                1
            })
            &&& a.vm_attribution is None
        }),
{
    lemma_proper(t, p, acts, scenes);
    lemma_good(p, acts, acts.len() as int);
    assert(acts.take(acts.len() as int) =~= acts);
    assert forall|i: int| 0 <= i < acts.len() implies fits(
        good_stage(p.gadgets, i),
        #[trigger] acts[i],
    ) by {
        lemma_good(p, acts, i);
        lemma_stage(p, acts, i);
    }
}

/// Where nothing has failed, every gadget is spawned before any is waited for,
/// and all have been waited for when the workload is stopped.
spec fn whole(p: Plan, c: Course) -> bool {
    c.fault is None ==> {
        &&& rank(c.stage) >= 9 ==> c.spawned == p.gadgets
        &&& rank(c.stage) >= 10 ==> c.pieces.len() == p.gadgets
    }
}

proof fn lemma_whole_step(p: Plan, c: Course, a: Act)
    requires
        regular(p, c),
        fits(c.stage, a),
        whole(p, c),
    ensures
        whole(p, next(p, c, a)),
{
}

proof fn lemma_whole(p: Plan, acts: Seq<Act>)
    requires
        proper(p, acts),
    ensures
        whole(p, course(p, acts)),
    decreases acts.len(),
{
    if acts.len() > 0 {
        lemma_whole(p, acts.drop_last());
        lemma_regular(p, acts.drop_last());
        lemma_whole_step(p, course(p, acts.drop_last()), acts.last());
    }
}

/// Whether the runner was asked to spawn the gadgets `hs` and to collect the
/// fragments `fs`, those not collected still running.
spec fn gathered<R: GadgetRunner, T: Target, W: Workload, C: Wire>(
    t: Terms<R>,
    first: Scene<T, W, C, R::Handle>,
    s: Scene<T, W, C, R::Handle>,
    c: Course,
    hs: Seq<R::Handle>,
    fs: Seq<Fragment>,
) -> bool {
    &&& fs.len() <= hs.len()
    &&& hs.len() == c.spawned
    &&& contract::fragment_views(fs) == c.pieces
    &&& s.running == hs.skip(fs.len() as int)
    &&& s.deeds == first.deeds + capture::spawned(t.gadgets, hs) + capture::collected(
        t.gadgets,
        hs,
        fs,
    )
}

proof fn lemma_gathered_step<R: GadgetRunner, T: Target, W: Workload, C: Wire>(
    t: Terms<R>,
    p: Plan,
    first: Scene<T, W, C, R::Handle>,
    a: Scene<T, W, C, R::Handle>,
    b: Scene<T, W, C, R::Handle>,
    c: Course,
    act: Act,
    hs: Seq<R::Handle>,
    fs: Seq<Fragment>,
) -> (r: (Seq<R::Handle>, Seq<Fragment>))
    requires
        regular(p, c),
        came(t, c, a, act, b),
        gathered(t, first, a, c, hs, fs),
        next(p, c, act).fault is None,
    ensures
        gathered(t, first, b, next(p, c, act), r.0, r.1),
{
    assert(contract::fragment_views(fs).len() == fs.len());
    match (c.stage, act) {
        (Stage::Spawn, Act::Spawned(_)) => {
            let h = b.running.last();
            let more = hs.push(h);
            assert(fs.len() == 0);
            assert(b.running =~= a.running.push(h));
            assert(b.running =~= more.skip(0));
            assert(b.deeds =~= first.deeds + capture::spawned(t.gadgets, more)
                + capture::collected(t.gadgets, more, fs));
            (more, fs)
        },
        (Stage::Wait, Act::Waited(Ok(f))) => {
            let more = fs.push(f);
            assert(contract::fragment_views(more) =~= contract::fragment_views(fs).push(f@));
            assert(a.running[0] == hs[fs.len() as int]);
            assert(b.running =~= hs.skip(more.len() as int));
            assert(b.deeds =~= first.deeds + capture::spawned(t.gadgets, hs) + capture::collected(
                t.gadgets,
                hs,
                more,
            ));
            (hs, more)
        },
        _ => (hs, fs),
    }
}

proof fn lemma_gathered<R: GadgetRunner, T: Target, W: Workload, C: Wire>(
    t: Terms<R>,
    p: Plan,
    acts: Seq<Act>,
    scenes: Seq<Scene<T, W, C, R::Handle>>,
) -> (r: (Seq<R::Handle>, Seq<Fragment>))
    requires
        played(t, p, acts, scenes),
        scenes[0].running.len() == 0,
        course(p, acts).fault is None,
    ensures
        gathered(t, scenes[0], scenes.last(), course(p, acts), r.0, r.1),
    decreases acts.len(),
{
    lemma_proper(t, p, acts, scenes);
    if acts.len() > 0 {
        let n = acts.len() - 1;
        lemma_begun(t, p, acts, scenes, n);
        lemma_no_fault(p, acts, n);
        assert(acts.take(n) =~= acts.drop_last());
        let (hs, fs) = lemma_gathered(t, p, acts.take(n), scenes.take(n + 1));
        lemma_regular(p, acts.drop_last());
        assert(came_at(t, p, acts, scenes, n));
        lemma_gathered_step(
            t,
            p,
            scenes[0],
            scenes[n],
            scenes[n + 1],
            course(p, acts.drop_last()),
            acts.last(),
            hs,
            fs,
        )
    } else {
        let hs: Seq<R::Handle> = Seq::empty();
        let fs: Seq<Fragment> = Seq::empty();
        assert(contract::fragment_views(fs) =~= Seq::empty());
        assert(scenes[0].running =~= hs.skip(0));
        assert(scenes[0].deeds =~= scenes[0].deeds + capture::spawned(t.gadgets, hs)
            + capture::collected(t.gadgets, hs, fs));
        (hs, fs)
    }
}

/// In a run that ends well the runner was asked to spawn every gadget, in order,
/// and then for the fragment of each, in that order and by its own handle, and
/// for nothing else. Those fragments are the first that the run gathered.
pub proof fn law_good_runs_collect_every_gadget<R: GadgetRunner, T: Target, W: Workload, C: Wire>(
    t: Terms<R>,
    p: Plan,
    acts: Seq<Act>,
    scenes: Seq<Scene<T, W, C, R::Handle>>,
    rows: Seq<Vm>,
)
    requires
        played(t, p, acts, scenes),
        scenes[0].running.len() == 0,
        p.gadgets == t.gadgets.len(),
        course(p, acts).stage is Over,
        concluded(course(p, acts), rows) is Ok,
    ensures
        exists|hs: Seq<R::Handle>, fs: Seq<Fragment>|
            {
                &&& hs.len() == t.gadgets.len()
                &&& fs.len() == t.gadgets.len()
                &&& scenes.last().deeds == scenes[0].deeds + capture::spawned(t.gadgets, hs)
                    + #[trigger] capture::collected(t.gadgets, hs, fs)
                &&& course(p, acts).pieces == contract::fragment_views(fs)
            },
{
    lemma_proper(t, p, acts, scenes);
    lemma_whole(p, acts);
    let (hs, fs) = lemma_gathered(t, p, acts, scenes);
    assert(contract::fragment_views(fs).len() == fs.len());
    assert(capture::collected(t.gadgets, hs, fs).len() == fs.len());
}

// ---------------------------------------------------------------------------
// What a run gives
// ---------------------------------------------------------------------------

proof fn lemma_stays(p: Plan, c: Course, a: Act)
    ensures
        c.stage != Stage::Sample ==> next(p, c, a).before == c.before,
        c.stage != Stage::SampleAgain ==> next(p, c, a).after == c.after,
        c.stage != Stage::Report ==> next(p, c, a).report == c.report,
        c.stage != Stage::Spans ==> next(p, c, a).spans == c.spans,
        c.stage != Stage::Measure ==> next(p, c, a).residents == c.residents,
{
}

/// Whether a course holds what came of an act that was done at a stage.
spec fn holds(c: Course, s: Stage, a: Act) -> bool {
    match a {
        Act::Sampled(m) => if s == Stage::Sample {
            c.before == m
        } else {
            c.after == m
        },
        Act::Reported(r) => c.report == (match r {
            Ok(v) => v@,
            Err(_) => Json::Null,
        }),
        Act::Spanned(Ok(v)) => c.spans == json::jsons(v@),
        Act::Measured(v) => c.residents == hostmem::held(v@),
        _ => true,
    }
}

/// Whether something comes of an act that a run gives in the end.
spec fn gives(a: Act) -> bool {
    match a {
        Act::Sampled(_) | Act::Reported(_) | Act::Measured(_) => true,
        Act::Spanned(r) => r is Ok,
        _ => false,
    }
}

proof fn lemma_given(p: Plan, c: Course, a: Act)
    requires
        fits(c.stage, a),
    ensures
        holds(next(p, c, a), c.stage, a),
        gives(a) ==> rank(c.stage) < rank(next(p, c, a).stage),
{
}

proof fn lemma_still_held(s: Stage, a: Act, c: Course, d: Course)
    requires
        fits(s, a),
        holds(c, s, a),
        gives(a) ==> rank(s) < rank(c.stage),
        c.stage != Stage::Sample ==> d.before == c.before,
        c.stage != Stage::SampleAgain ==> d.after == c.after,
        c.stage != Stage::Report ==> d.report == c.report,
        c.stage != Stage::Spans ==> d.spans == c.spans,
        c.stage != Stage::Measure ==> d.residents == c.residents,
    ensures
        holds(d, s, a),
{
}

proof fn lemma_held_next(p: Plan, acts: Seq<Act>, i: int, n: int)
    requires
        proper(p, acts),
        0 <= i < n < acts.len(),
        holds(course(p, acts.take(n)), course(p, acts.take(i)).stage, acts[i]),
        gives(acts[i]) ==> rank(course(p, acts.take(i)).stage) < rank(
            course(p, acts.take(n)).stage,
        ),
    ensures
        holds(course(p, acts.take(n + 1)), course(p, acts.take(i)).stage, acts[i]),
{
    lemma_fits(p, acts, i);
    lemma_fits(p, acts, n);
    let c = course(p, acts.take(n));
    let d = course(p, acts.take(n + 1));
    lemma_stays(p, c, acts[n]);
    lemma_still_held(course(p, acts.take(i)).stage, acts[i], c, d);
}

proof fn lemma_held(p: Plan, acts: Seq<Act>, i: int, n: int)
    requires
        proper(p, acts),
        0 <= i < n <= acts.len(),
    ensures
        holds(course(p, acts.take(n)), course(p, acts.take(i)).stage, acts[i]),
        gives(acts[i]) ==> rank(course(p, acts.take(i)).stage) < rank(
            course(p, acts.take(n)).stage,
        ),
    decreases n,
{
    if i < n - 1 {
        lemma_held(p, acts, i, n - 1);
        lemma_in_order(p, acts, n - 1, n);
        lemma_held_next(p, acts, i, n - 1);
    } else {
        lemma_fits(p, acts, i);
        lemma_given(p, course(p, acts.take(i)), acts[i]);
    }
}

/// The report of a run that ends well is what the workload reported when it was asked,
/// and null where it could not say.
pub proof fn law_good_runs_give_the_report<R: GadgetRunner, T: Target, W: Workload, C: Wire>(
    t: Terms<R>,
    p: Plan,
    acts: Seq<Act>,
    scenes: Seq<Scene<T, W, C, R::Handle>>,
    rows: Seq<Vm>,
    i: int,
)
    requires
        played(t, p, acts, scenes),
        concluded(course(p, acts), rows) is Ok,
        0 <= i < acts.len(),
        acts[i] is Reported,
    ensures
        scenes[i].workload.reported(
            scenes[i].log,
            scenes[i + 1].log,
            parse::document(acts[i]->Reported_0),
        ),
        acts[i]->Reported_0 matches Ok(v) ==> concluded(course(p, acts), rows)->Ok_0.workload_report
            == v@,
        acts[i]->Reported_0 is Err ==> concluded(course(p, acts), rows)->Ok_0.workload_report is Null,
{
    lemma_proper(t, p, acts, scenes);
    lemma_held(p, acts, i, acts.len() as int);
    assert(acts.take(acts.len() as int) =~= acts);
    assert(came_at(t, p, acts, scenes, i));
}

/// The spans of a run that ends well are those that the target told.
pub proof fn law_good_runs_give_the_spans<R: GadgetRunner, T: Target, W: Workload, C: Wire>(
    t: Terms<R>,
    p: Plan,
    acts: Seq<Act>,
    scenes: Seq<Scene<T, W, C, R::Handle>>,
    rows: Seq<Vm>,
    i: int,
)
    requires
        played(t, p, acts, scenes),
        concluded(course(p, acts), rows) is Ok,
        0 <= i < acts.len(),
        acts[i] matches Act::Spanned(r) && r is Ok,
    ensures
        scenes[i].target.spanned(
            scenes[i].log,
            scenes[i + 1].log,
            parse::documents(acts[i]->Spanned_0),
        ),
        concluded(course(p, acts), rows)->Ok_0.spans == json::jsons(acts[i]->Spanned_0->Ok_0@),
{
    lemma_proper(t, p, acts, scenes);
    lemma_held(p, acts, i, acts.len() as int);
    assert(acts.take(acts.len() as int) =~= acts);
    assert(came_at(t, p, acts, scenes, i));
}

/// What a run without attribution that ends well gives of the host's memory is from the
/// sample before the target was provisioned to the one after it was steady; and of the
/// snapshot files it gives what was measured, where any was.
pub proof fn law_good_runs_give_the_memory<R: GadgetRunner, T: Target, W: Workload, C: Wire>(
    t: Terms<R>,
    p: Plan,
    acts: Seq<Act>,
    scenes: Seq<Scene<T, W, C, R::Handle>>,
    rows: Seq<Vm>,
)
    requires
        played(t, p, acts, scenes),
        course(p, acts).stage is Over,
        concluded(course(p, acts), rows) is Ok,
        !p.attributed,
    ensures
        acts.len() == 11 + 2 * p.gadgets,
        acts[0] is Sampled,
        acts[4] is Sampled,
        acts[9int + 2 * p.gadgets] is Measured,
        ({
            let fs = concluded(course(p, acts), rows)->Ok_0.fragments;
            let held = hostmem::held(acts[9int + 2 * p.gadgets]->Measured_0@);
            &&& fs[p.gadgets as int] == hostmem::hostmem_piece(
                acts[0]->Sampled_0,
                acts[4]->Sampled_0,
            )
            &&& held.len() == 0 ==> fs.len() == p.gadgets + 1
            &&& held.len() > 0 ==> fs.len() == p.gadgets + 2 && fs[p.gadgets + 1int]
                == hostmem::resident_piece(held)
        }),
{
    law_good_runs_take_their_course(t, p, acts, scenes, rows);
    lemma_proper(t, p, acts, scenes);
    let n = acts.len() as int;
    let m = 9 + 2 * p.gadgets as int;
    assert(acts.take(n) =~= acts);
    assert(fits(good_stage(p.gadgets, 0), acts[0]));
    assert(fits(good_stage(p.gadgets, 4), acts[4]));
    assert(fits(good_stage(p.gadgets, m), acts[m]));
    lemma_good(p, acts, 0);
    lemma_good(p, acts, 4);
    lemma_good(p, acts, n);
    lemma_held(p, acts, 0, n);
    lemma_held(p, acts, 4, n);
    lemma_held(p, acts, m, n);
}

// ---------------------------------------------------------------------------
// Command adapters
// ---------------------------------------------------------------------------

/// The commands among events.
pub open spec fn commands_of(es: Seq<Event>) -> Seq<Seq<char>>
    decreases es.len(),
{
    if es.len() == 0 {
        Seq::empty()
    } else {
        match es.last() {
            Event::Ran(cmd, _) => commands_of(es.drop_last()).push(cmd),
            _ => commands_of(es.drop_last()),
        }
    }
}

/// The command of a phase, where it has a template.
pub open spec fn line_of(c: CommandSet, phase: Seq<char>) -> Seq<Seq<char>> {
    match adapter::phase_command(c, phase) {
        Some(cmd) => seq![cmd],
        None => Seq::empty(),
    }
}

/// The commands that an act runs where target and workload are command adapters.
pub open spec fn lines_of(target: CommandSet, workload: CommandSet, a: Act) -> Seq<Seq<char>> {
    match a {
        Act::Sampled(_) => seq!["cat /proc/meminfo"@],
        Act::Provisioned(_) => line_of(target, "provision"@),
        Act::Started(_) => line_of(target, "start"@),
        Act::Steadied(_) => line_of(target, "reach_steady"@),
        Act::Loaded(_) => line_of(workload, "start"@),
        Act::Stopped(_) => line_of(workload, "stop"@),
        Act::Reported(_) => line_of(workload, "report"@),
        Act::Spanned(_) => line_of(target, "spans"@),
        Act::ToreDown(_) => line_of(target, "teardown"@),
        _ => Seq::empty(),
    }
}

/// The commands that acts run, one after another.
pub open spec fn all_lines(target: CommandSet, workload: CommandSet, acts: Seq<Act>) -> Seq<
    Seq<char>,
>
    decreases acts.len(),
{
    if acts.len() == 0 {
        Seq::empty()
    } else {
        all_lines(target, workload, acts.drop_last()) + lines_of(target, workload, acts.last())
    }
}

proof fn lemma_quiet(a: Seq<Event>, b: Seq<Event>)
    requires
        forall|i: int| 0 <= i < b.len() ==> !(#[trigger] b[i] is Ran),
    ensures
        commands_of(a + b) == commands_of(a),
    decreases b.len(),
{
    if b.len() > 0 {
        assert((a + b).drop_last() =~= a + b.drop_last());
        lemma_quiet(a, b.drop_last());
    } else {
        assert(a + b =~= a);
    }
}

proof fn lemma_command_step<R: GadgetRunner, C: Wire>(
    t: Terms<R>,
    c: Course,
    a: Scene<CommandTarget, CommandWorkload, C, R::Handle>,
    act: Act,
    b: Scene<CommandTarget, CommandWorkload, C, R::Handle>,
)
    requires
        came(t, c, a, act, b),
    ensures
        b.target == a.target,
        b.workload == a.workload,
        commands_of(b.log) == commands_of(a.log) + lines_of(a.target.0, a.workload.0, act),
{
    assert(commands_of(a.log) + Seq::<Seq<char>>::empty() =~= commands_of(a.log));
    if b.log.len() == a.log.len() + 1 {
        assert(a.log.push(b.log.last()).drop_last() =~= a.log);
        assert(b.log.drop_last() =~= a.log ==> b.log =~= a.log.push(b.log.last()));
    }
    assert forall|x: Event| #[trigger] a.log.push(x).drop_last() == a.log by {
        assert(a.log.push(x).drop_last() =~= a.log);
    }
    assert forall|x: Seq<char>| commands_of(a.log).push(x) == commands_of(a.log) + #[trigger] seq![
        x,
    ] by {
        assert(commands_of(a.log).push(x) =~= commands_of(a.log) + seq![x]);
    }
    if let Act::Measured(_) = act {
        let more = b.log.skip(a.log.len() as int);
        assert(b.log =~= a.log + more);
        lemma_quiet(a.log, more);
    }
}

/// A run of command adapters asks the shell for the commands of its acts, in
/// their order, and for nothing else; target and workload stay as they are.
pub proof fn law_command_runs_ask_in_order<R: GadgetRunner, C: Wire>(
    t: Terms<R>,
    p: Plan,
    acts: Seq<Act>,
    scenes: Seq<Scene<CommandTarget, CommandWorkload, C, R::Handle>>,
)
    requires
        played(t, p, acts, scenes),
    ensures
        scenes.last().target == scenes[0].target,
        scenes.last().workload == scenes[0].workload,
        commands_of(scenes.last().log) == commands_of(scenes[0].log) + all_lines(
            scenes[0].target.0,
            scenes[0].workload.0,
            acts,
        ),
    decreases acts.len(),
{
    let first = scenes[0];
    if acts.len() > 0 {
        let n = acts.len() - 1;
        lemma_begun(t, p, acts, scenes, n);
        assert(acts.take(n) =~= acts.drop_last());
        law_command_runs_ask_in_order(t, p, acts.take(n), scenes.take(n + 1));
        assert(came_at(t, p, acts, scenes, n));
        lemma_command_step(t, course(p, acts.take(n)), scenes[n], acts[n], scenes[n + 1]);
        assert(commands_of(first.log) + all_lines(first.target.0, first.workload.0, acts)
            =~= commands_of(first.log) + all_lines(
            first.target.0,
            first.workload.0,
            acts.drop_last(),
        ) + lines_of(first.target.0, first.workload.0, acts.last()));
    } else {
        assert(commands_of(first.log) + Seq::<Seq<char>>::empty() =~= commands_of(first.log));
    }
}

} // verus!
