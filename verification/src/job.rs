//! One run of the pipeline, from a target that does not exist yet to a record.
use crate::adapter::{Event, Machine, Target, Workload};
use crate::capture::{GadgetInvocation, GadgetRunner};
use crate::contract::{self, AssayRun, Record};
use crate::def::{BenchmarkDef, Cell};
use crate::drive::{self, Act, Artifacts, Plan, Rig, Scene, Terms};
use crate::fanout;
use crate::host::HostSession;
use crate::hostprep::{self, Host, HostPrep};
use crate::json::{self, Json};
use crate::netattrib::Wire;
use crate::pipeline::{self, Job};
use crate::run::{self, AdapterVersions};
use crate::text;
use vstd::prelude::*;

verus! {

/// Which run it is, for messages.
pub open spec fn place(label: Seq<char>, ci: nat, repeat: nat) -> Seq<char> {
    label + "[cell "@ + text::decimal(ci) + " #"@ + text::decimal(repeat) + "]"@
}

fn place_of(job: &Job) -> (r: String)
    ensures
        r@ == place(job.label@, job.ci as nat, job.repeat as nat),
{
    let mut s = text::join2(&job.label, "[cell ");
    s.append(&text::dec(job.ci as u64));
    s.append(" #");
    s.append(&text::dec(job.repeat as u64));
    s.append("]");
    s
}

/// The view of a record that may have failed.
pub open spec fn record_view(r: Result<AssayRun, String>) -> Result<Record, Seq<char>> {
    match r {
        Ok(a) => Ok(a@),
        Err(e) => Err(e@),
    }
}

/// Whether a record is that of what a run produced, on a host that was
/// fingerprinted after it. The versions are those that target and workload told
/// when the run was over, the one after the other; the pinning layout is the
/// target's; the id is of the time, in the process, when the record was made.
pub open spec fn record_of<T: Target, W: Workload, C: Wire, H>(
    r: Record,
    end: Scene<T, W, C, H>,
    last: Scene<T, W, C, H>,
    process: u32,
    def: BenchmarkDef,
    cell: Cell,
    sha: Seq<char>,
    sut: Seq<char>,
    h: contract::Host,
    a: Artifacts,
) -> bool {
    exists|v: AdapterVersions, mid: Seq<Event>, late: Seq<Event>, layout: Option<Json>, t: u64|
        {
            &&& #[trigger] versions_told(end, v, mid, late)
            &&& last == (Scene { log: late.push(Event::Clocked(t)), ..end })
            &&& fanout::layout_reported(end.target, layout)
            &&& r == #[trigger] pipeline::recorded(
                run::run_id(t, process),
                pipeline::identity_of(def, cell, sha, sut, v),
                pipeline::pinned(h, layout),
                run::gate_context(def, Seq::empty()),
                a,
            )
        }
}

/// Whether target and workload told their versions, in this order.
pub open spec fn versions_told<T: Target, W: Workload, C: Wire, H>(
    end: Scene<T, W, C, H>,
    v: AdapterVersions,
    mid: Seq<Event>,
    late: Seq<Event>,
) -> bool {
    end.target.told(end.log, mid, v.target@) && end.workload.told(mid, late, v.workload@)
}

/// Whether a run that produced something was recorded: the host's fingerprint
/// is read again, so that a host that drifts shows in the run's own record.
pub open spec fn recorded_after<'b, T: Target, W: Workload, C: Wire, H, S: Host>(
    end: Scene<T, W, C, H>,
    last: Scene<T, W, C, H>,
    process: u32,
    pre: HostSession<'b, S>,
    post: HostSession<'b, S>,
    prep: HostPrep,
    def: BenchmarkDef,
    cell: Cell,
    sha: Seq<char>,
    job: Job,
    a: Artifacts,
    r: Result<Record, Seq<char>>,
) -> bool {
    exists|f: Result<contract::Host, Seq<char>>| #[trigger]
        hostprep::seen(pre, post, prep, def.tenancy@, f) && match f {
            Err(e) => r == Err::<Record, Seq<char>>(
                "re-reading fingerprint for "@ + place(
                    job.label@,
                    job.ci as nat,
                    job.repeat as nat,
                ) + ": "@ + e,
            ) && exists|v: AdapterVersions, mid: Seq<Event>|
                last == (Scene { log: last.log, ..end }) && #[trigger] versions_told(
                    end,
                    v,
                    mid,
                    last.log,
                ),
            Ok(h) => r matches Ok(x) && record_of(
                x,
                end,
                last,
                process,
                def,
                cell,
                sha,
                job.sut@,
                h,
                a,
            ),
        }
}

/// What is known of one run: how it went, and what was recorded of it. Nothing
/// is asked of the host where it failed.
pub open spec fn made<'b, R: GadgetRunner, T: Target, W: Workload, C: Wire, S: Host>(
    t: Terms<R>,
    p: Plan,
    first: Scene<T, W, C, R::Handle>,
    end: Scene<T, W, C, R::Handle>,
    last: Scene<T, W, C, R::Handle>,
    acts: Seq<Act>,
    scenes: Seq<Scene<T, W, C, R::Handle>>,
    pre: HostSession<'b, S>,
    post: HostSession<'b, S>,
    prep: HostPrep,
    def: BenchmarkDef,
    cell: Cell,
    sha: Seq<char>,
    job: Job,
    r: Result<Record, Seq<char>>,
) -> bool {
    &&& drive::ran(t, p, first, end, acts, scenes)
    &&& match drive::concluded(drive::course(p, acts), drive::rows_of(end.attrib)) {
        Err(e) => r == Err::<Record, Seq<char>>(
            "run "@ + place(job.label@, job.ci as nat, job.repeat as nat) + " failed: "@ + e,
        ) && last == end && post == pre,
        Ok(a) => recorded_after(
            end,
            last,
            t.process,
            pre,
            post,
            prep,
            def,
            cell,
            sha,
            job,
            a,
            r,
        ),
    }
}

/// Make one run and record it.
pub fn run_job<
    'a,
    M: Machine,
    R: GadgetRunner,
    T: Target,
    W: Workload,
    C: Wire,
    H: Host,
>(
    rig: &mut Rig<'a, M, R, T, W, C>,
    host: &mut HostSession<H>,
    prep: &HostPrep,
    def: &BenchmarkDef,
    cell: &Cell,
    sha: &str,
    job: &Job,
    gadgets: &Vec<GadgetInvocation>,
) -> (r: Result<AssayRun, String>)
    requires
        old(rig).running@.len() == 0,
        drive::room_for_taps::<T, C>(old(rig).attrib),
    ensures
        final(rig).terms(gadgets@) == old(rig).terms(gadgets@),
        exists|
            end: Scene<T, W, C, R::Handle>,
            acts: Seq<Act>,
            scenes: Seq<Scene<T, W, C, R::Handle>>,
        | #[trigger]
            made(
                old(rig).terms(gadgets@),
                drive::plan_of(*old(rig), gadgets@),
                old(rig).scene(),
                end,
                final(rig).scene(),
                acts,
                scenes,
                *old(host),
                *final(host),
                *prep,
                *def,
                *cell,
                sha@,
                *job,
                record_view(r),
            ),
{
    let process: u32 = rig.process;
    let ghost terms = rig.terms(gadgets@);
    let ghost p = drive::plan_of(*rig, gadgets@);
    let ghost first = rig.scene();
    let ran = drive::execute_run(rig, gadgets);
    let ghost end = rig.scene();
    let ghost (acts, scenes) = choose|
        acts: Seq<Act>,
        scenes: Seq<Scene<T, W, C, R::Handle>>,
    |
        {
            &&& #[trigger] drive::ran(terms, p, first, end, acts, scenes)
            &&& drive::run_view(ran) == drive::concluded(
                drive::course(p, acts),
                drive::rows_of(end.attrib),
            )
        };
    let art = match ran {
        Ok(a) => a,
        Err(e) => {
            let mut m = text::join2("run ", &place_of(job));
            m.append(" failed: ");
            m.append(&e);
            assert(made(
                terms,
                p,
                first,
                end,
                rig.scene(),
                acts,
                scenes,
                *old(host),
                *host,
                *prep,
                *def,
                *cell,
                sha@,
                *job,
                Err::<Record, Seq<char>>(m@),
            ));
            return Err(m);
        },
    };
    let ghost a = art@;
    let target = rig.target.version(&mut rig.sh);
    let ghost mid = rig.sh.log();
    let workload = rig.workload.version(&mut rig.sh);
    let ghost late = rig.sh.log();
    let versions = AdapterVersions { target, workload };
    assert(versions_told(end, versions, mid, late));
    let fp = match hostprep::observe(host, prep, &def.tenancy) {
        Ok(f) => f,
        Err(e) => {
            let mut m = text::join2("re-reading fingerprint for ", &place_of(job));
            m.append(": ");
            m.append(&e);
            proof {
                let f = Err::<contract::Host, Seq<char>>(e@);
                let r = Err::<Record, Seq<char>>(m@);
                assert(hostprep::seen(*old(host), *host, *prep, def.tenancy@, f));
                assert(recorded_after(
                    end,
                    rig.scene(),
                    process,
                    *old(host),
                    *host,
                    *prep,
                    *def,
                    *cell,
                    sha@,
                    *job,
                    a,
                    r,
                ));
                assert(made(
                    terms,
                    p,
                    first,
                    end,
                    rig.scene(),
                    acts,
                    scenes,
                    *old(host),
                    *host,
                    *prep,
                    *def,
                    *cell,
                    sha@,
                    *job,
                    r,
                ));
            }
            return Err(m);
        },
    };
    let ghost h = fp@;
    let layout = rig.target.pinning_layout();
    let ghost l = json::opt_json(layout);
    let id = run::new_run_id(&mut rig.sh, process);
    let ghost t = choose|t: u64|
        rig.sh.log() == late.push(Event::Clocked(t)) && id@ == #[trigger] run::run_id(t, process);
    let rec = pipeline::record_run(id, def, cell, sha, &job.sut, &versions, fp, layout, art);
    proof {
        let r = Ok::<Record, Seq<char>>(rec@);
        let f = Ok::<contract::Host, Seq<char>>(h);
        assert(fanout::layout_reported(end.target, l));
        assert(rec@ == pipeline::recorded(
            run::run_id(t, process),
            pipeline::identity_of(*def, *cell, sha@, job.sut@, versions),
            pipeline::pinned(h, l),
            run::gate_context(*def, Seq::empty()),
            a,
        ));
        assert(record_of(rec@, end, rig.scene(), process, *def, *cell, sha@, job.sut@, h, a));
        assert(hostprep::seen(*old(host), *host, *prep, def.tenancy@, f));
        assert(recorded_after(
            end,
            rig.scene(),
            process,
            *old(host),
            *host,
            *prep,
            *def,
            *cell,
            sha@,
            *job,
            a,
            r,
        ));
        assert(made(
            terms,
            p,
            first,
            end,
            rig.scene(),
            acts,
            scenes,
            *old(host),
            *host,
            *prep,
            *def,
            *cell,
            sha@,
            *job,
            r,
        ));
    }
    Ok(rec)
}

} // verus!
