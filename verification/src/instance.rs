//! The targets and workloads that a definition can name.
use crate::adapter::{Event, Machine, NetAttribution, Phase, Session, Target, Turn, Workload};
use crate::command::{self, CommandTarget, CommandWorkload};
use crate::def::BenchmarkDef;
use crate::fanout::FanoutTarget;
use crate::firecracker::{self, FirecrackerTarget};
use crate::json::{Doc, Json};
use crate::pipeline::{self, TargetKind, WorkloadKind};
use crate::table::{self, Table};
use crate::vmm::{self, QemuTarget};
use crate::workloads::{self, FioWorkload, WrkWorkload};
use vstd::prelude::*;

verus! {

/// One instance of a target.
pub enum Instance {
    Firecracker(FirecrackerTarget),
    Qemu(QemuTarget),
    Command(CommandTarget),
}

impl Target for Instance {
    open spec fn did(
        phase: Phase,
        pre: Self,
        post: Self,
        old_log: Seq<Event>,
        log: Seq<Event>,
        r: Result<(), Seq<char>>,
    ) -> bool {
        match (pre, post) {
            (Instance::Firecracker(a), Instance::Firecracker(b)) => FirecrackerTarget::did(
                phase,
                a,
                b,
                old_log,
                log,
                r,
            ),
            (Instance::Qemu(a), Instance::Qemu(b)) => QemuTarget::did(
                phase,
                a,
                b,
                old_log,
                log,
                r,
            ),
            (Instance::Command(a), Instance::Command(b)) => CommandTarget::did(
                phase,
                a,
                b,
                old_log,
                log,
                r,
            ),
            _ => false,
        }
    }

    open spec fn spanned(
        self,
        old_log: Seq<Event>,
        log: Seq<Event>,
        r: Result<Seq<Json>, Seq<char>>,
    ) -> bool {
        match self {
            Instance::Firecracker(t) => t.spanned(old_log, log, r),
            Instance::Qemu(t) => t.spanned(old_log, log, r),
            Instance::Command(t) => t.spanned(old_log, log, r),
        }
    }

    open spec fn told(self, old_log: Seq<Event>, log: Seq<Event>, version: Seq<char>) -> bool {
        match self {
            Instance::Firecracker(t) => t.told(old_log, log, version),
            Instance::Qemu(t) => t.told(old_log, log, version),
            Instance::Command(t) => t.told(old_log, log, version),
        }
    }

    fn version<M: Machine>(&self, sh: &mut Session<M>) -> String {
        match self {
            Instance::Firecracker(t) => t.version(sh),
            Instance::Qemu(t) => t.version(sh),
            Instance::Command(t) => t.version(sh),
        }
    }

    fn provision<M: Machine>(&mut self, sh: &mut Session<M>) -> Result<(), String> {
        match self {
            Instance::Firecracker(t) => t.provision(sh),
            Instance::Qemu(t) => t.provision(sh),
            Instance::Command(t) => t.provision(sh),
        }
    }

    fn start<M: Machine>(&mut self, sh: &mut Session<M>) -> Result<(), String> {
        match self {
            Instance::Firecracker(t) => t.start(sh),
            Instance::Qemu(t) => t.start(sh),
            Instance::Command(t) => t.start(sh),
        }
    }

    fn reach_steady<M: Machine>(&mut self, sh: &mut Session<M>) -> Result<(), String> {
        match self {
            Instance::Firecracker(t) => t.reach_steady(sh),
            Instance::Qemu(t) => t.reach_steady(sh),
            Instance::Command(t) => t.reach_steady(sh),
        }
    }

    fn spans<M: Machine>(&self, sh: &mut Session<M>) -> Result<Vec<Doc>, String> {
        match self {
            Instance::Firecracker(t) => t.spans(sh),
            Instance::Qemu(t) => t.spans(sh),
            Instance::Command(t) => t.spans(sh),
        }
    }

    fn teardown<M: Machine>(&mut self, sh: &mut Session<M>) -> Result<(), String> {
        match self {
            Instance::Firecracker(t) => t.teardown(sh),
            Instance::Qemu(t) => t.teardown(sh),
            Instance::Command(t) => t.teardown(sh),
        }
    }

    fn pinning_layout(&self) -> (r: Option<Doc>)
        ensures
            match *self {
                Instance::Firecracker(t) => call_ensures(<FirecrackerTarget as Target>::pinning_layout, (&t,), r),
                Instance::Qemu(t) => call_ensures(<QemuTarget as Target>::pinning_layout, (&t,), r),
                Instance::Command(t) => call_ensures(<CommandTarget as Target>::pinning_layout, (&t,), r),
            },
    {
        match self {
            Instance::Firecracker(t) => t.pinning_layout(),
            Instance::Qemu(t) => t.pinning_layout(),
            Instance::Command(t) => t.pinning_layout(),
        }
    }

    fn resident_files(&self) -> (r: Vec<(String, String)>)
        ensures
            match *self {
                Instance::Firecracker(t) => call_ensures(<FirecrackerTarget as Target>::resident_files, (&t,), r),
                Instance::Qemu(t) => call_ensures(<QemuTarget as Target>::resident_files, (&t,), r),
                Instance::Command(t) => call_ensures(<CommandTarget as Target>::resident_files, (&t,), r),
            },
    {
        match self {
            Instance::Firecracker(t) => t.resident_files(),
            Instance::Qemu(t) => t.resident_files(),
            Instance::Command(t) => t.resident_files(),
        }
    }

    fn net_attribution(&self) -> (r: Vec<NetAttribution>)
        ensures
            match *self {
                Instance::Firecracker(t) => call_ensures(<FirecrackerTarget as Target>::net_attribution, (&t,), r),
                Instance::Qemu(t) => call_ensures(<QemuTarget as Target>::net_attribution, (&t,), r),
                Instance::Command(t) => call_ensures(<CommandTarget as Target>::net_attribution, (&t,), r),
            },
    {
        match self {
            Instance::Firecracker(t) => t.net_attribution(),
            Instance::Qemu(t) => t.net_attribution(),
            Instance::Command(t) => t.net_attribution(),
        }
    }
}

/// Whether an instance is that of a definition's target with variables.
pub open spec fn selected(
    r: Instance,
    def: BenchmarkDef,
    vars: Seq<(Seq<char>, Seq<char>)>,
    pin_threads: bool,
    process: u32,
    nonce: u64,
) -> bool {
    match (pipeline::target_kind_of(def.target.adapter@), r) {
        (TargetKind::Firecracker, Instance::Firecracker(t)) => firecracker::configured(
            t,
            def.target.config@,
            vars,
            pin_threads,
            process,
            nonce,
        ),
        (TargetKind::Qemu, Instance::Qemu(t)) => exists|v: Table<String>|
            v@ == vars && #[trigger] call_ensures(
                vmm::qemu_target,
                (&def.target.config, &v, pin_threads, process),
                t,
            ),
        (TargetKind::Command, Instance::Command(t)) => t.0.commands@ == def.target.commands@
            && t.0.vars@ == vars,
        _ => false,
    }
}

/// What is asked for the instances of a definition's target: the time, for each
/// machine that is told apart by it.
pub open spec fn clocked(def: BenchmarkDef, nonces: Seq<u64>) -> Seq<Event> {
    if pipeline::target_kind_of(def.target.adapter@) == TargetKind::Firecracker {
        nonces.map_values(|t: u64| Event::Clocked(t))
    } else {
        Seq::empty()
    }
}

/// Whether instances are those of a definition's target with sets of variables,
/// each told apart by the time at which it was made.
pub open spec fn all_selected(
    ts: Seq<Instance>,
    def: BenchmarkDef,
    sets: Seq<Seq<(Seq<char>, Seq<char>)>>,
    pin_threads: bool,
    process: u32,
    nonces: Seq<u64>,
) -> bool {
    &&& ts.len() == sets.len()
    &&& nonces.len() == sets.len()
    &&& forall|i: int|
        0 <= i < ts.len() ==> selected(
            #[trigger] ts[i],
            def,
            sets[i],
            pin_threads,
            process,
            nonces[i],
        )
}

/// The target that a definition names, with the variables of one instance. The
/// process and the time tell the machines of one host apart.
pub fn select_target<M: Machine>(
    def: &BenchmarkDef,
    vars: Table<String>,
    pin_threads: bool,
    process: u32,
    sh: &mut Session<M>,
) -> (r: Instance)
    ensures
        exists|nonce: u64| #[trigger]
            selected(r, *def, vars@, pin_threads, process, nonce) && final(sh).log() == old(
                sh,
            ).log() + clocked(*def, seq![nonce]),
{
    let ghost was = sh.log();
    match pipeline::select_target(&def.target.adapter) {
        TargetKind::Firecracker => {
            let nonce: u64 = sh.now_nanos();
            assert(sh.log() =~= was + clocked(*def, seq![nonce]));
            let t = firecracker::firecracker_target(
                &def.target.config,
                &vars,
                pin_threads,
                process,
                nonce,
            );
            let r = Instance::Firecracker(t);
            assert(selected(r, *def, vars@, pin_threads, process, nonce));
            r
        },
        TargetKind::Qemu => {
            let t = vmm::qemu_target(&def.target.config, &vars, pin_threads, process);
            assert(call_ensures(
                vmm::qemu_target,
                (&def.target.config, &vars, pin_threads, process),
                t,
            ));
            let r = Instance::Qemu(t);
            assert(sh.log() =~= was + clocked(*def, seq![0u64]));
            assert(selected(r, *def, vars@, pin_threads, process, 0));
            r
        },
        TargetKind::Command => {
            let ghost v = vars@;
            let r = Instance::Command(command::command_target(def, vars));
            assert(sh.log() =~= was + clocked(*def, seq![0u64]));
            assert(selected(r, *def, v, pin_threads, process, 0));
            r
        },
    }
}

/// A run's target: one instance, or several side by side.
pub enum RunTarget {
    One(Instance),
    Many(FanoutTarget<Instance>),
}

impl Target for RunTarget {
    open spec fn did(
        phase: Phase,
        pre: Self,
        post: Self,
        old_log: Seq<Event>,
        log: Seq<Event>,
        r: Result<(), Seq<char>>,
    ) -> bool {
        match (pre, post) {
            (RunTarget::One(a), RunTarget::One(b)) => Instance::did(
                phase,
                a,
                b,
                old_log,
                log,
                r,
            ),
            (RunTarget::Many(a), RunTarget::Many(b)) => FanoutTarget::<Instance>::did(
                phase,
                a,
                b,
                old_log,
                log,
                r,
            ),
            _ => false,
        }
    }

    open spec fn spanned(
        self,
        old_log: Seq<Event>,
        log: Seq<Event>,
        r: Result<Seq<Json>, Seq<char>>,
    ) -> bool {
        match self {
            RunTarget::One(t) => t.spanned(old_log, log, r),
            RunTarget::Many(t) => t.spanned(old_log, log, r),
        }
    }

    open spec fn told(self, old_log: Seq<Event>, log: Seq<Event>, version: Seq<char>) -> bool {
        match self {
            RunTarget::One(t) => t.told(old_log, log, version),
            RunTarget::Many(t) => t.told(old_log, log, version),
        }
    }

    fn version<M: Machine>(&self, sh: &mut Session<M>) -> String {
        match self {
            RunTarget::One(t) => t.version(sh),
            RunTarget::Many(t) => t.version(sh),
        }
    }

    fn provision<M: Machine>(&mut self, sh: &mut Session<M>) -> Result<(), String> {
        match self {
            RunTarget::One(t) => t.provision(sh),
            RunTarget::Many(t) => t.provision(sh),
        }
    }

    fn start<M: Machine>(&mut self, sh: &mut Session<M>) -> Result<(), String> {
        match self {
            RunTarget::One(t) => t.start(sh),
            RunTarget::Many(t) => t.start(sh),
        }
    }

    fn reach_steady<M: Machine>(&mut self, sh: &mut Session<M>) -> Result<(), String> {
        match self {
            RunTarget::One(t) => t.reach_steady(sh),
            RunTarget::Many(t) => t.reach_steady(sh),
        }
    }

    fn spans<M: Machine>(&self, sh: &mut Session<M>) -> Result<Vec<Doc>, String> {
        match self {
            RunTarget::One(t) => t.spans(sh),
            RunTarget::Many(t) => t.spans(sh),
        }
    }

    fn teardown<M: Machine>(&mut self, sh: &mut Session<M>) -> Result<(), String> {
        match self {
            RunTarget::One(t) => t.teardown(sh),
            RunTarget::Many(t) => t.teardown(sh),
        }
    }

    fn pinning_layout(&self) -> (r: Option<Doc>)
        ensures
            match *self {
                RunTarget::One(t) => call_ensures(<Instance as Target>::pinning_layout, (&t,), r),
                RunTarget::Many(t) => call_ensures(<FanoutTarget<Instance> as Target>::pinning_layout, (&t,), r),
            },
    {
        match self {
            RunTarget::One(t) => t.pinning_layout(),
            RunTarget::Many(t) => t.pinning_layout(),
        }
    }

    fn resident_files(&self) -> (r: Vec<(String, String)>)
        ensures
            match *self {
                RunTarget::One(t) => call_ensures(<Instance as Target>::resident_files, (&t,), r),
                RunTarget::Many(t) => call_ensures(<FanoutTarget<Instance> as Target>::resident_files, (&t,), r),
            },
    {
        match self {
            RunTarget::One(t) => t.resident_files(),
            RunTarget::Many(t) => t.resident_files(),
        }
    }

    fn net_attribution(&self) -> (r: Vec<NetAttribution>)
        ensures
            match *self {
                RunTarget::One(t) => call_ensures(<Instance as Target>::net_attribution, (&t,), r),
                RunTarget::Many(t) => call_ensures(<FanoutTarget<Instance> as Target>::net_attribution, (&t,), r),
            },
    {
        match self {
            RunTarget::One(t) => t.net_attribution(),
            RunTarget::Many(t) => t.net_attribution(),
        }
    }
}

/// The instances of a run's target.
pub open spec fn instances(t: RunTarget) -> Seq<Instance> {
    match t {
        RunTarget::One(i) => seq![i],
        RunTarget::Many(f) => f.inners(),
    }
}

/// The target of a run: one instance for each set of variables, side by side
/// unless there is but one.
pub fn run_target<M: Machine>(
    def: &BenchmarkDef,
    vars: &Table<String>,
    pin_threads: bool,
    process: u32,
    sh: &mut Session<M>,
) -> (r: RunTarget)
    ensures
        r is One <==> instances(r).len() == 1,
        r matches RunTarget::Many(f) ==> f.recorded().len() == 0,
        exists|nonces: Seq<u64>| #[trigger]
            all_selected(
                instances(r),
                *def,
                pipeline::all_vars(def.target.config@, vars@, pin_threads),
                pin_threads,
                process,
                nonces,
            ) && final(sh).log() == old(sh).log() + clocked(*def, nonces),
{
    let mut sets = pipeline::build_target(def, vars, pin_threads);
    let ghost given = sets@;
    let ghost all = pipeline::table_views(given);
    let ghost was = sh.log();
    let mut each: Vec<Instance> = Vec::new();
    let ghost mut nonces: Seq<u64> = Seq::empty();
    let ghost mut i: int = 0;
    assert(given.skip(0) =~= given);
    assert(was + clocked(*def, nonces) =~= was);
    assert(all.take(0) =~= Seq::empty());
    while sets.len() > 0
        invariant
            0 <= i,
            sets@ == given.skip(i),
            i + sets@.len() == given.len(),
            all == pipeline::table_views(given),
            was == old(sh).log(),
            sh.log() == was + clocked(*def, nonces),
            each@.len() == i,
            all_selected(each@, *def, all.take(i), pin_threads, process, nonces),
        decreases sets@.len(),
    {
        let v = sets.remove(0);
        let ghost set = v@;
        assert(all[i] == set);
        let ghost before = each@;
        let ghost log = sh.log();
        let t = select_target(def, v, pin_threads, process, sh);
        let ghost nonce = choose|nonce: u64| #[trigger]
            selected(t, *def, set, pin_threads, process, nonce) && sh.log() == log + clocked(
                *def,
                seq![nonce],
            );
        each.push(t);
        proof {
            let more = nonces.push(nonce);
            assert(sets@ =~= given.skip(i + 1));
            assert(sh.log() =~= was + clocked(*def, more));
            let sets = all.take(i + 1);
            assert forall|j: int| 0 <= j < each@.len() implies selected(
                #[trigger] each@[j],
                *def,
                sets[j],
                pin_threads,
                process,
                more[j],
            ) by {
                if j < i {
                    assert(each@[j] == before[j]);
                    assert(sets[j] == all.take(i)[j]);
                }
            }
            nonces = more;
            i = i + 1;
        }
    }
    assert(all.take(i) =~= all);
    let ghost every = each@;
    let r = if each.len() == 1 {
        let t = each.remove(0);
        assert(seq![t] =~= every);
        RunTarget::One(t)
    } else {
        RunTarget::Many(FanoutTarget::new(each))
    };
    assert(instances(r) == every);
    assert(all_selected(instances(r), *def, all, pin_threads, process, nonces));
    r
}

/// A run's workload, `V` being what drives a guest over its vsock.
pub enum RunWorkload<V: Workload> {
    Fio(FioWorkload),
    Wrk(WrkWorkload),
    Vsock(V),
    Command(CommandWorkload),
}

impl<V: Workload> Workload for RunWorkload<V> {
    open spec fn took(
        turn: Turn,
        pre: Self,
        post: Self,
        old_log: Seq<Event>,
        log: Seq<Event>,
        r: Result<(), Seq<char>>,
    ) -> bool {
        match (pre, post) {
            (RunWorkload::Fio(a), RunWorkload::Fio(b)) => FioWorkload::took(
                turn,
                a,
                b,
                old_log,
                log,
                r,
            ),
            (RunWorkload::Wrk(a), RunWorkload::Wrk(b)) => WrkWorkload::took(
                turn,
                a,
                b,
                old_log,
                log,
                r,
            ),
            (RunWorkload::Vsock(a), RunWorkload::Vsock(b)) => V::took(
                turn,
                a,
                b,
                old_log,
                log,
                r,
            ),
            (RunWorkload::Command(a), RunWorkload::Command(b)) => CommandWorkload::took(
                turn,
                a,
                b,
                old_log,
                log,
                r,
            ),
            _ => false,
        }
    }

    open spec fn reported(
        self,
        old_log: Seq<Event>,
        log: Seq<Event>,
        r: Result<Json, Seq<char>>,
    ) -> bool {
        match self {
            RunWorkload::Fio(w) => w.reported(old_log, log, r),
            RunWorkload::Wrk(w) => w.reported(old_log, log, r),
            RunWorkload::Vsock(w) => w.reported(old_log, log, r),
            RunWorkload::Command(w) => w.reported(old_log, log, r),
        }
    }

    open spec fn told(self, old_log: Seq<Event>, log: Seq<Event>, version: Seq<char>) -> bool {
        match self {
            RunWorkload::Fio(w) => w.told(old_log, log, version),
            RunWorkload::Wrk(w) => w.told(old_log, log, version),
            RunWorkload::Vsock(w) => w.told(old_log, log, version),
            RunWorkload::Command(w) => w.told(old_log, log, version),
        }
    }

    fn version<M: Machine>(&self, sh: &mut Session<M>) -> String {
        match self {
            RunWorkload::Fio(w) => w.version(sh),
            RunWorkload::Wrk(w) => w.version(sh),
            RunWorkload::Vsock(w) => w.version(sh),
            RunWorkload::Command(w) => w.version(sh),
        }
    }

    fn start<M: Machine>(&mut self, sh: &mut Session<M>) -> Result<(), String> {
        match self {
            RunWorkload::Fio(w) => w.start(sh),
            RunWorkload::Wrk(w) => w.start(sh),
            RunWorkload::Vsock(w) => w.start(sh),
            RunWorkload::Command(w) => w.start(sh),
        }
    }

    fn stop<M: Machine>(&mut self, sh: &mut Session<M>) -> Result<(), String> {
        match self {
            RunWorkload::Fio(w) => w.stop(sh),
            RunWorkload::Wrk(w) => w.stop(sh),
            RunWorkload::Vsock(w) => w.stop(sh),
            RunWorkload::Command(w) => w.stop(sh),
        }
    }

    fn report<M: Machine>(&self, sh: &mut Session<M>) -> Result<Doc, String> {
        match self {
            RunWorkload::Fio(w) => w.report(sh),
            RunWorkload::Wrk(w) => w.report(sh),
            RunWorkload::Vsock(w) => w.report(sh),
            RunWorkload::Command(w) => w.report(sh),
        }
    }
}

/// The driver that a definition names. Where it names a guest's vsock, `vsock` is
/// that driver.
pub fn select_workload<V: Workload>(def: &BenchmarkDef, vars: &Table<String>, vsock: V) -> (r:
    RunWorkload<V>)
    ensures
        match (pipeline::workload_kind_of(def.workload.driver@), r) {
            (WorkloadKind::Fio, RunWorkload::Fio(w)) => call_ensures(
                workloads::fio_workload,
                (&def.workload.config, vars),
                w,
            ),
            (WorkloadKind::Wrk, RunWorkload::Wrk(w)) => call_ensures(
                workloads::wrk_workload,
                (&def.workload.config, vars),
                w,
            ),
            (WorkloadKind::Vsock, RunWorkload::Vsock(w)) => w == vsock,
            (WorkloadKind::Command, RunWorkload::Command(w)) => w.0.commands@
                == def.workload.commands@ && w.0.vars@ == vars@,
            _ => false,
        },
{
    match pipeline::select_workload(&def.workload.driver) {
        WorkloadKind::Fio => RunWorkload::Fio(workloads::fio_workload(&def.workload.config, vars)),
        WorkloadKind::Wrk => RunWorkload::Wrk(workloads::wrk_workload(&def.workload.config, vars)),
        WorkloadKind::Vsock => RunWorkload::Vsock(vsock),
        WorkloadKind::Command => RunWorkload::Command(
            command::command_workload(def, table::copy_texts(vars)),
        ),
    }
}

} // verus!
