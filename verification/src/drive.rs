//! Driving one run: bring the target up, spawn the gadgets, run the workload
//! across the capture window, collect the fragments and wind everything down.
//!
//! A run is a state machine. [`Progress`] says what is to be done next, a [`Rig`]
//! does it, and what came of it takes the progress on.
use crate::adapter::{self, Event, Machine, NetAttribution, Phase, Session, Target, Turn, Workload};
use crate::capture::{GadgetInvocation, GadgetRunner};
use crate::contract::{self, Fragment, Piece};
use crate::crew::{self, Crew, Deed};
use crate::fanout;
use crate::hostmem::{self, Held, Resident};
use crate::json::{self, Doc, Json, Object};
use crate::netattrib::{self, AttributionSession, Vm, Wire, LIFECYCLE_RUNNING};
use crate::parse;
use crate::run;
use crate::text;
use vstd::prelude::*;

verus! {

// ---------------------------------------------------------------------------
// The course of a run
// ---------------------------------------------------------------------------

/// What came of one thing that a run did.
#[derive(Debug)]
pub enum Act {
    /// The host's memory, available and cached.
    Sampled((i64, i64)),
    Provisioned(Result<(), String>),
    Started(Result<(), String>),
    Steadied(Result<(), String>),
    /// The taps that the target set up.
    Tapped(Vec<NetAttribution>),
    /// A tap was registered under an id, and got a handle.
    Added(String, Result<u64, String>),
    Marked(Result<(), String>),
    Spawned(Result<(), String>),
    Loaded(Result<(), String>),
    Waited(Result<Fragment, String>),
    Stopped(Result<(), String>),
    Reported(Result<Doc, String>),
    Spanned(Result<Vec<Doc>, String>),
    Measured(Vec<Resident>),
    Removed(Result<(), String>),
    ToreDown(Result<(), String>),
}

/// What a run does next.
#[derive(Clone, Copy, Debug, PartialEq, Eq, Structural)]
pub enum Stage {
    /// Sample the host's memory before the target exists.
    Sample,
    Provision,
    Start,
    Steady,
    /// Sample the host's memory again.
    SampleAgain,
    /// Ask the target for its taps.
    Taps,
    /// Register the next tap.
    Add,
    /// Mark the VM registered last as running.
    Mark,
    /// Spawn the next gadget.
    Spawn,
    /// Start the workload.
    Load,
    /// Wait for the next gadget.
    Wait,
    /// Stop the workload.
    Stop,
    Report,
    Spans,
    /// Measure the residency of snapshot files.
    Measure,
    /// Remove the next VM that was registered.
    Remove,
    Teardown,
    Over,
}

/// What a run is given.
pub struct Plan {
    /// How many gadgets there are.
    pub gadgets: nat,
    /// Whether VMs are to be attributed.
    pub attributed: bool,
}

/// How far a run has come.
#[verifier::ext_equal]
pub struct Course {
    pub stage: Stage,
    pub before: (i64, i64),
    pub after: (i64, i64),
    pub taps: Seq<NetAttribution>,
    pub handles: Seq<u64>,
    pub spawned: nat,
    pub pieces: Seq<Piece>,
    pub report: Json,
    pub spans: Seq<Json>,
    pub residents: Seq<Held>,
    pub removed: nat,
    pub fault: Option<Seq<char>>,
}

pub open spec fn at_start() -> Course {
    Course {
        stage: Stage::Sample,
        before: (0, 0),
        after: (0, 0),
        taps: Seq::empty(),
        handles: Seq::empty(),
        spawned: 0,
        pieces: Seq::empty(),
        report: Json::Null,
        spans: Seq::empty(),
        residents: Seq::empty(),
        removed: 0,
        fault: None,
    }
}

impl Course {
    pub open spec fn to(self, stage: Stage) -> Course {
        Course { stage, ..self }
    }

    /// Wind down: remove what was registered, then tear the target down.
    pub open spec fn down(self) -> Course {
        self.to(
            if self.handles.len() > 0 {
                Stage::Remove
            } else {
                Stage::Teardown
            },
        )
    }

    /// Wind down because of a failure.
    pub open spec fn failing(self, e: Seq<char>) -> Course {
        Course { fault: Some(e), ..self }.down()
    }

    /// The next stage, where the last step went well.
    pub open spec fn on(self, r: Result<(), String>, next: Course) -> Course {
        match r {
            Ok(()) => next,
            Err(e) => self.failing(e@),
        }
    }

    /// On to the gadgets, and from them to the workload.
    pub open spec fn spawning(self, p: Plan) -> Course {
        self.to(
            if self.spawned < p.gadgets {
                Stage::Spawn
            } else {
                Stage::Load
            },
        )
    }

    /// On to the fragments, and from them to the end of the workload.
    pub open spec fn waiting(self, p: Plan) -> Course {
        self.to(
            if self.pieces.len() < p.gadgets {
                Stage::Wait
            } else {
                Stage::Stop
            },
        )
    }
}

pub open spec fn no_tap() -> Seq<char> {
    "attribution enabled but the target set up no tap (note: tap networking is cold boot only, so a snapshot-restore def will not have one even with the key set); set `network: tap` on a cold-boot target"@
}

/// The VM of a tap.
pub open spec fn vm(na: NetAttribution, id: Seq<char>, handle: u64) -> Vm {
    Vm {
        handle,
        vm_id: id,
        tap: na.tap@,
        guest_mac: na.guest_mac@,
        ifindex: na.ifindex,
        netns_inum: na.netns_inum,
    }
}

/// The first `n` files that could be measured, each with its label.
pub open spec fn measured(
    files: Seq<(Seq<char>, Seq<char>)>,
    answers: Seq<Option<(u64, u64, Seq<char>)>>,
    n: nat,
) -> Seq<Held>
    decreases n,
{
    if n == 0 {
        Seq::empty()
    } else {
        let before = measured(files, answers, (n - 1) as nat);
        match answers[n - 1] {
            Some(x) => before.push(
                Held { label: files[n - 1].0, resident: x.0, total: x.1, fraction: x.2 },
            ),
            None => before,
        }
    }
}

/// Whether an act is of the kind that a stage asks for.
pub open spec fn fits(s: Stage, a: Act) -> bool {
    match (s, a) {
        (Stage::Sample, Act::Sampled(_)) => true,
        (Stage::Provision, Act::Provisioned(_)) => true,
        (Stage::Start, Act::Started(_)) => true,
        (Stage::Steady, Act::Steadied(_)) => true,
        (Stage::SampleAgain, Act::Sampled(_)) => true,
        (Stage::Taps, Act::Tapped(_)) => true,
        (Stage::Add, Act::Added(..)) => true,
        (Stage::Mark, Act::Marked(_)) => true,
        (Stage::Spawn, Act::Spawned(_)) => true,
        (Stage::Load, Act::Loaded(_)) => true,
        (Stage::Wait, Act::Waited(_)) => true,
        (Stage::Stop, Act::Stopped(_)) => true,
        (Stage::Report, Act::Reported(_)) => true,
        (Stage::Spans, Act::Spanned(_)) => true,
        (Stage::Measure, Act::Measured(_)) => true,
        (Stage::Remove, Act::Removed(_)) => true,
        (Stage::Teardown, Act::ToreDown(_)) => true,
        _ => false,
    }
}

/// How far a run has come after one more act. An act of another kind than the
/// stage asks for takes it nowhere.
pub open spec fn next(p: Plan, c: Course, a: Act) -> Course {
    match (c.stage, a) {
        (Stage::Sample, Act::Sampled(m)) => Course { before: m, ..c }.to(Stage::Provision),
        (Stage::Provision, Act::Provisioned(r)) => c.on(r, c.to(Stage::Start)),
        (Stage::Start, Act::Started(r)) => c.on(r, c.to(Stage::Steady)),
        (Stage::Steady, Act::Steadied(r)) => c.on(r, c.to(Stage::SampleAgain)),
        (Stage::SampleAgain, Act::Sampled(m)) => {
            let d = Course { after: m, ..c };
            if p.attributed {
                d.to(Stage::Taps)
            } else {
                d.spawning(p)
            }
        },
        (Stage::Taps, Act::Tapped(taps)) => if taps@.len() == 0 {
            c.failing(no_tap())
        } else {
            Course { taps: taps@, ..c }.to(Stage::Add)
        },
        (Stage::Add, Act::Added(_, r)) => match r {
            Ok(h) => Course { handles: c.handles.push(h), ..c }.to(Stage::Mark),
            Err(e) => c.failing(e@),
        },
        (Stage::Mark, Act::Marked(r)) => c.on(
            r,
            if c.handles.len() < c.taps.len() {
                c.to(Stage::Add)
            } else {
                c.spawning(p)
            },
        ),
        (Stage::Spawn, Act::Spawned(r)) => c.on(
            r,
            Course { spawned: c.spawned + 1, ..c }.spawning(p),
        ),
        (Stage::Load, Act::Loaded(r)) => c.on(r, c.waiting(p)),
        (Stage::Wait, Act::Waited(r)) => match r {
            Ok(f) => Course { pieces: c.pieces.push(f@), ..c }.waiting(p),
            Err(e) => Course { fault: Some(e@), ..c }.to(Stage::Stop),
        },
        (Stage::Stop, Act::Stopped(_)) => if c.fault is Some {
            c.down()
        } else {
            c.to(Stage::Report)
        },
        (Stage::Report, Act::Reported(r)) => Course {
            report: match r {
                Ok(v) => v@,
                Err(_) => Json::Null,
            },
            ..c
        }.to(Stage::Spans),
        (Stage::Spans, Act::Spanned(r)) => match r {
            Ok(spans) => Course { spans: json::jsons(spans@), ..c }.to(Stage::Measure),
            Err(e) => c.failing(e@),
        },
        (Stage::Measure, Act::Measured(rs)) => Course {
            residents: hostmem::held(rs@),
            ..c
        }.down(),
        (Stage::Remove, Act::Removed(_)) => {
            let d = Course { removed: c.removed + 1, ..c };
            d.to(
                if d.removed < d.handles.len() {
                    Stage::Remove
                } else {
                    Stage::Teardown
                },
            )
        },
        (Stage::Teardown, Act::ToreDown(r)) => Course {
            fault: match (c.fault, r) {
                (None, Err(e)) => Some(e@),
                (f, _) => f,
            },
            ..c
        }.to(Stage::Over),
        _ => c,
    }
}

/// How far a run has come after its acts.
pub open spec fn course(p: Plan, acts: Seq<Act>) -> Course
    decreases acts.len(),
{
    if acts.len() == 0 {
        at_start()
    } else {
        next(p, course(p, acts.drop_last()), acts.last())
    }
}

/// Whether each act was of the kind to do next.
pub open spec fn proper(p: Plan, acts: Seq<Act>) -> bool
    decreases acts.len(),
{
    acts.len() == 0 || (proper(p, acts.drop_last()) && fits(
        course(p, acts.drop_last()).stage,
        acts.last(),
    ))
}

// ---------------------------------------------------------------------------
// Progress
// ---------------------------------------------------------------------------

/// How far a run has come, and what it has gathered.
#[derive(Debug)]
pub struct Progress {
    gadgets: usize,
    attributed: bool,
    stage: Stage,
    before: (i64, i64),
    after: (i64, i64),
    taps: Vec<NetAttribution>,
    handles: Vec<u64>,
    spawned: usize,
    fragments: Vec<Fragment>,
    report: Doc,
    spans: Vec<Doc>,
    residents: Vec<Resident>,
    removed: usize,
    fault: Option<String>,
}

impl View for Progress {
    type V = Course;

    closed spec fn view(&self) -> Course {
        Course {
            stage: self.stage,
            before: self.before,
            after: self.after,
            taps: self.taps@,
            handles: self.handles@,
            spawned: self.spawned as nat,
            pieces: contract::fragment_views(self.fragments@),
            report: self.report@,
            spans: json::jsons(self.spans@),
            residents: hostmem::held(self.residents@),
            removed: self.removed as nat,
            fault: text::opt_text(self.fault),
        }
    }
}

/// Whether there is something to do for the stage of a course.
pub open spec fn regular(p: Plan, c: Course) -> bool {
    &&& c.fault is Some ==> c.stage is Stop || c.stage is Remove || c.stage is Teardown
        || c.stage is Over
    &&& rank(c.stage) < 7 ==> c.spawned == 0
    &&& c.stage is Add ==> c.handles.len() < c.taps.len()
    &&& c.stage is Mark ==> 0 < c.handles.len() <= c.taps.len()
    &&& c.stage is Spawn ==> c.spawned < p.gadgets
    &&& c.stage is Load ==> c.spawned == p.gadgets
    &&& rank(c.stage) < 9 ==> c.pieces.len() == 0
    &&& c.stage is Wait ==> c.spawned == p.gadgets && c.pieces.len() < p.gadgets
    &&& rank(c.stage) < 14 ==> c.removed == 0
    &&& c.stage is Remove ==> c.removed < c.handles.len()
    &&& c.stage is Taps || c.stage is Add || c.stage is Mark || c.handles.len() > 0 ==> p.attributed
    &&& rank(c.stage) < 6 ==> c.handles.len() == 0
}

/// Where a stage stands in a run.
pub open spec fn rank(s: Stage) -> int {
    match s {
        Stage::Sample => 0,
        Stage::Provision => 1,
        Stage::Start => 2,
        Stage::Steady => 3,
        Stage::SampleAgain => 4,
        Stage::Taps => 5,
        Stage::Add => 6,
        Stage::Mark => 6,
        Stage::Spawn => 7,
        Stage::Load => 8,
        Stage::Wait => 9,
        Stage::Stop => 10,
        Stage::Report => 11,
        Stage::Spans => 12,
        Stage::Measure => 13,
        Stage::Remove => 14,
        Stage::Teardown => 15,
        Stage::Over => 16,
    }
}

impl Progress {
    /// What the run was given.
    pub closed spec fn plan(&self) -> Plan {
        Plan { gadgets: self.gadgets as nat, attributed: self.attributed }
    }

    /// The progress of a run that has not begun.
    pub fn new(gadgets: usize, attributed: bool) -> (r: Self)
        ensures
            r.plan() == (Plan { gadgets: gadgets as nat, attributed }),
            r@ == at_start(),
            regular(r.plan(), r@),
    {
        let r = Progress {
            gadgets,
            attributed,
            stage: Stage::Sample,
            before: (0, 0),
            after: (0, 0),
            taps: Vec::new(),
            handles: Vec::new(),
            spawned: 0,
            fragments: Vec::new(),
            report: Doc::Null,
            spans: Vec::new(),
            residents: Vec::new(),
            removed: 0,
            fault: None,
        };
        assert(r@ =~= at_start());
        r
    }

    /// What is to be done next.
    pub fn stage(&self) -> (r: Stage)
        ensures
            r == self@.stage,
    {
        self.stage
    }

    fn down(&mut self)
        ensures
            final(self).plan() == old(self).plan(),
            final(self)@ == old(self)@.down(),
    {
        self.stage =
        if self.handles.len() > 0 {
            Stage::Remove
        } else {
            Stage::Teardown
        };
    }

    fn fail(&mut self, e: String)
        ensures
            final(self).plan() == old(self).plan(),
            final(self)@ == old(self)@.failing(e@),
    {
        self.fault = Some(e);
        self.down();
    }

    fn on(&mut self, r: Result<(), String>, stage: Stage)
        ensures
            final(self).plan() == old(self).plan(),
            final(self)@ == old(self)@.on(r, old(self)@.to(stage)),
    {
        match r {
            Ok(()) => {
                self.stage = stage;
            },
            Err(e) => self.fail(e),
        }
    }

    /// The stage of the next gadget to spawn, or else that of the workload.
    fn spawning(&self) -> (r: Stage)
        ensures
            self@.to(r) == self@.spawning(self.plan()),
    {
        if self.spawned < self.gadgets {
            Stage::Spawn
        } else {
            Stage::Load
        }
    }

    /// The stage of the next gadget to wait for, or else that of the end of the
    /// workload.
    fn waiting(&self) -> (r: Stage)
        ensures
            self@.to(r) == self@.waiting(self.plan()),
    {
        if self.fragments.len() < self.gadgets {
            Stage::Wait
        } else {
            Stage::Stop
        }
    }

    /// Take a run on by what came of the last thing that it did.
    pub fn advance(&mut self, a: Act)
        requires
            regular(old(self).plan(), old(self)@),
        ensures
            final(self).plan() == old(self).plan(),
            final(self)@ == next(old(self).plan(), old(self)@, a),
            regular(final(self).plan(), final(self)@),
    {
        let ghost p = self.plan();
        let ghost c = self@;
        assert(self.handles.len() == self.handles@.len());
        assert(contract::fragment_views(self.fragments@).len() == self.fragments@.len());
        match (self.stage, a) {
            (Stage::Sample, Act::Sampled(m)) => {
                self.before = m;
                self.stage = Stage::Provision;
            },
            (Stage::Provision, Act::Provisioned(r)) => self.on(r, Stage::Start),
            (Stage::Start, Act::Started(r)) => self.on(r, Stage::Steady),
            (Stage::Steady, Act::Steadied(r)) => self.on(r, Stage::SampleAgain),
            (Stage::SampleAgain, Act::Sampled(m)) => {
                self.after = m;
                self.stage =
                if self.attributed {
                    Stage::Taps
                } else {
                    self.spawning()
                };
            },
            (Stage::Taps, Act::Tapped(taps)) => {
                if taps.len() == 0 {
                    self.fail(
                        "attribution enabled but the target set up no tap (note: tap networking is cold boot only, so a snapshot-restore def will not have one even with the key set); set `network: tap` on a cold-boot target".to_owned(),
                    );
                } else {
                    self.taps = taps;
                    self.stage = Stage::Add;
                }
            },
            (Stage::Add, Act::Added(_, r)) => match r {
                Ok(h) => {
                    // Recorded before the state is sent, so that a VM whose state
                    // is refused is removed again.
                    self.handles.push(h);
                    self.stage = Stage::Mark;
                },
                Err(e) => self.fail(e),
            },
            (Stage::Mark, Act::Marked(r)) => {
                let stage = if self.handles.len() < self.taps.len() {
                    Stage::Add
                } else {
                    self.spawning()
                };
                self.on(r, stage);
            },
            (Stage::Spawn, Act::Spawned(r)) => match r {
                Ok(()) => {
                    self.spawned = self.spawned + 1;
                    self.stage = self.spawning();
                },
                Err(e) => self.fail(e),
            },
            (Stage::Load, Act::Loaded(r)) => {
                let stage = self.waiting();
                self.on(r, stage);
            },
            (Stage::Wait, Act::Waited(r)) => match r {
                Ok(f) => {
                    let ghost was = self.fragments@;
                    self.fragments.push(f);
                    assert(contract::fragment_views(self.fragments@) =~= contract::fragment_views(
                        was,
                    ).push(f@));
                    self.stage = self.waiting();
                },
                Err(e) => {
                    self.fault = Some(e);
                    self.stage = Stage::Stop;
                },
            },
            (Stage::Stop, Act::Stopped(_)) => {
                if self.fault.is_some() {
                    self.down();
                } else {
                    self.stage = Stage::Report;
                }
            },
            (Stage::Report, Act::Reported(r)) => {
                self.report =
                match r {
                    Ok(v) => v,
                    Err(_) => Doc::Null,
                };
                self.stage = Stage::Spans;
            },
            (Stage::Spans, Act::Spanned(r)) => match r {
                Ok(spans) => {
                    self.spans = spans;
                    self.stage = Stage::Measure;
                },
                Err(e) => self.fail(e),
            },
            (Stage::Measure, Act::Measured(rs)) => {
                self.residents = rs;
                self.down();
            },
            (Stage::Remove, Act::Removed(_)) => {
                self.removed = self.removed + 1;
                if self.removed >= self.handles.len() {
                    self.stage = Stage::Teardown;
                }
            },
            (Stage::Teardown, Act::ToreDown(r)) => {
                if let Err(e) = r {
                    if self.fault.is_none() {
                        self.fault = Some(e);
                    }
                }
                self.stage = Stage::Over;
            },
            _ => {},
        }
        assert(self@ =~= next(p, c, a));
    }
}

// ---------------------------------------------------------------------------
// What a run produces
// ---------------------------------------------------------------------------

/// What one run produced.
#[derive(Debug)]
pub struct RunArtifacts {
    pub fragments: Vec<Fragment>,
    pub spans: Vec<Doc>,
    pub workload_report: Doc,
    /// Which VM each handle stood for, where VMs were attributed.
    pub vm_attribution: Option<Doc>,
}

/// `RunArtifacts` as a mathematical value.
pub struct Artifacts {
    pub fragments: Seq<Piece>,
    pub spans: Seq<Json>,
    pub workload_report: Json,
    pub vm_attribution: Option<Json>,
}

impl View for RunArtifacts {
    type V = Artifacts;

    open spec fn view(&self) -> Artifacts {
        Artifacts {
            fragments: contract::fragment_views(self.fragments@),
            spans: json::jsons(self.spans@),
            workload_report: self.workload_report@,
            vm_attribution: json::opt_json(self.vm_attribution),
        }
    }
}

/// The fragments of a run: those of the gadgets, what the host's memory did, and
/// the residency of snapshot files where any was measured.
pub open spec fn all_pieces(c: Course) -> Seq<Piece> {
    let base = c.pieces.push(hostmem::hostmem_piece(c.before, c.after));
    if c.residents.len() > 0 {
        base.push(hostmem::resident_piece(c.residents))
    } else {
        base
    }
}

/// The provenance of the attributed VMs, with the handles that were never
/// issued.
pub open spec fn provenance(rows: Seq<Vm>, unknown: Seq<Seq<char>>) -> Json {
    json::fields().with(
        "vms"@,
        Json::Arr(rows.map_values(|v: Vm| netattrib::provenance_row(v))),
    ).maybe(
        "unresolved_handles"@,
        if unknown.len() > 0 {
            Some(json::strs(unknown))
        } else {
            None
        },
    ).json()
}

/// What a run that is over gives, where `rows` are the VMs that it recorded.
pub open spec fn concluded(c: Course, rows: Seq<Vm>) -> Result<Artifacts, Seq<char>> {
    match c.fault {
        Some(e) => Err(e),
        None => Ok(
            if c.handles.len() > 0 {
                Artifacts {
                    fragments: netattrib::relabelled_pieces(rows, all_pieces(c)),
                    spans: c.spans,
                    workload_report: c.report,
                    vm_attribution: Some(
                        provenance(
                            rows,
                            netattrib::unknown_in(rows, contract::merged_series(all_pieces(c))),
                        ),
                    ),
                }
            } else {
                Artifacts {
                    fragments: all_pieces(c),
                    spans: c.spans,
                    workload_report: c.report,
                    vm_attribution: None,
                }
            },
        ),
    }
}

fn provenance_of(rows: Doc, unknown: &Vec<String>, Ghost(vms): Ghost<Seq<Vm>>) -> (r: Doc)
    requires
        rows@ == Json::Arr(vms.map_values(|v: Vm| netattrib::provenance_row(v))),
    ensures
        r@ == provenance(vms, text::texts(unknown@)),
{
    let missing = if unknown.len() > 0 {
        Some(json::strings(unknown))
    } else {
        None
    };
    Doc::Object(Object::new().with("vms", rows).maybe("unresolved_handles", missing))
}

/// The view of a run's result.
pub open spec fn run_view(r: Result<RunArtifacts, String>) -> Result<Artifacts, Seq<char>> {
    match r {
        Ok(a) => Ok(a@),
        Err(e) => Err(e@),
    }
}

/// The VMs that an attribution has recorded.
pub open spec fn rows_of<C: Wire>(a: Option<AttributionSession<C>>) -> Seq<Vm> {
    match a {
        Some(s) => s.table.rows(),
        None => Seq::empty(),
    }
}

/// Whether an attribution can register so many more VMs.
pub open spec fn room<C: Wire>(a: Option<AttributionSession<C>>, n: int) -> bool {
    a matches Some(s) ==> s.table.wf() && s.table.next() + n <= u64::MAX
}

impl Progress {
    /// What a run gives, from all that it gathered and the VMs that it recorded.
    pub fn conclude<C: Wire>(self, attrib: &Option<AttributionSession<C>>) -> (r: Result<
        RunArtifacts,
        String,
    >)
        requires
            self@.handles.len() > 0 ==> attrib is Some,
        ensures
            run_view(r) == concluded(self@, rows_of(*attrib)),
    {
        let ghost c = self@;
        if let Some(e) = self.fault {
            return Err(e);
        }
        let mut fragments = self.fragments;
        let ghost was = contract::fragment_views(fragments@);
        fragments.push(hostmem::hostmem_fragment(self.before, self.after));
        assert(contract::fragment_views(fragments@) =~= was.push(
            hostmem::hostmem_piece(self.before, self.after),
        ));
        if let Some(f) = hostmem::resident_fragment(&self.residents) {
            let ghost was2 = contract::fragment_views(fragments@);
            fragments.push(f);
            assert(contract::fragment_views(fragments@) =~= was2.push(f@));
        }
        assert(contract::fragment_views(fragments@) == all_pieces(c));
        let mut vm_attribution: Option<Doc> = None;
        if self.handles.len() > 0 {
            if let Some(s) = attrib {
                let unknown = netattrib::rewrite_vm_id_labels(&mut fragments, &s.table);
                vm_attribution =
                Some(provenance_of(s.table.provenance_json(), &unknown, Ghost(s.table.rows())));
                assert(text::texts(unknown@).len() == unknown@.len());
            }
        }
        Ok(
            RunArtifacts {
                fragments,
                spans: self.spans,
                workload_report: self.report,
                vm_attribution,
            },
        )
    }
}

// ---------------------------------------------------------------------------
// The rig
// ---------------------------------------------------------------------------

/// Everything that a run works with.
pub struct Rig<'a, M: Machine, R: GadgetRunner, T: Target, W: Workload, C: Wire> {
    pub sh: Session<'a, M>,
    pub crew: Crew<'a, R>,
    pub target: T,
    pub workload: W,
    pub attrib: Option<AttributionSession<C>>,
    /// The process that the run is in, for the ids of VMs.
    pub process: u32,
    /// The gadgets that were spawned and not waited for.
    pub running: Vec<R::Handle>,
}

/// Everything that a run works with, as a mathematical value: what was asked of
/// the machine and of the gadget runner, and how target, workload and
/// attribution stand.
pub struct Scene<T: Target, W: Workload, C: Wire, H> {
    pub log: Seq<Event>,
    pub deeds: Seq<Deed<H>>,
    pub target: T,
    pub workload: W,
    pub attrib: Option<AttributionSession<C>>,
    pub running: Seq<H>,
}

/// What stays as it is through a run.
pub struct Terms<R: GadgetRunner> {
    pub runner: R,
    pub process: u32,
    pub gadgets: Seq<GadgetInvocation>,
}

/// Whether a sample of the host's memory was taken by asking for it.
pub open spec fn sampling(old_log: Seq<Event>, log: Seq<Event>, m: (i64, i64)) -> bool {
    exists|a: Result<Seq<char>, Seq<char>>|
        log == old_log.push(Event::Ran("cat /proc/meminfo"@, a)) && (m.0 as int, m.1 as int)
            == #[trigger] hostmem::sampled(a)
}

/// Whether an id is that of the time, as the machine told it.
pub open spec fn stamped(
    old_log: Seq<Event>,
    log: Seq<Event>,
    process: u32,
    id: Seq<char>,
) -> bool {
    exists|now: u64|
        log == old_log.push(Event::Clocked(now)) && id == #[trigger] run::run_id(now, process)
}

/// Whether the owner was told of a VM, and it was recorded where the owner
/// accepted it.
pub open spec fn registering<C: Wire>(
    pre: AttributionSession<C>,
    post: AttributionSession<C>,
    na: NetAttribution,
    id: Seq<char>,
    r: Result<u64, String>,
) -> bool {
    &&& netattrib::commanded(
        pre.client,
        post.client,
        netattrib::add_line(na.ifindex, pre.table.next(), na.netns_inum),
        netattrib::registered(r),
    )
    &&& post.table.wf()
    &&& post.table.next() == pre.table.next() + 1
    &&& match r {
        Ok(h) => h == pre.table.next() && post.table.rows() == pre.table.rows().push(vm(na, id, h)),
        Err(_) => post.table.rows() == pre.table.rows(),
    }
}

/// Whether a line was sent to the owner without changing what is recorded.
pub open spec fn telling<C: Wire>(
    pre: AttributionSession<C>,
    post: AttributionSession<C>,
    line: Seq<char>,
    r: Result<(), String>,
) -> bool {
    post.table == pre.table && netattrib::commanded(
        pre.client,
        post.client,
        line,
        adapter::outcome(r),
    )
}

/// What is asked when files are measured.
pub open spec fn looked(
    files: Seq<(Seq<char>, Seq<char>)>,
    answers: Seq<Option<(u64, u64, Seq<char>)>>,
) -> Seq<Event> {
    Seq::new(answers.len(), |i: int| Event::Measured(files[i].1, answers[i]))
}

/// Whether the files that a target reports were measured, those that could not
/// be left out.
pub open spec fn measuring<T: Target>(
    t: T,
    old_log: Seq<Event>,
    log: Seq<Event>,
    held: Seq<Held>,
) -> bool {
    exists|files: Seq<(String, String)>, answers: Seq<Option<(u64, u64, Seq<char>)>>|
        fanout::file_reported(t, files) && answers.len() == files.len() && log == old_log
            + #[trigger] looked(fanout::file_views(files), answers) && held == measured(
            fanout::file_views(files),
            answers,
            files.len(),
        )
}

/// Whether an act is what came of doing what the stage of a course asks for,
/// which took everything from `a` to `b`.
pub open spec fn came<R: GadgetRunner, T: Target, W: Workload, C: Wire>(
    t: Terms<R>,
    c: Course,
    a: Scene<T, W, C, R::Handle>,
    act: Act,
    b: Scene<T, W, C, R::Handle>,
) -> bool {
    match (c.stage, act) {
        (Stage::Sample, Act::Sampled(m)) => b == (Scene { log: b.log, ..a }) && sampling(
            a.log,
            b.log,
            m,
        ),
        (Stage::Provision, Act::Provisioned(r)) => phased(Phase::Provision, a, b, r),
        (Stage::Start, Act::Started(r)) => phased(Phase::Start, a, b, r),
        (Stage::Steady, Act::Steadied(r)) => phased(Phase::Steady, a, b, r),
        (Stage::SampleAgain, Act::Sampled(m)) => b == (Scene { log: b.log, ..a }) && sampling(
            a.log,
            b.log,
            m,
        ),
        (Stage::Taps, Act::Tapped(v)) => b == a && call_ensures(
            T::net_attribution,
            (&a.target,),
            v,
        ),
        (Stage::Add, Act::Added(id, r)) => {
            &&& b == (Scene { log: b.log, attrib: b.attrib, ..a })
            &&& a.attrib is Some && b.attrib is Some
            &&& stamped(a.log, b.log, t.process, id@)
            &&& registering(
                a.attrib->0,
                b.attrib->0,
                c.taps[c.handles.len() as int],
                id@,
                r,
            )
        },
        (Stage::Mark, Act::Marked(r)) => {
            &&& b == (Scene { attrib: b.attrib, ..a })
            &&& a.attrib is Some && b.attrib is Some
            &&& telling(
                a.attrib->0,
                b.attrib->0,
                netattrib::state_line(c.handles.last(), LIFECYCLE_RUNNING),
                r,
            )
        },
        (Stage::Spawn, Act::Spawned(r)) => spawning(
            t.runner,
            t.gadgets[c.spawned as int],
            a,
            b,
            r,
        ),
        (Stage::Load, Act::Loaded(r)) => turned(Turn::Start, a, b, r),
        (Stage::Wait, Act::Waited(r)) => waiting(
            t.runner,
            t.gadgets[c.pieces.len() as int],
            a,
            b,
            r,
        ),
        (Stage::Stop, Act::Stopped(r)) => turned(Turn::Stop, a, b, r),
        (Stage::Report, Act::Reported(r)) => b == (Scene { log: b.log, ..a })
            && a.workload.reported(a.log, b.log, parse::document(r)),
        (Stage::Spans, Act::Spanned(r)) => b == (Scene { log: b.log, ..a }) && a.target.spanned(
            a.log,
            b.log,
            parse::documents(r),
        ),
        (Stage::Measure, Act::Measured(rs)) => b == (Scene { log: b.log, ..a }) && measuring(
            a.target,
            a.log,
            b.log,
            hostmem::held(rs@),
        ),
        (Stage::Remove, Act::Removed(r)) => {
            &&& b == (Scene { attrib: b.attrib, ..a })
            &&& a.attrib is Some && b.attrib is Some
            &&& telling(
                a.attrib->0,
                b.attrib->0,
                netattrib::remove_line(c.handles[c.removed as int]),
                r,
            )
        },
        (Stage::Teardown, Act::ToreDown(r)) => phased(Phase::Teardown, a, b, r),
        _ => false,
    }
}

/// Whether the target went through a phase.
pub open spec fn phased<T: Target, W: Workload, C: Wire, H>(
    phase: Phase,
    a: Scene<T, W, C, H>,
    b: Scene<T, W, C, H>,
    r: Result<(), String>,
) -> bool {
    &&& b == (Scene { log: b.log, target: b.target, ..a })
    &&& T::did(phase, a.target, b.target, a.log, b.log, adapter::outcome(r))
}

/// Whether the workload took a turn.
pub open spec fn turned<T: Target, W: Workload, C: Wire, H>(
    turn: Turn,
    a: Scene<T, W, C, H>,
    b: Scene<T, W, C, H>,
    r: Result<(), String>,
) -> bool {
    &&& b == (Scene { log: b.log, workload: b.workload, ..a })
    &&& W::took(turn, a.workload, b.workload, a.log, b.log, adapter::outcome(r))
}

/// Whether the runner was asked to spawn a gadget.
pub open spec fn spawning<R: GadgetRunner, T: Target, W: Workload, C: Wire>(
    runner: R,
    inv: GadgetInvocation,
    a: Scene<T, W, C, R::Handle>,
    b: Scene<T, W, C, R::Handle>,
    r: Result<(), String>,
) -> bool {
    &&& b == (Scene { deeds: b.deeds, running: b.running, ..a })
    &&& exists|h: Result<R::Handle, String>|
        {
            &&& b.deeds == a.deeds.push(Deed::Spawned(inv, h))
            &&& #[trigger] crew::able(runner, Deed::Spawned(inv, h))
            &&& match h {
                Ok(x) => r is Ok && b.running == a.running.push(x),
                Err(e) => r == Err::<(), String>(e) && b.running == a.running,
            }
        }
}

/// Whether the runner was asked for the fragment of a gadget, by the handle that
/// has been running longest.
pub open spec fn waiting<R: GadgetRunner, T: Target, W: Workload, C: Wire>(
    runner: R,
    inv: GadgetInvocation,
    a: Scene<T, W, C, R::Handle>,
    b: Scene<T, W, C, R::Handle>,
    r: Result<Fragment, String>,
) -> bool {
    let d = Deed::Waited(inv, a.running[0], r);
    &&& a.running.len() > 0
    &&& b == (Scene { deeds: a.deeds.push(d), running: a.running.skip(1), ..a })
    &&& crew::able(runner, d)
}

/// Whether acts are what came of a run, one after another, through scenes.
pub open spec fn played<R: GadgetRunner, T: Target, W: Workload, C: Wire>(
    t: Terms<R>,
    p: Plan,
    acts: Seq<Act>,
    scenes: Seq<Scene<T, W, C, R::Handle>>,
) -> bool {
    &&& scenes.len() == acts.len() + 1
    &&& forall|i: int| 0 <= i < acts.len() ==> #[trigger] came_at(t, p, acts, scenes, i)
}

/// Whether one of the acts is what came of what was to be done then.
pub open spec fn came_at<R: GadgetRunner, T: Target, W: Workload, C: Wire>(
    t: Terms<R>,
    p: Plan,
    acts: Seq<Act>,
    scenes: Seq<Scene<T, W, C, R::Handle>>,
    i: int,
) -> bool {
    came(t, course(p, acts.take(i)), scenes[i], acts[i], scenes[i + 1])
}

/// One more act.
proof fn lemma_played<R: GadgetRunner, T: Target, W: Workload, C: Wire>(
    t: Terms<R>,
    p: Plan,
    acts: Seq<Act>,
    scenes: Seq<Scene<T, W, C, R::Handle>>,
    a: Act,
    s: Scene<T, W, C, R::Handle>,
)
    requires
        played(t, p, acts, scenes),
        came(t, course(p, acts), scenes.last(), a, s),
    ensures
        played(t, p, acts.push(a), scenes.push(s)),
        course(p, acts.push(a)) == next(p, course(p, acts), a),
{
    let more = acts.push(a);
    let ss = scenes.push(s);
    assert(more.drop_last() =~= acts);
    assert forall|i: int| 0 <= i < more.len() implies #[trigger] came_at(t, p, more, ss, i) by {
        assert(more.take(i) =~= acts.take(i));
        if i < acts.len() {
            assert(came_at(t, p, acts, scenes, i));
        } else {
            assert(acts.take(i) =~= acts);
        }
    }
}

/// Whether a registry can take all the taps that a target may report.
pub open spec fn room_for_taps<T: Target, C: Wire>(a: Option<AttributionSession<C>>) -> bool {
    forall|t: T, v: Vec<NetAttribution>| #[trigger]
        call_ensures(T::net_attribution, (&t,), v) ==> room(a, v@.len() as int)
}

/// Whether everything is there for what a course asks for next.
spec fn ready<T: Target, W: Workload, C: Wire, H>(
    p: Plan,
    c: Course,
    s: Scene<T, W, C, H>,
) -> bool {
    &&& regular(p, c)
    &&& p.attributed == (s.attrib is Some)
    &&& rank(c.stage) < 6 ==> room_for_taps::<T, C>(s.attrib)
    &&& c.stage is Add || c.stage is Mark ==> room(
        s.attrib,
        c.taps.len() - c.handles.len(),
    ) && p.attributed
    &&& rank(c.stage) <= 9 ==> s.running.len() == c.spawned - c.pieces.len()
}

proof fn lemma_ready<R: GadgetRunner, T: Target, W: Workload, C: Wire>(
    t: Terms<R>,
    p: Plan,
    c: Course,
    a: Scene<T, W, C, R::Handle>,
    act: Act,
    b: Scene<T, W, C, R::Handle>,
)
    requires
        ready(p, c, a),
        came(t, c, a, act, b),
        regular(p, next(p, c, act)),
    ensures
        ready(p, next(p, c, act), b),
{
    let d = next(p, c, act);
    assert(p.attributed == (b.attrib is Some));
    assert(rank(d.stage) < 6 ==> b.attrib == a.attrib);
    assert(rank(d.stage) <= 9 ==> b.running.len() == d.spawned - d.pieces.len());
    if let (Stage::Taps, Act::Tapped(v)) = (c.stage, act) {
        assert(call_ensures(T::net_attribution, (&a.target,), v));
        assert(room(a.attrib, v@.len() as int));
    }
    assert(d.stage is Add || d.stage is Mark ==> room(b.attrib, d.taps.len() - d.handles.len()));
}

/// Every act takes a run nearer to its end.
proof fn lemma_nearer(p: Plan, c: Course, act: Act)
    requires
        regular(p, c),
        fits(c.stage, act),
    ensures
        rank(c.stage) < rank(next(p, c, act).stage) || (rank(c.stage) == rank(
            next(p, c, act).stage,
        ) && 0 <= left(p, next(p, c, act)) < left(p, c)),
{
}

/// How much there is to do in the stage of a course.
spec fn left(p: Plan, c: Course) -> int {
    match c.stage {
        Stage::Add => 2 * (c.taps.len() - c.handles.len()),
        Stage::Mark => 2 * (c.taps.len() - c.handles.len()) + 1,
        Stage::Spawn => p.gadgets - c.spawned,
        Stage::Wait => p.gadgets - c.pieces.len(),
        Stage::Remove => c.handles.len() - c.removed,
        _ => 0,
    }
}

proof fn lemma_measured_extends(
    files: Seq<(Seq<char>, Seq<char>)>,
    answers: Seq<Option<(u64, u64, Seq<char>)>>,
    a: Option<(u64, u64, Seq<char>)>,
    n: nat,
)
    requires
        n <= answers.len(),
    ensures
        measured(files, answers.push(a), n) == measured(files, answers, n),
    decreases n,
{
    if n > 0 {
        lemma_measured_extends(files, answers, a, (n - 1) as nat);
    }
}

impl<'a, M: Machine, R: GadgetRunner, T: Target, W: Workload, C: Wire> Rig<'a, M, R, T, W, C> {
    pub open spec fn scene(&self) -> Scene<T, W, C, R::Handle> {
        Scene {
            log: self.sh.log(),
            deeds: self.crew.deeds(),
            target: self.target,
            workload: self.workload,
            attrib: self.attrib,
            running: self.running@,
        }
    }

    /// What stays as it is through a run.
    pub open spec fn terms(&self, gadgets: Seq<GadgetInvocation>) -> Terms<R> {
        Terms { runner: self.crew.runner(), process: self.process, gadgets }
    }

    pub fn new(
        sh: Session<'a, M>,
        runner: &'a R,
        target: T,
        workload: W,
        attrib: Option<AttributionSession<C>>,
        process: u32,
    ) -> (r: Self)
        ensures
            r.sh == sh,
            r.crew.runner() == *runner,
            r.crew.deeds() == Seq::<Deed<R::Handle>>::empty(),
            r.target == target,
            r.workload == workload,
            r.attrib == attrib,
            r.process == process,
            r.running@ == Seq::<R::Handle>::empty(),
    {
        Rig {
            sh,
            crew: Crew::new(runner),
            target,
            workload,
            attrib,
            process,
            running: Vec::new(),
        }
    }

    fn spawn(&mut self, inv: &GadgetInvocation) -> (r: Result<(), String>)
        ensures
            final(self).crew.runner() == old(self).crew.runner(),
            final(self).process == old(self).process,
            spawning(old(self).crew.runner(), *inv, old(self).scene(), final(self).scene(), r),
    {
        let h = self.crew.spawn(inv);
        let ghost g = h;
        let r = match h {
            Ok(x) => {
                self.running.push(x);
                Ok(())
            },
            Err(e) => Err(e),
        };
        assert(crew::able(old(self).crew.runner(), Deed::Spawned(*inv, g)));
        r
    }

    fn wait(&mut self, inv: &GadgetInvocation) -> (r: Result<Fragment, String>)
        requires
            old(self).running@.len() > 0,
        ensures
            final(self).crew.runner() == old(self).crew.runner(),
            final(self).process == old(self).process,
            waiting(old(self).crew.runner(), *inv, old(self).scene(), final(self).scene(), r),
    {
        let h = self.running.remove(0);
        assert(self.running@ =~= old(self).running@.skip(1));
        self.crew.wait(inv, h)
    }

    /// Register a VM under a new id.
    fn register(&mut self, na: &NetAttribution) -> (r: (String, Result<u64, String>))
        requires
            old(self).attrib is Some,
            room(old(self).attrib, 1),
        ensures
            final(self).crew == old(self).crew,
            final(self).process == old(self).process,
            final(self).scene() == (Scene {
                log: final(self).sh.log(),
                attrib: final(self).attrib,
                ..old(self).scene()
            }),
            final(self).attrib is Some,
            stamped(old(self).sh.log(), final(self).sh.log(), old(self).process, r.0@),
            registering(old(self).attrib->0, final(self).attrib->0, *na, r.0@, r.1),
    {
        let id = run::new_run_id(&mut self.sh, self.process);
        let r = match &mut self.attrib {
            Some(s) => s.register(
                id.clone(),
                na.tap.clone(),
                na.guest_mac.clone(),
                na.ifindex,
                na.netns_inum,
            ),
            None => Err(String::new()),
        };
        (id, r)
    }

    /// Tell the owner that a VM is running.
    fn mark(&mut self, handle: u64) -> (r: Result<(), String>)
        requires
            old(self).attrib is Some,
        ensures
            final(self).crew == old(self).crew,
            final(self).process == old(self).process,
            final(self).scene() == (Scene { attrib: final(self).attrib, ..old(self).scene() }),
            final(self).attrib is Some,
            telling(
                old(self).attrib->0,
                final(self).attrib->0,
                netattrib::state_line(handle, LIFECYCLE_RUNNING),
                r,
            ),
    {
        match &mut self.attrib {
            Some(s) => s.set_state(handle, LIFECYCLE_RUNNING),
            None => Err(String::new()),
        }
    }

    /// Tell the owner that a VM is gone.
    fn remove(&mut self, handle: u64) -> (r: Result<(), String>)
        requires
            old(self).attrib is Some,
        ensures
            final(self).crew == old(self).crew,
            final(self).process == old(self).process,
            final(self).scene() == (Scene { attrib: final(self).attrib, ..old(self).scene() }),
            final(self).attrib is Some,
            telling(
                old(self).attrib->0,
                final(self).attrib->0,
                netattrib::remove_line(handle),
                r,
            ),
    {
        match &mut self.attrib {
            Some(s) => s.deregister(handle),
            None => Err(String::new()),
        }
    }

    /// Measure the residency of the target's snapshot files. A file that cannot
    /// be measured is left out.
    fn measure(&mut self) -> (r: Vec<Resident>)
        ensures
            final(self).crew == old(self).crew,
            final(self).process == old(self).process,
            final(self).scene() == (Scene { log: final(self).sh.log(), ..old(self).scene() }),
            measuring(
                old(self).target,
                old(self).sh.log(),
                final(self).sh.log(),
                hostmem::held(r@),
            ),
    {
        let files = self.target.resident_files();
        let ghost fs = fanout::file_views(files@);
        let ghost mut answers: Seq<Option<(u64, u64, Seq<char>)>> = Seq::empty();
        let ghost start = self.sh.log();
        let mut out: Vec<Resident> = Vec::new();
        let mut i: usize = 0;
        assert(fanout::file_reported(self.target, files@));
        assert(hostmem::held(out@) =~= Seq::empty());
        assert(start + looked(fs, answers) =~= start);
        while i < files.len()
            invariant
                i <= files@.len(),
                fs == fanout::file_views(files@),
                start == old(self).sh.log(),
                self.crew == old(self).crew,
                self.process == old(self).process,
                self.scene() == (Scene { log: self.sh.log(), ..old(self).scene() }),
                self.sh.log() == start + looked(fs, answers),
                answers.len() == i,
                hostmem::held(out@) == measured(fs, answers, i as nat),
            decreases files@.len() - i,
        {
            let (label, path) = &files[i];
            let a = self.sh.residency(path);
            let ghost was = out@;
            let ghost before = answers;
            proof {
                answers = answers.push(adapter::pages(a));
                lemma_measured_extends(fs, before, adapter::pages(a), i as nat);
                assert(fs[i as int] == (label@, path@));
                assert(self.sh.log() =~= start + looked(fs, answers));
            }
            if let Some(x) = a {
                out.push(
                    Resident {
                        label: label.clone(),
                        resident: x.resident,
                        total: x.total,
                        fraction: x.fraction,
                    },
                );
                assert(hostmem::held(out@) =~= hostmem::held(was).push(out@.last()@));
            }
            i += 1;
        }
        assert(fs.len() == files@.len());
        out
    }

    /// Do what is to be done next.
    fn act(&mut self, progress: &Progress, gadgets: &Vec<GadgetInvocation>) -> (a: Act)
        requires
            ready(progress.plan(), progress@, old(self).scene()),
            progress.plan().gadgets == gadgets@.len(),
            !(progress@.stage is Over),
        ensures
            final(self).terms(gadgets@) == old(self).terms(gadgets@),
            came(
                old(self).terms(gadgets@),
                progress@,
                old(self).scene(),
                a,
                final(self).scene(),
            ),
    {
        match progress.stage {
            Stage::Sample => Act::Sampled(hostmem::sample_meminfo(&mut self.sh)),
            Stage::Provision => Act::Provisioned(self.target.provision(&mut self.sh)),
            Stage::Start => Act::Started(self.target.start(&mut self.sh)),
            Stage::Steady => Act::Steadied(self.target.reach_steady(&mut self.sh)),
            Stage::SampleAgain => Act::Sampled(hostmem::sample_meminfo(&mut self.sh)),
            Stage::Taps => Act::Tapped(self.target.net_attribution()),
            Stage::Add => {
                let (id, r) = self.register(&progress.taps[progress.handles.len()]);
                Act::Added(id, r)
            },
            Stage::Mark => Act::Marked(
                self.mark(progress.handles[progress.handles.len() - 1]),
            ),
            Stage::Spawn => Act::Spawned(self.spawn(&gadgets[progress.spawned])),
            Stage::Load => Act::Loaded(self.workload.start(&mut self.sh)),
            Stage::Wait => {
                assert(progress@.pieces.len() == progress.fragments@.len());
                Act::Waited(self.wait(&gadgets[progress.fragments.len()]))
            },
            Stage::Stop => Act::Stopped(self.workload.stop(&mut self.sh)),
            Stage::Report => Act::Reported(self.workload.report(&mut self.sh)),
            Stage::Spans => Act::Spanned(self.target.spans(&mut self.sh)),
            Stage::Measure => Act::Measured(self.measure()),
            Stage::Remove => Act::Removed(self.remove(progress.handles[progress.removed])),
            Stage::Teardown | Stage::Over => Act::ToreDown(self.target.teardown(&mut self.sh)),
        }
    }
}

// ---------------------------------------------------------------------------
// The run
// ---------------------------------------------------------------------------

/// What a rig's run is given.
pub open spec fn plan_of<'a, M: Machine, R: GadgetRunner, T: Target, W: Workload, C: Wire>(
    rig: Rig<'a, M, R, T, W, C>,
    gadgets: Seq<GadgetInvocation>,
) -> Plan {
    Plan { gadgets: gadgets.len(), attributed: rig.attrib is Some }
}

/// Whether a run went from one scene to another and was over then, after acts
/// that were done through scenes.
pub open spec fn ran<R: GadgetRunner, T: Target, W: Workload, C: Wire>(
    t: Terms<R>,
    p: Plan,
    first: Scene<T, W, C, R::Handle>,
    last: Scene<T, W, C, R::Handle>,
    acts: Seq<Act>,
    scenes: Seq<Scene<T, W, C, R::Handle>>,
) -> bool {
    &&& played(t, p, acts, scenes)
    &&& scenes[0] == first
    &&& scenes.last() == last
    &&& course(p, acts).stage is Over
}

/// Drive one run. Gadgets are spawned before the workload starts and waited for
/// after, so that they observe its window. The target is torn down whichever
/// step fails.
pub fn execute_run<'a, M: Machine, R: GadgetRunner, T: Target, W: Workload, C: Wire>(
    rig: &mut Rig<'a, M, R, T, W, C>,
    gadgets: &Vec<GadgetInvocation>,
) -> (r: Result<RunArtifacts, String>)
    requires
        old(rig).running@.len() == 0,
        room_for_taps::<T, C>(old(rig).attrib),
    ensures
        final(rig).terms(gadgets@) == old(rig).terms(gadgets@),
        exists|acts: Seq<Act>, scenes: Seq<Scene<T, W, C, R::Handle>>|
            {
                &&& #[trigger] ran(
                    old(rig).terms(gadgets@),
                    plan_of(*old(rig), gadgets@),
                    old(rig).scene(),
                    final(rig).scene(),
                    acts,
                    scenes,
                )
                &&& run_view(r) == concluded(
                    course(plan_of(*old(rig), gadgets@), acts),
                    rows_of(final(rig).attrib),
                )
            },
{
    let ghost t = rig.terms(gadgets@);
    let ghost p = plan_of(*rig, gadgets@);
    let ghost mut acts: Seq<Act> = Seq::empty();
    let ghost mut scenes: Seq<Scene<T, W, C, R::Handle>> = seq![rig.scene()];
    let mut progress = Progress::new(gadgets.len(), rig.attrib.is_some());
    while progress.stage != Stage::Over
        invariant
            t == old(rig).terms(gadgets@),
            t == rig.terms(gadgets@),
            p == plan_of(*old(rig), gadgets@),
            progress.plan() == p,
            progress@ == course(p, acts),
            played(t, p, acts, scenes),
            scenes[0] == old(rig).scene(),
            scenes.last() == rig.scene(),
            ready(p, progress@, rig.scene()),
        decreases 16 - rank(progress@.stage), left(p, progress@),
    {
        let ghost before = rig.scene();
        let ghost c = progress@;
        let a = rig.act(&progress, gadgets);
        let ghost done = a;
        progress.advance(a);
        proof {
            lemma_ready(t, p, c, before, done, rig.scene());
            lemma_nearer(p, c, done);
            lemma_played(t, p, acts, scenes, done, rig.scene());
            acts = acts.push(done);
            scenes = scenes.push(rig.scene());
        }
    }
    assert(ran(t, p, old(rig).scene(), rig.scene(), acts, scenes));
    progress.conclude(&rig.attrib)
}

} // verus!
