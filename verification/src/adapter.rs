//! Target and workload adapters: the seam to the machine, and the command
//! adapter that runs shell templates from the definition.
use crate::json::{self, Doc, Json};
use crate::parse;
use crate::table::Table;
use crate::text;
use vstd::prelude::*;

verus! {

// ---------------------------------------------------------------------------
// The seam to the machine
// ---------------------------------------------------------------------------

/// The seam over the shell, so that tests do not run commands.
pub trait Shell {
    /// Run a command line, giving its output. A failing command is an error.
    fn run(&self, cmd: &str) -> Result<String, String>;
}

/// What else a run asks of the machine.
pub trait Machine: Shell {
    /// The time, in nanoseconds since the epoch.
    fn now_nanos(&self) -> u64;

    /// How much of a file is resident in the page cache, where that can be
    /// measured.
    fn residency(&self, path: &str) -> Option<Residency>;
}

/// The pages of a file that are resident, of how many, and their ratio as a
/// decimal.
#[derive(Debug)]
pub struct Residency {
    pub resident: u64,
    pub total: u64,
    pub fraction: String,
}

/// What was asked of the machine and what it answered.
pub enum Event {
    Ran(Seq<char>, Result<Seq<char>, Seq<char>>),
    Clocked(u64),
    Measured(Seq<char>, Option<(u64, u64, Seq<char>)>),
}

/// The view of a measurement.
pub open spec fn pages(o: Option<Residency>) -> Option<(u64, u64, Seq<char>)> {
    match o {
        Some(x) => Some((x.resident, x.total, x.fraction@)),
        None => None,
    }
}

/// The view of a result of text.
pub open spec fn reply(r: Result<String, String>) -> Result<Seq<char>, Seq<char>> {
    match r {
        Ok(s) => Ok(s@),
        Err(e) => Err(e@),
    }
}

/// The view of a result of nothing.
pub open spec fn outcome(r: Result<(), String>) -> Result<(), Seq<char>> {
    match r {
        Ok(()) => Ok(()),
        Err(e) => Err(e@),
    }
}

/// A machine, and what has been asked of it.
pub struct Session<'a, M: Machine> {
    machine: &'a M,
    log: Ghost<Seq<Event>>,
}

impl<'a, M: Machine> Session<'a, M> {
    pub closed spec fn log(&self) -> Seq<Event> {
        self.log@
    }

    pub closed spec fn machine(&self) -> &'a M {
        self.machine
    }

    pub fn new(machine: &'a M) -> (r: Self)
        ensures
            r.log() == Seq::<Event>::empty(),
            r.machine() == machine,
    {
        Session { machine, log: Ghost(Seq::empty()) }
    }

    /// Run a command line.
    pub fn run(&mut self, cmd: &str) -> (r: Result<String, String>)
        ensures
            final(self).machine() == old(self).machine(),
            final(self).log() == old(self).log().push(Event::Ran(cmd@, reply(r))),
            call_ensures(M::run, (old(self).machine(), cmd), r),
    {
        let r = self.machine.run(cmd);
        self.log = Ghost(self.log@.push(Event::Ran(cmd@, reply(r))));
        r
    }

    /// Ask for the time.
    pub fn now_nanos(&mut self) -> (r: u64)
        ensures
            final(self).machine() == old(self).machine(),
            final(self).log() == old(self).log().push(Event::Clocked(r)),
            call_ensures(M::now_nanos, (old(self).machine(),), r),
    {
        let r = self.machine.now_nanos();
        self.log = Ghost(self.log@.push(Event::Clocked(r)));
        r
    }

    /// Ask how much of a file is resident.
    pub fn residency(&mut self, path: &str) -> (r: Option<Residency>)
        ensures
            final(self).machine() == old(self).machine(),
            final(self).log() == old(self).log().push(Event::Measured(path@, pages(r))),
            call_ensures(M::residency, (old(self).machine(), path), r),
    {
        let r = self.machine.residency(path);
        self.log = Ghost(self.log@.push(Event::Measured(path@, pages(r))));
        r
    }
}

// ---------------------------------------------------------------------------
// Plans
// ---------------------------------------------------------------------------

/// A step of a plan.
#[derive(Debug)]
pub enum Step {
    Command(String),
    Clock,
}

/// A `Step` as a mathematical value.
pub enum Ask {
    Command(Seq<char>),
    Clock,
}

impl View for Step {
    type V = Ask;

    open spec fn view(&self) -> Ask {
        match *self {
            Step::Command(c) => Ask::Command(c@),
            Step::Clock => Ask::Clock,
        }
    }
}

pub open spec fn asks(s: Seq<Step>) -> Seq<Ask> {
    s.map_values(|x: Step| x@)
}

/// What a step was answered.
#[derive(Debug)]
pub enum Answer {
    Text(String),
    Time(u64),
}

/// Whether a step was taken, and succeeded, by an event.
pub open spec fn taken(a: Ask, e: Event) -> bool {
    match (a, e) {
        (Ask::Command(c), Event::Ran(d, Ok(_))) => c == d,
        (Ask::Clock, Event::Clocked(_)) => true,
        _ => false,
    }
}

/// Whether an event gave an answer.
pub open spec fn gave(e: Event, a: Answer) -> bool {
    match (e, a) {
        (Event::Ran(_, Ok(s)), Answer::Text(t)) => s == t@,
        (Event::Clocked(n), Answer::Time(m)) => n == m,
        _ => false,
    }
}

/// Whether events are those of a plan that went through, or of one that ended
/// with the error of its first command that failed.
pub open spec fn performed(plan: Seq<Ask>, es: Seq<Event>, r: Result<(), Seq<char>>) -> bool {
    match r {
        Ok(()) => es.len() == plan.len() && forall|i: int|
            0 <= i < plan.len() ==> taken(#[trigger] plan[i], es[i]),
        Err(e) => {
            let n = es.len() - 1;
            &&& 0 <= n < plan.len()
            &&& forall|i: int| 0 <= i < n ==> taken(#[trigger] plan[i], es[i])
            &&& plan[n] matches Ask::Command(c) && es[n] == Event::Ran(c, Err(e))
        },
    }
}

/// The events of a log since it was `old_log`.
pub open spec fn since(old_log: Seq<Event>, log: Seq<Event>) -> Seq<Event> {
    log.skip(old_log.len() as int)
}

/// Whether a log has only grown.
pub open spec fn grown(old_log: Seq<Event>, log: Seq<Event>) -> bool {
    old_log.len() <= log.len() && log.take(old_log.len() as int) == old_log
}

/// The view of a result of answers.
pub open spec fn ended(r: Result<Vec<Answer>, String>) -> Result<(), Seq<char>> {
    match r {
        Ok(_) => Ok(()),
        Err(e) => Err(e@),
    }
}

/// Take the steps of a plan, one after another, up to the first that fails.
pub fn perform<M: Machine>(sh: &mut Session<M>, plan: &Vec<Step>) -> (r: Result<
    Vec<Answer>,
    String,
>)
    ensures
        grown(old(sh).log(), final(sh).log()),
        performed(asks(plan@), since(old(sh).log(), final(sh).log()), ended(r)),
        r is Ok ==> r->Ok_0@.len() == plan@.len() && forall|i: int|
            0 <= i < plan@.len() ==> gave(
                since(old(sh).log(), final(sh).log())[i],
                #[trigger] r->Ok_0@[i],
            ),
{
    let ghost start = sh.log();
    let ghost ps = asks(plan@);
    let mut out: Vec<Answer> = Vec::new();
    let mut i: usize = 0;
    assert(start.take(start.len() as int) =~= start);
    while i < plan.len()
        invariant
            i <= plan@.len(),
            ps == asks(plan@),
            start == old(sh).log(),
            grown(start, sh.log()),
            sh.log().len() == start.len() + i,
            out@.len() == i,
            forall|j: int| 0 <= j < i ==> taken(#[trigger] ps[j], since(start, sh.log())[j]),
            forall|j: int| 0 <= j < i ==> gave(since(start, sh.log())[j], #[trigger] out@[j]),
        decreases plan@.len() - i,
    {
        let ghost before = sh.log();
        let ghost out0 = out@;
        assert(ps[i as int] == plan@[i as int]@);
        match &plan[i] {
            Step::Command(c) => match sh.run(c) {
                Ok(s) => {
                    out.push(Answer::Text(s));
                },
                Err(e) => {
                    proof {
                        lemma_pushed(start, before, sh.log().last());
                    }
                    return Err(e);
                },
            },
            Step::Clock => {
                out.push(Answer::Time(sh.now_nanos()));
            },
        }
        proof {
            lemma_pushed(start, before, sh.log().last());
            assert forall|j: int| 0 <= j < i + 1 implies gave(
                since(start, sh.log())[j],
                #[trigger] out@[j],
            ) by {
                if j < i {
                    assert(out@[j] == out0[j]);
                }
            }
        }
        i += 1;
    }
    Ok(out)
}

/// One more event leaves those before it as they were.
pub proof fn lemma_pushed(start: Seq<Event>, before: Seq<Event>, e: Event)
    requires
        grown(start, before),
    ensures
        grown(start, before.push(e)),
        since(start, before.push(e)) == since(start, before).push(e),
{
    assert(before.push(e).take(start.len() as int) =~= before.take(start.len() as int));
    assert(since(start, before.push(e)) =~= since(start, before).push(e));
}

// ---------------------------------------------------------------------------
// The adapters
// ---------------------------------------------------------------------------

/// A target's network identity: the host tap it owns and the numbers that the
/// attribution map needs.
#[derive(Debug, PartialEq, Eq)]
pub struct NetAttribution {
    pub tap: String,
    pub ifindex: u32,
    pub guest_mac: String,
    pub netns_inum: u32,
}

impl Clone for NetAttribution {
    fn clone(&self) -> (r: Self)
        ensures
            r == *self,
    {
        NetAttribution {
            tap: self.tap.clone(),
            ifindex: self.ifindex,
            guest_mac: self.guest_mac.clone(),
            netns_inum: self.netns_inum,
        }
    }
}

/// A phase that a target goes through.
#[derive(Clone, Copy, Debug, PartialEq, Eq, Structural)]
pub enum Phase {
    Provision,
    Start,
    Steady,
    Teardown,
}

/// What runs: the part of a benchmark that authors of adapters write.
///
/// Every target says by three relations what its methods do to it and to the
/// machine, so that whoever drives a target can say what was done by it. One that
/// does not say may do anything.
pub trait Target: Sized {
    /// Whether going through a phase may take a target from `pre` to `post` and
    /// the log of the machine from `old_log` to `log`, with a result.
    open spec fn did(
        phase: Phase,
        pre: Self,
        post: Self,
        old_log: Seq<Event>,
        log: Seq<Event>,
        r: Result<(), Seq<char>>,
    ) -> bool {
        true
    }

    /// Whether a target may report spans.
    open spec fn spanned(
        self,
        old_log: Seq<Event>,
        log: Seq<Event>,
        r: Result<Seq<Json>, Seq<char>>,
    ) -> bool {
        true
    }

    /// Whether a target may tell its version.
    open spec fn told(self, old_log: Seq<Event>, log: Seq<Event>, version: Seq<char>) -> bool {
        true
    }

    fn version<M: Machine>(&self, sh: &mut Session<M>) -> (r: String)
        ensures
            self.told(old(sh).log(), final(sh).log(), r@),
    ;

    fn provision<M: Machine>(&mut self, sh: &mut Session<M>) -> (r: Result<(), String>)
        ensures
            Self::did(
                Phase::Provision,
                *old(self),
                *final(self),
                old(sh).log(),
                final(sh).log(),
                outcome(r),
            ),
    ;

    fn start<M: Machine>(&mut self, sh: &mut Session<M>) -> (r: Result<(), String>)
        ensures
            Self::did(
                Phase::Start,
                *old(self),
                *final(self),
                old(sh).log(),
                final(sh).log(),
                outcome(r),
            ),
    ;

    fn reach_steady<M: Machine>(&mut self, sh: &mut Session<M>) -> (r: Result<(), String>)
        ensures
            Self::did(
                Phase::Steady,
                *old(self),
                *final(self),
                old(sh).log(),
                final(sh).log(),
                outcome(r),
            ),
    ;

    /// The lifecycle spans that the target recorded.
    fn spans<M: Machine>(&self, sh: &mut Session<M>) -> (r: Result<Vec<Doc>, String>)
        ensures
            self.spanned(old(sh).log(), final(sh).log(), parse::documents(r)),
    ;

    fn teardown<M: Machine>(&mut self, sh: &mut Session<M>) -> (r: Result<(), String>)
        ensures
            Self::did(
                Phase::Teardown,
                *old(self),
                *final(self),
                old(sh).log(),
                final(sh).log(),
                outcome(r),
            ),
    ;

    /// The thread-pinning layout that the target applied, where it pins.
    fn pinning_layout(&self) -> Option<Doc>;

    /// Snapshot memory files whose page-cache residency is to be measured, each
    /// with the label of its instance.
    fn resident_files(&self) -> Vec<(String, String)>;

    /// The taps that the target set up, in the order in which it did.
    fn net_attribution(&self) -> Vec<NetAttribution>;
}

/// A turn that a workload takes.
#[derive(Clone, Copy, Debug, PartialEq, Eq, Structural)]
pub enum Turn {
    Start,
    Stop,
}

/// What loads a target. It says what its methods do as a target does.
pub trait Workload: Sized {
    /// Whether a turn may take a workload from `pre` to `post` and the log of
    /// the machine from `old_log` to `log`, with a result.
    open spec fn took(
        turn: Turn,
        pre: Self,
        post: Self,
        old_log: Seq<Event>,
        log: Seq<Event>,
        r: Result<(), Seq<char>>,
    ) -> bool {
        true
    }

    /// Whether a workload may give a report.
    open spec fn reported(
        self,
        old_log: Seq<Event>,
        log: Seq<Event>,
        r: Result<Json, Seq<char>>,
    ) -> bool {
        true
    }

    /// Whether a workload may tell its version.
    open spec fn told(self, old_log: Seq<Event>, log: Seq<Event>, version: Seq<char>) -> bool {
        true
    }

    fn version<M: Machine>(&self, sh: &mut Session<M>) -> (r: String)
        ensures
            self.told(old(sh).log(), final(sh).log(), r@),
    ;

    fn start<M: Machine>(&mut self, sh: &mut Session<M>) -> (r: Result<(), String>)
        ensures
            Self::took(
                Turn::Start,
                *old(self),
                *final(self),
                old(sh).log(),
                final(sh).log(),
                outcome(r),
            ),
    ;

    fn stop<M: Machine>(&mut self, sh: &mut Session<M>) -> (r: Result<(), String>)
        ensures
            Self::took(
                Turn::Stop,
                *old(self),
                *final(self),
                old(sh).log(),
                final(sh).log(),
                outcome(r),
            ),
    ;

    fn report<M: Machine>(&self, sh: &mut Session<M>) -> (r: Result<Doc, String>)
        ensures
            self.reported(old(sh).log(), final(sh).log(), parse::document(r)),
    ;
}

/// A variable's reference in a template.
pub open spec fn reference(k: Seq<char>) -> Seq<char> {
    "{"@ + k + "}"@
}

/// A template with the first `n` variables put in, in the order of their names.
pub open spec fn rendered_to(t: Seq<char>, vars: Seq<(Seq<char>, Seq<char>)>, n: nat) -> Seq<char>
    decreases n,
{
    if n == 0 {
        t
    } else {
        text::replaced(rendered_to(t, vars, (n - 1) as nat), reference(vars[n - 1].0), vars[n - 1].1)
    }
}

/// A template with the variables put in.
pub open spec fn rendered(t: Seq<char>, vars: Seq<(Seq<char>, Seq<char>)>) -> Seq<char> {
    rendered_to(t, vars, vars.len())
}

/// A template with the variables put in, in the order of their names.
pub fn render(template: &str, vars: &Table<String>) -> (r: String)
    ensures
        r@ == rendered(template@, vars@),
{
    let mut s = template.to_owned();
    let mut i: usize = 0;
    while i < vars.len()
        invariant
            i <= vars@.len(),
            s@ == rendered_to(template@, vars@, i as nat),
        decreases vars@.len() - i,
    {
        let mut key = text::join2("{", vars.key(i));
        key.append("}");
        proof {
            reveal_strlit("{");
            assert(key@[0] == "{"@[0]);
        }
        s = text::replace(&s, &key, vars.value(i));
        i += 1;
    }
    s
}

/// A parameter as text: a string as it is, null as nothing, anything else as
/// JSON writes it.
pub open spec fn plain(j: Json) -> Seq<char> {
    match j {
        Json::Str(s) => s,
        Json::Null => Seq::empty(),
        _ => json::text_of(j),
    }
}

fn value_to_plain(v: &Doc) -> (r: String)
    ensures
        r@ == plain(v@),
{
    match v {
        Doc::String(s) => s.clone(),
        Doc::Null => String::new(),
        other => other.to_text(),
    }
}

/// The first `n` parameters as variables.
pub open spec fn param_vars(e: Seq<(Seq<char>, Json)>, n: nat) -> Seq<(Seq<char>, Seq<char>)>
    decreases n,
{
    if n == 0 {
        Seq::empty()
    } else {
        json::put(param_vars(e, (n - 1) as nat), e[n - 1].0, plain(e[n - 1].1))
    }
}

/// The variables of a cell: its parameters and the build under test.
pub open spec fn cell_vars(params: Json, sut: Seq<char>) -> Seq<(Seq<char>, Seq<char>)> {
    let base = match params {
        Json::Obj(e) => param_vars(e, e.len()),
        _ => Seq::empty(),
    };
    json::put(base, "sut_sha"@, sut)
}

/// The variables of a cell: its parameters and the build under test.
pub fn vars(params: &Doc, sut_sha: &str) -> (r: Table<String>)
    ensures
        r@ == cell_vars(params@, sut_sha@),
{
    let mut t: Table<String> = Table::new();
    if let Doc::Object(o) = params {
        let mut i: usize = 0;
        while i < o.len()
            invariant
                i <= o@.len(),
                t@ == param_vars(o@, i as nat),
            decreases o@.len() - i,
        {
            t = t.with(o.key(i), value_to_plain(o.value(i)));
            i += 1;
        }
    }
    t.with("sut_sha", sut_sha.to_owned())
}

/// Shell templates by phase, and the variables to put into them.
#[derive(Debug)]
pub struct CommandSet {
    pub commands: Table<String>,
    pub vars: Table<String>,
}

/// The command that a phase runs, where it has a template.
pub open spec fn phase_command(c: CommandSet, phase: Seq<char>) -> Option<Seq<char>> {
    match json::lookup(c.commands@, phase) {
        Some(t) => Some(rendered(t, c.vars@)),
        None => None,
    }
}

/// Whether running a phase asked what it should and gave what was answered. A
/// phase without a template does nothing.
pub open spec fn phase_ran(
    c: CommandSet,
    phase: Seq<char>,
    old_log: Seq<Event>,
    log: Seq<Event>,
    r: Result<Option<Seq<char>>, Seq<char>>,
) -> bool {
    match phase_command(c, phase) {
        None => r == Ok::<Option<Seq<char>>, Seq<char>>(None) && log == old_log,
        Some(cmd) => match r {
            Ok(Some(s)) => log == old_log.push(Event::Ran(cmd, Ok(s))),
            Ok(None) => false,
            Err(e) => log == old_log.push(Event::Ran(cmd, Err(e))),
        },
    }
}

/// The view of a phase's result.
pub open spec fn phase_view(r: Result<Option<String>, String>) -> Result<
    Option<Seq<char>>,
    Seq<char>,
> {
    match r {
        Ok(o) => Ok(text::opt_text(o)),
        Err(e) => Err(e@),
    }
}

/// Whether running a phase for its effect alone asked what it should.
pub open spec fn phase_done(
    c: CommandSet,
    phase: Seq<char>,
    old_log: Seq<Event>,
    log: Seq<Event>,
    r: Result<(), Seq<char>>,
) -> bool {
    match phase_command(c, phase) {
        None => r == Ok::<(), Seq<char>>(()) && log == old_log,
        Some(cmd) => log.len() == old_log.len() + 1 && log.drop_last() == old_log && match r {
            Ok(()) => log.last() matches Event::Ran(d, Ok(_)) && d == cmd,
            Err(e) => log.last() == Event::Ran(cmd, Err(e)),
        },
    }
}

/// What a version command's answer says, or else `default`.
pub open spec fn version_said(r: Result<Option<Seq<char>>, Seq<char>>, default: Seq<char>) -> Seq<
    char,
> {
    match r {
        Ok(Some(s)) => if text::trimmed(s).len() > 0 {
            text::trimmed(s)
        } else {
            default
        },
        _ => default,
    }
}

impl CommandSet {
    /// Run the template of a phase.
    pub fn exec<M: Machine>(&self, sh: &mut Session<M>, phase: &str) -> (r: Result<
        Option<String>,
        String,
    >)
        ensures
            phase_ran(*self, phase@, old(sh).log(), final(sh).log(), phase_view(r)),
    {
        match self.commands.get(phase) {
            Some(t) => match sh.run(&render(t, &self.vars)) {
                Ok(s) => Ok(Some(s)),
                Err(e) => Err(e),
            },
            None => Ok(None),
        }
    }

    pub fn done<M: Machine>(&self, sh: &mut Session<M>, phase: &str) -> (r: Result<(), String>)
        ensures
            phase_done(*self, phase@, old(sh).log(), final(sh).log(), outcome(r)),
    {
        let ghost before = sh.log();
        let r = self.exec(sh, phase);
        assert(sh.log() != before ==> sh.log().drop_last() =~= before);
        match r {
            Ok(_) => Ok(()),
            Err(e) => Err(e),
        }
    }

    /// What the version phase says, or else `default`.
    pub fn version_or<M: Machine>(&self, sh: &mut Session<M>, default: &str) -> (r: String)
        ensures
            exists|a: Result<Option<Seq<char>>, Seq<char>>|
                #[trigger] phase_ran(*self, "version"@, old(sh).log(), final(sh).log(), a) && r@
                    == version_said(a, default@),
    {
        let a = self.exec(sh, "version");
        let ghost v = phase_view(a);
        let r = match a {
            Ok(Some(s)) => {
                let t = text::trim(&s);
                if t.as_str().is_empty() {
                    default.to_owned()
                } else {
                    t
                }
            },
            _ => default.to_owned(),
        };
        assert(r@ == version_said(v, default@));
        r
    }
}

/// What a phase printed, where it printed anything.
pub open spec fn spoken(r: Result<Option<Seq<char>>, Seq<char>>) -> Result<
    Option<Seq<char>>,
    Seq<char>,
> {
    match r {
        Ok(Some(s)) => if text::trimmed(s).len() > 0 {
            Ok(Some(text::trimmed(s)))
        } else {
            Ok(None)
        },
        other => other,
    }
}

} // verus!
