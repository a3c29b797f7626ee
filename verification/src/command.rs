//! The command adapter: a target or workload wired with shell templates alone.
use crate::adapter::{
    self, CommandSet, Event, Machine, NetAttribution, Phase, Session, Target, Turn, Workload,
};
use crate::def::BenchmarkDef;
use crate::json::{self, Doc, Json};
use crate::parse;
use crate::table::{self, Table};
use crate::text;
use vstd::prelude::*;

verus! {

#[derive(Debug)]
pub struct CommandTarget(pub CommandSet);

#[derive(Debug)]
pub struct CommandWorkload(pub CommandSet);

/// The spans that the spans phase printed.
pub open spec fn spans_of(r: Result<Option<Seq<char>>, Seq<char>>) -> Result<
    Seq<Json>,
    Seq<char>,
> {
    match adapter::spoken(r) {
        Ok(None) => Ok(Seq::empty()),
        Ok(Some(s)) => match parse::parsed_list(s) {
            Ok(a) => Ok(a),
            Err(e) => Err("parsing spans json: "@ + e),
        },
        Err(e) => Err(e),
    }
}

/// The report that the report phase printed.
pub open spec fn report_of(r: Result<Option<Seq<char>>, Seq<char>>) -> Result<Json, Seq<char>> {
    match adapter::spoken(r) {
        Ok(None) => Ok(Json::Null),
        Ok(Some(s)) => match parse::parsed(s) {
            Ok(v) => Ok(v),
            Err(e) => Err("parsing report json: "@ + e),
        },
        Err(e) => Err(e),
    }
}

/// The command phase of a target's phase.
pub open spec fn phase_name(p: Phase) -> Seq<char> {
    match p {
        Phase::Provision => "provision"@,
        Phase::Start => "start"@,
        Phase::Steady => "reach_steady"@,
        Phase::Teardown => "teardown"@,
    }
}

/// The command phase of a workload's turn.
pub open spec fn turn_name(t: Turn) -> Seq<char> {
    match t {
        Turn::Start => "start"@,
        Turn::Stop => "stop"@,
    }
}

/// Whether the version phase was run and said a version.
pub open spec fn version_ran(
    c: CommandSet,
    old_log: Seq<Event>,
    log: Seq<Event>,
    version: Seq<char>,
) -> bool {
    exists|a: Result<Option<Seq<char>>, Seq<char>>| #[trigger]
        adapter::phase_ran(c, "version"@, old_log, log, a) && version == adapter::version_said(
            a,
            "command-adapter"@,
        )
}

impl Target for CommandTarget {
    /// The template of the phase is run, and nothing else.
    open spec fn did(
        phase: Phase,
        pre: Self,
        post: Self,
        old_log: Seq<Event>,
        log: Seq<Event>,
        r: Result<(), Seq<char>>,
    ) -> bool {
        post == pre && adapter::phase_done(pre.0, phase_name(phase), old_log, log, r)
    }

    open spec fn spanned(
        self,
        old_log: Seq<Event>,
        log: Seq<Event>,
        r: Result<Seq<Json>, Seq<char>>,
    ) -> bool {
        exists|a: Result<Option<Seq<char>>, Seq<char>>| #[trigger]
            adapter::phase_ran(self.0, "spans"@, old_log, log, a) && r == spans_of(a)
    }

    open spec fn told(self, old_log: Seq<Event>, log: Seq<Event>, version: Seq<char>) -> bool {
        version_ran(self.0, old_log, log, version)
    }

    fn version<M: Machine>(&self, sh: &mut Session<M>) -> String {
        self.0.version_or(sh, "command-adapter")
    }

    fn provision<M: Machine>(&mut self, sh: &mut Session<M>) -> Result<(), String> {
        self.0.done(sh, "provision")
    }

    fn start<M: Machine>(&mut self, sh: &mut Session<M>) -> Result<(), String> {
        self.0.done(sh, "start")
    }

    fn reach_steady<M: Machine>(&mut self, sh: &mut Session<M>) -> Result<(), String> {
        self.0.done(sh, "reach_steady")
    }

    fn spans<M: Machine>(&self, sh: &mut Session<M>) -> Result<Vec<Doc>, String> {
        let p = self.0.exec(sh, "spans");
        let ghost a = adapter::phase_view(p);
        let r = match p {
            Ok(Some(out)) => {
                let t = text::trim(&out);
                if t.as_str().is_empty() {
                    Ok(Vec::new())
                } else {
                    match parse::read_list(&t) {
                        Ok(v) => Ok(v),
                        Err(e) => Err(text::join2("parsing spans json: ", &e)),
                    }
                }
            },
            Ok(None) => Ok(Vec::new()),
            Err(e) => Err(e),
        };
        assert(json::jsons(Seq::<Doc>::empty()) =~= Seq::empty());
        assert(parse::documents(r) == spans_of(a));
        r
    }

    fn teardown<M: Machine>(&mut self, sh: &mut Session<M>) -> Result<(), String> {
        self.0.done(sh, "teardown")
    }

    fn pinning_layout(&self) -> (r: Option<Doc>)
        ensures
            r is None,
    {
        None
    }

    fn resident_files(&self) -> (r: Vec<(String, String)>)
        ensures
            r@.len() == 0,
    {
        Vec::new()
    }

    fn net_attribution(&self) -> (r: Vec<NetAttribution>)
        ensures
            r@.len() == 0,
    {
        Vec::new()
    }
}

impl Workload for CommandWorkload {
    /// The template of the turn is run, and nothing else.
    open spec fn took(
        turn: Turn,
        pre: Self,
        post: Self,
        old_log: Seq<Event>,
        log: Seq<Event>,
        r: Result<(), Seq<char>>,
    ) -> bool {
        post == pre && adapter::phase_done(pre.0, turn_name(turn), old_log, log, r)
    }

    open spec fn reported(
        self,
        old_log: Seq<Event>,
        log: Seq<Event>,
        r: Result<Json, Seq<char>>,
    ) -> bool {
        exists|a: Result<Option<Seq<char>>, Seq<char>>| #[trigger]
            adapter::phase_ran(self.0, "report"@, old_log, log, a) && r == report_of(a)
    }

    open spec fn told(self, old_log: Seq<Event>, log: Seq<Event>, version: Seq<char>) -> bool {
        version_ran(self.0, old_log, log, version)
    }

    fn version<M: Machine>(&self, sh: &mut Session<M>) -> String {
        self.0.version_or(sh, "command-adapter")
    }

    fn start<M: Machine>(&mut self, sh: &mut Session<M>) -> Result<(), String> {
        self.0.done(sh, "start")
    }

    fn stop<M: Machine>(&mut self, sh: &mut Session<M>) -> Result<(), String> {
        self.0.done(sh, "stop")
    }

    fn report<M: Machine>(&self, sh: &mut Session<M>) -> Result<Doc, String> {
        let p = self.0.exec(sh, "report");
        let ghost a = adapter::phase_view(p);
        let r = match p {
            Ok(Some(out)) => {
                let t = text::trim(&out);
                if t.as_str().is_empty() {
                    Ok(Doc::Null)
                } else {
                    match parse::read(&t) {
                        Ok(v) => Ok(v),
                        Err(e) => Err(text::join2("parsing report json: ", &e)),
                    }
                }
            },
            Ok(None) => Ok(Doc::Null),
            Err(e) => Err(e),
        };
        assert(parse::document(r) == report_of(a));
        r
    }
}

/// The command adapter of a definition's target.
pub fn command_target(def: &BenchmarkDef, vars: Table<String>) -> (r: CommandTarget)
    ensures
        r.0.commands@ == def.target.commands@,
        r.0.vars@ == vars@,
{
    CommandTarget(CommandSet { commands: table::copy_texts(&def.target.commands), vars })
}

/// The command adapter of a definition's workload.
pub fn command_workload(def: &BenchmarkDef, vars: Table<String>) -> (r: CommandWorkload)
    ensures
        r.0.commands@ == def.workload.commands@,
        r.0.vars@ == vars@,
{
    CommandWorkload(CommandSet { commands: table::copy_texts(&def.workload.commands), vars })
}

} // verus!
