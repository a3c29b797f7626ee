//! What the native adapters share: settings, spans and versions.
use crate::adapter::{self, Answer, Ask, Event, Machine, Session, Step};
use crate::json::{self, Doc, Json, Object};
use crate::table::Table;
use crate::text;
use vstd::prelude::*;

verus! {

// ---------------------------------------------------------------------------
// Settings
// ---------------------------------------------------------------------------

/// A setting: a string with the variables put in, anything else as JSON writes
/// it, or a default.
pub open spec fn setting(
    config: Seq<(Seq<char>, Json)>,
    vars: Seq<(Seq<char>, Seq<char>)>,
    key: Seq<char>,
    default: Seq<char>,
) -> Seq<char> {
    match json::lookup(config, key) {
        Some(Json::Str(s)) => adapter::rendered(s, vars),
        Some(other) => json::text_of(other),
        None => default,
    }
}

/// A setting, or a default.
pub fn cfg(config: &Object, vars: &Table<String>, key: &str, default: &str) -> (r: String)
    ensures
        r@ == setting(config@, vars@, key@, default@),
{
    match config.get(key) {
        Some(Doc::String(s)) => adapter::render(s, vars),
        Some(other) => other.to_text(),
        None => default.to_owned(),
    }
}

/// A setting, where it is set.
pub open spec fn optional(
    config: Seq<(Seq<char>, Json)>,
    vars: Seq<(Seq<char>, Seq<char>)>,
    key: Seq<char>,
) -> Option<Seq<char>> {
    if json::lookup(config, key) is Some {
        Some(setting(config, vars, key, ""@))
    } else {
        None
    }
}

/// A setting, where it is set.
pub fn cfg_opt(config: &Object, vars: &Table<String>, key: &str) -> (r: Option<String>)
    ensures
        text::opt_text(r) == optional(config@, vars@, key@),
{
    if config.get(key).is_some() {
        Some(cfg(config, vars, key, ""))
    } else {
        None
    }
}

/// A variable, or else a setting.
pub open spec fn var_or_setting(
    config: Seq<(Seq<char>, Json)>,
    vars: Seq<(Seq<char>, Seq<char>)>,
    key: Seq<char>,
    default: Seq<char>,
) -> Seq<char> {
    match json::lookup(vars, key) {
        Some(v) => v,
        None => setting(config, vars, key, default),
    }
}

pub fn var_or_cfg(config: &Object, vars: &Table<String>, key: &str, default: &str) -> (r: String)
    ensures
        r@ == var_or_setting(config@, vars@, key@, default@),
{
    match vars.get(key) {
        Some(v) => v.clone(),
        None => cfg(config, vars, key, default),
    }
}

/// The control socket of an instance where none is set: named after the kind of
/// machine, the process and, among several, the instance.
pub open spec fn default_socket(
    kind: Seq<char>,
    process: u32,
    vars: Seq<(Seq<char>, Seq<char>)>,
) -> Seq<char> {
    let stem = "/tmp/assayist-"@ + kind + "-"@ + text::decimal(process as nat);
    match json::lookup(vars, "instance"@) {
        Some(i) => stem + "-"@ + i + ".sock"@,
        None => stem + ".sock"@,
    }
}

pub fn socket_for(kind: &str, process: u32, vars: &Table<String>) -> (r: String)
    ensures
        r@ == default_socket(kind@, process, vars@),
{
    let mut s = text::join2("/tmp/assayist-", kind);
    s.append("-");
    s.append(&text::dec(process as u64));
    if let Some(i) = vars.get("instance") {
        s.append("-");
        s.append(i);
    }
    s.append(".sock");
    s
}

/// A command that is set and not blank.
pub open spec fn command_in(o: Option<String>) -> Option<Seq<char>> {
    match o {
        Some(c) => if text::trimmed(c@).len() > 0 {
            Some(c@)
        } else {
            None
        },
        None => None,
    }
}

/// A command that is set and not blank.
pub fn given(o: &Option<String>) -> (r: Option<&String>)
    ensures
        match r {
            Some(c) => command_in(*o) == Some(c@),
            None => command_in(*o) is None,
        },
{
    match o {
        Some(c) => {
            let t = text::trim(c);
            if t.as_str().is_empty() {
                None
            } else {
                Some(c)
            }
        },
        None => None,
    }
}

/// The step of a command that is set and not blank.
pub open spec fn optional_step(o: Option<String>) -> Seq<Ask> {
    match command_in(o) {
        Some(c) => seq![Ask::Command(c)],
        None => Seq::empty(),
    }
}

/// Add the step of a command that is set and not blank.
pub fn push_given(plan: &mut Vec<Step>, o: &Option<String>)
    ensures
        adapter::asks(final(plan)@) == adapter::asks(old(plan)@) + optional_step(*o),
{
    let ghost was = adapter::asks(plan@);
    if let Some(c) = given(o) {
        plan.push(Step::Command(c.clone()));
        assert(adapter::asks(plan@) =~= was + optional_step(*o));
    } else {
        assert(was + optional_step(*o) =~= was);
    }
}

/// Add a step that runs a command.
pub fn push_command(plan: &mut Vec<Step>, c: String)
    ensures
        adapter::asks(final(plan)@) == adapter::asks(old(plan)@).push(Ask::Command(c@)),
{
    let ghost was = adapter::asks(plan@);
    plan.push(Step::Command(c));
    assert(adapter::asks(plan@) =~= was.push(Ask::Command(c@)));
}

/// Add the steps of a command that is timed.
pub fn push_timed(plan: &mut Vec<Step>, c: String)
    ensures
        adapter::asks(final(plan)@) == adapter::asks(old(plan)@) + timed(c@),
{
    let ghost was = adapter::asks(plan@);
    plan.push(Step::Clock);
    plan.push(Step::Command(c));
    plan.push(Step::Clock);
    assert(adapter::asks(plan@) =~= was + timed(c@));
}

/// The steps of a command that is timed.
pub open spec fn timed(c: Seq<char>) -> Seq<Ask> {
    seq![Ask::Clock, Ask::Command(c), Ask::Clock]
}

// ---------------------------------------------------------------------------
// Spans
// ---------------------------------------------------------------------------

/// A time among events.
pub open spec fn time_at(es: Seq<Event>, i: int) -> u64 {
    match es[i] {
        Event::Clocked(t) => t,
        _ => 0,
    }
}

/// A time among answers.
pub fn answered_time(answers: &Vec<Answer>, i: usize) -> (r: u64)
    requires
        i < answers@.len(),
    ensures
        answers@[i as int] matches Answer::Time(t) ==> r == t,
{
    match &answers[i] {
        Answer::Time(t) => *t,
        Answer::Text(_) => 0,
    }
}

/// A span.
pub open spec fn span_json(name: Seq<char>, start: u64, end: u64) -> Json {
    json::fields().text("name"@, name).with("start_unix_nano"@, Json::Int(start as int)).with(
        "end_unix_nano"@,
        Json::Int(end as int),
    ).json()
}

/// A span.
pub fn span(name: &str, start: u64, end: u64) -> (r: Doc)
    ensures
        r@ == span_json(name@, start, end),
{
    Doc::Object(
        Object::new().text("name", name).with("start_unix_nano", json::uint(start)).with(
            "end_unix_nano",
            json::uint(end),
        ),
    )
}

/// Add a span.
pub fn record(spans: &mut Vec<Doc>, name: &str, start: u64, end: u64)
    ensures
        json::jsons(final(spans)@) == json::jsons(old(spans)@).push(span_json(name@, start, end)),
{
    let ghost was = spans@;
    let s = span(name, start, end);
    spans.push(s);
    assert(json::jsons(spans@) =~= json::jsons(was).push(s@));
}

// ---------------------------------------------------------------------------
// Versions
// ---------------------------------------------------------------------------

/// Whether a word looks like a version: a digit first, after a `v` or not.
pub open spec fn versionlike(w: Seq<char>) -> bool {
    let t = match text::after_prefix(w, "v"@) {
        Some(t) => t,
        None => w,
    };
    t.len() > 0 && text::is_digit(t[0])
}

/// The first word from `from` on that looks like a version.
pub open spec fn version_word(ws: Seq<Seq<char>>, from: nat) -> Option<Seq<char>>
    decreases ws.len() - from,
{
    if from >= ws.len() {
        None
    } else if versionlike(ws[from as int]) {
        Some(ws[from as int])
    } else {
        version_word(ws, from + 1)
    }
}

/// The first line of an output, trimmed.
pub open spec fn first_line(out: Seq<char>) -> Seq<char> {
    let ls = text::lines_of(out);
    text::trimmed(
        if ls.len() > 0 {
            ls[0]
        } else {
            Seq::empty()
        },
    )
}

/// The version in a tool's output: the first word of its first line that looks
/// like one, or else that line.
pub open spec fn version_in(out: Seq<char>) -> Seq<char> {
    match version_word(text::words_of(first_line(out)), 0) {
        Some(w) => w,
        None => first_line(out),
    }
}

fn looks_like_version(w: &str) -> (r: bool)
    ensures
        r == versionlike(w@),
{
    let t = match text::strip_prefix(w, "v") {
        Some(t) => t,
        None => w.to_owned(),
    };
    let cs = text::chars(&t);
    cs.len() > 0 && '0' <= cs[0] && cs[0] <= '9'
}

/// The version in a tool's output.
pub fn version_token(out: &str) -> (r: String)
    ensures
        r@ == version_in(out@),
{
    let ls = text::lines(out);
    assert(text::texts(ls@).len() == ls@.len());
    let first = if ls.len() > 0 {
        assert(text::texts(ls@)[0] == ls@[0]@);
        text::trim(&ls[0])
    } else {
        assert(text::texts(ls@) =~= Seq::empty());
        text::trim("")
    };
    proof {
        reveal_strlit("");
        assert(""@ =~= Seq::<char>::empty());
    }
    assert(first@ == first_line(out@));
    let ws = text::words(&first);
    let ghost all = text::texts(ws@);
    let mut i: usize = 0;
    while i < ws.len()
        invariant
            i <= ws@.len(),
            all == text::texts(ws@),
            all == text::words_of(first_line(out@)),
            version_word(all, 0) == version_word(all, i as nat),
        decreases ws@.len() - i,
    {
        assert(all[i as int] == ws@[i as int]@);
        if looks_like_version(&ws[i]) {
            return ws[i].clone();
        }
        i += 1;
    }
    first
}

/// What a version command's answer says, or else the name of the tool.
pub open spec fn tool_version(a: Result<Seq<char>, Seq<char>>, name: Seq<char>) -> Seq<char> {
    match a {
        Ok(out) => version_in(out),
        Err(_) => name,
    }
}

/// Whether a version was asked for by a command and is what was answered.
pub open spec fn version_asked(
    cmd: Seq<char>,
    name: Seq<char>,
    old_log: Seq<Event>,
    log: Seq<Event>,
    v: Seq<char>,
) -> bool {
    &&& log.len() == old_log.len() + 1
    &&& log.drop_last() == old_log
    &&& log.last() matches Event::Ran(c, a) && c == cmd && v == tool_version(a, name)
}

/// Ask a tool for its version.
pub fn ask_version<M: Machine>(sh: &mut Session<M>, cmd: &str, name: &str) -> (r: String)
    ensures
        version_asked(cmd@, name@, old(sh).log(), final(sh).log(), r@),
{
    let ghost was = sh.log();
    let a = sh.run(cmd);
    assert(sh.log().drop_last() =~= was);
    match a {
        Ok(out) => version_token(&out),
        Err(_) => name.to_owned(),
    }
}

/// Whether a plan was performed.
pub open spec fn went(
    plan: Seq<Ask>,
    old_log: Seq<Event>,
    log: Seq<Event>,
    r: Result<(), Seq<char>>,
) -> bool {
    adapter::grown(old_log, log) && adapter::performed(plan, adapter::since(old_log, log), r)
}

/// The result of a command that is run for its effect.
pub open spec fn effect(r: Result<Seq<char>, Seq<char>>) -> Result<(), Seq<char>> {
    match r {
        Ok(_) => Ok(()),
        Err(e) => Err(e),
    }
}

/// Whether a command was run for its effect.
pub open spec fn did(
    cmd: Seq<char>,
    old_log: Seq<Event>,
    log: Seq<Event>,
    r: Result<(), Seq<char>>,
) -> bool {
    &&& log.len() == old_log.len() + 1
    &&& log.drop_last() == old_log
    &&& log.last() matches Event::Ran(c, a) && c == cmd && r == effect(a)
}

/// Run a command for its effect.
pub fn run_for_effect<M: Machine>(sh: &mut Session<M>, cmd: &str) -> (r: Result<(), String>)
    ensures
        did(cmd@, old(sh).log(), final(sh).log(), adapter::outcome(r)),
{
    let ghost was = sh.log();
    let a = sh.run(cmd);
    assert(sh.log().drop_last() =~= was);
    match a {
        Ok(_) => Ok(()),
        Err(e) => Err(e),
    }
}

} // verus!
