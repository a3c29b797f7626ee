//! N targets run as one, for concurrency benchmarks.
//!
//! Every instance is brought up and held through the capture window, so that a
//! capture on the host measures the aggregate. One span is recorded, for the
//! time it took to bring all of them to steady.
use crate::adapter::{self, Event, Machine, NetAttribution, Phase, Session, Target};
use crate::json::{self, Doc, Json, Object};
use crate::native;
use crate::parse;
use crate::text;
use vstd::prelude::*;

verus! {

/// N targets run as one.
pub struct FanoutTarget<T: Target> {
    inners: Vec<T>,
    start_ns: u64,
    recorded: Vec<Doc>,
}

/// Whether the first `n` instances went through a phase one after another, the
/// log of the machine going through `logs`.
pub open spec fn in_turn<T: Target>(
    phase: Phase,
    pre: Seq<T>,
    post: Seq<T>,
    logs: Seq<Seq<Event>>,
    rs: Seq<Result<(), Seq<char>>>,
) -> bool {
    &&& pre.len() == post.len()
    &&& rs.len() <= pre.len()
    &&& logs.len() == rs.len() + 1
    &&& forall|i: int|
        0 <= i < rs.len() ==> #[trigger] T::did(phase, pre[i], post[i], logs[i], logs[i + 1], rs[i])
    &&& forall|i: int| rs.len() <= i < pre.len() ==> #[trigger] post[i] == pre[i]
}

/// Whether instances went through a phase one after another, up to the first
/// that failed.
pub open spec fn driven<T: Target>(
    phase: Phase,
    pre: Seq<T>,
    post: Seq<T>,
    logs: Seq<Seq<Event>>,
    rs: Seq<Result<(), Seq<char>>>,
    r: Result<(), Seq<char>>,
) -> bool {
    &&& in_turn(phase, pre, post, logs, rs)
    &&& match r {
        Ok(()) => rs.len() == pre.len() && forall|i: int|
            0 <= i < rs.len() ==> #[trigger] rs[i] is Ok,
        Err(_) => rs.len() > 0 && rs.last() == r && forall|i: int|
            0 <= i < rs.len() - 1 ==> #[trigger] rs[i] is Ok,
    }
}

/// The last error among results.
pub open spec fn last_error(rs: Seq<Result<(), Seq<char>>>) -> Result<(), Seq<char>>
    decreases rs.len(),
{
    if rs.len() == 0 {
        Ok(())
    } else {
        match rs.last() {
            Err(e) => Err(e),
            Ok(()) => last_error(rs.drop_last()),
        }
    }
}

/// Tearing instances down goes well just where it does for each of them;
/// otherwise the error is that of the last for which it does not.
pub proof fn law_last_error_is_reported(rs: Seq<Result<(), Seq<char>>>)
    ensures
        last_error(rs) is Ok <==> forall|i: int| 0 <= i < rs.len() ==> #[trigger] rs[i] is Ok,
        last_error(rs) is Err ==> exists|i: int|
            0 <= i < rs.len() && #[trigger] rs[i] == last_error(rs) && forall|j: int|
                i < j < rs.len() ==> #[trigger] rs[j] is Ok,
    decreases rs.len(),
{
    if rs.len() > 0 {
        let d = rs.drop_last();
        law_last_error_is_reported(d);
        assert(rs[rs.len() - 1] == rs.last());
        assert forall|i: int| 0 <= i < d.len() implies #[trigger] rs[i] == d[i] by {}
        if rs.last() is Ok {
            if last_error(d) is Err {
                let i = choose|i: int|
                    0 <= i < d.len() && #[trigger] d[i] == last_error(d) && forall|j: int|
                        i < j < d.len() ==> #[trigger] d[j] is Ok;
                assert(rs[i] == last_error(rs));
                assert forall|j: int| i < j < rs.len() implies #[trigger] rs[j] is Ok by {
                    if j < d.len() {
                        assert(d[j] is Ok);
                    }
                }
            } else {
                assert forall|i: int| 0 <= i < rs.len() implies #[trigger] rs[i] is Ok by {
                    if i < d.len() {
                        assert(d[i] is Ok);
                    }
                }
            }
        }
    }
}

/// Whether every instance was torn down, whatever came of the others.
pub open spec fn all_torn_down<T: Target>(
    pre: Seq<T>,
    post: Seq<T>,
    logs: Seq<Seq<Event>>,
    rs: Seq<Result<(), Seq<char>>>,
    r: Result<(), Seq<char>>,
) -> bool {
    &&& in_turn(Phase::Teardown, pre, post, logs, rs)
    &&& rs.len() == pre.len()
    &&& r == last_error(rs)
}

/// Whether the machine's log went from one to another through `logs`.
pub open spec fn through(old_log: Seq<Event>, log: Seq<Event>, logs: Seq<Seq<Event>>) -> bool {
    logs.len() > 0 && logs[0] == old_log && logs.last() == log
}

/// The name of an aggregate span: that of the last span of the first instance.
pub open spec fn span_name(r: Result<Seq<Json>, Seq<char>>) -> Seq<char> {
    match r {
        Ok(ss) => if ss.len() > 0 {
            match json::str_field(ss.last(), "name"@) {
                Some(s) => s,
                None => "reach_steady"@,
            }
        } else {
            "reach_steady"@
        },
        Err(_) => "reach_steady"@,
    }
}

/// The label of an instance.
pub open spec fn instance_label(i: int) -> Seq<char> {
    "instance"@ + text::decimal(i as nat)
}

fn label(i: usize) -> (r: String)
    ensures
        r@ == instance_label(i as int),
{
    text::join2("instance", &text::dec(i as u64))
}

/// The layouts of the first `n` instances, by label.
pub open spec fn merged_layouts(ls: Seq<Option<Json>>, n: nat) -> Seq<(Seq<char>, Json)>
    decreases n,
{
    if n == 0 {
        Seq::empty()
    } else {
        let before = merged_layouts(ls, (n - 1) as nat);
        match ls[n - 1] {
            Some(l) => json::put(before, instance_label(n - 1), l),
            None => before,
        }
    }
}

/// The layout of a fanout: none, unless an instance pinned.
pub open spec fn merged_layout(ls: Seq<Option<Json>>) -> Option<Json> {
    let m = merged_layouts(ls, ls.len());
    if m.len() == 0 {
        None
    } else {
        Some(Json::Obj(m))
    }
}

/// Whether `ls` are the layouts that instances report.
pub open spec fn layouts_reported<T: Target>(ts: Seq<T>, ls: Seq<Option<Json>>) -> bool {
    &&& ls.len() == ts.len()
    &&& forall|i: int| 0 <= i < ts.len() ==> layout_reported(#[trigger] ts[i], ls[i])
}

pub open spec fn layout_reported<T: Target>(t: T, l: Option<Json>) -> bool {
    exists|o: Option<Doc>| #[trigger] call_ensures(T::pinning_layout, (&t,), o) && l
        == json::opt_json(o)
}

/// Files with the label of their instance in place of their own.
pub open spec fn relabelled(files: Seq<(String, String)>, i: int) -> Seq<(Seq<char>, Seq<char>)> {
    files.map_values(|f: (String, String)| (instance_label(i), f.1@))
}

/// The files of the first `n` instances, each with the label of its instance.
pub open spec fn labelled_files(
    fs: Seq<Seq<(String, String)>>,
    n: nat,
) -> Seq<(Seq<char>, Seq<char>)>
    decreases n,
{
    if n == 0 {
        Seq::empty()
    } else {
        labelled_files(fs, (n - 1) as nat) + relabelled(fs[n - 1], n - 1)
    }
}

/// Whether `fs` are the files that instances report.
pub open spec fn files_reported<T: Target>(ts: Seq<T>, fs: Seq<Seq<(String, String)>>) -> bool {
    &&& fs.len() == ts.len()
    &&& forall|i: int| 0 <= i < ts.len() ==> file_reported(#[trigger] ts[i], fs[i])
}

pub open spec fn file_reported<T: Target>(t: T, f: Seq<(String, String)>) -> bool {
    exists|v: Vec<(String, String)>| #[trigger] call_ensures(T::resident_files, (&t,), v) && v@ == f
}

pub open spec fn file_views(s: Seq<(String, String)>) -> Seq<(Seq<char>, Seq<char>)> {
    s.map_values(|f: (String, String)| (f.0@, f.1@))
}

/// The taps of the first `n` instances.
pub open spec fn all_taps(ns: Seq<Seq<NetAttribution>>, n: nat) -> Seq<NetAttribution>
    decreases n,
{
    if n == 0 {
        Seq::empty()
    } else {
        all_taps(ns, (n - 1) as nat) + ns[n - 1]
    }
}

/// Whether `ns` are the taps that instances report.
pub open spec fn taps_reported<T: Target>(ts: Seq<T>, ns: Seq<Seq<NetAttribution>>) -> bool {
    &&& ns.len() == ts.len()
    &&& forall|i: int| 0 <= i < ts.len() ==> tap_reported(#[trigger] ts[i], ns[i])
}

pub open spec fn tap_reported<T: Target>(t: T, n: Seq<NetAttribution>) -> bool {
    exists|v: Vec<NetAttribution>| #[trigger] call_ensures(T::net_attribution, (&t,), v) && v@ == n
}

impl<T: Target> FanoutTarget<T> {
    pub closed spec fn inners(&self) -> Seq<T> {
        self.inners@
    }

    pub closed spec fn start_ns(&self) -> u64 {
        self.start_ns
    }

    /// The spans that were recorded.
    pub closed spec fn recorded(&self) -> Seq<Json> {
        json::jsons(self.recorded@)
    }

    pub fn new(inners: Vec<T>) -> (r: Self)
        ensures
            r.inners() == inners@,
            r.recorded() == Seq::<Json>::empty(),
    {
        let r = FanoutTarget { inners, start_ns: 0, recorded: Vec::new() };
        assert(r.recorded() =~= Seq::empty());
        r
    }

    /// Take one instance through a phase.
    fn step<M: Machine>(&mut self, phase: Phase, i: usize, sh: &mut Session<M>) -> (r: Result<
        (),
        String,
    >)
        requires
            i < old(self).inners().len(),
        ensures
            final(self).inners() == old(self).inners().update(
                i as int,
                final(self).inners()[i as int],
            ),
            final(self).start_ns() == old(self).start_ns(),
            final(self).recorded() == old(self).recorded(),
            T::did(
                phase,
                old(self).inners()[i as int],
                final(self).inners()[i as int],
                old(sh).log(),
                final(sh).log(),
                adapter::outcome(r),
            ),
    {
        let r = match phase {
            Phase::Provision => self.inners[i].provision(sh),
            Phase::Start => self.inners[i].start(sh),
            Phase::Steady => self.inners[i].reach_steady(sh),
            Phase::Teardown => self.inners[i].teardown(sh),
        };
        assert(self.inners() =~= old(self).inners().update(i as int, self.inners()[i as int]));
        r
    }

    /// Take the instances through a phase, one after another.
    fn drive<M: Machine>(&mut self, phase: Phase, sh: &mut Session<M>) -> (r: Result<(), String>)
        ensures
            final(self).start_ns() == old(self).start_ns(),
            final(self).recorded() == old(self).recorded(),
            exists|logs: Seq<Seq<Event>>, rs: Seq<Result<(), Seq<char>>>|
                through(old(sh).log(), final(sh).log(), logs) && #[trigger] driven(
                    phase,
                    old(self).inners(),
                    final(self).inners(),
                    logs,
                    rs,
                    adapter::outcome(r),
                ),
    {
        let ghost pre = self.inners();
        let ghost mut logs: Seq<Seq<Event>> = seq![sh.log()];
        let ghost mut rs: Seq<Result<(), Seq<char>>> = Seq::empty();
        let n: usize = self.inners.len();
        let mut i: usize = 0;
        while i < n
            invariant
                i <= n,
                n == pre.len(),
                pre == old(self).inners(),
                self.start_ns() == old(self).start_ns(),
                self.recorded() == old(self).recorded(),
                through(old(sh).log(), sh.log(), logs),
                in_turn(phase, pre, self.inners(), logs, rs),
                rs.len() == i,
                forall|j: int| 0 <= j < i ==> #[trigger] rs[j] is Ok,
            decreases n - i,
        {
            let ghost mid = self.inners();
            let r = self.step(phase, i, sh);
            proof {
                lemma_in_turn(phase, pre, mid, self.inners(), logs, rs, sh.log(), adapter::outcome(r));
                logs = logs.push(sh.log());
                rs = rs.push(adapter::outcome(r));
            }
            match r {
                Ok(()) => {},
                Err(e) => {
                    assert(driven(phase, pre, self.inners(), logs, rs, Err::<(), Seq<char>>(e@)));
                    return Err(e);
                },
            }
            i += 1;
        }
        assert(driven(phase, pre, self.inners(), logs, rs, Ok::<(), Seq<char>>(())));
        Ok(())
    }
}

/// One more instance goes through a phase.
proof fn lemma_in_turn<T: Target>(
    phase: Phase,
    pre: Seq<T>,
    mid: Seq<T>,
    post: Seq<T>,
    logs: Seq<Seq<Event>>,
    rs: Seq<Result<(), Seq<char>>>,
    log: Seq<Event>,
    r: Result<(), Seq<char>>,
)
    requires
        in_turn(phase, pre, mid, logs, rs),
        rs.len() < pre.len(),
        post == mid.update(rs.len() as int, post[rs.len() as int]),
        T::did(phase, mid[rs.len() as int], post[rs.len() as int], logs.last(), log, r),
    ensures
        in_turn(phase, pre, post, logs.push(log), rs.push(r)),
{
    let n = rs.len() as int;
    let ls = logs.push(log);
    let qs = rs.push(r);
    assert(mid[n] == pre[n]);
    assert forall|i: int| 0 <= i < qs.len() implies #[trigger] T::did(
        phase,
        pre[i],
        post[i],
        ls[i],
        ls[i + 1],
        qs[i],
    ) by {
        if i < n {
            assert(T::did(phase, pre[i], mid[i], logs[i], logs[i + 1], rs[i]));
            assert(post[i] == mid[i]);
        }
    }
    assert forall|i: int| qs.len() <= i < pre.len() implies #[trigger] post[i] == pre[i] by {
        assert(post[i] == mid[i]);
        assert(mid[i] == pre[i]);
    }
}

fn last_name(r: &Result<Vec<Doc>, String>) -> (n: String)
    ensures
        n@ == span_name(parse::documents(*r)),
{
    if let Ok(ss) = r {
        if ss.len() > 0 {
            let s = &ss[ss.len() - 1];
            assert(json::jsons(ss@).last() == s@);
            if let Some(n) = s.str_at("name") {
                return n.to_owned();
            }
        }
    }
    "reach_steady".to_owned()
}

/// Whether a fanout reached steady: every instance did, the time was taken, the
/// first instance said what its spans are, and one span was recorded.
pub open spec fn steadied<T: Target>(
    pre: FanoutTarget<T>,
    post: FanoutTarget<T>,
    mid: Seq<Event>,
    log: Seq<Event>,
    end: u64,
    spans: Result<Seq<Json>, Seq<char>>,
) -> bool {
    let clocked = mid.push(Event::Clocked(end));
    &&& if post.inners().len() > 0 {
        post.inners()[0].spanned(clocked, log, spans)
    } else {
        log == clocked && spans == Ok::<Seq<Json>, Seq<char>>(Seq::empty())
    }
    &&& post.recorded() == pre.recorded().push(
        native::span_json(span_name(spans), pre.start_ns(), end),
    )
}

/// Whether every instance was brought to steady, up to the first that failed,
/// and one span recorded where none did.
pub open spec fn brought_up<T: Target>(
    pre: FanoutTarget<T>,
    post: FanoutTarget<T>,
    old_log: Seq<Event>,
    log: Seq<Event>,
    r: Result<(), Seq<char>>,
) -> bool {
    exists|logs: Seq<Seq<Event>>, rs: Seq<Result<(), Seq<char>>>| #[trigger]
        driven(Phase::Steady, pre.inners(), post.inners(), logs, rs, r) && match r {
            Ok(()) => through(old_log, logs.last(), logs) && exists|
                end: u64,
                spans: Result<Seq<Json>, Seq<char>>,
            | #[trigger]
                steadied(pre, post, logs.last(), log, end, spans),
            Err(_) => through(old_log, log, logs) && post.recorded() == pre.recorded(),
        }
}

impl<T: Target> Target for FanoutTarget<T> {
    open spec fn did(
        phase: Phase,
        pre: Self,
        post: Self,
        old_log: Seq<Event>,
        log: Seq<Event>,
        r: Result<(), Seq<char>>,
    ) -> bool {
        match phase {
            Phase::Provision => post.recorded() == pre.recorded() && exists|
                logs: Seq<Seq<Event>>,
                rs: Seq<Result<(), Seq<char>>>,
            |
                through(old_log.push(Event::Clocked(post.start_ns())), log, logs)
                    && #[trigger] driven(phase, pre.inners(), post.inners(), logs, rs, r),
            Phase::Start => post.recorded() == pre.recorded() && post.start_ns() == pre.start_ns()
                && exists|logs: Seq<Seq<Event>>, rs: Seq<Result<(), Seq<char>>>|
                through(old_log, log, logs) && #[trigger] driven(
                    phase,
                    pre.inners(),
                    post.inners(),
                    logs,
                    rs,
                    r,
                ),
            Phase::Steady => post.start_ns() == pre.start_ns() && brought_up(
                pre,
                post,
                old_log,
                log,
                r,
            ),
            Phase::Teardown => post.recorded() == pre.recorded() && post.start_ns()
                == pre.start_ns() && exists|
                logs: Seq<Seq<Event>>,
                rs: Seq<Result<(), Seq<char>>>,
            |
                through(old_log, log, logs) && #[trigger] all_torn_down(
                    pre.inners(),
                    post.inners(),
                    logs,
                    rs,
                    r,
                ),
        }
    }

    open spec fn spanned(
        self,
        old_log: Seq<Event>,
        log: Seq<Event>,
        r: Result<Seq<Json>, Seq<char>>,
    ) -> bool {
        log == old_log && r == Ok::<Seq<Json>, Seq<char>>(self.recorded())
    }

    /// The version is that of the first instance.
    open spec fn told(self, old_log: Seq<Event>, log: Seq<Event>, version: Seq<char>) -> bool {
        if self.inners().len() > 0 {
            self.inners()[0].told(old_log, log, version)
        } else {
            log == old_log && version == "fanout"@
        }
    }

    fn version<M: Machine>(&self, sh: &mut Session<M>) -> String {
        if self.inners.len() > 0 {
            self.inners[0].version(sh)
        } else {
            "fanout".to_owned()
        }
    }

    fn provision<M: Machine>(&mut self, sh: &mut Session<M>) -> Result<(), String> {
        let t: u64 = sh.now_nanos();
        self.start_ns = t;
        assert(self.inners() == old(self).inners());
        assert(self.recorded() == old(self).recorded());
        self.drive(Phase::Provision, sh)
    }

    fn start<M: Machine>(&mut self, sh: &mut Session<M>) -> Result<(), String> {
        self.drive(Phase::Start, sh)
    }

    /// Bring every instance to steady, and record one span from the time that
    /// provisioning began, under the name of the first instance's own span.
    fn reach_steady<M: Machine>(&mut self, sh: &mut Session<M>) -> Result<(), String> {
        match self.drive(Phase::Steady, sh) {
            Ok(()) => {},
            Err(e) => {
                return Err(e);
            },
        }
        let ghost mid = sh.log();
        let end: u64 = sh.now_nanos();
        let ss = if self.inners.len() > 0 {
            self.inners[0].spans(sh)
        } else {
            Ok(Vec::new())
        };
        let ghost a = parse::documents(ss);
        assert(json::jsons(Seq::<Doc>::empty()) =~= Seq::empty());
        let name = last_name(&ss);
        let ghost rec = self.recorded@;
        let s = native::span(&name, self.start_ns, end);
        self.recorded.push(s);
        assert(json::jsons(self.recorded@) =~= json::jsons(rec).push(s@));
        assert(steadied(*old(self), *self, mid, sh.log(), end, a));
        Ok(())
    }

    fn spans<M: Machine>(&self, sh: &mut Session<M>) -> Result<Vec<Doc>, String> {
        Ok(json::copy_values(&self.recorded))
    }

    /// Tear every instance down, whatever comes of the others.
    fn teardown<M: Machine>(&mut self, sh: &mut Session<M>) -> Result<(), String> {
        let ghost pre = self.inners();
        let ghost mut logs: Seq<Seq<Event>> = seq![sh.log()];
        let ghost mut rs: Seq<Result<(), Seq<char>>> = Seq::empty();
        let n: usize = self.inners.len();
        let mut last: Result<(), String> = Ok(());
        let mut i: usize = 0;
        while i < n
            invariant
                i <= n,
                n == pre.len(),
                pre == old(self).inners(),
                self.start_ns() == old(self).start_ns(),
                self.recorded() == old(self).recorded(),
                through(old(sh).log(), sh.log(), logs),
                in_turn(Phase::Teardown, pre, self.inners(), logs, rs),
                rs.len() == i,
                adapter::outcome(last) == last_error(rs),
            decreases n - i,
        {
            let ghost mid = self.inners();
            let r = self.step(Phase::Teardown, i, sh);
            proof {
                let o = adapter::outcome(r);
                lemma_in_turn(Phase::Teardown, pre, mid, self.inners(), logs, rs, sh.log(), o);
                assert(rs.push(o).drop_last() =~= rs);
                logs = logs.push(sh.log());
                rs = rs.push(o);
            }
            if let Err(e) = r {
                last = Err(e);
            }
            i += 1;
        }
        assert(all_torn_down(pre, self.inners(), logs, rs, adapter::outcome(last)));
        last
    }

    fn pinning_layout(&self) -> (r: Option<Doc>)
        ensures
            exists|ls: Seq<Option<Json>>| #[trigger]
                layouts_reported(self.inners(), ls) && json::opt_json(r) == merged_layout(ls),
    {
        let mut o = Object::new();
        let ghost mut ls: Seq<Option<Json>> = Seq::empty();
        let mut i: usize = 0;
        while i < self.inners.len()
            invariant
                i <= self.inners@.len(),
                ls.len() == i,
                forall|j: int| 0 <= j < i ==> layout_reported(#[trigger] self.inners@[j], ls[j]),
                o@ == merged_layouts(ls, i as nat),
            decreases self.inners@.len() - i,
        {
            let l = self.inners[i].pinning_layout();
            let ghost before = ls;
            proof {
                assert(layout_reported(self.inners@[i as int], json::opt_json(l)));
                ls = ls.push(json::opt_json(l));
                lemma_layouts_extend(before, json::opt_json(l), i as nat);
                assert forall|j: int| 0 <= j < i + 1 implies layout_reported(
                    #[trigger] self.inners@[j],
                    ls[j],
                ) by {
                    if j < i {
                        assert(ls[j] == before[j]);
                    }
                }
            }
            if let Some(d) = l {
                o = o.with(&label(i), d);
            }
            i += 1;
        }
        assert(layouts_reported(self.inners(), ls));
        if o.len() == 0 {
            None
        } else {
            Some(Doc::Object(o))
        }
    }

    fn resident_files(&self) -> (r: Vec<(String, String)>)
        ensures
            exists|fs: Seq<Seq<(String, String)>>| #[trigger]
                files_reported(self.inners(), fs) && file_views(r@) == labelled_files(
                    fs,
                    fs.len(),
                ),
    {
        let mut out: Vec<(String, String)> = Vec::new();
        let ghost mut fs: Seq<Seq<(String, String)>> = Seq::empty();
        let mut i: usize = 0;
        assert(file_views(out@) =~= Seq::empty());
        while i < self.inners.len()
            invariant
                i <= self.inners@.len(),
                fs.len() == i,
                forall|j: int| 0 <= j < i ==> file_reported(#[trigger] self.inners@[j], fs[j]),
                file_views(out@) == labelled_files(fs, i as nat),
            decreases self.inners@.len() - i,
        {
            let files = self.inners[i].resident_files();
            let ghost before = fs;
            let ghost start = file_views(out@);
            proof {
                assert(file_reported(self.inners@[i as int], files@));
                fs = fs.push(files@);
                lemma_files_extend(before, files@, i as nat);
                assert forall|j: int| 0 <= j < i + 1 implies file_reported(
                    #[trigger] self.inners@[j],
                    fs[j],
                ) by {
                    if j < i {
                        assert(fs[j] == before[j]);
                    }
                }
            }
            let mut j: usize = 0;
            assert(relabelled(files@, i as int).take(0) =~= Seq::empty());
            assert(start + relabelled(files@, i as int).take(0) =~= start);
            while j < files.len()
                invariant
                    j <= files@.len(),
                    file_views(out@) == start + relabelled(files@, i as int).take(j as int),
                decreases files@.len() - j,
            {
                let ghost was = out@;
                out.push((label(i), files[j].1.clone()));
                assert(file_views(out@) =~= file_views(was).push(
                    relabelled(files@, i as int)[j as int],
                ));
                assert(relabelled(files@, i as int).take(j + 1) =~= relabelled(
                    files@,
                    i as int,
                ).take(j as int).push(relabelled(files@, i as int)[j as int]));
                j += 1;
            }
            assert(relabelled(files@, i as int).take(j as int) =~= relabelled(files@, i as int));
            i += 1;
        }
        assert(files_reported(self.inners(), fs));
        out
    }

    fn net_attribution(&self) -> (r: Vec<NetAttribution>)
        ensures
            exists|ns: Seq<Seq<NetAttribution>>| #[trigger]
                taps_reported(self.inners(), ns) && r@ == all_taps(ns, ns.len()),
    {
        let mut out: Vec<NetAttribution> = Vec::new();
        let ghost mut ns: Seq<Seq<NetAttribution>> = Seq::empty();
        let mut i: usize = 0;
        while i < self.inners.len()
            invariant
                i <= self.inners@.len(),
                ns.len() == i,
                forall|j: int| 0 <= j < i ==> tap_reported(#[trigger] self.inners@[j], ns[j]),
                out@ == all_taps(ns, i as nat),
            decreases self.inners@.len() - i,
        {
            let mut taps = self.inners[i].net_attribution();
            let ghost before = ns;
            proof {
                assert(tap_reported(self.inners@[i as int], taps@));
                ns = ns.push(taps@);
                lemma_taps_extend(before, taps@, i as nat);
                assert forall|j: int| 0 <= j < i + 1 implies tap_reported(
                    #[trigger] self.inners@[j],
                    ns[j],
                ) by {
                    if j < i {
                        assert(ns[j] == before[j]);
                    }
                }
            }
            out.append(&mut taps);
            i += 1;
        }
        assert(taps_reported(self.inners(), ns));
        out
    }
}

proof fn lemma_layouts_extend(ls: Seq<Option<Json>>, l: Option<Json>, n: nat)
    requires
        n <= ls.len(),
    ensures
        merged_layouts(ls.push(l), n) == merged_layouts(ls, n),
    decreases n,
{
    if n > 0 {
        lemma_layouts_extend(ls, l, (n - 1) as nat);
    }
}

proof fn lemma_files_extend(fs: Seq<Seq<(String, String)>>, f: Seq<(String, String)>, n: nat)
    requires
        n <= fs.len(),
    ensures
        labelled_files(fs.push(f), n) == labelled_files(fs, n),
    decreases n,
{
    if n > 0 {
        lemma_files_extend(fs, f, (n - 1) as nat);
    }
}

proof fn lemma_taps_extend(ns: Seq<Seq<NetAttribution>>, t: Seq<NetAttribution>, n: nat)
    requires
        n <= ns.len(),
    ensures
        all_taps(ns.push(t), n) == all_taps(ns, n),
    decreases n,
{
    if n > 0 {
        lemma_taps_extend(ns, t, (n - 1) as nat);
    }
}

} // verus!
