//! The native workloads: fio, wrk and invocations over vsock.
use crate::adapter::{self, Event, Machine, Session, Turn, Workload};
use crate::commands;
use crate::json::{self, Doc, Json, Num, Object};
use crate::native::{self, setting};
use crate::parse;
use crate::table::Table;
use crate::text;
use vstd::prelude::*;

verus! {

// ---------------------------------------------------------------------------
// Command lines
// ---------------------------------------------------------------------------

/// An argument between quotes.
pub open spec fn quoted(a: Seq<char>) -> Seq<char> {
    "'"@ + a + "'"@
}

/// The command line of a program and its arguments, all of them quoted.
pub open spec fn command_line(bin: Seq<char>, args: Seq<Seq<char>>) -> Seq<char> {
    quoted(bin) + " "@ + text::joined(args.map_values(|a: Seq<char>| quoted(a)), " "@)
}

fn quote(a: &str) -> (r: String)
    ensures
        r@ == quoted(a@),
{
    let mut s = text::join2("'", a);
    s.append("'");
    s
}

fn line_of(bin: &str, args: &Vec<String>) -> (r: String)
    ensures
        r@ == command_line(bin@, text::texts(args@)),
{
    let ghost all = text::texts(args@).map_values(|a: Seq<char>| quoted(a));
    let mut qs: Vec<String> = Vec::new();
    let mut i: usize = 0;
    while i < args.len()
        invariant
            i <= args@.len(),
            all == text::texts(args@).map_values(|a: Seq<char>| quoted(a)),
            text::texts(qs@) =~= all.take(i as int),
        decreases args@.len() - i,
    {
        let ghost was = qs@;
        qs.push(quote(&args[i]));
        assert(text::texts(qs@) =~= text::texts(was).push(all[i as int]));
        i += 1;
    }
    assert(all.take(i as int) =~= all);
    let mut s = quote(bin);
    s.append(" ");
    s.append(&text::join(&qs, " "));
    s
}

/// Add a flag and the value of a setting.
fn push_flag(
    args: &mut Vec<String>,
    flag: &str,
    config: &Object,
    vars: &Table<String>,
    key: &str,
    default: &str,
)
    ensures
        text::texts(final(args)@) == text::texts(old(args)@).push(
            flag@ + setting(config@, vars@, key@, default@),
        ),
{
    let ghost was = args@;
    args.push(text::join2(flag, &native::cfg(config, vars, key, default)));
    assert(text::texts(args@) =~= text::texts(was).push(args@.last()@));
}

fn push_word(args: &mut Vec<String>, w: &str)
    ensures
        text::texts(final(args)@) == text::texts(old(args)@).push(w@),
{
    let ghost was = args@;
    args.push(w.to_owned());
    assert(text::texts(args@) =~= text::texts(was).push(w@));
}

/// Whether a program was run to completion, and what came of reading its
/// output.
pub open spec fn ran_to_end(
    cmd: Seq<char>,
    old_log: Seq<Event>,
    log: Seq<Event>,
    a: Result<Seq<char>, Seq<char>>,
) -> bool {
    log == old_log.push(Event::Ran(cmd, a))
}

// ---------------------------------------------------------------------------
// fio
// ---------------------------------------------------------------------------

/// An fio job, run to completion when it is started: the gadgets are running by
/// then, so they observe its window.
#[derive(Debug)]
pub struct FioWorkload {
    pub bin: String,
    pub args: Vec<String>,
    pub out: Option<Doc>,
}

/// The arguments of an fio job.
pub open spec fn fio_args(
    config: Seq<(Seq<char>, Json)>,
    vars: Seq<(Seq<char>, Seq<char>)>,
) -> Seq<Seq<char>> {
    seq![
        "--name="@ + setting(config, vars, "name"@, "assayist"@),
        "--filename="@ + setting(config, vars, "filename"@, "/tmp/assayist-fio.dat"@),
        "--rw="@ + setting(config, vars, "rw"@, "randread"@),
        "--bs="@ + setting(config, vars, "bs"@, "4k"@),
        "--iodepth="@ + setting(config, vars, "iodepth"@, "32"@),
        "--numjobs="@ + setting(config, vars, "numjobs"@, "1"@),
        "--ioengine="@ + setting(config, vars, "ioengine"@, "libaio"@),
        "--direct="@ + setting(config, vars, "direct"@, "1"@),
        "--size="@ + setting(config, vars, "size"@, "1G"@),
        "--runtime="@ + setting(config, vars, "runtime"@, "30"@),
        "--time_based"@,
        "--output-format=json"@,
    ]
}

/// The fio workload of a definition's settings.
pub fn fio_workload(config: &Object, vars: &Table<String>) -> (r: FioWorkload)
    ensures
        r.bin@ == setting(config@, vars@, "bin"@, "fio"@),
        text::texts(r.args@) == fio_args(config@, vars@),
        r.out is None,
{
    let mut args: Vec<String> = Vec::new();
    assert(text::texts(args@) =~= Seq::empty());
    push_flag(&mut args, "--name=", config, vars, "name", "assayist");
    push_flag(&mut args, "--filename=", config, vars, "filename", "/tmp/assayist-fio.dat");
    push_flag(&mut args, "--rw=", config, vars, "rw", "randread");
    push_flag(&mut args, "--bs=", config, vars, "bs", "4k");
    push_flag(&mut args, "--iodepth=", config, vars, "iodepth", "32");
    push_flag(&mut args, "--numjobs=", config, vars, "numjobs", "1");
    push_flag(&mut args, "--ioengine=", config, vars, "ioengine", "libaio");
    push_flag(&mut args, "--direct=", config, vars, "direct", "1");
    push_flag(&mut args, "--size=", config, vars, "size", "1G");
    push_flag(&mut args, "--runtime=", config, vars, "runtime", "30");
    push_word(&mut args, "--time_based");
    push_word(&mut args, "--output-format=json");
    assert(text::texts(args@) =~= fio_args(config@, vars@));
    FioWorkload { bin: native::cfg(config, vars, "bin", "fio"), args, out: None }
}

/// A document, or null.
pub open spec fn or_null(o: Option<Json>) -> Json {
    match o {
        Some(j) => j,
        None => Json::Null,
    }
}

fn copy_or_null(o: Option<&Doc>) -> (r: Doc)
    ensures
        r@ == or_null(json::found(o)),
{
    match o {
        Some(d) => d.clone(),
        None => Doc::Null,
    }
}

/// A field of a document that may not be there.
pub open spec fn field_of(o: Option<Json>, k: Seq<char>) -> Option<Json> {
    match o {
        Some(j) => json::field(j, k),
        None => None,
    }
}

fn get_of<'a>(o: Option<&'a Doc>, k: &str) -> (r: Option<&'a Doc>)
    ensures
        json::found(r) == field_of(json::found(o), k@),
{
    match o {
        Some(d) => d.get(k),
        None => None,
    }
}

pub open spec fn either(a: Option<Json>, b: Option<Json>) -> Option<Json> {
    match a {
        Some(_) => a,
        None => b,
    }
}

/// The first job of an fio report.
pub open spec fn first_job(v: Json) -> Option<Json> {
    match json::field(v, "jobs"@) {
        Some(Json::Arr(a)) => if a.len() > 0 {
            Some(a[0])
        } else {
            None
        },
        _ => None,
    }
}

/// What an fio job says of one direction. Whatever is missing is null.
pub open spec fn direction(job: Option<Json>, name: Seq<char>) -> Json {
    let d = field_of(job, name);
    let clat = either(field_of(d, "clat_ns"@), field_of(d, "clat"@));
    json::fields().with("iops"@, or_null(field_of(d, "iops"@))).with(
        "bw_kb_s"@,
        or_null(field_of(d, "bw"@)),
    ).with("clat_ns_mean"@, or_null(field_of(clat, "mean"@))).with(
        "clat_ns_p99"@,
        or_null(field_of(field_of(clat, "percentile"@), "99.000000"@)),
    ).json()
}

/// The summary of an fio report.
pub open spec fn fio_summarised(v: Json) -> Json {
    json::fields().text("driver"@, "fio"@).with(
        "fio_version"@,
        or_null(either(json::field(v, "fio version"@), json::field(v, "fio_version"@))),
    ).with("read"@, direction(first_job(v), "read"@)).with(
        "write"@,
        direction(first_job(v), "write"@),
    ).json()
}

fn job_direction(job: Option<&Doc>, name: &str) -> (r: Doc)
    ensures
        r@ == direction(json::found(job), name@),
{
    let d = get_of(job, name);
    let ns = get_of(d, "clat_ns");
    let clat = if ns.is_some() {
        ns
    } else {
        get_of(d, "clat")
    };
    Doc::Object(
        Object::new().with("iops", copy_or_null(get_of(d, "iops"))).with(
            "bw_kb_s",
            copy_or_null(get_of(d, "bw")),
        ).with("clat_ns_mean", copy_or_null(get_of(clat, "mean"))).with(
            "clat_ns_p99",
            copy_or_null(get_of(get_of(clat, "percentile"), "99.000000")),
        ),
    )
}

/// The summary of an fio report.
pub fn fio_summary(v: &Doc) -> (r: Doc)
    ensures
        r@ == fio_summarised(v@),
{
    let mut job: Option<&Doc> = None;
    if let Some(jobs) = v.get("jobs") {
        if let Some(a) = jobs.as_array() {
            if a.len() > 0 {
                assert(json::jsons(a@)[0] == a@[0]@);
                job = Some(&a[0]);
            } else {
                assert(json::jsons(a@).len() == 0);
            }
        }
    }
    assert(json::found(job) == first_job(v@));
    let named = v.get("fio version");
    let version = if named.is_some() {
        named
    } else {
        v.get("fio_version")
    };
    Doc::Object(
        Object::new().text("driver", "fio").with("fio_version", copy_or_null(version)).with(
            "read",
            job_direction(job, "read"),
        ).with("write", job_direction(job, "write")),
    )
}

/// What an fio run gives: its report, or an error.
pub open spec fn fio_read(a: Result<Seq<char>, Seq<char>>) -> Result<Json, Seq<char>> {
    match a {
        Err(e) => Err(e),
        Ok(out) => match parse::parsed(text::trimmed(out)) {
            Ok(v) => Ok(v),
            Err(e) => Err("parsing fio json output: "@ + e),
        },
    }
}

impl Workload for FioWorkload {
    open spec fn took(
        turn: Turn,
        pre: Self,
        post: Self,
        old_log: Seq<Event>,
        log: Seq<Event>,
        r: Result<(), Seq<char>>,
    ) -> bool {
        match turn {
            Turn::Start => post == (FioWorkload { out: post.out, ..pre }) && exists|
                a: Result<Seq<char>, Seq<char>>,
            | #[trigger]
                ran_to_end(command_line(pre.bin@, text::texts(pre.args@)), old_log, log, a)
                    && match fio_read(a) {
                    Ok(v) => r == Ok::<(), Seq<char>>(()) && json::opt_json(post.out) == Some(v),
                    Err(e) => r == Err::<(), Seq<char>>(e) && post.out == pre.out,
                },
            // The job ran to completion when it was started.
            Turn::Stop => post == pre && log == old_log && r == Ok::<(), Seq<char>>(()),
        }
    }

    open spec fn reported(
        self,
        old_log: Seq<Event>,
        log: Seq<Event>,
        r: Result<Json, Seq<char>>,
    ) -> bool {
        log == old_log && r == Ok::<Json, Seq<char>>(
            match json::opt_json(self.out) {
                Some(v) => fio_summarised(v),
                None => Json::Null,
            },
        )
    }

    open spec fn told(self, old_log: Seq<Event>, log: Seq<Event>, version: Seq<char>) -> bool {
        native::version_asked(commands::version_text(self.bin@), "fio"@, old_log, log, version)
    }

    fn version<M: Machine>(&self, sh: &mut Session<M>) -> String {
        native::ask_version(sh, &commands::version(&self.bin), "fio")
    }

    fn start<M: Machine>(&mut self, sh: &mut Session<M>) -> Result<(), String> {
        let a = sh.run(&line_of(&self.bin, &self.args));
        let ghost v = adapter::reply(a);
        assert(ran_to_end(
            command_line(old(self).bin@, text::texts(old(self).args@)),
            old(sh).log(),
            sh.log(),
            v,
        ));
        match a {
            Ok(out) => match parse::read(&text::trim(&out)) {
                Ok(d) => {
                    self.out = Some(d);
                    Ok(())
                },
                Err(e) => Err(text::join2("parsing fio json output: ", &e)),
            },
            Err(e) => Err(e),
        }
    }

    /// The job ran to completion when it was started.
    fn stop<M: Machine>(&mut self, sh: &mut Session<M>) -> Result<(), String> {
        Ok(())
    }

    fn report<M: Machine>(&self, sh: &mut Session<M>) -> Result<Doc, String> {
        match &self.out {
            Some(v) => Ok(fio_summary(v)),
            None => Ok(Doc::Null),
        }
    }
}

// ---------------------------------------------------------------------------
// wrk
// ---------------------------------------------------------------------------

/// An HTTP load test, run to completion when it is started.
#[derive(Debug)]
pub struct WrkWorkload {
    pub bin: String,
    pub args: Vec<String>,
    pub out: Option<String>,
}

/// The arguments of a load test: a rate and a script where they are set.
pub open spec fn wrk_args(
    config: Seq<(Seq<char>, Json)>,
    vars: Seq<(Seq<char>, Seq<char>)>,
) -> Seq<Seq<char>> {
    seq![
        "-t"@ + setting(config, vars, "threads"@, "2"@),
        "-c"@ + setting(config, vars, "connections"@, "10"@),
        "-d"@ + setting(config, vars, "duration"@, "30"@) + "s"@,
        "--latency"@,
    ] + (if json::lookup(config, "rate"@) is Some {
        seq!["-R"@ + setting(config, vars, "rate"@, ""@)]
    } else {
        Seq::empty()
    }) + (if json::lookup(config, "script"@) is Some {
        seq!["-s"@ + setting(config, vars, "script"@, ""@)]
    } else {
        Seq::empty()
    }) + seq![setting(config, vars, "url"@, "http://127.0.0.1:8080/"@)]
}

/// The wrk workload of a definition's settings.
pub fn wrk_workload(config: &Object, vars: &Table<String>) -> (r: WrkWorkload)
    ensures
        r.bin@ == setting(config@, vars@, "bin"@, "wrk"@),
        text::texts(r.args@) == wrk_args(config@, vars@),
        r.out is None,
{
    let mut args: Vec<String> = Vec::new();
    assert(text::texts(args@) =~= Seq::empty());
    push_flag(&mut args, "-t", config, vars, "threads", "2");
    push_flag(&mut args, "-c", config, vars, "connections", "10");
    let mut d = text::join2("-d", &native::cfg(config, vars, "duration", "30"));
    d.append("s");
    push_word(&mut args, &d);
    push_word(&mut args, "--latency");
    if config.get("rate").is_some() {
        push_flag(&mut args, "-R", config, vars, "rate", "");
    }
    if config.get("script").is_some() {
        push_flag(&mut args, "-s", config, vars, "script", "");
    }
    push_word(&mut args, &native::cfg(config, vars, "url", "http://127.0.0.1:8080/"));
    assert(text::texts(args@) =~= wrk_args(config@, vars@));
    WrkWorkload { bin: native::cfg(config, vars, "bin", "wrk"), args, out: None }
}

/// The first line from `from` on that begins with a label, white space aside.
pub open spec fn labelled_line(ls: Seq<Seq<char>>, label: Seq<char>, from: nat) -> Option<Seq<char>>
    decreases ls.len() - from,
{
    if from >= ls.len() {
        None
    } else if text::has_prefix(text::trim_start(ls[from as int]), label) {
        Some(ls[from as int])
    } else {
        labelled_line(ls, label, from + 1)
    }
}

fn find_labelled(ls: &Vec<String>, label: &str) -> (r: Option<String>)
    ensures
        text::opt_text(r) == labelled_line(text::texts(ls@), label@, 0),
{
    let ghost all = text::texts(ls@);
    let mut i: usize = 0;
    while i < ls.len()
        invariant
            i <= ls@.len(),
            all == text::texts(ls@),
            labelled_line(all, label@, 0) == labelled_line(all, label@, i as nat),
        decreases ls@.len() - i,
    {
        assert(all[i as int] == ls@[i as int]@);
        if text::starts_with(&text::trim_leading(&ls[i]), label) {
            return Some(ls[i].clone());
        }
        i += 1;
    }
    None
}

/// What stands after the first colon of a labelled line.
pub open spec fn after_colon(ls: Seq<Seq<char>>, label: Seq<char>) -> Option<Seq<char>> {
    match labelled_line(ls, label, 0) {
        Some(l) => {
            let ps = text::split_of(l, ':');
            if ps.len() > 1 {
                Some(text::trimmed(ps[1]))
            } else {
                None
            }
        },
        None => None,
    }
}

fn value_after_colon(ls: &Vec<String>, label: &str) -> (r: Option<String>)
    ensures
        text::opt_text(r) == after_colon(text::texts(ls@), label@),
{
    match find_labelled(ls, label) {
        Some(l) => {
            let ps = text::split(&l, ':');
            assert(text::texts(ps@).len() == ps@.len());
            if ps.len() > 1 {
                assert(text::texts(ps@)[1] == ps@[1]@);
                Some(text::trim(&ps[1]))
            } else {
                None
            }
        },
        None => None,
    }
}

/// A word of a labelled line, counted from behind the label.
pub open spec fn word_after(ls: Seq<Seq<char>>, label: Seq<char>, n: int) -> Option<Seq<char>> {
    match labelled_line(ls, label, 0) {
        Some(l) => match text::after_prefix(text::trim_start(l), label) {
            Some(rest) => {
                let ws = text::words_of(rest);
                if n < ws.len() {
                    Some(ws[n])
                } else {
                    None
                }
            },
            None => None,
        },
        None => None,
    }
}

fn find_word(ls: &Vec<String>, label: &str, n: usize) -> (r: Option<String>)
    ensures
        text::opt_text(r) == word_after(text::texts(ls@), label@, n as int),
{
    match find_labelled(ls, label) {
        Some(l) => match text::strip_prefix(&text::trim_leading(&l), label) {
            Some(rest) => {
                let ws = text::words(&rest);
                assert(text::texts(ws@).len() == ws@.len());
                if n < ws.len() {
                    assert(text::texts(ws@)[n as int] == ws@[n as int]@);
                    Some(ws[n].clone())
                } else {
                    None
                }
            },
            None => None,
        },
        None => None,
    }
}

/// The first line from `from` on that holds a text.
pub open spec fn line_holding(ls: Seq<Seq<char>>, part: Seq<char>, from: nat) -> Option<Seq<char>>
    decreases ls.len() - from,
{
    if from >= ls.len() {
        None
    } else if text::has_part(ls[from as int], part) {
        Some(ls[from as int])
    } else {
        line_holding(ls, part, from + 1)
    }
}

/// How many requests a load test made, as its summary says.
pub open spec fn requests_made(ls: Seq<Seq<char>>) -> Option<nat> {
    match line_holding(ls, "requests in"@, 0) {
        Some(l) => {
            let ws = text::words_of(l);
            if ws.len() > 0 {
                text::unsigned(ws[0], u64::MAX as nat)
            } else {
                None
            }
        },
        None => None,
    }
}

fn find_requests(ls: &Vec<String>) -> (r: Option<u64>)
    ensures
        match r {
            Some(n) => requests_made(text::texts(ls@)) == Some(n as nat),
            None => requests_made(text::texts(ls@)) is None,
        },
{
    let ghost all = text::texts(ls@);
    let mut i: usize = 0;
    while i < ls.len()
        invariant
            i <= ls@.len(),
            all == text::texts(ls@),
            line_holding(all, "requests in"@, 0) == line_holding(all, "requests in"@, i as nat),
        decreases ls@.len() - i,
    {
        assert(all[i as int] == ls@[i as int]@);
        if text::contains(&ls[i], "requests in") {
            let ws = text::words(&ls[i]);
            assert(text::texts(ws@).len() == ws@.len());
            if ws.len() == 0 {
                return None;
            }
            assert(text::texts(ws@)[0] == ws@[0]@);
            return text::parse_unsigned(&ws[0], u64::MAX);
        }
        i += 1;
    }
    None
}

/// The double that a text reads as, as JSON writes it. One that is not finite
/// is none.
pub uninterp spec fn double_said(s: Seq<char>) -> Option<Seq<char>>;

/// `str::parse` for a double, whose result `serde_json::Number::from_f64` takes
/// where it is finite and `Display` writes. It is a function of the text alone;
/// what is read and how it is rounded is not stated.
#[verifier::external_body]
fn read_double(s: &str) -> (r: Option<String>)
    ensures
        text::opt_text(r) == double_said(s@),
{
    s.parse().ok().and_then(serde_json::Number::from_f64).map(|n| n.to_string())
}

/// A text as a document, or null.
pub open spec fn str_or_null(o: Option<Seq<char>>) -> Json {
    match o {
        Some(s) => Json::Str(s),
        None => Json::Null,
    }
}

fn text_or_null(o: Option<String>) -> (r: Doc)
    ensures
        r@ == str_or_null(text::opt_text(o)),
{
    match o {
        Some(s) => Doc::String(s),
        None => Doc::Null,
    }
}

/// The rate that a load test reached.
pub open spec fn rate(o: Option<Seq<char>>) -> Json {
    match o {
        Some(s) => match double_said(s) {
            Some(t) => Json::Float(t),
            None => Json::Null,
        },
        None => Json::Null,
    }
}

/// The rate that a load test reached.
pub fn rate_of(o: Option<String>) -> (r: Doc)
    ensures
        r@ == rate(text::opt_text(o)),
{
    match o {
        Some(s) => match read_double(&s) {
            Some(t) => Doc::Num(Num::Float(t)),
            None => Doc::Null,
        },
        None => Doc::Null,
    }
}

/// The summary of a load test's output. Whatever is missing is null.
pub open spec fn wrk_summarised(out: Seq<char>) -> Json {
    let ls = text::lines_of(out);
    json::fields().text("driver"@, "wrk"@).with(
        "requests_per_sec"@,
        rate(after_colon(ls, "Requests/sec"@)),
    ).with("transfer_per_sec"@, str_or_null(after_colon(ls, "Transfer/sec"@))).with(
        "latency_avg"@,
        str_or_null(word_after(ls, "Latency"@, 0)),
    ).with("latency_max"@, str_or_null(word_after(ls, "Latency"@, 2))).with(
        "total_requests"@,
        match requests_made(ls) {
            Some(n) => Json::Int(n as int),
            None => Json::Null,
        },
    ).json()
}

/// The summary of a load test's output.
pub fn wrk_summary(out: &str) -> (r: Doc)
    ensures
        r@ == wrk_summarised(out@),
{
    let ls = text::lines(out);
    let total = match find_requests(&ls) {
        Some(n) => json::uint(n),
        None => Doc::Null,
    };
    Doc::Object(
        Object::new().text("driver", "wrk").with(
            "requests_per_sec",
            rate_of(value_after_colon(&ls, "Requests/sec")),
        ).with("transfer_per_sec", text_or_null(value_after_colon(&ls, "Transfer/sec"))).with(
            "latency_avg",
            text_or_null(find_word(&ls, "Latency", 0)),
        ).with("latency_max", text_or_null(find_word(&ls, "Latency", 2))).with(
            "total_requests",
            total,
        ),
    )
}

impl Workload for WrkWorkload {
    open spec fn took(
        turn: Turn,
        pre: Self,
        post: Self,
        old_log: Seq<Event>,
        log: Seq<Event>,
        r: Result<(), Seq<char>>,
    ) -> bool {
        match turn {
            Turn::Start => post == (WrkWorkload { out: post.out, ..pre }) && exists|
                a: Result<Seq<char>, Seq<char>>,
            | #[trigger]
                ran_to_end(command_line(pre.bin@, text::texts(pre.args@)), old_log, log, a)
                    && match a {
                    Ok(out) => r == Ok::<(), Seq<char>>(()) && text::opt_text(post.out) == Some(
                        out,
                    ),
                    Err(e) => r == Err::<(), Seq<char>>(e) && post.out == pre.out,
                },
            // The test ran to completion when it was started.
            Turn::Stop => post == pre && log == old_log && r == Ok::<(), Seq<char>>(()),
        }
    }

    open spec fn reported(
        self,
        old_log: Seq<Event>,
        log: Seq<Event>,
        r: Result<Json, Seq<char>>,
    ) -> bool {
        log == old_log && r == Ok::<Json, Seq<char>>(
            match text::opt_text(self.out) {
                Some(out) => wrk_summarised(out),
                None => Json::Null,
            },
        )
    }

    open spec fn told(self, old_log: Seq<Event>, log: Seq<Event>, version: Seq<char>) -> bool {
        native::version_asked(commands::version_merged_text(self.bin@), "wrk"@, old_log, log, version)
    }

    fn version<M: Machine>(&self, sh: &mut Session<M>) -> String {
        native::ask_version(sh, &commands::version_merged(&self.bin), "wrk")
    }

    fn start<M: Machine>(&mut self, sh: &mut Session<M>) -> Result<(), String> {
        let a = sh.run(&line_of(&self.bin, &self.args));
        let ghost v = adapter::reply(a);
        assert(ran_to_end(
            command_line(old(self).bin@, text::texts(old(self).args@)),
            old(sh).log(),
            sh.log(),
            v,
        ));
        match a {
            Ok(out) => {
                self.out = Some(out);
                Ok(())
            },
            Err(e) => Err(e),
        }
    }

    /// The test ran to completion when it was started.
    fn stop<M: Machine>(&mut self, sh: &mut Session<M>) -> Result<(), String> {
        Ok(())
    }

    fn report<M: Machine>(&self, sh: &mut Session<M>) -> Result<Doc, String> {
        match &self.out {
            Some(out) => Ok(wrk_summary(out)),
            None => Ok(Doc::Null),
        }
    }
}

} // verus!
