use std::cell::RefCell;
use std::collections::HashMap;

use assayist::adapter::{
    perform, render, vars, CommandSet, Machine, NetAttribution, Residency, Session, Shell, Step,
    Target, Workload,
};
use assayist::capture::{capture, path_in, plan_gadgets, sanitize, GadgetInvocation, GadgetRunner};
use assayist::command::{CommandTarget, CommandWorkload};
use assayist::contract::Fragment;
use assayist::crew::Crew;
use assayist::def::{CaptureEntry, Cardinality};
use assayist::drive::{execute_run, Act, Progress, Rig, Stage};
use assayist::fanout::FanoutTarget;
use assayist::hostmem::{hostmem_fragment, parse_meminfo, resident_fragment, Resident};
use assayist::json::Doc;
use assayist::netattrib::{
    after_refusal, guest_mac_for, rewrite_vm_id_labels, state_name, understand, AttributionSession,
    ControlClient, HandleTable, Retry, Wire, LIFECYCLE_PAUSED, LIFECYCLE_PAUSING,
    LIFECYCLE_RESUMING, LIFECYCLE_RUNNING,
};
use assayist::parse;
use assayist::table::Table;

fn doc(t: &str) -> Doc {
    parse::read(t).unwrap()
}

fn at<'a>(d: &'a Doc, path: &[&str]) -> &'a Doc {
    let mut cur = d;
    for k in path {
        cur = cur.get(k).unwrap();
    }
    cur
}

fn text_at<'a>(d: &'a Doc, path: &[&str]) -> &'a str {
    at(d, path).as_str().unwrap()
}

fn num_at(d: &Doc, path: &[&str]) -> u64 {
    at(d, path).as_u64().unwrap()
}

/// Records the commands it was asked to run and returns canned stdout keyed
/// by a substring match, so tests assert ordering and templating.
struct FakeShell {
    seen: RefCell<Vec<String>>,
    replies: HashMap<String, Result<String, String>>,
    clock: RefCell<u64>,
}

impl FakeShell {
    fn new() -> FakeShell {
        FakeShell {
            seen: RefCell::new(vec![]),
            replies: HashMap::new(),
            clock: RefCell::new(1_700_000_000_000_000_000),
        }
    }
    fn reply(mut self, needle: &str, out: &str) -> FakeShell {
        self.replies.insert(needle.to_string(), Ok(out.to_string()));
        self
    }
    fn refuse(mut self, needle: &str, why: &str) -> FakeShell {
        self.replies.insert(needle.to_string(), Err(why.to_string()));
        self
    }
    fn life(&self) -> Vec<String> {
        self.seen.borrow().iter().filter(|c| *c != "cat /proc/meminfo").cloned().collect()
    }
}

impl Shell for FakeShell {
    fn run(&self, cmd: &str) -> Result<String, String> {
        self.seen.borrow_mut().push(cmd.to_string());
        for (needle, out) in &self.replies {
            if cmd.contains(needle) {
                return out.clone();
            }
        }
        Ok(String::new())
    }
}

impl Machine for FakeShell {
    fn now_nanos(&self) -> u64 {
        *self.clock.borrow_mut() += 1;
        *self.clock.borrow()
    }
    fn residency(&self, path: &str) -> Option<Residency> {
        if path == "/snap/mem" {
            Some(Residency { resident: 3, total: 4, fraction: "0.75".to_string() })
        } else {
            None
        }
    }
}

struct FakeRunner {
    series: Vec<&'static str>,
    costs: Vec<&'static str>,
}

impl FakeRunner {
    fn empty() -> FakeRunner {
        FakeRunner { series: vec![], costs: vec![] }
    }
}

impl GadgetRunner for FakeRunner {
    type Handle = ();
    fn spawn(&self, _inv: &GadgetInvocation) -> Result<(), String> {
        Ok(())
    }
    fn wait(&self, _inv: &GadgetInvocation, _h: ()) -> Result<Fragment, String> {
        Ok(Fragment {
            series: self.series.iter().map(|t| doc(t)).collect(),
            self_metrics: self.costs.iter().map(|t| doc(t)).collect(),
            capture_meta: None,
        })
    }
}

/// Answers each line from a list, and records the lines.
struct FakeWire {
    replies: RefCell<Vec<&'static str>>,
    got: std::rc::Rc<RefCell<Vec<String>>>,
}

impl Wire for FakeWire {
    fn exchange(&self, line: &str) -> Result<String, String> {
        self.got.borrow_mut().push(line.to_string());
        let mut replies = self.replies.borrow_mut();
        if replies.is_empty() {
            return Err("the owner is gone".to_string());
        }
        Ok(replies.remove(0).to_string())
    }
}

fn wire(replies: Vec<&'static str>) -> (FakeWire, std::rc::Rc<RefCell<Vec<String>>>) {
    let got = std::rc::Rc::new(RefCell::new(vec![]));
    (FakeWire { replies: RefCell::new(replies), got: got.clone() }, got)
}

fn no_session() -> Option<AttributionSession<FakeWire>> {
    None
}

fn table(pairs: &[(&str, &str)]) -> Table<String> {
    let mut t: Table<String> = Table::new();
    for (k, v) in pairs {
        t = t.with(k, v.to_string());
    }
    t
}

fn cset(pairs: &[(&str, &str)]) -> CommandSet {
    CommandSet { commands: table(pairs), vars: table(&[("vcpu", "2")]) }
}

fn idle() -> CommandSet {
    CommandSet { commands: Table::new(), vars: Table::new() }
}

fn entry(probe: &str, gadget: Option<&str>) -> CaptureEntry {
    CaptureEntry {
        probe: probe.to_string(),
        gadget: gadget.map(String::from),
        cardinality: Cardinality { class: "singleton".into(), key_source: None, max_keys: None },
        attach: None,
        hot_path: false,
        args: vec![],
    }
}

// --- command adapters ------------------------------------------------------------

#[test]
fn render_substitutes_params() {
    let vars = table(&[("vcpu", "4")]);
    assert_eq!(render("boot --vcpu {vcpu}", &vars), "boot --vcpu 4");
}

#[test]
fn vars_carry_params_and_sut() {
    let m = vars(&doc(r#"{"vcpu": 2, "mem_mib": 256}"#), "cafe");
    assert_eq!(m.get("vcpu").unwrap(), "2");
    assert_eq!(m.get("mem_mib").unwrap(), "256");
    assert_eq!(m.get("sut_sha").unwrap(), "cafe");
}

#[test]
fn absent_phase_is_a_noop() {
    let sh = FakeShell::new();
    let mut t = CommandTarget(cset(&[("start", "echo up")]));
    let mut s = Session::new(&sh);
    // provision has no template: no command runs.
    t.provision(&mut s).unwrap();
    assert!(sh.seen.borrow().is_empty());
    t.start(&mut s).unwrap();
    assert_eq!(sh.seen.borrow().len(), 1);
    assert_eq!(sh.seen.borrow()[0], "echo up");
}

#[test]
fn spans_parse_from_command_output() {
    let sh = FakeShell::new().reply(
        "emit-spans",
        r#"[{"name":"boot.vmm_ready","start_unix_nano":1,"end_unix_nano":9}]"#,
    );
    let t = CommandTarget(cset(&[("spans", "emit-spans")]));
    let spans = t.spans(&mut Session::new(&sh)).unwrap();
    assert_eq!(spans.len(), 1);
    assert_eq!(text_at(&spans[0], &["name"]), "boot.vmm_ready");
}

#[test]
fn spans_that_are_no_list_are_an_error() {
    let sh = FakeShell::new().reply("emit-spans", "{}");
    let t = CommandTarget(cset(&[("spans", "emit-spans")]));
    assert!(t.spans(&mut Session::new(&sh)).is_err());
}

#[test]
fn a_plan_stops_at_the_first_failure() {
    let sh = FakeShell::new().refuse("two", "boom");
    let plan = vec![
        Step::Command("one".to_string()),
        Step::Clock,
        Step::Command("two".to_string()),
        Step::Command("three".to_string()),
    ];
    let e = perform(&mut Session::new(&sh), &plan).unwrap_err();
    assert!(e.contains("boom"), "got: {e}");
    assert_eq!(*sh.seen.borrow(), vec!["one", "two"]);
}

// --- a run ---------------------------------------------------------------------------

#[test]
fn execute_run_drives_the_full_sequence() {
    let sh = FakeShell::new()
        .reply("emit-spans", r#"[{"name":"boot","start_unix_nano":1,"end_unix_nano":2}]"#);
    let runner = FakeRunner {
        series: vec![r#"{"name": "kvm.exit"}"#],
        costs: vec![r#"{"probe_id": "kvm_exit"}"#],
    };

    let target = CommandTarget(cset(&[
        ("provision", "provision {vcpu}"),
        ("start", "start"),
        ("reach_steady", "steady"),
        ("spans", "emit-spans"),
        ("teardown", "teardown"),
    ]));
    let workload = CommandWorkload(cset(&[("start", "load"), ("stop", "halt")]));

    let plan = plan_gadgets(&vec![entry("kvm_exit", Some("g"))], 1, "/tmp", &Table::new()).unwrap();

    let mut rig = Rig::new(Session::new(&sh), &runner, target, workload, no_session(), 1);
    let art = execute_run(&mut rig, &plan).unwrap();
    // The gadget fragment plus the synthesized hostmem fragment.
    assert_eq!(art.fragments.len(), 2);
    assert!(art
        .fragments
        .iter()
        .any(|f| f.series.iter().any(|s| text_at(s, &["name"]) == "hostmem.mem_consumed_kib")));
    assert_eq!(art.spans.len(), 1);

    let seen = sh.seen.borrow().clone();
    // Memory is sampled before the target is provisioned...
    assert_eq!(seen[0], "cat /proc/meminfo");
    // ...and again after it is steady, before the workload starts.
    let steady = seen.iter().position(|c| c == "steady").unwrap();
    let load = seen.iter().position(|c| c == "load").unwrap();
    assert!(seen[steady + 1..load].iter().any(|c| c == "cat /proc/meminfo"));

    // Lifecycle order, ignoring the two meminfo samples: target
    // provision/start/reach_steady, then workload start (gadgets spawn in
    // between), then stop, spans, teardown.
    assert_eq!(
        sh.life(),
        ["provision 2", "start", "steady", "load", "halt", "emit-spans", "teardown"]
    );
}

#[test]
fn execute_run_without_attribution_reports_none() {
    // The default path is unchanged: no attribution session, no provenance,
    // and every existing caller keeps working.
    let sh = FakeShell::new();
    let runner = FakeRunner::empty();
    let mut rig = Rig::new(
        Session::new(&sh),
        &runner,
        CommandTarget(idle()),
        CommandWorkload(idle()),
        no_session(),
        1,
    );
    let art = execute_run(&mut rig, &vec![]).unwrap();
    assert!(art.vm_attribution.is_none());
}

#[test]
fn a_failure_is_still_torn_down() {
    for (phase, cmd) in [("provision", "one"), ("start", "two"), ("reach_steady", "three")] {
        let sh = FakeShell::new().refuse(cmd, "boom");
        let runner = FakeRunner::empty();
        let target = CommandTarget(cset(&[(phase, cmd), ("teardown", "teardown")]));
        let mut rig = Rig::new(
            Session::new(&sh),
            &runner,
            target,
            CommandWorkload(idle()),
            no_session(),
            1,
        );
        let e = execute_run(&mut rig, &vec![]).unwrap_err();
        assert!(e.contains("boom"), "got: {e}");
        assert_eq!(sh.life(), [cmd, "teardown"]);
    }
}

#[test]
fn parse_meminfo_reads_available_and_cached_not_swapcached() {
    let text = "MemTotal:       16000000 kB\nMemAvailable:    8000000 kB\nBuffers:          100000 kB\nCached:          2000000 kB\nSwapCached:         5000 kB\n";
    assert_eq!(parse_meminfo(text), (8_000_000, 2_000_000));
}

#[test]
fn hostmem_fragment_reports_consumed_and_cached_delta() {
    // Available dropped 300 MiB (memory consumed); cached rose 50 MiB.
    let frag = hostmem_fragment((8_000_000, 2_000_000), (7_700_000, 2_050_000));
    let by_name = |n: &str| {
        let s = frag.series.iter().find(|s| text_at(s, &["name"]) == n).unwrap();
        at(s, &["data", "value"]).as_i64().unwrap()
    };
    assert_eq!(by_name("hostmem.mem_consumed_kib"), 300_000);
    assert_eq!(by_name("hostmem.cached_delta_kib"), 50_000);
}

// --- fan-out -------------------------------------------------------------------------

#[test]
fn fanout_drives_every_inner_and_emits_one_aggregate_span() {
    let sh = FakeShell::new()
        .reply("emit", r#"[{"name":"boot.vmm_ready","start_unix_nano":1,"end_unix_nano":2}]"#);
    let inners: Vec<CommandTarget> = (0..3)
        .map(|_| {
            CommandTarget(cset(&[
                ("provision", "prov"),
                ("start", "st"),
                ("reach_steady", "ready"),
                ("spans", "emit"),
                ("teardown", "td"),
            ]))
        })
        .collect();
    let mut s = Session::new(&sh);
    let mut f = FanoutTarget::new(inners);
    f.provision(&mut s).unwrap();
    f.start(&mut s).unwrap();
    f.reach_steady(&mut s).unwrap();

    // Every instance was driven through the lifecycle.
    let count = |needle: &str| sh.seen.borrow().iter().filter(|c| c.as_str() == needle).count();
    assert_eq!(count("prov"), 3);
    assert_eq!(count("ready"), 3);

    // One aggregate span, named after the inner's own lifecycle span, not
    // three colliding ones.
    let spans = f.spans(&mut s).unwrap();
    assert_eq!(spans.len(), 1);
    assert_eq!(text_at(&spans[0], &["name"]), "boot.vmm_ready");

    f.teardown(&mut s).unwrap();
    assert_eq!(count("td"), 3);
}

/// A target that reports resident files and taps, and nothing else.
struct Stub {
    files: Vec<(String, String)>,
    taps: Vec<NetAttribution>,
}

impl Target for Stub {
    fn version<M: Machine>(&self, _: &mut Session<M>) -> String {
        "stub".into()
    }
    fn provision<M: Machine>(&mut self, _: &mut Session<M>) -> Result<(), String> {
        Ok(())
    }
    fn start<M: Machine>(&mut self, _: &mut Session<M>) -> Result<(), String> {
        Ok(())
    }
    fn reach_steady<M: Machine>(&mut self, _: &mut Session<M>) -> Result<(), String> {
        Ok(())
    }
    fn spans<M: Machine>(&self, _: &mut Session<M>) -> Result<Vec<Doc>, String> {
        Ok(vec![])
    }
    fn teardown<M: Machine>(&mut self, _: &mut Session<M>) -> Result<(), String> {
        Ok(())
    }
    fn pinning_layout(&self) -> Option<Doc> {
        None
    }
    fn resident_files(&self) -> Vec<(String, String)> {
        self.files.clone()
    }
    fn net_attribution(&self) -> Vec<NetAttribution> {
        self.taps.clone()
    }
}

fn tap_stub(tap: &str, ifindex: u32, mac: &str) -> Stub {
    Stub {
        files: vec![],
        taps: vec![NetAttribution {
            tap: tap.to_string(),
            ifindex,
            guest_mac: mac.to_string(),
            netns_inum: 0,
        }],
    }
}

#[test]
fn fanout_registers_every_inner_tap() {
    // The density case: N concurrent VMs, each with its own tap and ifindex,
    // each registered with the owner and each carrying its own ULID.
    // add + state per VM, then remove per VM.
    let (w, got) = wire(vec!["ok\n"; 6]);
    let session = AttributionSession { client: ControlClient::new(w), table: HandleTable::new() };
    let f = FanoutTarget::new(vec![
        tap_stub("asyq-0", 11, "02:00:00:00:00:00"),
        tap_stub("asyq-1", 12, "02:00:00:00:00:01"),
    ]);

    // The target itself reports both, in inner order.
    let reported = f.net_attribution();
    assert_eq!(reported.len(), 2);
    assert_eq!(reported[0].tap, "asyq-0");
    assert_eq!(reported[1].tap, "asyq-1");

    let sh = FakeShell::new();
    let runner = FakeRunner::empty();
    let mut rig =
        Rig::new(Session::new(&sh), &runner, f, CommandWorkload(idle()), Some(session), 1);
    let art = execute_run(&mut rig, &vec![]).expect("run");

    // Two handles registered, so two provenance rows with distinct taps and
    // distinct ULIDs.
    let prov = art.vm_attribution.expect("attribution was enabled");
    let vms = at(&prov, &["vms"]).as_array().expect("vms is an array");
    assert_eq!(vms.len(), 2);
    assert_eq!(num_at(&vms[0], &["handle"]), 0);
    assert_eq!(num_at(&vms[1], &["handle"]), 1);
    assert_eq!(text_at(&vms[0], &["tap"]), "asyq-0");
    assert_eq!(text_at(&vms[1], &["tap"]), "asyq-1");
    assert_eq!(num_at(&vms[0], &["ifindex"]), 11);
    assert_eq!(num_at(&vms[1], &["ifindex"]), 12);
    assert_ne!(
        text_at(&vms[0], &["vm_id"]),
        text_at(&vms[1], &["vm_id"]),
        "each VM gets its own ULID"
    );
    assert!(prov.get("unresolved_handles").is_none());

    // Both VMs were added, both moved to RUNNING, and both were removed.
    assert_eq!(
        *got.borrow(),
        vec![
            "add 11 0 0",
            "state 0 RUNNING",
            "add 12 1 0",
            "state 1 RUNNING",
            "remove 0",
            "remove 1",
        ]
    );
}

#[test]
fn execute_run_errors_when_attribution_is_enabled_but_no_tap_was_set_up() {
    // The message has to name both causes: a missing `network: tap` key, and
    // a def that sets it but restores from a snapshot (tap setup is cold boot
    // only), which would otherwise send the operator back to a key they
    // already set.
    let (w, _got) = wire(vec![]);
    let session = AttributionSession { client: ControlClient::new(w), table: HandleTable::new() };
    let sh = FakeShell::new();
    let runner = FakeRunner::empty();
    let mut rig = Rig::new(
        Session::new(&sh),
        &runner,
        CommandTarget(idle()),
        CommandWorkload(idle()),
        Some(session),
        1,
    );
    let err = match execute_run(&mut rig, &vec![]) {
        Err(e) => e,
        Ok(_) => panic!("no tap while attribution is on is a config error"),
    };
    assert!(err.contains("set up no tap"), "got: {err}");
    assert!(err.contains("cold boot only"), "got: {err}");
}

fn resident(label: &str, resident: u64, total: u64, fraction: &str) -> Resident {
    Resident { label: label.to_string(), resident, total, fraction: fraction.to_string() }
}

#[test]
fn resident_fragment_single_is_singleton_unkeyed() {
    let frag = resident_fragment(&vec![resident("", 30, 100, "0.3")]).unwrap();
    assert_eq!(frag.series.len(), 3);
    let frac = frag
        .series
        .iter()
        .find(|s| text_at(s, &["name"]) == "resident.snapshot_fraction")
        .unwrap();
    assert_eq!(at(frac, &["data", "value"]).to_text().parse::<f64>().unwrap(), 0.30);
    assert_eq!(text_at(frac, &["cardinality", "class"]), "singleton");
    assert!(frac.get("key").is_none());
}

#[test]
fn resident_fragment_multi_keys_per_instance() {
    let frag = resident_fragment(&vec![
        resident("instance0", 10, 100, "0.1"),
        resident("instance1", 90, 100, "0.9"),
    ])
    .unwrap();
    assert_eq!(frag.series.len(), 6);
    let keyed: Vec<_> = frag
        .series
        .iter()
        .filter(|s| text_at(s, &["name"]) == "resident.snapshot_resident_pages")
        .collect();
    assert_eq!(keyed.len(), 2);
    assert_eq!(text_at(keyed[0], &["key"]), "instance0");
    assert_eq!(text_at(keyed[0], &["cardinality", "class"]), "bounded");
    assert_eq!(text_at(keyed[0], &["cardinality", "key_source"]), "guest_index");
}

#[test]
fn resident_fragment_empty_is_none() {
    assert!(resident_fragment(&vec![]).is_none());
}

#[test]
fn fanout_keys_resident_files_per_instance() {
    let inner = || Stub { files: vec![(String::new(), "/snap/mem".into())], taps: vec![] };
    let f = FanoutTarget::new(vec![inner(), inner()]);
    let files = f.resident_files();
    assert_eq!(
        files,
        vec![
            ("instance0".to_string(), "/snap/mem".to_string()),
            ("instance1".to_string(), "/snap/mem".to_string()),
        ]
    );
}

#[test]
fn resident_files_are_measured_in_a_run() {
    let inner = || Stub { files: vec![(String::new(), "/snap/mem".into())], taps: vec![] };
    let sh = FakeShell::new();
    let runner = FakeRunner::empty();
    let f = FanoutTarget::new(vec![inner(), inner()]);
    let mut rig = Rig::new(Session::new(&sh), &runner, f, CommandWorkload(idle()), no_session(), 1);
    let art = execute_run(&mut rig, &vec![]).unwrap();
    let all: Vec<&Doc> = art.fragments.iter().flat_map(|f| f.series.iter()).collect();
    let pages: Vec<_> = all
        .iter()
        .filter(|s| text_at(s, &["name"]) == "resident.snapshot_resident_pages")
        .collect();
    assert_eq!(pages.len(), 2);
    assert_eq!(num_at(pages[1], &["data", "value"]), 3);
    assert_eq!(text_at(pages[1], &["key"]), "instance1");
}

// --- capture ---------------------------------------------------------------------------

#[test]
fn plans_duration_and_out_per_gadget() {
    let entries = vec![entry("kvm_exit", Some("assayist-capture-kvm"))];
    let plan = plan_gadgets(&entries, 30, "/tmp/x", &Table::new()).unwrap();
    assert_eq!(plan.len(), 1);
    assert_eq!(plan[0].gadget, "assayist-capture-kvm");
    assert!(plan[0].args.contains(&"--duration".to_string()));
    assert!(plan[0].args.contains(&"30".to_string()));
    assert_eq!(plan[0].out_path, "/tmp/x/kvm_exit.frag.json");
}

#[test]
fn extra_args_are_appended_after_duration_and_out() {
    let mut e = entry("kvm_exit", Some("assayist-capture-kvm"));
    e.args = vec!["--per-guest".into(), "--max-keys".into(), "10000".into()];
    let plan = plan_gadgets(&vec![e], 30, "/tmp/x", &Table::new()).unwrap();
    assert_eq!(
        plan[0].args,
        vec![
            "--duration",
            "30",
            "--out",
            "/tmp/x/kvm_exit.frag.json",
            "--per-guest",
            "--max-keys",
            "10000"
        ]
    );
}

#[test]
fn planning_rejects_a_gadgetless_entry() {
    let entries = vec![entry("kvm_exit", None)];
    assert!(plan_gadgets(&entries, 30, "/tmp", &Table::new()).is_err());
}

/// Returns a canned fragment per probe, so the collect/assemble path runs
/// without a BTF host.
struct CannedRunner {
    by_probe: HashMap<String, (Vec<&'static str>, Vec<&'static str>)>,
}

impl GadgetRunner for CannedRunner {
    type Handle = Fragment;
    fn spawn(&self, inv: &GadgetInvocation) -> Result<Fragment, String> {
        match self.by_probe.get(&inv.probe) {
            Some((series, costs)) => Ok(Fragment {
                series: series.iter().map(|t| doc(t)).collect(),
                self_metrics: costs.iter().map(|t| doc(t)).collect(),
                capture_meta: None,
            }),
            None => Err(format!("no canned fragment for {}", inv.probe)),
        }
    }
    fn wait(&self, _inv: &GadgetInvocation, handle: Fragment) -> Result<Fragment, String> {
        Ok(handle)
    }
}

#[test]
fn capture_collects_fragments_from_all_gadgets() {
    let mut by_probe = HashMap::new();
    by_probe.insert(
        "kvm_exit".to_string(),
        (vec![r#"{"name": "kvm.exit"}"#], vec![r#"{"probe_id": "kvm_exit"}"#]),
    );
    by_probe.insert("block_rq".to_string(), (vec![r#"{"name": "block.io"}"#], vec![]));
    let runner = CannedRunner { by_probe };

    let entries = vec![entry("kvm_exit", Some("g1")), entry("block_rq", Some("g2"))];
    let plan = plan_gadgets(&entries, 10, "/tmp", &Table::new()).unwrap();
    let frags = capture(&plan, &mut Crew::new(&runner)).unwrap();
    assert_eq!(frags.len(), 2);
    assert_eq!(frags[0].series.len(), 1);
}

#[test]
fn capture_fails_if_a_gadget_has_no_fragment() {
    let runner = CannedRunner { by_probe: HashMap::new() };
    let plan =
        plan_gadgets(&vec![entry("kvm_exit", Some("g1"))], 10, "/tmp", &Table::new()).unwrap();
    assert!(capture(&plan, &mut Crew::new(&runner)).is_err());
}

struct KillFake {
    fail_on: String,
    killed: RefCell<Vec<String>>,
}

impl GadgetRunner for KillFake {
    type Handle = String; // the probe name
    fn spawn(&self, inv: &GadgetInvocation) -> Result<String, String> {
        if inv.probe == self.fail_on {
            Err(format!("spawn {} boom", inv.probe))
        } else {
            Ok(inv.probe.clone())
        }
    }
    fn wait(&self, _inv: &GadgetInvocation, _h: String) -> Result<Fragment, String> {
        Ok(Fragment { series: vec![], self_metrics: vec![], capture_meta: None })
    }
    fn kill(&self, h: String) {
        self.killed.borrow_mut().push(h);
    }
}

#[test]
fn a_later_spawn_failure_kills_earlier_gadgets() {
    let runner = KillFake { fail_on: "c".into(), killed: RefCell::new(vec![]) };
    let plan = plan_gadgets(
        &vec![entry("a", Some("g")), entry("b", Some("g")), entry("c", Some("g"))],
        10,
        "/tmp",
        &Table::new(),
    )
    .unwrap();

    assert!(capture(&plan, &mut Crew::new(&runner)).is_err());
    // a and b were spawned before c failed, so both get killed.
    let killed = runner.killed.borrow();
    assert_eq!(killed.as_slice(), &["a".to_string(), "b".to_string()]);
}

#[test]
fn gadget_arguments_are_rendered_and_files_named_safely() {
    let mut e = entry("kvm/exit:x", Some("g"));
    e.args = vec!["--n".into(), "{vcpu}".into()];
    let plan = plan_gadgets(&vec![e], 1, "/tmp/", &table(&[("vcpu", "8")])).unwrap();
    assert_eq!(plan[0].args[5], "8");
    assert_eq!(sanitize("kvm/exit:x"), "kvm_exit_x");
    assert_eq!(plan[0].out_path, "/tmp/kvm_exit_x.frag.json");
    assert_eq!(path_in("a", "b"), "a/b");
}

// --- VM attribution ----------------------------------------------------------------------

fn frag_with_vm_id(vm_id: &str) -> Fragment {
    Fragment {
        series: vec![doc(&format!(
            r#"{{
            "name": "net.softirq_ns", "unit": "ns", "kind": "counter",
            "source": "softirq",
            "labels": {{ "vm_id": "{vm_id}", "lifecycle_state": "running" }},
            "cardinality": {{ "class": "bounded", "key_source": "vm_id", "max_keys": 1024 }},
            "data": {{ "value": 7, "start_unix_nano": 0 }}
        }}"#
        ))],
        self_metrics: vec![],
        capture_meta: None,
    }
}

#[test]
fn handles_are_dense_and_start_at_zero() {
    let mut t = HandleTable::new();
    let a = t.assign("01AAA".into(), "tap0".into(), "02:00:00:00:00:0a".into(), 11, 4026531840);
    let b = t.assign("01BBB".into(), "tap1".into(), "02:00:00:00:00:0b".into(), 12, 4026531841);
    assert_eq!((a, b), (0, 1));
    assert_eq!(t.len(), 2);
    assert_eq!(t.get(a).unwrap().vm_id, "01AAA");
    assert_eq!(t.get(b).unwrap().ifindex, 12);
    assert!(t.get(99).is_none());
}

#[test]
fn guest_mac_is_locally_administered_and_derived_from_the_handle() {
    // 02: prefix marks a locally administered address; the low 16 bits of
    // the handle fill the last two octets.
    assert_eq!(guest_mac_for(0), "02:00:00:00:00:00");
    assert_eq!(guest_mac_for(1), "02:00:00:00:00:01");
    assert_eq!(guest_mac_for(258), "02:00:00:00:01:02");
}

#[test]
fn provenance_json_is_sorted_and_complete() {
    let mut t = HandleTable::new();
    // The MAC is the caller's to supply (the adapter that configures the
    // device), not derived here, so assert it round-trips rather than
    // asserting a value this table computed itself.
    t.assign("01AAA".into(), "tap0".into(), "02:00:00:00:00:0a".into(), 11, 40);
    t.assign("01BBB".into(), "tap1".into(), "02:00:00:00:00:0b".into(), 12, 41);
    let v = t.provenance_json();
    let arr = v.as_array().expect("provenance is an array");
    assert_eq!(arr.len(), 2);
    assert_eq!(num_at(&arr[0], &["handle"]), 0);
    assert_eq!(text_at(&arr[0], &["vm_id"]), "01AAA");
    assert_eq!(text_at(&arr[0], &["tap"]), "tap0");
    assert_eq!(text_at(&arr[0], &["guest_mac"]), "02:00:00:00:00:0a");
    assert_eq!(num_at(&arr[0], &["ifindex"]), 11);
    assert_eq!(num_at(&arr[0], &["netns_inum"]), 40);
    assert_eq!(num_at(&arr[1], &["handle"]), 1);
    assert_eq!(text_at(&arr[1], &["vm_id"]), "01BBB");
}

#[test]
fn rewrite_maps_handle_labels_to_ulids() {
    let mut t = HandleTable::new();
    let h = t.assign("01ULID".into(), "tap0".into(), "02:00:00:00:00:01".into(), 11, 40);
    let mut frags = vec![frag_with_vm_id(&h.to_string())];
    let unknown = rewrite_vm_id_labels(&mut frags, &t);
    assert!(unknown.is_empty(), "nothing unresolved, got {unknown:?}");
    assert_eq!(text_at(&frags[0].series[0], &["labels", "vm_id"]), "01ULID");
    // Other labels are untouched.
    assert_eq!(text_at(&frags[0].series[0], &["labels", "lifecycle_state"]), "running");
}

#[test]
fn rewrite_leaves_unknown_handles_alone_and_reports_them() {
    // A handle the orchestrator never issued means a stale map. Surface it
    // rather than inventing an id or dropping the series.
    let t = HandleTable::new();
    let mut frags = vec![frag_with_vm_id("77")];
    let unknown = rewrite_vm_id_labels(&mut frags, &t);
    assert_eq!(unknown, vec!["77".to_string()]);
    assert_eq!(text_at(&frags[0].series[0], &["labels", "vm_id"]), "77");
}

#[test]
fn rewrite_ignores_series_without_a_vm_id_label() {
    let mut t = HandleTable::new();
    t.assign("01ULID".into(), "tap0".into(), "02:00:00:00:00:01".into(), 11, 40);
    let mut frags = vec![Fragment {
        series: vec![doc(
            r#"{
            "name": "block.io_latency:read", "unit": "ns", "kind": "counter",
            "source": "block_rq_complete", "key": "254:0",
            "cardinality": { "class": "bounded", "key_source": "device", "max_keys": 256 },
            "data": { "value": 1, "start_unix_nano": 0 }
        }"#,
        )],
        self_metrics: vec![],
        capture_meta: None,
    }];
    let unknown = rewrite_vm_id_labels(&mut frags, &t);
    assert!(unknown.is_empty());
    assert!(frags[0].series[0].get("labels").is_none());
}

#[test]
fn state_names_match_the_wire_protocol() {
    assert_eq!(state_name(LIFECYCLE_RUNNING), "RUNNING");
    assert_eq!(state_name(LIFECYCLE_PAUSING), "PAUSING");
    assert_eq!(state_name(LIFECYCLE_PAUSED), "PAUSED");
    assert_eq!(state_name(LIFECYCLE_RESUMING), "RESUMING");
}

#[test]
fn client_sends_the_wire_format_and_accepts_ok() {
    let (w, got) = wire(vec!["ok\n", "ok\n", "ok\n"]);
    let mut c = ControlClient::new(w);
    c.add(11, 0, 4026531840).expect("add");
    c.state(0, LIFECYCLE_PAUSED).expect("state");
    c.remove(0).expect("remove");
    assert_eq!(*got.borrow(), vec!["add 11 0 4026531840", "state 0 PAUSED", "remove 0"]);
}

#[test]
fn client_surfaces_an_err_reply() {
    let (w, _got) = wire(vec!["err no entry for handle 5\n", "what\n"]);
    let mut c = ControlClient::new(w);
    let e = c.remove(5).expect_err("err reply must be an error");
    assert!(e.contains("no entry for handle 5"), "got: {e}");
    let e = c.remove(5).expect_err("an unknown reply must be an error");
    assert_eq!(e, "unexpected reply to 'remove 5': \"what\"");
    let e = c.remove(5).expect_err("a dead owner must be an error");
    assert_eq!(e, "the owner is gone");
}

#[test]
fn session_assigns_and_rewrites_end_to_end() {
    // The whole spine in miniature: a VM is assigned a handle, a gadget
    // emits that handle in labels.vm_id, and assemble turns it into the
    // ULID with provenance alongside.
    let (w, got) = wire(vec!["ok\n", "ok\n"]);
    let mut session =
        AttributionSession { client: ControlClient::new(w), table: HandleTable::new() };

    let handle = session
        .register("01ULIDX".into(), "tap9".into(), "02:00:00:00:00:00".into(), 11, 0)
        .expect("register sends add");
    session.set_state(handle, LIFECYCLE_RUNNING).expect("state");

    let mut frags = vec![frag_with_vm_id(&handle.to_string())];
    let unknown = rewrite_vm_id_labels(&mut frags, &session.table);
    assert!(unknown.is_empty());
    assert_eq!(text_at(&frags[0].series[0], &["labels", "vm_id"]), "01ULIDX");
    let prov = session.table.provenance_json();
    assert_eq!(text_at(&prov.as_array().unwrap()[0], &["tap"]), "tap9");

    assert_eq!(*got.borrow(), vec!["add 11 0 0", "state 0 RUNNING"]);
}

#[test]
fn register_leaves_no_table_entry_when_the_owner_rejects_the_add() {
    // A rejected add must not leave provenance for a VM the owner never
    // actually recorded, or capture_meta.vm_attribution would claim a
    // registration that did not happen.
    let (w, _got) = wire(vec!["err no room\n"]);
    let mut session =
        AttributionSession { client: ControlClient::new(w), table: HandleTable::new() };

    let err = session
        .register("01FAIL".into(), "tap0".into(), "02:00:00:00:00:00".into(), 11, 0)
        .expect_err("owner rejected the add");
    assert!(err.contains("no room"), "got: {err}");
    assert_eq!(session.table.len(), 0);
    assert!(session.table.is_empty());
}

// --- driver versions and reports -----------------------------------------------------------

#[test]
fn command_workload_reports_its_document() {
    let sh = FakeShell::new().reply("emit-report", r#"{"iops": 7}"#).reply("ver", " 1.2 \n");
    let w = CommandWorkload(cset(&[("report", "emit-report"), ("version", "ver")]));
    let mut s = Session::new(&sh);
    assert_eq!(num_at(&w.report(&mut s).unwrap(), &["iops"]), 7);
    assert_eq!(w.version(&mut s), "1.2");
    let w = CommandWorkload(idle());
    assert!(w.report(&mut s).unwrap().is_null());
    assert_eq!(w.version(&mut s), "command-adapter");
}

/// Records when gadgets are spawned and waited for, among the commands.
struct OrderedRunner<'a> {
    sh: &'a FakeShell,
}

impl GadgetRunner for OrderedRunner<'_> {
    type Handle = String;
    fn spawn(&self, inv: &GadgetInvocation) -> Result<String, String> {
        self.sh.seen.borrow_mut().push(format!("spawn {}", inv.probe));
        Ok(inv.probe.clone())
    }
    fn wait(&self, inv: &GadgetInvocation, h: String) -> Result<Fragment, String> {
        assert_eq!(h, inv.probe);
        self.sh.seen.borrow_mut().push(format!("wait {h}"));
        Ok(Fragment { series: vec![], self_metrics: vec![], capture_meta: None })
    }
}

#[test]
fn gadgets_observe_the_workload() {
    let sh = FakeShell::new();
    let runner = OrderedRunner { sh: &sh };
    let plan = plan_gadgets(
        &vec![entry("a", Some("g")), entry("b", Some("g"))],
        1,
        "/tmp",
        &Table::new(),
    )
    .unwrap();
    let mut rig = Rig::new(
        Session::new(&sh),
        &runner,
        CommandTarget(cset(&[("teardown", "teardown")])),
        CommandWorkload(cset(&[("start", "load"), ("stop", "halt")])),
        no_session(),
        1,
    );
    execute_run(&mut rig, &plan).unwrap();
    assert_eq!(
        sh.life(),
        ["spawn a", "spawn b", "load", "wait a", "wait b", "halt", "teardown"]
    );
}

// --- progress --------------------------------------------------------------------------------

fn ok() -> Result<(), String> {
    Ok(())
}

/// Take a run with one gadget up to its workload.
fn loaded() -> Progress {
    let mut p = Progress::new(1, false);
    assert_eq!(p.stage(), Stage::Sample);
    p.advance(Act::Sampled((1000, 10)));
    assert_eq!(p.stage(), Stage::Provision);
    p.advance(Act::Provisioned(ok()));
    assert_eq!(p.stage(), Stage::Start);
    p.advance(Act::Started(ok()));
    assert_eq!(p.stage(), Stage::Steady);
    p.advance(Act::Steadied(ok()));
    assert_eq!(p.stage(), Stage::SampleAgain);
    p.advance(Act::Sampled((900, 30)));
    assert_eq!(p.stage(), Stage::Spawn);
    p.advance(Act::Spawned(ok()));
    assert_eq!(p.stage(), Stage::Load);
    p.advance(Act::Loaded(ok()));
    assert_eq!(p.stage(), Stage::Wait);
    p
}

#[test]
fn progress_goes_through_every_stage() {
    let mut p = loaded();
    let f = Fragment { series: vec![], self_metrics: vec![], capture_meta: None };
    p.advance(Act::Waited(Ok(f)));
    assert_eq!(p.stage(), Stage::Stop);
    // What stopping comes to does not matter.
    p.advance(Act::Stopped(Err("gone".into())));
    assert_eq!(p.stage(), Stage::Report);
    p.advance(Act::Reported(Err("no report".into())));
    assert_eq!(p.stage(), Stage::Spans);
    p.advance(Act::Spanned(Ok(vec![doc(r#"{"name": "boot"}"#)])));
    assert_eq!(p.stage(), Stage::Measure);
    p.advance(Act::Measured(vec![]));
    assert_eq!(p.stage(), Stage::Teardown);
    p.advance(Act::ToreDown(ok()));
    assert_eq!(p.stage(), Stage::Over);
    let art = p.conclude(&no_session()).unwrap();
    assert_eq!(art.fragments.len(), 2);
    assert_eq!(art.spans.len(), 1);
    assert!(art.workload_report.is_null());
    assert_eq!(num_at(&art.fragments[1].series[0], &["data", "value"]), 100);
    assert!(art.vm_attribution.is_none());
}

#[test]
fn a_failed_step_winds_a_run_down() {
    let fails: Vec<(usize, Act)> = vec![
        (1, Act::Provisioned(Err("x".into()))),
        (2, Act::Started(Err("x".into()))),
        (3, Act::Steadied(Err("x".into()))),
    ];
    for (n, act) in fails {
        let mut p = Progress::new(0, false);
        p.advance(Act::Sampled((0, 0)));
        if n > 1 {
            p.advance(Act::Provisioned(ok()));
        }
        if n > 2 {
            p.advance(Act::Started(ok()));
        }
        p.advance(act);
        assert_eq!(p.stage(), Stage::Teardown);
        // What tearing down comes to does not hide what failed.
        p.advance(Act::ToreDown(Err("y".into())));
        assert_eq!(p.stage(), Stage::Over);
        assert_eq!(p.conclude(&no_session()).unwrap_err(), "x");
    }
}

#[test]
fn a_failed_wait_stops_the_workload_first() {
    let mut p = loaded();
    p.advance(Act::Waited(Err("no fragment".into())));
    assert_eq!(p.stage(), Stage::Stop);
    p.advance(Act::Stopped(ok()));
    assert_eq!(p.stage(), Stage::Teardown);
    p.advance(Act::ToreDown(ok()));
    assert_eq!(p.conclude(&no_session()).unwrap_err(), "no fragment");
}

#[test]
fn a_failed_teardown_fails_a_run_that_went_well() {
    let mut p = Progress::new(0, false);
    for act in [
        Act::Sampled((0, 0)),
        Act::Provisioned(ok()),
        Act::Started(ok()),
        Act::Steadied(ok()),
        Act::Sampled((0, 0)),
        Act::Loaded(ok()),
        Act::Stopped(ok()),
        Act::Reported(Ok(Doc::Null)),
        Act::Spanned(Ok(vec![])),
        Act::Measured(vec![]),
        Act::ToreDown(Err("stuck".into())),
    ] {
        p.advance(act);
    }
    assert_eq!(p.stage(), Stage::Over);
    assert_eq!(p.conclude(&no_session()).unwrap_err(), "stuck");
}

#[test]
fn an_act_of_another_kind_takes_a_run_nowhere() {
    let mut p = Progress::new(0, false);
    p.advance(Act::ToreDown(ok()));
    assert_eq!(p.stage(), Stage::Sample);
}

#[test]
fn registered_vms_are_removed_before_the_teardown() {
    let mut p = Progress::new(0, true);
    p.advance(Act::Sampled((0, 0)));
    p.advance(Act::Provisioned(ok()));
    p.advance(Act::Started(ok()));
    p.advance(Act::Steadied(ok()));
    p.advance(Act::Sampled((0, 0)));
    assert_eq!(p.stage(), Stage::Taps);
    let taps = tap_stub("t0", 1, "m").net_attribution();
    p.advance(Act::Tapped(taps));
    assert_eq!(p.stage(), Stage::Add);
    p.advance(Act::Added("id".into(), Ok(0)));
    assert_eq!(p.stage(), Stage::Mark);
    p.advance(Act::Marked(Err("refused".into())));
    assert_eq!(p.stage(), Stage::Remove);
    p.advance(Act::Removed(Err("gone".into())));
    assert_eq!(p.stage(), Stage::Teardown);

    let mut p = Progress::new(0, true);
    p.advance(Act::Sampled((0, 0)));
    p.advance(Act::Provisioned(ok()));
    p.advance(Act::Started(ok()));
    p.advance(Act::Steadied(ok()));
    p.advance(Act::Sampled((0, 0)));
    p.advance(Act::Tapped(vec![]));
    assert_eq!(p.stage(), Stage::Teardown);
    p.advance(Act::ToreDown(ok()));
    let e = p.conclude(&no_session()).unwrap_err();
    assert!(e.starts_with("attribution enabled but the target set up no tap"), "got: {e}");
}

#[test]
fn a_run_tears_down_whichever_step_fails() {
    for step in ["prov", "begin", "steady", "load", "emit"] {
        let sh = FakeShell::new().refuse(step, "boom");
        let runner = FakeRunner::empty();
        let mut rig = Rig::new(
            Session::new(&sh),
            &runner,
            CommandTarget(cset(&[
                ("provision", "prov"),
                ("start", "begin"),
                ("reach_steady", "steady"),
                ("spans", "emit"),
                ("teardown", "teardown"),
            ])),
            CommandWorkload(cset(&[("start", "load")])),
            no_session(),
            1,
        );
        assert_eq!(execute_run(&mut rig, &vec![]).unwrap_err(), "boom");
        let life = sh.life();
        assert_eq!(life.last().unwrap(), "teardown", "{step}");
        assert_eq!(life.iter().filter(|c| *c == "teardown").count(), 1);
    }
}

#[test]
fn a_fanout_tears_every_instance_down() {
    let sh = FakeShell::new().refuse("td1", "one").refuse("td2", "two");
    let inners: Vec<CommandTarget> =
        ["td0", "td1", "td2", "td3"].iter().map(|t| CommandTarget(cset(&[("teardown", t)]))).collect();
    let mut s = Session::new(&sh);
    let mut f = FanoutTarget::new(inners);
    assert_eq!(f.teardown(&mut s).unwrap_err(), "two");
    assert_eq!(sh.life(), ["td0", "td1", "td2", "td3"]);
}

#[test]
fn a_fanout_stops_bringing_up_at_the_first_failure() {
    let sh = FakeShell::new().refuse("up1", "one").reply("ver0", "9.9");
    let inners: Vec<CommandTarget> = [("up0", "ver0"), ("up1", "ver1"), ("up2", "ver2")]
        .iter()
        .map(|(u, v)| CommandTarget(cset(&[("reach_steady", u), ("version", v)])))
        .collect();
    let mut s = Session::new(&sh);
    let mut f = FanoutTarget::new(inners);
    assert_eq!(f.reach_steady(&mut s).unwrap_err(), "one");
    assert_eq!(sh.life(), ["up0", "up1"]);
    assert!(f.spans(&mut s).unwrap().is_empty());
    assert_eq!(f.version(&mut s), "9.9");
    let none: Vec<CommandTarget> = vec![];
    assert_eq!(FanoutTarget::new(none).version(&mut s), "fanout");
}

// --- the control channel -----------------------------------------------------------------------

#[test]
fn answers_are_understood() {
    assert_eq!(understand("remove 1", Ok("ok\n".into())), Ok(()));
    assert_eq!(understand("remove 1", Err("closed".into())), Err("closed".to_string()));
    assert_eq!(
        understand("remove 1", Ok("err no entry\n".into())),
        Err("attribution owner rejected 'remove 1': no entry".to_string())
    );
    assert_eq!(
        understand("remove 1", Ok("what\n".into())),
        Err("unexpected reply to 'remove 1': \"what\"".to_string())
    );
}

#[test]
fn connecting_goes_on_until_the_deadline() {
    assert_eq!(after_refusal(0, 200), Retry::Pause(20));
    assert_eq!(after_refusal(199, 200), Retry::Pause(20));
    assert_eq!(after_refusal(200, 200), Retry::GiveUp);
    assert_eq!(after_refusal(201, 200), Retry::GiveUp);
}

#[test]
fn a_capture_collects_in_the_order_of_its_plan() {
    let sh = FakeShell::new();
    let runner = OrderedRunner { sh: &sh };
    let entries = vec![entry("a", Some("g")), entry("b", Some("g")), entry("c", Some("g"))];
    let plan = plan_gadgets(&entries, 1, "/tmp", &Table::new()).unwrap();
    assert_eq!(capture(&plan, &mut Crew::new(&runner)).unwrap().len(), 3);
    assert_eq!(sh.life(), ["spawn a", "spawn b", "spawn c", "wait a", "wait b", "wait c"]);
}

#[test]
fn a_capture_stops_collecting_at_the_first_failure() {
    struct OneFails<'a>(&'a FakeShell);
    impl GadgetRunner for OneFails<'_> {
        type Handle = String;
        fn spawn(&self, inv: &GadgetInvocation) -> Result<String, String> {
            Ok(inv.probe.clone())
        }
        fn wait(&self, _inv: &GadgetInvocation, h: String) -> Result<Fragment, String> {
            self.0.seen.borrow_mut().push(format!("wait {h}"));
            if h == "b" {
                return Err("no fragment from b".to_string());
            }
            Ok(Fragment { series: vec![], self_metrics: vec![], capture_meta: None })
        }
    }
    let sh = FakeShell::new();
    let runner = OneFails(&sh);
    let entries = vec![entry("a", Some("g")), entry("b", Some("g")), entry("c", Some("g"))];
    let plan = plan_gadgets(&entries, 1, "/tmp", &Table::new()).unwrap();
    let mut crew = Crew::new(&runner);
    assert_eq!(capture(&plan, &mut crew).unwrap_err(), "no fragment from b");
    assert_eq!(sh.life(), ["wait a", "wait b"]);
    assert!(capture(&vec![], &mut crew).unwrap().is_empty());
}
