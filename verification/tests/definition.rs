use std::cell::RefCell;

use assayist::adapter::{Machine, Residency, Session, Shell, Target as _};
use assayist::capture::{GadgetInvocation, GadgetRunner};
use assayist::cli::{parse_capture_args, parse_export_args, parse_import_args, parse_run_args};
use assayist::command::{command_target, command_workload};
use assayist::contract::{Fingerprint, Fragment, Grade};
use assayist::def::{
    benchmark_def_sha, canonical_json, expand_cells, params_hash, validate, Axis, BenchmarkDef,
    CaptureEntry, Cardinality, GateSpec, Target, Workload,
};
use assayist::digest::sha256_hex;
use assayist::drive::Rig;
use assayist::gate_call::{
    exit_with, gate_args, read_gate, resolve_gate_bin, thresholds, verdict_in, GateThresholds,
};
use assayist::host::HostSession;
use assayist::hostprep::{
    build_fingerprint, observe, prepare, Facts, Host, HostPrep, TuningKnobs,
};
use assayist::inspect::{describe_def, describe_host};
use assayist::instance::{self, run_target, Instance, RunTarget, RunWorkload};
use assayist::job::run_job;
use assayist::json::{Doc, Object};
use assayist::linux::{
    cpu_counts, cpu_name, cpuinfo_field, governor_path, meminfo_total_bytes, os_pretty_name,
    thp_active, HostFiles, LinuxHost, Tuning,
};
use assayist::netattrib::{AttributionSession, Wire};
use assayist::parse;
use assayist::pipeline::{
    build_target, first_cell, groups, has_knobs, instances_of, jobs, refuse_unprepared,
    select_target, select_workload, vars_for, TargetKind, WorkloadKind,
};
use assayist::run::{
    assemble, build_gate_context, build_identity, new_run_id, run_id_at, AdapterVersions,
};
use assayist::table::Table;

fn doc(t: &str) -> Doc {
    parse::read(t).unwrap()
}

fn text_at<'a>(d: &'a Doc, k: &str) -> &'a str {
    d.get(k).unwrap().as_str().unwrap()
}

fn config(t: &str) -> Object {
    match doc(t) {
        Doc::Object(o) => o,
        other => panic!("{other:?}"),
    }
}

fn def() -> BenchmarkDef {
    BenchmarkDef {
        api_version: "assayist/v0".into(),
        name: "n".into(),
        target: Target {
            adapter: "x".into(),
            version: String::new(),
            commands: Table::new(),
            config: Object::new(),
        },
        workload: Workload {
            driver: "y".into(),
            version: String::new(),
            commands: Table::new(),
            config: Object::new(),
        },
        gate: GateSpec {
            mode: "ab_permutation".into(),
            p_threshold: None,
            noise_threshold: None,
            resamples: None,
            ignore: vec![],
        },
        parameterise: Table::new(),
        compare: None,
        capture: vec![],
        host_prep: Doc::Null,
        tenancy: "single_tenant".into(),
    }
}

fn axis(values: &[&str]) -> Axis {
    Axis { values: values.iter().map(|v| doc(v)).collect() }
}

fn example() -> BenchmarkDef {
    let mut d = def();
    d.name = "firecracker-boot-snapshot".into();
    d.target.adapter = "firecracker".into();
    d.workload.driver = "fio-libaio".into();
    d.gate.p_threshold = Some("0.01".into());
    d.parameterise =
        Table::new().with("vcpu", axis(&["1", "2", "4"])).with("mem_mib", axis(&["256", "512"]));
    d.capture = vec![
        CaptureEntry { probe: "kvm_exit".into(), ..probe("singleton") },
        CaptureEntry { probe: "block_rq".into(), ..probe("singleton") },
    ];
    d
}

fn probe(class: &str) -> CaptureEntry {
    CaptureEntry {
        probe: "p".into(),
        gadget: None,
        cardinality: Cardinality { class: class.into(), key_source: None, max_keys: None },
        attach: None,
        hot_path: false,
        args: vec![],
    }
}

// --- definitions ---------------------------------------------------------------------

#[test]
fn example_def_validates() {
    validate(&example()).expect("example def is valid");
}

#[test]
fn expands_the_full_matrix() {
    // vcpu [1,2,4] x mem_mib [256,512] = 6 cells.
    let cells = expand_cells(&example());
    assert_eq!(cells.len(), 6);
    // Every cell carries both params and a distinct hash.
    let mut hashes: Vec<&str> = cells.iter().map(|c| c.params_hash.as_str()).collect();
    hashes.sort();
    hashes.dedup();
    assert_eq!(hashes.len(), 6);
    for c in &cells {
        assert!(c.params.get("vcpu").is_some());
        assert!(c.params.get("mem_mib").is_some());
    }
}

#[test]
fn no_parameterise_yields_one_empty_cell() {
    let cells = expand_cells(&def());
    assert_eq!(cells.len(), 1);
    assert!(cells[0].params.same(&doc("{}")));
}

#[test]
fn benchmark_def_sha_tracks_content() {
    let text = "apiVersion: assayist/v0\n";
    let a = benchmark_def_sha(text);
    let b = benchmark_def_sha(&format!("{text}\n# a comment changes the file\n"));
    assert_ne!(a, b);
    assert_eq!(a.len(), 64); // sha256 hex
}

#[test]
fn sha256_is_the_published_one() {
    assert_eq!(
        sha256_hex(b"abc"),
        "ba7816bf8f01cfea414140de5dae2223b00361a396177a9cb410ff61f20015ad"
    );
    assert_eq!(
        sha256_hex(b""),
        "e3b0c44298fc1c149afbf4c8996fb92427ae41e4649b934ca495991b7852b855"
    );
}

#[test]
fn params_hash_is_key_order_independent() {
    let one = doc(r#"{"vcpu": 2, "mem_mib": 256}"#);
    let two = doc(r#"{"mem_mib": 256, "vcpu": 2}"#);
    assert_eq!(params_hash(&one), params_hash(&two));
}

#[test]
fn canonical_json_is_compact_and_sorted() {
    let d = doc(r#"{ "b": [1, true, null, "x\n"], "a": -0.5 }"#);
    assert_eq!(canonical_json(&d), r#"{"a":-0.5,"b":[1,true,null,"x\n"]}"#);
}

#[test]
fn compare_naming_unknown_dimension_is_rejected() {
    let mut d = def();
    d.compare = Some("variant".into());
    d.parameterise = Table::new().with("vcpu", axis(&["1", "2"]));
    let errs = validate(&d).unwrap_err();
    assert!(errs.iter().any(|e| e.contains("compare 'variant'")));
}

#[test]
fn compare_dimension_needs_exactly_two_values() {
    let mut d = def();
    d.compare = Some("variant".into());
    d.parameterise = Table::new().with("variant", axis(&["\"a\"", "\"b\"", "\"c\""]));
    let errs = validate(&d).unwrap_err();
    assert!(errs.iter().any(|e| e.contains("exactly two values")));
}

#[test]
fn compare_over_a_two_value_dimension_validates() {
    let mut d = def();
    d.compare = Some("variant".into());
    d.parameterise = Table::new().with("variant", axis(&["\"stock\"", "\"prefetch\""]));
    validate(&d).expect("two-value compare is valid");
    // The compare dimension is a normal parameterise axis: it expands to two
    // cells whose params carry the variant, which a run splits into A/B.
    let cells = expand_cells(&d);
    assert_eq!(cells.len(), 2);
}

#[test]
fn unbounded_cardinality_is_rejected() {
    let mut d = def();
    d.capture = vec![probe("unbounded")];
    let errs = validate(&d).unwrap_err();
    assert!(errs.iter().any(|e| e.contains("unbounded")));
}

#[test]
fn bounded_without_key_source_or_max_keys_is_rejected() {
    let mut d = def();
    d.capture = vec![probe("bounded")];
    let errs = validate(&d).unwrap_err();
    assert!(errs.iter().any(|e| e.contains("key_source")));
    assert!(errs.iter().any(|e| e.contains("max_keys")));
}

#[test]
fn unknown_gate_mode_and_tenancy_are_rejected() {
    let mut d = def();
    d.gate.mode = "bogus".into();
    d.tenancy = "whatever".into();
    let errs = validate(&d).unwrap_err();
    assert!(errs.iter().any(|e| e.contains("gate.mode")));
    assert!(errs.iter().any(|e| e.contains("tenancy")));
}

#[test]
fn unknown_attach_kind_is_rejected() {
    // A typo like `uprob` must be rejected, not silently skip the hot-path
    // check by failing the `== "uprobe"` comparison.
    let mut d = def();
    let mut p = probe("singleton");
    p.attach = Some("uprob".into());
    p.hot_path = true;
    d.capture = vec![p];
    let errs = validate(&d).unwrap_err();
    assert!(errs.iter().any(|e| e.contains("attach 'uprob' unknown")));
}

#[test]
fn known_attach_kinds_are_accepted() {
    for kind in ["tp_btf", "tracepoint", "fentry", "kprobe", "uprobe", "tc"] {
        let mut d = def();
        let mut p = probe("singleton");
        p.attach = Some(kind.into());
        d.capture = vec![p];
        validate(&d).unwrap_or_else(|e| panic!("attach {kind} should validate: {e:?}"));
    }
}

#[test]
fn uprobe_on_hot_path_is_rejected_when_declared() {
    let mut d = def();
    let mut p = probe("singleton");
    p.attach = Some("uprobe".into());
    p.hot_path = true;
    d.capture = vec![p];
    let errs = validate(&d).unwrap_err();
    assert!(errs.iter().any(|e| e.contains("uprobe")));
}

// --- runs ----------------------------------------------------------------------------

fn kvm_fragment() -> Fragment {
    Fragment {
        series: vec![doc(
            r#"{
                "name": "kvm.exit_handling_latency:EPT_VIOLATION",
                "unit": "ns", "kind": "histogram", "source": "kvm_exit",
                "cardinality": { "class": "singleton" },
                "data": { "layout": "log2", "buckets": [1, 2, 3], "count": 6 }
            }"#,
        )],
        self_metrics: vec![doc(
            r#"{
                "probe_id": "kvm_exit", "attach_kind": "tracepoint",
                "run_time_ns": 41200, "run_cnt": 12873, "mean_ns": 3.2,
                "steady_cpu_fraction": 0.0000013, "over_budget": false
            }"#,
        )],
        capture_meta: Some(doc(r#"{ "gadget": "assayist-capture-kvm" }"#)),
    }
}

fn extended_fingerprint() -> Fingerprint {
    Fingerprint {
        hostname: "lab".into(),
        kernel_version: "6.11.0".into(),
        os_release: "Ubuntu".into(),
        cpu_model: "Ryzen".into(),
        cpu_count_logical: 16,
        cpu_count_physical: 8,
        smt_enabled: false,
        cpu_governor: "performance".into(),
        thp_setting: "never".into(),
        total_memory_bytes: 1 << 37,
        kvm_present: true,
        tenancy: "single_tenant".into(),
        tuning_requested: doc(r#"{"cpu_governor": "performance"}"#),
        tuning_readback: doc(r#"{"cpu_governor": "performance"}"#),
        numa_topology: Some(doc(r#"{"node0": "0-15"}"#)),
        pinning_layout: Some(doc(r#"{"vcpu0": 2}"#)),
        mitigations: Some(doc("{}")),
        microcode_version: Some("x".into()),
        nested_virt: Some(false),
    }
}

#[test]
fn identity_and_gate_come_from_the_def() {
    let d = example();
    let sha = benchmark_def_sha("text");
    let cell = expand_cells(&d).remove(0);
    let id = build_identity(
        &d,
        cell.params,
        cell.params_hash,
        &sha,
        "cafe1234",
        &AdapterVersions::default(),
    );
    assert_eq!(id.target_adapter, "firecracker");
    assert_eq!(id.workload_driver, "fio-libaio");
    assert_eq!(id.sut_git_sha, "cafe1234");
    assert_eq!(id.benchmark_def_sha, sha);

    let gate = build_gate_context(&d, "");
    assert_eq!(text_at(&gate, "mode"), "ab_permutation");
    assert_eq!(gate.get("p_threshold").unwrap().to_text().parse::<f64>().unwrap(), 0.01);
    assert_eq!(text_at(&gate, "tenancy"), "single_tenant");
}

#[test]
fn assembles_a_graded_run_from_a_fragment() {
    let d = example();
    let cell = expand_cells(&d).remove(0);
    let id = build_identity(
        &d,
        cell.params,
        cell.params_hash,
        "sha",
        "cafe1234",
        &AdapterVersions::default(),
    );
    let gate = build_gate_context(&d, "");
    let run =
        assemble("01".into(), id, extended_fingerprint(), gate, &[kvm_fragment()], vec![]);
    // Extended fingerprint + consistent tuning + self_metrics present.
    assert_eq!(run.grade, Grade::Reproducible);
    assert_eq!(run.series.len(), 1);
    assert_eq!(run.self_metrics.len(), 1);
}

struct FakeMachine {
    seen: RefCell<Vec<String>>,
}

impl FakeMachine {
    fn new() -> FakeMachine {
        FakeMachine { seen: RefCell::new(vec![]) }
    }
}

impl Shell for FakeMachine {
    fn run(&self, cmd: &str) -> Result<String, String> {
        self.seen.borrow_mut().push(cmd.to_string());
        if cmd.ends_with("-version") {
            return Ok(format!("ran {cmd}\n"));
        }
        Ok(String::new())
    }
}

impl Machine for FakeMachine {
    fn now_nanos(&self) -> u64 {
        0x0123456789abcdef
    }
    fn residency(&self, _path: &str) -> Option<Residency> {
        None
    }
}

#[test]
fn run_ids_are_hex_and_sized() {
    let m = FakeMachine::new();
    let id = new_run_id(&mut Session::new(&m), 7);
    assert_eq!(id.len(), 32);
    assert!(id.chars().all(|c| c.is_ascii_hexdigit()));
    assert_eq!(id, run_id_at(0x0123456789abcdef, 7));
    assert_ne!(id, run_id_at(0x0123456789abcdef, 8));
    assert_ne!(id, run_id_at(0x0123456789abcdee, 7));
}

// --- the host --------------------------------------------------------------------------

struct FakeHost {
    extended: bool,
    governor: Option<&'static str>,
    smt: Option<bool>,
    applied: RefCell<u32>,
}

fn host(extended: bool, governor: Option<&'static str>, smt: Option<bool>) -> FakeHost {
    FakeHost { extended, governor, smt, applied: RefCell::new(0) }
}

impl Host for FakeHost {
    fn facts(&self) -> Result<Facts, String> {
        Ok(facts(self.extended))
    }
    fn read_tuning(&self, _want: &TuningKnobs) -> Result<TuningKnobs, String> {
        Ok(TuningKnobs {
            cpu_governor: self.governor.map(String::from),
            smt: self.smt,
            thp: None,
        })
    }
    fn apply_tuning(&self, _want: &TuningKnobs) -> Result<(), String> {
        *self.applied.borrow_mut() += 1;
        Ok(())
    }
}

fn facts(extended: bool) -> Facts {
    Facts {
        hostname: "lab".into(),
        kernel_version: "6.11.0".into(),
        os_release: "Ubuntu 26.04".into(),
        cpu_model: "Ryzen".into(),
        cpu_count_logical: 16,
        cpu_count_physical: 8,
        smt_enabled: false,
        cpu_governor: "performance".into(),
        thp_setting: "never".into(),
        total_memory_bytes: 1 << 37,
        kvm_present: true,
        numa_topology: if extended { Some(doc(r#"{"node0": "0-15"}"#)) } else { None },
        mitigations: if extended { Some(doc(r#"{"mds": "Not affected"}"#)) } else { None },
        microcode_version: if extended { Some("0xa60120c".into()) } else { None },
        nested_virt: if extended { Some(false) } else { None },
    }
}

fn seen(h: &FakeHost, prep: &HostPrep) -> Result<Fingerprint, String> {
    observe(&mut HostSession::new(h), prep, "single_tenant")
}

#[test]
fn parses_host_prep_with_yaml_off_string() {
    let hp = HostPrep::from_value(&doc(
        r#"{
            "cpu_governor": "performance",
            "smt": "off",
            "thp": "never",
            "pin_threads": true
        }"#,
    ));
    assert_eq!(hp.knobs.cpu_governor.as_deref(), Some("performance"));
    assert_eq!(hp.knobs.smt, Some(false));
    assert_eq!(hp.knobs.thp.as_deref(), Some("never"));
    assert!(hp.pin_threads);
}

#[test]
fn tuning_requested_only_carries_set_knobs() {
    let hp = HostPrep::from_value(&doc(r#"{"cpu_governor": "performance"}"#));
    assert!(hp.knobs.to_value().same(&doc(r#"{"cpu_governor": "performance"}"#)));
}

#[test]
fn matching_readback_is_consistent() {
    let hp = HostPrep::from_value(&doc(r#"{"cpu_governor": "performance", "smt": "off"}"#));
    let fp = seen(&host(true, Some("performance"), Some(false)), &hp).unwrap();
    assert!(fp.tuning_consistent());
    // observe passes no pinning_layout (the target adapter fills it in a
    // later stage), so a read-only observation is never extended-complete.
    assert!(!fp.has_extended());
}

#[test]
fn build_fingerprint_with_pinning_is_extended_complete() {
    let requested = TuningKnobs::default();
    let fp = build_fingerprint(
        &facts(true),
        &requested,
        &requested,
        "single_tenant",
        Some(doc(r#"{"vcpu0": 2}"#)),
    );
    assert!(fp.has_extended());
    assert!(fp.tuning_consistent());
}

#[test]
fn diverging_readback_is_inconsistent() {
    let hp = HostPrep::from_value(&doc(r#"{"cpu_governor": "performance"}"#));
    // Host reports powersave: prep did not take, the run is a lie.
    let fp = seen(&host(true, Some("powersave"), None), &hp).unwrap();
    assert!(!fp.tuning_consistent());
}

#[test]
fn missing_extended_facts_are_not_reproducible_grade() {
    let hp = HostPrep::default();
    let fp = seen(&host(false, None, None), &hp).unwrap();
    assert!(!fp.has_extended());
}

#[test]
fn preparing_applies_and_observing_does_not() {
    let hp = HostPrep::from_value(&doc(r#"{"cpu_governor": "performance"}"#));
    let h = host(true, Some("performance"), None);
    observe(&mut HostSession::new(&h), &hp, "t").unwrap();
    assert_eq!(*h.applied.borrow(), 0);
    prepare(&mut HostSession::new(&h), &hp, "t").unwrap();
    assert_eq!(*h.applied.borrow(), 1);
}

#[test]
fn cpu_counts_from_cpuinfo() {
    let cpuinfo = "\
processor\t: 0
physical id\t: 0
core id\t: 0

processor\t: 1
physical id\t: 0
core id\t: 1

processor\t: 2
physical id\t: 0
core id\t: 0

processor\t: 3
physical id\t: 0
core id\t: 1
";
    // 4 logical, 2 physical cores (SMT pairs share a core id).
    let (logical, physical) = cpu_counts(cpuinfo);
    assert_eq!(logical, 4);
    assert_eq!(physical, 2);
}

fn files() -> HostFiles {
    HostFiles {
        cpuinfo: Some("processor : 0\nmodel name\t: Ryzen 9\nmicrocode : 0xa6\n".into()),
        hostname: Some("lab\n".into()),
        kernel: Some("6.11.0\n".into()),
        os_release: Some("NAME=x\nPRETTY_NAME=\"Ubuntu 26.04\"\n".into()),
        smt_active: Some("1\n".into()),
        governor: Some("performance\n".into()),
        thp: Some("always madvise [never]\n".into()),
        meminfo: Some("MemTotal:  1024 kB\n".into()),
        kvm: true,
        nodes: Some(vec![("node0".into(), Some("0-3\n".into())), ("has_cpu".into(), None)]),
        vulnerabilities: Some(vec![("mds".into(), Some("Not affected\n".into()))]),
        nested_intel: None,
        nested_amd: Some("1\n".into()),
    }
}

#[test]
fn linux_facts_come_from_its_files() {
    let f = LinuxHost::new().facts(&files()).unwrap();
    assert_eq!(f.hostname, "lab");
    assert_eq!(f.os_release, "Ubuntu 26.04");
    assert_eq!(f.cpu_model, "Ryzen 9");
    assert_eq!(f.thp_setting, "never");
    assert_eq!(f.total_memory_bytes, 1024 * 1024);
    assert!(f.smt_enabled && f.kvm_present);
    assert_eq!(f.nested_virt, Some(true));
    assert_eq!(f.microcode_version.as_deref(), Some("0xa6"));
    assert!(f.numa_topology.unwrap().same(&doc(r#"{"node0": "0-3"}"#)));
    assert!(f.mitigations.unwrap().same(&doc(r#"{"mds": "Not affected"}"#)));

    let mut lost = files();
    lost.hostname = None;
    assert_eq!(LinuxHost::new().facts(&lost).unwrap_err(), "cannot read hostname");
    let mut lost = files();
    lost.kernel = None;
    assert_eq!(LinuxHost::new().facts(&lost).unwrap_err(), "cannot read kernel version");
    let mut lost = files();
    lost.meminfo = Some("MemFree: 1 kB".into());
    assert_eq!(LinuxHost::new().facts(&lost).unwrap_err(), "cannot read MemTotal");
}

#[test]
fn linux_texts_are_read() {
    assert_eq!(cpuinfo_field("a : b\nmodel name : X Y\n", "model name").as_deref(), Some("X Y"));
    assert_eq!(cpuinfo_field("a : b", "model name"), None);
    assert_eq!(os_pretty_name("PRETTY_NAME=\"A\"\n").as_deref(), Some("A"));
    assert_eq!(thp_active("[always] madvise never").as_deref(), Some("always"));
    assert_eq!(meminfo_total_bytes("MemTotal: 2 kB"), Some(2048));
    assert!(cpu_name("cpu0") && cpu_name("cpu12"));
    assert!(!cpu_name("cpufreq") && !cpu_name("cpu"));
    assert!(governor_path("cpu3").contains("cpu3"));
}

#[test]
fn tuning_is_planned_per_knob() {
    let want =
        TuningKnobs { cpu_governor: Some("performance".into()), smt: Some(false), thp: None };
    let plan = LinuxHost::new().plan_tuning(
        &want,
        &vec![("cpu0".into(), true), ("cpufreq".into(), true), ("cpu1".into(), false)],
        true,
    );
    let writes: Vec<(&str, &str)> = plan
        .iter()
        .map(|t| match t {
            Tuning::Write(p, v) => (p.as_str(), v.as_str()),
            Tuning::Refuse(e) => panic!("{e}"),
        })
        .collect();
    assert!(writes.iter().any(|(p, v)| p.contains("cpu0") && *v == "performance"));
    assert!(!writes.iter().any(|(p, _)| p.contains("cpu1")));
    assert!(writes.iter().any(|(p, v)| p.contains("smt/control") && *v == "off"));
    assert!(LinuxHost::new().plan_tuning(&TuningKnobs::default(), &vec![], false).is_empty());
}

// --- the pipeline ------------------------------------------------------------------------

#[test]
fn resolve_prefers_env_override() {
    assert_eq!(
        resolve_gate_bin(Some("/custom/assayist-gate".into()), Some("/beside".into())),
        "/custom/assayist-gate"
    );
    assert_eq!(resolve_gate_bin(None, Some("/beside".into())), "/beside");
    assert_eq!(resolve_gate_bin(None, None), "assayist-gate");
}

#[test]
fn gate_answers_are_read() {
    let out = read_gate(2, r#"{"outcome": {"verdict": "fail"}}"#, "").unwrap();
    assert_eq!((out.verdict.as_str(), out.exit_code), ("fail", 2));
    assert!(read_gate(1, "", "no metric").unwrap_err().contains("no metric"));
    assert_eq!(verdict_in(&Doc::Null, 0), "pass");
    assert_eq!(verdict_in(&Doc::Null, 2), "fail");
    assert_eq!(verdict_in(&Doc::Null, 3), "contaminated");
    assert_eq!(verdict_in(&Doc::Null, 9), "unknown");
    assert_eq!(exit_with(3), 3);
    let t = GateThresholds {
        p_threshold: "0.01".into(),
        noise_threshold: "0.05".into(),
        resamples: 10,
        ignore: vec!["x".into()],
        allow_ungraded: true,
    };
    let args = gate_args("ab_permutation", &vec!["a.json".into()], &vec!["b.json".into()], &t);
    let joined = args.join(" ");
    assert!(joined.contains("--mode ab_permutation"), "{joined}");
    assert!(joined.contains("--a a.json"), "{joined}");
    assert!(joined.contains("--b b.json"), "{joined}");
    assert!(joined.contains("--ignore x"), "{joined}");
    assert!(joined.contains("--allow-ungraded"), "{joined}");
}

#[test]
fn thresholds_are_those_of_the_definition_or_the_defaults() {
    let mut d = def();
    let t = thresholds(&d.gate, false);
    assert_eq!((t.p_threshold.as_str(), t.noise_threshold.as_str()), ("0.01", "0.05"));
    assert_eq!(t.resamples, 10_000);
    assert!(t.ignore.is_empty() && !t.allow_ungraded);
    d.gate.p_threshold = Some("0.2".into());
    d.gate.noise_threshold = Some("0.3".into());
    d.gate.resamples = Some(7);
    d.gate.ignore = vec!["x".into()];
    let t = thresholds(&d.gate, true);
    assert_eq!((t.p_threshold.as_str(), t.noise_threshold.as_str()), ("0.2", "0.3"));
    assert_eq!((t.resamples, t.allow_ungraded), (7, true));
    assert_eq!(t.ignore, vec!["x"]);
}

#[test]
fn adapters_are_chosen_by_name() {
    assert_eq!(select_target("firecracker"), TargetKind::Firecracker);
    assert_eq!(select_target("qemu"), TargetKind::Qemu);
    assert_eq!(select_target("other"), TargetKind::Command);
    assert_eq!(select_workload("fio-libaio"), WorkloadKind::Fio);
    assert_eq!(select_workload("wrk2"), WorkloadKind::Wrk);
    assert_eq!(select_workload("vsock"), WorkloadKind::Vsock);
    assert_eq!(select_workload("fiox"), WorkloadKind::Command);
}

#[test]
fn instances_get_their_own_variables() {
    let mut d = def();
    d.target.config = config(r#"{"instances": 3}"#);
    let vars: Table<String> = Table::new().with("vcpu", "2".to_string());
    assert_eq!(instances_of(&d, &vars), 3);
    let each = build_target(&d, &vars, false);
    assert_eq!(each.len(), 3);
    let mut seen: Vec<String> =
        each.iter().map(|t| t.get("instance").unwrap().to_string()).collect();
    seen.dedup();
    assert_eq!(seen, vec!["0", "1", "2"]);
    assert_eq!(instances_of(&def(), &vars), 1);
    // Pinned, each one starts where the last one's processors end.
    let pinned = build_target(&d, &vars, true);
    let bases: Vec<&str> = pinned.iter().map(|t| t.get("cpu_base").unwrap().as_str()).collect();
    assert_eq!(bases, vec!["0", "2", "4"]);
    assert!(each[0].get("cpu_base").is_none());
}

#[test]
fn builds_and_cells_are_two_groups() {
    let d = example();
    let cells = expand_cells(&d);
    let gs = groups(&d, &cells, "shaA", "shaB");
    assert_eq!(gs.len(), 2);
    assert_eq!((gs[0].label.as_str(), gs[0].sut.as_str()), ("a", "shaA"));
    assert_eq!((gs[1].label.as_str(), gs[1].sut.as_str()), ("b", "shaB"));
    assert_eq!(gs[0].cells.len(), 6);
    let js = jobs(&gs, 2);
    assert_eq!(js.len(), 24);
    assert_eq!(js[0].record_file(), "a_0_0.json");
    assert_eq!(js[1].record_file(), "a_0_1.json");
    assert_eq!(js[23].record_file(), "b_5_1.json");
    assert_eq!(js[0].work_dir(), "frags/a-0-0");
    let mut names: Vec<String> = js.iter().map(|j| j.record_file()).collect();
    names.sort();
    names.dedup();
    assert_eq!(names.len(), 24);

    let mut c = def();
    c.compare = Some("variant".into());
    c.parameterise = Table::new().with("variant", axis(&["\"stock\"", "\"prefetch\""]));
    let cells = expand_cells(&c);
    let gs = groups(&c, &cells, "shaA", "shaB");
    assert_eq!(gs[0].cells, vec![0]);
    assert_eq!(gs[1].cells, vec![1]);
}

struct NoRunner;

impl GadgetRunner for NoRunner {
    type Handle = ();
    fn spawn(&self, _inv: &GadgetInvocation) -> Result<(), String> {
        Ok(())
    }
    fn wait(&self, _inv: &GadgetInvocation, _h: ()) -> Result<Fragment, String> {
        Ok(kvm_fragment())
    }
}

struct NoWire;

impl Wire for NoWire {
    fn exchange(&self, _line: &str) -> Result<String, String> {
        Err("closed".into())
    }
}

#[test]
fn a_job_makes_a_record() {
    let mut d = def();
    d.capture = vec![probe("singleton")];
    let cells = expand_cells(&d);
    let gs = groups(&d, &cells, "shaA", "shaB");
    let js = jobs(&gs, 1);
    let m = FakeMachine::new();
    let gadgets = vec![GadgetInvocation {
        gadget: "g".into(),
        probe: "kvm_exit".into(),
        args: vec![],
        out_path: "/tmp/x".into(),
    }];
    let session: Option<AttributionSession<NoWire>> = None;
    let mut rig = Rig::new(
        Session::new(&m),
        &NoRunner,
        command_target(&d, Table::new()),
        command_workload(&d, Table::new()),
        session,
        3,
    );
    let prep = HostPrep::default();
    let h = host(true, None, None);
    let run = run_job(
        &mut rig,
        &mut HostSession::new(&h),
        &prep,
        &d,
        &cells[0],
        "sha",
        &js[0],
        &gadgets,
    )
    .unwrap();
    assert_eq!(run.identity.sut_git_sha, "shaA");
    assert_eq!(text_at(&run.series[0], "source"), "kvm_exit");
    assert_eq!(run.grade, Grade::Valid);
    assert_eq!(run.run_id.len(), 32);
    assert_eq!(*h.applied.borrow(), 0);
}

#[test]
fn a_job_records_the_versions_that_were_told() {
    let mut d = def();
    d.capture = vec![];
    d.target.commands = Table::new().with("version", "target-version".to_string());
    d.workload.commands = Table::new().with("version", "workload-version".to_string());
    let cells = expand_cells(&d);
    let js = jobs(&groups(&d, &cells, "shaA", "shaB"), 1);
    let m = FakeMachine::new();
    let session: Option<AttributionSession<NoWire>> = None;
    let mut rig = Rig::new(
        Session::new(&m),
        &NoRunner,
        command_target(&d, Table::new()),
        command_workload(&d, Table::new()),
        session,
        3,
    );
    let h = host(true, None, None);
    let prep = HostPrep::default();
    let run =
        run_job(&mut rig, &mut HostSession::new(&h), &prep, &d, &cells[0], "sha", &js[0], &vec![])
            .unwrap();
    assert_eq!(run.identity.target_adapter_version, "ran target-version");
    assert_eq!(run.identity.workload_driver_version, "ran workload-version");
}

#[test]
fn instances_are_those_that_a_definition_names() {
    let m = FakeMachine::new();
    let mut s = Session::new(&m);
    let mut d = def();
    d.target.config = config(r#"{"instances": "3"}"#);
    let t = run_target(&d, &Table::new(), false, 7, &mut s);
    assert_eq!(t.version(&mut s), "command-adapter");
    match t {
        RunTarget::Many(_) => {}
        RunTarget::One(_) => panic!("three instances"),
    }
    d.target.adapter = "qemu".into();
    d.target.config = Object::new();
    match run_target(&d, &Table::new(), false, 7, &mut s) {
        RunTarget::One(Instance::Qemu(q)) => assert_eq!(q.sock, "/tmp/assayist-qemu-7.sock"),
        _ => panic!("one qemu"),
    }
    d.target.adapter = "firecracker".into();
    match run_target(&d, &Table::new(), false, 7, &mut s) {
        RunTarget::One(Instance::Firecracker(f)) => {
            assert!(f.stream_dir.starts_with(&format!("{}.stream.", f.sock)), "{}", f.stream_dir)
        }
        _ => panic!("one firecracker"),
    }
    d.workload.driver = "wrk".into();
    let vsock = command_workload(&d, Table::new());
    match instance::select_workload(&d, &Table::new(), vsock) {
        RunWorkload::Wrk(w) => assert_eq!(w.bin, "wrk"),
        _ => panic!("a wrk"),
    }
}

#[test]
fn cells_and_preparation_are_looked_at() {
    let cells = expand_cells(&example());
    let (params, hash) = first_cell(&cells);
    assert!(params.same(&cells[0].params));
    assert_eq!(hash, cells[0].params_hash);
    assert!(!has_knobs(&HostPrep::default()));
    assert!(has_knobs(&HostPrep::from_value(&doc(r#"{"thp": "never"}"#))));
    assert!(refuse_unprepared(&extended_fingerprint()).is_none());
    let mut bad = extended_fingerprint();
    bad.tuning_readback = doc("{}");
    assert!(refuse_unprepared(&bad).is_some());
    let v = vars_for(&doc(r#"{"vcpu": 2}"#), "sha", "/defs");
    assert_eq!(v.get("vcpu").unwrap(), "2");
    assert_eq!(v.get("def_dir").unwrap(), "/defs");
}

#[test]
fn definitions_and_hosts_are_described() {
    let d = example();
    let cells = expand_cells(&d);
    let sha = benchmark_def_sha("x");
    let lines = describe_def(&d, &sha, &cells).join("\n");
    assert!(lines.contains("firecracker-boot-snapshot"), "{lines}");
    assert!(lines.contains(&sha[..12]), "{lines}");
    let lines = describe_host(&extended_fingerprint(), &HostPrep::default()).join("\n");
    assert!(lines.contains("lab"), "{lines}");
}

// --- command lines -------------------------------------------------------------------------

fn argv(words: &[&str]) -> Vec<String> {
    words.iter().map(|w| w.to_string()).collect()
}

#[test]
fn run_arguments_are_read() {
    let a = parse_run_args(&argv(&[
        "d.yaml", "--repeat", "2", "--a-sut", "x", "--b-sut", "y", "--duration", "1",
        "--allow-ungraded", "--out", "o",
    ]))
    .unwrap();
    assert_eq!(a.def_path, "d.yaml");
    assert_eq!((a.repeat, a.duration), (2, 1));
    assert_eq!((a.a_sut.as_str(), a.b_sut.as_str(), a.out_dir.as_str()), ("x", "y", "o"));
    assert!(a.allow_ungraded && !a.apply_prep);
    assert!(parse_run_args(&argv(&[])).is_err());
    assert!(parse_run_args(&argv(&["d", "--nope"])).is_err());
    assert!(parse_run_args(&argv(&["d", "--repeat"])).is_err());
    assert!(parse_run_args(&argv(&["d", "--repeat", "x"])).is_err());
}

#[test]
fn other_arguments_are_read() {
    let c = parse_capture_args(&argv(&["d.yaml", "--duration", "5", "--out", "o"])).unwrap();
    assert_eq!((c.def_path.as_str(), c.duration, c.out.as_str()), ("d.yaml", 5, "o"));
    assert!(parse_capture_args(&argv(&[])).is_err());
    let e = parse_export_args(&argv(&["r.json", "--signal", "traces"])).unwrap();
    assert_eq!((e.run_path.as_str(), e.signal.as_str(), e.out.as_str()), ("r.json", "traces", "-"));
    assert!(parse_export_args(&argv(&["--nope"])).is_err());
    let i = parse_import_args(&argv(&["t.json", "--out", "o"])).unwrap();
    assert_eq!((i.in_path.as_str(), i.out.as_str()), ("t.json", "o"));
    assert!(parse_import_args(&argv(&[])).is_err());
}
