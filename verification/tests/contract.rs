use assayist::contract::{AssayRun, Fingerprint, Fragment, Grade, Identity, SCHEMA_VERSION};
use assayist::json::Doc;
use assayist::parse;

fn doc(t: &str) -> Doc {
    parse::read(t).unwrap()
}

fn fp(extended: bool, consistent: bool) -> Fingerprint {
    let empty = || if extended { Some(doc("{}")) } else { None };
    Fingerprint {
        hostname: "h".into(),
        kernel_version: "6.8.0".into(),
        os_release: "Ubuntu 26.04".into(),
        cpu_model: "Ryzen".into(),
        cpu_count_logical: 16,
        cpu_count_physical: 8,
        smt_enabled: false,
        cpu_governor: "performance".into(),
        thp_setting: "never".into(),
        total_memory_bytes: 1 << 37,
        kvm_present: true,
        tenancy: "single_tenant".into(),
        tuning_requested: doc(r#"{"g": "performance"}"#),
        tuning_readback: doc(if consistent {
            r#"{"g": "performance"}"#
        } else {
            r#"{"g": "powersave"}"#
        }),
        numa_topology: empty(),
        pinning_layout: empty(),
        mitigations: empty(),
        microcode_version: if extended { Some("x".into()) } else { None },
        nested_virt: if extended { Some(false) } else { None },
    }
}

fn id() -> Identity {
    Identity {
        target_adapter: "firecracker".into(),
        target_adapter_version: "0.3.0".into(),
        workload_driver: "fio".into(),
        workload_driver_version: "0.1.0".into(),
        sut_git_sha: "abc1234".into(),
        params: doc(r#"{"vcpu": 2}"#),
        params_hash: "c1".into(),
        benchmark_def_sha: "def5678".into(),
        source: "captured".into(),
    }
}

fn run(f: Fingerprint, fragments: &[Fragment]) -> AssayRun {
    AssayRun::assemble("01".into(), id(), f, doc("{}"), fragments, vec![])
}

#[test]
fn full_fingerprint_and_consistent_tuning_is_reproducible() {
    assert_eq!(run(fp(true, true), &[]).grade, Grade::Reproducible);
}

#[test]
fn missing_extended_is_valid_not_reproducible() {
    assert_eq!(run(fp(false, true), &[]).grade, Grade::Valid);
}

#[test]
fn inconsistent_tuning_is_invalid() {
    assert_eq!(run(fp(true, false), &[]).grade, Grade::Invalid);
}

#[test]
fn probes_without_self_metrics_are_not_reproducible() {
    // A gadget produced series but no cost record: the observer-effect
    // record is missing, so an otherwise-reproducible run drops to valid.
    let frag = Fragment {
        series: vec![doc(r#"{"name": "kvm.exit"}"#)],
        self_metrics: vec![],
        capture_meta: Some(doc(r#"{"gadget": "assayist-capture-kvm"}"#)),
    };
    assert_eq!(run(fp(true, true), &[frag]).grade, Grade::Valid);
}

#[test]
fn probes_with_self_metrics_are_reproducible() {
    let frag = Fragment {
        series: vec![doc(r#"{"name": "kvm.exit"}"#)],
        self_metrics: vec![doc(r#"{"probe_id": "kvm_exit"}"#)],
        capture_meta: None,
    };
    assert_eq!(run(fp(true, true), &[frag]).grade, Grade::Reproducible);
}

#[test]
fn fragments_merge_series_and_self_metrics() {
    let frag = Fragment {
        series: vec![doc(r#"{"name": "x"}"#)],
        self_metrics: vec![doc(r#"{"probe_id": "p"}"#)],
        capture_meta: None,
    };
    let run = run(fp(true, true), &[frag]);
    assert_eq!(run.series.len(), 1);
    assert_eq!(run.self_metrics.len(), 1);
}

#[test]
fn a_run_starts_without_outcome_and_report() {
    let r = run(fp(true, true), &[]);
    assert!(r.workload_report.is_none());
    assert!(r.outcome.is_none());
    assert_eq!(r.schema_version, SCHEMA_VERSION);
    assert_eq!(r.schema_version, "0.1.0");
    assert_eq!(r.run_id, "01");
}

#[test]
fn imported_runs_are_valid_at_best() {
    let mut identity = id();
    identity.source = "imported".into();
    let r = AssayRun::assemble("01".into(), identity, fp(true, true), doc("{}"), &[], vec![]);
    assert_eq!(r.grade, Grade::Valid);
    let mut identity = id();
    identity.source = "imported".into();
    let r = AssayRun::assemble("01".into(), identity, fp(true, false), doc("{}"), &[], vec![]);
    assert_eq!(r.grade, Grade::Invalid);
}

#[test]
fn tuning_compares_by_value() {
    // The same settings in another order are the same settings.
    let mut f = fp(true, true);
    f.tuning_requested = doc(r#"{"a": 1, "b": [true, null]}"#);
    f.tuning_readback = doc(r#"{"b": [true, null], "a": 1}"#);
    assert!(f.tuning_consistent());
    f.tuning_readback = doc(r#"{"b": [true, null], "a": 1.0}"#);
    assert!(!f.tuning_consistent());
    assert!(f.has_extended());
    f.nested_virt = None;
    assert!(!f.has_extended());
}
