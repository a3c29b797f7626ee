use assayist::cli::export_signal;
use assayist::contract::{AssayRun, Fingerprint, Fragment, Grade, Identity};
use assayist::json::Doc;
use assayist::otlp::{export, export_at, export_metrics, export_metrics_at, export_traces, span_id};
use assayist::otlp_import::import;
use assayist::parse;

fn doc(t: &str) -> Doc {
    parse::read(t).unwrap()
}

fn docs(ts: &[&str]) -> Vec<Doc> {
    ts.iter().map(|t| doc(t)).collect()
}

fn identity() -> Identity {
    Identity {
        target_adapter: "firecracker".into(),
        target_adapter_version: "0.3.0".into(),
        workload_driver: "fio".into(),
        workload_driver_version: "0.1.0".into(),
        sut_git_sha: "cafe".into(),
        params: doc(r#"{"vcpu": 2}"#),
        params_hash: "ph".into(),
        benchmark_def_sha: "bd".into(),
        source: "captured".into(),
    }
}

fn fingerprint() -> Fingerprint {
    Fingerprint {
        hostname: "lab".into(),
        kernel_version: "6.11.0".into(),
        os_release: "Ubuntu".into(),
        cpu_model: "Ryzen".into(),
        cpu_count_logical: 16,
        cpu_count_physical: 8,
        smt_enabled: false,
        cpu_governor: "performance".into(),
        thp_setting: "never".into(),
        total_memory_bytes: 1 << 37,
        kvm_present: true,
        tenancy: "single_tenant".into(),
        tuning_requested: doc("{}"),
        tuning_readback: doc("{}"),
        numa_topology: None,
        pinning_layout: None,
        mitigations: None,
        microcode_version: None,
        nested_virt: None,
    }
}

fn run_with(series: &[&str], self_metrics: &[&str], spans: &[&str]) -> AssayRun {
    let frags = [Fragment {
        series: docs(series),
        self_metrics: docs(self_metrics),
        capture_meta: None,
    }];
    AssayRun::assemble(
        "0123456789abcdef0123456789abcdef".into(),
        identity(),
        fingerprint(),
        doc("{}"),
        &frags,
        docs(spans),
    )
}

/// Follow member names, and places in lists.
fn at<'a>(d: &'a Doc, path: &[&str]) -> &'a Doc {
    let mut cur = d;
    for k in path {
        cur = match (cur, k.parse::<usize>()) {
            (Doc::Array(v), Ok(i)) => &v[i],
            _ => cur.get(k).unwrap(),
        };
    }
    cur
}

fn text<'a>(d: &'a Doc, path: &[&str]) -> &'a str {
    at(d, path).as_str().unwrap()
}

fn find_attr<'a>(attrs: &'a Doc, key: &str) -> Option<&'a Doc> {
    attrs.as_array()?.iter().find(|a| text(a, &["key"]) == key).map(|a| at(a, &["value"]))
}

const METRICS: [&str; 5] = ["resourceMetrics", "0", "scopeMetrics", "0", "metrics"];
const SPANS: [&str; 5] = ["resourceSpans", "0", "scopeSpans", "0", "spans"];

fn metric<'a>(d: &'a Doc, name: &str) -> &'a Doc {
    let all = at(d, &METRICS).as_array().unwrap();
    all.iter().find(|m| text(m, &["name"]) == name).unwrap()
}

#[test]
fn run_id_maps_to_trace_id_and_resource_uses_semconv() {
    let run = run_with(&[], &[], &[]);
    let doc = export_traces(&run);
    let attrs = at(&doc, &["resourceSpans", "0", "resource", "attributes"]);
    let said = |k: &str| text(find_attr(attrs, k).unwrap(), &["stringValue"]);
    assert_eq!(said("host.name"), "lab");
    assert_eq!(said("os.version"), "6.11.0");
    assert_eq!(said("host.cpu.model.name"), "Ryzen");
    assert_eq!(said("assayist.run.tenancy"), "single_tenant");
}

#[test]
fn spans_get_deterministic_ids_and_parent_links() {
    let run = run_with(
        &[],
        &[],
        &[
            r#"{"name": "boot", "start_unix_nano": 10, "end_unix_nano": 20}"#,
            r#"{"name": "boot.init", "parent": "boot", "start_unix_nano": 11, "end_unix_nano": 19}"#,
        ],
    );
    let out = export_traces(&run);
    let s = at(&out, &SPANS);
    assert_eq!(text(s, &["0", "traceId"]), "0123456789abcdef0123456789abcdef");
    // start time is a string (OTLP/JSON uint64).
    assert_eq!(text(s, &["0", "startTimeUnixNano"]), "10");
    // child's parentSpanId equals the parent's spanId.
    assert_eq!(text(s, &["1", "parentSpanId"]), text(s, &["0", "spanId"]));
    // ids are deterministic across exports.
    let again = export_traces(&run);
    assert_eq!(text(s, &["0", "spanId"]), text(at(&again, &SPANS), &["0", "spanId"]));
}

#[test]
fn log2_histogram_maps_to_exponential_scale_zero() {
    let run = run_with(
        &[r#"{
            "name": "kvm.exit_latency", "unit": "ns", "kind": "histogram", "source": "kvm_exit",
            "cardinality": {"class": "singleton"},
            "data": {"layout": "log2", "buckets": [3, 9, 14], "count": 26, "sum": 4242}
        }"#],
        &[],
        &[],
    );
    let out = export_metrics(&run);
    let m = at(at(&out, &METRICS), &["0"]);
    assert_eq!(text(m, &["name"]), "kvm.exit_latency");
    let dp = at(m, &["exponentialHistogram", "dataPoints", "0"]);
    assert_eq!(at(dp, &["scale"]).as_i64(), Some(0));
    assert_eq!(text(dp, &["count"]), "26");
    assert_eq!(at(dp, &["positive", "offset"]).as_i64(), Some(0));
    assert!(at(dp, &["positive", "bucketCounts"]).same(&doc(r#"["3", "9", "14"]"#)));
    // default export stamps 0.
    assert_eq!(text(dp, &["timeUnixNano"]), "0");
}

#[test]
fn export_at_stamps_histogram_and_probe_timestamps() {
    let run = run_with(
        &[r#"{
            "name": "kvm.exit_latency", "unit": "ns", "kind": "histogram", "source": "kvm_exit",
            "cardinality": {"class": "singleton"},
            "data": {"layout": "log2", "buckets": [1], "count": 1}
        }"#],
        &[r#"{"probe_id": "p", "attach_kind": "tracepoint", "run_time_ns": 5, "steady_cpu_fraction": 0.1, "over_budget": false}"#],
        &[],
    );
    let out = export_metrics_at(&run, 1234);
    let hist = metric(&out, "kvm.exit_latency");
    assert_eq!(text(hist, &["exponentialHistogram", "dataPoints", "0", "timeUnixNano"]), "1234");
    let cpu = metric(&out, "assayist.probe.steady_cpu_fraction");
    assert_eq!(text(cpu, &["gauge", "dataPoints", "0", "timeUnixNano"]), "1234");
}

#[test]
fn counter_maps_to_monotonic_sum() {
    let run = run_with(
        &[r#"{
            "name": "block.io_bytes", "unit": "By", "kind": "counter", "source": "block",
            "cardinality": {"class": "singleton"},
            "data": {"value": 4096, "start_unix_nano": 5}
        }"#],
        &[],
        &[],
    );
    let out = export_metrics(&run);
    let m = at(at(&out, &METRICS), &["0"]);
    assert_eq!(at(m, &["sum", "isMonotonic"]).as_bool(), Some(true));
    assert_eq!(at(m, &["sum", "aggregationTemporality"]).as_u64(), Some(2));
    assert_eq!(text(m, &["sum", "dataPoints", "0", "asInt"]), "4096");
}

#[test]
fn self_metrics_become_probe_gauge_and_sum() {
    let run = run_with(
        &[r#"{"name":"x"}"#],
        &[r#"{
            "probe_id": "kvm_exit", "attach_kind": "tracepoint",
            "run_time_ns": 41200, "run_cnt": 12873, "mean_ns": 3.2,
            "steady_cpu_fraction": 0.0075, "over_budget": false
        }"#],
        &[],
    );
    let out = export_metrics(&run);
    let names: Vec<&str> =
        at(&out, &METRICS).as_array().unwrap().iter().map(|m| text(m, &["name"])).collect();
    assert!(names.contains(&"assayist.probe.steady_cpu_fraction"));
    assert!(names.contains(&"assayist.probe.run_time_ns"));
    let cpu = metric(&out, "assayist.probe.steady_cpu_fraction");
    assert_eq!(at(cpu, &["gauge", "dataPoints", "0", "asDouble"]).to_text(), "0.0075");
}

#[test]
fn export_bundles_both_signals() {
    let run = run_with(&[], &[], &[]);
    let doc = export(&run);
    assert!(doc.get("resourceSpans").is_some());
    assert!(doc.get("resourceMetrics").is_some());
}

#[test]
fn round_trips_through_export_and_import() {
    let run = run_with(
        &[
            r#"{
                "name": "kvm.exit_latency", "unit": "ns", "kind": "histogram", "source": "kvm_exit",
                "cardinality": {"class": "singleton"},
                "data": {"layout": "log2", "buckets": [3, 9, 14], "count": 26, "sum": 4242}
            }"#,
            r#"{
                "name": "block.io_bytes", "unit": "By", "kind": "counter", "source": "block",
                "cardinality": {"class": "singleton"},
                "data": {"value": 4096, "start_unix_nano": 5}
            }"#,
        ],
        &[r#"{
            "probe_id": "kvm_exit", "attach_kind": "tracepoint",
            "run_time_ns": 41200, "run_cnt": 1, "mean_ns": 3.2,
            "steady_cpu_fraction": 0.0075, "over_budget": false
        }"#],
        &[
            r#"{"name": "boot", "start_unix_nano": 10, "end_unix_nano": 20}"#,
            r#"{"name": "boot.init", "parent": "boot", "start_unix_nano": 11, "end_unix_nano": 19}"#,
        ],
    );

    let out = export(&run);
    let back = import(&out).unwrap();

    // Imported runs are always valid, never reproducible, with no self_metrics.
    assert_eq!(back.identity.source, "imported");
    assert_eq!(back.grade, Grade::Valid);
    assert!(back.self_metrics.is_empty());

    // Fingerprint core lifted from resource attrs.
    assert_eq!(back.fingerprint.hostname, "lab");
    assert_eq!(back.fingerprint.kernel_version, "6.11.0");

    // run_id lifted from traceId.
    assert_eq!(back.run_id, "0123456789abcdef0123456789abcdef");

    // Spans preserved with parent resolved back to a name.
    assert_eq!(back.spans.len(), 2);
    assert_eq!(text(&back.spans[1], &["name"]), "boot.init");
    assert_eq!(text(&back.spans[1], &["parent"]), "boot");
    assert_eq!(at(&back.spans[0], &["start_unix_nano"]).as_u64(), Some(10));

    // The two series come back (probe metrics are dropped, not turned into series).
    assert_eq!(back.series.len(), 2);
    let named = |n: &str| back.series.iter().find(|s| text(s, &["name"]) == n).unwrap();
    let hist = named("kvm.exit_latency");
    assert_eq!(text(hist, &["kind"]), "histogram");
    assert_eq!(text(hist, &["data", "layout"]), "log2");
    assert!(at(hist, &["data", "buckets"]).same(&doc("[3, 9, 14]")));
    assert_eq!(at(hist, &["data", "count"]).as_u64(), Some(26));
    assert_eq!(text(hist, &["source"]), "kvm_exit");
    let ctr = named("block.io_bytes");
    assert_eq!(text(ctr, &["kind"]), "counter");
    assert_eq!(at(ctr, &["data", "value"]).as_u64(), Some(4096));
}

#[test]
fn imports_metrics_only_document() {
    let d = doc(
        r#"{
            "resourceMetrics": [{
                "resource": { "attributes": [
                    { "key": "host.name", "value": { "stringValue": "remote" } },
                    { "key": "os.version", "value": { "stringValue": "5.15.0" } }
                ]},
                "scopeMetrics": [{ "scope": { "name": "otel" }, "metrics": [{
                    "name": "app.latency", "unit": "ns",
                    "gauge": { "dataPoints": [{ "asDouble": 1.5, "timeUnixNano": "0" }] }
                }]}]
            }]
        }"#,
    );
    let run = import(&d).unwrap();
    assert_eq!(run.fingerprint.hostname, "remote");
    assert_eq!(run.identity.source, "imported");
    assert_eq!(run.grade, Grade::Valid);
    assert_eq!(run.series.len(), 1);
    assert_eq!(text(&run.series[0], &["kind"]), "gauge");
}

#[test]
fn a_document_without_resources_is_an_empty_run() {
    let run = import(&doc("{}")).unwrap();
    assert_eq!(run.run_id, "");
    assert_eq!(run.fingerprint.hostname, "");
    assert_eq!(run.fingerprint.cpu_governor, "unknown");
    assert_eq!(run.identity.target_adapter, "unknown");
    assert_eq!(run.grade, Grade::Valid);
}

#[test]
fn span_ids_tell_spans_apart() {
    let a = span_id("run", "boot", 0);
    assert_eq!(a.len(), 16);
    assert_eq!(a, span_id("run", "boot", 0));
    assert_ne!(a, span_id("run", "boot", 1));
    assert_ne!(a, span_id("other", "boot", 0));
}

#[test]
fn signals_are_exported_by_name() {
    let run = run_with(&[], &[], &[]);
    assert!(export_signal(&run, "both", 5).unwrap().same(&export_at(&run, 5)));
    assert!(export_signal(&run, "traces", 5).unwrap().same(&export_traces(&run)));
    assert!(export_signal(&run, "metrics", 5).unwrap().same(&export_metrics_at(&run, 5)));
    assert!(export_signal(&run, "logs", 5).unwrap_err().contains("logs"));
}

// --- documents -------------------------------------------------------------------------

#[test]
fn documents_are_read_and_written() {
    let t = r#"{"a":[1,-2,2.5,true,null,"q\"\\\nx"],"b":{}}"#;
    assert_eq!(doc(t).to_text(), t);
    assert!(parse::read("{").is_err());
    assert!(parse::read_list("[1, 2]").unwrap()[1].same(&doc("2")));
    assert!(parse::read_list("{}").is_err());
    // A later member of the same name replaces an earlier one.
    assert_eq!(doc(r#"{"a":1,"a":2}"#).to_text(), r#"{"a":2}"#);
    assert_eq!(doc("\"\\u0007\\u007f\"").to_text(), "\"\\u0007\u{7f}\"");
}

#[test]
fn span_attributes_and_whole_doubles_come_through() {
    let run = run_with(
        &[],
        &[r#"{"probe_id": "p", "attach_kind": "xdp", "run_time_ns": 5, "steady_cpu_fraction": 1, "over_budget": false}"#],
        &[r#"{"name": "boot", "start_unix_nano": 1, "end_unix_nano": 2,
             "attributes": {"n": 7, "s": "x", "b": true}}"#],
    );
    let out = export(&run);
    let cpu = metric(&out, "assayist.probe.steady_cpu_fraction");
    assert_eq!(at(cpu, &["gauge", "dataPoints", "0", "asDouble"]).to_text(), "1.0");
    let back = import(&out).unwrap();
    let attrs = at(&back.spans[0], &["attributes"]);
    assert_eq!(at(attrs, &["n"]).as_i64(), Some(7));
    assert_eq!(text(attrs, &["s"]), "x");
    assert_eq!(at(attrs, &["b"]).as_bool(), Some(true));
}
