use assayist::gate::{ab, bad_direction, drift, exit_code, triad, Comparison, Config, Pair, Shift, Sign};
use assayist::gate_cli::{both_present, mode_of, parse_args, Mode};
use assayist::hostmem::hostmem_fragment;
use assayist::json::{Doc, Num};
use assayist::parse;
use assayist::reduce::{polarity_of, reduce, Metric, Polarity, Quantity};
use assayist::stats::{bucket_reaching, count_extreme, SplitMix64};

fn doc(t: &str) -> Doc {
    parse::read(t).unwrap()
}

fn cfg() -> Config {
    Config { allow_ungraded: true, ..Default::default() }
}

fn number(n: &Num) -> f64 {
    Doc::Num(match n {
        Num::Unsigned(u) => Num::Unsigned(*u),
        Num::Negative(i) => Num::Negative(*i),
        Num::Float(t) => Num::Float(t.clone()),
    })
    .to_text()
    .parse()
    .unwrap()
}

fn value(q: &Quantity) -> f64 {
    match q {
        Quantity::Plain(n) => number(n),
        Quantity::Ratio { sum, count } => number(sum) / number(count),
        Quantity::Rate { value, window } => number(value) / (number(window) / 1e9),
        Quantity::Difference { end, start } => number(end) - number(start),
        Quantity::Log2Mean(b) => log2_mean(b),
        Quantity::Log2Percentile(b, q) => log2_percentile(b, *q as f64 / 100.0),
        _ => 0.0,
    }
}

fn mean(xs: &[f64]) -> f64 {
    xs.iter().sum::<f64>() / xs.len() as f64
}

fn log2_mean(buckets: &[u64]) -> f64 {
    let total: u64 = buckets.iter().sum();
    let acc: f64 = buckets.iter().enumerate().map(|(i, b)| *b as f64 * 1.5 * (1u64 << i) as f64).sum();
    acc / total as f64
}

fn log2_percentile(buckets: &Vec<u64>, q: f64) -> f64 {
    let total: u64 = buckets.iter().sum();
    let target = q * total as f64;
    let i = bucket_reaching(buckets, |cum| cum as f64 >= target).unwrap();
    1.5 * (1u64 << i) as f64
}

fn permutation_p(a: &[f64], b: &[f64], resamples: usize, seed: u64) -> f64 {
    let na = a.len();
    let observed = (mean(b) - mean(a)).abs();
    let pool: Vec<f64> = a.iter().chain(b).copied().collect();
    let n = count_extreme(pool, resamples, seed, |p: &Vec<f64>| {
        (mean(&p[na..]) - mean(&p[..na])).abs() + 1e-12 >= observed
    });
    (n as f64 + 1.0) / (resamples as f64 + 1.0)
}

fn float(x: f64) -> Doc {
    Doc::Num(Num::Float(format!("{x:?}")))
}

fn sign(x: f64) -> Sign {
    if x > 0.0 {
        Sign::Up
    } else if x < 0.0 {
        Sign::Down
    } else {
        Sign::Flat
    }
}

fn judge(p: &Pair) -> Comparison {
    let a: Vec<f64> = p.a.iter().map(value).collect();
    let b: Vec<f64> = p.b.iter().map(value).collect();
    let (ma, mb) = (mean(&a), mean(&b));
    let rel = if ma != 0.0 { (mb - ma) / ma } else { 0.0 };
    let pv = permutation_p(&a, &b, 2000, 1);
    Comparison {
        mean_a: float(ma),
        mean_b: float(mb),
        delta: float(rel),
        p: float(pv),
        cov: float(0.0),
        significant: pv < 0.01,
        strong: rel.abs() >= 0.05,
        noisy: false,
        sign: sign(rel),
    }
}

fn judge_shift(p: &Pair) -> Shift {
    let a: Vec<f64> = p.a.iter().map(value).collect();
    let b: Vec<f64> = p.b.iter().map(value).collect();
    let (ma, mb) = (mean(&a), mean(&b));
    let rel = (mb - ma) / ma;
    Shift {
        base_mean: float(ma),
        base_std: float(0.0),
        cand_mean: float(mb),
        delta: float(rel),
        slope: float(0.0),
        slope_stderr: float(0.0),
        level_shift: rel.abs() >= 0.05,
        strong: rel.abs() >= 0.05,
        trending: false,
        sign: sign(rel),
    }
}

fn above(a: &Num, b: &Num) -> bool {
    number(a) > number(b)
}

fn counter_run(name: &str, val: f64) -> Doc {
    doc(&format!(
        r#"{{"series": [{{"name": "{name}", "kind": "counter", "unit": "", "source": "s", "data": {{"value": {val:?}}}}}]}}"#
    ))
}

fn labelled_counter_run(name: &str, state: &str, val: f64) -> Doc {
    doc(&format!(
        r#"{{"series": [{{"name": "{name}", "kind": "counter", "unit": "", "source": "s",
            "labels": {{"lifecycle_state": "{state}"}}, "data": {{"value": {val:?}}}}}]}}"#
    ))
}

fn verdict(d: &Doc) -> &str {
    d.get("outcome").unwrap().get("verdict").unwrap().as_str().unwrap()
}

fn statuses(d: &Doc) -> Vec<String> {
    let detail = d.get("report").unwrap().get("detail").unwrap().as_array().unwrap();
    detail.iter().map(|x| x.get("status").unwrap().as_str().unwrap().to_string()).collect()
}

#[test]
fn ab_with_one_sample_per_group_errors_rather_than_hollow_pass() {
    // 1-vs-1: no series has >= 2 samples per group, so nothing is comparable.
    // This must be a gate error (exit 1), not a silent `pass` (exit 0).
    let a = vec![counter_run("m", 100.0)];
    let b = vec![counter_run("m", 110.0)];
    let err = ab(&a, &b, &cfg(), judge).unwrap_err();
    assert!(err.contains("no metric was comparable"), "got: {err}");
}

#[test]
fn ab_with_disjoint_metrics_errors() {
    // Enough samples, but no shared series -> nothing to compare.
    let a: Vec<Doc> = (0..3).map(|_| counter_run("only_a", 1.0)).collect();
    let b: Vec<Doc> = (0..3).map(|_| counter_run("only_b", 1.0)).collect();
    assert!(ab(&a, &b, &cfg(), judge).is_err());
}

#[test]
fn ab_with_enough_samples_grades_normally() {
    let a: Vec<Doc> = (0..3).map(|i| counter_run("m", 100.0 + i as f64)).collect();
    let b: Vec<Doc> = (0..3).map(|i| counter_run("m", 100.0 + i as f64)).collect();
    let out = ab(&a, &b, &cfg(), judge).unwrap();
    match out.get("outcome").unwrap().get("per_metric").unwrap() {
        Doc::Object(o) => assert!(o.len() > 0),
        other => panic!("{other:?}"),
    }
    assert_eq!(verdict(&out), "pass");
}

#[test]
fn drift_with_one_sample_each_errors() {
    let base = vec![counter_run("m", 100.0)];
    let cand = vec![counter_run("m", 100.0)];
    assert!(drift(&base, &cand, &cfg(), judge_shift).is_err());
}

#[test]
fn ab_grades_label_variants_as_distinct_metrics() {
    // Each run carries two series sharing a name but differing only by
    // label (running vs paused). The comparator must grade each label variant as
    // its own metric and match like-for-like across A and B, not merge the
    // two into one series.
    let mk = |base: f64| -> Doc {
        let half = base / 20.0;
        doc(&format!(
            r#"{{"series": [
            {{"name": "net.softirq_ns", "kind": "counter", "unit": "", "source": "s",
             "labels": {{"lifecycle_state": "running"}}, "data": {{"value": {base:?}}}}},
            {{"name": "net.softirq_ns", "kind": "counter", "unit": "", "source": "s",
             "labels": {{"lifecycle_state": "paused"}}, "data": {{"value": {half:?}}}}}
        ]}}"#
        ))
    };
    let a: Vec<Doc> = (0..3).map(|i| mk(100.0 + i as f64)).collect();
    let b: Vec<Doc> = (0..3).map(|i| mk(100.0 + i as f64)).collect();
    let out = ab(&a, &b, &cfg(), judge).unwrap();
    let per = out.get("outcome").unwrap().get("per_metric").unwrap();
    assert!(
        per.get("net.softirq_ns|lifecycle_state=running|value").is_some(),
        "running variant graded as its own metric; got {per:?}"
    );
    assert!(
        per.get("net.softirq_ns|lifecycle_state=paused|value").is_some(),
        "paused variant graded as its own metric; got {per:?}"
    );
}

#[test]
fn ab_does_not_compare_across_differing_labels() {
    // Same series name, but A is all running and B is all paused. Different
    // labels give different metric ids, so the two are disjoint and nothing
    // is comparable: a gate error, not a hollow pass over a false match.
    let a: Vec<Doc> = (0..3).map(|_| labelled_counter_run("m", "running", 1.0)).collect();
    let b: Vec<Doc> = (0..3).map(|_| labelled_counter_run("m", "paused", 1.0)).collect();
    assert!(ab(&a, &b, &cfg(), judge).is_err());
}

#[test]
fn workload_report_numbers_become_gradeable_metrics() {
    let run = doc(
        r#"{
            "workload_report": {
                "driver": "vsock",
                "invocations": 30,
                "latency_p50_ns": 350000,
                "read": { "iops": 12000.0 }
            }
        }"#,
    );
    let ms = reduce(&run);
    let find = |id: &str| -> Option<&Metric> { ms.iter().find(|m| m.id == id) };

    // The string driver tag is skipped; numeric leaves (incl. nested) surface.
    assert!(find("workload:driver").is_none());
    assert_eq!(value(&find("workload:invocations").unwrap().value), 30.0);
    // Latency in ns reads lower-better; nested iops reads higher-better.
    assert_eq!(find("workload:latency_p50_ns").unwrap().polarity, Polarity::LowerBetter);
    assert_eq!(find("workload:read.iops").unwrap().polarity, Polarity::HigherBetter);
}

// --- statistics ----------------------------------------------------------------

#[test]
fn permutation_separates_clear_effect() {
    let a = vec![100.0, 101.0, 99.0, 100.5, 100.2, 99.8];
    let b = vec![140.0, 141.0, 139.0, 140.5, 140.2, 139.8];
    let p = permutation_p(&a, &b, 10000, 42);
    assert!(p < 0.01, "clear effect should be significant, got p={p}");
}

#[test]
fn permutation_finds_no_effect_when_identical_distributions() {
    let a = vec![100.0, 101.0, 99.0, 100.5, 100.2, 99.8];
    let b = vec![100.1, 100.9, 99.1, 100.4, 100.3, 99.7];
    let p = permutation_p(&a, &b, 10000, 42);
    assert!(p > 0.05, "no real effect should not be significant, got p={p}");
}

#[test]
fn permutation_is_deterministic() {
    let a = vec![1.0, 2.0, 3.0, 4.0];
    let b = vec![5.0, 6.0, 7.0, 8.0];
    assert_eq!(permutation_p(&a, &b, 5000, 7), permutation_p(&a, &b, 5000, 7));
}

#[test]
fn log2_percentile_monotone() {
    // 8 items in bucket 10 ([1024,2048)); median ~ 1.5*1024.
    let mut buckets = vec![0u64; 40];
    buckets[10] = 8;
    assert_eq!(log2_percentile(&buckets, 0.5), 1.5 * 1024.0);
}

#[test]
fn the_generator_is_splitmix64() {
    // The reference numbers of the generator from seed 0.
    let mut g = SplitMix64::new(0);
    assert_eq!(g.next_u64(), 0xE220A8397B1DCDAF);
    assert_eq!(g.next_u64(), 0x6E789E6AA1B965F4);
    assert_eq!(g.next_u64(), 0x06C45D188009454F);
    for n in 1..50usize {
        assert!(g.below(n) < n);
    }
    let mut pool: Vec<u32> = (0..20).collect();
    g.shuffle(&mut pool);
    let mut sorted = pool.clone();
    sorted.sort();
    assert_eq!(sorted, (0..20).collect::<Vec<u32>>());
}

// --- verdicts --------------------------------------------------------------------

fn latency_run(val: f64, cell: &str) -> Doc {
    doc(&format!(
        r#"{{"identity": {{"params_hash": "{cell}"}}, "grade": "reproducible",
            "series": [{{"name": "boot.latency_ns", "kind": "gauge", "unit": "ns", "source": "s",
            "data": {{"value": {val:?}}}}}],
            "self_metrics": [{{"probe_id": "p", "steady_cpu_fraction": 0.02, "over_budget": true}}]}}"#
    ))
}

fn six(base: f64, cell: &str) -> Vec<Doc> {
    (0..6).map(|i| latency_run(base + i as f64 / 10.0, cell)).collect()
}

#[test]
fn slower_fails_and_faster_passes() {
    let slow = ab(&six(100.0, "c"), &six(140.0, "c"), &cfg(), judge).unwrap();
    assert_eq!(verdict(&slow), "fail");
    assert_eq!(statuses(&slow), vec!["regressed"]);
    assert_eq!(exit_code(&slow), 2);
    let fast = ab(&six(140.0, "c"), &six(100.0, "c"), &cfg(), judge).unwrap();
    assert_eq!(verdict(&fast), "pass");
    assert_eq!(statuses(&fast), vec!["improved"]);
    assert_eq!(exit_code(&fast), 0);
}

#[test]
fn an_ignored_metric_never_fails() {
    let mut c = cfg();
    c.ignore = vec!["latency".to_string()];
    let out = ab(&six(100.0, "c"), &six(140.0, "c"), &c, judge).unwrap();
    assert_eq!(verdict(&out), "pass");
    assert_eq!(statuses(&out), vec!["ignored"]);
}

#[test]
fn drift_fails_in_the_bad_direction_only() {
    let up = drift(&six(100.0, "c"), &six(140.0, "c"), &cfg(), judge_shift).unwrap();
    assert_eq!(verdict(&up), "fail");
    assert_eq!(statuses(&up), vec!["drift_bad"]);
    let down = drift(&six(140.0, "c"), &six(100.0, "c"), &cfg(), judge_shift).unwrap();
    assert_eq!(verdict(&down), "pass");
    assert_eq!(statuses(&down), vec!["drift"]);
}

#[test]
fn the_triad_fails_on_overhead() {
    let out = triad(&six(100.0, "c"), &six(100.0, "c"), &cfg(), judge, above).unwrap();
    assert_eq!(verdict(&out), "fail");
    let o = out.get("report").unwrap().get("overhead").unwrap();
    assert_eq!(o.get("verdict").unwrap().as_str(), Some("fail"));
    assert_eq!(o.get("over_budget").unwrap().to_text(), r#"["p"]"#);
    assert_eq!(o.get("worst_steady_cpu_fraction").unwrap().to_text(), r#"{"p":0.02}"#);
    assert_eq!(
        out.get("report").unwrap().get("mode").unwrap().as_str(),
        Some("subsystem_triad")
    );
}

#[test]
fn directions_follow_polarity() {
    assert_eq!(bad_direction(Polarity::LowerBetter, Sign::Up), Some(true));
    assert_eq!(bad_direction(Polarity::HigherBetter, Sign::Up), Some(false));
    assert_eq!(bad_direction(Polarity::Unknown, Sign::Up), None);
    assert_eq!(polarity_of("boot.latency", "ns"), Polarity::LowerBetter);
    assert_eq!(polarity_of("READ.IOPS", ""), Polarity::HigherBetter);
    assert_eq!(polarity_of("hostmem.mem_consumed_kib", "KiBy"), Polarity::LowerBetter);
    assert_eq!(polarity_of("hostmem.cached_delta_kib", "KiBy"), Polarity::Unknown);
    assert_eq!(polarity_of("hostmem.mem_consumed_kib|value", "KiBy"), Polarity::LowerBetter);
    assert_eq!(polarity_of("hostmem.mem_consumed_kib|vm=a|value", "KiBy"), Polarity::LowerBetter);
    assert_eq!(polarity_of("hostmem.mem_consumed_kibi|value", "KiBy"), Polarity::Unknown);
    assert_eq!(polarity_of("hostmem.cached_delta_kib|value", "KiBy"), Polarity::Unknown);
    assert_eq!(polarity_of("mem_consumed_bytes", "By"), Polarity::HigherBetter);
    assert_eq!(polarity_of("mem_consumed", ""), Polarity::Unknown);
    assert_eq!(polarity_of("sched.on_cpu", "ns"), Polarity::Unknown);
    assert_eq!(polarity_of("x", "By"), Polarity::HigherBetter);
}

// --- the comparator's command line -------------------------------------------------------

fn argv(words: &[&str]) -> Vec<String> {
    words.iter().map(|w| w.to_string()).collect()
}

#[test]
fn gate_arguments_are_read() {
    let a = parse_args(&argv(&["--a", "x", "y", "--b", "z", "--seed", "9"])).unwrap();
    assert_eq!(a.mode, "ab_permutation");
    assert_eq!(a.a, vec!["x", "y"]);
    assert_eq!(a.b, vec!["z"]);
    assert_eq!(a.cfg.seed, 9);
    assert_eq!(a.out, "-");
    let a = parse_args(&argv(&[
        "--mode",
        "longitudinal_drift",
        "--baseline",
        "p",
        "--candidate",
        "q",
        "--ignore",
        "i",
        "--p-threshold",
        "1e-3",
        "--allow-ungraded",
        "--strict-single-cell",
    ]))
    .unwrap();
    assert_eq!(a.mode, "longitudinal_drift");
    assert_eq!((a.baseline, a.candidate), (vec!["p".to_string()], vec!["q".to_string()]));
    assert_eq!(a.cfg.ignore, vec!["i"]);
    assert_eq!(a.cfg.p_threshold, "1e-3");
    assert!(a.cfg.allow_ungraded && a.cfg.strict_single_cell);
}

#[test]
fn gate_arguments_are_refused() {
    let why = |words: &[&str]| parse_args(&argv(words)).unwrap_err();
    assert_eq!(why(&["ab"]), "stray argument ab");
    assert_eq!(why(&["--a", "x", "--seed", "1", "y"]), "stray argument y");
    assert_eq!(why(&["--nope"]), "unknown flag --nope");
    assert_eq!(why(&["--mode"]), "missing value after --mode");
    assert_eq!(why(&["--seed", "x"]), "bad --seed");
    assert_eq!(why(&["--resamples", "-1"]), "bad --resamples");
    assert_eq!(why(&["--p-threshold", "x"]), "bad --p-threshold");
    assert_eq!(why(&["--noise-threshold", ""]), "bad --noise-threshold");
    assert_eq!(why(&["--min-effect", "1.2.3"]), "bad --min-effect");
    assert_eq!(why(&["--drift-k", "+"]), "bad --drift-k");
}

#[test]
fn modes_need_both_groups() {
    assert!(matches!(mode_of("ab_permutation"), Ok(Mode::Ab)));
    assert!(matches!(mode_of("longitudinal_drift"), Ok(Mode::Drift)));
    assert!(matches!(mode_of("subsystem_triad"), Ok(Mode::Triad)));
    assert!(mode_of("other").is_err());
    assert!(both_present(Mode::Ab, 1, 1).is_ok());
    assert_eq!(
        both_present(Mode::Ab, 1, 0).unwrap_err(),
        "ab_permutation needs --a and --b run files"
    );
    assert_eq!(
        both_present(Mode::Drift, 0, 1).unwrap_err(),
        "longitudinal_drift needs --baseline and --candidate"
    );
}

#[test]
fn tenancies_are_not_mixed() {
    let run = |t: &str| {
        doc(&format!(
            r#"{{"grade": "reproducible", "gate": {{"tenancy": "{t}"}}, "fingerprint": {{"tenancy": "{t}"}},
            "series": [{{"name": "m", "kind": "gauge", "source": "s", "data": {{"value": 1}}}}]}}"#
        ))
    };
    let a = vec![run("single_tenant"), run("single_tenant")];
    let b = vec![run("density"), run("density")];
    let e = ab(&a, &b, &cfg(), judge).unwrap_err();
    assert_eq!(
        e,
        r#"refusing to compare across tenancy classes: ["density", "single_tenant"]"#
    );
}

#[test]
fn hosts_are_not_mixed() {
    let run = |h: &str| {
        doc(&format!(
            r#"{{"grade": "reproducible", "fingerprint": {{"tenancy": "density", "hostname": "{h}"}},
            "series": [{{"name": "m", "kind": "gauge", "source": "s", "data": {{"value": 1}}}}]}}"#
        ))
    };
    let a = vec![run("h1"), run("h1")];
    let b = vec![run("h2"), run("h2")];
    let why = r#"refusing to compare across hosts: ["h1", "h2"]"#;
    for c in [Config::default(), cfg()] {
        assert_eq!(ab(&a, &b, &c, judge).unwrap_err(), why);
        assert_eq!(triad(&a, &b, &c, judge, above).unwrap_err(), why);
        assert_eq!(drift(&a, &b, &c, judge_shift).unwrap_err(), why);
    }
    // Nor are they within one group.
    let mixed = vec![run("h2"), run("h1")];
    assert_eq!(ab(&a, &mixed, &cfg(), judge).unwrap_err(), why);
    // Runs of one host are compared.
    let c = vec![run("h1"), run("h1")];
    assert!(ab(&a, &c, &Config::default(), judge).is_ok());
    assert!(triad(&a, &c, &Config::default(), judge, above).is_ok());
    assert!(drift(&a, &c, &Config::default(), judge_shift).is_ok());
}

/// A run whose host memory went from some available KiB to others.
fn memory_run(before: i64, after: i64) -> Doc {
    let f = hostmem_fragment((before, 0), (after, before - after));
    let series: Vec<String> = f.series.iter().map(|s| s.to_text()).collect();
    doc(&format!(r#"{{"series": [{}]}}"#, series.join(",")))
}

#[test]
fn host_memory_is_reduced_to_a_metric_that_is_better_low() {
    let ms: Vec<Metric> = reduce(&memory_run(1000, 900));
    assert_eq!(ms.len(), 2);
    assert_eq!(ms[0].id, "hostmem.mem_consumed_kib|value");
    assert_eq!(value(&ms[0].value), 100.0);
    assert_eq!(ms[0].polarity, Polarity::LowerBetter);
    assert_eq!(ms[1].id, "hostmem.cached_delta_kib|value");
    assert_eq!(ms[1].polarity, Polarity::Unknown);
}

#[test]
fn taking_more_of_the_host_memory_fails() {
    let lean: Vec<Doc> = (0..6).map(|i| memory_run(1000, 900 - i)).collect();
    let greedy: Vec<Doc> = (0..6).map(|i| memory_run(1000, 500 - i)).collect();
    let worse = ab(&lean, &greedy, &cfg(), judge).unwrap();
    assert_eq!(verdict(&worse), "fail");
    let better = ab(&greedy, &lean, &cfg(), judge).unwrap();
    assert_eq!(verdict(&better), "pass");
}

#[test]
fn the_worst_cost_of_a_probe_is_its_largest_and_at_least_zero() {
    let run = |costs: &str| {
        doc(&format!(
            r#"{{"series": [{{"name": "m", "kind": "gauge", "source": "s", "data": {{"value": 1}}}}],
            "self_metrics": [{costs}]}}"#
        ))
    };
    let a = vec![run(""), run("")];
    let b = vec![
        run(
            r#"{"probe_id": "p", "steady_cpu_fraction": 0.25}, {"probe_id": "q", "steady_cpu_fraction": -1.5},
            {"probe_id": "r"}, {"probe_id": "t", "steady_cpu_fraction": 2}"#,
        ),
        run(
            r#"{"probe_id": "p", "steady_cpu_fraction": 0.5}, {"probe_id": "p", "steady_cpu_fraction": 0.125},
            {"probe_id": "t", "steady_cpu_fraction": 1}"#,
        ),
    ];
    let out = triad(&a, &b, &cfg(), judge, above).unwrap();
    let o = out.get("report").unwrap().get("overhead").unwrap();
    assert_eq!(
        o.get("worst_steady_cpu_fraction").unwrap().to_text(),
        r#"{"p":0.5,"q":0.0,"r":0.0,"t":2.0}"#
    );
}

#[test]
fn a_triad_extends_the_comparison() {
    let metrics = |d: &Doc| d.get("outcome").unwrap().get("per_metric").unwrap().to_text();
    let (a, b) = (six(100.0, "c"), six(140.0, "c"));
    let base = ab(&a, &b, &cfg(), judge).unwrap();
    let out = triad(&a, &b, &cfg(), judge, above).unwrap();
    assert_eq!(metrics(&out), metrics(&base));
    assert_eq!(verdict(&out), "fail");
    // The probes of the first group do not count.
    let plain: Vec<Doc> = (0..6).map(|i| counter_run("cpu_latency_s", 100.0 + i as f64)).collect();
    let costly: Vec<Doc> = plain
        .iter()
        .map(|d| {
            let t = d.to_text();
            doc(&format!(
                r#"{},"self_metrics":[{{"probe_id":"q","steady_cpu_fraction":0.5,"over_budget":true}}]}}"#,
                &t[..t.len() - 1]
            ))
        })
        .collect();
    let out = triad(&costly, &plain, &cfg(), judge, above).unwrap();
    let o = out.get("report").unwrap().get("overhead").unwrap();
    assert_eq!(o.get("over_budget").unwrap().to_text(), "[]");
    // Each probe is listed once.
    let out = triad(&plain, &costly, &cfg(), judge, above).unwrap();
    let o = out.get("report").unwrap().get("overhead").unwrap();
    assert_eq!(o.get("over_budget").unwrap().to_text(), r#"["q"]"#);
}

#[test]
fn ungraded_runs_are_refused_unless_allowed() {
    let a: Vec<Doc> = (0..2).map(|_| counter_run("m", 1.0)).collect();
    let b: Vec<Doc> = (0..2).map(|_| counter_run("m", 1.0)).collect();
    let strict = Config::default();
    let e = ab(&a, &b, &strict, judge).unwrap_err();
    assert!(e.contains("not 'reproducible'"), "got: {e}");
    assert!(ab(&a, &b, &cfg(), judge).is_ok());
}

#[test]
fn an_overspent_probe_contaminates_its_series() {
    let run = |v: f64| {
        doc(&format!(
            r#"{{"series": [{{"name": "m", "kind": "gauge", "unit": "ns", "source": "p", "data": {{"value": {v:?}}}}}],
            "self_metrics": [{{"probe_id": "p", "over_budget": true}}]}}"#
        ))
    };
    assert!(reduce(&run(1.0)).iter().all(|m| m.contaminated));
    let a: Vec<Doc> = (0..3).map(|i| run(i as f64)).collect();
    let b: Vec<Doc> = (0..3).map(|i| run(i as f64)).collect();
    let out = ab(&a, &b, &cfg(), judge).unwrap();
    assert_eq!(verdict(&out), "contaminated");
    assert_eq!(statuses(&out), vec!["contaminated"]);
    assert_eq!(exit_code(&out), 3);
}

#[test]
fn every_kind_of_series_is_reduced() {
    let run = doc(
        r#"{
        "capture_meta": {"window_ns": 2000000000},
        "series": [
            {"name": "h", "kind": "histogram", "unit": "ns", "source": "s", "key": "k",
             "data": {"layout": "log2", "buckets": [0, 4], "sum": 10, "count": 4}},
            {"name": "e", "kind": "histogram", "unit": "By", "source": "s",
             "data": {"layout": "explicit", "buckets": [1, 1], "explicit_bounds": [8.0]}},
            {"name": "c", "kind": "counter", "unit": "", "source": "s", "data": {"value": 6}}
        ],
        "spans": [{"name": "boot", "start_unix_nano": 3, "end_unix_nano": 10}]
    }"#,
    );
    let ms = reduce(&run);
    let ids: Vec<&str> = ms.iter().map(|m| m.id.as_str()).collect();
    assert_eq!(
        ids,
        vec![
            "h|k|mean", "h|k|p50", "h|k|p99", "e|mean", "e|p50", "e|p99", "c|value", "c|rate",
            "span:boot|dur"
        ]
    );
    let by = |id: &str| value(&ms.iter().find(|m| m.id == id).unwrap().value);
    assert_eq!(by("h|k|mean"), 2.5);
    assert_eq!(by("h|k|p50"), 3.0);
    assert_eq!(by("c|value"), 6.0);
    assert_eq!(by("c|rate"), 3.0);
    assert_eq!(by("span:boot|dur"), 7.0);
}
