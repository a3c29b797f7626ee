use std::cell::RefCell;
use std::collections::HashMap;

use assayist::adapter::{Machine, Residency, Session, Shell, Target, Workload};
use assayist::firecracker::firecracker_target;
use assayist::json::{Doc, Object};
use assayist::native::version_token;
use assayist::parse;
use assayist::table::Table;
use assayist::vmm::{ch_target, qemu_target, unikernel_target};
use assayist::vsock::{connect_line, handshake, vsock_summary, vsock_workload, Turn};
use assayist::workloads::{fio_workload, wrk_workload};

struct FakeShell {
    seen: RefCell<Vec<String>>,
    replies: HashMap<String, String>,
    clock: RefCell<u64>,
}

impl FakeShell {
    fn new() -> FakeShell {
        FakeShell {
            seen: RefCell::new(vec![]),
            replies: HashMap::new(),
            clock: RefCell::new(1_700_000_000_000_000_000),
        }
    }
    fn reply(mut self, needle: &str, out: &str) -> FakeShell {
        self.replies.insert(needle.to_string(), out.to_string());
        self
    }
    fn saw(&self, needle: &str) -> bool {
        self.seen.borrow().iter().any(|c| c.contains(needle))
    }
    fn first_containing(&self, needle: &str) -> Option<String> {
        self.seen.borrow().iter().find(|c| c.contains(needle)).cloned()
    }
}

impl Shell for FakeShell {
    fn run(&self, cmd: &str) -> Result<String, String> {
        self.seen.borrow_mut().push(cmd.to_string());
        for (needle, out) in &self.replies {
            if cmd.contains(needle) {
                return Ok(out.clone());
            }
        }
        Ok(String::new())
    }
}

impl Machine for FakeShell {
    fn now_nanos(&self) -> u64 {
        *self.clock.borrow_mut() += 1;
        *self.clock.borrow()
    }
    fn residency(&self, _path: &str) -> Option<Residency> {
        None
    }
}

fn doc(t: &str) -> Doc {
    parse::read(t).unwrap()
}

fn at<'a>(d: &'a Doc, path: &[&str]) -> &'a Doc {
    let mut cur = d;
    for k in path {
        cur = cur.get(k).unwrap();
    }
    cur
}

fn text<'a>(d: &'a Doc, path: &[&str]) -> &'a str {
    at(d, path).as_str().unwrap()
}

fn num(d: &Doc, path: &[&str]) -> Option<u64> {
    at(d, path).as_u64()
}

fn float(d: &Doc, path: &[&str]) -> f64 {
    at(d, path).to_text().parse().unwrap()
}

fn config(pairs: &[(&str, &str)]) -> Object {
    let mut o = Object::new();
    for (k, v) in pairs {
        o = o.text(k, v);
    }
    o
}

fn fc_config_with_tap() -> Object {
    fc_config().text("network", "tap")
}

fn vars(pairs: &[(&str, &str)]) -> Table<String> {
    let mut t: Table<String> = Table::new();
    for (k, v) in pairs {
        t = t.with(k, v.to_string());
    }
    t
}

#[test]
fn version_token_extracts_the_number() {
    assert_eq!(version_token("Firecracker v1.7.0\nfoo"), "v1.7.0");
    assert_eq!(version_token("fio-3.36"), "fio-3.36");
    assert_eq!(version_token("fio 3.36"), "3.36");
}

#[test]
fn firecracker_cold_boot_configures_then_starts() {
    let cfg = config(&[
        ("kernel", "/k/vmlinux"),
        ("rootfs", "/k/rootfs.ext4"),
    ]);
    let mut t = firecracker_target(&cfg, &vars(&[("vcpu", "2"), ("mem_mib", "512")]), false, 7, 1);
    let sh = FakeShell::new();

    t.provision(&mut Session::new(&sh)).unwrap();
    t.start(&mut Session::new(&sh)).unwrap();
    t.reach_steady(&mut Session::new(&sh)).unwrap();

    assert!(sh.saw("--api-sock"));
    assert!(sh.saw("/machine-config"));
    assert!(sh.saw("\"vcpu_count\":2"));
    assert!(sh.saw("\"mem_size_mib\":512"));
    assert!(sh.saw("/boot-source"));
    assert!(sh.saw("/k/vmlinux"));
    assert!(sh.saw("/drives/rootfs"));
    assert!(sh.saw("InstanceStart"));

    let spans = t.spans(&mut Session::new(&sh)).unwrap();
    assert_eq!(spans.len(), 1);
    assert_eq!(text(&spans[0], &["name"]), "boot.vmm_ready");
    assert!(num(&spans[0], &["end_unix_nano"]) >= num(&spans[0], &["start_unix_nano"]));
}

#[test]
fn firecracker_restore_mode_loads_and_skips_start() {
    let cfg = config(&[
        ("from_snapshot", "/s/snap"),
        ("mem_file", "/s/mem"),
    ]);
    let mut t = firecracker_target(&cfg, &vars(&[]), false, 7, 1);
    let sh = FakeShell::new();

    t.provision(&mut Session::new(&sh)).unwrap();
    t.start(&mut Session::new(&sh)).unwrap();

    assert!(sh.saw("/snapshot/load"));
    assert!(sh.saw("\"resume_vm\":true"));
    assert!(!sh.saw("InstanceStart"));
    assert!(!sh.saw("/machine-config"));

    let spans = t.spans(&mut Session::new(&sh)).unwrap();
    assert_eq!(spans.len(), 1);
    assert_eq!(text(&spans[0], &["name"]), "restore.resume_to_steady");
}

#[test]
fn firecracker_resident_files_only_for_restore() {
    // A restore exposes its snapshot mem file for residency; a cold boot has
    // none.
    let restore = firecracker_target(
        &config(&[("from_snapshot", "/s/snap"), ("mem_file", "/s/mem")]),
        &vars(&[]),
        false, 7, 1);
    assert_eq!(restore.resident_files(), vec![(String::new(), "/s/mem".to_string())]);

    let cold = firecracker_target(
        &config(&[("kernel", "/k"), ("rootfs", "/r")]),
        &vars(&[]),
        false, 7, 1);
    assert!(cold.resident_files().is_empty());
}

#[test]
fn firecracker_default_socket_carries_the_instance_index() {
    let mut base = firecracker_target(&config(&[("from_snapshot", "/s")]), &vars(&[]), false, 7, 1);
    let sh = FakeShell::new();
    base.provision(&mut Session::new(&sh)).unwrap();
    assert!(sh.seen.borrow().iter().any(|c| c.contains("assayist-fc-") && !c.contains(".sock-")));

    let v = vars(&[("instance", "2")]);
    let mut inst = firecracker_target(&config(&[("from_snapshot", "/s")]), &v, false, 7, 1);
    let sh2 = FakeShell::new();
    inst.provision(&mut Session::new(&sh2)).unwrap();
    // The per-instance socket is discriminated so concurrent instances of
    // one def do not collide.
    assert!(sh2.seen.borrow().iter().any(|c| c.contains("-2.sock")));
}

#[test]
fn firecracker_uffd_launches_handler_and_loads_uffd_backend() {
    let cfg = config(&[
        ("from_snapshot", "/s/snap"),
        ("mem_file", "/s/mem"),
        ("api_sock", "/tmp/p.sock"),
        ("mem_backend", "uffd"),
        ("uffd_handler", "reap --uds {uffd_uds} --mem {mem_file} ondemand"),
    ]);
    let mut t = firecracker_target(&cfg, &vars(&[]), false, 7, 1);
    let sh = FakeShell::new();
    t.provision(&mut Session::new(&sh)).unwrap();

    let seen = sh.seen.borrow();
    // The handler is launched on the derived uffd socket, with mem_file
    // substituted, before the snapshot load...
    assert!(seen.iter().any(|c| c.contains("reap --uds /tmp/p.sock.uffd --mem /s/mem ondemand")));
    // ...and the load uses the Uffd backend pointing at that socket.
    assert!(seen.iter().any(|c| c.contains("/snapshot/load") && c.contains("\"backend_type\":\"Uffd\"") && c.contains("/tmp/p.sock.uffd")));
}

#[test]
fn firecracker_uffd_without_handler_is_an_error() {
    let cfg = config(&[
        ("from_snapshot", "/s/snap"),
        ("mem_file", "/s/mem"),
        ("mem_backend", "uffd"),
    ]);
    let mut t = firecracker_target(&cfg, &vars(&[]), false, 7, 1);
    let sh = FakeShell::new();
    assert!(t.provision(&mut Session::new(&sh)).unwrap_err().contains("uffd_handler"));
}

#[test]
fn firecracker_streaming_mounts_then_loads_against_the_mount() {
    // Prewarm arm: mount the FUSE source, stream-prefetch, then load File
    // against the mounted mem (not the local one).
    let cfg = config(&[
        ("from_snapshot", "/s/snap"),
        ("mem_file", "/s/mem"),
        ("stream_source", "file:///s/mem"),
        ("stream_bin", "/b/bpfoliod"),
        ("stream_wsmeta", "/s/reap.wsmeta"),
        ("stream_prefetch", "stream"),
    ]);
    let mut t = firecracker_target(&cfg, &vars(&[]), false, 7, 1);
    let sh = FakeShell::new();
    t.provision(&mut Session::new(&sh)).unwrap();

    assert!(sh.saw("stream-mount"), "should launch the FUSE mount");
    assert!(sh.saw("stream-prefetch"), "prewarm arm should stream-prefetch");
    // The load's mem backend path is the mounted file, not the local mem.
    let load = sh.first_containing("/snapshot/load").expect("loaded");
    assert!(load.contains(".stream.") && load.contains("/mem"), "load should target the mounted mem: {load}");
}

#[test]
fn firecracker_streaming_demand_arm_skips_prefetch() {
    let cfg = config(&[
        ("from_snapshot", "/s/snap"),
        ("mem_file", "/s/mem"),
        ("stream_source", "file:///s/mem"),
        ("stream_bin", "/b/bpfoliod"),
        ("stream_prefetch", "nostream"),
    ]);
    let mut t = firecracker_target(&cfg, &vars(&[]), false, 7, 1);
    let sh = FakeShell::new();
    t.provision(&mut Session::new(&sh)).unwrap();
    assert!(sh.saw("stream-mount"), "demand arm still mounts");
    assert!(!sh.saw("stream-prefetch"), "demand arm must not prewarm");
}

#[test]
fn qemu_provision_launches_kvm_and_records_boot_span() {
    let cfg = config(&[
        ("kernel", "/k/vmlinux"),
        ("rootfs", "/r/root.ext4"),
        ("qmp_sock", "/tmp/q.sock"),
    ]);
    let mut t = qemu_target(&cfg, &vars(&[("vcpu", "2"), ("mem_mib", "512")]), false, 7);
    let sh = FakeShell::new();
    t.provision(&mut Session::new(&sh)).unwrap();
    t.start(&mut Session::new(&sh)).unwrap();

    let launch = sh.first_containing("qmp").expect("launched");
    assert!(launch.contains("-enable-kvm"));
    assert!(launch.contains("-smp '2'") && launch.contains("-m '512'"));
    assert!(launch.contains("-kernel '/k/vmlinux'"));
    assert!(launch.contains("file='/r/root.ext4'"));
    assert!(launch.contains("-qmp unix:'/tmp/q.sock'"));

    let spans = t.spans(&mut Session::new(&sh)).unwrap();
    assert_eq!(spans.len(), 1);
    assert_eq!(text(&spans[0], &["name"]), "boot.vmm_ready");
}

#[test]
fn qemu_default_socket_carries_the_instance_index() {
    let v = vars(&[("instance", "3")]);
    let mut t = qemu_target(&config(&[("kernel", "/k")]), &v, false, 7);
    let sh = FakeShell::new();
    t.provision(&mut Session::new(&sh)).unwrap();
    assert!(sh.seen.borrow().iter().any(|c| c.contains("-3.sock")));
}

#[test]
fn qemu_pinning_is_rejected_for_now() {
    let mut t = qemu_target(&config(&[("kernel", "/k")]), &vars(&[]), true, 7);
    let sh = FakeShell::new();
    t.provision(&mut Session::new(&sh)).unwrap();
    assert!(t.reach_steady(&mut Session::new(&sh)).unwrap_err().contains("pin_threads"));
}

#[test]
fn ch_provision_launches_vmm_and_records_boot_span() {
    let cfg = config(&[
        ("kernel", "/k/vmlinux"),
        ("rootfs", "/r/root.ext4"),
        ("api_sock", "/tmp/ch.sock"),
    ]);
    let mut t = ch_target(&cfg, &vars(&[("vcpu", "2"), ("mem_mib", "512")]), false, 7);
    let sh = FakeShell::new();
    t.provision(&mut Session::new(&sh)).unwrap();
    t.start(&mut Session::new(&sh)).unwrap();

    let launch = sh.first_containing("api-socket").expect("launched");
    assert!(launch.contains("--api-socket '/tmp/ch.sock'"));
    assert!(launch.contains("--cpus boot='2'") && launch.contains("--memory size='512'M"));
    assert!(launch.contains("--kernel '/k/vmlinux'"));
    assert!(launch.contains("--disk path='/r/root.ext4',readonly=on"));

    let spans = t.spans(&mut Session::new(&sh)).unwrap();
    assert_eq!(spans.len(), 1);
    assert_eq!(text(&spans[0], &["name"]), "boot.vmm_ready");
}

#[test]
fn ch_default_socket_carries_the_instance_index() {
    let v = vars(&[("instance", "3")]);
    let mut t = ch_target(&config(&[("kernel", "/k")]), &v, false, 7);
    let sh = FakeShell::new();
    t.provision(&mut Session::new(&sh)).unwrap();
    assert!(sh.seen.borrow().iter().any(|c| c.contains("-3.sock")));
}

#[test]
fn ch_pinning_is_rejected_for_now() {
    let mut t = ch_target(&config(&[("kernel", "/k")]), &vars(&[]), true, 7);
    let sh = FakeShell::new();
    t.provision(&mut Session::new(&sh)).unwrap();
    assert!(t.reach_steady(&mut Session::new(&sh)).unwrap_err().contains("pin_threads"));
}

#[test]
fn unikernel_disk_boot_uses_a_raw_virtio_drive() {
    let cfg = config(&[("image", "/img/hello-uk"), ("qmp_sock", "/tmp/uk.sock")]);
    let mut t = unikernel_target(&cfg, &vars(&[("mem_mib", "256")]), false, 7);
    let sh = FakeShell::new();
    t.provision(&mut Session::new(&sh)).unwrap();
    t.start(&mut Session::new(&sh)).unwrap();

    let launch = sh.first_containing("qmp").expect("launched");
    assert!(launch.contains("-drive file='/img/hello-uk',format=raw"));
    assert!(launch.contains("virtio-blk-pci"));
    assert!(!launch.contains("-kernel"));
    assert!(launch.contains("-qmp unix:'/tmp/uk.sock'"));

    let spans = t.spans(&mut Session::new(&sh)).unwrap();
    assert_eq!(spans.len(), 1);
    assert_eq!(text(&spans[0], &["name"]), "boot.vmm_ready");
}

#[test]
fn unikernel_kernel_boot_uses_dash_kernel() {
    let cfg = config(&[
        ("image", "/img/unikraft"),
        ("boot_style", "kernel"),
        ("boot_args", "netdev.ip=..."),
    ]);
    let mut t = unikernel_target(&cfg, &vars(&[]), false, 7);
    let sh = FakeShell::new();
    t.provision(&mut Session::new(&sh)).unwrap();
    let launch = sh.first_containing("qmp").expect("launched");
    assert!(launch.contains("-kernel '/img/unikraft'"));
    assert!(launch.contains("-append 'netdev.ip=...'"));
    assert!(!launch.contains("virtio-blk-pci"));
}

#[test]
fn unikernel_hostfwd_adds_user_networking() {
    let mut with = unikernel_target(
        &config(&[("image", "/i"), ("hostfwd", "tcp::18080-:8080")]),
        &vars(&[]),
        false, 7);
    let sh = FakeShell::new();
    with.provision(&mut Session::new(&sh)).unwrap();
    let launch = sh.first_containing("qmp").expect("launched");
    assert!(launch.contains("hostfwd=tcp::18080-:8080"));
    assert!(launch.contains("virtio-net-pci"));

    // No hostfwd => no networking flags.
    let mut without = unikernel_target(&config(&[("image", "/i")]), &vars(&[]), false, 7);
    let sh2 = FakeShell::new();
    without.provision(&mut Session::new(&sh2)).unwrap();
    assert!(!sh2.first_containing("qmp").unwrap().contains("netdev"));
}

#[test]
fn unikernel_default_socket_carries_the_instance_index() {
    let v = vars(&[("instance", "2")]);
    let mut t = unikernel_target(&config(&[("image", "/i")]), &v, false, 7);
    let sh = FakeShell::new();
    t.provision(&mut Session::new(&sh)).unwrap();
    assert!(sh.seen.borrow().iter().any(|c| c.contains("-2.sock")));
}

#[test]
fn unikernel_pinning_is_rejected_for_now() {
    let mut t = unikernel_target(&config(&[("image", "/i")]), &vars(&[]), true, 7);
    let sh = FakeShell::new();
    t.provision(&mut Session::new(&sh)).unwrap();
    assert!(t.reach_steady(&mut Session::new(&sh)).unwrap_err().contains("pin_threads"));
}

#[test]
fn firecracker_pre_restore_runs_before_load_not_in_span() {
    let cfg = config(&[
        ("from_snapshot", "/s/snap"),
        ("mem_file", "/s/mem"),
        ("pre_restore", "warm-the-working-set"),
    ]);
    let mut t = firecracker_target(&cfg, &vars(&[]), false, 7, 1);
    let sh = FakeShell::new();
    t.provision(&mut Session::new(&sh)).unwrap();

    let seen = sh.seen.borrow();
    let warm = seen.iter().position(|c| c.contains("warm-the-working-set"));
    let load = seen.iter().position(|c| c.contains("/snapshot/load"));
    assert!(warm.is_some() && load.is_some(), "both ran");
    assert!(warm < load, "prewarm runs before the load");
    // The prewarm is outside the timed span: only the load is a span.
    let spans = t.spans(&mut Session::new(&sh)).unwrap();
    assert_eq!(spans.len(), 1);
    assert_eq!(text(&spans[0], &["name"]), "restore.resume_to_steady");
}

#[test]
fn firecracker_launches_in_a_wiped_scratch_cwd() {
    // A vsock-bearing snapshot binds a relative host uds; each restore must
    // run in a fresh, wiped cwd so a leftover socket cannot collide.
    let cfg = config(&[("kernel", "/k/vmlinux"), ("rootfs", "/r/rootfs")]);
    let mut t = firecracker_target(&cfg, &vars(&[]), false, 7, 1);
    let sh = FakeShell::new();
    t.provision(&mut Session::new(&sh)).unwrap();
    let launch = sh.first_containing("--api-sock").expect("launch ran");
    assert!(launch.contains("rm -rf \"$wd\""), "scratch cwd is wiped: {launch}");
    assert!(launch.contains("cd \"$wd\""), "fc runs in scratch cwd: {launch}");

    t.teardown(&mut Session::new(&sh)).unwrap();
    assert!(sh.saw(".sock.d"), "teardown removes the scratch dir");
}

#[test]
fn firecracker_snapshot_out_pauses_creates_resumes() {
    let cfg = config(&[
        ("kernel", "/k/vmlinux"),
        ("rootfs", "/k/rootfs.ext4"),
        ("snapshot_out", "/s/snap"),
        ("snapshot_mem", "/s/mem"),
    ]);
    let mut t = firecracker_target(&cfg, &vars(&[]), false, 7, 1);
    let sh = FakeShell::new();

    t.provision(&mut Session::new(&sh)).unwrap();
    t.start(&mut Session::new(&sh)).unwrap();
    t.reach_steady(&mut Session::new(&sh)).unwrap();

    assert!(sh.saw("\"state\":\"Paused\""));
    assert!(sh.saw("/snapshot/create"));
    assert!(sh.saw("\"state\":\"Resumed\""));

    let names: Vec<String> =
        t.spans(&mut Session::new(&sh)).unwrap().iter().map(|s| text(s, &["name"]).to_string()).collect();
    assert!(names.contains(&"boot.vmm_ready".to_string()));
    assert!(names.contains(&"snapshot.create".to_string()));
}

#[test]
fn firecracker_pins_vcpu_threads_and_records_layout() {
    let cfg = config(&[
        ("kernel", "/k/vmlinux"),
        ("rootfs", "/k/rootfs.ext4"),
        ("api_sock", "/tmp/p.sock"),
    ]);
    let mut t = firecracker_target(&cfg, &vars(&[("vcpu", "2")]), true, 7, 1);
    // The pin command reads the launch pidfile and tasksets threads; the
    // fake returns the layout it "applied".
    let sh = FakeShell::new().reply("taskset", r#"{"vcpu0":0,"vcpu1":1}"#);

    t.provision(&mut Session::new(&sh)).unwrap();
    t.start(&mut Session::new(&sh)).unwrap();
    t.reach_steady(&mut Session::new(&sh)).unwrap();

    assert!(sh.saw("taskset"));
    assert!(sh.saw("/tmp/p.sock.pid"));
    assert!(sh.saw("fc_vcpu"));
    assert!(t.pinning_layout().unwrap().same(&doc(r#"{"vcpu0": 0, "vcpu1": 1}"#)));
}

#[test]
fn firecracker_cpu_base_offsets_the_pinning() {
    // A concurrent instance is given a cpu_base so its vCPUs pin above the
    // earlier instances' CPUs instead of colliding on CPU 0.
    let cfg = config(&[("kernel", "/k/v"), ("rootfs", "/k/r")]);
    let mut t = firecracker_target(&cfg, &vars(&[("vcpu", "2"), ("cpu_base", "4")]), true, 7, 1);
    let sh = FakeShell::new().reply("taskset", r#"{"vcpu0":4,"vcpu1":5}"#);
    t.provision(&mut Session::new(&sh)).unwrap();
    t.start(&mut Session::new(&sh)).unwrap();
    t.reach_steady(&mut Session::new(&sh)).unwrap();
    assert!(sh.saw("base=4"), "pin command carries the cpu base");
    assert!(t.pinning_layout().unwrap().same(&doc(r#"{"vcpu0": 4, "vcpu1": 5}"#)));
}

#[test]
fn firecracker_no_pin_records_no_layout() {
    let cfg = config(&[("kernel", "/k/v"), ("rootfs", "/k/r")]);
    let mut t = firecracker_target(&cfg, &vars(&[]), false, 7, 1);
    let sh = FakeShell::new();
    t.provision(&mut Session::new(&sh)).unwrap();
    t.start(&mut Session::new(&sh)).unwrap();
    t.reach_steady(&mut Session::new(&sh)).unwrap();
    assert!(!sh.saw("taskset"));
    assert!(t.pinning_layout().is_none());
}

#[test]
fn firecracker_pin_with_no_vcpu_threads_errors() {
    let cfg = config(&[("kernel", "/k/v"), ("rootfs", "/k/r")]);
    let mut t = firecracker_target(&cfg, &vars(&[]), true, 7, 1);
    // No vcpu threads found -> pin command prints an empty object.
    let sh = FakeShell::new().reply("taskset", "{}");
    t.provision(&mut Session::new(&sh)).unwrap();
    t.start(&mut Session::new(&sh)).unwrap();
    assert!(t.reach_steady(&mut Session::new(&sh)).is_err());
}

#[test]
fn firecracker_teardown_kills_by_pidfile_not_cmdline() {
    let mut t = firecracker_target(&config(&[("api_sock", "/tmp/x.sock")]), &vars(&[]), false, 7, 1);
    let sh = FakeShell::new();
    t.teardown(&mut Session::new(&sh)).unwrap();
    // Kills by the recorded pid and cleans up; must NOT match on the
    // command line (that would SIGTERM the shell running the command).
    assert!(sh.saw("/tmp/x.sock.pid"));
    assert!(sh.saw("kill"));
    assert!(sh.saw("rm -rf '/tmp/x.sock'"));
    assert!(!sh.saw("pkill"));
}

#[test]
fn fio_start_builds_command_and_reports_summary() {
    let out = r#"{
        "fio version": "fio-3.36",
        "jobs": [{
            "jobname": "assayist",
            "read": {"iops": 25600.5, "bw": 102400,
                     "clat_ns": {"mean": 3000.0, "percentile": {"99.000000": 9000}}},
            "write": {"iops": 0.0, "bw": 0,
                      "clat_ns": {"mean": 0.0, "percentile": {"99.000000": 0}}}
        }]
    }"#;
    let cfg = config(&[
        ("filename", "/dev/{dev}"),
        ("rw", "randread"),
        ("bs", "8k"),
    ]);
    let mut w = fio_workload(&cfg, &vars(&[("dev", "nvme0n1")]));
    let sh = FakeShell::new().reply("--output-format=json", out);

    w.start(&mut Session::new(&sh)).unwrap();
    w.stop(&mut Session::new(&sh)).unwrap();

    assert!(sh.saw("--filename=/dev/nvme0n1")); // param rendered
    assert!(sh.saw("--bs=8k"));
    assert!(sh.saw("--rw=randread"));

    let rep = w.report(&mut Session::new(&sh)).unwrap();
    assert_eq!(text(&rep, &["driver"]), "fio");
    assert_eq!(text(&rep, &["fio_version"]), "fio-3.36");
    assert_eq!(float(&rep, &["read", "iops"]), 25600.5);
    assert_eq!(num(&rep, &["read", "bw_kb_s"]), Some(102400));
    assert_eq!(float(&rep, &["read", "clat_ns_mean"]), 3000.0);
    assert_eq!(num(&rep, &["read", "clat_ns_p99"]), Some(9000));
}

#[test]
fn fio_report_is_null_before_a_run() {
    let w = fio_workload(&config(&[]), &vars(&[]));
    let sh = FakeShell::new();
    assert!(w.report(&mut Session::new(&sh)).unwrap().is_null());
}

#[test]
fn fio_version_falls_back_when_unavailable() {
    let w = fio_workload(&config(&[]), &vars(&[]));
    // FakeShell returns empty string (never errors), so version_token yields "".
    let sh = FakeShell::new().reply("--version", "fio-3.36");
    assert_eq!(w.version(&mut Session::new(&sh)), "fio-3.36");
}

#[test]
fn wrk_start_builds_command_and_reports_summary() {
    let out = "Running 10s test @ http://127.0.0.1:8080/\n\
         \x20 2 threads and 10 connections\n\
         \x20 Thread Stats   Avg      Stdev     Max   +/- Stdev\n\
         \x20   Latency     1.23ms    0.45ms   10.50ms   80.00%\n\
         \x20   Req/Sec     4.10k     0.50k     5.00k    75.00%\n\
         \x20 Latency Distribution\n\
         \x20    50%    1.10ms\n\
         \x20 81234 requests in 10.00s, 12.34MB read\n\
         Requests/sec:   8123.40\n\
         Transfer/sec:      1.23MB\n";
    let cfg = config(&[
        ("url", "http://{host}:8080/"),
        ("threads", "4"),
        ("connections", "100"),
        ("duration", "5"),
    ]);
    let mut w = wrk_workload(&cfg, &vars(&[("host", "10.0.0.5")]));
    // Reply keyed on a substring of the wrk command line (the rendered url).
    let sh = FakeShell::new().reply("http://10.0.0.5:8080/", out);

    w.start(&mut Session::new(&sh)).unwrap();
    w.stop(&mut Session::new(&sh)).unwrap();

    assert!(sh.saw("-t4"));
    assert!(sh.saw("-c100"));
    assert!(sh.saw("-d5s"));
    assert!(sh.saw("http://10.0.0.5:8080/")); // param rendered

    let rep = w.report(&mut Session::new(&sh)).unwrap();
    assert_eq!(text(&rep, &["driver"]), "wrk");
    assert_eq!(float(&rep, &["requests_per_sec"]), 8123.40);
    assert_eq!(text(&rep, &["transfer_per_sec"]), "1.23MB");
    assert_eq!(text(&rep, &["latency_avg"]), "1.23ms");
    assert_eq!(text(&rep, &["latency_max"]), "10.50ms");
    assert_eq!(num(&rep, &["total_requests"]), Some(81234));
}

#[test]
fn wrk_report_is_null_before_a_run() {
    let w = wrk_workload(&config(&[("url", "http://x/")]), &vars(&[]));
    let sh = FakeShell::new();
    assert!(w.report(&mut Session::new(&sh)).unwrap().is_null());
}

#[test]
fn wrk_rate_and_script_are_optional_flags() {
    let mut base = wrk_workload(&config(&[("url", "http://x/")]), &vars(&[]));
    let sh = FakeShell::new();
    base.start(&mut Session::new(&sh)).unwrap();
    assert!(!sh.saw("-R"));
    assert!(!sh.saw("-s"));

    let mut withopts = wrk_workload(
        &config(&[("url", "http://x/"), ("rate", "2000"), ("script", "/s.lua")]),
        &vars(&[]),
    );
    let sh2 = FakeShell::new();
    withopts.start(&mut Session::new(&sh2)).unwrap();
    assert!(sh2.saw("-R2000"));
    assert!(sh2.saw("-s/s.lua"));
}

#[test]
fn vsock_summary_reports_percentiles_and_average() {
    // 10 samples 1000..10000 ns.
    let lat: Vec<u128> = (1..=10).map(|i| i as u128 * 1000).collect();
    let r = vsock_summary(&lat, 2, 12);
    assert_eq!(num(&r, &["invocations"]), Some(10));
    assert_eq!(num(&r, &["requested"]), Some(12));
    assert_eq!(num(&r, &["errors"]), Some(2));
    assert_eq!(num(&r, &["latency_avg_ns"]), Some(5500));
    assert_eq!(num(&r, &["latency_max_ns"]), Some(10000));
    assert_eq!(num(&r, &["latency_p50_ns"]), Some(6000)); // nearest-rank idx round(0.5*9)=5 -> 6000
    assert_eq!(num(&r, &["latency_p99_ns"]), Some(10000));
}

#[test]
fn vsock_summary_with_no_samples_is_zero() {
    let r = vsock_summary(&vec![], 5, 5);
    assert_eq!(num(&r, &["invocations"]), Some(0));
    assert_eq!(num(&r, &["errors"]), Some(5));
    assert!(r.get("latency_avg_ns").is_none());
}

#[test]
fn vsock_start_without_uds_is_an_error() {
    let mut w = vsock_workload(&config(&[("port", "5252")]), &vars(&[]));
    let err = w.begin(1).unwrap_err();
    assert!(err.contains("uds"), "{err}");
}

fn fc_config() -> Object {
    config(&[("kernel", "/k/vmlinux"), ("rootfs", "/k/rootfs.ext4")])
}

#[test]
fn firecracker_without_network_creates_no_tap() {
    // The default is unchanged behaviour: no tap, nothing to attribute.
    let sh = FakeShell::new();
    let mut target = firecracker_target(&fc_config(), &vars(&[]), false, 7, 1);
    target.provision(&mut Session::new(&sh)).unwrap();
    assert!(!sh.saw("/network-interfaces"));
    assert!(!sh.saw("ip tuntap add"));
    assert!(target.net_attribution().is_empty());
}

#[test]
fn firecracker_with_tap_networking_creates_configures_and_reports_it() {
    let sh = FakeShell::new().reply("/sys/class/net/", "7\n");
    let cfg = fc_config_with_tap();
    let v = vars(&[("instance", "2")]);
    let mut target = firecracker_target(&cfg, &v, false, 7, 1);
    target.provision(&mut Session::new(&sh)).unwrap();

    // Tap created and brought up before the API call that references it.
    assert!(sh.saw("ip tuntap add"), "tap must be created");
    assert!(sh.saw("ip link set"), "tap must be brought up");
    // Firecracker told about the device, with the deterministic mac.
    assert!(sh.saw("/network-interfaces"));
    assert!(sh.saw("host_dev_name"));
    assert!(sh.saw("02:00:00:00:00:02"), "guest mac derives from the instance");

    let attrib = target.net_attribution().pop().expect("tap networking reports attribution");
    assert_eq!(attrib.guest_mac, "02:00:00:00:00:02");
    assert!(attrib.tap.contains('2'), "tap name carries the instance: {}", attrib.tap);
}

#[test]
fn firecracker_teardown_deletes_the_tap() {
    // provision's own tap command already contains a guard `ip tuntap del`
    // (it clears a possible stale device before `add`), so a bare
    // `sh.saw("ip tuntap del")` after teardown would pass even if teardown
    // issued no delete at all. Count occurrences instead: teardown must add
    // exactly one more over what provision already left behind.
    let sh = FakeShell::new().reply("/sys/class/net/", "7\n");
    let cfg = fc_config_with_tap();
    let mut target = firecracker_target(&cfg, &vars(&[]), false, 7, 1);
    target.provision(&mut Session::new(&sh)).unwrap();

    let before = sh.seen.borrow().iter().filter(|c| c.contains("ip tuntap del")).count();
    target.teardown(&mut Session::new(&sh)).unwrap();
    let after = sh.seen.borrow().iter().filter(|c| c.contains("ip tuntap del")).count();
    assert_eq!(after, before + 1, "teardown must issue its own tap delete, not just reuse provision's guard delete");
}

#[test]
fn firecracker_instances_get_their_own_tap() {
    let one = firecracker_target(&fc_config_with_tap(), &vars(&[("instance", "1")]), false, 7, 1);
    let two = firecracker_target(&fc_config_with_tap(), &vars(&[("instance", "2")]), false, 7, 1);
    let tap = |mut t: assayist::firecracker::FirecrackerTarget| {
        let sh = FakeShell::new().reply("/sys/class/net/", "7\n");
        t.provision(&mut Session::new(&sh)).unwrap();
        t.net_attribution().pop().unwrap().tap
    };
    assert_ne!(tap(one), tap(two));
}

#[test]
fn vsock_speaks_the_handshake() {
    assert_eq!(connect_line(5252), "CONNECT 5252\n");
    assert!(handshake(5252, "OK 1073741824\n").is_ok());
    assert!(handshake(5252, "").is_err());
    assert!(handshake(5252, "NO\n").is_err());
}

#[test]
fn vsock_invokes_as_often_as_asked() {
    let cfg = config(&[("uds", "/v.sock"), ("port", "5252"), ("invocations", "3")]);
    let mut w = vsock_workload(&cfg, &vars(&[]));
    assert_eq!(w.begin(0), Ok(Turn::Invoke));
    // The guest may still be booting: the first one is retried.
    assert_eq!(w.invoked(Err("not yet".to_string()), 1), Ok(Turn::Pause));
    assert_eq!(w.invoked(Ok(100), 2), Ok(Turn::Invoke));
    assert_eq!(w.invoked(Err("lost".to_string()), 3), Ok(Turn::Invoke));
    assert_eq!(w.invoked(Ok(300), 4), Ok(Turn::Over));
    assert_eq!(w.latencies_ns, vec![100, 300]);
    assert_eq!(w.errors, 1);
    let r = vsock_summary(&w.latencies_ns, w.errors, w.invocations);
    assert_eq!(num(&r, &["latency_avg_ns"]), Some(200));
}

#[test]
fn vsock_gives_up_on_the_first_invocation_in_time() {
    let cfg = config(&[("uds", "/v.sock"), ("timeout_ms", "1")]);
    let mut w = vsock_workload(&cfg, &vars(&[]));
    assert_eq!(w.begin(0), Ok(Turn::Invoke));
    assert!(w.invoked(Err("dead".to_string()), 60_000_000_000_000).is_err());
}
