//! The firecracker microVM target: cold boot, snapshot and restore.
use crate::adapter::{
    self, Answer, Ask, Event, Machine, NetAttribution, Phase, Session, Step, Target,
};
use crate::commands;
use crate::json::{self, Doc, Json, Object};
use crate::native::{self, optional, setting, var_or_setting};
use crate::netattrib;
use crate::parse;
use crate::table::Table;
use crate::text;
use vstd::prelude::*;

verus! {

/// A firecracker microVM.
///
/// It boots cold, or with `from_snapshot` set it restores a snapshot. With
/// `snapshot_out` set it takes a snapshot once it is steady.
#[derive(Debug)]
pub struct FirecrackerTarget {
    pub bin: String,
    pub sock: String,
    pub vcpu: String,
    pub mem_mib: String,
    pub smt: bool,
    pub kernel: String,
    pub rootfs: String,
    pub boot_args: String,
    /// The snapshot and its memory file to restore.
    pub from_snapshot: Option<(String, String)>,
    /// The snapshot and its memory file to write at steady state.
    pub snapshot_out: Option<(String, String)>,
    pub readiness: Option<String>,
    /// Run before a restore, outside its span: it sets the state of the page
    /// cache that the restore starts from.
    pub pre_restore: Option<String>,
    /// Whether guest memory is served by a userfaultfd handler rather than
    /// mapped from the memory file.
    pub uffd: bool,
    /// Launches that handler, with `{uffd_uds}` and `{mem_file}` put in.
    pub uffd_handler: Option<String>,
    /// Where the memory file is streamed from, through a mount of its own.
    pub stream_source: Option<String>,
    pub stream_bin: String,
    pub stream_wsmeta: String,
    /// Whether the working set is fetched into the mount before the restore.
    pub stream_prefetch: bool,
    pub stream_dir: String,
    pub pin_threads: bool,
    /// The processor that the first virtual processor is pinned to.
    pub cpu_base: u32,
    /// The host tap, where the machine has a network.
    pub tap: Option<String>,
    pub guest_mac: String,
    pub tap_ifindex: Option<u32>,
    pub recorded: Vec<Doc>,
    pub pinning: Option<Doc>,
}

/// The view of a pair of paths.
pub open spec fn pair(o: Option<(String, String)>) -> Option<(Seq<char>, Seq<char>)> {
    match o {
        Some(p) => Some((p.0@, p.1@)),
        None => None,
    }
}

/// A snapshot and its memory file, where the snapshot is set.
pub open spec fn snapshot_setting(
    config: Seq<(Seq<char>, Json)>,
    vars: Seq<(Seq<char>, Seq<char>)>,
    snap: Seq<char>,
    mem: Seq<char>,
) -> Option<(Seq<char>, Seq<char>)> {
    if json::lookup(config, snap) is Some {
        Some((setting(config, vars, snap, ""@), setting(config, vars, mem, ""@)))
    } else {
        None
    }
}

fn snapshot_cfg(config: &Object, vars: &Table<String>, snap: &str, mem: &str) -> (r: Option<
    (String, String),
>)
    ensures
        pair(r) == snapshot_setting(config@, vars@, snap@, mem@),
{
    if config.get(snap).is_some() {
        Some((native::cfg(config, vars, snap, ""), native::cfg(config, vars, mem, "")))
    } else {
        None
    }
}

/// The number of an instance: zero for a lone one.
pub open spec fn instance_number(vars: Seq<(Seq<char>, Seq<char>)>) -> u64 {
    match json::lookup(vars, "instance"@) {
        Some(s) => match text::unsigned(s, u64::MAX as nat) {
            Some(n) => n as u64,
            None => 0,
        },
        None => 0,
    }
}

fn instance_of(vars: &Table<String>) -> (r: u64)
    ensures
        r == instance_number(vars@),
{
    match vars.get("instance") {
        Some(s) => match text::parse_unsigned(s, u64::MAX) {
            Some(n) => n,
            None => 0,
        },
        None => 0,
    }
}

/// The first processor that an instance may use.
pub open spec fn first_cpu(vars: Seq<(Seq<char>, Seq<char>)>) -> u32 {
    match json::lookup(vars, "cpu_base"@) {
        Some(s) => match text::unsigned(s, u32::MAX as nat) {
            Some(n) => n as u32,
            None => 0,
        },
        None => 0,
    }
}

fn cpu_base_of(vars: &Table<String>) -> (r: u32)
    ensures
        r == first_cpu(vars@),
{
    match vars.get("cpu_base") {
        Some(s) => match text::parse_unsigned(s, 0xffff_ffff) {
            Some(n) => n as u32,
            None => 0,
        },
        None => 0,
    }
}

/// The name of an instance's tap.
pub open spec fn tap_name(process: u32, instance: u64) -> Seq<char> {
    "asy"@ + text::decimal((process % 100000) as nat) + "-"@ + text::decimal(instance as nat)
}

/// Instances of one process have taps of different names.
pub proof fn law_taps_differ(process: u32, i: u64, j: u64)
    requires
        i != j,
    ensures
        tap_name(process, i) != tap_name(process, j),
{
    let head = "asy"@ + text::decimal((process % 100000) as nat) + "-"@;
    let a = tap_name(process, i);
    let b = tap_name(process, j);
    assert(a.skip(head.len() as int) =~= text::decimal(i as nat));
    assert(b.skip(head.len() as int) =~= text::decimal(j as nat));
    text::lemma_decimal(i as nat);
    text::lemma_decimal(j as nat);
}

/// A source that is set and not blank.
pub open spec fn unblank(o: Option<Seq<char>>) -> Option<Seq<char>> {
    match o {
        Some(s) => if text::trimmed(s).len() > 0 {
            Some(s)
        } else {
            None
        },
        None => None,
    }
}

fn unblank_text(o: Option<String>) -> (r: Option<String>)
    ensures
        text::opt_text(r) == unblank(text::opt_text(o)),
{
    match o {
        Some(s) => {
            let t = text::trim(&s);
            if t.as_str().is_empty() {
                None
            } else {
                Some(s)
            }
        },
        None => None,
    }
}

pub open spec fn is_smt(s: Seq<char>) -> bool {
    s == "true"@ || s == "on"@ || s == "1"@
}

pub open spec fn is_prefetch(s: Seq<char>) -> bool {
    s == "stream"@ || s == "true"@ || s == "on"@
}

/// Whether a target is what its settings say, in a process and at a time.
pub open spec fn configured(
    t: FirecrackerTarget,
    config: Seq<(Seq<char>, Json)>,
    vars: Seq<(Seq<char>, Seq<char>)>,
    pin_threads: bool,
    process: u32,
    nonce: u64,
) -> bool {
    &&& t.bin@ == setting(config, vars, "bin"@, "firecracker"@)
    &&& t.sock@ == setting(
        config,
        vars,
        "api_sock"@,
        native::default_socket("fc"@, process, vars),
    )
    &&& t.vcpu@ == var_or_setting(config, vars, "vcpu"@, "1"@)
    &&& t.mem_mib@ == var_or_setting(config, vars, "mem_mib"@, "128"@)
    &&& t.smt == is_smt(setting(config, vars, "smt"@, "false"@))
    &&& t.kernel@ == setting(config, vars, "kernel"@, ""@)
    &&& t.rootfs@ == setting(config, vars, "rootfs"@, ""@)
    &&& t.boot_args@ == setting(config, vars, "boot_args"@, "console=ttyS0 reboot=k panic=1"@)
    &&& pair(t.from_snapshot) == snapshot_setting(config, vars, "from_snapshot"@, "mem_file"@)
    &&& pair(t.snapshot_out) == snapshot_setting(config, vars, "snapshot_out"@, "snapshot_mem"@)
    &&& text::opt_text(t.readiness) == optional(config, vars, "readiness"@)
    &&& text::opt_text(t.pre_restore) == optional(config, vars, "pre_restore"@)
    &&& t.uffd == (text::lowercase(setting(config, vars, "mem_backend"@, "File"@)) == "uffd"@)
    &&& text::opt_text(t.uffd_handler) == optional(config, vars, "uffd_handler"@)
    &&& text::opt_text(t.stream_source) == unblank(optional(config, vars, "stream_source"@))
    &&& t.stream_bin@ == setting(config, vars, "stream_bin"@, "bpfoliod"@)
    &&& t.stream_wsmeta@ == setting(config, vars, "stream_wsmeta"@, ""@)
    &&& t.stream_prefetch == is_prefetch(
        text::lowercase(setting(config, vars, "stream_prefetch"@, "false"@)),
    )
    &&& t.stream_dir@ == t.sock@ + ".stream."@ + text::decimal(nonce as nat)
    &&& t.pin_threads == pin_threads
    &&& t.cpu_base == first_cpu(vars)
    &&& text::opt_text(t.tap) == (if text::lowercase(setting(config, vars, "network"@, ""@))
        == "tap"@ {
        Some(tap_name(process, instance_number(vars)))
    } else {
        None
    })
    &&& t.guest_mac@ == netattrib::guest_mac(instance_number(vars))
    &&& t.tap_ifindex is None
    &&& t.recorded@.len() == 0
    &&& t.pinning is None
}

/// The firecracker target of a definition's settings. The mount of a streamed
/// memory file is named after the time, so that no path is mounted twice.
pub fn firecracker_target(
    config: &Object,
    vars: &Table<String>,
    pin_threads: bool,
    process: u32,
    nonce: u64,
) -> (r: FirecrackerTarget)
    ensures
        configured(r, config@, vars@, pin_threads, process, nonce),
{
    let smt = native::cfg(config, vars, "smt", "false");
    let smt_on = text::same(&smt, "true") || text::same(&smt, "on") || text::same(&smt, "1");
    let sock = native::cfg(
        config,
        vars,
        "api_sock",
        &native::socket_for("fc", process, vars),
    );
    let backend = text::lower(&native::cfg(config, vars, "mem_backend", "File"));
    let prefetch = text::lower(&native::cfg(config, vars, "stream_prefetch", "false"));
    let prefetch_on = text::same(&prefetch, "stream") || text::same(&prefetch, "true")
        || text::same(&prefetch, "on");
    let mut stream_dir = text::join2(&sock, ".stream.");
    stream_dir.append(&text::dec(nonce));
    let instance: u64 = instance_of(vars);
    let network = text::lower(&native::cfg(config, vars, "network", ""));
    let tap = if text::same(&network, "tap") {
        let mut name = text::join2("asy", &text::dec((process % 100000) as u64));
        name.append("-");
        name.append(&text::dec(instance));
        Some(name)
    } else {
        None
    };
    FirecrackerTarget {
        bin: native::cfg(config, vars, "bin", "firecracker"),
        sock,
        vcpu: native::var_or_cfg(config, vars, "vcpu", "1"),
        mem_mib: native::var_or_cfg(config, vars, "mem_mib", "128"),
        smt: smt_on,
        kernel: native::cfg(config, vars, "kernel", ""),
        rootfs: native::cfg(config, vars, "rootfs", ""),
        boot_args: native::cfg(config, vars, "boot_args", "console=ttyS0 reboot=k panic=1"),
        from_snapshot: snapshot_cfg(config, vars, "from_snapshot", "mem_file"),
        snapshot_out: snapshot_cfg(config, vars, "snapshot_out", "snapshot_mem"),
        readiness: native::cfg_opt(config, vars, "readiness"),
        pre_restore: native::cfg_opt(config, vars, "pre_restore"),
        uffd: text::same(&backend, "uffd"),
        uffd_handler: native::cfg_opt(config, vars, "uffd_handler"),
        stream_source: unblank_text(native::cfg_opt(config, vars, "stream_source")),
        stream_bin: native::cfg(config, vars, "stream_bin", "bpfoliod"),
        stream_wsmeta: native::cfg(config, vars, "stream_wsmeta", ""),
        stream_prefetch: prefetch_on,
        stream_dir,
        pin_threads,
        cpu_base: cpu_base_of(vars),
        tap,
        guest_mac: netattrib::guest_mac_for(instance),
        tap_ifindex: None,
        recorded: Vec::new(),
        pinning: None,
    }
}

// ---------------------------------------------------------------------------
// Plans
// ---------------------------------------------------------------------------

impl FirecrackerTarget {
    /// A request to the machine.
    pub open spec fn call(self, method: Seq<char>, path: Seq<char>, body: Seq<char>) -> Ask {
        Ask::Command(commands::api_text(self.sock@, method, path, body))
    }

    fn request(&self, method: &str, path: &str, body: &str) -> (r: String)
        ensures
            Ask::Command(r@) == self.call(method@, path@, body@),
    {
        commands::api(&self.sock, method, path, body)
    }

    pub open spec fn launched(self) -> Ask {
        Ask::Command(commands::firecracker_launch_text(self.sock@, self.bin@))
    }

    /// The socket that guest memory is served through.
    pub open spec fn uffd_socket(self) -> Seq<char> {
        self.sock@ + ".uffd"@
    }

    fn uffd_uds(&self) -> (r: String)
        ensures
            r@ == self.uffd_socket(),
    {
        text::join2(&self.sock, ".uffd")
    }

    /// What a restore does before its memory backend is chosen: launch, mount
    /// what is streamed, set the page cache, fetch the working set.
    pub open spec fn restore_prelude(self, mem: Seq<char>) -> Seq<Ask> {
        seq![self.launched()] + (match self.stream_source {
            Some(s) => seq![
                Ask::Command(
                    commands::stream_launch_text(self.stream_dir@, self.stream_bin@, s@, mem),
                ),
            ],
            None => Seq::empty(),
        }) + native::optional_step(self.pre_restore) + (match self.stream_source {
            Some(s) => if self.stream_prefetch {
                seq![
                    Ask::Command(
                        commands::stream_warm_text(
                            self.stream_bin@,
                            s@,
                            self.stream_dir@,
                            self.stream_wsmeta@,
                        ),
                    ),
                ]
            } else {
                Seq::empty()
            },
            None => Seq::empty(),
        })
    }

    fn plan_restore_prelude(&self, mem: &str) -> (r: Vec<Step>)
        ensures
            adapter::asks(r@) == self.restore_prelude(mem@),
    {
        let mut plan: Vec<Step> = Vec::new();
        assert(adapter::asks(plan@) =~= Seq::empty());
        native::push_command(&mut plan, commands::firecracker_launch(&self.sock, &self.bin));
        if let Some(s) = &self.stream_source {
            native::push_command(
                &mut plan,
                commands::stream_launch(&self.stream_dir, &self.stream_bin, s, mem),
            );
        }
        native::push_given(&mut plan, &self.pre_restore);
        if let Some(s) = &self.stream_source {
            if self.stream_prefetch {
                native::push_command(
                    &mut plan,
                    commands::stream_warm(
                        &self.stream_bin,
                        s,
                        &self.stream_dir,
                        &self.stream_wsmeta,
                    ),
                );
            }
        }
        assert(adapter::asks(plan@) =~= self.restore_prelude(mem@));
        plan
    }

    /// Whether a handler is needed to serve guest memory and none is given.
    pub open spec fn lacks_handler(self) -> bool {
        self.uffd && native::command_in(self.uffd_handler) is None
    }

    /// The memory backend of a restore.
    pub open spec fn backend(self, mem: Seq<char>) -> Json {
        if self.uffd {
            json::fields().text("backend_type"@, "Uffd"@).text(
                "backend_path"@,
                self.uffd_socket(),
            ).json()
        } else {
            json::fields().text("backend_type"@, "File"@).text(
                "backend_path"@,
                if self.stream_source is Some {
                    self.stream_dir@ + "/mem"@
                } else {
                    mem
                },
            ).json()
        }
    }

    fn backend_doc(&self, mem: &str) -> (r: Doc)
        ensures
            r@ == self.backend(mem@),
    {
        if self.uffd {
            Doc::Object(
                Object::new().text("backend_type", "Uffd").text("backend_path", &self.uffd_uds()),
            )
        } else {
            let path = match &self.stream_source {
                Some(_) => text::join2(&self.stream_dir, "/mem"),
                None => mem.to_owned(),
            };
            Doc::Object(Object::new().text("backend_type", "File").text("backend_path", &path))
        }
    }

    /// The request that loads a snapshot and resumes its machine.
    pub open spec fn load_body(self, snap: Seq<char>, mem: Seq<char>) -> Seq<char> {
        json::text_of(
            json::fields().text("snapshot_path"@, snap).with("mem_backend"@, self.backend(mem)).with(
                "resume_vm"@,
                Json::Bool(true),
            ).json(),
        )
    }

    /// The handler's command, with its variables put in.
    pub open spec fn handler_text(self, handler: Seq<char>, mem: Seq<char>) -> Seq<char> {
        adapter::rendered(
            handler,
            json::put(
                json::put(
                    Seq::<(Seq<char>, Seq<char>)>::empty(),
                    "uffd_uds"@,
                    self.uffd_socket(),
                ),
                "mem_file"@,
                mem,
            ),
        )
    }

    /// A restore: its prelude, the memory handler where there is one, and the
    /// load that is timed.
    pub open spec fn restore_plan(self, snap: Seq<char>, mem: Seq<char>) -> Seq<Ask> {
        self.restore_prelude(mem) + (if self.uffd {
            seq![
                Ask::Command(
                    commands::uffd_launch_text(
                        self.handler_text(native::command_in(self.uffd_handler)->0, mem),
                        self.uffd_socket(),
                    ),
                ),
            ]
        } else {
            Seq::empty()
        }) + native::timed(
            commands::api_text(self.sock@, "PUT"@, "/snapshot/load"@, self.load_body(snap, mem)),
        )
    }

    fn plan_restore(&self, snap: &str, mem: &str) -> (r: Vec<Step>)
        requires
            !self.lacks_handler(),
        ensures
            adapter::asks(r@) == self.restore_plan(snap@, mem@),
    {
        let mut plan = self.plan_restore_prelude(mem);
        if self.uffd {
            if let Some(h) = native::given(&self.uffd_handler) {
                let uds = self.uffd_uds();
                let vars: Table<String> = Table::new().with("uffd_uds", uds.clone()).with(
                    "mem_file",
                    mem.to_owned(),
                );
                native::push_command(
                    &mut plan,
                    commands::uffd_launch(&adapter::render(h, &vars), &uds),
                );
            }
        }
        let body = Doc::Object(
            Object::new().text("snapshot_path", snap).with(
                "mem_backend",
                self.backend_doc(mem),
            ).with("resume_vm", Doc::Bool(true)),
        ).to_text();
        native::push_timed(&mut plan, self.request("PUT", "/snapshot/load", &body));
        assert(adapter::asks(plan@) =~= self.restore_plan(snap@, mem@));
        plan
    }

    /// The machine that a cold boot configures.
    pub open spec fn machine_body(self) -> Seq<char> {
        json::text_of(
            json::fields().with(
                "vcpu_count"@,
                Json::Int(number_or(self.vcpu@, 1) as int),
            ).with("mem_size_mib"@, Json::Int(number_or(self.mem_mib@, 128) as int)).with(
                "smt"@,
                Json::Bool(self.smt),
            ).json(),
        )
    }

    pub open spec fn boot_body(self) -> Seq<char> {
        json::text_of(
            json::fields().text("kernel_image_path"@, self.kernel@).text(
                "boot_args"@,
                self.boot_args@,
            ).json(),
        )
    }

    pub open spec fn drive_body(self) -> Seq<char> {
        json::text_of(
            json::fields().text("drive_id"@, "rootfs"@).text("path_on_host"@, self.rootfs@).with(
                "is_root_device"@,
                Json::Bool(true),
            ).with("is_read_only"@, Json::Bool(false)).json(),
        )
    }

    pub open spec fn interface_body(self, tap: Seq<char>) -> Seq<char> {
        json::text_of(
            json::fields().text("iface_id"@, "eth0"@).text("host_dev_name"@, tap).text(
                "guest_mac"@,
                self.guest_mac@,
            ).json(),
        )
    }

    /// A cold boot: launch, configure, and where the machine has a network,
    /// create its tap and read the tap's index.
    pub open spec fn boot_plan(self) -> Seq<Ask> {
        seq![
            self.launched(),
            self.call("PUT"@, "/machine-config"@, self.machine_body()),
            self.call("PUT"@, "/boot-source"@, self.boot_body()),
            self.call("PUT"@, "/drives/rootfs"@, self.drive_body()),
        ] + (match self.tap {
            Some(t) => seq![
                Ask::Command(commands::tap_add_text(t@)),
                Ask::Command(commands::tap_index_text(t@)),
            ],
            None => Seq::empty(),
        })
    }

    fn plan_boot(&self) -> (r: Vec<Step>)
        ensures
            adapter::asks(r@) == self.boot_plan(),
    {
        let mut plan: Vec<Step> = Vec::new();
        assert(adapter::asks(plan@) =~= Seq::empty());
        native::push_command(&mut plan, commands::firecracker_launch(&self.sock, &self.bin));
        let machine = Doc::Object(
            Object::new().with("vcpu_count", json::uint(number_else(&self.vcpu, 1))).with(
                "mem_size_mib",
                json::uint(number_else(&self.mem_mib, 128)),
            ).with("smt", Doc::Bool(self.smt)),
        ).to_text();
        native::push_command(&mut plan, self.request("PUT", "/machine-config", &machine));
        let boot = Doc::Object(
            Object::new().text("kernel_image_path", &self.kernel).text(
                "boot_args",
                &self.boot_args,
            ),
        ).to_text();
        native::push_command(&mut plan, self.request("PUT", "/boot-source", &boot));
        let drive = Doc::Object(
            Object::new().text("drive_id", "rootfs").text("path_on_host", &self.rootfs).with(
                "is_root_device",
                Doc::Bool(true),
            ).with("is_read_only", Doc::Bool(false)),
        ).to_text();
        native::push_command(&mut plan, self.request("PUT", "/drives/rootfs", &drive));
        if let Some(t) = &self.tap {
            native::push_command(&mut plan, commands::tap_add(t));
            native::push_command(&mut plan, commands::tap_index(t));
        }
        assert(adapter::asks(plan@) =~= self.boot_plan());
        plan
    }
}

/// A number, or a default where a text holds none.
pub open spec fn number_or(s: Seq<char>, default: u64) -> u64 {
    match text::unsigned(s, u64::MAX as nat) {
        Some(n) => n as u64,
        None => default,
    }
}

fn number_else(s: &str, default: u64) -> (r: u64)
    ensures
        r == number_or(s@, default),
{
    match text::parse_unsigned(s, u64::MAX) {
        Some(n) => n,
        None => default,
    }
}

// ---------------------------------------------------------------------------
// The target
// ---------------------------------------------------------------------------

/// Whether a target records one more span and is otherwise as it was.
pub open spec fn with_span(
    a: FirecrackerTarget,
    b: FirecrackerTarget,
    name: Seq<char>,
    start: u64,
    end: u64,
) -> bool {
    &&& b == (FirecrackerTarget { recorded: b.recorded, ..a })
    &&& json::jsons(b.recorded@) == json::jsons(a.recorded@).push(
        native::span_json(name, start, end),
    )
}

/// Whether a timed plan went through, the command that is timed being its last,
/// and a span was recorded where it did.
pub open spec fn timed_plan(
    a: FirecrackerTarget,
    b: FirecrackerTarget,
    name: Seq<char>,
    plan: Seq<Ask>,
    l0: Seq<Event>,
    l1: Seq<Event>,
    r: Result<(), Seq<char>>,
) -> bool {
    let es = adapter::since(l0, l1);
    let n = plan.len() as int;
    &&& native::went(plan, l0, l1, r)
    &&& match r {
        Ok(()) => with_span(a, b, name, native::time_at(es, n - 3), native::time_at(es, n - 1)),
        Err(_) => b == a,
    }
}

/// The index that a tap's file says.
pub open spec fn index_said(tap: Seq<char>, log: Seq<Event>) -> Result<u32, Seq<char>> {
    match log.last() {
        Event::Ran(_, Ok(s)) => match text::unsigned(text::trimmed(s), u32::MAX as nat) {
            Some(n) => Ok(n as u32),
            None => Err(
                "parsing tap '"@ + tap + "' ifindex '"@ + text::trimmed(s) + "': "@
                    + text::u32_refusal(text::trimmed(s)),
            ),
        },
        _ => Err(Seq::empty()),
    }
}

/// Whether a booted machine was given its network: `mid` is the log once the
/// tap's index was read.
pub open spec fn networked(
    a: FirecrackerTarget,
    b: FirecrackerTarget,
    tap: Seq<char>,
    mid: Seq<Event>,
    l1: Seq<Event>,
    r: Result<(), Seq<char>>,
) -> bool {
    match index_said(tap, mid) {
        Err(e) => r == Err::<(), Seq<char>>(e) && l1 == mid && b == a,
        Ok(i) => b == (FirecrackerTarget { tap_ifindex: Some(i), ..a }) && native::did(
            commands::api_text(
                a.sock@,
                "PUT"@,
                "/network-interfaces/eth0"@,
                a.interface_body(tap),
            ),
            mid,
            l1,
            r,
        ),
    }
}

/// Whether a target was provisioned.
pub open spec fn provisioned(
    a: FirecrackerTarget,
    b: FirecrackerTarget,
    l0: Seq<Event>,
    l1: Seq<Event>,
    r: Result<(), Seq<char>>,
) -> bool {
    match (pair(a.from_snapshot), a.tap) {
        (Some((snap, mem)), _) => if a.lacks_handler() {
            b == a && match r {
                Ok(()) => false,
                Err(e) => native::went(a.restore_prelude(mem), l0, l1, r) || (e
                    == "mem_backend: uffd needs a uffd_handler command"@ && native::went(
                    a.restore_prelude(mem),
                    l0,
                    l1,
                    Ok(()),
                )),
            }
        } else {
            timed_plan(
                a,
                b,
                "restore.resume_to_steady"@,
                a.restore_plan(snap, mem),
                l0,
                l1,
                r,
            )
        },
        (None, None) => b == a && native::went(a.boot_plan(), l0, l1, r),
        (None, Some(t)) => (r is Err && b == a && native::went(a.boot_plan(), l0, l1, r))
            || exists|mid: Seq<Event>| #[trigger]
            native::went(a.boot_plan(), l0, mid, Ok(())) && networked(a, b, t@, mid, l1, r),
    }
}

/// The layout that a pinning command printed: an object that is not empty.
pub open spec fn layout_said(out: Seq<char>) -> Result<Json, Seq<char>> {
    let t = text::trimmed(out);
    match parse::parsed(t) {
        Err(e) => Err("parsing pinning layout '"@ + t + "': "@ + e),
        Ok(j) => match j {
            Json::Obj(m) => if m.len() > 0 {
                Ok(j)
            } else {
                Err("pin_threads requested but no fc_vcpu threads were pinned"@)
            },
            _ => Err("pin_threads requested but no fc_vcpu threads were pinned"@),
        },
    }
}

impl FirecrackerTarget {
    /// What is run before anything is read: the readiness probe, and the command
    /// that pins.
    pub open spec fn steady_plan(self) -> Seq<Ask> {
        native::optional_step(self.readiness) + (if self.pin_threads {
            seq![
                Ask::Command(
                    commands::pin_text(self.sock@, text::decimal(self.cpu_base as nat)),
                ),
            ]
        } else {
            Seq::empty()
        })
    }

    /// Pause, and create a snapshot, which is timed.
    pub open spec fn snapshot_plan(self, snap: Seq<char>, mem: Seq<char>) -> Seq<Ask> {
        seq![self.call("PATCH"@, "/vm"@, "{\"state\":\"Paused\"}"@)] + native::timed(
            commands::api_text(
                self.sock@,
                "PUT"@,
                "/snapshot/create"@,
                json::text_of(
                    json::fields().text("snapshot_type"@, "Full"@).text(
                        "snapshot_path"@,
                        snap,
                    ).text("mem_file_path"@, mem).json(),
                ),
            ),
        )
    }
}

/// Whether a snapshot was taken and the machine resumed. The span of the
/// snapshot stays even where the machine does not resume.
pub open spec fn snapshotted(
    a: FirecrackerTarget,
    b: FirecrackerTarget,
    snap: Seq<char>,
    mem: Seq<char>,
    l0: Seq<Event>,
    l1: Seq<Event>,
    r: Result<(), Seq<char>>,
) -> bool {
    (r is Err && timed_plan(
        a,
        b,
        "snapshot.create"@,
        a.snapshot_plan(snap, mem),
        l0,
        l1,
        r,
    )) || exists|mid: Seq<Event>| #[trigger]
        timed_plan(a, b, "snapshot.create"@, a.snapshot_plan(snap, mem), l0, mid, Ok(()))
            && native::did(
            commands::api_text(a.sock@, "PATCH"@, "/vm"@, "{\"state\":\"Resumed\"}"@),
            mid,
            l1,
            r,
        )
}

/// Whether a target that was steady was snapshotted, where that is asked for.
pub open spec fn maybe_snapshotted(
    a: FirecrackerTarget,
    b: FirecrackerTarget,
    l0: Seq<Event>,
    l1: Seq<Event>,
    r: Result<(), Seq<char>>,
) -> bool {
    match pair(a.snapshot_out) {
        None => r == Ok::<(), Seq<char>>(()) && l1 == l0 && b == a,
        Some((snap, mem)) => snapshotted(a, b, snap, mem, l0, l1, r),
    }
}

/// Whether a target's threads were pinned, `mid` being the log once the command
/// that pins was run, and what follows was done.
pub open spec fn pinned_then(
    a: FirecrackerTarget,
    b: FirecrackerTarget,
    mid: Seq<Event>,
    l1: Seq<Event>,
    r: Result<(), Seq<char>>,
) -> bool {
    match mid.last() {
        Event::Ran(_, Ok(out)) => match layout_said(out) {
            Err(e) => r == Err::<(), Seq<char>>(e) && l1 == mid && b == a,
            Ok(l) => json::opt_json(b.pinning) == Some(l) && maybe_snapshotted(
                FirecrackerTarget { pinning: b.pinning, ..a },
                b,
                mid,
                l1,
                r,
            ),
        },
        _ => false,
    }
}

/// Whether a target was brought to steady.
pub open spec fn steadied(
    a: FirecrackerTarget,
    b: FirecrackerTarget,
    l0: Seq<Event>,
    l1: Seq<Event>,
    r: Result<(), Seq<char>>,
) -> bool {
    (r is Err && b == a && native::went(a.steady_plan(), l0, l1, r)) || exists|mid: Seq<Event>|
        #[trigger]
        native::went(a.steady_plan(), l0, mid, Ok(())) && if a.pin_threads {
            pinned_then(a, b, mid, l1, r)
        } else {
            maybe_snapshotted(a, b, mid, l1, r)
        }
}

/// Whether a target was torn down: a tap that cannot be deleted is no failure.
pub open spec fn torn_down(
    a: FirecrackerTarget,
    l0: Seq<Event>,
    l1: Seq<Event>,
    r: Result<(), Seq<char>>,
) -> bool {
    let cmd = commands::firecracker_teardown_text(a.sock@, a.uffd_socket(), a.stream_dir@);
    match (r, a.tap) {
        (Ok(()), Some(t)) => exists|mid: Seq<Event>, x: Result<(), Seq<char>>|
            native::did(cmd, l0, mid, Ok(())) && #[trigger] native::did(
                commands::tap_del_text(t@),
                mid,
                l1,
                x,
            ),
        _ => native::did(cmd, l0, l1, r),
    }
}

fn last_text(answers: &Vec<Answer>) -> (r: String)
    requires
        answers@.len() > 0,
    ensures
        answers@.last() matches Answer::Text(t) ==> r@ == t@,
{
    match &answers[answers.len() - 1] {
        Answer::Text(t) => t.clone(),
        Answer::Time(_) => String::new(),
    }
}

impl FirecrackerTarget {
    /// Perform a plan whose last command is timed, and record its span.
    fn perform_timed<M: Machine>(
        &mut self,
        sh: &mut Session<M>,
        name: &str,
        plan: &Vec<Step>,
    ) -> (r: Result<(), String>)
        requires
            plan@.len() >= 3,
            adapter::asks(plan@)[plan@.len() - 3] is Clock,
            adapter::asks(plan@)[plan@.len() - 1] is Clock,
        ensures
            timed_plan(
                *old(self),
                *final(self),
                name@,
                adapter::asks(plan@),
                old(sh).log(),
                final(sh).log(),
                adapter::outcome(r),
            ),
    {
        let ghost l0 = sh.log();
        match adapter::perform(sh, plan) {
            Ok(answers) => {
                let n: usize = answers.len();
                let ghost es = adapter::since(l0, sh.log());
                proof {
                    let ps = adapter::asks(plan@);
                    assert(adapter::taken(ps[n - 3], es[n - 3]));
                    assert(adapter::taken(ps[n - 1], es[n - 1]));
                    assert(adapter::gave(es[n - 3], answers@[n - 3]));
                    assert(adapter::gave(es[n - 1], answers@[n - 1]));
                }
                let start: u64 = native::answered_time(&answers, n - 3);
                let end: u64 = native::answered_time(&answers, n - 1);
                native::record(&mut self.recorded, name, start, end);
                Ok(())
            },
            Err(e) => Err(e),
        }
    }

    fn boot<M: Machine>(&mut self, sh: &mut Session<M>) -> (r: Result<(), String>)
        requires
            old(self).from_snapshot is None,
        ensures
            provisioned(
                *old(self),
                *final(self),
                old(sh).log(),
                final(sh).log(),
                adapter::outcome(r),
            ),
    {
        let ghost l0 = sh.log();
        let plan = self.plan_boot();
        let answers = match adapter::perform(sh, &plan) {
            Ok(a) => a,
            Err(e) => {
                return Err(e);
            },
        };
        let tap = match &self.tap {
            Some(t) => t.clone(),
            None => {
                return Ok(());
            },
        };
        let ghost mid = sh.log();
        proof {
            let n = plan@.len() as int;
            let es = adapter::since(l0, mid);
            assert(adapter::asks(plan@).len() == n);
            assert(n == 6);
            assert(adapter::taken(adapter::asks(plan@)[n - 1], es[n - 1]));
            assert(adapter::gave(es[n - 1], answers@[n - 1]));
            assert(mid.last() == es[n - 1]);
            assert(native::went(self.boot_plan(), l0, mid, Ok(())));
        }
        let out = last_text(&answers);
        let idx = text::trim(&out);
        match text::parse_unsigned(&idx, 0xffff_ffff) {
            Some(i) => {
                self.tap_ifindex = Some(i as u32);
            },
            None => {
                let mut m = text::join2("parsing tap '", &tap);
                m.append("' ifindex '");
                m.append(&idx);
                m.append("': ");
                m.append(&text::u32_error(&idx));
                assert(networked(
                    *old(self),
                    *self,
                    tap@,
                    mid,
                    sh.log(),
                    Err::<(), Seq<char>>(m@),
                ));
                return Err(m);
            },
        }
        let body = Doc::Object(
            Object::new().text("iface_id", "eth0").text("host_dev_name", &tap).text(
                "guest_mac",
                &self.guest_mac,
            ),
        ).to_text();
        let cmd = self.request("PUT", "/network-interfaces/eth0", &body);
        let r = native::run_for_effect(sh, &cmd);
        assert(networked(*old(self), *self, tap@, mid, sh.log(), adapter::outcome(r)));
        r
    }

    fn snapshot<M: Machine>(&mut self, sh: &mut Session<M>) -> (r: Result<(), String>)
        ensures
            maybe_snapshotted(
                *old(self),
                *final(self),
                old(sh).log(),
                final(sh).log(),
                adapter::outcome(r),
            ),
    {
        let ghost l0 = sh.log();
        let (snap, mem) = match &self.snapshot_out {
            Some((s, m)) => (s.clone(), m.clone()),
            None => {
                return Ok(());
            },
        };
        let mut plan: Vec<Step> = Vec::new();
        assert(adapter::asks(plan@) =~= Seq::empty());
        native::push_command(
            &mut plan,
            self.request("PATCH", "/vm", "{\"state\":\"Paused\"}"),
        );
        let body = Doc::Object(
            Object::new().text("snapshot_type", "Full").text("snapshot_path", &snap).text(
                "mem_file_path",
                &mem,
            ),
        ).to_text();
        native::push_timed(&mut plan, self.request("PUT", "/snapshot/create", &body));
        assert(adapter::asks(plan@) =~= self.snapshot_plan(snap@, mem@));
        assert(adapter::asks(plan@).len() == plan@.len());
        match self.perform_timed(sh, "snapshot.create", &plan) {
            Ok(()) => {},
            Err(e) => {
                return Err(e);
            },
        }
        let ghost mid = sh.log();
        assert(timed_plan(
            *old(self),
            *self,
            "snapshot.create"@,
            old(self).snapshot_plan(snap@, mem@),
            l0,
            mid,
            Ok(()),
        ));
        let cmd = self.request("PATCH", "/vm", "{\"state\":\"Resumed\"}");
        native::run_for_effect(sh, &cmd)
    }
}

impl Target for FirecrackerTarget {
    open spec fn did(
        phase: Phase,
        pre: Self,
        post: Self,
        old_log: Seq<Event>,
        log: Seq<Event>,
        r: Result<(), Seq<char>>,
    ) -> bool {
        match phase {
            Phase::Provision => provisioned(pre, post, old_log, log, r),
            // A restored machine is running already.
            Phase::Start => if pre.from_snapshot is Some {
                post == pre && log == old_log && r == Ok::<(), Seq<char>>(())
            } else {
                timed_plan(
                    pre,
                    post,
                    "boot.vmm_ready"@,
                    native::timed(
                        commands::api_text(
                            pre.sock@,
                            "PUT"@,
                            "/actions"@,
                            "{\"action_type\":\"InstanceStart\"}"@,
                        ),
                    ),
                    old_log,
                    log,
                    r,
                )
            },
            Phase::Steady => steadied(pre, post, old_log, log, r),
            Phase::Teardown => post == pre && torn_down(pre, old_log, log, r),
        }
    }

    open spec fn spanned(
        self,
        old_log: Seq<Event>,
        log: Seq<Event>,
        r: Result<Seq<Json>, Seq<char>>,
    ) -> bool {
        log == old_log && r == Ok::<Seq<Json>, Seq<char>>(json::jsons(self.recorded@))
    }

    open spec fn told(self, old_log: Seq<Event>, log: Seq<Event>, version: Seq<char>) -> bool {
        native::version_asked(commands::version_text(self.bin@), "firecracker"@, old_log, log, version)
    }

    fn version<M: Machine>(&self, sh: &mut Session<M>) -> String {
        native::ask_version(sh, &commands::version(&self.bin), "firecracker")
    }

    fn provision<M: Machine>(&mut self, sh: &mut Session<M>) -> Result<(), String> {
        let (snap, mem) = match &self.from_snapshot {
            Some((s, m)) => (s.clone(), m.clone()),
            None => {
                return self.boot(sh);
            },
        };
        if self.uffd && native::given(&self.uffd_handler).is_none() {
            let plan = self.plan_restore_prelude(&mem);
            return match adapter::perform(sh, &plan) {
                Ok(_) => Err("mem_backend: uffd needs a uffd_handler command".to_owned()),
                Err(e) => Err(e),
            };
        }
        let plan = self.plan_restore(&snap, &mem);
        assert(adapter::asks(plan@).len() == plan@.len());
        self.perform_timed(sh, "restore.resume_to_steady", &plan)
    }

    /// Start the machine. A restored one is running already.
    fn start<M: Machine>(&mut self, sh: &mut Session<M>) -> Result<(), String> {
        if self.from_snapshot.is_some() {
            return Ok(());
        }
        let mut plan: Vec<Step> = Vec::new();
        assert(adapter::asks(plan@) =~= Seq::empty());
        let cmd = self.request("PUT", "/actions", "{\"action_type\":\"InstanceStart\"}");
        native::push_timed(&mut plan, cmd);
        assert(adapter::asks(plan@) =~= native::timed(cmd@));
        assert(adapter::asks(plan@).len() == plan@.len());
        self.perform_timed(sh, "boot.vmm_ready", &plan)
    }

    fn reach_steady<M: Machine>(&mut self, sh: &mut Session<M>) -> Result<(), String> {
        let ghost l0 = sh.log();
        let mut plan: Vec<Step> = Vec::new();
        assert(adapter::asks(plan@) =~= Seq::empty());
        native::push_given(&mut plan, &self.readiness);
        if self.pin_threads {
            native::push_command(
                &mut plan,
                commands::pin(&self.sock, &text::dec(self.cpu_base as u64)),
            );
        }
        assert(adapter::asks(plan@) =~= self.steady_plan());
        let answers = match adapter::perform(sh, &plan) {
            Ok(a) => a,
            Err(e) => {
                return Err(e);
            },
        };
        let ghost mid = sh.log();
        assert(native::went(self.steady_plan(), l0, mid, Ok(())));
        if !self.pin_threads {
            return self.snapshot(sh);
        }
        proof {
            let n = plan@.len() as int;
            let es = adapter::since(l0, mid);
            assert(adapter::asks(plan@).len() == n);
            assert(adapter::taken(adapter::asks(plan@)[n - 1], es[n - 1]));
            assert(adapter::gave(es[n - 1], answers@[n - 1]));
            assert(mid.last() == es[n - 1]);
        }
        let out = last_text(&answers);
        let t = text::trim(&out);
        let layout = match parse::read(&t) {
            Ok(l) => l,
            Err(e) => {
                let mut m = text::join2("parsing pinning layout '", &t);
                m.append("': ");
                m.append(&e);
                assert(pinned_then(*old(self), *self, mid, sh.log(), Err::<(), Seq<char>>(m@)));
                return Err(m);
            },
        };
        let some = match &layout {
            Doc::Object(m) => m.len() > 0,
            _ => false,
        };
        if !some {
            let m = "pin_threads requested but no fc_vcpu threads were pinned".to_owned();
            assert(pinned_then(*old(self), *self, mid, sh.log(), Err::<(), Seq<char>>(m@)));
            return Err(m);
        }
        self.pinning = Some(layout);
        let ghost pinned = *self;
        let r = self.snapshot(sh);
        proof {
            assert(self.pinning == pinned.pinning);
            assert(pinned_then(*old(self), *self, mid, sh.log(), adapter::outcome(r)));
        }
        r
    }

    fn spans<M: Machine>(&self, sh: &mut Session<M>) -> Result<Vec<Doc>, String> {
        Ok(json::copy_values(&self.recorded))
    }

    fn teardown<M: Machine>(&mut self, sh: &mut Session<M>) -> Result<(), String> {
        let cmd = commands::firecracker_teardown(&self.sock, &self.uffd_uds(), &self.stream_dir);
        match native::run_for_effect(sh, &cmd) {
            Ok(()) => {},
            Err(e) => {
                return Err(e);
            },
        }
        if let Some(t) = &self.tap {
            let _ = native::run_for_effect(sh, &commands::tap_del(t));
        }
        Ok(())
    }

    fn pinning_layout(&self) -> (r: Option<Doc>)
        ensures
            json::opt_json(r) == json::opt_json(self.pinning),
    {
        json::copy_opt(&self.pinning)
    }

    /// The memory file of a restore. A cold boot has none.
    fn resident_files(&self) -> (r: Vec<(String, String)>)
        ensures
            match pair(self.from_snapshot) {
                Some((_, mem)) => if mem.len() > 0 {
                    r@.len() == 1 && r@[0].0@.len() == 0 && r@[0].1@ == mem
                } else {
                    r@.len() == 0
                },
                None => r@.len() == 0,
            },
    {
        let mut out: Vec<(String, String)> = Vec::new();
        if let Some((_, mem)) = &self.from_snapshot {
            if !mem.as_str().is_empty() {
                out.push((String::new(), mem.clone()));
            }
        }
        out
    }

    /// The tap of the machine, once its index is known.
    fn net_attribution(&self) -> (r: Vec<NetAttribution>)
        ensures
            match (self.tap, self.tap_ifindex) {
                (Some(t), Some(i)) => r@.len() == 1 && r@[0].tap@ == t@ && r@[0].ifindex == i
                    && r@[0].guest_mac@ == self.guest_mac@ && r@[0].netns_inum == 0,
                _ => r@.len() == 0,
            },
    {
        let mut out: Vec<NetAttribution> = Vec::new();
        if let Some(t) = &self.tap {
            if let Some(i) = self.tap_ifindex {
                out.push(
                    NetAttribution {
                        tap: t.clone(),
                        ifindex: i,
                        guest_mac: self.guest_mac.clone(),
                        netns_inum: 0,
                    },
                );
            }
        }
        out
    }
}

} // verus!
