//! Full machines booted cold: QEMU, Cloud Hypervisor and unikernels.
//!
//! Each launches its monitor with a control socket and times it up to that
//! socket appearing: the monitor is initialised and about to run the guest.
use crate::adapter::{self, Event, Machine, NetAttribution, Phase, Session, Step, Target};
use crate::commands;
use crate::json::{self, Doc, Json, Object};
use crate::native::{self, optional, setting, var_or_setting};
use crate::parse;
use crate::table::Table;
use crate::text;
use vstd::prelude::*;

verus! {

// ---------------------------------------------------------------------------
// What they share
// ---------------------------------------------------------------------------

/// Whether a machine was launched and the time it took recorded as a span.
pub open spec fn launched(
    cmd: Seq<char>,
    s0: Seq<Json>,
    s1: Seq<Json>,
    l0: Seq<Event>,
    l1: Seq<Event>,
    r: Result<(), Seq<char>>,
) -> bool {
    let es = adapter::since(l0, l1);
    &&& native::went(native::timed(cmd), l0, l1, r)
    &&& match r {
        Ok(()) => s1 == s0.push(
            native::span_json("boot.vmm_ready"@, native::time_at(es, 0), native::time_at(es, 2)),
        ),
        Err(_) => s1 == s0,
    }
}

fn launch<M: Machine>(spans: &mut Vec<Doc>, sh: &mut Session<M>, cmd: String) -> (r: Result<
    (),
    String,
>)
    ensures
        launched(
            cmd@,
            json::jsons(old(spans)@),
            json::jsons(final(spans)@),
            old(sh).log(),
            final(sh).log(),
            adapter::outcome(r),
        ),
        r is Err ==> *final(spans) == *old(spans),
{
    let ghost l0 = sh.log();
    let ghost c = cmd@;
    let mut plan: Vec<Step> = Vec::new();
    assert(adapter::asks(plan@) =~= Seq::empty());
    native::push_timed(&mut plan, cmd);
    assert(adapter::asks(plan@) =~= native::timed(c));
    assert(adapter::asks(plan@).len() == plan@.len());
    match adapter::perform(sh, &plan) {
        Ok(answers) => {
            proof {
                let es = adapter::since(l0, sh.log());
                let ps = adapter::asks(plan@);
                assert(adapter::taken(ps[0], es[0]));
                assert(adapter::taken(ps[2], es[2]));
                assert(adapter::gave(es[0], answers@[0]));
                assert(adapter::gave(es[2], answers@[2]));
            }
            let start: u64 = native::answered_time(&answers, 0);
            let end: u64 = native::answered_time(&answers, 2);
            native::record(spans, "boot.vmm_ready", start, end);
            Ok(())
        },
        Err(e) => Err(e),
    }
}

/// Whether a machine was brought to steady: pinning is refused, and a readiness
/// probe is run where one is given.
pub open spec fn steadied(
    pin_threads: bool,
    refusal: Seq<char>,
    readiness: Option<String>,
    l0: Seq<Event>,
    l1: Seq<Event>,
    r: Result<(), Seq<char>>,
) -> bool {
    if pin_threads {
        r == Err::<(), Seq<char>>(refusal) && l1 == l0
    } else {
        match native::command_in(readiness) {
            Some(c) => native::did(c, l0, l1, r),
            None => r == Ok::<(), Seq<char>>(()) && l1 == l0,
        }
    }
}

fn steady<M: Machine>(
    pin_threads: bool,
    refusal: &str,
    readiness: &Option<String>,
    sh: &mut Session<M>,
) -> (r: Result<(), String>)
    ensures
        steadied(
            pin_threads,
            refusal@,
            *readiness,
            old(sh).log(),
            final(sh).log(),
            adapter::outcome(r),
        ),
{
    if pin_threads {
        return Err(refusal.to_owned());
    }
    match native::given(readiness) {
        Some(c) => native::run_for_effect(sh, c),
        None => Ok(()),
    }
}

// ---------------------------------------------------------------------------
// QEMU
// ---------------------------------------------------------------------------

/// A QEMU machine.
#[derive(Debug)]
pub struct QemuTarget {
    pub bin: String,
    pub sock: String,
    pub vcpu: String,
    pub mem_mib: String,
    pub kernel: String,
    pub rootfs: String,
    pub boot_args: String,
    pub more: String,
    pub readiness: Option<String>,
    pub pin_threads: bool,
    pub recorded: Vec<Doc>,
}

/// Build the target of a definition's settings.
pub fn qemu_target(config: &Object, vars: &Table<String>, pin_threads: bool, process: u32) -> (r: QemuTarget)
    ensures
        r.bin@ == setting(config@, vars@, "bin"@, "qemu-system-x86_64"@),
        r.sock@ == setting(
            config@,
            vars@,
            "qmp_sock"@,
            native::default_socket("qemu"@, process, vars@),
        ),
        r.vcpu@ == var_or_setting(config@, vars@, "vcpu"@, "1"@),
        r.mem_mib@ == var_or_setting(config@, vars@, "mem_mib"@, "128"@),
        r.kernel@ == setting(config@, vars@, "kernel"@, ""@),
        r.rootfs@ == setting(config@, vars@, "rootfs"@, ""@),
        r.boot_args@ == setting(config@, vars@, "boot_args"@, "console=ttyS0 reboot=k panic=1 root=/dev/vda ro"@),
        r.more@ == setting(config@, vars@, "extra_args"@, ""@),
        text::opt_text(r.readiness) == optional(config@, vars@, "readiness"@),
        r.pin_threads == pin_threads,
        r.recorded@.len() == 0,
{
    let sock = native::cfg(
        config,
        vars,
        "qmp_sock",
        &native::socket_for("qemu", process, vars),
    );
    QemuTarget {
        bin: native::cfg(config, vars, "bin", "qemu-system-x86_64"),
        sock,
        vcpu: native::var_or_cfg(config, vars, "vcpu", "1"),
        mem_mib: native::var_or_cfg(config, vars, "mem_mib", "128"),
        kernel: native::cfg(config, vars, "kernel", ""),
        rootfs: native::cfg(config, vars, "rootfs", ""),
        boot_args: native::cfg(config, vars, "boot_args", "console=ttyS0 reboot=k panic=1 root=/dev/vda ro"),
        more: native::cfg(config, vars, "extra_args", ""),
        readiness: native::cfg_opt(config, vars, "readiness"),
        pin_threads,
        recorded: Vec::new(),
    }
}

impl QemuTarget {
    /// The command that launches it.
    pub open spec fn launch_text(self) -> Seq<char> {
        commands::qemu_launch_text(
            self.sock@,
            self.bin@,
            self.mem_mib@,
            self.vcpu@,
            self.kernel@,
            self.boot_args@,
            self.rootfs@,
            self.more@,
        )
    }

    fn launch_cmd(&self) -> (r: String)
        ensures
            r@ == self.launch_text(),
    {
        commands::qemu_launch(
            &self.sock,
            &self.bin,
            &self.mem_mib,
            &self.vcpu,
            &self.kernel,
            &self.boot_args,
            &self.rootfs,
            &self.more,
        )
    }
}

impl Target for QemuTarget {
    open spec fn did(
        phase: Phase,
        pre: Self,
        post: Self,
        old_log: Seq<Event>,
        log: Seq<Event>,
        r: Result<(), Seq<char>>,
    ) -> bool {
        match phase {
            Phase::Provision => post == (QemuTarget { recorded: post.recorded, ..pre }) && launched(
                pre.launch_text(),
                json::jsons(pre.recorded@),
                json::jsons(post.recorded@),
                old_log,
                log,
                r,
            ),
            Phase::Start => post == pre && log == old_log && r == Ok::<(), Seq<char>>(()),
            Phase::Steady => post == pre && steadied(
                pre.pin_threads,
                "pin_threads is not supported for the qemu target yet"@,
                pre.readiness,
                old_log,
                log,
                r,
            ),
            Phase::Teardown => post == pre && native::did(
                commands::qemu_teardown_text(pre.sock@),
                old_log,
                log,
                r,
            ),
        }
    }

    open spec fn spanned(
        self,
        old_log: Seq<Event>,
        log: Seq<Event>,
        r: Result<Seq<Json>, Seq<char>>,
    ) -> bool {
        log == old_log && r == Ok::<Seq<Json>, Seq<char>>(json::jsons(self.recorded@))
    }

    open spec fn told(self, old_log: Seq<Event>, log: Seq<Event>, version: Seq<char>) -> bool {
        native::version_asked(commands::version_text(self.bin@), "qemu"@, old_log, log, version)
    }

    fn version<M: Machine>(&self, sh: &mut Session<M>) -> String {
        native::ask_version(sh, &commands::version(&self.bin), "qemu")
    }

    fn provision<M: Machine>(&mut self, sh: &mut Session<M>) -> Result<(), String> {
        let cmd = self.launch_cmd();
        launch(&mut self.recorded, sh, cmd)
    }

    /// The guest boots at launch: there is nothing to start.
    fn start<M: Machine>(&mut self, sh: &mut Session<M>) -> Result<(), String> {
        Ok(())
    }

    fn reach_steady<M: Machine>(&mut self, sh: &mut Session<M>) -> Result<(), String> {
        steady(self.pin_threads, "pin_threads is not supported for the qemu target yet", &self.readiness, sh)
    }

    fn spans<M: Machine>(&self, sh: &mut Session<M>) -> Result<Vec<Doc>, String> {
        Ok(json::copy_values(&self.recorded))
    }

    fn teardown<M: Machine>(&mut self, sh: &mut Session<M>) -> Result<(), String> {
        native::run_for_effect(sh, &commands::qemu_teardown(&self.sock))
    }

    fn pinning_layout(&self) -> (r: Option<Doc>)
        ensures
            r is None,
    {
        None
    }

    fn resident_files(&self) -> (r: Vec<(String, String)>)
        ensures
            r@.len() == 0,
    {
        Vec::new()
    }

    fn net_attribution(&self) -> (r: Vec<NetAttribution>)
        ensures
            r@.len() == 0,
    {
        Vec::new()
    }
}

// ---------------------------------------------------------------------------
// Cloud Hypervisor
// ---------------------------------------------------------------------------

/// A Cloud Hypervisor machine.
#[derive(Debug)]
pub struct CloudHypervisorTarget {
    pub bin: String,
    pub sock: String,
    pub vcpu: String,
    pub mem_mib: String,
    pub kernel: String,
    pub rootfs: String,
    pub cmdline: String,
    pub more: String,
    pub readiness: Option<String>,
    pub pin_threads: bool,
    pub recorded: Vec<Doc>,
}

/// Build the target of a definition's settings.
pub fn ch_target(config: &Object, vars: &Table<String>, pin_threads: bool, process: u32) -> (r: CloudHypervisorTarget)
    ensures
        r.bin@ == setting(config@, vars@, "bin"@, "cloud-hypervisor"@),
        r.sock@ == setting(
            config@,
            vars@,
            "api_sock"@,
            native::default_socket("chv"@, process, vars@),
        ),
        r.vcpu@ == var_or_setting(config@, vars@, "vcpu"@, "1"@),
        r.mem_mib@ == var_or_setting(config@, vars@, "mem_mib"@, "128"@),
        r.kernel@ == setting(config@, vars@, "kernel"@, ""@),
        r.rootfs@ == setting(config@, vars@, "rootfs"@, ""@),
        r.cmdline@ == setting(config@, vars@, "cmdline"@, "console=ttyS0 reboot=k panic=1 root=/dev/vda ro"@),
        r.more@ == setting(config@, vars@, "extra_args"@, ""@),
        text::opt_text(r.readiness) == optional(config@, vars@, "readiness"@),
        r.pin_threads == pin_threads,
        r.recorded@.len() == 0,
{
    let sock = native::cfg(
        config,
        vars,
        "api_sock",
        &native::socket_for("chv", process, vars),
    );
    CloudHypervisorTarget {
        bin: native::cfg(config, vars, "bin", "cloud-hypervisor"),
        sock,
        vcpu: native::var_or_cfg(config, vars, "vcpu", "1"),
        mem_mib: native::var_or_cfg(config, vars, "mem_mib", "128"),
        kernel: native::cfg(config, vars, "kernel", ""),
        rootfs: native::cfg(config, vars, "rootfs", ""),
        cmdline: native::cfg(config, vars, "cmdline", "console=ttyS0 reboot=k panic=1 root=/dev/vda ro"),
        more: native::cfg(config, vars, "extra_args", ""),
        readiness: native::cfg_opt(config, vars, "readiness"),
        pin_threads,
        recorded: Vec::new(),
    }
}

impl CloudHypervisorTarget {
    /// The command that launches it.
    pub open spec fn launch_text(self) -> Seq<char> {
        commands::ch_launch_text(
            self.sock@,
            self.bin@,
            self.kernel@,
            self.cmdline@,
            self.rootfs@,
            self.vcpu@,
            self.mem_mib@,
            self.more@,
        )
    }

    fn launch_cmd(&self) -> (r: String)
        ensures
            r@ == self.launch_text(),
    {
        commands::ch_launch(
            &self.sock,
            &self.bin,
            &self.kernel,
            &self.cmdline,
            &self.rootfs,
            &self.vcpu,
            &self.mem_mib,
            &self.more,
        )
    }
}

impl Target for CloudHypervisorTarget {
    open spec fn did(
        phase: Phase,
        pre: Self,
        post: Self,
        old_log: Seq<Event>,
        log: Seq<Event>,
        r: Result<(), Seq<char>>,
    ) -> bool {
        match phase {
            Phase::Provision => post == (CloudHypervisorTarget { recorded: post.recorded, ..pre }) && launched(
                pre.launch_text(),
                json::jsons(pre.recorded@),
                json::jsons(post.recorded@),
                old_log,
                log,
                r,
            ),
            Phase::Start => post == pre && log == old_log && r == Ok::<(), Seq<char>>(()),
            Phase::Steady => post == pre && steadied(
                pre.pin_threads,
                "pin_threads is not supported for the cloud-hypervisor target yet"@,
                pre.readiness,
                old_log,
                log,
                r,
            ),
            Phase::Teardown => post == pre && native::did(
                commands::ch_teardown_text(pre.sock@),
                old_log,
                log,
                r,
            ),
        }
    }

    open spec fn spanned(
        self,
        old_log: Seq<Event>,
        log: Seq<Event>,
        r: Result<Seq<Json>, Seq<char>>,
    ) -> bool {
        log == old_log && r == Ok::<Seq<Json>, Seq<char>>(json::jsons(self.recorded@))
    }

    open spec fn told(self, old_log: Seq<Event>, log: Seq<Event>, version: Seq<char>) -> bool {
        native::version_asked(commands::version_text(self.bin@), "cloud-hypervisor"@, old_log, log, version)
    }

    fn version<M: Machine>(&self, sh: &mut Session<M>) -> String {
        native::ask_version(sh, &commands::version(&self.bin), "cloud-hypervisor")
    }

    fn provision<M: Machine>(&mut self, sh: &mut Session<M>) -> Result<(), String> {
        let cmd = self.launch_cmd();
        launch(&mut self.recorded, sh, cmd)
    }

    /// The guest boots at launch: there is nothing to start.
    fn start<M: Machine>(&mut self, sh: &mut Session<M>) -> Result<(), String> {
        Ok(())
    }

    fn reach_steady<M: Machine>(&mut self, sh: &mut Session<M>) -> Result<(), String> {
        steady(self.pin_threads, "pin_threads is not supported for the cloud-hypervisor target yet", &self.readiness, sh)
    }

    fn spans<M: Machine>(&self, sh: &mut Session<M>) -> Result<Vec<Doc>, String> {
        Ok(json::copy_values(&self.recorded))
    }

    fn teardown<M: Machine>(&mut self, sh: &mut Session<M>) -> Result<(), String> {
        native::run_for_effect(sh, &commands::ch_teardown(&self.sock))
    }

    fn pinning_layout(&self) -> (r: Option<Doc>)
        ensures
            r is None,
    {
        None
    }

    fn resident_files(&self) -> (r: Vec<(String, String)>)
        ensures
            r@.len() == 0,
    {
        Vec::new()
    }

    fn net_attribution(&self) -> (r: Vec<NetAttribution>)
        ensures
            r@.len() == 0,
    {
        Vec::new()
    }
}

// ---------------------------------------------------------------------------
// Unikernels
// ---------------------------------------------------------------------------

/// A unikernel under QEMU: a raw disk image, or a kernel image.
#[derive(Debug)]
pub struct UnikernelTarget {
    pub bin: String,
    pub sock: String,
    pub mem_mib: String,
    pub image: String,
    pub disk_boot: bool,
    pub boot_args: String,
    pub hostfwd: String,
    pub more: String,
    pub readiness: Option<String>,
    pub pin_threads: bool,
    pub recorded: Vec<Doc>,
}

/// Build the target of a definition's settings.
pub fn unikernel_target(config: &Object, vars: &Table<String>, pin_threads: bool, process: u32) -> (r: UnikernelTarget)
    ensures
        r.bin@ == setting(config@, vars@, "bin"@, "qemu-system-x86_64"@),
        r.sock@ == setting(
            config@,
            vars@,
            "qmp_sock"@,
            native::default_socket("uk"@, process, vars@),
        ),
        r.mem_mib@ == var_or_setting(config@, vars@, "mem_mib"@, "256"@),
        r.image@ == setting(config@, vars@, "image"@, ""@),
        r.disk_boot == (setting(config@, vars@, "boot_style"@, "disk"@) != "kernel"@),
        r.boot_args@ == setting(config@, vars@, "boot_args"@, ""@),
        r.hostfwd@ == setting(config@, vars@, "hostfwd"@, ""@),
        r.more@ == setting(config@, vars@, "extra_args"@, ""@),
        text::opt_text(r.readiness) == optional(config@, vars@, "readiness"@),
        r.pin_threads == pin_threads,
        r.recorded@.len() == 0,
{
    let sock = native::cfg(
        config,
        vars,
        "qmp_sock",
        &native::socket_for("uk", process, vars),
    );
    UnikernelTarget {
        bin: native::cfg(config, vars, "bin", "qemu-system-x86_64"),
        sock,
        mem_mib: native::var_or_cfg(config, vars, "mem_mib", "256"),
        image: native::cfg(config, vars, "image", ""),
        disk_boot: !text::same(&native::cfg(config, vars, "boot_style", "disk"), "kernel"),
        boot_args: native::cfg(config, vars, "boot_args", ""),
        hostfwd: native::cfg(config, vars, "hostfwd", ""),
        more: native::cfg(config, vars, "extra_args", ""),
        readiness: native::cfg_opt(config, vars, "readiness"),
        pin_threads,
        recorded: Vec::new(),
    }
}

impl UnikernelTarget {
    /// The command that launches it.
    pub open spec fn launch_text(self) -> Seq<char> {
        commands::unikernel_launch_text(
            self.sock@,
            self.bin@,
            self.mem_mib@,
            if self.disk_boot {
                commands::disk_boot_text(self.image@)
            } else {
                commands::kernel_boot_text(self.image@, self.boot_args@)
            },
            if text::trimmed(self.hostfwd@).len() > 0 {
                commands::user_net_text(self.hostfwd@)
            } else {
                Seq::empty()
            },
            self.more@,
        )
    }

    fn launch_cmd(&self) -> (r: String)
        ensures
            r@ == self.launch_text(),
    {
        let boot = if self.disk_boot {
            commands::disk_boot(&self.image)
        } else {
            commands::kernel_boot(&self.image, &self.boot_args)
        };
        // A forwarded port lets a probe reach a guest that has no agent.
        let net = if text::trim(&self.hostfwd).as_str().is_empty() {
            String::new()
        } else {
            commands::user_net(&self.hostfwd)
        };
        commands::unikernel_launch(&self.sock, &self.bin, &self.mem_mib, &boot, &net, &self.more)
    }
}

impl Target for UnikernelTarget {
    open spec fn did(
        phase: Phase,
        pre: Self,
        post: Self,
        old_log: Seq<Event>,
        log: Seq<Event>,
        r: Result<(), Seq<char>>,
    ) -> bool {
        match phase {
            Phase::Provision => post == (UnikernelTarget { recorded: post.recorded, ..pre }) && launched(
                pre.launch_text(),
                json::jsons(pre.recorded@),
                json::jsons(post.recorded@),
                old_log,
                log,
                r,
            ),
            Phase::Start => post == pre && log == old_log && r == Ok::<(), Seq<char>>(()),
            Phase::Steady => post == pre && steadied(
                pre.pin_threads,
                "pin_threads is not supported for the unikernel target yet"@,
                pre.readiness,
                old_log,
                log,
                r,
            ),
            Phase::Teardown => post == pre && native::did(
                commands::unikernel_teardown_text(pre.sock@),
                old_log,
                log,
                r,
            ),
        }
    }

    open spec fn spanned(
        self,
        old_log: Seq<Event>,
        log: Seq<Event>,
        r: Result<Seq<Json>, Seq<char>>,
    ) -> bool {
        log == old_log && r == Ok::<Seq<Json>, Seq<char>>(json::jsons(self.recorded@))
    }

    open spec fn told(self, old_log: Seq<Event>, log: Seq<Event>, version: Seq<char>) -> bool {
        native::version_asked(commands::version_text(self.bin@), "qemu"@, old_log, log, version)
    }

    fn version<M: Machine>(&self, sh: &mut Session<M>) -> String {
        native::ask_version(sh, &commands::version(&self.bin), "qemu")
    }

    fn provision<M: Machine>(&mut self, sh: &mut Session<M>) -> Result<(), String> {
        let cmd = self.launch_cmd();
        launch(&mut self.recorded, sh, cmd)
    }

    /// The guest boots at launch: there is nothing to start.
    fn start<M: Machine>(&mut self, sh: &mut Session<M>) -> Result<(), String> {
        Ok(())
    }

    fn reach_steady<M: Machine>(&mut self, sh: &mut Session<M>) -> Result<(), String> {
        steady(self.pin_threads, "pin_threads is not supported for the unikernel target yet", &self.readiness, sh)
    }

    fn spans<M: Machine>(&self, sh: &mut Session<M>) -> Result<Vec<Doc>, String> {
        Ok(json::copy_values(&self.recorded))
    }

    fn teardown<M: Machine>(&mut self, sh: &mut Session<M>) -> Result<(), String> {
        native::run_for_effect(sh, &commands::unikernel_teardown(&self.sock))
    }

    fn pinning_layout(&self) -> (r: Option<Doc>)
        ensures
            r is None,
    {
        None
    }

    fn resident_files(&self) -> (r: Vec<(String, String)>)
        ensures
            r@.len() == 0,
    {
        Vec::new()
    }

    fn net_attribution(&self) -> (r: Vec<NetAttribution>)
        ensures
            r@.len() == 0,
    {
        Vec::new()
    }
}

} // verus!
