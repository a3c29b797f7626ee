//! The shell commands that bring machines up, drive them and take them down.
use crate::text;
use vstd::prelude::*;

verus! {

/// A request to a machine monitor over its control socket.
pub open spec fn api_text(sock: Seq<char>, method: Seq<char>, path: Seq<char>, body: Seq<char>) -> Seq<char> {
    text::cat(
        seq![
            "curl -fsS --unix-socket '"@,
            sock,
            "' -X "@,
            method,
            " 'http://localhost"@,
            path,
            "' -H 'Content-Type: application/json' -d '"@,
            body,
            "'"@,
        ],
    )
}

/// A request to a machine monitor over its control socket.
pub fn api(sock: &str, method: &str, path: &str, body: &str) -> (r: String)
    ensures
        r@ == api_text(sock@, method@, path@, body@),
{
    let parts: Vec<&str> = vec![
        "curl -fsS --unix-socket '",
        sock,
        "' -X ",
        method,
        " 'http://localhost",
        path,
        "' -H 'Content-Type: application/json' -d '",
        body,
        "'",
    ];
    let r = text::concat(&parts);
    assert(text::slices(parts@) =~= seq![
        "curl -fsS --unix-socket '"@,
        sock@,
        "' -X "@,
        method@,
        " 'http://localhost"@,
        path@,
        "' -H 'Content-Type: application/json' -d '"@,
        body@,
        "'"@,
    ]);
    r
}

/// Launch the firecracker server in a fresh, wiped scratch directory, record its process id and wait for its socket.
pub open spec fn firecracker_launch_text(sock: Seq<char>, bin: Seq<char>) -> Seq<char> {
    text::cat(
        seq![
            "rm -f '"@,
            sock,
            "' '"@,
            sock,
            ".pid'; wd='"@,
            sock,
            ".d'; rm -rf \"$wd\"; mkdir -p \"$wd\"; ( cd \"$wd\" && exec '"@,
            bin,
            "' --api-sock '"@,
            sock,
            "' ) >'"@,
            sock,
            ".log' 2>&1 & echo $! > '"@,
            sock,
            ".pid'; for _ in $(seq 1 100); do [ -S '"@,
            sock,
            "' ] && exit 0; sleep 0.05; done; echo 'firecracker api socket did not appear' >&2; exit 1"@,
        ],
    )
}

/// Launch the firecracker server in a fresh, wiped scratch directory, record its process id and wait for its socket.
pub fn firecracker_launch(sock: &str, bin: &str) -> (r: String)
    ensures
        r@ == firecracker_launch_text(sock@, bin@),
{
    let parts: Vec<&str> = vec![
        "rm -f '",
        sock,
        "' '",
        sock,
        ".pid'; wd='",
        sock,
        ".d'; rm -rf \"$wd\"; mkdir -p \"$wd\"; ( cd \"$wd\" && exec '",
        bin,
        "' --api-sock '",
        sock,
        "' ) >'",
        sock,
        ".log' 2>&1 & echo $! > '",
        sock,
        ".pid'; for _ in $(seq 1 100); do [ -S '",
        sock,
        "' ] && exit 0; sleep 0.05; done; echo 'firecracker api socket did not appear' >&2; exit 1",
    ];
    let r = text::concat(&parts);
    assert(text::slices(parts@) =~= seq![
        "rm -f '"@,
        sock@,
        "' '"@,
        sock@,
        ".pid'; wd='"@,
        sock@,
        ".d'; rm -rf \"$wd\"; mkdir -p \"$wd\"; ( cd \"$wd\" && exec '"@,
        bin@,
        "' --api-sock '"@,
        sock@,
        "' ) >'"@,
        sock@,
        ".log' 2>&1 & echo $! > '"@,
        sock@,
        ".pid'; for _ in $(seq 1 100); do [ -S '"@,
        sock@,
        "' ] && exit 0; sleep 0.05; done; echo 'firecracker api socket did not appear' >&2; exit 1"@,
    ]);
    r
}

/// Launch a userfaultfd handler in the background and wait for its socket.
pub open spec fn uffd_launch_text(handler: Seq<char>, uds: Seq<char>) -> Seq<char> {
    text::cat(
        seq![
            "rm -f '"@,
            uds,
            "' '"@,
            uds,
            ".pid'; ( "@,
            handler,
            " ) >'"@,
            uds,
            ".log' 2>&1 & echo $! > '"@,
            uds,
            ".pid'; for _ in $(seq 1 200); do [ -S '"@,
            uds,
            "' ] && exit 0; sleep 0.05; done; echo 'uffd handler socket did not appear' >&2; exit 1"@,
        ],
    )
}

/// Launch a userfaultfd handler in the background and wait for its socket.
pub fn uffd_launch(handler: &str, uds: &str) -> (r: String)
    ensures
        r@ == uffd_launch_text(handler@, uds@),
{
    let parts: Vec<&str> = vec![
        "rm -f '",
        uds,
        "' '",
        uds,
        ".pid'; ( ",
        handler,
        " ) >'",
        uds,
        ".log' 2>&1 & echo $! > '",
        uds,
        ".pid'; for _ in $(seq 1 200); do [ -S '",
        uds,
        "' ] && exit 0; sleep 0.05; done; echo 'uffd handler socket did not appear' >&2; exit 1",
    ];
    let r = text::concat(&parts);
    assert(text::slices(parts@) =~= seq![
        "rm -f '"@,
        uds@,
        "' '"@,
        uds@,
        ".pid'; ( "@,
        handler@,
        " ) >'"@,
        uds@,
        ".log' 2>&1 & echo $! > '"@,
        uds@,
        ".pid'; for _ in $(seq 1 200); do [ -S '"@,
        uds@,
        "' ] && exit 0; sleep 0.05; done; echo 'uffd handler socket did not appear' >&2; exit 1"@,
    ]);
    r
}

/// Retire any earlier stream mount, then mount the memory file from its source and wait for it to appear.
pub open spec fn stream_launch_text(dir: Seq<char>, bin: Seq<char>, source: Seq<char>, mem: Seq<char>) -> Seq<char> {
    text::cat(
        seq![
            "d='"@,
            dir,
            "'; if [ -f \"$d.pid\" ]; then op=\"$(cat \"$d.pid\")\"; kill \"$op\" 2>/dev/null; for _ in $(seq 1 150); do kill -0 \"$op\" 2>/dev/null || break; sleep 0.02; done; fi; fusermount3 -uz \"$d\" 2>/dev/null; rm -rf \"$d\" '"@,
            dir,
            ".pid' '"@,
            dir,
            ".log'; mkdir -p \"$d\"; sz=$(stat -c%s '"@,
            mem,
            "'); ( exec '"@,
            bin,
            "' stream-mount '"@,
            source,
            "' \"$d\" --size-bytes \"$sz\" --name mem ) >'"@,
            dir,
            ".log' 2>&1 & mp=$!; echo \"$mp\" > '"@,
            dir,
            ".pid'; for _ in $(seq 1 500); do [ -e \"$d/mem\" ] && exit 0; sleep 0.02; done; kill \"$mp\" 2>/dev/null; fusermount3 -uz \"$d\" 2>/dev/null; echo 'stream mount did not appear (see "@,
            dir,
            ".log)' >&2; exit 1"@,
        ],
    )
}

/// Retire any earlier stream mount, then mount the memory file from its source and wait for it to appear.
pub fn stream_launch(dir: &str, bin: &str, source: &str, mem: &str) -> (r: String)
    ensures
        r@ == stream_launch_text(dir@, bin@, source@, mem@),
{
    let parts: Vec<&str> = vec![
        "d='",
        dir,
        "'; if [ -f \"$d.pid\" ]; then op=\"$(cat \"$d.pid\")\"; kill \"$op\" 2>/dev/null; for _ in $(seq 1 150); do kill -0 \"$op\" 2>/dev/null || break; sleep 0.02; done; fi; fusermount3 -uz \"$d\" 2>/dev/null; rm -rf \"$d\" '",
        dir,
        ".pid' '",
        dir,
        ".log'; mkdir -p \"$d\"; sz=$(stat -c%s '",
        mem,
        "'); ( exec '",
        bin,
        "' stream-mount '",
        source,
        "' \"$d\" --size-bytes \"$sz\" --name mem ) >'",
        dir,
        ".log' 2>&1 & mp=$!; echo \"$mp\" > '",
        dir,
        ".pid'; for _ in $(seq 1 500); do [ -e \"$d/mem\" ] && exit 0; sleep 0.02; done; kill \"$mp\" 2>/dev/null; fusermount3 -uz \"$d\" 2>/dev/null; echo 'stream mount did not appear (see ",
        dir,
        ".log)' >&2; exit 1",
    ];
    let r = text::concat(&parts);
    assert(text::slices(parts@) =~= seq![
        "d='"@,
        dir@,
        "'; if [ -f \"$d.pid\" ]; then op=\"$(cat \"$d.pid\")\"; kill \"$op\" 2>/dev/null; for _ in $(seq 1 150); do kill -0 \"$op\" 2>/dev/null || break; sleep 0.02; done; fi; fusermount3 -uz \"$d\" 2>/dev/null; rm -rf \"$d\" '"@,
        dir@,
        ".pid' '"@,
        dir@,
        ".log'; mkdir -p \"$d\"; sz=$(stat -c%s '"@,
        mem@,
        "'); ( exec '"@,
        bin@,
        "' stream-mount '"@,
        source@,
        "' \"$d\" --size-bytes \"$sz\" --name mem ) >'"@,
        dir@,
        ".log' 2>&1 & mp=$!; echo \"$mp\" > '"@,
        dir@,
        ".pid'; for _ in $(seq 1 500); do [ -e \"$d/mem\" ] && exit 0; sleep 0.02; done; kill \"$mp\" 2>/dev/null; fusermount3 -uz \"$d\" 2>/dev/null; echo 'stream mount did not appear (see "@,
        dir@,
        ".log)' >&2; exit 1"@,
    ]);
    r
}

/// Pull the working set from the source into the mounted memory file.
pub open spec fn stream_warm_text(bin: Seq<char>, source: Seq<char>, dir: Seq<char>, ws: Seq<char>) -> Seq<char> {
    text::cat(
        seq![
            "'"@,
            bin,
            "' stream-prefetch '"@,
            source,
            "' --mem '"@,
            dir,
            "/mem' --wsmeta '"@,
            ws,
            "'"@,
        ],
    )
}

/// Pull the working set from the source into the mounted memory file.
pub fn stream_warm(bin: &str, source: &str, dir: &str, ws: &str) -> (r: String)
    ensures
        r@ == stream_warm_text(bin@, source@, dir@, ws@),
{
    let parts: Vec<&str> = vec![
        "'",
        bin,
        "' stream-prefetch '",
        source,
        "' --mem '",
        dir,
        "/mem' --wsmeta '",
        ws,
        "'",
    ];
    let r = text::concat(&parts);
    assert(text::slices(parts@) =~= seq![
        "'"@,
        bin@,
        "' stream-prefetch '"@,
        source@,
        "' --mem '"@,
        dir@,
        "/mem' --wsmeta '"@,
        ws@,
        "'"@,
    ]);
    r
}

/// Pin each vCPU thread to a logical CPU from `base` on and print the layout.
pub open spec fn pin_text(sock: Seq<char>, base: Seq<char>) -> Seq<char> {
    text::cat(
        seq![
            "pid=$(cat '"@,
            sock,
            ".pid'); layout=''; base="@,
            base,
            "; for t in /proc/$pid/task/*; do comm=$(cat \"$t/comm\" 2>/dev/null); case \"$comm\" in \"fc_vcpu \"*) n=${comm#fc_vcpu }; tid=${t##*/}; cpu=$((base + n)); taskset -pc \"$cpu\" \"$tid\" >/dev/null 2>&1 || { echo \"pin vcpu $n -> cpu $cpu failed\" >&2; exit 7; }; layout=\"$layout,\\\"vcpu$n\\\":$cpu\"; ;; esac; done; printf '{%s}' \"${layout#,}\""@,
        ],
    )
}

/// Pin each vCPU thread to a logical CPU from `base` on and print the layout.
pub fn pin(sock: &str, base: &str) -> (r: String)
    ensures
        r@ == pin_text(sock@, base@),
{
    let parts: Vec<&str> = vec![
        "pid=$(cat '",
        sock,
        ".pid'); layout=''; base=",
        base,
        "; for t in /proc/$pid/task/*; do comm=$(cat \"$t/comm\" 2>/dev/null); case \"$comm\" in \"fc_vcpu \"*) n=${comm#fc_vcpu }; tid=${t##*/}; cpu=$((base + n)); taskset -pc \"$cpu\" \"$tid\" >/dev/null 2>&1 || { echo \"pin vcpu $n -> cpu $cpu failed\" >&2; exit 7; }; layout=\"$layout,\\\"vcpu$n\\\":$cpu\"; ;; esac; done; printf '{%s}' \"${layout#,}\"",
    ];
    let r = text::concat(&parts);
    assert(text::slices(parts@) =~= seq![
        "pid=$(cat '"@,
        sock@,
        ".pid'); layout=''; base="@,
        base@,
        "; for t in /proc/$pid/task/*; do comm=$(cat \"$t/comm\" 2>/dev/null); case \"$comm\" in \"fc_vcpu \"*) n=${comm#fc_vcpu }; tid=${t##*/}; cpu=$((base + n)); taskset -pc \"$cpu\" \"$tid\" >/dev/null 2>&1 || { echo \"pin vcpu $n -> cpu $cpu failed\" >&2; exit 7; }; layout=\"$layout,\\\"vcpu$n\\\":$cpu\"; ;; esac; done; printf '{%s}' \"${layout#,}\""@,
    ]);
    r
}

/// Create a tap device anew and bring it up.
pub open spec fn tap_add_text(tap: Seq<char>) -> Seq<char> {
    text::cat(
        seq![
            "ip tuntap del dev '"@,
            tap,
            "' mode tap 2>/dev/null; ip tuntap add dev '"@,
            tap,
            "' mode tap && ip link set dev '"@,
            tap,
            "' up"@,
        ],
    )
}

/// Create a tap device anew and bring it up.
pub fn tap_add(tap: &str) -> (r: String)
    ensures
        r@ == tap_add_text(tap@),
{
    let parts: Vec<&str> = vec![
        "ip tuntap del dev '",
        tap,
        "' mode tap 2>/dev/null; ip tuntap add dev '",
        tap,
        "' mode tap && ip link set dev '",
        tap,
        "' up",
    ];
    let r = text::concat(&parts);
    assert(text::slices(parts@) =~= seq![
        "ip tuntap del dev '"@,
        tap@,
        "' mode tap 2>/dev/null; ip tuntap add dev '"@,
        tap@,
        "' mode tap && ip link set dev '"@,
        tap@,
        "' up"@,
    ]);
    r
}

/// Read the interface index of a tap device.
pub open spec fn tap_index_text(tap: Seq<char>) -> Seq<char> {
    text::cat(
        seq![
            "cat '/sys/class/net/"@,
            tap,
            "/ifindex'"@,
        ],
    )
}

/// Read the interface index of a tap device.
pub fn tap_index(tap: &str) -> (r: String)
    ensures
        r@ == tap_index_text(tap@),
{
    let parts: Vec<&str> = vec![
        "cat '/sys/class/net/",
        tap,
        "/ifindex'",
    ];
    let r = text::concat(&parts);
    assert(text::slices(parts@) =~= seq![
        "cat '/sys/class/net/"@,
        tap@,
        "/ifindex'"@,
    ]);
    r
}

/// Delete a tap device.
pub open spec fn tap_del_text(tap: Seq<char>) -> Seq<char> {
    text::cat(
        seq![
            "ip tuntap del dev '"@,
            tap,
            "' mode tap"@,
        ],
    )
}

/// Delete a tap device.
pub fn tap_del(tap: &str) -> (r: String)
    ensures
        r@ == tap_del_text(tap@),
{
    let parts: Vec<&str> = vec![
        "ip tuntap del dev '",
        tap,
        "' mode tap",
    ];
    let r = text::concat(&parts);
    assert(text::slices(parts@) =~= seq![
        "ip tuntap del dev '"@,
        tap@,
        "' mode tap"@,
    ]);
    r
}

/// Stop firecracker, its userfaultfd handler and its stream mount, and remove what they left.
pub open spec fn firecracker_teardown_text(sock: Seq<char>, uds: Seq<char>, stream: Seq<char>) -> Seq<char> {
    text::cat(
        seq![
            "[ -f '"@,
            sock,
            ".pid' ] && kill \"$(cat '"@,
            sock,
            ".pid')\" 2>/dev/null; [ -f '"@,
            uds,
            ".pid' ] && kill \"$(cat '"@,
            uds,
            ".pid')\" 2>/dev/null; if [ -f '"@,
            sock,
            ".pid' ]; then p=\"$(cat '"@,
            sock,
            ".pid')\"; for _ in $(seq 1 150); do kill -0 \"$p\" 2>/dev/null || break; sleep 0.02; done; fi; fusermount3 -uz '"@,
            stream,
            "' 2>/dev/null; [ -f '"@,
            stream,
            ".pid' ] && kill \"$(cat '"@,
            stream,
            ".pid')\" 2>/dev/null; rm -rf '"@,
            sock,
            "' '"@,
            sock,
            ".log' '"@,
            sock,
            ".pid' '"@,
            sock,
            ".d' '"@,
            uds,
            "' '"@,
            uds,
            ".log' '"@,
            uds,
            ".pid' '"@,
            stream,
            "' '"@,
            stream,
            ".log' '"@,
            stream,
            ".pid'; true"@,
        ],
    )
}

/// Stop firecracker, its userfaultfd handler and its stream mount, and remove what they left.
pub fn firecracker_teardown(sock: &str, uds: &str, stream: &str) -> (r: String)
    ensures
        r@ == firecracker_teardown_text(sock@, uds@, stream@),
{
    let parts: Vec<&str> = vec![
        "[ -f '",
        sock,
        ".pid' ] && kill \"$(cat '",
        sock,
        ".pid')\" 2>/dev/null; [ -f '",
        uds,
        ".pid' ] && kill \"$(cat '",
        uds,
        ".pid')\" 2>/dev/null; if [ -f '",
        sock,
        ".pid' ]; then p=\"$(cat '",
        sock,
        ".pid')\"; for _ in $(seq 1 150); do kill -0 \"$p\" 2>/dev/null || break; sleep 0.02; done; fi; fusermount3 -uz '",
        stream,
        "' 2>/dev/null; [ -f '",
        stream,
        ".pid' ] && kill \"$(cat '",
        stream,
        ".pid')\" 2>/dev/null; rm -rf '",
        sock,
        "' '",
        sock,
        ".log' '",
        sock,
        ".pid' '",
        sock,
        ".d' '",
        uds,
        "' '",
        uds,
        ".log' '",
        uds,
        ".pid' '",
        stream,
        "' '",
        stream,
        ".log' '",
        stream,
        ".pid'; true",
    ];
    let r = text::concat(&parts);
    assert(text::slices(parts@) =~= seq![
        "[ -f '"@,
        sock@,
        ".pid' ] && kill \"$(cat '"@,
        sock@,
        ".pid')\" 2>/dev/null; [ -f '"@,
        uds@,
        ".pid' ] && kill \"$(cat '"@,
        uds@,
        ".pid')\" 2>/dev/null; if [ -f '"@,
        sock@,
        ".pid' ]; then p=\"$(cat '"@,
        sock@,
        ".pid')\"; for _ in $(seq 1 150); do kill -0 \"$p\" 2>/dev/null || break; sleep 0.02; done; fi; fusermount3 -uz '"@,
        stream@,
        "' 2>/dev/null; [ -f '"@,
        stream@,
        ".pid' ] && kill \"$(cat '"@,
        stream@,
        ".pid')\" 2>/dev/null; rm -rf '"@,
        sock@,
        "' '"@,
        sock@,
        ".log' '"@,
        sock@,
        ".pid' '"@,
        sock@,
        ".d' '"@,
        uds@,
        "' '"@,
        uds@,
        ".log' '"@,
        uds@,
        ".pid' '"@,
        stream@,
        "' '"@,
        stream@,
        ".log' '"@,
        stream@,
        ".pid'; true"@,
    ]);
    r
}

/// Ask a tool for its version.
pub open spec fn version_text(bin: Seq<char>) -> Seq<char> {
    text::cat(
        seq![
            "'"@,
            bin,
            "' --version"@,
        ],
    )
}

/// Ask a tool for its version.
pub fn version(bin: &str) -> (r: String)
    ensures
        r@ == version_text(bin@),
{
    let parts: Vec<&str> = vec![
        "'",
        bin,
        "' --version",
    ];
    let r = text::concat(&parts);
    assert(text::slices(parts@) =~= seq![
        "'"@,
        bin@,
        "' --version"@,
    ]);
    r
}

/// Ask a tool for its version, its error output included with the rest.
pub open spec fn version_merged_text(bin: Seq<char>) -> Seq<char> {
    text::cat(
        seq![
            "'"@,
            bin,
            "' --version 2>&1"@,
        ],
    )
}

/// Ask a tool for its version, its error output included with the rest.
pub fn version_merged(bin: &str) -> (r: String)
    ensures
        r@ == version_merged_text(bin@),
{
    let parts: Vec<&str> = vec![
        "'",
        bin,
        "' --version 2>&1",
    ];
    let r = text::concat(&parts);
    assert(text::slices(parts@) =~= seq![
        "'"@,
        bin@,
        "' --version 2>&1"@,
    ]);
    r
}

/// Launch qemu in a fresh scratch directory and wait for its control socket.
pub open spec fn qemu_launch_text(sock: Seq<char>, bin: Seq<char>, mem: Seq<char>, vcpu: Seq<char>, kernel: Seq<char>, boot_args: Seq<char>, rootfs: Seq<char>, more: Seq<char>) -> Seq<char> {
    text::cat(
        seq![
            "rm -f '"@,
            sock,
            "' '"@,
            sock,
            ".pid'; wd='"@,
            sock,
            ".d'; rm -rf \"$wd\"; mkdir -p \"$wd\"; ( cd \"$wd\" && exec '"@,
            bin,
            "' -enable-kvm -m '"@,
            mem,
            "' -smp '"@,
            vcpu,
            "' -kernel '"@,
            kernel,
            "' -append '"@,
            boot_args,
            "' -drive file='"@,
            rootfs,
            "',format=raw,if=virtio,readonly=on -qmp unix:'"@,
            sock,
            "',server,nowait -display none -serial none -no-reboot "@,
            more,
            " ) >'"@,
            sock,
            ".log' 2>&1 & echo $! > '"@,
            sock,
            ".pid'; for _ in $(seq 1 250); do [ -S '"@,
            sock,
            "' ] && exit 0; sleep 0.02; done; echo 'qemu qmp socket did not appear' >&2; exit 1"@,
        ],
    )
}

/// Launch qemu in a fresh scratch directory and wait for its control socket.
pub fn qemu_launch(sock: &str, bin: &str, mem: &str, vcpu: &str, kernel: &str, boot_args: &str, rootfs: &str, more: &str) -> (r: String)
    ensures
        r@ == qemu_launch_text(sock@, bin@, mem@, vcpu@, kernel@, boot_args@, rootfs@, more@),
{
    let parts: Vec<&str> = vec![
        "rm -f '",
        sock,
        "' '",
        sock,
        ".pid'; wd='",
        sock,
        ".d'; rm -rf \"$wd\"; mkdir -p \"$wd\"; ( cd \"$wd\" && exec '",
        bin,
        "' -enable-kvm -m '",
        mem,
        "' -smp '",
        vcpu,
        "' -kernel '",
        kernel,
        "' -append '",
        boot_args,
        "' -drive file='",
        rootfs,
        "',format=raw,if=virtio,readonly=on -qmp unix:'",
        sock,
        "',server,nowait -display none -serial none -no-reboot ",
        more,
        " ) >'",
        sock,
        ".log' 2>&1 & echo $! > '",
        sock,
        ".pid'; for _ in $(seq 1 250); do [ -S '",
        sock,
        "' ] && exit 0; sleep 0.02; done; echo 'qemu qmp socket did not appear' >&2; exit 1",
    ];
    let r = text::concat(&parts);
    assert(text::slices(parts@) =~= seq![
        "rm -f '"@,
        sock@,
        "' '"@,
        sock@,
        ".pid'; wd='"@,
        sock@,
        ".d'; rm -rf \"$wd\"; mkdir -p \"$wd\"; ( cd \"$wd\" && exec '"@,
        bin@,
        "' -enable-kvm -m '"@,
        mem@,
        "' -smp '"@,
        vcpu@,
        "' -kernel '"@,
        kernel@,
        "' -append '"@,
        boot_args@,
        "' -drive file='"@,
        rootfs@,
        "',format=raw,if=virtio,readonly=on -qmp unix:'"@,
        sock@,
        "',server,nowait -display none -serial none -no-reboot "@,
        more@,
        " ) >'"@,
        sock@,
        ".log' 2>&1 & echo $! > '"@,
        sock@,
        ".pid'; for _ in $(seq 1 250); do [ -S '"@,
        sock@,
        "' ] && exit 0; sleep 0.02; done; echo 'qemu qmp socket did not appear' >&2; exit 1"@,
    ]);
    r
}

/// Stop qemu and remove what it left.
pub open spec fn qemu_teardown_text(sock: Seq<char>) -> Seq<char> {
    text::cat(
        seq![
            "[ -f '"@,
            sock,
            ".pid' ] && kill \"$(cat '"@,
            sock,
            ".pid')\" 2>/dev/null; rm -rf '"@,
            sock,
            "' '"@,
            sock,
            ".log' '"@,
            sock,
            ".pid' '"@,
            sock,
            ".d'"@,
        ],
    )
}

/// Stop qemu and remove what it left.
pub fn qemu_teardown(sock: &str) -> (r: String)
    ensures
        r@ == qemu_teardown_text(sock@),
{
    let parts: Vec<&str> = vec![
        "[ -f '",
        sock,
        ".pid' ] && kill \"$(cat '",
        sock,
        ".pid')\" 2>/dev/null; rm -rf '",
        sock,
        "' '",
        sock,
        ".log' '",
        sock,
        ".pid' '",
        sock,
        ".d'",
    ];
    let r = text::concat(&parts);
    assert(text::slices(parts@) =~= seq![
        "[ -f '"@,
        sock@,
        ".pid' ] && kill \"$(cat '"@,
        sock@,
        ".pid')\" 2>/dev/null; rm -rf '"@,
        sock@,
        "' '"@,
        sock@,
        ".log' '"@,
        sock@,
        ".pid' '"@,
        sock@,
        ".d'"@,
    ]);
    r
}

/// Launch cloud-hypervisor in a fresh scratch directory and wait for its control socket.
pub open spec fn ch_launch_text(sock: Seq<char>, bin: Seq<char>, kernel: Seq<char>, cmdline: Seq<char>, rootfs: Seq<char>, vcpu: Seq<char>, mem: Seq<char>, more: Seq<char>) -> Seq<char> {
    text::cat(
        seq![
            "rm -f '"@,
            sock,
            "' '"@,
            sock,
            ".pid'; wd='"@,
            sock,
            ".d'; rm -rf \"$wd\"; mkdir -p \"$wd\"; ( cd \"$wd\" && exec '"@,
            bin,
            "' --api-socket '"@,
            sock,
            "' --kernel '"@,
            kernel,
            "' --cmdline '"@,
            cmdline,
            "' --disk path='"@,
            rootfs,
            "',readonly=on --cpus boot='"@,
            vcpu,
            "' --memory size='"@,
            mem,
            "'M --serial tty --console off "@,
            more,
            " ) >'"@,
            sock,
            ".log' 2>&1 & echo $! > '"@,
            sock,
            ".pid'; for _ in $(seq 1 250); do [ -S '"@,
            sock,
            "' ] && exit 0; sleep 0.02; done; echo 'cloud-hypervisor api socket did not appear' >&2; exit 1"@,
        ],
    )
}

/// Launch cloud-hypervisor in a fresh scratch directory and wait for its control socket.
pub fn ch_launch(sock: &str, bin: &str, kernel: &str, cmdline: &str, rootfs: &str, vcpu: &str, mem: &str, more: &str) -> (r: String)
    ensures
        r@ == ch_launch_text(sock@, bin@, kernel@, cmdline@, rootfs@, vcpu@, mem@, more@),
{
    let parts: Vec<&str> = vec![
        "rm -f '",
        sock,
        "' '",
        sock,
        ".pid'; wd='",
        sock,
        ".d'; rm -rf \"$wd\"; mkdir -p \"$wd\"; ( cd \"$wd\" && exec '",
        bin,
        "' --api-socket '",
        sock,
        "' --kernel '",
        kernel,
        "' --cmdline '",
        cmdline,
        "' --disk path='",
        rootfs,
        "',readonly=on --cpus boot='",
        vcpu,
        "' --memory size='",
        mem,
        "'M --serial tty --console off ",
        more,
        " ) >'",
        sock,
        ".log' 2>&1 & echo $! > '",
        sock,
        ".pid'; for _ in $(seq 1 250); do [ -S '",
        sock,
        "' ] && exit 0; sleep 0.02; done; echo 'cloud-hypervisor api socket did not appear' >&2; exit 1",
    ];
    let r = text::concat(&parts);
    assert(text::slices(parts@) =~= seq![
        "rm -f '"@,
        sock@,
        "' '"@,
        sock@,
        ".pid'; wd='"@,
        sock@,
        ".d'; rm -rf \"$wd\"; mkdir -p \"$wd\"; ( cd \"$wd\" && exec '"@,
        bin@,
        "' --api-socket '"@,
        sock@,
        "' --kernel '"@,
        kernel@,
        "' --cmdline '"@,
        cmdline@,
        "' --disk path='"@,
        rootfs@,
        "',readonly=on --cpus boot='"@,
        vcpu@,
        "' --memory size='"@,
        mem@,
        "'M --serial tty --console off "@,
        more@,
        " ) >'"@,
        sock@,
        ".log' 2>&1 & echo $! > '"@,
        sock@,
        ".pid'; for _ in $(seq 1 250); do [ -S '"@,
        sock@,
        "' ] && exit 0; sleep 0.02; done; echo 'cloud-hypervisor api socket did not appear' >&2; exit 1"@,
    ]);
    r
}

/// Stop cloud-hypervisor, wait for it to exit, and remove what it left.
pub open spec fn ch_teardown_text(sock: Seq<char>) -> Seq<char> {
    text::cat(
        seq![
            "p=\"$(cat '"@,
            sock,
            ".pid' 2>/dev/null)\"; if [ -n \"$p\" ]; then kill \"$p\" 2>/dev/null; for _ in $(seq 1 250); do kill -0 \"$p\" 2>/dev/null || break; sleep 0.02; done; kill -9 \"$p\" 2>/dev/null; fi; rm -rf '"@,
            sock,
            "' '"@,
            sock,
            ".lock' '"@,
            sock,
            ".log' '"@,
            sock,
            ".pid' '"@,
            sock,
            ".d'"@,
        ],
    )
}

/// Stop cloud-hypervisor, wait for it to exit, and remove what it left.
pub fn ch_teardown(sock: &str) -> (r: String)
    ensures
        r@ == ch_teardown_text(sock@),
{
    let parts: Vec<&str> = vec![
        "p=\"$(cat '",
        sock,
        ".pid' 2>/dev/null)\"; if [ -n \"$p\" ]; then kill \"$p\" 2>/dev/null; for _ in $(seq 1 250); do kill -0 \"$p\" 2>/dev/null || break; sleep 0.02; done; kill -9 \"$p\" 2>/dev/null; fi; rm -rf '",
        sock,
        "' '",
        sock,
        ".lock' '",
        sock,
        ".log' '",
        sock,
        ".pid' '",
        sock,
        ".d'",
    ];
    let r = text::concat(&parts);
    assert(text::slices(parts@) =~= seq![
        "p=\"$(cat '"@,
        sock@,
        ".pid' 2>/dev/null)\"; if [ -n \"$p\" ]; then kill \"$p\" 2>/dev/null; for _ in $(seq 1 250); do kill -0 \"$p\" 2>/dev/null || break; sleep 0.02; done; kill -9 \"$p\" 2>/dev/null; fi; rm -rf '"@,
        sock@,
        "' '"@,
        sock@,
        ".lock' '"@,
        sock@,
        ".log' '"@,
        sock@,
        ".pid' '"@,
        sock@,
        ".d'"@,
    ]);
    r
}

/// Boot a unikernel from a raw disk image.
pub open spec fn disk_boot_text(img: Seq<char>) -> Seq<char> {
    text::cat(
        seq![
            "-drive file='"@,
            img,
            "',format=raw,if=none,id=hd0 -device virtio-blk-pci,drive=hd0"@,
        ],
    )
}

/// Boot a unikernel from a raw disk image.
pub fn disk_boot(img: &str) -> (r: String)
    ensures
        r@ == disk_boot_text(img@),
{
    let parts: Vec<&str> = vec![
        "-drive file='",
        img,
        "',format=raw,if=none,id=hd0 -device virtio-blk-pci,drive=hd0",
    ];
    let r = text::concat(&parts);
    assert(text::slices(parts@) =~= seq![
        "-drive file='"@,
        img@,
        "',format=raw,if=none,id=hd0 -device virtio-blk-pci,drive=hd0"@,
    ]);
    r
}

/// Boot a unikernel from a kernel image.
pub open spec fn kernel_boot_text(img: Seq<char>, args: Seq<char>) -> Seq<char> {
    text::cat(
        seq![
            "-kernel '"@,
            img,
            "' -append '"@,
            args,
            "'"@,
        ],
    )
}

/// Boot a unikernel from a kernel image.
pub fn kernel_boot(img: &str, args: &str) -> (r: String)
    ensures
        r@ == kernel_boot_text(img@, args@),
{
    let parts: Vec<&str> = vec![
        "-kernel '",
        img,
        "' -append '",
        args,
        "'",
    ];
    let r = text::concat(&parts);
    assert(text::slices(parts@) =~= seq![
        "-kernel '"@,
        img@,
        "' -append '"@,
        args@,
        "'"@,
    ]);
    r
}

/// Forward a host port to the guest.
pub open spec fn user_net_text(hostfwd: Seq<char>) -> Seq<char> {
    text::cat(
        seq![
            "-netdev user,id=n0,hostfwd="@,
            hostfwd,
            " -device virtio-net-pci,netdev=n0"@,
        ],
    )
}

/// Forward a host port to the guest.
pub fn user_net(hostfwd: &str) -> (r: String)
    ensures
        r@ == user_net_text(hostfwd@),
{
    let parts: Vec<&str> = vec![
        "-netdev user,id=n0,hostfwd=",
        hostfwd,
        " -device virtio-net-pci,netdev=n0",
    ];
    let r = text::concat(&parts);
    assert(text::slices(parts@) =~= seq![
        "-netdev user,id=n0,hostfwd="@,
        hostfwd@,
        " -device virtio-net-pci,netdev=n0"@,
    ]);
    r
}

/// Launch qemu on a unikernel image in a fresh scratch directory and wait for its control socket.
pub open spec fn unikernel_launch_text(sock: Seq<char>, bin: Seq<char>, mem: Seq<char>, boot: Seq<char>, net: Seq<char>, more: Seq<char>) -> Seq<char> {
    text::cat(
        seq![
            "rm -f '"@,
            sock,
            "' '"@,
            sock,
            ".pid'; wd='"@,
            sock,
            ".d'; rm -rf \"$wd\"; mkdir -p \"$wd\"; ( cd \"$wd\" && exec '"@,
            bin,
            "' -machine q35 -enable-kvm -cpu host -m '"@,
            mem,
            "' "@,
            boot,
            " "@,
            net,
            " -qmp unix:'"@,
            sock,
            "',server,nowait -nographic -serial file:'"@,
            sock,
            ".serial' -no-reboot "@,
            more,
            " ) >'"@,
            sock,
            ".log' 2>&1 & echo $! > '"@,
            sock,
            ".pid'; for _ in $(seq 1 250); do [ -S '"@,
            sock,
            "' ] && exit 0; sleep 0.02; done; echo 'unikernel qmp socket did not appear' >&2; exit 1"@,
        ],
    )
}

/// Launch qemu on a unikernel image in a fresh scratch directory and wait for its control socket.
pub fn unikernel_launch(sock: &str, bin: &str, mem: &str, boot: &str, net: &str, more: &str) -> (r: String)
    ensures
        r@ == unikernel_launch_text(sock@, bin@, mem@, boot@, net@, more@),
{
    let parts: Vec<&str> = vec![
        "rm -f '",
        sock,
        "' '",
        sock,
        ".pid'; wd='",
        sock,
        ".d'; rm -rf \"$wd\"; mkdir -p \"$wd\"; ( cd \"$wd\" && exec '",
        bin,
        "' -machine q35 -enable-kvm -cpu host -m '",
        mem,
        "' ",
        boot,
        " ",
        net,
        " -qmp unix:'",
        sock,
        "',server,nowait -nographic -serial file:'",
        sock,
        ".serial' -no-reboot ",
        more,
        " ) >'",
        sock,
        ".log' 2>&1 & echo $! > '",
        sock,
        ".pid'; for _ in $(seq 1 250); do [ -S '",
        sock,
        "' ] && exit 0; sleep 0.02; done; echo 'unikernel qmp socket did not appear' >&2; exit 1",
    ];
    let r = text::concat(&parts);
    assert(text::slices(parts@) =~= seq![
        "rm -f '"@,
        sock@,
        "' '"@,
        sock@,
        ".pid'; wd='"@,
        sock@,
        ".d'; rm -rf \"$wd\"; mkdir -p \"$wd\"; ( cd \"$wd\" && exec '"@,
        bin@,
        "' -machine q35 -enable-kvm -cpu host -m '"@,
        mem@,
        "' "@,
        boot@,
        " "@,
        net@,
        " -qmp unix:'"@,
        sock@,
        "',server,nowait -nographic -serial file:'"@,
        sock@,
        ".serial' -no-reboot "@,
        more@,
        " ) >'"@,
        sock@,
        ".log' 2>&1 & echo $! > '"@,
        sock@,
        ".pid'; for _ in $(seq 1 250); do [ -S '"@,
        sock@,
        "' ] && exit 0; sleep 0.02; done; echo 'unikernel qmp socket did not appear' >&2; exit 1"@,
    ]);
    r
}

/// Stop a unikernel and remove what it left.
pub open spec fn unikernel_teardown_text(sock: Seq<char>) -> Seq<char> {
    text::cat(
        seq![
            "[ -f '"@,
            sock,
            ".pid' ] && kill \"$(cat '"@,
            sock,
            ".pid')\" 2>/dev/null; rm -rf '"@,
            sock,
            "' '"@,
            sock,
            ".log' '"@,
            sock,
            ".serial' '"@,
            sock,
            ".pid' '"@,
            sock,
            ".d'"@,
        ],
    )
}

/// Stop a unikernel and remove what it left.
pub fn unikernel_teardown(sock: &str) -> (r: String)
    ensures
        r@ == unikernel_teardown_text(sock@),
{
    let parts: Vec<&str> = vec![
        "[ -f '",
        sock,
        ".pid' ] && kill \"$(cat '",
        sock,
        ".pid')\" 2>/dev/null; rm -rf '",
        sock,
        "' '",
        sock,
        ".log' '",
        sock,
        ".serial' '",
        sock,
        ".pid' '",
        sock,
        ".d'",
    ];
    let r = text::concat(&parts);
    assert(text::slices(parts@) =~= seq![
        "[ -f '"@,
        sock@,
        ".pid' ] && kill \"$(cat '"@,
        sock@,
        ".pid')\" 2>/dev/null; rm -rf '"@,
        sock@,
        "' '"@,
        sock@,
        ".log' '"@,
        sock@,
        ".serial' '"@,
        sock@,
        ".pid' '"@,
        sock@,
        ".d'"@,
    ]);
    r
}

} // verus!
