//! What a firecracker machine is asked to do, as documents that its requests carry.
use crate::adapter::{self, Ask, Event};
use crate::commands;
use crate::firecracker::{self, FirecrackerTarget};
use crate::json::{self, Json};
use crate::native;
use crate::parse;
use crate::text;
use vstd::prelude::*;

verus! {

broadcast use json::law_lookup_put;

/// Whether a document was sent to a machine, and taken.
pub open spec fn sent(
    e: Event,
    t: FirecrackerTarget,
    method: Seq<char>,
    path: Seq<char>,
    d: Json,
) -> bool {
    e matches Event::Ran(c, Ok(_)) && c == commands::api_text(
        t.sock@,
        method,
        path,
        json::text_of(d),
    )
}

proof fn lemma_taken(plan: Seq<Ask>, l0: Seq<Event>, l1: Seq<Event>, i: int)
    requires
        native::went(plan, l0, l1, Ok(())),
        0 <= i < plan.len(),
    ensures
        l1.len() == l0.len() + plan.len(),
        l1[l0.len() + i] == adapter::since(l0, l1)[i],
        plan[i] matches Ask::Command(c) ==> (l1[l0.len() + i] matches Event::Ran(q, Ok(_)) && q == c),
        plan[i] is Clock ==> l1[l0.len() + i] is Clocked,
{
    assert(adapter::taken(plan[i], adapter::since(l0, l1)[i]));
}

proof fn lemma_load_keys()
    ensures
        "snapshot_path"@ != "mem_backend"@,
        "snapshot_path"@ != "resume_vm"@,
        "mem_backend"@ != "resume_vm"@,
        "backend_type"@ != "backend_path"@,
{
    reveal_strlit("snapshot_path");
    reveal_strlit("mem_backend");
    reveal_strlit("resume_vm");
    reveal_strlit("backend_type");
    reveal_strlit("backend_path");
    assert("snapshot_path"@[0] == 's' && "mem_backend"@[0] == 'm' && "resume_vm"@[0] == 'r');
    assert("backend_type"@[8] == 't' && "backend_path"@[8] == 'p');
}

/// A machine that was restored was sent one document that loads it: with the
/// snapshot under `snapshot_path`, asking to resume, and with the memory file under
/// `mem_backend.backend_path`. Where memory is streamed that is the file of the stream
/// mount in place of the memory file, and where a handler serves memory it is the
/// handler's socket.
pub proof fn law_restore_loads_the_snapshot(
    a: FirecrackerTarget,
    b: FirecrackerTarget,
    l0: Seq<Event>,
    l1: Seq<Event>,
    snap: Seq<char>,
    mem: Seq<char>,
) -> (at: (int, Json))
    requires
        firecracker::pair(a.from_snapshot) == Some((snap, mem)),
        firecracker::provisioned(a, b, l0, l1, Ok(())),
    ensures
        l0.len() < at.0 < l1.len(),
        sent(l1[at.0], a, "PUT"@, "/snapshot/load"@, at.1),
        json::str_field(at.1, "snapshot_path"@) == Some(snap),
        json::member(at.1, "resume_vm"@) == Json::Bool(true),
        ({
            let backend = json::member(at.1, "mem_backend"@);
            &&& !a.uffd && a.stream_source is None ==> json::str_field(backend, "backend_type"@)
                == Some("File"@) && json::str_field(backend, "backend_path"@) == Some(mem)
            &&& !a.uffd && a.stream_source is Some ==> json::str_field(backend, "backend_type"@)
                == Some("File"@) && json::str_field(backend, "backend_path"@) == Some(
                a.stream_dir@ + "/mem"@,
            )
            &&& a.uffd ==> json::str_field(backend, "backend_type"@) == Some("Uffd"@)
                && json::str_field(backend, "backend_path"@) == Some(a.sock@ + ".uffd"@)
        }),
{
    let plan = a.restore_plan(snap, mem);
    let n = plan.len() - 2;
    let d = json::fields().text("snapshot_path"@, snap).with("mem_backend"@, a.backend(mem)).with(
        "resume_vm"@,
        Json::Bool(true),
    ).json();
    assert(plan[n] == Ask::Command(
        commands::api_text(a.sock@, "PUT"@, "/snapshot/load"@, json::text_of(d)),
    ));
    lemma_taken(plan, l0, l1, n);
    lemma_load_keys();
    (l0.len() + n, d)
}

/// The snapshot and the memory file that are loaded are those of the settings, with
/// the variables of the run put in.
pub proof fn law_configured_snapshot_is_loaded(
    a: FirecrackerTarget,
    b: FirecrackerTarget,
    l0: Seq<Event>,
    l1: Seq<Event>,
    config: Seq<(Seq<char>, Json)>,
    vars: Seq<(Seq<char>, Seq<char>)>,
    pin_threads: bool,
    process: u32,
    nonce: u64,
    snap: Seq<char>,
    mem: Seq<char>,
) -> (at: (int, Json))
    requires
        firecracker::configured(a, config, vars, pin_threads, process, nonce),
        json::lookup(config, "from_snapshot"@) == Some(Json::Str(snap)),
        json::lookup(config, "mem_file"@) == Some(Json::Str(mem)),
        firecracker::provisioned(a, b, l0, l1, Ok(())),
    ensures
        l0.len() < at.0 < l1.len(),
        sent(l1[at.0], a, "PUT"@, "/snapshot/load"@, at.1),
        json::str_field(at.1, "snapshot_path"@) == Some(adapter::rendered(snap, vars)),
        !a.uffd && a.stream_source is None ==> json::str_field(
            json::member(at.1, "mem_backend"@),
            "backend_path"@,
        ) == Some(adapter::rendered(mem, vars)),
        vars.len() == 0 ==> json::str_field(at.1, "snapshot_path"@) == Some(snap),
{
    law_restore_loads_the_snapshot(
        a,
        b,
        l0,
        l1,
        adapter::rendered(snap, vars),
        adapter::rendered(mem, vars),
    )
}

/// A restore launches the machine first, and runs what is to be run before it, where
/// that is given, before the snapshot is loaded. The load is timed, from just before
/// it to just after, and its span is added to what the target recorded.
pub proof fn law_restore_is_timed(
    a: FirecrackerTarget,
    b: FirecrackerTarget,
    l0: Seq<Event>,
    l1: Seq<Event>,
)
    requires
        a.from_snapshot is Some,
        firecracker::provisioned(a, b, l0, l1, Ok(())),
    ensures
        l1.len() >= l0.len() + 4,
        l1[l0.len() as int] matches Event::Ran(c, Ok(_)) && c == commands::firecracker_launch_text(
            a.sock@,
            a.bin@,
        ),
        l1[l1.len() - 3] is Clocked,
        l1[l1.len() - 1] is Clocked,
        b.recorded@.len() == a.recorded@.len() + 1,
        forall|i: int| 0 <= i < a.recorded@.len() ==> (#[trigger] b.recorded@[i])@ == a.recorded@[i]@,
        json::str_field(b.recorded@.last()@, "name"@) == Some("restore.resume_to_steady"@),
        json::member(b.recorded@.last()@, "start_unix_nano"@) == Json::Int(
            l1[l1.len() - 3]->Clocked_0 as int,
        ),
        json::member(b.recorded@.last()@, "end_unix_nano"@) == Json::Int(
            l1[l1.len() - 1]->Clocked_0 as int,
        ),
{
    let p = firecracker::pair(a.from_snapshot)->0;
    let plan = a.restore_plan(p.0, p.1);
    let n = plan.len() as int;
    assert(plan[0] == a.launched());
    assert(plan[n - 3] is Clock);
    assert(plan[n - 1] is Clock);
    lemma_taken(plan, l0, l1, 0);
    lemma_taken(plan, l0, l1, n - 3);
    lemma_taken(plan, l0, l1, n - 1);
    let before = json::jsons(a.recorded@);
    let after = json::jsons(b.recorded@);
    assert(after.len() == b.recorded@.len());
    assert(before.len() == a.recorded@.len());
    assert forall|i: int| 0 <= i < a.recorded@.len() implies (#[trigger] b.recorded@[i])@
        == a.recorded@[i]@ by {
        assert(after[i] == b.recorded@[i]@);
        assert(before[i] == a.recorded@[i]@);
        assert(after[i] == before[i]);
    }
    assert(after.last() == b.recorded@.last()@);
    reveal_strlit("name");
    reveal_strlit("start_unix_nano");
    reveal_strlit("end_unix_nano");
    assert("name"@[0] == 'n' && "start_unix_nano"@[0] == 's' && "end_unix_nano"@[0] == 'e');
}

/// What is to be run before a restore is run before the load that is timed.
pub proof fn law_preparation_precedes_the_load(
    a: FirecrackerTarget,
    b: FirecrackerTarget,
    l0: Seq<Event>,
    l1: Seq<Event>,
    c: Seq<char>,
) -> (at: int)
    requires
        a.from_snapshot is Some,
        native::command_in(a.pre_restore) == Some(c),
        firecracker::provisioned(a, b, l0, l1, Ok(())),
    ensures
        l0.len() < at < l1.len() - 3,
        l1[at] matches Event::Ran(q, Ok(_)) && q == c,
{
    let p = firecracker::pair(a.from_snapshot)->0;
    let plan = a.restore_plan(p.0, p.1);
    let n: int = if a.stream_source is Some {
        2
    } else {
        1
    };
    assert(native::optional_step(a.pre_restore)[0] == Ask::Command(c));
    assert(a.restore_prelude(p.1)[n] == Ask::Command(c));
    assert(plan[n] == Ask::Command(c));
    lemma_taken(plan, l0, l1, n);
    lemma_taken(plan, l0, l1, plan.len() - 3);
    l0.len() + n
}

/// Memory that is streamed is mounted right after the machine is launched, from its
/// source, before anything else is done for the restore.
pub proof fn law_streams_are_mounted_first(
    a: FirecrackerTarget,
    b: FirecrackerTarget,
    l0: Seq<Event>,
    l1: Seq<Event>,
    snap: Seq<char>,
    mem: Seq<char>,
)
    requires
        firecracker::pair(a.from_snapshot) == Some((snap, mem)),
        a.stream_source is Some,
        firecracker::provisioned(a, b, l0, l1, Ok(())),
    ensures
        l1.len() > l0.len() + 4,
        l1[l0.len() + 1int] matches Event::Ran(c, Ok(_)) && c == commands::stream_launch_text(
            a.stream_dir@,
            a.stream_bin@,
            a.stream_source->0@,
            mem,
        ),
{
    let plan = a.restore_plan(snap, mem);
    let mount = Ask::Command(
        commands::stream_launch_text(a.stream_dir@, a.stream_bin@, a.stream_source->0@, mem),
    );
    assert(a.restore_prelude(mem)[1] == mount);
    assert(plan[1] == mount);
    lemma_taken(plan, l0, l1, 1);
}

/// Where a handler serves memory, it is launched right before the load is timed, with its
/// socket and the memory file put into its command. Without a handler there is no
/// such restore.
pub proof fn law_handlers_serve_before_the_load(
    a: FirecrackerTarget,
    b: FirecrackerTarget,
    l0: Seq<Event>,
    l1: Seq<Event>,
    snap: Seq<char>,
    mem: Seq<char>,
)
    requires
        firecracker::pair(a.from_snapshot) == Some((snap, mem)),
        a.uffd,
        firecracker::provisioned(a, b, l0, l1, Ok(())),
    ensures
        native::command_in(a.uffd_handler) is Some,
        l1.len() > l0.len() + 4,
        l1[l1.len() - 4] matches Event::Ran(c, Ok(_)) && exists|vars: Seq<(Seq<char>, Seq<char>)>|
            {
                &&& c == commands::uffd_launch_text(
                    #[trigger] adapter::rendered(native::command_in(a.uffd_handler)->0, vars),
                    a.sock@ + ".uffd"@,
                )
                &&& json::lookup(vars, "uffd_uds"@) == Some(a.sock@ + ".uffd"@)
                &&& json::lookup(vars, "mem_file"@) == Some(mem)
            },
{
    let plan = a.restore_plan(snap, mem);
    let vars = json::put(
        json::put(Seq::<(Seq<char>, Seq<char>)>::empty(), "uffd_uds"@, a.sock@ + ".uffd"@),
        "mem_file"@,
        mem,
    );
    let h = native::command_in(a.uffd_handler)->0;
    let serve = Ask::Command(
        commands::uffd_launch_text(adapter::rendered(h, vars), a.sock@ + ".uffd"@),
    );
    let n = plan.len() - 4;
    assert(plan[n] == serve);
    lemma_taken(plan, l0, l1, n);
    assert(a.restore_prelude(mem).len() >= 1);
    reveal_strlit("uffd_uds");
    reveal_strlit("mem_file");
    assert("uffd_uds"@[0] == 'u' && "mem_file"@[0] == 'm');
}

proof fn lemma_boot_keys()
    ensures
        "vcpu_count"@ != "mem_size_mib"@ && "vcpu_count"@ != "smt"@ && "mem_size_mib"@ != "smt"@,
        "kernel_image_path"@ != "boot_args"@,
        "drive_id"@ != "path_on_host"@ && "drive_id"@ != "is_root_device"@,
        "drive_id"@ != "is_read_only"@ && "path_on_host"@ != "is_root_device"@,
        "path_on_host"@ != "is_read_only"@ && "is_root_device"@ != "is_read_only"@,
{
    reveal_strlit("vcpu_count");
    reveal_strlit("mem_size_mib");
    reveal_strlit("smt");
    reveal_strlit("kernel_image_path");
    reveal_strlit("boot_args");
    reveal_strlit("drive_id");
    reveal_strlit("path_on_host");
    reveal_strlit("is_root_device");
    reveal_strlit("is_read_only");
    assert("vcpu_count"@[0] == 'v' && "mem_size_mib"@[0] == 'm' && "smt"@[0] == 's');
    assert("kernel_image_path"@[0] == 'k' && "boot_args"@[0] == 'b');
    assert("drive_id"@[0] == 'd' && "path_on_host"@[0] == 'p');
    assert("is_root_device"@.len() == 14 && "is_read_only"@.len() == 12);
    assert("is_root_device"@[0] == 'i' && "is_read_only"@[0] == 'i');
}

/// A machine that was booted was sent its size, its kernel and its root drive: as
/// many processors and as much memory as the target's texts say, one processor and
/// 128 MiB where they say no number; the kernel with its arguments; and the root
/// file system as a root device that can be written.
pub proof fn law_boot_configures_the_machine(
    a: FirecrackerTarget,
    b: FirecrackerTarget,
    l0: Seq<Event>,
    l1: Seq<Event>,
) -> (d: (Json, Json, Json))
    requires
        a.from_snapshot is None,
        firecracker::provisioned(a, b, l0, l1, Ok(())),
    ensures
        l1.len() >= l0.len() + 4,
        l1[l0.len() as int] matches Event::Ran(c, Ok(_)) && c == commands::firecracker_launch_text(
            a.sock@,
            a.bin@,
        ),
        sent(l1[l0.len() + 1int], a, "PUT"@, "/machine-config"@, d.0),
        sent(l1[l0.len() + 2int], a, "PUT"@, "/boot-source"@, d.1),
        sent(l1[l0.len() + 3int], a, "PUT"@, "/drives/rootfs"@, d.2),
        json::member(d.0, "vcpu_count"@) == Json::Int(
            match text::unsigned(a.vcpu@, u64::MAX as nat) {
                Some(n) => n as int,
                None => 1,
            },
        ),
        json::member(d.0, "mem_size_mib"@) == Json::Int(
            match text::unsigned(a.mem_mib@, u64::MAX as nat) {
                Some(n) => n as int,
                None => 128,
            },
        ),
        json::member(d.0, "smt"@) == Json::Bool(a.smt),
        json::str_field(d.1, "kernel_image_path"@) == Some(a.kernel@),
        json::str_field(d.1, "boot_args"@) == Some(a.boot_args@),
        json::str_field(d.2, "drive_id"@) == Some("rootfs"@),
        json::str_field(d.2, "path_on_host"@) == Some(a.rootfs@),
        json::member(d.2, "is_root_device"@) == Json::Bool(true),
        json::member(d.2, "is_read_only"@) == Json::Bool(false),
{
    let plan = a.boot_plan();
    let machine = json::fields().with(
        "vcpu_count"@,
        Json::Int(firecracker::number_or(a.vcpu@, 1) as int),
    ).with("mem_size_mib"@, Json::Int(firecracker::number_or(a.mem_mib@, 128) as int)).with(
        "smt"@,
        Json::Bool(a.smt),
    ).json();
    let boot = json::fields().text("kernel_image_path"@, a.kernel@).text(
        "boot_args"@,
        a.boot_args@,
    ).json();
    let drive = json::fields().text("drive_id"@, "rootfs"@).text("path_on_host"@, a.rootfs@).with(
        "is_root_device"@,
        Json::Bool(true),
    ).with("is_read_only"@, Json::Bool(false)).json();
    let mid = if a.tap is Some {
        choose|mid: Seq<Event>| #[trigger]
            native::went(plan, l0, mid, Ok(())) && firecracker::networked(
                a,
                b,
                a.tap->0@,
                mid,
                l1,
                Ok(()),
            )
    } else {
        l1
    };
    assert(plan[0] == a.launched());
    assert(plan[1] == a.call("PUT"@, "/machine-config"@, json::text_of(machine)));
    assert(plan[2] == a.call("PUT"@, "/boot-source"@, json::text_of(boot)));
    assert(plan[3] == a.call("PUT"@, "/drives/rootfs"@, json::text_of(drive)));
    lemma_taken(plan, l0, mid, 0);
    lemma_taken(plan, l0, mid, 1);
    lemma_taken(plan, l0, mid, 2);
    lemma_taken(plan, l0, mid, 3);
    if a.tap is Some {
        assert forall|i: int| 0 <= i < mid.len() implies #[trigger] l1[i] == mid[i] by {
            assert(l1.drop_last()[i] == mid[i]);
        }
        assert(l1[l0.len() as int] == mid[l0.len() as int]);
        assert(l1[l0.len() + 1int] == mid[l0.len() + 1int]);
        assert(l1[l0.len() + 2int] == mid[l0.len() + 2int]);
        assert(l1[l0.len() + 3int] == mid[l0.len() + 3int]);
    }
    lemma_boot_keys();
    (machine, boot, drive)
}

proof fn lemma_network_keys()
    ensures
        "iface_id"@ != "host_dev_name"@ && "iface_id"@ != "guest_mac"@,
        "host_dev_name"@ != "guest_mac"@,
{
    reveal_strlit("iface_id");
    reveal_strlit("host_dev_name");
    reveal_strlit("guest_mac");
    assert("iface_id"@[0] == 'i' && "host_dev_name"@[0] == 'h' && "guest_mac"@[0] == 'g');
}

/// A machine that was booted with a network was sent its tap as the host's side of
/// `eth0`, with its own address; and the target knows the index that was read of the
/// tap.
pub proof fn law_boot_attaches_the_tap(
    a: FirecrackerTarget,
    b: FirecrackerTarget,
    l0: Seq<Event>,
    l1: Seq<Event>,
) -> (d: Json)
    requires
        a.from_snapshot is None,
        a.tap is Some,
        firecracker::provisioned(a, b, l0, l1, Ok(())),
    ensures
        l1.len() >= l0.len() + 3,
        sent(l1.last(), a, "PUT"@, "/network-interfaces/eth0"@, d),
        json::str_field(d, "iface_id"@) == Some("eth0"@),
        json::str_field(d, "host_dev_name"@) == Some(a.tap->0@),
        json::str_field(d, "guest_mac"@) == Some(a.guest_mac@),
        l1[l1.len() - 3] matches Event::Ran(c, Ok(_)) && c == commands::tap_add_text(a.tap->0@),
        l1[l1.len() - 2] matches Event::Ran(c, Ok(said)) && c == commands::tap_index_text(a.tap->0@)
            && text::unsigned(text::trimmed(said), u32::MAX as nat) is Some && b.tap_ifindex == Some(
            text::unsigned(text::trimmed(said), u32::MAX as nat)->0 as u32,
        ),
{
    let plan = a.boot_plan();
    let mid = choose|mid: Seq<Event>| #[trigger]
        native::went(plan, l0, mid, Ok(())) && firecracker::networked(
            a,
            b,
            a.tap->0@,
            mid,
            l1,
            Ok(()),
        );
    let d = json::fields().text("iface_id"@, "eth0"@).text("host_dev_name"@, a.tap->0@).text(
        "guest_mac"@,
        a.guest_mac@,
    ).json();
    assert(plan[4] == Ask::Command(commands::tap_add_text(a.tap->0@)));
    assert(plan[5] == Ask::Command(commands::tap_index_text(a.tap->0@)));
    lemma_taken(plan, l0, mid, 4);
    lemma_taken(plan, l0, mid, 5);
    assert(l1.drop_last()[mid.len() - 2] == mid[mid.len() - 2]);
    assert(l1.drop_last()[mid.len() - 1] == mid[mid.len() - 1]);
    lemma_network_keys();
    d
}

proof fn lemma_create_keys()
    ensures
        "snapshot_type"@ != "snapshot_path"@,
        "snapshot_type"@ != "mem_file_path"@,
        "snapshot_path"@ != "mem_file_path"@,
{
    reveal_strlit("snapshot_type");
    reveal_strlit("snapshot_path");
    reveal_strlit("mem_file_path");
    assert("snapshot_type"@[9] == 't' && "snapshot_path"@[9] == 'p');
    assert("snapshot_type"@[0] == 's' && "snapshot_path"@[0] == 's' && "mem_file_path"@[0] == 'm');
}

/// A machine that was snapshotted was paused, was sent a document that creates a full
/// snapshot, with the snapshot under `snapshot_path` and the memory under
/// `mem_file_path`, and was resumed.
pub proof fn law_snapshots_are_created_where_asked(
    a: FirecrackerTarget,
    b: FirecrackerTarget,
    snap: Seq<char>,
    mem: Seq<char>,
    l0: Seq<Event>,
    l1: Seq<Event>,
) -> (d: Json)
    requires
        firecracker::snapshotted(a, b, snap, mem, l0, l1, Ok(())),
    ensures
        l1.len() == l0.len() + 5,
        l1[l0.len() as int] matches Event::Ran(c, Ok(_)) && c == commands::api_text(
            a.sock@,
            "PATCH"@,
            "/vm"@,
            "{\"state\":\"Paused\"}"@,
        ),
        l1[l0.len() + 1int] is Clocked,
        sent(l1[l0.len() + 2int], a, "PUT"@, "/snapshot/create"@, d),
        l1[l0.len() + 3int] is Clocked,
        l1.last() matches Event::Ran(c, Ok(_)) && c == commands::api_text(
            a.sock@,
            "PATCH"@,
            "/vm"@,
            "{\"state\":\"Resumed\"}"@,
        ),
        json::str_field(d, "snapshot_type"@) == Some("Full"@),
        json::str_field(d, "snapshot_path"@) == Some(snap),
        json::str_field(d, "mem_file_path"@) == Some(mem),
{
    let plan = a.snapshot_plan(snap, mem);
    let mid = choose|mid: Seq<Event>| #[trigger]
        firecracker::timed_plan(a, b, "snapshot.create"@, plan, l0, mid, Ok(())) && native::did(
            commands::api_text(a.sock@, "PATCH"@, "/vm"@, "{\"state\":\"Resumed\"}"@),
            mid,
            l1,
            Ok(()),
        );
    let d = json::fields().text("snapshot_type"@, "Full"@).text("snapshot_path"@, snap).text(
        "mem_file_path"@,
        mem,
    ).json();
    assert(plan.len() == 4);
    lemma_taken(plan, l0, mid, 0);
    lemma_taken(plan, l0, mid, 1);
    lemma_taken(plan, l0, mid, 2);
    lemma_taken(plan, l0, mid, 3);
    assert forall|i: int| 0 <= i < mid.len() implies #[trigger] l1[i] == mid[i] by {
        assert(l1.drop_last()[i] == mid[i]);
    }
    assert(l1[l0.len() as int] == mid[l0.len() as int]);
    assert(l1[l0.len() + 1int] == mid[l0.len() + 1int]);
    assert(l1[l0.len() + 2int] == mid[l0.len() + 2int]);
    assert(l1[l0.len() + 3int] == mid[l0.len() + 3int]);
    lemma_create_keys();
    d
}

// ---------------------------------------------------------------------------
// Settings
// ---------------------------------------------------------------------------

/// What settings say under a key: a text with the variables put in, anything else as
/// JSON; the default where they say nothing.
pub open spec fn said(
    config: Seq<(Seq<char>, Json)>,
    vars: Seq<(Seq<char>, Seq<char>)>,
    key: Seq<char>,
    default: Seq<char>,
) -> Seq<char> {
    match json::lookup(config, key) {
        None => default,
        Some(Json::Str(s)) => adapter::rendered(s, vars),
        Some(j) => json::text_of(j),
    }
}

/// A machine has the binary, the kernel, the root file system, the boot arguments and
/// the snapshots that the settings name, each from its own key. As many processors and
/// as much memory as its cell says go before those of the settings.
pub proof fn law_machines_are_as_configured(
    t: FirecrackerTarget,
    config: Seq<(Seq<char>, Json)>,
    vars: Seq<(Seq<char>, Seq<char>)>,
    pin_threads: bool,
    process: u32,
    nonce: u64,
)
    requires
        firecracker::configured(t, config, vars, pin_threads, process, nonce),
    ensures
        t.bin@ == said(config, vars, "bin"@, "firecracker"@),
        t.kernel@ == said(config, vars, "kernel"@, ""@),
        t.rootfs@ == said(config, vars, "rootfs"@, ""@),
        t.boot_args@ == said(config, vars, "boot_args"@, "console=ttyS0 reboot=k panic=1"@),
        t.vcpu@ == (match json::lookup(vars, "vcpu"@) {
            Some(v) => v,
            None => said(config, vars, "vcpu"@, "1"@),
        }),
        t.mem_mib@ == (match json::lookup(vars, "mem_mib"@) {
            Some(v) => v,
            None => said(config, vars, "mem_mib"@, "128"@),
        }),
        json::lookup(config, "api_sock"@) is Some ==> t.sock@ == said(config, vars, "api_sock"@, ""@),
        firecracker::pair(t.from_snapshot) == (if json::lookup(config, "from_snapshot"@) is Some {
            Some((said(config, vars, "from_snapshot"@, ""@), said(config, vars, "mem_file"@, ""@)))
        } else {
            None
        }),
        firecracker::pair(t.snapshot_out) == (if json::lookup(config, "snapshot_out"@) is Some {
            Some(
                (said(config, vars, "snapshot_out"@, ""@), said(config, vars, "snapshot_mem"@, ""@)),
            )
        } else {
            None
        }),
        text::opt_text(t.readiness) == (if json::lookup(config, "readiness"@) is Some {
            Some(said(config, vars, "readiness"@, ""@))
        } else {
            None
        }),
        text::opt_text(t.pre_restore) == (if json::lookup(config, "pre_restore"@) is Some {
            Some(said(config, vars, "pre_restore"@, ""@))
        } else {
            None
        }),
        text::opt_text(t.uffd_handler) == (if json::lookup(config, "uffd_handler"@) is Some {
            Some(said(config, vars, "uffd_handler"@, ""@))
        } else {
            None
        }),
        t.smt <==> said(config, vars, "smt"@, "false"@) == "true"@ || said(
            config,
            vars,
            "smt"@,
            "false"@,
        ) == "on"@ || said(config, vars, "smt"@, "false"@) == "1"@,
        t.uffd <==> text::lowercase(said(config, vars, "mem_backend"@, "File"@)) == "uffd"@,
        t.tap is Some <==> text::lowercase(said(config, vars, "network"@, ""@)) == "tap"@,
        t.pin_threads == pin_threads,
        t.recorded@.len() == 0 && t.pinning is None && t.tap_ifindex is None,
{
}

// ---------------------------------------------------------------------------
// Steady
// ---------------------------------------------------------------------------

proof fn lemma_grown_by_snapshot(
    a: FirecrackerTarget,
    b: FirecrackerTarget,
    mid: Seq<Event>,
    l1: Seq<Event>,
    i: int,
)
    requires
        firecracker::maybe_snapshotted(a, b, mid, l1, Ok(())),
        0 <= i < mid.len(),
    ensures
        i < l1.len(),
        l1[i] == mid[i],
        b.pinning == a.pinning,
{
    if let Some((snap, mem)) = firecracker::pair(a.snapshot_out) {
        let plan = a.snapshot_plan(snap, mem);
        let last = choose|m: Seq<Event>| #[trigger]
            firecracker::timed_plan(a, b, "snapshot.create"@, plan, mid, m, Ok(())) && native::did(
                commands::api_text(a.sock@, "PATCH"@, "/vm"@, "{\"state\":\"Resumed\"}"@),
                m,
                l1,
                Ok(()),
            );
        assert(last.take(mid.len() as int)[i] == last[i]);
        assert(l1.drop_last()[i] == last[i]);
    }
}

/// A machine that is to be snapshotted once it is steady was sent a document that creates
/// the snapshot where its settings say, and was resumed after.
pub proof fn law_steady_machines_are_snapshotted(
    a: FirecrackerTarget,
    b: FirecrackerTarget,
    l0: Seq<Event>,
    l1: Seq<Event>,
    snap: Seq<char>,
    mem: Seq<char>,
) -> (d: Json)
    requires
        firecracker::pair(a.snapshot_out) == Some((snap, mem)),
        firecracker::steadied(a, b, l0, l1, Ok(())),
    ensures
        l1.len() >= l0.len() + 5,
        sent(l1[l1.len() - 3], a, "PUT"@, "/snapshot/create"@, d),
        json::str_field(d, "snapshot_type"@) == Some("Full"@),
        json::str_field(d, "snapshot_path"@) == Some(snap),
        json::str_field(d, "mem_file_path"@) == Some(mem),
        l1.last() matches Event::Ran(c, Ok(_)) && c == commands::api_text(
            a.sock@,
            "PATCH"@,
            "/vm"@,
            "{\"state\":\"Resumed\"}"@,
        ),
{
    let plan = a.steady_plan();
    let mid = choose|mid: Seq<Event>| #[trigger]
        native::went(plan, l0, mid, Ok(())) && if a.pin_threads {
            firecracker::pinned_then(a, b, mid, l1, Ok(()))
        } else {
            firecracker::maybe_snapshotted(a, b, mid, l1, Ok(()))
        };
    let t = if a.pin_threads {
        FirecrackerTarget { pinning: b.pinning, ..a }
    } else {
        a
    };
    law_snapshots_are_created_where_asked(t, b, snap, mem, mid, l1)
}

/// A machine whose threads are to be pinned knows, once it is steady, the layout that the
/// command that pins printed: an object that is not empty.
pub proof fn law_steady_machines_know_their_pinning(
    a: FirecrackerTarget,
    b: FirecrackerTarget,
    l0: Seq<Event>,
    l1: Seq<Event>,
) -> (at: int)
    requires
        a.pin_threads,
        firecracker::steadied(a, b, l0, l1, Ok(())),
    ensures
        l0.len() <= at < l1.len(),
        l1[at] matches Event::Ran(c, Ok(out)) && {
            &&& c == commands::pin_text(a.sock@, text::decimal(a.cpu_base as nat))
            &&& b.pinning is Some
            &&& parse::parsed(text::trimmed(out)) == Ok::<Json, Seq<char>>(b.pinning->0@)
            &&& b.pinning->0@ matches Json::Obj(m) && m.len() > 0
        },
{
    let plan = a.steady_plan();
    let mid = choose|mid: Seq<Event>| #[trigger]
        native::went(plan, l0, mid, Ok(())) && firecracker::pinned_then(a, b, mid, l1, Ok(()));
    let n = plan.len() - 1;
    assert(plan[n] == Ask::Command(
        commands::pin_text(a.sock@, text::decimal(a.cpu_base as nat)),
    ));
    lemma_taken(plan, l0, mid, n);
    let t = FirecrackerTarget { pinning: b.pinning, ..a };
    lemma_grown_by_snapshot(t, b, mid, l1, mid.len() - 1);
    l0.len() + n
}

/// A readiness probe that is given is what is run first to bring a machine to steady.
pub proof fn law_readiness_is_probed_first(
    a: FirecrackerTarget,
    b: FirecrackerTarget,
    l0: Seq<Event>,
    l1: Seq<Event>,
    c: Seq<char>,
)
    requires
        native::command_in(a.readiness) == Some(c),
        firecracker::steadied(a, b, l0, l1, Ok(())),
    ensures
        l1.len() > l0.len(),
        l1[l0.len() as int] matches Event::Ran(q, Ok(_)) && q == c,
{
    let plan = a.steady_plan();
    let mid = choose|mid: Seq<Event>| #[trigger]
        native::went(plan, l0, mid, Ok(())) && if a.pin_threads {
            firecracker::pinned_then(a, b, mid, l1, Ok(()))
        } else {
            firecracker::maybe_snapshotted(a, b, mid, l1, Ok(()))
        };
    assert(plan[0] == Ask::Command(c));
    lemma_taken(plan, l0, mid, 0);
    let t = if a.pin_threads {
        FirecrackerTarget { pinning: b.pinning, ..a }
    } else {
        a
    };
    lemma_grown_by_snapshot(t, b, mid, l1, l0.len() as int);
}

} // verus!
