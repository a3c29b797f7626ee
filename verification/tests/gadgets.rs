use assayist::block::{self, MAX_OCTAVES, MAX_SLOTS, SUBSLOTS};
use assayist::ctrlplane::{self, Components};
use assayist::gadget::{self, Cost, Entry, Order};
use assayist::json::Doc;
use assayist::kvm::{self, Keying};
use assayist::net::{self, Iface, Tap};
use assayist::netattrib::{
    state_name, LIFECYCLE_PAUSED, LIFECYCLE_PAUSING, LIFECYCLE_RESUMING, LIFECYCLE_RUNNING,
};
use assayist::owner::{
    fragment, key_for_handle, parse_command, plan, reply, state_from_name, Change, Command, Stats,
    VmCtx,
};
use assayist::snapshot;

fn at<'a>(d: &'a Doc, path: &[&str]) -> &'a Doc {
    let mut cur = d;
    for k in path {
        cur = cur.get(k).unwrap();
    }
    cur
}

fn text_at<'a>(d: &'a Doc, path: &[&str]) -> &'a str {
    at(d, path).as_str().unwrap()
}

fn num_at(d: &Doc, path: &[&str]) -> u64 {
    at(d, path).as_u64().unwrap()
}

fn list_at<'a>(d: &'a Doc, path: &[&str]) -> &'a Vec<Doc> {
    at(d, path).as_array().unwrap()
}

fn cost(ns: u64) -> Cost {
    Cost {
        run_time_ns: ns,
        run_cnt: 4,
        mean_ns: "2.5".to_string(),
        steady_cpu_fraction: "0.001".to_string(),
        over_budget: false,
    }
}

// --- block -----------------------------------------------------------------

#[test]
fn collapse_sums_each_octave() {
    let mut slots = [0u32; MAX_SLOTS];
    // octave 3, all four sub-buckets; octave 10, one sub-bucket.
    slots[3 * SUBSLOTS] = 1;
    slots[3 * SUBSLOTS + 1] = 2;
    slots[3 * SUBSLOTS + 2] = 3;
    slots[3 * SUBSLOTS + 3] = 4;
    slots[10 * SUBSLOTS + 2] = 5;
    let oct = block::collapse_to_log2(&slots);
    assert_eq!(oct.len(), MAX_OCTAVES);
    assert_eq!(oct[3], 10);
    assert_eq!(oct[10], 5);
    assert_eq!(oct.iter().sum::<u32>(), 15);
}

#[test]
fn bounds_len_is_one_less_than_buckets() {
    // The contract's explicit layout wants len(buckets) - 1 bounds.
    assert_eq!(block::log_linear_bounds().len(), MAX_SLOTS - 1);
}

#[test]
fn bounds_are_monotone_and_finer_than_octaves() {
    let b: Vec<f64> = block::log_linear_bounds().iter().map(|t| t.parse().unwrap()).collect();
    for w in b.windows(2) {
        assert!(w[1] > w[0], "bounds must strictly increase: {w:?}");
    }
    // Octave 3 spans [8, 16); its four sub-bucket upper edges are 10,12,14,16.
    let base = (1u64 << 3) as f64;
    for sub in 0..SUBSLOTS {
        let s = 3 * SUBSLOTS + sub;
        let want = base * (1.0 + (sub as f64 + 1.0) / SUBSLOTS as f64);
        assert!((b[s] - want).abs() < 1e-9, "bound {s} = {} want {want}", b[s]);
    }
}

#[test]
fn bounds_are_written_exactly() {
    let b = block::log_linear_bounds();
    assert_eq!(b[0], "1.25");
    assert_eq!(b[1], "1.5");
    assert_eq!(b[2], "1.75");
    assert_eq!(b[3], "2.0");
    assert_eq!(b[12], "10.0");
    assert_eq!(b[158], "962072674304.0");
}

#[test]
fn octaves_that_do_not_fit_are_told() {
    let mut slots = vec![0u32; MAX_SLOTS];
    assert!(block::collapse_fits(&slots));
    slots[8] = u32::MAX;
    assert!(block::collapse_fits(&slots));
    slots[9] = 1;
    assert!(!block::collapse_fits(&slots));
}

#[test]
fn devices_are_major_and_minor() {
    assert_eq!(block::dev_str((259 << 20) | 3), "259:3");
    assert_eq!(block::dev_str(0xFFFFF), "0:1048575");
}

fn block_entry(dev: u32, write: u8, slot: usize, n: u32, moved: u64) -> Entry {
    let mut key = dev.to_le_bytes().to_vec();
    key.extend([write, 0, 0, 0]);
    let mut value = vec![0u8; 648];
    value[slot * 4..slot * 4 + 4].copy_from_slice(&n.to_le_bytes());
    value[640..648].copy_from_slice(&moved.to_le_bytes());
    Entry { key, value }
}

#[test]
fn block_series_are_two_per_active_device_and_direction() {
    let entries = vec![
        block_entry((8 << 20) | 1, 1, 13, 7, 4096),
        block_entry((8 << 20) | 2, 0, 0, 0, 99),
    ];
    let s = block::series(&entries, false, 256, Order::Little);
    assert_eq!(s.len(), 2);
    assert_eq!(text_at(&s[0], &["name"]), "block.io_latency:write");
    assert_eq!(text_at(&s[0], &["key"]), "8:1");
    assert_eq!(text_at(&s[0], &["data", "layout"]), "log2");
    assert_eq!(num_at(&s[0], &["data", "count"]), 7);
    assert_eq!(list_at(&s[0], &["data", "buckets"])[3].as_u64(), Some(7));
    assert_eq!(list_at(&s[0], &["data", "buckets"]).len(), MAX_OCTAVES);
    assert_eq!(text_at(&s[1], &["name"]), "block.io_bytes:write");
    assert_eq!(num_at(&s[1], &["data", "value"]), 4096);
    assert_eq!(num_at(&s[1], &["cardinality", "max_keys"]), 256);

    let h = block::series(&entries, true, 256, Order::Little);
    assert_eq!(text_at(&h[0], &["data", "layout"]), "explicit");
    assert_eq!(list_at(&h[0], &["data", "buckets"]).len(), MAX_SLOTS);
    assert_eq!(list_at(&h[0], &["data", "explicit_bounds"]).len(), MAX_SLOTS - 1);

    let f = block::fragment(s, &cost(10), &cost(20), 5);
    assert_eq!(text_at(&f, &["capture_meta", "gadget"]), "assayist-capture-block");
    assert_eq!(num_at(&f, &["capture_meta", "window_ns"]), 5);
    let m = list_at(&f, &["self_metrics"]);
    assert_eq!(text_at(&m[0], &["probe_id"]), "block_rq_issue");
    assert_eq!(text_at(&m[1], &["attach_kind"]), "tracepoint");
    assert_eq!(num_at(&m[1], &["run_time_ns"]), 20);
    assert_eq!(at(&m[1], &["hot_path"]).as_bool(), Some(true));
}

#[test]
fn collapsing_loses_no_observation() {
    let mut slots = [0u32; MAX_SLOTS];
    for (i, s) in slots.iter_mut().enumerate() {
        *s = i as u32 * 3 + 1;
    }
    let oct = block::collapse_to_log2(&slots);
    assert_eq!(gadget::sum(&oct), gadget::sum(&slots.to_vec()));
}

// --- bytes -----------------------------------------------------------------

#[test]
fn numbers_read_in_both_orders() {
    let b = [1u8, 2, 3, 4, 5, 6, 7, 8];
    assert_eq!(gadget::u32_at(&b, 0, Order::Little), u32::from_le_bytes([1, 2, 3, 4]));
    assert_eq!(gadget::u32_at(&b, 2, Order::Big), u32::from_be_bytes([3, 4, 5, 6]));
    assert_eq!(gadget::u64_at(&b, 0, Order::Little), u64::from_le_bytes(b));
    assert_eq!(gadget::u64_at(&b, 0, Order::Big), u64::from_be_bytes(b));
    assert_eq!(gadget::to_bytes(0x0102, 4, Order::Little), vec![2, 1, 0, 0]);
    assert_eq!(gadget::to_bytes(0x0102, 4, Order::Big), vec![0, 0, 1, 2]);
}

// --- the map owner -----------------------------------------------------------

#[test]
fn vm_ctx_layout_matches_the_shared_abi() {
    // Fixed by the probes: u64 + u32 + u8 + 3 pad = 16 bytes, 8-aligned.
    assert_eq!(std::mem::size_of::<VmCtx>(), 16);
    assert_eq!(std::mem::align_of::<VmCtx>(), 8);
}

#[test]
fn parses_each_control_command() {
    assert_eq!(
        parse_command("add 11 0 4026531840").unwrap(),
        Command::Add { ifindex: 11, handle: 0, netns_inum: 4026531840 }
    );
    assert_eq!(
        parse_command("state 3 PAUSED").unwrap(),
        Command::State { handle: 3, state: LIFECYCLE_PAUSED }
    );
    assert_eq!(parse_command("remove 7").unwrap(), Command::Remove { handle: 7 });
    // Case-insensitive state names, since the wire is hand-typeable.
    assert_eq!(
        parse_command("state 1 running").unwrap(),
        Command::State { handle: 1, state: LIFECYCLE_RUNNING }
    );
}

#[test]
fn rejects_malformed_commands() {
    for bad in [
        "",
        "add",
        "add 11 0",             // missing netns
        "add x 0 1",            // non-numeric ifindex
        "state 1 SLEEPING",     // unknown state
        "remove",               // missing handle
        "frobnicate 1",         // unknown verb
    ] {
        assert!(parse_command(bad).is_err(), "{bad:?} must be rejected");
    }
}

#[test]
fn state_names_round_trip_to_abi_bytes() {
    assert_eq!(state_from_name("RUNNING").unwrap(), LIFECYCLE_RUNNING);
    assert_eq!(state_from_name("PAUSING").unwrap(), LIFECYCLE_PAUSING);
    assert_eq!(state_from_name("PAUSED").unwrap(), LIFECYCLE_PAUSED);
    assert_eq!(state_from_name("RESUMING").unwrap(), LIFECYCLE_RESUMING);
    assert!(state_from_name("NOPE").is_none());
    for s in [LIFECYCLE_RUNNING, LIFECYCLE_PAUSING, LIFECYCLE_PAUSED, LIFECYCLE_RESUMING] {
        assert_eq!(state_from_name(state_name(s)), Some(s));
    }
}

#[test]
fn fragment_reports_occupancy_and_command_counts() {
    let stats = Stats { peak_live: 4, final_live: 2, adds: 4, states: 6, removes: 2, errors: 1 };
    let f = fragment(&stats, 30_000_000_000);
    assert_eq!(list_at(&f, &["series"]).len(), 0);
    assert_eq!(list_at(&f, &["self_metrics"]).len(), 0);
    let m = at(&f, &["capture_meta"]);
    assert_eq!(text_at(m, &["gadget"]), "assayist-capture-netattrib");
    assert_eq!(num_at(m, &["window_ns"]), 30_000_000_000u64);
    assert_eq!(num_at(m, &["peak_live"]), 4);
    assert_eq!(num_at(m, &["final_live"]), 2);
    assert_eq!(num_at(m, &["commands", "add"]), 4);
    assert_eq!(num_at(m, &["commands", "state"]), 6);
    assert_eq!(num_at(m, &["commands", "remove"]), 2);
    assert_eq!(num_at(m, &["command_errors"]), 1);
}

#[test]
fn refused_commands_say_why() {
    let why = |line: &str| parse_command(line).unwrap_err();
    assert_eq!(why(""), "empty command");
    assert_eq!(why("add"), "add needs an ifindex");
    assert_eq!(why("add 1"), "add needs a handle");
    assert_eq!(why("add 1 2"), "add needs a netns_inum");
    assert_eq!(why("state"), "state needs a handle");
    assert_eq!(why("state 4"), "state needs a state name");
    assert_eq!(why("state 4 ASLEEP"), "unknown state 'ASLEEP'");
    assert_eq!(why("remove"), "remove needs a handle");
    assert_eq!(why("frobnicate 1"), "unknown command 'frobnicate'");
    assert_eq!(why("add x 0 1"), "invalid digit found in string");
    assert_eq!(why("add 4294967296 0 1"), "number too large to fit in target type");
    assert_eq!(why("remove 18446744073709551616"), "number too large to fit in target type");
    assert_eq!(why("remove -1"), "invalid digit found in string");
}

#[test]
fn map_values_read_back() {
    let c = VmCtx { vm_id: 0x1122334455667788, netns_inum: 77, lifecycle_state: 2, _pad: [0; 3] };
    for order in [Order::Little, Order::Big] {
        let b = c.as_bytes(order);
        assert_eq!(b.len(), 16);
        assert_eq!(VmCtx::from_bytes(&b, order), c);
    }
    assert_eq!(c.as_bytes(Order::Little)[0], 0x88);
    assert_eq!(c.as_bytes(Order::Big)[0], 0x11);
}

#[test]
fn commands_change_the_map() {
    let o = Order::Little;
    let add = parse_command("add 11 5 9").unwrap();
    let (key, value) = match plan(&add, &vec![], o).unwrap() {
        Change::Put { key, value } => (key, value),
        Change::Delete { .. } => panic!("an addition deletes nothing"),
    };
    assert_eq!(key, vec![11, 0, 0, 0]);
    let entries = vec![Entry { key, value }];
    assert_eq!(key_for_handle(&entries, 5, o), Some(0));
    assert_eq!(key_for_handle(&entries, 6, o), None);

    match plan(&parse_command("state 5 PAUSED").unwrap(), &entries, o).unwrap() {
        Change::Put { key, value } => {
            assert_eq!(key, vec![11, 0, 0, 0]);
            let v = VmCtx::from_bytes(&value, o);
            assert_eq!((v.vm_id, v.netns_inum, v.lifecycle_state), (5, 9, LIFECYCLE_PAUSED));
        }
        Change::Delete { .. } => panic!("a state deletes nothing"),
    }
    assert!(matches!(
        plan(&parse_command("remove 5").unwrap(), &entries, o),
        Ok(Change::Delete { .. })
    ));
    let gone = plan(&parse_command("remove 6").unwrap(), &entries, o);
    assert_eq!(gone.unwrap_err(), "no entry for handle 6");
    let gone = plan(&parse_command("state 6 PAUSED").unwrap(), &entries, o);
    assert_eq!(gone.unwrap_err(), "no entry for handle 6");
}

#[test]
fn stats_follow_the_commands() {
    let mut s = Stats::default();
    s.applied(&Command::Add { ifindex: 1, handle: 0, netns_inum: 1 }, 3);
    s.applied(&Command::State { handle: 0, state: 1 }, 3);
    s.applied(&Command::Remove { handle: 0 }, 2);
    s.refused();
    assert_eq!((s.adds, s.states, s.removes, s.errors), (1, 1, 1, 1));
    assert_eq!((s.peak_live, s.final_live), (3, 2));
    assert_eq!(reply(&Ok(())), "ok\n");
    assert_eq!(reply(&Err("no".to_string())), "err no\n");
}

// --- kvm -------------------------------------------------------------------

#[test]
fn vendors_come_from_cpuinfo() {
    assert_eq!(kvm::cpu_vendor(Some("vendor_id : AuthenticAMD")), "amd");
    assert_eq!(kvm::cpu_vendor(Some("vendor_id : GenuineIntel")), "intel");
    assert_eq!(kvm::cpu_vendor(Some("ARM")), "unknown");
    assert_eq!(kvm::cpu_vendor(None), "unknown");
}

#[test]
fn exit_reasons_are_named_per_vendor() {
    assert_eq!(kvm::reason_name("intel", 12), "HLT");
    assert_eq!(kvm::reason_name("amd", 0x078), "HLT");
    assert_eq!(kvm::reason_name("intel", 48), "EPT_VIOLATION");
    assert_eq!(kvm::reason_name("amd", 0x400), "NPF");
    assert_eq!(kvm::reason_name("amd", 12), "reason_12");
    assert_eq!(kvm::reason_name("unknown", 12), "reason_12");
    assert_eq!(kvm::vmx_reason(3), None);
    assert_eq!(kvm::svm_reason(0x061), Some("NMI"));
}

fn kvm_entry(group: u64, reason: u32, slot: usize, n: u32) -> Entry {
    let mut key = group.to_be_bytes().to_vec();
    key.extend(reason.to_be_bytes());
    key.extend([0; 4]);
    let mut value = vec![0u8; 160];
    value[slot * 4..slot * 4 + 4].copy_from_slice(&n.to_be_bytes());
    Entry { key, value }
}

#[test]
fn kvm_series_are_keyed_per_guest_when_asked() {
    let entries = vec![kvm_entry(42, 12, 5, 3), kvm_entry(43, 1, 0, 0)];
    let k = Keying { per_guest: true, max_keys: 9 };
    let s = kvm::series(&entries, "intel", &k, Order::Big);
    assert_eq!(s.len(), 1);
    assert_eq!(text_at(&s[0], &["name"]), "kvm.exit_handling_latency:HLT");
    assert_eq!(text_at(&s[0], &["key"]), "42");
    assert_eq!(text_at(&s[0], &["cardinality", "key_source"]), "cgroup_id");
    assert_eq!(list_at(&s[0], &["data", "buckets"])[5].as_u64(), Some(3));

    let k = Keying { per_guest: false, max_keys: 9 };
    let s = kvm::series(&entries, "intel", &k, Order::Big);
    assert!(s[0].get("key").is_none());
    assert_eq!(text_at(&s[0], &["cardinality", "class"]), "singleton");

    let f = kvm::fragment(s, &cost(1), &cost(2), 7, "intel", false, 10, 10);
    assert_eq!(at(&f, &["capture_meta", "cardinality_overflow"]).as_bool(), Some(true));
    assert_eq!(text_at(&f, &["capture_meta", "cpu_vendor"]), "intel");
    let f = kvm::fragment(vec![], &cost(1), &cost(2), 7, "intel", false, 9, 10);
    assert_eq!(at(&f, &["capture_meta", "cardinality_overflow"]).as_bool(), Some(false));
}

// --- control plane -----------------------------------------------------------

#[test]
fn named_flags_are_split_at_the_first_equals_sign() {
    let v = ctrlplane::parse_named(&vec!["a=/x=y".to_string(), "b=".to_string()]).unwrap();
    assert_eq!(v, vec![("a".to_string(), "/x=y".to_string()), ("b".to_string(), String::new())]);
    let e = ctrlplane::parse_named(&vec!["a=1".to_string(), "plain".to_string()]).unwrap_err();
    assert_eq!(e, "expected name=value, got 'plain'");
    assert_eq!(ctrlplane::component_id("api", "17").unwrap(), 17);
    let e = ctrlplane::component_id("api", "x").unwrap_err();
    assert_eq!(e.context, "parsing id for api");
    assert_eq!(e.cause, "invalid digit found in string");
}

#[test]
fn a_later_name_replaces_an_earlier_one() {
    let mut c = Components::new();
    assert!(c.is_empty());
    c.insert(7, "scheduler".to_string());
    c.insert(8, "etcd".to_string());
    c.insert(7, "apiserver".to_string());
    assert_eq!(c.name_for(7), "apiserver");
    assert_eq!(c.name_for(8), "etcd");
    assert_eq!(c.name_for(9), "9");
    assert_eq!(c.names(), vec!["apiserver", "etcd"]);
}

#[test]
fn control_plane_series_are_named_by_component() {
    let mut c = Components::new();
    c.insert(7, "apiserver".to_string());
    let mut value = vec![0u8; 160];
    value[4] = 2;
    let runq = vec![
        Entry { key: 7u64.to_le_bytes().to_vec(), value },
        Entry { key: 8u64.to_le_bytes().to_vec(), value: vec![0u8; 160] },
    ];
    let oncpu =
        vec![Entry { key: 9u64.to_le_bytes().to_vec(), value: 1000u64.to_le_bytes().to_vec() }];
    let s = ctrlplane::series(&runq, &oncpu, &c, 64, Order::Little);
    assert_eq!(s.len(), 2);
    assert_eq!(text_at(&s[0], &["name"]), "sched.runqueue_latency");
    assert_eq!(text_at(&s[0], &["key"]), "apiserver");
    assert_eq!(num_at(&s[0], &["data", "count"]), 2);
    assert_eq!(text_at(&s[1], &["key"]), "9");
    assert_eq!(num_at(&s[1], &["data", "value"]), 1000);
    let f = ctrlplane::fragment(s, &cost(1), &cost(2), &cost(3), 8, &c);
    assert_eq!(at(&f, &["capture_meta", "filter_enabled"]).as_bool(), Some(true));
    assert_eq!(list_at(&f, &["capture_meta", "components"])[0].as_str(), Some("apiserver"));
    assert_eq!(text_at(&list_at(&f, &["self_metrics"])[2], &["attach_kind"]), "tp_btf");
}

// --- taps --------------------------------------------------------------------

fn iface(name: &str, index: Option<u32>) -> Iface {
    Iface { name: name.to_string(), index }
}

#[test]
fn interfaces_are_asked_for_or_matched() {
    let asked = vec![iface("tap0", Some(3)), iface("eth9", None)];
    assert_eq!(net::target_ifaces(&asked, "tap", &vec![]).unwrap_err(), "interface not found: eth9");
    let asked = vec![iface("tap0", Some(3))];
    assert_eq!(net::target_ifaces(&asked, "none", &vec![]), Ok(vec![3]));

    let present = vec![
        iface("lo", Some(1)),
        iface("tap0", Some(2)),
        iface("fc-1", Some(3)),
        iface("tap9", None),
    ];
    assert_eq!(net::target_ifaces(&vec![], "tap, fc-", &present), Ok(vec![2, 3]));
    assert_eq!(net::target_ifaces(&vec![], "tap,", &present), Ok(vec![2]));
    assert_eq!(
        net::target_ifaces(&vec![], "veth", &present).unwrap_err(),
        "no interfaces matched prefix 'veth'"
    );
    assert_eq!(net::name_or_index(None, 4), "if4");
    assert_eq!(net::name_or_index(Some("tap0".to_string()), 4), "tap0");
}

#[test]
fn tap_series_cover_what_was_received_and_sent() {
    let mut value = vec![0u8; 96];
    value[0] = 5; // packets received
    value[8] = 200; // bytes received
    value[16] = 1; // packets sent
    value[24] = 64; // bytes sent
    value[32] = 4;
    value[36] = 1;
    value[64] = 1;
    let taps = vec![Tap { name: "tap0".to_string(), value }];
    let rx = net::series(&taps, false, 10, Order::Little);
    assert_eq!(rx.len(), 3);
    assert_eq!(text_at(&rx[0], &["name"]), "net.tap_rx_packets");
    assert_eq!(text_at(&rx[0], &["source"]), "tap_rx");
    assert_eq!(num_at(&rx[0], &["data", "value"]), 5);
    assert_eq!(num_at(&rx[1], &["data", "value"]), 200);
    assert_eq!(num_at(&rx[2], &["data", "count"]), 5);
    assert_eq!(list_at(&rx[2], &["data", "explicit_bounds"])[6].as_u64(), Some(9000));
    let both = net::series(&taps, true, 10, Order::Little);
    assert_eq!(both.len(), 6);
    assert_eq!(text_at(&both[5], &["name"]), "net.tap_tx_packet_size");
    assert_eq!(num_at(&both[5], &["data", "count"]), 1);

    let f = net::fragment(rx, &cost(1), &None, 3, &vec!["tap0".to_string()]);
    assert_eq!(list_at(&f, &["self_metrics"]).len(), 1);
    assert_eq!(at(&f, &["capture_meta", "tx_enabled"]).as_bool(), Some(false));
    let f = net::fragment(both, &cost(1), &Some(cost(2)), 3, &vec![]);
    assert_eq!(text_at(&list_at(&f, &["self_metrics"])[1], &["attach_kind"]), "tc");
}

// --- snapshot residency --------------------------------------------------------

#[test]
fn snapshot_pages_are_counted() {
    assert_eq!(snapshot::resident_pages(&vec![1, 0, 3, 2, 255]), 3);
    assert_eq!(snapshot::page_count(8192, 4096), 2);
    assert_eq!(snapshot::page_count(8193, 4096), 3);
    assert_eq!(snapshot::page_count(0, 4096), 0);
    let f = snapshot::fragment(3, 5, "0.6", "/m", 4096, u64::MAX);
    let s = list_at(&f, &["series"]);
    assert_eq!(num_at(&s[0], &["data", "value"]), 3);
    assert_eq!(num_at(&s[1], &["data", "value"]), 5);
    assert_eq!(at(&s[2], &["data", "value"]).to_text(), "0.6");
    assert_eq!(num_at(&f, &["capture_meta", "window_ns"]), u64::MAX);
    assert_eq!(num_at(&f, &["capture_meta", "page_size"]), 4096);
}
