//! What the files of a Linux host say, and what to write to tune it.
use crate::hostmem;
use crate::hostprep::{Facts, Knobs, TuningKnobs};
use crate::json::{self, Doc, Json, Object};
use crate::text;
use vstd::prelude::*;

verus! {

// ---------------------------------------------------------------------------
// /proc/cpuinfo
// ---------------------------------------------------------------------------

/// A line of the form `key: value`, both trimmed.
pub open spec fn keyed(line: Seq<char>) -> Option<(Seq<char>, Seq<char>)> {
    match text::cut_at(line, ':') {
        Some(p) => Some((text::trimmed(p.0), text::trimmed(p.1))),
        None => None,
    }
}

fn read_keyed(line: &str) -> (r: Option<(String, String)>)
    ensures
        match r {
            Some(p) => keyed(line@) == Some((p.0@, p.1@)),
            None => keyed(line@) is None,
        },
{
    match text::cut(line, ':') {
        Some((k, v)) => Some((text::trim(&k), text::trim(&v))),
        None => None,
    }
}

/// The value of a key on the first line from `from` on that has it.
pub open spec fn field_from(ls: Seq<Seq<char>>, key: Seq<char>, from: nat) -> Option<Seq<char>>
    decreases ls.len() - from,
{
    if from >= ls.len() {
        None
    } else {
        match keyed(ls[from as int]) {
            Some(p) => if p.0 == key {
                Some(p.1)
            } else {
                field_from(ls, key, from + 1)
            },
            None => field_from(ls, key, from + 1),
        }
    }
}

/// The value of a key in `/proc/cpuinfo`.
pub open spec fn cpu_field(cpuinfo: Seq<char>, key: Seq<char>) -> Option<Seq<char>> {
    field_from(text::lines_of(cpuinfo), key, 0)
}

/// The value of a key in `/proc/cpuinfo`.
pub fn cpuinfo_field(cpuinfo: &str, key: &str) -> (r: Option<String>)
    ensures
        text::opt_text(r) == cpu_field(cpuinfo@, key@),
{
    let ls = text::lines(cpuinfo);
    let ghost all = text::lines_of(cpuinfo@);
    let mut i: usize = 0;
    while i < ls.len()
        invariant
            i <= ls@.len(),
            all == text::texts(ls@),
            all == text::lines_of(cpuinfo@),
            cpu_field(cpuinfo@, key@) == field_from(all, key@, i as nat),
        decreases ls@.len() - i,
    {
        assert(all[i as int] == ls@[i as int]@);
        if let Some((k, v)) = read_keyed(&ls[i]) {
            if text::same(&k, key) {
                return Some(v);
            }
        }
        i += 1;
    }
    None
}

/// Where the reading of `/proc/cpuinfo` stands: the processors seen, the ids of
/// the one being read, and the cores found, none of them twice.
pub struct Tally {
    pub logical: nat,
    pub phys: Option<Seq<char>>,
    pub core: Option<Seq<char>>,
    pub cores: Seq<Seq<char>>,
}

pub open spec fn fresh() -> Tally {
    Tally { logical: 0, phys: None, core: None, cores: Seq::empty() }
}

/// The core that is being read, where both its ids are known.
pub open spec fn core_of(t: Tally) -> Option<Seq<char>> {
    match (t.phys, t.core) {
        (Some(p), Some(c)) => Some(p + ":"@ + c),
        _ => None,
    }
}

/// The cores found, with the one being read.
pub open spec fn with_core(t: Tally) -> Seq<Seq<char>> {
    match core_of(t) {
        Some(c) => if t.cores.contains(c) {
            t.cores
        } else {
            t.cores.push(c)
        },
        None => t.cores,
    }
}

/// What a key and its value change.
pub open spec fn noted(t: Tally, line: Seq<char>) -> Tally {
    match keyed(line) {
        Some(p) => if p.0 == "physical id"@ {
            Tally { phys: Some(p.1), ..t }
        } else if p.0 == "core id"@ {
            Tally { core: Some(p.1), ..t }
        } else if p.0 == "processor"@ {
            Tally { logical: t.logical + 1, phys: None, core: None, ..t }
        } else {
            t
        },
        None => t,
    }
}

/// One more line: a blank one ends a processor.
pub open spec fn tallied(t: Tally, line: Seq<char>) -> Tally {
    let u = noted(t, line);
    if text::trimmed(line).len() == 0 {
        Tally { cores: with_core(u), ..u }
    } else {
        u
    }
}

pub open spec fn tally(ls: Seq<Seq<char>>) -> Tally
    decreases ls.len(),
{
    if ls.len() == 0 {
        fresh()
    } else {
        tallied(tally(ls.drop_last()), ls.last())
    }
}

/// A count in 32 bits, at least one.
pub open spec fn at_least_one(n: nat) -> u32 {
    if n % 0x1_0000_0000 == 0 {
        1
    } else {
        (n % 0x1_0000_0000) as u32
    }
}

fn at_least_one_of(n: usize) -> (r: u32)
    ensures
        r == at_least_one(n as nat),
{
    let m: u64 = (n as u64) % 0x1_0000_0000;
    if m == 0 {
        1
    } else {
        m as u32
    }
}

/// The processors and the cores that `/proc/cpuinfo` lists. Without ids of
/// cores there are as many cores as processors.
pub open spec fn counts(cpuinfo: Seq<char>) -> (u32, u32) {
    let t = tally(text::lines_of(cpuinfo));
    let cores = with_core(t);
    (
        at_least_one(t.logical),
        at_least_one(
            if cores.len() == 0 {
                t.logical
            } else {
                cores.len()
            },
        ),
    )
}

proof fn lemma_tally_bounds(ls: Seq<Seq<char>>)
    ensures
        tally(ls).logical <= ls.len(),
        tally(ls).cores.len() <= ls.len(),
    decreases ls.len(),
{
    if ls.len() > 0 {
        lemma_tally_bounds(ls.drop_last());
    }
}

fn core_name(p: &String, c: &String) -> (r: String)
    ensures
        r@ == p@ + ":"@ + c@,
{
    let mut s = text::join2(p, ":");
    s.append(c);
    s
}

fn note_core(cores: &mut Vec<String>, phys: &Option<String>, core: &Option<String>, Ghost(t): Ghost<Tally>)
    requires
        text::texts(old(cores)@) == t.cores,
        text::opt_text(*phys) == t.phys,
        text::opt_text(*core) == t.core,
    ensures
        text::texts(final(cores)@) == with_core(t),
{
    if let Some(p) = phys {
        if let Some(c) = core {
            let name = core_name(p, c);
            if !text::is_among(cores, &name) {
                let ghost was = cores@;
                cores.push(name);
                assert(text::texts(cores@) =~= text::texts(was).push(name@));
            }
        }
    }
}

/// The processors and the cores that `/proc/cpuinfo` lists.
pub fn cpu_counts(cpuinfo: &str) -> (r: (u32, u32))
    ensures
        r == counts(cpuinfo@),
{
    let ls = text::lines(cpuinfo);
    let ghost all = text::lines_of(cpuinfo@);
    let mut logical: usize = 0;
    let mut phys: Option<String> = None;
    let mut core: Option<String> = None;
    let mut cores: Vec<String> = Vec::new();
    assert(text::texts(cores@) =~= Seq::empty());
    assert(all.take(0) =~= Seq::empty());
    let mut i: usize = 0;
    while i < ls.len()
        invariant
            i <= ls@.len(),
            all == text::texts(ls@),
            all == text::lines_of(cpuinfo@),
            logical == tally(all.take(i as int)).logical,
            text::opt_text(phys) == tally(all.take(i as int)).phys,
            text::opt_text(core) == tally(all.take(i as int)).core,
            text::texts(cores@) == tally(all.take(i as int)).cores,
        decreases ls@.len() - i,
    {
        assert(all[i as int] == ls@[i as int]@);
        assert(all.take(i + 1).drop_last() =~= all.take(i as int));
        proof {
            lemma_tally_bounds(all.take(i as int));
        }
        let ghost t = tally(all.take(i as int));
        if let Some((k, v)) = read_keyed(&ls[i]) {
            if text::same(&k, "physical id") {
                phys = Some(v);
            } else if text::same(&k, "core id") {
                core = Some(v);
            } else if text::same(&k, "processor") {
                logical = logical + 1;
                phys = None;
                core = None;
            }
        }
        if text::trim(&ls[i]).as_str().is_empty() {
            note_core(&mut cores, &phys, &core, Ghost(noted(t, all[i as int])));
        }
        i += 1;
    }
    assert(all.take(i as int) =~= all);
    proof {
        lemma_tally_bounds(all);
    }
    note_core(&mut cores, &phys, &core, Ghost(tally(all)));
    assert(text::texts(cores@).len() == cores@.len());
    let physical: usize = if cores.len() == 0 {
        logical
    } else {
        cores.len()
    };
    (at_least_one_of(logical), at_least_one_of(physical))
}

/// A host has at least one processor and one core.
pub proof fn law_counts_are_positive(cpuinfo: Seq<char>)
    ensures
        counts(cpuinfo).0 >= 1,
        counts(cpuinfo).1 >= 1,
{
}

// ---------------------------------------------------------------------------
// Other files
// ---------------------------------------------------------------------------

/// The name of the system in `/etc/os-release`.
pub open spec fn pretty_name(t: Seq<char>) -> Option<Seq<char>> {
    match hostmem::first_with(text::lines_of(t), "PRETTY_NAME="@, 0) {
        Some(l) => {
            let v = l.skip("PRETTY_NAME="@.len() as int);
            Some(text::peel_end(text::peel_start(v, '"'), '"'))
        },
        None => None,
    }
}

/// The name of the system in `/etc/os-release`.
pub fn os_pretty_name(t: &str) -> (r: Option<String>)
    ensures
        text::opt_text(r) == pretty_name(t@),
{
    match hostmem::line_with(t, "PRETTY_NAME=") {
        Some(l) => {
            proof {
                hostmem::lemma_first_has_prefix(text::lines_of(t@), "PRETTY_NAME="@, 0);
            }
            match text::strip_prefix(&l, "PRETTY_NAME=") {
                Some(v) => Some(text::peel(&v, '"')),
                None => None,
            }
        },
        None => None,
    }
}

/// A word without the brackets around it.
pub open spec fn bracketed(w: Seq<char>) -> Option<Seq<char>> {
    if w.len() > 0 && w[0] == '[' && w.skip(1).len() > 0 && w.last() == ']' {
        Some(w.subrange(1, w.len() - 1))
    } else {
        None
    }
}

/// The first word from `from` on that stands in brackets.
pub open spec fn first_bracketed(ws: Seq<Seq<char>>, from: nat) -> Option<Seq<char>>
    decreases ws.len() - from,
{
    if from >= ws.len() {
        None
    } else {
        match bracketed(ws[from as int]) {
            Some(w) => Some(w),
            None => first_bracketed(ws, from + 1),
        }
    }
}

/// The setting that is active, of a list such as `always madvise [never]`.
pub open spec fn active_setting(t: Seq<char>) -> Option<Seq<char>> {
    first_bracketed(text::words_of(t), 0)
}

fn unbracket(w: &str) -> (r: Option<String>)
    ensures
        text::opt_text(r) == bracketed(w@),
{
    let cs = text::chars(w);
    let n: usize = cs.len();
    if n > 1 && cs[0] == '[' && cs[n - 1] == ']' {
        Some(text::slice(&cs, 1, n - 1))
    } else {
        None
    }
}

/// The setting that is active, of a list such as `always madvise [never]`.
pub fn thp_active(t: &str) -> (r: Option<String>)
    ensures
        text::opt_text(r) == active_setting(t@),
{
    let ws = text::words(t);
    let ghost all = text::words_of(t@);
    let mut i: usize = 0;
    while i < ws.len()
        invariant
            i <= ws@.len(),
            all == text::texts(ws@),
            all == text::words_of(t@),
            active_setting(t@) == first_bracketed(all, i as nat),
        decreases ws@.len() - i,
    {
        assert(all[i as int] == ws@[i as int]@);
        if let Some(w) = unbracket(&ws[i]) {
            return Some(w);
        }
        i += 1;
    }
    None
}

/// The total memory in `/proc/meminfo`, in bytes, modulo 2^64.
pub open spec fn total_memory(t: Seq<char>) -> Option<u64> {
    match hostmem::first_with(text::lines_of(t), "MemTotal:"@, 0) {
        Some(l) => {
            let ws = text::words_of(l.skip("MemTotal:"@.len() as int));
            if ws.len() > 0 {
                match text::unsigned(ws[0], u64::MAX as nat) {
                    Some(kb) => Some(vstd::wrapping::u64_specs::wrapping_mul(kb as u64, 1024)),
                    None => None,
                }
            } else {
                None
            }
        },
        None => None,
    }
}

/// The total memory in `/proc/meminfo`, in bytes.
pub fn meminfo_total_bytes(t: &str) -> (r: Option<u64>)
    ensures
        r == total_memory(t@),
{
    match hostmem::line_with(t, "MemTotal:") {
        Some(l) => {
            proof {
                hostmem::lemma_first_has_prefix(text::lines_of(t@), "MemTotal:"@, 0);
            }
            match text::strip_prefix(&l, "MemTotal:") {
                Some(v) => {
                    let ws = text::words(&v);
                    assert(text::texts(ws@).len() == ws@.len());
                    if ws.len() == 0 {
                        return None;
                    }
                    assert(text::texts(ws@)[0] == ws@[0]@);
                    match text::parse_unsigned(&ws[0], u64::MAX) {
                        Some(kb) => Some(kb.wrapping_mul(1024)),
                        None => None,
                    }
                },
                None => None,
            }
        },
        None => None,
    }
}

// ---------------------------------------------------------------------------
// The host
// ---------------------------------------------------------------------------

/// What was read of a host: the contents of files, where they could be read.
#[derive(Debug)]
pub struct HostFiles {
    /// `/proc/cpuinfo`
    pub cpuinfo: Option<String>,
    /// `/proc/sys/kernel/hostname`
    pub hostname: Option<String>,
    /// `/proc/sys/kernel/osrelease`
    pub kernel: Option<String>,
    /// `/etc/os-release`
    pub os_release: Option<String>,
    /// `/sys/devices/system/cpu/smt/active`
    pub smt_active: Option<String>,
    /// `/sys/devices/system/cpu/cpu0/cpufreq/scaling_governor`
    pub governor: Option<String>,
    /// `/sys/kernel/mm/transparent_hugepage/enabled`
    pub thp: Option<String>,
    /// `/proc/meminfo`
    pub meminfo: Option<String>,
    /// Whether `/dev/kvm` exists.
    pub kvm: bool,
    /// The entries of `/sys/devices/system/node`, each with its `cpulist`.
    pub nodes: Option<Vec<(String, Option<String>)>>,
    /// The entries of `/sys/devices/system/cpu/vulnerabilities`, each with its
    /// contents.
    pub vulnerabilities: Option<Vec<(String, Option<String>)>>,
    /// `/sys/module/kvm_intel/parameters/nested`
    pub nested_intel: Option<String>,
    /// `/sys/module/kvm_amd/parameters/nested`
    pub nested_amd: Option<String>,
}

/// The contents of a file, trimmed.
pub open spec fn content(o: Option<String>) -> Option<Seq<char>> {
    match o {
        Some(s) => Some(text::trimmed(s@)),
        None => None,
    }
}

fn trimmed_content(o: &Option<String>) -> (r: Option<String>)
    ensures
        text::opt_text(r) == content(*o),
{
    match o {
        Some(s) => Some(text::trim(s)),
        None => None,
    }
}

pub open spec fn or_else(o: Option<Seq<char>>, default: Seq<char>) -> Seq<char> {
    match o {
        Some(s) => s,
        None => default,
    }
}

fn or_text(o: Option<String>, default: &str) -> (r: String)
    ensures
        r@ == or_else(text::opt_text(o), default@),
{
    match o {
        Some(s) => s,
        None => default.to_owned(),
    }
}

/// Entries of a directory, with the contents of each.
pub open spec fn entries(
    o: Option<Vec<(String, Option<String>)>>,
) -> Option<Seq<(Seq<char>, Option<Seq<char>>)>> {
    match o {
        Some(v) => Some(v@.map_values(|e: (String, Option<String>)| (e.0@, content(e.1)))),
        None => None,
    }
}

/// Whether a text holds nothing but digits.
pub open spec fn digits_alone(s: Seq<char>) -> bool {
    forall|i: int| 0 <= i < s.len() ==> text::is_digit(#[trigger] s[i])
}

/// Whether a name is that of a node.
pub open spec fn is_node(name: Seq<char>) -> bool {
    match text::after_prefix(name, "node"@) {
        Some(id) => digits_alone(id),
        None => false,
    }
}

/// The nodes among entries, each with its processors.
pub open spec fn nodes_of(es: Seq<(Seq<char>, Option<Seq<char>>)>) -> Seq<(Seq<char>, Json)>
    decreases es.len(),
{
    if es.len() == 0 {
        Seq::empty()
    } else {
        let before = nodes_of(es.drop_last());
        let e = es.last();
        if is_node(e.0) {
            json::put(before, e.0, Json::Str(or_else(e.1, Seq::empty())))
        } else {
            before
        }
    }
}

/// The vulnerabilities among entries that could be read, each with its state.
pub open spec fn states_of(es: Seq<(Seq<char>, Option<Seq<char>>)>) -> Seq<(Seq<char>, Json)>
    decreases es.len(),
{
    if es.len() == 0 {
        Seq::empty()
    } else {
        let before = states_of(es.drop_last());
        match es.last().1 {
            Some(v) => json::put(before, es.last().0, Json::Str(v)),
            None => before,
        }
    }
}

/// An object, where it holds anything.
pub open spec fn filled(o: Option<Seq<(Seq<char>, Json)>>) -> Option<Json> {
    match o {
        Some(m) => if m.len() > 0 {
            Some(Json::Obj(m))
        } else {
            None
        },
        None => None,
    }
}

/// The topology of a host's nodes.
pub open spec fn topology(o: Option<Vec<(String, Option<String>)>>) -> Option<Json> {
    filled(
        match entries(o) {
            Some(es) => Some(nodes_of(es)),
            None => None,
        },
    )
}

/// The state of a host's vulnerabilities.
pub open spec fn mitigated(o: Option<Vec<(String, Option<String>)>>) -> Option<Json> {
    filled(
        match entries(o) {
            Some(es) => Some(states_of(es)),
            None => None,
        },
    )
}

fn all_digits(s: &str) -> (r: bool)
    ensures
        r == digits_alone(s@),
{
    let cs = text::chars(s);
    let mut i: usize = 0;
    while i < cs.len()
        invariant
            i <= cs@.len(),
            cs@ == s@,
            forall|j: int| 0 <= j < i ==> text::is_digit(#[trigger] s@[j]),
        decreases cs@.len() - i,
    {
        if !('0' <= cs[i] && cs[i] <= '9') {
            assert(!text::is_digit(s@[i as int]));
            return false;
        }
        i += 1;
    }
    true
}

fn node_name(name: &str) -> (r: bool)
    ensures
        r == is_node(name@),
{
    match text::strip_prefix(name, "node") {
        Some(id) => all_digits(&id),
        None => false,
    }
}

fn numa_topology(o: &Option<Vec<(String, Option<String>)>>) -> (r: Option<Doc>)
    ensures
        json::opt_json(r) == topology(*o),
{
    let v = match o {
        Some(v) => v,
        None => {
            return None;
        },
    };
    let ghost all = entries(*o)->0;
    let mut m = Object::new();
    let mut i: usize = 0;
    assert(all.take(0) =~= Seq::empty());
    while i < v.len()
        invariant
            i <= v@.len(),
            all == v@.map_values(|e: (String, Option<String>)| (e.0@, content(e.1))),
            m@ == nodes_of(all.take(i as int)),
        decreases v@.len() - i,
    {
        assert(all.take(i + 1).drop_last() =~= all.take(i as int));
        assert(all[i as int] == (v@[i as int].0@, content(v@[i as int].1)));
        if node_name(&v[i].0) {
            let cpus = match trimmed_content(&v[i].1) {
                Some(s) => s,
                None => String::new(),
            };
            m = m.with(&v[i].0, Doc::String(cpus));
        }
        i += 1;
    }
    assert(all.take(i as int) =~= all);
    if m.len() == 0 {
        None
    } else {
        Some(Doc::Object(m))
    }
}

fn mitigations(o: &Option<Vec<(String, Option<String>)>>) -> (r: Option<Doc>)
    ensures
        json::opt_json(r) == mitigated(*o),
{
    let v = match o {
        Some(v) => v,
        None => {
            return None;
        },
    };
    let ghost all = entries(*o)->0;
    let mut m = Object::new();
    let mut i: usize = 0;
    assert(all.take(0) =~= Seq::empty());
    while i < v.len()
        invariant
            i <= v@.len(),
            all == v@.map_values(|e: (String, Option<String>)| (e.0@, content(e.1))),
            m@ == states_of(all.take(i as int)),
        decreases v@.len() - i,
    {
        assert(all.take(i + 1).drop_last() =~= all.take(i as int));
        assert(all[i as int] == (v@[i as int].0@, content(v@[i as int].1)));
        if let Some(s) = trimmed_content(&v[i].1) {
            m = m.with(&v[i].0, Doc::String(s));
        }
        i += 1;
    }
    assert(all.take(i as int) =~= all);
    if m.len() == 0 {
        None
    } else {
        Some(Doc::Object(m))
    }
}

/// Whether nested virtualisation is on, as the first module that is loaded says.
pub open spec fn nested(f: HostFiles) -> Option<bool> {
    let said = match f.nested_intel {
        Some(_) => content(f.nested_intel),
        None => content(f.nested_amd),
    };
    match said {
        Some(v) => Some(v == "Y"@ || v == "1"@),
        None => None,
    }
}

fn nested_virt(f: &HostFiles) -> (r: Option<bool>)
    ensures
        r == nested(*f),
{
    let said = match &f.nested_intel {
        Some(_) => trimmed_content(&f.nested_intel),
        None => trimmed_content(&f.nested_amd),
    };
    match said {
        Some(v) => Some(text::same(&v, "Y") || text::same(&v, "1")),
        None => None,
    }
}

pub open spec fn smt_on(f: HostFiles) -> Option<bool> {
    match content(f.smt_active) {
        Some(s) => Some(s == "1"@),
        None => None,
    }
}

fn smt_of(f: &HostFiles) -> (r: Option<bool>)
    ensures
        r == smt_on(*f),
{
    match trimmed_content(&f.smt_active) {
        Some(s) => Some(text::same(&s, "1")),
        None => None,
    }
}

pub open spec fn thp_on(f: HostFiles) -> Option<Seq<char>> {
    match content(f.thp) {
        Some(s) => active_setting(s),
        None => None,
    }
}

fn thp_of(f: &HostFiles) -> (r: Option<String>)
    ensures
        text::opt_text(r) == thp_on(*f),
{
    match trimmed_content(&f.thp) {
        Some(s) => thp_active(&s),
        None => None,
    }
}

pub open spec fn cpuinfo_text(f: HostFiles) -> Seq<char> {
    or_else(content(f.cpuinfo), Seq::empty())
}

pub open spec fn memory_of(f: HostFiles) -> Option<u64> {
    match f.meminfo {
        Some(t) => total_memory(t@),
        None => None,
    }
}

/// Whether facts are what the files of a host say.
pub open spec fn says(f: HostFiles, x: Facts) -> bool {
    &&& content(f.hostname) == Some(x.hostname@)
    &&& content(f.kernel) == Some(x.kernel_version@)
    &&& x.os_release@ == or_else(
        match f.os_release {
            Some(t) => pretty_name(t@),
            None => None,
        },
        "unknown"@,
    )
    &&& x.cpu_model@ == or_else(cpu_field(cpuinfo_text(f), "model name"@), "unknown"@)
    &&& (x.cpu_count_logical, x.cpu_count_physical) == counts(cpuinfo_text(f))
    &&& x.smt_enabled == (smt_on(f) == Some(true))
    &&& x.cpu_governor@ == or_else(content(f.governor), "unknown"@)
    &&& x.thp_setting@ == or_else(thp_on(f), "unknown"@)
    &&& memory_of(f) == Some(x.total_memory_bytes)
    &&& x.kvm_present == f.kvm
    &&& json::opt_json(x.numa_topology) == topology(f.nodes)
    &&& json::opt_json(x.mitigations) == mitigated(f.vulnerabilities)
    &&& text::opt_text(x.microcode_version) == cpu_field(cpuinfo_text(f), "microcode"@)
    &&& x.nested_virt == nested(f)
}

/// A Linux host, as its files describe it.
#[derive(Debug)]
pub struct LinuxHost;

impl LinuxHost {
    pub fn new() -> (r: LinuxHost)
        ensures
            r == LinuxHost,
    {
        LinuxHost
    }

    /// The facts that the files of a host say. Hostname, kernel and total memory
    /// must be known.
    pub fn facts(&self, f: &HostFiles) -> (r: Result<Facts, String>)
        ensures
            match r {
                Ok(x) => says(*f, x),
                Err(e) => if f.hostname is None {
                    e@ == "cannot read hostname"@
                } else if f.kernel is None {
                    e@ == "cannot read kernel version"@
                } else {
                    memory_of(*f) is None && e@ == "cannot read MemTotal"@
                },
            },
    {
        let cpuinfo = or_text(trimmed_content(&f.cpuinfo), "");
        proof {
            reveal_strlit("");
            assert(""@ =~= Seq::<char>::empty());
        }
        let (logical, physical) = cpu_counts(&cpuinfo);
        let hostname = match trimmed_content(&f.hostname) {
            Some(s) => s,
            None => {
                return Err("cannot read hostname".to_owned());
            },
        };
        let kernel_version = match trimmed_content(&f.kernel) {
            Some(s) => s,
            None => {
                return Err("cannot read kernel version".to_owned());
            },
        };
        let name = match &f.os_release {
            Some(t) => os_pretty_name(t),
            None => None,
        };
        let memory = match &f.meminfo {
            Some(t) => meminfo_total_bytes(t),
            None => None,
        };
        let total_memory_bytes: u64 = match memory {
            Some(n) => n,
            None => {
                return Err("cannot read MemTotal".to_owned());
            },
        };
        Ok(
            Facts {
                hostname,
                kernel_version,
                os_release: or_text(name, "unknown"),
                cpu_model: or_text(cpuinfo_field(&cpuinfo, "model name"), "unknown"),
                cpu_count_logical: logical,
                cpu_count_physical: physical,
                smt_enabled: match smt_of(f) {
                    Some(b) => b,
                    None => false,
                },
                cpu_governor: or_text(trimmed_content(&f.governor), "unknown"),
                thp_setting: or_text(thp_of(f), "unknown"),
                total_memory_bytes,
                kvm_present: f.kvm,
                numa_topology: numa_topology(&f.nodes),
                mitigations: mitigations(&f.vulnerabilities),
                microcode_version: cpuinfo_field(&cpuinfo, "microcode"),
                nested_virt: nested_virt(f),
            },
        )
    }

    /// The readback of the knobs that were asked for, and only those.
    pub fn read_tuning(&self, want: &TuningKnobs, f: &HostFiles) -> (r: TuningKnobs)
        ensures
            r@ == (Knobs {
                cpu_governor: if want.cpu_governor is Some {
                    content(f.governor)
                } else {
                    None
                },
                smt: if want.smt is Some {
                    smt_on(*f)
                } else {
                    None
                },
                thp: if want.thp is Some {
                    thp_on(*f)
                } else {
                    None
                },
            }),
    {
        TuningKnobs {
            cpu_governor: if want.cpu_governor.is_some() {
                trimmed_content(&f.governor)
            } else {
                None
            },
            smt: if want.smt.is_some() {
                smt_of(f)
            } else {
                None
            },
            thp: if want.thp.is_some() {
                thp_of(f)
            } else {
                None
            },
        }
    }
}

// ---------------------------------------------------------------------------
// Tuning
// ---------------------------------------------------------------------------

/// A step of tuning a host. A refusal ends it.
#[derive(Debug)]
pub enum Tuning {
    /// Write a value to a file.
    Write(String, String),
    Refuse(String),
}

/// A `Tuning` as a mathematical value.
pub enum Tune {
    Write(Seq<char>, Seq<char>),
    Refuse(Seq<char>),
}

impl View for Tuning {
    type V = Tune;

    open spec fn view(&self) -> Tune {
        match *self {
            Tuning::Write(p, v) => Tune::Write(p@, v@),
            Tuning::Refuse(m) => Tune::Refuse(m@),
        }
    }
}

pub open spec fn tunes(s: Seq<Tuning>) -> Seq<Tune> {
    s.map_values(|t: Tuning| t@)
}

/// Whether a name is that of a processor: digits after `cpu`.
pub open spec fn is_cpu(name: Seq<char>) -> bool {
    match text::after_prefix(name, "cpu"@) {
        Some(n) => text::is_digits(n),
        None => false,
    }
}

/// Whether a name is that of a processor.
pub fn cpu_name(name: &str) -> (r: bool)
    ensures
        r == is_cpu(name@),
{
    match text::strip_prefix(name, "cpu") {
        Some(n) => {
            let cs = text::chars(&n);
            cs.len() > 0 && all_digits(&n)
        },
        None => false,
    }
}

/// Where the governor of a processor is written.
pub open spec fn governor_file(name: Seq<char>) -> Seq<char> {
    "/sys/devices/system/cpu/"@ + name + "/cpufreq/scaling_governor"@
}

/// Where the governor of a processor is written.
pub fn governor_path(name: &str) -> (r: String)
    ensures
        r@ == governor_file(name@),
{
    let mut s = text::join2("/sys/devices/system/cpu/", name);
    s.append("/cpufreq/scaling_governor");
    s
}

/// A directory entry, and whether it has a governor's file.
pub open spec fn cpu_entries(s: Seq<(String, bool)>) -> Seq<(Seq<char>, bool)> {
    s.map_values(|e: (String, bool)| (e.0@, e.1))
}

/// The governor, written to each processor that has one.
pub open spec fn governor_writes(es: Seq<(Seq<char>, bool)>, governor: Seq<char>) -> Seq<Tune>
    decreases es.len(),
{
    if es.len() == 0 {
        Seq::empty()
    } else {
        let before = governor_writes(es.drop_last(), governor);
        if is_cpu(es.last().0) && es.last().1 {
            before.push(Tune::Write(governor_file(es.last().0), governor))
        } else {
            before
        }
    }
}

/// Setting the governor: a host without any governor's file cannot claim that it
/// took.
pub open spec fn governor_steps(es: Seq<(Seq<char>, bool)>, governor: Seq<char>) -> Seq<Tune> {
    let ws = governor_writes(es, governor);
    if ws.len() == 0 {
        seq![
            Tune::Refuse("no cpufreq scaling_governor present; cannot set the CPU governor"@),
        ]
    } else {
        ws
    }
}

/// Setting simultaneous multithreading, where the host has a control for it.
pub open spec fn smt_steps(control: bool, on: bool) -> Seq<Tune> {
    if control {
        seq![
            Tune::Write(
                "/sys/devices/system/cpu/smt/control"@,
                if on {
                    "on"@
                } else {
                    "off"@
                },
            ),
        ]
    } else {
        seq![
            Tune::Refuse(
                "SMT control not available (/sys/devices/system/cpu/smt/control missing)"@,
            ),
        ]
    }
}

/// Whether steps end in a refusal.
pub open spec fn refused(ts: Seq<Tune>) -> bool {
    ts.len() > 0 && ts.last() is Refuse
}

/// The steps that follow, unless those before end in a refusal.
pub open spec fn followed(ts: Seq<Tune>, more: Seq<Tune>) -> Seq<Tune> {
    if refused(ts) {
        ts
    } else {
        ts + more
    }
}

/// The steps of tuning a host: governor, multithreading, huge pages, as far as
/// they were asked for.
pub open spec fn tuning_steps(k: Knobs, es: Seq<(Seq<char>, bool)>, control: bool) -> Seq<Tune> {
    let first = match k.cpu_governor {
        Some(g) => governor_steps(es, g),
        None => Seq::empty(),
    };
    let second = match k.smt {
        Some(on) => followed(first, smt_steps(control, on)),
        None => first,
    };
    match k.thp {
        Some(t) => followed(
            second,
            seq![Tune::Write("/sys/kernel/mm/transparent_hugepage/enabled"@, t)],
        ),
        None => second,
    }
}

fn push_tune(v: &mut Vec<Tuning>, t: Tuning)
    ensures
        tunes(final(v)@) == tunes(old(v)@).push(t@),
{
    let ghost was = v@;
    v.push(t);
    assert(tunes(v@) =~= tunes(was).push(t@));
}

fn set_governor(cpus: &Vec<(String, bool)>, governor: &str) -> (r: Vec<Tuning>)
    ensures
        tunes(r@) == governor_steps(cpu_entries(cpus@), governor@),
{
    let ghost all = cpu_entries(cpus@);
    let mut out: Vec<Tuning> = Vec::new();
    let mut i: usize = 0;
    assert(all.take(0) =~= Seq::empty());
    assert(tunes(out@) =~= Seq::empty());
    while i < cpus.len()
        invariant
            i <= cpus@.len(),
            all == cpu_entries(cpus@),
            tunes(out@) == governor_writes(all.take(i as int), governor@),
        decreases cpus@.len() - i,
    {
        assert(all.take(i + 1).drop_last() =~= all.take(i as int));
        assert(all[i as int] == (cpus@[i as int].0@, cpus@[i as int].1));
        if cpu_name(&cpus[i].0) && cpus[i].1 {
            push_tune(
                &mut out,
                Tuning::Write(governor_path(&cpus[i].0), governor.to_owned()),
            );
        }
        i += 1;
    }
    assert(all.take(i as int) =~= all);
    assert(tunes(out@).len() == out@.len());
    if out.len() == 0 {
        push_tune(
            &mut out,
            Tuning::Refuse(
                "no cpufreq scaling_governor present; cannot set the CPU governor".to_owned(),
            ),
        );
        assert(tunes(out@) =~= governor_steps(all, governor@));
    }
    out
}

fn is_refused(v: &Vec<Tuning>) -> (r: bool)
    ensures
        r == refused(tunes(v@)),
{
    assert(tunes(v@).len() == v@.len());
    if v.len() == 0 {
        return false;
    }
    assert(tunes(v@).last() == v@.last()@);
    match &v[v.len() - 1] {
        Tuning::Refuse(_) => true,
        Tuning::Write(..) => false,
    }
}

impl LinuxHost {
    /// The steps of tuning a host, from the entries of its processor directory
    /// and whether it has a control for multithreading.
    pub fn plan_tuning(
        &self,
        want: &TuningKnobs,
        cpus: &Vec<(String, bool)>,
        smt_control: bool,
    ) -> (r: Vec<Tuning>)
        ensures
            tunes(r@) == tuning_steps(want@, cpu_entries(cpus@), smt_control),
    {
        let mut out: Vec<Tuning> = Vec::new();
        assert(tunes(out@) =~= Seq::empty());
        if let Some(g) = &want.cpu_governor {
            out = set_governor(cpus, g);
        }
        let ghost first = tunes(out@);
        if let Some(on) = want.smt {
            if !is_refused(&out) {
                if smt_control {
                    let value = if on {
                        "on"
                    } else {
                        "off"
                    };
                    push_tune(
                        &mut out,
                        Tuning::Write(
                            "/sys/devices/system/cpu/smt/control".to_owned(),
                            value.to_owned(),
                        ),
                    );
                } else {
                    push_tune(
                        &mut out,
                        Tuning::Refuse(
                            "SMT control not available (/sys/devices/system/cpu/smt/control missing)".to_owned(),
                        ),
                    );
                }
                assert(tunes(out@) =~= first + smt_steps(smt_control, on));
            }
        }
        let ghost second = tunes(out@);
        if let Some(t) = &want.thp {
            if !is_refused(&out) {
                push_tune(
                    &mut out,
                    Tuning::Write(
                        "/sys/kernel/mm/transparent_hugepage/enabled".to_owned(),
                        t.clone(),
                    ),
                );
                assert(tunes(out@) =~= second + seq![
                    Tune::Write("/sys/kernel/mm/transparent_hugepage/enabled"@, t@),
                ]);
            }
        }
        out
    }
}

/// A host that is asked for nothing is not written to.
pub proof fn law_nothing_asked_nothing_written(es: Seq<(Seq<char>, bool)>, control: bool)
    ensures
        tuning_steps(Knobs { cpu_governor: None, smt: None, thp: None }, es, control) == Seq::<
            Tune,
        >::empty(),
{
}

} // verus!
