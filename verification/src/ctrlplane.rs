//! The control plane: how the scheduler treats each watched component.
use crate::gadget::{self, Cost, Entry, Order};
use crate::json::{self, Doc, Json, Object};
use crate::kvm;
use crate::text;
use vstd::prelude::*;

verus! {

// ---------------------------------------------------------------------------
// Which components are watched
// ---------------------------------------------------------------------------

/// The pairs that `name=value` flags hold, or what is wrong with the first that
/// holds none.
pub open spec fn named(items: Seq<Seq<char>>) -> Result<Seq<(Seq<char>, Seq<char>)>, Seq<char>>
    decreases items.len(),
{
    if items.len() == 0 {
        Ok(Seq::empty())
    } else {
        match named(items.drop_last()) {
            Err(e) => Err(e),
            Ok(before) => match text::cut_at(items.last(), '=') {
                Some(pair) => Ok(before.push(pair)),
                None => Err("expected name=value, got '"@ + items.last() + "'"@),
            },
        }
    }
}

/// Pairs of strings as text.
pub open spec fn pairs(v: Seq<(String, String)>) -> Seq<(Seq<char>, Seq<char>)> {
    v.map_values(|p: (String, String)| (p.0@, p.1@))
}

proof fn lemma_named_fails(items: Seq<Seq<char>>, n: int)
    requires
        0 <= n <= items.len(),
        named(items.take(n)) is Err,
    ensures
        named(items) == named(items.take(n)),
    decreases items.len() - n,
{
    if n == items.len() {
        assert(items.take(n) =~= items);
    } else {
        assert(items.take(n + 1).drop_last() =~= items.take(n));
        lemma_named_fails(items, n + 1);
    }
}

/// Read `name=value` flags.
pub fn parse_named(items: &Vec<String>) -> (r: Result<Vec<(String, String)>, String>)
    ensures
        (match r {
            Ok(v) => Ok(pairs(v@)),
            Err(e) => Err(e@),
        }) == named(text::texts(items@)),
{
    let ghost all = text::texts(items@);
    let mut out: Vec<(String, String)> = Vec::new();
    let mut i: usize = 0;
    assert(all.take(0) =~= Seq::empty());
    assert(pairs(out@) =~= Seq::empty());
    while i < items.len()
        invariant
            i <= items@.len(),
            all == text::texts(items@),
            named(all.take(i as int)) == Ok::<Seq<(Seq<char>, Seq<char>)>, Seq<char>>(pairs(out@)),
        decreases items@.len() - i,
    {
        let ghost was = out@;
        assert(all.take(i + 1).drop_last() =~= all.take(i as int));
        match text::cut(&items[i], '=') {
            Some((n, v)) => {
                let ghost pair = (n@, v@);
                out.push((n, v));
                assert(pairs(out@) =~= pairs(was).push(pair));
            },
            None => {
                proof {
                    lemma_named_fails(all, i + 1);
                }
                return Err(text::join2(&text::join2("expected name=value, got '", &items[i]), "'"));
            },
        }
        i += 1;
    }
    assert(all.take(i as int) =~= all);
    Ok(out)
}

/// Why a flag gives no id: which flag it is, and what std says of its text.
#[derive(Debug)]
pub struct BadId {
    pub context: String,
    pub cause: String,
}

/// The id that a flag gives, or what is wrong with it.
pub fn component_id(name: &str, id: &str) -> (r: Result<u64, BadId>)
    ensures
        match text::unsigned(id@, u64::MAX as nat) {
            Some(n) => r == Ok::<u64, BadId>(n as u64),
            None => r is Err && r->Err_0.context@ == "parsing id for "@ + name@
                && r->Err_0.cause@ == text::u64_refusal(id@),
        },
{
    match text::parse_unsigned(id, u64::MAX) {
        Some(n) => Ok(n),
        None => Err(
            BadId { context: text::join2("parsing id for ", name), cause: text::u64_error(id) },
        ),
    }
}

/// A watched component.
#[derive(Debug)]
pub struct Component {
    pub id: u64,
    pub name: String,
}

/// The watched components, by control group.
#[derive(Debug)]
pub struct Components {
    pub list: Vec<Component>,
}

impl View for Components {
    type V = Seq<(u64, Seq<char>)>;

    open spec fn view(&self) -> Seq<(u64, Seq<char>)> {
        self.list@.map_values(|c: Component| (c.id, c.name@))
    }
}

/// Whether no control group is listed twice.
pub open spec fn distinct(s: Seq<(u64, Seq<char>)>) -> bool {
    forall|i: int, j: int| 0 <= i < j < s.len() ==> (#[trigger] s[i]).0 != (#[trigger] s[j]).0
}

/// The place of a control group.
pub open spec fn place(s: Seq<(u64, Seq<char>)>, id: u64, from: nat) -> Option<nat>
    decreases s.len() - from,
{
    if from >= s.len() {
        None
    } else if s[from as int].0 == id {
        Some(from)
    } else {
        place(s, id, from + 1)
    }
}

/// The components after one is named: a later name replaces an earlier one.
pub open spec fn enrolled(s: Seq<(u64, Seq<char>)>, id: u64, name: Seq<char>) -> Seq<
    (u64, Seq<char>),
> {
    match place(s, id, 0) {
        Some(i) => s.update(i as int, (id, name)),
        None => s.push((id, name)),
    }
}

/// The name of a control group: its component's, or else its id.
pub open spec fn name_of(s: Seq<(u64, Seq<char>)>, id: u64) -> Seq<char> {
    match place(s, id, 0) {
        Some(i) => s[i as int].1,
        None => text::decimal(id as nat),
    }
}

proof fn lemma_place(s: Seq<(u64, Seq<char>)>, id: u64, from: nat)
    ensures
        match place(s, id, from) {
            Some(i) => from <= i < s.len() && s[i as int].0 == id && forall|k: int|
                from <= k < i ==> (#[trigger] s[k]).0 != id,
            None => forall|k: int| from <= k < s.len() ==> (#[trigger] s[k]).0 != id,
        },
    decreases s.len() - from,
{
    if from < s.len() && s[from as int].0 != id {
        lemma_place(s, id, from + 1);
    }
}

/// No control group is listed twice.
pub proof fn law_components_are_distinct(s: Seq<(u64, Seq<char>)>, id: u64, name: Seq<char>)
    requires
        distinct(s),
    ensures
        distinct(enrolled(s, id, name)),
{
    lemma_place(s, id, 0);
}

/// A component is known by the name it was last given, and no other's changes.
pub proof fn law_last_name_holds(s: Seq<(u64, Seq<char>)>, id: u64, name: Seq<char>, other: u64)
    requires
        distinct(s),
    ensures
        name_of(enrolled(s, id, name), id) == name,
        other != id ==> name_of(enrolled(s, id, name), other) == name_of(s, other),
{
    let t = enrolled(s, id, name);
    law_components_are_distinct(s, id, name);
    lemma_place(s, id, 0);
    lemma_place(t, id, 0);
    lemma_place(s, other, 0);
    lemma_place(t, other, 0);
    match place(s, id, 0) {
        Some(i) => {
            assert(t[i as int] == (id, name));
        },
        None => {
            assert(t[s.len() as int] == (id, name));
        },
    }
    if other != id {
        match place(s, other, 0) {
            Some(i) => {
                assert(t[i as int] == s[i as int]);
            },
            None => {
                if place(t, other, 0) is Some {
                    let k = place(t, other, 0)->0 as int;
                    assert(k < s.len() ==> t[k].0 == s[k].0);
                }
            },
        }
    }
}

impl Components {
    pub fn new() -> (r: Components)
        ensures
            r@ == Seq::<(u64, Seq<char>)>::empty(),
    {
        let r = Components { list: Vec::new() };
        assert(r@ =~= Seq::empty());
        r
    }

    fn find(&self, id: u64) -> (r: Option<usize>)
        ensures
            (match r {
                Some(i) => Some(i as nat),
                None => None,
            }) == place(self@, id, 0),
            r is Some ==> r->0 < self@.len(),
    {
        let mut i: usize = 0;
        while i < self.list.len()
            invariant
                i <= self.list@.len(),
                place(self@, id, 0) == place(self@, id, i as nat),
            decreases self.list@.len() - i,
        {
            assert(self@[i as int].0 == self.list@[i as int].id);
            if self.list[i].id == id {
                return Some(i);
            }
            i += 1;
        }
        None
    }

    /// Watch a control group under a name.
    pub fn insert(&mut self, id: u64, name: String)
        ensures
            final(self)@ == enrolled(old(self)@, id, name@),
    {
        let ghost was = self@;
        let ghost n = name@;
        match self.find(id) {
            Some(i) => {
                self.list.set(i, Component { id, name });
                assert(self@ =~= was.update(i as int, (id, n)));
            },
            None => {
                self.list.push(Component { id, name });
                assert(self@ =~= was.push((id, n)));
            },
        }
    }

    pub fn is_empty(&self) -> (r: bool)
        ensures
            r == (self@.len() == 0),
    {
        self.list.len() == 0
    }

    /// The name of a control group: its component's, or else its id.
    pub fn name_for(&self, id: u64) -> (r: String)
        ensures
            r@ == name_of(self@, id),
    {
        match self.find(id) {
            Some(i) => {
                assert(self@[i as int].1 == self.list@[i as int].name@);
                self.list[i].name.clone()
            },
            None => text::dec(id),
        }
    }

    /// The names of the components.
    pub fn names(&self) -> (r: Vec<String>)
        ensures
            text::texts(r@) == self@.map_values(|c: (u64, Seq<char>)| c.1),
    {
        let ghost all = self@.map_values(|c: (u64, Seq<char>)| c.1);
        let mut out: Vec<String> = Vec::new();
        let mut i: usize = 0;
        while i < self.list.len()
            invariant
                i <= self.list@.len(),
                all == self@.map_values(|c: (u64, Seq<char>)| c.1),
                text::texts(out@) =~= all.take(i as int),
            decreases self.list@.len() - i,
        {
            let ghost was = out@;
            out.push(self.list[i].name.clone());
            assert(text::texts(out@) =~= text::texts(was).push(all[i as int]));
            i += 1;
        }
        assert(all.take(i as int) =~= all);
        out
    }
}

// ---------------------------------------------------------------------------
// Series
// ---------------------------------------------------------------------------

/// The control group that a key names.
pub open spec fn group_in(key: Seq<u8>, order: Order) -> u64 {
    gadget::number(key.subrange(0, 8), order) as u64
}

/// The run-queue latency of one control group.
pub open spec fn latency_series(
    e: Entry,
    names: Seq<(u64, Seq<char>)>,
    max_keys: u64,
    order: Order,
) -> Json {
    let slots = kvm::slots_of(e, order);
    gadget::series_json(
        "sched.runqueue_latency"@,
        "ns"@,
        "histogram"@,
        "sched_switch"@,
        Some(name_of(names, group_in(e.key@, order))),
        gadget::bounded("cgroup_id"@, max_keys),
        gadget::log2_data(slots, gadget::total(slots) as int),
    )
}

/// The processor time of one control group.
pub open spec fn on_cpu_series(
    e: Entry,
    names: Seq<(u64, Seq<char>)>,
    max_keys: u64,
    order: Order,
) -> Json {
    gadget::series_json(
        "sched.on_cpu_ns"@,
        "ns"@,
        "counter"@,
        "sched_switch"@,
        Some(name_of(names, group_in(e.key@, order))),
        gadget::bounded("cgroup_id"@, max_keys),
        gadget::counter_data(gadget::number(e.value@.subrange(0, 8), order) as int),
    )
}

/// The run-queue latency of each control group that was scheduled at all.
pub open spec fn latencies(
    entries: Seq<Entry>,
    names: Seq<(u64, Seq<char>)>,
    max_keys: u64,
    order: Order,
) -> Seq<Json>
    decreases entries.len(),
{
    if entries.len() == 0 {
        Seq::empty()
    } else {
        let before = latencies(entries.drop_last(), names, max_keys, order);
        if gadget::total(kvm::slots_of(entries.last(), order)) == 0 {
            before
        } else {
            before.push(latency_series(entries.last(), names, max_keys, order))
        }
    }
}

/// The processor time of each control group.
pub open spec fn times(
    entries: Seq<Entry>,
    names: Seq<(u64, Seq<char>)>,
    max_keys: u64,
    order: Order,
) -> Seq<Json> {
    entries.map_values(|e: Entry| on_cpu_series(e, names, max_keys, order))
}

/// Whether the entries of a map can be read.
pub open spec fn readable(entries: Seq<Entry>, value: nat) -> bool {
    forall|i: int|
        0 <= i < entries.len() ==> (#[trigger] entries[i]).key@.len() >= 8
            && entries[i].value@.len() >= value
}

fn runq_series(
    entries: &Vec<Entry>,
    names: &Components,
    max_keys: u64,
    order: Order,
) -> (r: Vec<Doc>)
    requires
        readable(entries@, 160),
    ensures
        json::jsons(r@) == latencies(entries@, names@, max_keys, order),
{
    let mut out: Vec<Doc> = Vec::new();
    let mut i: usize = 0;
    assert(entries@.take(0) =~= Seq::empty());
    assert(json::jsons(out@) =~= Seq::empty());
    while i < entries.len()
        invariant
            i <= entries@.len(),
            readable(entries@, 160),
            json::jsons(out@) == latencies(entries@.take(i as int), names@, max_keys, order),
        decreases entries@.len() - i,
    {
        assert(entries@.take(i + 1).drop_last() =~= entries@.take(i as int));
        let ghost was = out@;
        let e = &entries[i];
        assert(e.key@.len() >= 8);
        let (slots, count) = kvm::parse_hist(&e.value, order);
        if count != 0 {
            let group: u64 = gadget::u64_at(&e.key, 0, order);
            let s = gadget::series(
                "sched.runqueue_latency",
                "ns",
                "histogram",
                "sched_switch",
                Some(names.name_for(group)),
                gadget::bounded_by("cgroup_id", max_keys),
                gadget::log2(&slots, count),
            );
            let ghost j = s@;
            out.push(s);
            assert(json::jsons(out@) =~= json::jsons(was).push(j));
        }
        i += 1;
    }
    assert(entries@.take(i as int) =~= entries@);
    out
}

/// The series of both maps.
pub fn series(
    runq: &Vec<Entry>,
    oncpu: &Vec<Entry>,
    names: &Components,
    max_keys: u64,
    order: Order,
) -> (r: Vec<Doc>)
    requires
        readable(runq@, 160),
        readable(oncpu@, 8),
    ensures
        json::jsons(r@) == latencies(runq@, names@, max_keys, order) + times(
            oncpu@,
            names@,
            max_keys,
            order,
        ),
{
    let mut out: Vec<Doc> = runq_series(runq, names, max_keys, order);
    let ghost first = json::jsons(out@);
    let ghost all = times(oncpu@, names@, max_keys, order);
    let mut i: usize = 0;
    assert(first + all.take(0) =~= first);
    while i < oncpu.len()
        invariant
            i <= oncpu@.len(),
            readable(oncpu@, 8),
            all == times(oncpu@, names@, max_keys, order),
            json::jsons(out@) =~= first + all.take(i as int),
        decreases oncpu@.len() - i,
    {
        let ghost was = out@;
        let e = &oncpu[i];
        assert(e.key@.len() >= 8);
        let group: u64 = gadget::u64_at(&e.key, 0, order);
        let s = gadget::series(
            "sched.on_cpu_ns",
            "ns",
            "counter",
            "sched_switch",
            Some(names.name_for(group)),
            gadget::bounded_by("cgroup_id", max_keys),
            gadget::counter(gadget::u64_at(&e.value, 0, order)),
        );
        assert(s@ == all[i as int]);
        out.push(s);
        assert(json::jsons(out@) =~= json::jsons(was).push(all[i as int]));
        i += 1;
    }
    assert(all.take(i as int) =~= all);
    out
}

/// What the gadget reports.
pub open spec fn report(
    series: Seq<Json>,
    wakeup: Cost,
    wakeup_new: Cost,
    switch: Cost,
    window_ns: u64,
    names: Seq<(u64, Seq<char>)>,
) -> Json {
    gadget::fragment_json(
        series,
        seq![
            gadget::cost_json("sched_wakeup"@, "tp_btf"@, wakeup),
            gadget::cost_json("sched_wakeup_new"@, "tp_btf"@, wakeup_new),
            gadget::cost_json("sched_switch"@, "tp_btf"@, switch),
        ],
        json::fields().text("gadget"@, "assayist-capture-ctrlplane"@).with(
            "window_ns"@,
            Json::Int(window_ns as int),
        ).with("filter_enabled"@, Json::Bool(names.len() > 0)).with(
            "components"@,
            json::strs(names.map_values(|c: (u64, Seq<char>)| c.1)),
        ).json(),
    )
}

/// What the gadget reports: its series, what its three probes cost, and the
/// components that it was asked to watch.
pub fn fragment(
    series: Vec<Doc>,
    wakeup: &Cost,
    wakeup_new: &Cost,
    switch: &Cost,
    window_ns: u64,
    names: &Components,
) -> (r: Doc)
    ensures
        r@ == report(json::jsons(series@), *wakeup, *wakeup_new, *switch, window_ns, names@),
{
    let mut costs: Vec<Doc> = Vec::new();
    costs.push(gadget::probe_cost("sched_wakeup", "tp_btf", wakeup));
    costs.push(gadget::probe_cost("sched_wakeup_new", "tp_btf", wakeup_new));
    costs.push(gadget::probe_cost("sched_switch", "tp_btf", switch));
    assert(json::jsons(costs@) =~= seq![
        gadget::cost_json("sched_wakeup"@, "tp_btf"@, *wakeup),
        gadget::cost_json("sched_wakeup_new"@, "tp_btf"@, *wakeup_new),
        gadget::cost_json("sched_switch"@, "tp_btf"@, *switch),
    ]);
    let listed: Vec<String> = names.names();
    let meta = Object::new().text("gadget", "assayist-capture-ctrlplane").with(
        "window_ns",
        json::uint(window_ns),
    ).with("filter_enabled", Doc::Bool(!names.is_empty())).with(
        "components",
        json::strings(&listed),
    );
    gadget::fragment(series, costs, Doc::Object(meta))
}

} // verus!
