//! JSON documents: the values that definitions, fragments, run records and
//! verdicts are made of.
use crate::text;
use vstd::prelude::*;

verus! {

/// A JSON document as a mathematical value. An integer is its value; a number
/// that is not an integer is the text that writes it; an object is its members
/// in the order of their keys.
pub enum Json {
    Null,
    Bool(bool),
    Int(int),
    Float(Seq<char>),
    Str(Seq<char>),
    Arr(Seq<Json>),
    Obj(Seq<(Seq<char>, Json)>),
}

/// A JSON number. `Float` holds the shortest decimal text that reads back as
/// the number, which is how a document writes it.
#[derive(Debug, PartialEq, Eq)]
pub enum Num {
    Unsigned(u64),
    Negative(i64),
    Float(String),
}

#[derive(Debug, PartialEq, Eq)]
pub enum Doc {
    Null,
    Bool(bool),
    Num(Num),
    String(String),
    Array(Vec<Doc>),
    Object(Object),
}

/// The members of a JSON object, in the order of their keys, no key twice.
#[derive(Debug, PartialEq, Eq)]
pub struct Object {
    entries: Vec<(String, Doc)>,
}

impl View for Num {
    type V = Json;

    open spec fn view(&self) -> Json {
        match *self {
            Num::Unsigned(n) => Json::Int(n as int),
            Num::Negative(n) => Json::Int(n as int),
            Num::Float(t) => Json::Float(t@),
        }
    }
}

impl Object {
    #[verifier::type_invariant]
    spec fn inv(self) -> bool {
        sorted(keys_of(self.entries@))
    }
}

spec fn keys_of(s: Seq<(String, Doc)>) -> Seq<Seq<char>> {
    s.map_values(|e: (String, Doc)| e.0@)
}

/// The document that a value holds.
pub open spec fn json(v: Doc) -> Json
    decreases v,
{
    match v {
        Doc::Null => Json::Null,
        Doc::Bool(b) => Json::Bool(b),
        Doc::Num(n) => n@,
        Doc::String(s) => Json::Str(s@),
        Doc::Array(a) => Json::Arr(
            Seq::new(
                a@.len(),
                |i: int|
                    if 0 <= i < a@.len() {
                        json(a@[i])
                    } else {
                        Json::Null
                    },
            ),
        ),
        Doc::Object(o) => Json::Obj(members(o)),
    }
}

/// The members that an object holds.
pub closed spec fn members(o: Object) -> Seq<(Seq<char>, Json)>
    decreases o,
{
    Seq::new(
        o.entries@.len(),
        |i: int|
            if 0 <= i < o.entries@.len() {
                (o.entries@[i].0@, json(o.entries@[i].1))
            } else {
                (Seq::empty(), Json::Null)
            },
    )
}

impl View for Doc {
    type V = Json;

    open spec fn view(&self) -> Json {
        json(*self)
    }
}

impl View for Object {
    type V = Seq<(Seq<char>, Json)>;

    open spec fn view(&self) -> Seq<(Seq<char>, Json)> {
        members(*self)
    }
}

/// The documents that a sequence of values holds.
pub open spec fn jsons(s: Seq<Doc>) -> Seq<Json> {
    s.map_values(|v: Doc| v@)
}

/// The order of keys: by their characters, the first difference deciding.
pub open spec fn before(a: Seq<char>, b: Seq<char>) -> bool
    decreases a.len(),
{
    b.len() > 0 && (a.len() == 0 || a[0] < b[0] || (a[0] == b[0] && before(a.skip(1), b.skip(1))))
}

/// Each key before the next.
pub open spec fn sorted(keys: Seq<Seq<char>>) -> bool {
    forall|i: int, j: int| 0 <= i < j < keys.len() ==> before(#[trigger] keys[i], #[trigger] keys[j])
}

/// Entries in the order of their keys, with the key `k` holding `v`.
pub open spec fn put<T>(e: Seq<(Seq<char>, T)>, k: Seq<char>, v: T) -> Seq<(Seq<char>, T)>
    decreases e.len(),
{
    if e.len() == 0 {
        seq![(k, v)]
    } else if e[0].0 == k {
        seq![(k, v)] + e.skip(1)
    } else if before(k, e[0].0) {
        seq![(k, v)] + e
    } else {
        seq![e[0]] + put(e.skip(1), k, v)
    }
}

/// What the key `k` holds.
pub open spec fn lookup<T>(e: Seq<(Seq<char>, T)>, k: Seq<char>) -> Option<T>
    decreases e.len(),
{
    if e.len() == 0 {
        None
    } else if e[0].0 == k {
        Some(e[0].1)
    } else {
        lookup(e.skip(1), k)
    }
}

// ---------------------------------------------------------------------------
// The order of keys
// ---------------------------------------------------------------------------

pub proof fn lemma_before_irreflexive(a: Seq<char>)
    ensures
        !before(a, a),
    decreases a.len(),
{
    if a.len() > 0 {
        lemma_before_irreflexive(a.skip(1));
    }
}

pub proof fn lemma_before_transitive(a: Seq<char>, b: Seq<char>, c: Seq<char>)
    requires
        before(a, b),
        before(b, c),
    ensures
        before(a, c),
    decreases a.len(),
{
    if a.len() > 0 && a[0] == b[0] && b[0] == c[0] {
        lemma_before_transitive(a.skip(1), b.skip(1), c.skip(1));
    }
}

pub proof fn lemma_before_total(a: Seq<char>, b: Seq<char>)
    ensures
        a == b || before(a, b) || before(b, a),
    decreases a.len(),
{
    if a.len() > 0 && b.len() > 0 && a[0] == b[0] {
        lemma_before_total(a.skip(1), b.skip(1));
        if a.skip(1) == b.skip(1) {
            assert(a =~= seq![a[0]] + a.skip(1));
            assert(b =~= seq![b[0]] + b.skip(1));
        }
    } else if a.len() == 0 && b.len() == 0 {
        assert(a =~= b);
    }
}

pub fn precedes(a: &str, b: &str) -> (r: bool)
    ensures
        r == before(a@, b@),
{
    let x = text::chars(a);
    let y = text::chars(b);
    let mut i: usize = 0;
    assert(x@.skip(0) =~= x@);
    assert(y@.skip(0) =~= y@);
    loop
        invariant
            i <= x@.len(),
            i <= y@.len(),
            x@ == a@,
            y@ == b@,
            before(a@, b@) == before(x@.skip(i as int), y@.skip(i as int)),
        decreases x@.len() - i,
    {
        if i == y.len() {
            return false;
        }
        if i == x.len() {
            return true;
        }
        if x[i] < y[i] {
            return true;
        }
        if x[i] != y[i] {
            return false;
        }
        assert(x@.skip(i as int).skip(1) =~= x@.skip(i + 1));
        assert(y@.skip(i as int).skip(1) =~= y@.skip(i + 1));
        i += 1;
    }
}

// ---------------------------------------------------------------------------
// Objects
// ---------------------------------------------------------------------------

/// The keys of entries.
pub open spec fn keys<T>(e: Seq<(Seq<char>, T)>) -> Seq<Seq<char>> {
    e.map_values(|m: (Seq<char>, T)| m.0)
}

/// `put` places the member before the first one whose key is not less.
pub proof fn lemma_put_at<T>(e: Seq<(Seq<char>, T)>, k: Seq<char>, v: T, i: int)
    requires
        0 <= i <= e.len(),
        forall|j: int| 0 <= j < i ==> #[trigger] e[j].0 != k && !before(k, e[j].0),
        i < e.len() ==> e[i].0 == k || before(k, e[i].0),
    ensures
        put(e, k, v) == e.take(i) + seq![(k, v)] + e.skip(if i < e.len() && e[i].0 == k {
            i + 1
        } else {
            i
        }),
    decreases e.len(),
{
    if i == 0 {
        assert(e.take(0) + seq![(k, v)] =~= seq![(k, v)]);
        assert(e.skip(0) =~= e);
        if e.len() == 0 {
            assert(seq![(k, v)] + e =~= seq![(k, v)]);
        }
    } else {
        let t = e.skip(1);
        assert forall|j: int| 0 <= j < i - 1 implies #[trigger] t[j].0 != k && !before(k, t[j].0) by {
            assert(t[j] == e[j + 1]);
        }
        assert(e[0].0 != k);
        lemma_put_at(t, k, v, i - 1);
        let n = if i < e.len() && e[i].0 == k {
            i + 1
        } else {
            i
        };
        assert(t.skip(n - 1) =~= e.skip(n));
        assert(seq![e[0]] + (t.take(i - 1) + seq![(k, v)] + t.skip(n - 1)) =~= e.take(i) + seq![
            (k, v),
        ] + e.skip(n));
    }
}

/// A key that was put holds what was put there, and other keys hold what they
/// held.
pub broadcast proof fn law_lookup_put<T>(
    e: Seq<(Seq<char>, T)>,
    k: Seq<char>,
    v: T,
    q: Seq<char>,
)
    ensures
        #[trigger] lookup(put(e, k, v), q) == (if q == k {
            Some(v)
        } else {
            lookup(e, q)
        }),
    decreases e.len(),
{
    let p = put(e, k, v);
    if e.len() == 0 {
        assert(p.skip(1).len() == 0);
        assert(lookup(p.skip(1), q) == lookup(e, q));
    } else if e[0].0 == k {
        assert(p.skip(1) =~= e.skip(1));
        assert(p[0] == (k, v));
    } else if before(k, e[0].0) {
        assert(p.skip(1) =~= e);
        assert(p[0] == (k, v));
    } else {
        assert(p[0] == e[0]);
        assert(p.skip(1) =~= put(e.skip(1), k, v));
        law_lookup_put(e.skip(1), k, v, q);
    }
}

pub proof fn lemma_lookup_at<T>(e: Seq<(Seq<char>, T)>, k: Seq<char>, i: int)
    requires
        0 <= i <= e.len(),
        forall|j: int| 0 <= j < i ==> #[trigger] e[j].0 != k,
        i < e.len() ==> e[i].0 == k,
    ensures
        lookup(e, k) == (if i < e.len() {
            Some(e[i].1)
        } else {
            None
        }),
    decreases e.len(),
{
    if i > 0 {
        let t = e.skip(1);
        assert(e[0].0 != k);
        assert forall|j: int| 0 <= j < i - 1 implies #[trigger] t[j].0 != k by {
            assert(t[j] == e[j + 1]);
        }
        lemma_lookup_at(t, k, i - 1);
    }
}

/// Where the key `k` stands or would stand.
pub open spec fn slot<T>(e: Seq<(Seq<char>, T)>, k: Seq<char>) -> int
    decreases e.len(),
{
    if e.len() == 0 || e[0].0 == k || before(k, e[0].0) {
        0
    } else {
        1 + slot(e.skip(1), k)
    }
}

pub proof fn lemma_slot<T>(e: Seq<(Seq<char>, T)>, k: Seq<char>)
    ensures
        0 <= slot(e, k) <= e.len(),
        forall|j: int| 0 <= j < slot(e, k) ==> #[trigger] e[j].0 != k && !before(k, e[j].0),
        slot(e, k) < e.len() ==> e[slot(e, k)].0 == k || before(k, e[slot(e, k)].0),
    decreases e.len(),
{
    if !(e.len() == 0 || e[0].0 == k || before(k, e[0].0)) {
        let t = e.skip(1);
        lemma_slot(t, k);
        assert forall|j: int| 0 <= j < slot(e, k) implies #[trigger] e[j].0 != k && !before(
            k,
            e[j].0,
        ) by {
            if j > 0 {
                assert(e[j] == t[j - 1]);
            }
        }
    }
}

/// Putting an entry keeps entries in the order of their keys.
pub proof fn law_put_sorted<T>(e: Seq<(Seq<char>, T)>, k: Seq<char>, v: T)
    requires
        sorted(keys(e)),
    ensures
        sorted(keys(put(e, k, v))),
{
    let i = slot(e, k);
    lemma_slot(e, k);
    lemma_put_at(e, k, v, i);
    let ks = keys(e);
    let p = put(e, k, v);
    let now = keys(p);
    assert forall|j: int| 0 <= j < i implies before(#[trigger] ks[j], k) by {
        assert(ks[j] == e[j].0);
        lemma_before_total(ks[j], k);
    }
    assert forall|j: int| i < j < e.len() implies before(k, #[trigger] ks[j]) by {
        assert(ks[i] == e[i].0);
        if ks[i] != k {
            lemma_before_transitive(k, ks[i], ks[j]);
        }
    }
    let n = if i < e.len() && e[i].0 == k {
        i + 1
    } else {
        i
    };
    assert forall|a: int, b: int| 0 <= a < b < now.len() implies before(
        #[trigger] now[a],
        #[trigger] now[b],
    ) by {
        assert(a < i ==> now[a] == ks[a]);
        assert(a > i ==> now[a] == ks[a - i - 1 + n]);
        assert(b < i ==> now[b] == ks[b]);
        assert(b > i ==> now[b] == ks[b - i - 1 + n]);
        if a == i && b - i - 1 + n == i {
            assert(ks[i] == e[i].0);
        }
    }
}

/// In sorted entries, a key that does not stand in its place stands nowhere.
pub proof fn lemma_lookup_slot<T>(e: Seq<(Seq<char>, T)>, k: Seq<char>)
    requires
        sorted(keys(e)),
    ensures
        lookup(e, k) == (if slot(e, k) < e.len() && e[slot(e, k)].0 == k {
            Some(e[slot(e, k)].1)
        } else {
            None
        }),
{
    let i = slot(e, k);
    lemma_slot(e, k);
    if i < e.len() && e[i].0 == k {
        lemma_lookup_at(e, k, i);
    } else {
        let ks = keys(e);
        assert forall|j: int| 0 <= j < e.len() implies #[trigger] e[j].0 != k by {
            if j >= i {
                assert(ks[i] == e[i].0 && ks[j] == e[j].0);
                if j > i {
                    lemma_before_transitive(k, ks[i], ks[j]);
                }
                lemma_before_irreflexive(k);
            }
        }
        lemma_lookup_at(e, k, e.len() as int);
    }
}

/// Entries in order are equal where each key holds the same in both.
pub proof fn lemma_same_entries<T>(e: Seq<(Seq<char>, T)>, f: Seq<(Seq<char>, T)>)
    requires
        sorted(keys(e)),
        sorted(keys(f)),
        forall|k: Seq<char>| #[trigger] lookup(e, k) == lookup(f, k),
    ensures
        e == f,
    decreases e.len(),
{
    if e.len() == 0 {
        if f.len() > 0 {
            assert(lookup(e, f[0].0) == lookup(f, f[0].0));
        }
        assert(e =~= f);
    } else {
        let a = e[0].0;
        assert(lookup(e, a) == lookup(f, a));
        assert(f.len() > 0);
        let b = f[0].0;
        lemma_first_is_least(e, b);
        lemma_first_is_least(f, a);
        lemma_before_total(a, b);
        assert(lookup(e, b) == lookup(f, b));
        assert(a == b);
        assert(e[0] == f[0]);
        let x = e.skip(1);
        let y = f.skip(1);
        lemma_tail_sorted(e);
        lemma_tail_sorted(f);
        assert forall|k: Seq<char>| #[trigger] lookup(x, k) == lookup(y, k) by {
            if k == a {
                lemma_not_in_tail(e);
                lemma_not_in_tail(f);
            } else {
                assert(lookup(e, k) == lookup(f, k));
            }
        }
        lemma_same_entries(x, y);
        assert(e =~= seq![e[0]] + x);
        assert(f =~= seq![f[0]] + y);
    }
}

proof fn lemma_tail_sorted<T>(e: Seq<(Seq<char>, T)>)
    requires
        sorted(keys(e)),
        e.len() > 0,
    ensures
        sorted(keys(e.skip(1))),
{
    let k = keys(e);
    let t = keys(e.skip(1));
    assert forall|i: int, j: int| 0 <= i < j < t.len() implies before(
        #[trigger] t[i],
        #[trigger] t[j],
    ) by {
        assert(t[i] == k[i + 1] && t[j] == k[j + 1]);
    }
}

proof fn lemma_not_in_tail<T>(e: Seq<(Seq<char>, T)>)
    requires
        sorted(keys(e)),
        e.len() > 0,
    ensures
        lookup(e.skip(1), e[0].0) is None,
{
    let t = e.skip(1);
    let k = keys(e);
    assert forall|j: int| 0 <= j < t.len() implies #[trigger] t[j].0 != e[0].0 by {
        assert(k[j + 1] == t[j].0 && k[0] == e[0].0);
        lemma_before_irreflexive(e[0].0);
    }
    lemma_lookup_at(t, e[0].0, t.len() as int);
}

/// A key before the first one stands nowhere.
proof fn lemma_first_is_least<T>(e: Seq<(Seq<char>, T)>, b: Seq<char>)
    requires
        sorted(keys(e)),
        e.len() > 0,
    ensures
        before(b, e[0].0) ==> lookup(e, b) is None,
{
    if before(b, e[0].0) {
        let k = keys(e);
        assert forall|j: int| 0 <= j < e.len() implies #[trigger] e[j].0 != b by {
            assert(k[j] == e[j].0 && k[0] == e[0].0);
            if j > 0 {
                lemma_before_transitive(b, k[0], k[j]);
            }
            lemma_before_irreflexive(b);
        }
        lemma_lookup_at(e, b, e.len() as int);
    }
}

/// The order in which two keys are put makes no difference.
pub proof fn law_put_order<T>(
    e: Seq<(Seq<char>, T)>,
    a: Seq<char>,
    x: T,
    b: Seq<char>,
    y: T,
)
    requires
        sorted(keys(e)),
        a != b,
    ensures
        put(put(e, a, x), b, y) == put(put(e, b, y), a, x),
{
    let p = put(put(e, a, x), b, y);
    let q = put(put(e, b, y), a, x);
    law_put_sorted(e, a, x);
    law_put_sorted(e, b, y);
    law_put_sorted(put(e, a, x), b, y);
    law_put_sorted(put(e, b, y), a, x);
    assert forall|k: Seq<char>| #[trigger] lookup(p, k) == lookup(q, k) by {
        law_lookup_put(put(e, a, x), b, y, k);
        law_lookup_put(e, a, x, k);
        law_lookup_put(put(e, b, y), a, x, k);
        law_lookup_put(e, b, y, k);
    }
    lemma_same_entries(p, q);
}

impl Object {
    proof fn lemma_raw(&self)
        ensures
            self@.len() == self.entries@.len(),
            forall|i: int|
                0 <= i < self.entries@.len() ==> #[trigger] self@[i] == (
                    self.entries@[i].0@,
                    self.entries@[i].1@,
                ),
    {
    }

    pub fn new() -> (r: Object)
        ensures
            r@ == none(),
            sorted(keys(r@)),
    {
        let r = Object { entries: Vec::new() };
        assert(r@ =~= Seq::empty());
        r
    }

    pub fn len(&self) -> (r: usize)
        ensures
            r == self@.len(),
            sorted(keys(self@)),
    {
        proof {
            use_type_invariant(self);
            self.lemma_raw();
            assert(keys(self@) =~= keys_of(self.entries@));
        }
        self.entries.len()
    }

    pub fn key(&self, i: usize) -> (r: &str)
        requires
            i < self@.len(),
        ensures
            r@ == self@[i as int].0,
    {
        proof {
            self.lemma_raw();
        }
        self.entries[i].0.as_str()
    }

    pub fn value(&self, i: usize) -> (r: &Doc)
        requires
            i < self@.len(),
        ensures
            r@ == self@[i as int].1,
            decreases_to!(self => r),
    {
        proof {
            self.lemma_raw();
        }
        let r = &self.entries[i].1;
        assert(decreases_to!(self.entries@ => self.entries@[i as int]));
        assert(decreases_to!(self.entries@[i as int] => self.entries@[i as int].1));
        r
    }

    pub fn get(&self, k: &str) -> (r: Option<&Doc>)
        ensures
            found(r) == lookup(self@, k@),
    {
        proof {
            self.lemma_raw();
        }
        let mut i: usize = 0;
        while i < self.entries.len()
            invariant
                i <= self.entries@.len(),
                self@.len() == self.entries@.len(),
                forall|j: int|
                    0 <= j < self.entries@.len() ==> #[trigger] self@[j] == (
                        self.entries@[j].0@,
                        self.entries@[j].1@,
                    ),
                forall|j: int| 0 <= j < i ==> #[trigger] self@[j].0 != k@,
            decreases self.entries@.len() - i,
        {
            assert(self@[i as int].0 == self.entries@[i as int].0@);
            if text::same(&self.entries[i].0, k) {
                proof {
                    lemma_lookup_at(self@, k@, i as int);
                }
                return Some(&self.entries[i].1);
            }
            i += 1;
        }
        proof {
            lemma_lookup_at(self@, k@, i as int);
        }
        None
    }

    /// The object with the key `k` holding the text `v`.
    pub fn text(self, k: &str, v: &str) -> (r: Object)
        ensures
            r@ == put(self@, k@, Json::Str(v@)),
            sorted(keys(r@)),
    {
        self.with(k, Doc::String(v.to_owned()))
    }

    /// The object with the key `k` holding the value of `v`, where there is one.
    pub fn maybe(self, k: &str, v: Option<Doc>) -> (r: Object)
        ensures
            r@ == (match v {
                Some(x) => put(self@, k@, x@),
                None => self@,
            }),
    {
        match v {
            Some(x) => self.with(k, x),
            None => self,
        }
    }

    /// The object with the key `k` holding `v`.
    pub fn with(self, k: &str, v: Doc) -> (r: Object)
        ensures
            r@ == put(self@, k@, v@),
            sorted(keys(r@)),
    {
        proof {
            use_type_invariant(&self);
            self.lemma_raw();
        }
        let ghost e = self@;
        let ghost was = self.entries@;
        let Object { entries } = self;
        let mut entries = entries;
        let mut i: usize = 0;
        while i < entries.len() && !text::same(&entries[i].0, k) && !precedes(k, &entries[i].0)
            invariant
                i <= entries@.len(),
                entries@ == was,
                e.len() == was.len(),
                forall|j: int| 0 <= j < was.len() ==> #[trigger] e[j] == (was[j].0@, was[j].1@),
                forall|j: int| 0 <= j < i ==> #[trigger] e[j].0 != k@ && !before(k@, e[j].0),
            decreases entries@.len() - i,
        {
            assert(e[i as int].0 == was[i as int].0@);
            i += 1;
        }
        proof {
            if i < was.len() {
                assert(e[i as int].0 == was[i as int].0@);
            }
            lemma_put_at(e, k@, v@, i as int);
            let ks = keys_of(was);
            assert forall|j: int| 0 <= j < i implies before(#[trigger] ks[j], k@) by {
                assert(e[j].0 == was[j].0@);
                lemma_before_total(ks[j], k@);
            }
            assert forall|j: int| i < j < was.len() implies before(k@, #[trigger] ks[j]) by {
                if ks[i as int] != k@ {
                    lemma_before_transitive(k@, ks[i as int], ks[j]);
                }
            }
        }
        let key = k.to_owned();
        if i < entries.len() && text::same(&entries[i].0, k) {
            entries.set(i, (key, v));
            assert(entries@ == was.update(i as int, (key, v)));
        } else {
            entries.insert(i, (key, v));
            assert(entries@ == was.insert(i as int, (key, v)));
        }
        proof {
            let ks = keys_of(was);
            let now = keys_of(entries@);
            assert forall|a: int, b: int| 0 <= a < b < now.len() implies before(
                #[trigger] now[a],
                #[trigger] now[b],
            ) by {
                if entries@.len() == was.len() {
                    if a != i {
                        assert(now[a] == ks[a]);
                    }
                    if b != i {
                        assert(now[b] == ks[b]);
                    }
                } else {
                    if a < i {
                        assert(now[a] == ks[a]);
                    } else if a > i {
                        assert(now[a] == ks[a - 1]);
                    }
                    if b < i {
                        assert(now[b] == ks[b]);
                    } else if b > i {
                        assert(now[b] == ks[b - 1]);
                        if a == i && b - 1 == i {
                            assert(before(k@, e[i as int].0));
                        }
                    }
                }
            }
        }
        let r = Object { entries };
        proof {
            r.lemma_raw();
            assert(r@ =~= put(e, k@, v@));
            assert(keys(r@) =~= keys_of(r.entries@));
        }
        r
    }
}

/// What an optional reference to a value holds.
pub open spec fn found(o: Option<&Doc>) -> Option<Json> {
    match o {
        Some(v) => Some(v@),
        None => None,
    }
}

// ---------------------------------------------------------------------------
// Reading documents
// ---------------------------------------------------------------------------

/// What the key `k` of an object holds.
pub open spec fn field(j: Json, k: Seq<char>) -> Option<Json> {
    match j {
        Json::Obj(e) => lookup(e, k),
        _ => None,
    }
}

/// What the key `k` holds, null where there is none.
pub open spec fn member(j: Json, k: Seq<char>) -> Json {
    match field(j, k) {
        Some(v) => v,
        None => Json::Null,
    }
}

pub open spec fn str_of(j: Json) -> Option<Seq<char>> {
    match j {
        Json::Str(s) => Some(s),
        _ => None,
    }
}

pub open spec fn bool_of(j: Json) -> Option<bool> {
    match j {
        Json::Bool(b) => Some(b),
        _ => None,
    }
}

/// A whole number that fits 64 unsigned bits.
pub open spec fn u64_of(j: Json) -> Option<u64> {
    match j {
        Json::Int(n) => if 0 <= n <= u64::MAX {
            Some(n as u64)
        } else {
            None
        },
        _ => None,
    }
}

/// A whole number that fits 64 signed bits.
pub open spec fn i64_of(j: Json) -> Option<i64> {
    match j {
        Json::Int(n) => if i64::MIN <= n <= i64::MAX {
            Some(n as i64)
        } else {
            None
        },
        _ => None,
    }
}

/// The string that the key `k` of an object holds.
pub open spec fn str_field(j: Json, k: Seq<char>) -> Option<Seq<char>> {
    str_of(member(j, k))
}

/// The whole number that the key `k` of an object holds.
pub open spec fn u64_field(j: Json, k: Seq<char>) -> Option<u64> {
    u64_of(member(j, k))
}

/// The items of the array that the key `k` of an object holds; none where it
/// holds no array.
pub open spec fn items(j: Json, k: Seq<char>) -> Seq<Json> {
    match member(j, k) {
        Json::Arr(a) => a,
        _ => Seq::empty(),
    }
}

/// The view of an optional string slice.
pub open spec fn opt_str(o: Option<&str>) -> Option<Seq<char>> {
    match o {
        Some(s) => Some(s@),
        None => None,
    }
}

/// A whole number as a document.
pub fn uint(n: u64) -> (r: Doc)
    ensures
        r@ == Json::Int(n as int),
{
    Doc::Num(Num::Unsigned(n))
}

/// A whole number as a document.
pub fn signed(n: i64) -> (r: Doc)
    ensures
        r@ == Json::Int(n as int),
{
    if n >= 0 {
        Doc::Num(Num::Unsigned(n as u64))
    } else {
        Doc::Num(Num::Negative(n))
    }
}

/// A string as a document.
pub fn string(s: &str) -> (r: Doc)
    ensures
        r@ == Json::Str(s@),
{
    Doc::String(s.to_owned())
}

/// A sequence of documents as one.
pub fn array(v: Vec<Doc>) -> (r: Doc)
    ensures
        r@ == Json::Arr(jsons(v@)),
{
    let r = Doc::Array(v);
    assert(r@->Arr_0 =~= jsons(v@));
    r
}

/// Texts as a document.
pub open spec fn strs(v: Seq<Seq<char>>) -> Json {
    Json::Arr(v.map_values(|s: Seq<char>| Json::Str(s)))
}

/// Texts as a document.
pub fn strings(v: &Vec<String>) -> (r: Doc)
    ensures
        r@ == strs(text::texts(v@)),
{
    let mut out: Vec<Doc> = Vec::new();
    let mut i: usize = 0;
    while i < v.len()
        invariant
            i <= v@.len(),
            jsons(out@) =~= text::texts(v@).take(i as int).map_values(
                |s: Seq<char>| Json::Str(s),
            ),
        decreases v@.len() - i,
    {
        let ghost was = out@;
        out.push(string(&v[i]));
        assert(jsons(out@) =~= jsons(was).push(Json::Str(v@[i as int]@)));
        i += 1;
        assert(text::texts(v@).take(i as int) =~= text::texts(v@).take(i - 1).push(v@[i - 1]@));
    }
    assert(text::texts(v@).take(v@.len() as int) =~= text::texts(v@));
    array(out)
}

/// Members of an object being written down one by one.
pub struct Fields {
    pub members: Seq<(Seq<char>, Json)>,
}

impl Fields {
    /// With the key `k` holding `v`.
    pub open spec fn with(self, k: Seq<char>, v: Json) -> Fields {
        Fields { members: put(self.members, k, v) }
    }

    /// With the key `k` holding the text `v`.
    pub open spec fn text(self, k: Seq<char>, v: Seq<char>) -> Fields {
        self.with(k, Json::Str(v))
    }

    /// With the key `k` holding the value of `v`, where there is one.
    pub open spec fn maybe(self, k: Seq<char>, v: Option<Json>) -> Fields {
        match v {
            Some(x) => self.with(k, x),
            None => self,
        }
    }

    /// The object of the members.
    pub open spec fn json(self) -> Json {
        Json::Obj(self.members)
    }
}

/// No members yet.
pub open spec fn fields() -> Fields {
    Fields { members: none() }
}

/// No members.
pub open spec fn none() -> Seq<(Seq<char>, Json)> {
    Seq::empty()
}

impl Doc {
    pub fn get(&self, k: &str) -> (r: Option<&Doc>)
        ensures
            found(r) == field(self@, k@),
    {
        match self {
            Doc::Object(o) => o.get(k),
            _ => None,
        }
    }

    pub fn as_str(&self) -> (r: Option<&str>)
        ensures
            opt_str(r) == str_of(self@),
    {
        match self {
            Doc::String(s) => Some(s.as_str()),
            _ => None,
        }
    }

    pub fn as_bool(&self) -> (r: Option<bool>)
        ensures
            r == bool_of(self@),
    {
        match self {
            Doc::Bool(b) => Some(*b),
            _ => None,
        }
    }

    pub fn as_u64(&self) -> (r: Option<u64>)
        ensures
            r == u64_of(self@),
    {
        match self {
            Doc::Num(Num::Unsigned(n)) => Some(*n),
            Doc::Num(Num::Negative(n)) => if *n >= 0 {
                Some(*n as u64)
            } else {
                None
            },
            _ => None,
        }
    }

    pub fn as_i64(&self) -> (r: Option<i64>)
        ensures
            r == i64_of(self@),
    {
        match self {
            Doc::Num(Num::Unsigned(n)) => if *n <= i64::MAX as u64 {
                Some(*n as i64)
            } else {
                None
            },
            Doc::Num(Num::Negative(n)) => Some(*n),
            _ => None,
        }
    }

    pub fn as_array(&self) -> (r: Option<&Vec<Doc>>)
        ensures
            match r {
                Some(a) => self@ == Json::Arr(jsons(a@)),
                None => !(self@ is Arr),
            },
    {
        match self {
            Doc::Array(a) => {
                assert(self@->Arr_0 =~= jsons(a@));
                Some(a)
            },
            _ => None,
        }
    }

    pub fn is_null(&self) -> (r: bool)
        ensures
            r == (self@ is Null),
    {
        match self {
            Doc::Null => true,
            _ => false,
        }
    }

    /// The string that a key holds.
    pub fn str_at(&self, k: &str) -> (r: Option<&str>)
        ensures
            opt_str(r) == str_field(self@, k@),
    {
        match self.get(k) {
            Some(v) => v.as_str(),
            None => None,
        }
    }

    /// The whole number that a key holds.
    pub fn u64_at(&self, k: &str) -> (r: Option<u64>)
        ensures
            r == u64_field(self@, k@),
    {
        match self.get(k) {
            Some(v) => v.as_u64(),
            None => None,
        }
    }
}

impl Clone for Num {
    fn clone(&self) -> (r: Self)
        ensures
            r == *self,
    {
        match self {
            Num::Unsigned(n) => Num::Unsigned(*n),
            Num::Negative(n) => Num::Negative(*n),
            Num::Float(t) => Num::Float(t.clone()),
        }
    }
}

impl Clone for Doc {
    fn clone(&self) -> (r: Self)
        ensures
            r@ == self@,
        decreases self,
    {
        match self {
            Doc::Null => Doc::Null,
            Doc::Bool(b) => Doc::Bool(*b),
            Doc::Num(n) => Doc::Num(n.clone()),
            Doc::String(s) => Doc::String(s.clone()),
            Doc::Array(a) => {
                let mut out: Vec<Doc> = Vec::new();
                let mut i: usize = 0;
                while i < a.len()
                    invariant
                        i <= a@.len(),
                        jsons(out@) =~= jsons(a@).take(i as int),
                        decreases_to!(self => a@),
                    decreases a@.len() - i,
                {
                    assert(decreases_to!(a@ => a@[i as int]));
                    let ghost was = out@;
                    out.push(a[i].clone());
                    assert(jsons(out@) =~= jsons(was).push(jsons(a@)[i as int]));
                    i += 1;
                }
                let r = Doc::Array(out);
                assert(r@->Arr_0 =~= self@->Arr_0) by {
                    assert(r@->Arr_0 =~= jsons(out@));
                    assert(self@->Arr_0 =~= jsons(a@));
                }
                r
            },
            Doc::Object(o) => Doc::Object(o.clone()),
        }
    }
}

impl Clone for Object {
    fn clone(&self) -> (r: Self)
        ensures
            r@ == self@,
        decreases self,
    {
        proof {
            use_type_invariant(self);
            self.lemma_raw();
        }
        let mut out: Vec<(String, Doc)> = Vec::new();
        let mut i: usize = 0;
        while i < self.entries.len()
            invariant
                i <= self.entries@.len(),
                out@.len() == i,
                forall|j: int|
                    0 <= j < i ==> (#[trigger] out@[j]).0@ == self.entries@[j].0@ && out@[j].1@
                        == self.entries@[j].1@,
            decreases self.entries@.len() - i,
        {
            assert(decreases_to!(self.entries@ => self.entries@[i as int]));
            assert(decreases_to!(self.entries@[i as int] => self.entries@[i as int].1));
            out.push((self.entries[i].0.clone(), self.entries[i].1.clone()));
            i += 1;
        }
        assert(keys_of(out@) =~= keys_of(self.entries@));
        let r = Object { entries: out };
        proof {
            r.lemma_raw();
            assert(r@ =~= self@);
        }
        r
    }
}

// ---------------------------------------------------------------------------
// Equality of documents
// ---------------------------------------------------------------------------

/// The two ways in which a document writes a zero that is not an integer.
pub open spec fn is_zero(t: Seq<char>) -> bool {
    t == "0.0"@ || t == "-0.0"@
}

/// Whether two documents are equal: numbers by their value, objects by their
/// members.
pub open spec fn alike(a: Json, b: Json) -> bool
    decreases a,
{
    match (a, b) {
        (Json::Float(x), Json::Float(y)) => x == y || (is_zero(x) && is_zero(y)),
        (Json::Arr(x), Json::Arr(y)) => x.len() == y.len() && forall|i: int|
            0 <= i < x.len() ==> alike(#[trigger] x[i], y[i]),
        (Json::Obj(x), Json::Obj(y)) => x.len() == y.len() && forall|i: int|
            0 <= i < x.len() ==> (#[trigger] x[i]).0 == y[i].0 && alike(x[i].1, y[i].1),
        (Json::Float(_), _) | (_, Json::Float(_)) => false,
        (Json::Arr(_), _) | (_, Json::Arr(_)) => false,
        (Json::Obj(_), _) | (_, Json::Obj(_)) => false,
        _ => a == b,
    }
}

/// A document is equal to itself.
pub proof fn law_alike_reflexive(a: Json)
    ensures
        alike(a, a),
    decreases a,
{
    match a {
        Json::Arr(x) => {
            assert forall|i: int| 0 <= i < x.len() implies alike(#[trigger] x[i], x[i]) by {
                law_alike_reflexive(x[i]);
            }
        },
        Json::Obj(x) => {
            assert forall|i: int| 0 <= i < x.len() implies alike((#[trigger] x[i]).1, x[i].1) by {
                assert(decreases_to!(x => x[i]));
                law_alike_reflexive(x[i].1);
            }
        },
        _ => {},
    }
}

/// Documents that are equal to the same one are equal to each other.
pub proof fn law_alike_euclidean(a: Json, b: Json, c: Json)
    requires
        alike(a, b),
        alike(a, c),
    ensures
        alike(b, c),
    decreases a,
{
    match (a, b, c) {
        (Json::Arr(x), Json::Arr(y), Json::Arr(z)) => {
            assert forall|i: int| 0 <= i < y.len() implies alike(#[trigger] y[i], z[i]) by {
                assert(alike(x[i], y[i]) && alike(x[i], z[i]));
                law_alike_euclidean(x[i], y[i], z[i]);
            }
        },
        (Json::Obj(x), Json::Obj(y), Json::Obj(z)) => {
            assert forall|i: int| 0 <= i < y.len() implies (#[trigger] y[i]).0 == z[i].0 && alike(
                y[i].1,
                z[i].1,
            ) by {
                assert(x[i].0 == y[i].0 && x[i].0 == z[i].0);
                assert(decreases_to!(x => x[i]));
                law_alike_euclidean(x[i].1, y[i].1, z[i].1);
            }
        },
        _ => {},
    }
}

fn zero(t: &str) -> (r: bool)
    ensures
        r == is_zero(t@),
{
    text::same(t, "0.0") || text::same(t, "-0.0")
}

impl Doc {
    /// Whether two documents are equal.
    pub fn same(&self, other: &Doc) -> (r: bool)
        ensures
            r == alike(self@, other@),
        decreases self,
    {
        match (self, other) {
            (Doc::Null, Doc::Null) => true,
            (Doc::Bool(a), Doc::Bool(b)) => *a == *b,
            (Doc::Num(a), Doc::Num(b)) => match (a, b) {
                (Num::Float(x), Num::Float(y)) => text::same(x, y) || (zero(x) && zero(y)),
                (Num::Unsigned(x), Num::Unsigned(y)) => *x == *y,
                (Num::Negative(x), Num::Negative(y)) => *x == *y,
                (Num::Unsigned(x), Num::Negative(y)) => *y >= 0 && *x == *y as u64,
                (Num::Negative(x), Num::Unsigned(y)) => *x >= 0 && *x as u64 == *y,
                _ => false,
            },
            (Doc::String(a), Doc::String(b)) => text::same(a, b),
            (Doc::Array(a), Doc::Array(b)) => {
                if a.len() != b.len() {
                    return false;
                }
                let ghost x = self@->Arr_0;
                let ghost y = other@->Arr_0;
                let mut i: usize = 0;
                while i < a.len()
                    invariant
                        i <= a@.len(),
                        a@.len() == b@.len(),
                        self@ == Json::Arr(x),
                        other@ == Json::Arr(y),
                        x.len() == a@.len(),
                        y.len() == b@.len(),
                        forall|j: int| 0 <= j < x.len() ==> #[trigger] x[j] == a@[j]@,
                        forall|j: int| 0 <= j < y.len() ==> #[trigger] y[j] == b@[j]@,
                        forall|j: int| 0 <= j < i ==> alike(#[trigger] x[j], y[j]),
                        decreases_to!(self => a@),
                    decreases a@.len() - i,
                {
                    assert(decreases_to!(a@ => a@[i as int]));
                    assert(x[i as int] == a@[i as int]@ && y[i as int] == b@[i as int]@);
                    if !a[i].same(&b[i]) {
                        return false;
                    }
                    i += 1;
                }
                true
            },
            (Doc::Object(a), Doc::Object(b)) => {
                if a.len() != b.len() {
                    return false;
                }
                let mut i: usize = 0;
                while i < a.len()
                    invariant
                        i <= a@.len(),
                        a@.len() == b@.len(),
                        self@ == Json::Obj(a@),
                        other@ == Json::Obj(b@),
                        forall|j: int|
                            0 <= j < i ==> (#[trigger] a@[j]).0 == b@[j].0 && alike(
                                a@[j].1,
                                b@[j].1,
                            ),
                        decreases_to!(self => a),
                    decreases a@.len() - i,
                {
                    if !text::same(a.key(i), b.key(i)) || !a.value(i).same(b.value(i)) {
                        assert(!(a@[i as int].0 == b@[i as int].0 && alike(
                            a@[i as int].1,
                            b@[i as int].1,
                        )));
                        return false;
                    }
                    i += 1;
                }
                true
            },
            _ => false,
        }
    }
}

// ---------------------------------------------------------------------------
// Text of a document
// ---------------------------------------------------------------------------

/// A hexadecimal digit, in lower case.
pub open spec fn hex_digit(d: int) -> char {
    if d < 10 {
        (48 + d) as char
    } else {
        (87 + d) as char
    }
}

/// How a character stands in a JSON string.
pub open spec fn escaped(c: char) -> Seq<char> {
    let n = c as u32;
    if c == '"' || c == '\\' {
        seq!['\\', c]
    } else if n == 8 {
        seq!['\\', 'b']
    } else if n == 9 {
        seq!['\\', 't']
    } else if n == 10 {
        seq!['\\', 'n']
    } else if n == 12 {
        seq!['\\', 'f']
    } else if n == 13 {
        seq!['\\', 'r']
    } else if n < 32 {
        seq!['\\', 'u', '0', '0', hex_digit(n as int / 16), hex_digit(n as int % 16)]
    } else {
        seq![c]
    }
}

/// The characters of a JSON string, escaped.
pub open spec fn escapes(s: Seq<char>) -> Seq<char>
    decreases s.len(),
{
    if s.len() == 0 {
        Seq::empty()
    } else {
        escapes(s.drop_last()) + escaped(s.last())
    }
}

/// A string as JSON writes it.
pub open spec fn quoted(s: Seq<char>) -> Seq<char> {
    seq!['"'] + escapes(s) + seq!['"']
}

/// `serde_json::to_string` of a string: it stands between quotation marks,
/// with quotation marks, backslashes and control characters escaped.
#[verifier::external_body]
fn quote(s: &str) -> (r: String)
    ensures
        r@ == quoted(s@),
{
    serde_json::to_string(s).expect("a string serialises")
}

/// The text of the first `n` of the items `a`, a comma between each two.
pub open spec fn items_text(a: Seq<Json>, n: nat) -> Seq<char>
    decreases a, n,
{
    if n == 0 || n > a.len() {
        Seq::empty()
    } else if n == 1 {
        text_of(a[0])
    } else {
        items_text(a, (n - 1) as nat) + ","@ + text_of(a[n - 1])
    }
}

/// The text of one member of an object.
pub open spec fn member_text(m: (Seq<char>, Json)) -> Seq<char>
    decreases m, 0nat,
{
    quoted(m.0) + ":"@ + text_of(m.1)
}

/// The text of the first `n` of the members `e`, a comma between each two.
pub open spec fn members_text(e: Seq<(Seq<char>, Json)>, n: nat) -> Seq<char>
    decreases e, n,
{
    if n == 0 || n > e.len() {
        Seq::empty()
    } else if n == 1 {
        member_text(e[0])
    } else {
        members_text(e, (n - 1) as nat) + ","@ + member_text(e[n - 1])
    }
}

/// A document as text, without white space, the members of each object in the
/// order of their keys.
pub open spec fn text_of(j: Json) -> Seq<char>
    decreases j, 0nat,
{
    match j {
        Json::Null => "null"@,
        Json::Bool(b) => if b {
            "true"@
        } else {
            "false"@
        },
        Json::Int(n) => text::decimal_int(n),
        Json::Float(t) => t,
        Json::Str(s) => quoted(s),
        Json::Arr(a) => "["@ + items_text(a, a.len()) + "]"@,
        Json::Obj(e) => "{"@ + members_text(e, e.len()) + "}"@,
    }
}

impl Doc {
    /// The document as text.
    pub fn to_text(&self) -> (r: String)
        ensures
            r@ == text_of(self@),
        decreases self,
    {
        match self {
            Doc::Null => "null".to_owned(),
            Doc::Bool(b) => if *b {
                "true".to_owned()
            } else {
                "false".to_owned()
            },
            Doc::Num(Num::Unsigned(n)) => text::dec(*n),
            Doc::Num(Num::Negative(n)) => text::dec_i64(*n),
            Doc::Num(Num::Float(t)) => t.clone(),
            Doc::String(s) => quote(s),
            Doc::Array(a) => {
                let ghost x = self@->Arr_0;
                let mut out = "[".to_owned();
                let mut i: usize = 0;
                assert("["@ + items_text(x, 0) =~= "["@);
                while i < a.len()
                    invariant
                        i <= a@.len(),
                        self@ == Json::Arr(x),
                        x.len() == a@.len(),
                        forall|j: int| 0 <= j < x.len() ==> #[trigger] x[j] == a@[j]@,
                        out@ == "["@ + items_text(x, i as nat),
                        decreases_to!(self => a@),
                    decreases a@.len() - i,
                {
                    assert(decreases_to!(a@ => a@[i as int]));
                    assert(x[i as int] == a@[i as int]@);
                    if i > 0 {
                        out.append(",");
                    }
                    out.append(&a[i].to_text());
                    i += 1;
                    assert(out@ =~= "["@ + items_text(x, i as nat));
                }
                out.append("]");
                out
            },
            Doc::Object(o) => {
                let mut out = "{".to_owned();
                let mut i: usize = 0;
                assert("{"@ + members_text(o@, 0) =~= "{"@);
                while i < o.len()
                    invariant
                        i <= o@.len(),
                        self@ == Json::Obj(o@),
                        out@ == "{"@ + members_text(o@, i as nat),
                        decreases_to!(self => o),
                    decreases o@.len() - i,
                {
                    if i > 0 {
                        out.append(",");
                    }
                    let key = quote(o.key(i));
                    let value = o.value(i).to_text();
                    out.append(&key);
                    out.append(":");
                    out.append(&value);
                    assert(member_text(o@[i as int]) == key@ + ":"@ + value@);
                    i += 1;
                    assert(out@ =~= "{"@ + members_text(o@, i as nat));
                }
                out.append("}");
                out
            },
        }
    }
}

/// A copy of a list of documents.
pub fn copy_values(v: &Vec<Doc>) -> (r: Vec<Doc>)
    ensures
        jsons(r@) == jsons(v@),
{
    let mut out: Vec<Doc> = Vec::new();
    let mut i: usize = 0;
    while i < v.len()
        invariant
            i <= v@.len(),
            jsons(out@) =~= jsons(v@).take(i as int),
        decreases v@.len() - i,
    {
        let ghost was = out@;
        out.push(v[i].clone());
        assert(jsons(out@) =~= jsons(was).push(v@[i as int]@));
        i += 1;
    }
    out
}

/// What an optional value holds.
pub open spec fn opt_json(o: Option<Doc>) -> Option<Json> {
    match o {
        Some(v) => Some(v@),
        None => None,
    }
}

/// A copy of an optional document.
pub fn copy_opt(o: &Option<Doc>) -> (r: Option<Doc>)
    ensures
        opt_json(r) == opt_json(*o),
{
    match o {
        Some(v) => Some(v.clone()),
        None => None,
    }
}

} // verus!
