//! A map from text to values, its entries in the order of their keys.
use crate::json;
use crate::text;
use vstd::prelude::*;

verus! {

/// Entries in the order of their keys, no key twice.
#[derive(Debug)]
pub struct Table<T> {
    entries: Vec<(String, T)>,
}

spec fn raw_keys<T>(s: Seq<(String, T)>) -> Seq<Seq<char>> {
    s.map_values(|e: (String, T)| e.0@)
}

impl<T: View> View for Table<T> {
    type V = Seq<(Seq<char>, T::V)>;

    closed spec fn view(&self) -> Seq<(Seq<char>, T::V)> {
        self.entries@.map_values(|e: (String, T)| (e.0@, e.1@))
    }
}

impl<T> Table<T> {
    #[verifier::type_invariant]
    spec fn inv(self) -> bool {
        json::sorted(raw_keys(self.entries@))
    }
}

impl<T: View> Table<T> {
    pub fn new() -> (r: Self)
        ensures
            r@ == Seq::<(Seq<char>, T::V)>::empty(),
    {
        let r = Table { entries: Vec::new() };
        assert(r@ =~= Seq::empty());
        r
    }

    pub fn len(&self) -> (r: usize)
        ensures
            r == self@.len(),
            json::sorted(json::keys(self@)),
    {
        proof {
            use_type_invariant(self);
            assert(json::keys(self@) =~= raw_keys(self.entries@));
        }
        self.entries.len()
    }

    pub fn key(&self, i: usize) -> (r: &str)
        requires
            i < self@.len(),
        ensures
            r@ == self@[i as int].0,
    {
        self.entries[i].0.as_str()
    }

    pub fn value(&self, i: usize) -> (r: &T)
        requires
            i < self@.len(),
        ensures
            r@ == self@[i as int].1,
    {
        &self.entries[i].1
    }

    pub fn get(&self, k: &str) -> (r: Option<&T>)
        ensures
            match r {
                Some(v) => json::lookup(self@, k@) == Some(v@),
                None => json::lookup(self@, k@) is None,
            },
    {
        let mut i: usize = 0;
        while i < self.entries.len()
            invariant
                i <= self.entries@.len(),
                forall|j: int| 0 <= j < i ==> #[trigger] self@[j].0 != k@,
            decreases self.entries@.len() - i,
        {
            assert(self@[i as int].0 == self.entries@[i as int].0@);
            if text::same(&self.entries[i].0, k) {
                proof {
                    json::lemma_lookup_at(self@, k@, i as int);
                }
                return Some(&self.entries[i].1);
            }
            i += 1;
        }
        proof {
            json::lemma_lookup_at(self@, k@, i as int);
        }
        None
    }

    /// The table with the key `k` holding `v`.
    pub fn with(self, k: &str, v: T) -> (r: Self)
        ensures
            r@ == json::put(self@, k@, v@),
    {
        proof {
            use_type_invariant(&self);
        }
        let ghost e = self@;
        let ghost was = self.entries@;
        proof {
            assert(json::keys(e) =~= raw_keys(was));
        }
        let Table { entries } = self;
        let mut entries = entries;
        let mut i: usize = 0;
        while i < entries.len() && !text::same(&entries[i].0, k) && !json::precedes(
            k,
            &entries[i].0,
        )
            invariant
                i <= entries@.len(),
                entries@ == was,
                e.len() == was.len(),
                forall|j: int| 0 <= j < was.len() ==> #[trigger] e[j] == (was[j].0@, was[j].1@),
                forall|j: int| 0 <= j < i ==> #[trigger] e[j].0 != k@ && !json::before(k@, e[j].0),
            decreases entries@.len() - i,
        {
            assert(e[i as int].0 == was[i as int].0@);
            i += 1;
        }
        proof {
            if i < was.len() {
                assert(e[i as int].0 == was[i as int].0@);
            }
            json::lemma_put_at(e, k@, v@, i as int);
            json::law_put_sorted(e, k@, v@);
        }
        let key = k.to_owned();
        let ghost next = (key, v);
        if i < entries.len() && text::same(&entries[i].0, k) {
            entries.set(i, (key, v));
            assert(entries@ == was.update(i as int, next));
            assert(entries@.map_values(|e: (String, T)| (e.0@, e.1@)) =~= json::put(e, k@, v@));
        } else {
            entries.insert(i, (key, v));
            assert(entries@ == was.insert(i as int, next));
            assert(entries@.map_values(|e: (String, T)| (e.0@, e.1@)) =~= json::put(e, k@, v@));
        }
        assert(raw_keys(entries@) =~= json::keys(json::put(e, k@, v@)));
        Table { entries }
    }
}

/// A copy of a table of texts.
pub fn copy_texts(t: &Table<String>) -> (r: Table<String>)
    ensures
        r@ == t@,
{
    proof {
        use_type_invariant(t);
    }
    let mut out: Vec<(String, String)> = Vec::new();
    let mut i: usize = 0;
    while i < t.entries.len()
        invariant
            i <= t.entries@.len(),
            out@ == t.entries@.take(i as int),
        decreases t.entries@.len() - i,
    {
        out.push((t.entries[i].0.clone(), t.entries[i].1.clone()));
        i += 1;
        assert(t.entries@.take(i as int) =~= t.entries@.take(i - 1).push(t.entries@[i - 1]));
    }
    assert(t.entries@.take(i as int) =~= t.entries@);
    Table { entries: out }
}

} // verus!
