//! The integer side of the comparator's statistics: the seeded generator and the
//! shuffles that the permutation test draws, and the walk over a histogram's
//! cumulative counts. A given seed always yields the same shuffles, so that a
//! verdict is reproducible.
use vstd::prelude::*;

verus! {

/// SplitMix64: tiny, fast, good enough for shuffling. Seeded for determinism.
pub struct SplitMix64 {
    state: u64,
}

/// The generator's state after one more number.
pub open spec fn advanced(state: u64) -> u64 {
    vstd::wrapping::u64_specs::wrapping_add(state, 0x9E3779B97F4A7C15)
}

/// The number that the generator gives in a state.
pub open spec fn mixed(state: u64) -> u64 {
    let y = vstd::wrapping::u64_specs::wrapping_mul(state ^ (state >> 30), 0xBF58476D1CE4E5B9);
    let z = vstd::wrapping::u64_specs::wrapping_mul(y ^ (y >> 27), 0x94D049BB133111EB);
    z ^ (z >> 31)
}

/// `s` with the items at `i` and `j` exchanged.
pub open spec fn exchanged<T>(s: Seq<T>, i: int, j: int) -> Seq<T> {
    s.update(i, s[j]).update(j, s[i])
}

/// What a Fisher-Yates shuffle of the items `0..=i` leaves: the generator's
/// state and the items.
pub open spec fn shuffled<T>(state: u64, s: Seq<T>, i: nat) -> (u64, Seq<T>)
    decreases i,
{
    if i == 0 || i >= s.len() {
        (state, s)
    } else {
        let next = advanced(state);
        shuffled(next, exchanged(s, i as int, mixed(next) as int % (i as int + 1)), (i - 1) as nat)
    }
}

/// The generator's state and the items after `n` shuffles, each of what the
/// one before left.
pub open spec fn arrangement<T>(state: u64, s: Seq<T>, n: nat) -> (u64, Seq<T>)
    decreases n,
{
    if n == 0 {
        (state, s)
    } else {
        let (t, p) = arrangement(state, s, (n - 1) as nat);
        shuffled(
            t,
            p,
            if p.len() > 0 {
                (p.len() - 1) as nat
            } else {
                0
            },
        )
    }
}

proof fn lemma_update_multiset<T>(s: Seq<T>, i: int, x: T)
    requires
        0 <= i < s.len(),
    ensures
        s.update(i, x).to_multiset() == s.to_multiset().remove(s[i]).insert(x),
{
    broadcast use vstd::seq_lib::group_to_multiset_ensures;

    assert(s.update(i, x) =~= s.remove(i).insert(i, x));
    vstd::seq_lib::to_multiset_insert(s.remove(i), i, x);
    vstd::seq_lib::to_multiset_remove(s, i);
}

proof fn lemma_exchanged<T>(s: Seq<T>, i: int, j: int)
    requires
        0 <= i < s.len(),
        0 <= j < s.len(),
    ensures
        exchanged(s, i, j).len() == s.len(),
        exchanged(s, i, j).to_multiset() == s.to_multiset(),
{
    broadcast use vstd::seq_lib::group_to_multiset_ensures;

    let t = s.update(i, s[j]);
    lemma_update_multiset(s, i, s[j]);
    lemma_update_multiset(t, j, s[i]);
    assert(s.to_multiset().count(s[i]) > 0) by {
        vstd::seq_lib::to_multiset_contains(s, s[i]);
        assert(s.contains(s[i]));
    }
    assert(exchanged(s, i, j).to_multiset() =~= s.to_multiset());
}

/// A shuffle rearranges: the same items, as often as before.
pub proof fn law_shuffle_rearranges<T>(state: u64, s: Seq<T>, i: nat)
    ensures
        shuffled(state, s, i).1.len() == s.len(),
        shuffled(state, s, i).1.to_multiset() == s.to_multiset(),
    decreases i,
{
    if !(i == 0 || i >= s.len()) {
        let next = advanced(state);
        let j = mixed(next) as int % (i as int + 1);
        lemma_exchanged(s, i as int, j);
        law_shuffle_rearranges(next, exchanged(s, i as int, j), (i - 1) as nat);
    }
}

/// Every arrangement that the permutation test looks at holds the same items,
/// as often as the pool it began with.
pub proof fn law_arrangements_keep_the_pool<T>(state: u64, s: Seq<T>, n: nat)
    ensures
        arrangement(state, s, n).1.len() == s.len(),
        arrangement(state, s, n).1.to_multiset() == s.to_multiset(),
    decreases n,
{
    if n > 0 {
        law_arrangements_keep_the_pool(state, s, (n - 1) as nat);
        let (t, p) = arrangement(state, s, (n - 1) as nat);
        law_shuffle_rearranges(
            t,
            p,
            if p.len() > 0 {
                (p.len() - 1) as nat
            } else {
                0
            },
        );
    }
}

impl SplitMix64 {
    pub closed spec fn state(&self) -> u64 {
        self.state
    }

    pub fn new(seed: u64) -> (r: Self)
        ensures
            r.state() == seed,
    {
        SplitMix64 { state: seed }
    }

    pub fn next_u64(&mut self) -> (r: u64)
        ensures
            final(self).state() == advanced(old(self).state()),
            r == mixed(final(self).state()),
    {
        self.state = self.state.wrapping_add(0x9E3779B97F4A7C15);
        let z: u64 = self.state;
        let y: u64 = (z ^ (z >> 30)).wrapping_mul(0xBF58476D1CE4E5B9);
        let x: u64 = (y ^ (y >> 27)).wrapping_mul(0x94D049BB133111EB);
        x ^ (x >> 31)
    }

    /// Uniform in `0..n`.
    pub fn below(&mut self, n: usize) -> (r: usize)
        requires
            n > 0,
        ensures
            final(self).state() == advanced(old(self).state()),
            r == mixed(final(self).state()) as int % n as int,
            r < n,
    {
        (self.next_u64() % (n as u64)) as usize
    }

    /// A Fisher-Yates shuffle of the pool.
    pub fn shuffle<T: Copy>(&mut self, pool: &mut Vec<T>)
        ensures
            (final(self).state(), final(pool)@) == shuffled(
                old(self).state(),
                old(pool)@,
                if old(pool)@.len() > 0 {
                    (old(pool)@.len() - 1) as nat
                } else {
                    0
                },
            ),
    {
        let ghost target = shuffled(
            self.state(),
            pool@,
            if pool@.len() > 0 {
                (pool@.len() - 1) as nat
            } else {
                0
            },
        );
        if pool.len() == 0 {
            return;
        }
        let mut i: usize = pool.len() - 1;
        while i > 0
            invariant
                i < pool.len(),
                shuffled(self.state(), pool@, i as nat) == target,
            decreases i,
        {
            let ghost was = pool@;
            let j: usize = self.below(i + 1);
            let a = pool[i];
            let b = pool[j];
            pool.set(i, b);
            pool.set(j, a);
            assert(pool@ =~= exchanged(was, i as int, j as int));
            i -= 1;
        }
    }
}

/// How many of the values are true.
pub open spec fn count_true(s: Seq<bool>) -> nat
    decreases s.len(),
{
    if s.len() == 0 {
        0
    } else {
        count_true(s.drop_last()) + (if s.last() {
            1nat
        } else {
            0
        })
    }
}

/// Whether `extreme` may answer `held` of the items after `n` shuffles.
pub open spec fn answers<T, F: Fn(&Vec<T>) -> bool>(
    extreme: F,
    seed: u64,
    pool: Seq<T>,
    n: nat,
    held: bool,
) -> bool {
    exists|v: Vec<T>|
        v@ == arrangement(seed, pool, n).1 && #[trigger] call_ensures(extreme, (&v,), held)
}

/// Over `resamples` shuffles of the pool, how often `extreme` holds of what a
/// shuffle left.
pub fn count_extreme<T: Copy, F: Fn(&Vec<T>) -> bool>(
    pool: Vec<T>,
    resamples: usize,
    seed: u64,
    extreme: F,
) -> (r: usize)
    requires
        forall|v: &Vec<T>| call_requires(extreme, (v,)),
    ensures
        exists|held: Seq<bool>|
            {
                &&& held.len() == resamples
                &&& r == count_true(held)
                &&& forall|k: int|
                    0 <= k < resamples ==> answers(
                        extreme,
                        seed,
                        pool@,
                        (k + 1) as nat,
                        #[trigger] held[k],
                    )
            },
        r <= resamples,
{
    let ghost start = pool@;
    let mut pool = pool;
    let mut rng = SplitMix64::new(seed);
    let mut count: usize = 0;
    let ghost mut held: Seq<bool> = Seq::empty();
    let mut k: usize = 0;
    while k < resamples
        invariant
            k <= resamples,
            count <= k,
            held.len() == k,
            count == count_true(held),
            forall|v: &Vec<T>| call_requires(extreme, (v,)),
            (rng.state(), pool@) == arrangement(seed, start, k as nat),
            forall|i: int|
                0 <= i < k ==> answers(extreme, seed, start, (i + 1) as nat, #[trigger] held[i]),
        decreases resamples - k,
    {
        rng.shuffle(&mut pool);
        let hit = extreme(&pool);
        let ghost before = held;
        proof {
            held = held.push(hit);
            assert(held.drop_last() =~= before);
            assert(pool@ == arrangement(seed, start, (k + 1) as nat).1);
            assert(answers(extreme, seed, start, (k + 1) as nat, hit));
            assert forall|i: int| 0 <= i < k + 1 implies answers(
                extreme,
                seed,
                start,
                (i + 1) as nat,
                #[trigger] held[i],
            ) by {
                if i < k {
                    assert(held[i] == before[i]);
                }
            }
        }
        if hit {
            count += 1;
        }
        k += 1;
    }
    count
}

/// The number of items in the first `n` buckets.
pub open spec fn total(buckets: Seq<u64>, n: nat) -> nat
    decreases n,
{
    if n == 0 || n > buckets.len() {
        0
    } else {
        total(buckets, (n - 1) as nat) + buckets[n - 1] as nat
    }
}

proof fn lemma_total_grows(buckets: Seq<u64>, n: nat, m: nat)
    requires
        n <= m <= buckets.len(),
    ensures
        total(buckets, n) <= total(buckets, m),
    decreases m,
{
    if n < m {
        lemma_total_grows(buckets, n, (m - 1) as nat);
    }
}

/// The first bucket at which the cumulative count satisfies `reached`.
pub fn bucket_reaching<F: Fn(u64) -> bool>(buckets: &Vec<u64>, reached: F) -> (r: Option<usize>)
    requires
        total(buckets@, buckets@.len()) <= u64::MAX,
        forall|n: u64| call_requires(reached, (n,)),
    ensures
        match r {
            Some(i) => {
                &&& i < buckets@.len()
                &&& call_ensures(reached, (total(buckets@, (i + 1) as nat) as u64,), true)
                &&& forall|j: int|
                    0 <= j < i ==> call_ensures(
                        reached,
                        (#[trigger] total(buckets@, (j + 1) as nat) as u64,),
                        false,
                    )
            },
            None => forall|j: int|
                0 <= j < buckets@.len() ==> call_ensures(
                    reached,
                    (#[trigger] total(buckets@, (j + 1) as nat) as u64,),
                    false,
                ),
        },
{
    let mut cum: u64 = 0;
    let mut i: usize = 0;
    while i < buckets.len()
        invariant
            i <= buckets@.len(),
            cum == total(buckets@, i as nat),
            total(buckets@, buckets@.len()) <= u64::MAX,
            forall|n: u64| call_requires(reached, (n,)),
            forall|j: int|
                0 <= j < i ==> call_ensures(
                    reached,
                    (#[trigger] total(buckets@, (j + 1) as nat) as u64,),
                    false,
                ),
        decreases buckets@.len() - i,
    {
        proof {
            lemma_total_grows(buckets@, (i + 1) as nat, buckets@.len());
        }
        cum = cum + buckets[i];
        if reached(cum) {
            return Some(i);
        }
        i += 1;
    }
    None
}

} // verus!
