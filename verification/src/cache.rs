//! The type-keyed, hit/miss-counting cache.
//!
//! One cache instance serves many relationship kinds at once: every entry is
//! keyed by a `(type-tag, key)` pair, where the `u64` type-tag distinguishes
//! relationship kinds that share one id space. [`DynamicCache`] is the bare
//! mapping, [`CacheInner`] adds the hit/miss counters, and [`Cache`] adds an
//! enabled/disabled mode, where a disabled cache is a zero-cost no-op.

use vstd::prelude::*;
use vstd::std_specs::cmp::PartialEqSpec;

verus! {

/// True when `==` on `T` is visible to the verifier and agrees with
/// spec-level equality. It holds for the integer and tuple keys a cache is
/// normally keyed by; lookups need it to relate the scan to the contract.
pub open spec fn eq_reflects_eq<T: PartialEq>() -> bool {
    &&& T::obeys_eq_spec()
    &&& forall|a: T, b: T| #[trigger] a.eq_spec(&b) <==> a == b
}

/// `a + n`, stopping at the largest `usize` instead of wrapping.
pub open spec fn sat_add(a: usize, n: nat) -> usize {
    if a + n > usize::MAX {
        usize::MAX
    } else {
        (a + n) as usize
    }
}

/// The bare mapping from `(type-tag, key)` to a value. An insert under a pair
/// that is already present shadows the older entry, so observably it
/// overwrites silently.
#[derive(Debug)]
pub struct DynamicCache<K, V> {
    entries: Vec<(u64, K, V)>,
}

impl<K: PartialEq, V> DynamicCache<K, V> {
    /// What the cache associates with `(tag, key)`: the most recently
    /// inserted value under that pair, if any.
    pub closed spec fn lookup(self, tag: u64, key: K) -> Option<V> {
        Self::seq_lookup(self.entries@, tag, key)
    }

    spec fn seq_lookup(s: Seq<(u64, K, V)>, tag: u64, key: K) -> Option<V>
        decreases s.len(),
    {
        if s.len() == 0 {
            None
        } else if s.last().0 == tag && s.last().1 == key {
            Some(s.last().2)
        } else {
            Self::seq_lookup(s.drop_last(), tag, key)
        }
    }

    /// An empty cache.
    pub fn new() -> (r: Self)
        ensures
            forall|t: u64, k: K| #[trigger] r.lookup(t, k) is None,
    {
        let r = DynamicCache { entries: Vec::new() };
        proof {
            assert forall|t: u64, k: K| #[trigger] r.lookup(t, k) is None by {
                assert(r.entries@.len() == 0);
            }
        }
        r
    }

    /// Store `value` under `(tag, key)`; every other association is kept.
    pub fn insert(&mut self, tag: u64, key: K, value: V)
        ensures
            forall|t: u64, k: K|
                #[trigger] final(self).lookup(t, k) == (if t == tag && k == key {
                    Some(value)
                } else {
                    old(self).lookup(t, k)
                }),
    {
        self.entries.push((tag, key, value));
        proof {
            assert forall|t: u64, k: K|
                #[trigger] self.lookup(t, k) == (if t == tag && k == key {
                    Some(value)
                } else {
                    old(self).lookup(t, k)
                }) by {
                assert(self.entries@.last() == (tag, key, value));
                assert(self.entries@.drop_last() =~= old(self).entries@);
            }
        }
    }

    /// Look `(tag, key)` up, returning a reference to the stored value.
    pub fn get(&self, tag: u64, key: K) -> (r: Option<&V>)
        requires
            eq_reflects_eq::<K>(),
        ensures
            match r {
                Some(v) => self.lookup(tag, key) == Some(*v),
                None => self.lookup(tag, key) is None,
            },
    {
        let mut i: usize = self.entries.len();
        proof {
            assert(self.entries@.take(i as int) =~= self.entries@);
        }
        while i > 0
            invariant
                i <= self.entries@.len(),
                eq_reflects_eq::<K>(),
                Self::seq_lookup(self.entries@, tag, key) == Self::seq_lookup(
                    self.entries@.take(i as int),
                    tag,
                    key,
                ),
            decreases i,
        {
            i = i - 1;
            proof {
                assert(self.entries@.take(i as int + 1).last() == self.entries@[i as int]);
                assert(self.entries@.take(i as int + 1).drop_last() =~= self.entries@.take(
                    i as int,
                ));
            }
            let e = &self.entries[i];
            if e.0 == tag && e.1 == key {
                return Some(&e.2);
            }
        }
        proof {
            assert(self.entries@.take(0) =~= Seq::<(u64, K, V)>::empty());
        }
        None
    }
}

/// A [`DynamicCache`] together with the two monotone counters that measure
/// how effective it was: lookups that found a value, and lookups that did not.
#[derive(Debug)]
pub struct CacheInner<K, V> {
    map: DynamicCache<K, V>,
    hits: usize,
    misses: usize,
}

impl<K: PartialEq, V> CacheInner<K, V> {
    /// What this cache associates with `(tag, key)`.
    pub closed spec fn lookup(self, tag: u64, key: K) -> Option<V> {
        self.map.lookup(tag, key)
    }

    /// How many lookups found a value so far.
    pub closed spec fn hit_count(self) -> usize {
        self.hits
    }

    /// How many lookups found nothing so far.
    pub closed spec fn miss_count(self) -> usize {
        self.misses
    }

    fn insert(&mut self, tag: u64, key: K, value: V)
        ensures
            final(self).hit_count() == old(self).hit_count(),
            final(self).miss_count() == old(self).miss_count(),
            forall|t: u64, k: K|
                #[trigger] final(self).lookup(t, k) == (if t == tag && k == key {
                    Some(value)
                } else {
                    old(self).lookup(t, k)
                }),
    {
        self.map.insert(tag, key, value);
    }

    fn get(&mut self, tag: u64, key: K) -> (r: Option<&V>)
        requires
            eq_reflects_eq::<K>(),
        ensures
            forall|t: u64, k: K| #[trigger] final(self).lookup(t, k) == old(self).lookup(t, k),
            match r {
                Some(v) => {
                    &&& old(self).lookup(tag, key) == Some(*v)
                    &&& final(self).hit_count() == sat_add(old(self).hit_count(), 1)
                    &&& final(self).miss_count() == old(self).miss_count()
                },
                None => {
                    &&& old(self).lookup(tag, key) is None
                    &&& final(self).miss_count() == sat_add(old(self).miss_count(), 1)
                    &&& final(self).hit_count() == old(self).hit_count()
                },
            },
    {
        let res = self.map.get(tag, key);
        if res.is_some() {
            if self.hits < usize::MAX {
                self.hits = self.hits + 1;
            }
        } else {
            if self.misses < usize::MAX {
                self.misses = self.misses + 1;
            }
        }
        res
    }

    fn hits(&self) -> (r: usize)
        ensures
            r == self.hit_count(),
    {
        self.hits
    }

    fn misses(&self) -> (r: usize)
        ensures
            r == self.miss_count(),
    {
        self.misses
    }
}

/// A fresh inner cache is empty with both counters at zero.
impl<K: PartialEq, V> Default for CacheInner<K, V> {
    fn default() -> (r: Self)
        ensures
            r.hit_count() == 0,
            r.miss_count() == 0,
            forall|t: u64, k: K| #[trigger] r.lookup(t, k) is None,
    {
        CacheInner { map: DynamicCache::new(), hits: 0, misses: 0 }
    }
}

/// The cache handed through an eager-loading pass: either a live
/// [`CacheInner`], or a disabled instance on which every lookup misses, no
/// counter moves, and nothing is ever stored.
#[derive(Debug)]
pub enum Cache<K, V> {
    NoCaching,
    Cache(CacheInner<K, V>),
}

impl<K: PartialEq, V> Cache<K, V> {
    /// Whether this instance actually caches.
    pub open spec fn is_enabled(self) -> bool {
        self matches Cache::Cache(_)
    }

    /// What this cache associates with `(tag, key)`; a disabled cache
    /// associates nothing with anything.
    pub open spec fn lookup(self, tag: u64, key: K) -> Option<V> {
        match self {
            Cache::NoCaching => None,
            Cache::Cache(inner) => inner.lookup(tag, key),
        }
    }

    /// How many lookups found a value so far.
    pub open spec fn hit_count(self) -> usize {
        match self {
            Cache::NoCaching => 0,
            Cache::Cache(inner) => inner.hit_count(),
        }
    }

    /// How many lookups found nothing so far.
    pub open spec fn miss_count(self) -> usize {
        match self {
            Cache::NoCaching => 0,
            Cache::Cache(inner) => inner.miss_count(),
        }
    }

    /// A fresh, empty, enabled cache with zeroed counters.
    pub fn new() -> (r: Self)
        ensures
            r.is_enabled(),
            r.hit_count() == 0,
            r.miss_count() == 0,
            forall|t: u64, k: K| #[trigger] r.lookup(t, k) is None,
    {
        Cache::Cache(CacheInner::default())
    }

    /// A cache that does nothing: every lookup misses and nothing is stored.
    pub fn disabled() -> (r: Self)
        ensures
            !r.is_enabled(),
    {
        Cache::NoCaching
    }

    /// Store `value` under `(tag, key)` if enabled; a no-op if disabled.
    /// Inserting never moves the hit or miss counters.
    pub fn insert(&mut self, tag: u64, key: K, value: V)
        ensures
            final(self).is_enabled() == old(self).is_enabled(),
            final(self).hit_count() == old(self).hit_count(),
            final(self).miss_count() == old(self).miss_count(),
            !old(self).is_enabled() ==> *final(self) == *old(self),
            old(self).is_enabled() ==> forall|t: u64, k: K|
                #[trigger] final(self).lookup(t, k) == (if t == tag && k == key {
                    Some(value)
                } else {
                    old(self).lookup(t, k)
                }),
    {
        match self {
            Cache::NoCaching => {},
            Cache::Cache(inner) => inner.insert(tag, key, value),
        }
    }

    /// Look `(tag, key)` up. Exactly one counter moves when enabled: the hit
    /// counter if a value is returned, the miss counter otherwise. A disabled
    /// cache reports a miss without touching anything.
    pub fn get(&mut self, tag: u64, key: K) -> (r: Option<&V>)
        requires
            eq_reflects_eq::<K>(),
        ensures
            final(self).is_enabled() == old(self).is_enabled(),
            forall|t: u64, k: K| #[trigger] final(self).lookup(t, k) == old(self).lookup(t, k),
            !old(self).is_enabled() ==> r is None && *final(self) == *old(self),
            old(self).is_enabled() ==> match r {
                Some(v) => {
                    &&& old(self).lookup(tag, key) == Some(*v)
                    &&& final(self).hit_count() == sat_add(old(self).hit_count(), 1)
                    &&& final(self).miss_count() == old(self).miss_count()
                },
                None => {
                    &&& old(self).lookup(tag, key) is None
                    &&& final(self).miss_count() == sat_add(old(self).miss_count(), 1)
                    &&& final(self).hit_count() == old(self).hit_count()
                },
            },
    {
        match self {
            Cache::NoCaching => None,
            Cache::Cache(inner) => inner.get(tag, key),
        }
    }

    /// How many lookups found a value so far; `0` when disabled.
    pub fn hits(&self) -> (r: usize)
        ensures
            r == self.hit_count(),
    {
        match self {
            Cache::NoCaching => 0,
            Cache::Cache(inner) => inner.hits(),
        }
    }

    /// How many lookups found nothing so far; `0` when disabled.
    pub fn misses(&self) -> (r: usize)
        ensures
            r == self.miss_count(),
    {
        match self {
            Cache::NoCaching => 0,
            Cache::Cache(inner) => inner.misses(),
        }
    }
}

/// The default cache performs no caching at all.
impl<K: PartialEq, V> Default for Cache<K, V> {
    fn default() -> (r: Self)
        ensures
            !r.is_enabled(),
    {
        Cache::NoCaching
    }
}

/// A disabled cache is observably inert: its counters read zero and every
/// lookup reports an absent value, no matter what was "inserted" before.
pub proof fn lemma_disabled_cache_trivial<K: PartialEq, V>(c: Cache<K, V>)
    requires
        !c.is_enabled(),
    ensures
        c.hit_count() == 0,
        c.miss_count() == 0,
        forall|t: u64, k: K| #[trigger] c.lookup(t, k) is None,
{
}

/// Type isolation: storing `v1` under tag `tag_a` and `v2` under tag `tag_b`
/// with the same key keeps the two associations apart — reading back under
/// each tag returns the value stored under that tag. The two hypotheses are
/// exactly what [`Cache::insert`] ensures for the two inserts.
pub proof fn lemma_type_isolation<K: PartialEq, V>(
    c0: Cache<K, V>,
    c1: Cache<K, V>,
    c2: Cache<K, V>,
    tag_a: u64,
    tag_b: u64,
    key: K,
    v1: V,
    v2: V,
)
    requires
        tag_a != tag_b,
        forall|t: u64, k: K|
            #[trigger] c1.lookup(t, k) == (if t == tag_a && k == key {
                Some(v1)
            } else {
                c0.lookup(t, k)
            }),
        forall|t: u64, k: K|
            #[trigger] c2.lookup(t, k) == (if t == tag_b && k == key {
                Some(v2)
            } else {
                c1.lookup(t, k)
            }),
    ensures
        c2.lookup(tag_a, key) == Some(v1),
        c2.lookup(tag_b, key) == Some(v2),
{
}

} // verus!
