use vstd::prelude::*;
use crate::sequence::fib;
use crate::strategies::memo_sound;

verus! {

/// Number of entries a `FibCache` keeps before it evicts.
pub const CACHE_SIZE: usize = 100;

#[verifier::external_type_specification]
#[verifier::external_body]
#[verifier::reject_recursive_types(K)]
#[verifier::reject_recursive_types(V)]
#[verifier::reject_recursive_types(S)]
pub struct ExLruCache<K, V, S>(cached::LruCache<K, V, S>);

/// The key/value pairs that an LRU cache of `u128` currently holds.
pub uninterp spec fn lru_entries(c: cached::LruCache<u128, u128>) -> Map<u128, u128>;

/// The number of entries an LRU cache of `u128` holds before it evicts.
pub uninterp spec fn lru_bound(c: cached::LruCache<u128, u128>) -> nat;

/// Relies on `LruCache::new`: an empty cache bounded by `max_size` entries.
/// It panics on 0 or when the up-front allocation fails, hence the bounds.
#[verifier::external_body]
fn lru_new(max_size: usize) -> (r: cached::LruCache<u128, u128>)
    requires
        0 < max_size,
        max_size <= 100_000,
    ensures
        lru_entries(r).dom() == Set::<u128>::empty(),
        lru_bound(r) == max_size,
{
    cached::LruCache::new(max_size)
}

/// Relies on `Cached::cache_get` of `LruCache`: the stored value, if any.
/// A hit only refreshes the key's recency; the entries stay as they were.
#[verifier::external_body]
fn lru_get(c: &mut cached::LruCache<u128, u128>, k: u128) -> (r: Option<u128>)
    ensures
        lru_entries(*final(c)) == lru_entries(*old(c)),
        lru_bound(*final(c)) == lru_bound(*old(c)),
        r == (if lru_entries(*old(c)).contains_key(k) {
            Some(lru_entries(*old(c))[k])
        } else {
            None
        }),
{
    cached::Cached::cache_get(c, &k).copied()
}

/// Relies on `Cached::cache_set` of `LruCache`: the pair is stored as the most
/// recently used, then least recently used entries are dropped while the
/// cache holds more than its bound.
#[verifier::external_body]
fn lru_set(c: &mut cached::LruCache<u128, u128>, k: u128, v: u128)
    requires
        lru_bound(*old(c)) > 0,
        lru_entries(*old(c)).dom().finite(),
    ensures
        lru_bound(*final(c)) == lru_bound(*old(c)),
        lru_entries(*final(c)).submap_of(lru_entries(*old(c)).insert(k, v)),
        lru_entries(*final(c)).contains_key(k),
        lru_entries(*final(c))[k] == v,
        lru_entries(*final(c)).dom().finite(),
        lru_entries(*final(c)).len() == (if lru_entries(*old(c)).insert(k, v).len() <= lru_bound(
            *old(c),
        ) {
            lru_entries(*old(c)).insert(k, v).len()
        } else {
            lru_bound(*old(c))
        }),
{
    cached::Cached::cache_set(c, k, v);
}

/// Relies on `Cached::cache_size` of `LruCache`: the number of entries held.
#[verifier::external_body]
fn lru_len(c: &cached::LruCache<u128, u128>) -> (r: usize)
    ensures
        r == lru_entries(*c).len(),
{
    cached::Cached::cache_size(c)
}

/// Relies on `LruCache::capacity`: the bound the cache was built with.
#[verifier::external_body]
fn lru_capacity(c: &cached::LruCache<u128, u128>) -> (r: usize)
    ensures
        r == lru_bound(*c),
{
    c.capacity()
}

/// A bounded memo of Fibonacci numbers, evicting the least recently used
/// index once it holds `CACHE_SIZE` entries.
pub struct FibCache {
    store: cached::LruCache<u128, u128>,
}

impl View for FibCache {
    type V = Map<u128, u128>;

    closed spec fn view(&self) -> Map<u128, u128> {
        lru_entries(self.store)
    }
}

impl FibCache {
    /// The number of entries kept before eviction starts.
    pub closed spec fn bound(&self) -> nat {
        lru_bound(self.store)
    }

    /// The cache holds at most `bound()` entries, each an index and its
    /// Fibonacci number.
    pub open spec fn wf(&self) -> bool {
        &&& 0 < self.bound()
        &&& self@.dom().finite()
        &&& self@.len() <= self.bound()
        &&& memo_sound(self@)
    }

    /// An empty cache bounded by `CACHE_SIZE` entries.
    pub fn new() -> (r: FibCache)
        ensures
            r.wf(),
            r@ == Map::<u128, u128>::empty(),
            r.bound() == CACHE_SIZE,
    {
        FibCache { store: lru_new(CACHE_SIZE) }
    }

    /// The number of entries held.
    pub fn len(&self) -> (r: usize)
        ensures
            r == self@.len(),
    {
        lru_len(&self.store)
    }

    /// The number of entries kept before eviction starts.
    pub fn capacity(&self) -> (r: usize)
        ensures
            r == self.bound(),
    {
        lru_capacity(&self.store)
    }

    /// The stored Fibonacci number of `fib_num`, if the cache holds it.
    pub fn lookup(&mut self, fib_num: u128) -> (r: Option<u128>)
        requires
            old(self).wf(),
        ensures
            final(self).wf(),
            final(self)@ == old(self)@,
            final(self).bound() == old(self).bound(),
            r == (if old(self)@.contains_key(fib_num) {
                Some(old(self)@[fib_num])
            } else {
                None
            }),
    {
        lru_get(&mut self.store, fib_num)
    }

    /// Records `value` for `fib_num`; older entries may be evicted, but only
    /// as many as the bound requires.
    pub fn record(&mut self, fib_num: u128, value: u128)
        requires
            old(self).wf(),
            value == fib(fib_num as nat),
        ensures
            final(self).wf(),
            final(self).bound() == old(self).bound(),
            final(self)@.submap_of(old(self)@.insert(fib_num, value)),
            final(self)@.contains_key(fib_num),
            final(self)@.len() == (if old(self)@.insert(fib_num, value).len() <= old(self).bound() {
                old(self)@.insert(fib_num, value).len()
            } else {
                old(self).bound()
            }),
    {
        lru_set(&mut self.store, fib_num, value);
        proof {
            let m = old(self)@.insert(fib_num, value);
            assert forall|k: u128| #[trigger] self@.contains_key(k) implies self@[k] == fib(
                k as nat,
            ) by {
                assert(m.contains_key(k));
            }
        }
    }
}

} // verus!
