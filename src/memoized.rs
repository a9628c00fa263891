use vstd::prelude::*;
use crate::lru::FibCache;
use crate::sequence::{fib, fib_fits, lemma_fib_monotone, lemma_fits_index_below_max};

verus! {

/// Recursion memoized in a bounded cache that outlives the call: the cache is
/// consulted first, and every value computed is recorded in it. Eviction
/// never changes the answer, only how much is recomputed.
pub fn cached_fib(cache: &mut FibCache, fib_num: u128) -> (r: u128)
    requires
        old(cache).wf(),
        fib_fits(fib_num as nat),
    ensures
        r == fib(fib_num as nat),
        final(cache).wf(),
        final(cache).bound() == old(cache).bound(),
        final(cache)@.contains_key(fib_num),
    decreases fib_num,
{
    if let Some(result) = cache.lookup(fib_num) {
        return result;
    }
    let result: u128 = if fib_num == 0 || fib_num == 1 {
        fib_num
    } else {
        proof {
            lemma_fib_monotone((fib_num - 1) as nat, fib_num as nat);
            lemma_fib_monotone((fib_num - 2) as nat, fib_num as nat);
        }
        let a = cached_fib(cache, fib_num - 1);
        let b = cached_fib(cache, fib_num - 2);
        a + b
    };
    cache.record(fib_num, result);
    result
}

/// Memoized in `own` like `cached_fib`; on a miss it first warms `shared`
/// through `cached_fib` for every index from 2 up to `fib_num`, then adds the
/// two preceding values taken from `shared`.
pub fn cached_dynamic_fib(own: &mut FibCache, shared: &mut FibCache, fib_num: u128) -> (r: u128)
    requires
        old(own).wf(),
        old(shared).wf(),
        fib_fits(fib_num as nat),
    ensures
        r == fib(fib_num as nat),
        final(own).wf(),
        final(shared).wf(),
        final(own).bound() == old(own).bound(),
        final(shared).bound() == old(shared).bound(),
        final(own)@.contains_key(fib_num),
{
    if let Some(result) = own.lookup(fib_num) {
        return result;
    }
    let result: u128 = if fib_num == 0 || fib_num == 1 {
        fib_num
    } else {
        let mut i: u128 = 2;
        while i <= fib_num
            invariant
                2 <= i <= fib_num + 1,
                fib_fits(fib_num as nat),
                shared.wf(),
                shared.bound() == old(shared).bound(),
            decreases fib_num + 1 - i,
        {
            proof {
                lemma_fib_monotone(i as nat, fib_num as nat);
                lemma_fits_index_below_max(fib_num as nat);
            }
            let _ = cached_fib(shared, i);
            i = i + 1;
        }
        proof {
            lemma_fib_monotone((fib_num - 1) as nat, fib_num as nat);
            lemma_fib_monotone((fib_num - 2) as nat, fib_num as nat);
        }
        let a = cached_fib(shared, fib_num - 1);
        let b = cached_fib(shared, fib_num - 2);
        a + b
    };
    own.record(fib_num, result);
    result
}

} // verus!
