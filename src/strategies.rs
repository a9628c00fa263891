use vstd::prelude::*;
use std::collections::HashMap;
use crate::sequence::{fib, fib_fits, lemma_fib_monotone, lemma_fits_index_below_max};

verus! {

/// Plain recursion on the defining equations, with no memo.
pub fn backtrace_fib(fib_num: u128) -> (r: u128)
    requires
        fib_fits(fib_num as nat),
    ensures
        r == fib(fib_num as nat),
    decreases fib_num,
{
    if fib_num == 0 || fib_num == 1 {
        return fib_num;
    }
    proof {
        lemma_fib_monotone((fib_num - 1) as nat, fib_num as nat);
        lemma_fib_monotone((fib_num - 2) as nat, fib_num as nat);
    }
    backtrace_fib(fib_num - 1) + backtrace_fib(fib_num - 2)
}

/// Every entry of the memo maps an index to its Fibonacci number.
pub open spec fn memo_sound(m: Map<u128, u128>) -> bool {
    forall|k: u128| #[trigger] m.contains_key(k) ==> m[k] == fib(k as nat)
}

/// Recursion that looks `fib_num` up in `memo` first and records each value
/// it computes, so every index is computed at most once per memo.
pub fn backtrace_memo_fib(memo: &mut HashMap<u128, u128>, fib_num: u128) -> (r: u128)
    requires
        memo_sound(old(memo)@),
        fib_fits(fib_num as nat),
    ensures
        r == fib(fib_num as nat),
        memo_sound(final(memo)@),
        final(memo)@.contains_key(fib_num),
        old(memo)@.submap_of(final(memo)@),
    decreases fib_num,
{
    broadcast use vstd::std_specs::hash::group_hash_axioms;
    match memo.get(&fib_num) {
        Some(result) => *result,
        None => {
            let result: u128 = if fib_num == 0 || fib_num == 1 {
                fib_num
            } else {
                proof {
                    lemma_fib_monotone((fib_num - 1) as nat, fib_num as nat);
                    lemma_fib_monotone((fib_num - 2) as nat, fib_num as nat);
                }
                let ghost m0 = memo@;
                let a = backtrace_memo_fib(memo, fib_num - 1);
                let ghost m1 = memo@;
                let b = backtrace_memo_fib(memo, fib_num - 2);
                proof {
                    assert(m0.submap_of(m1));
                    assert(m1.submap_of(memo@));
                    assert forall|k: u128| #[trigger] m0.contains_key(k) implies memo@.contains_key(k)
                        && memo@[k] == m0[k] by {
                        assert(m1.contains_key(k));
                    }
                    assert(m0.submap_of(memo@));
                }
                a + b
            };
            memo.insert(fib_num, result);
            result
        },
    }
}

/// Bottom-up table: entries 0 and 1 are seeded, then each entry from 2 to
/// `fib_num` is the sum of the two stored before it.
pub fn dynamic_fib(fib_num: u128) -> (r: u128)
    requires
        fib_fits(fib_num as nat),
    ensures
        r == fib(fib_num as nat),
{
    broadcast use vstd::std_specs::hash::group_hash_axioms;
    let mut memo: HashMap<u128, u128> = HashMap::new();
    memo.insert(0, 0);
    memo.insert(1, 1);
    let mut i: u128 = 2;
    while i <= fib_num
        invariant
            2 <= i,
            i <= fib_num + 1 || fib_num < 2,
            fib_fits(fib_num as nat),
            forall|k: u128| 0 <= k < i ==> #[trigger] memo@.contains_key(k),
            memo_sound(memo@),
        decreases fib_num + 1 - i,
    {
        proof {
            lemma_fib_monotone(i as nat, fib_num as nat);
            lemma_fits_index_below_max(fib_num as nat);
        }
        let result = *memo.get(&(i - 1)).unwrap() + *memo.get(&(i - 2)).unwrap();
        memo.insert(i, result);
        i = i + 1;
    }
    *memo.get(&fib_num).unwrap()
}

/// The Fibonacci number of `fib_num` when it fits in a `u128`, and `None`
/// when computing it would overflow.
pub fn checked_fib(fib_num: u128) -> (r: Option<u128>)
    ensures
        r == (if fib_fits(fib_num as nat) {
            Some(fib(fib_num as nat) as u128)
        } else {
            None::<u128>
        }),
{
    if fib_num == 0 {
        return Some(0);
    }
    let mut prev: u128 = 0;
    let mut cur: u128 = 1;
    let mut i: u128 = 1;
    while i < fib_num
        invariant
            1 <= i <= fib_num,
            prev == fib((i - 1) as nat),
            cur == fib(i as nat),
        decreases fib_num - i,
    {
        assert(fib((i + 1) as nat) == fib(i as nat) + fib((i - 1) as nat));
        match prev.checked_add(cur) {
            Some(next) => {
                prev = cur;
                cur = next;
                i = i + 1;
            },
            None => {
                proof {
                    lemma_fib_monotone((i + 1) as nat, fib_num as nat);
                }
                return None;
            },
        }
    }
    Some(cur)
}

} // verus!
