use vstd::prelude::*;

verus! {

/// The Fibonacci sequence: `fib(0) == 0`, `fib(1) == 1`,
/// `fib(n) == fib(n - 1) + fib(n - 2)`.
pub open spec fn fib(n: nat) -> nat
    decreases n,
{
    if n < 2 {
        n
    } else {
        fib((n - 1) as nat) + fib((n - 2) as nat)
    }
}

/// Whether the `n`-th Fibonacci number fits in a `u128`.
pub open spec fn fib_fits(n: nat) -> bool {
    fib(n) <= u128::MAX
}

/// The sequence never decreases from one index to the next, and grows
/// strictly from index 2 on.
pub proof fn lemma_fib_step(n: nat)
    ensures
        fib(n) <= fib(n + 1),
        n >= 2 ==> fib(n) < fib(n + 1),
    decreases n,
{
    if n >= 2 {
        lemma_fib_step((n - 1) as nat);
        lemma_fib_step((n - 2) as nat);
    } else if n == 1 {
        assert(fib(2) == fib(1) + fib(0));
    }
}

/// The sequence is monotone: an earlier index never has a larger value.
pub proof fn lemma_fib_monotone(i: nat, j: nat)
    requires
        i <= j,
    ensures
        fib(i) <= fib(j),
    decreases j - i,
{
    if i < j {
        lemma_fib_monotone(i, (j - 1) as nat);
        lemma_fib_step((j - 1) as nat);
    }
}

/// From index 6 on, the Fibonacci number exceeds its index, so an index whose
/// value fits in a `u128` is itself far below `u128::MAX`.
pub proof fn lemma_fib_exceeds_index(n: nat)
    requires
        n >= 6,
    ensures
        fib(n) >= n + 2,
    decreases n,
{
    reveal_with_fuel(fib, 8);
    if n >= 8 {
        lemma_fib_exceeds_index((n - 1) as nat);
        lemma_fib_exceeds_index((n - 2) as nat);
    }
}

/// An index whose Fibonacci number fits in a `u128` is below `u128::MAX`, so
/// the index after it is a `u128` too.
pub proof fn lemma_fits_index_below_max(n: nat)
    requires
        fib_fits(n),
    ensures
        n < u128::MAX,
{
    if n >= 6 {
        lemma_fib_exceeds_index(n);
    }
}

} // verus!
