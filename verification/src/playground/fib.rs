//! Fibonacci numbers, computed by the defining recursion.
use vstd::prelude::*;

verus! {

/// The Fibonacci numbers: 0, 1, 1, 2, 3, 5, ...
pub open spec fn fib_spec(n: nat) -> nat
    decreases n,
{
    if n <= 1 {
        n
    } else {
        fib_spec((n - 1) as nat) + fib_spec((n - 2) as nat)
    }
}

/// The `n`-th Fibonacci number, by recursion on `n - 1` and `n - 2`.
pub fn fib(n: u64) -> (r: u64)
    requires
        fib_spec(n as nat) <= u64::MAX,
    ensures
        r == fib_spec(n as nat),
    decreases n,
{
    if n <= 1 {
        return n;
    }
    fib(n - 1) + fib(n - 2)
}

/// The Fibonacci numbers never decrease.
pub proof fn law_fib_monotone(i: nat, j: nat)
    requires
        i <= j,
    ensures
        fib_spec(i) <= fib_spec(j),
    decreases j - i,
{
    if i < j {
        law_fib_monotone(i, (j - 1) as nat);
    }
}

} // verus!
