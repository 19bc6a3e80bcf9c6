//! Primality by trial division.

use vstd::prelude::*;

verus! {

/// Whether no number from 2 to `n / 2` divides `n`. This holds of the primes,
/// and also of 0 and 1, which have no such divisor to test.
pub open spec fn no_small_divisor(n: u32) -> bool {
    forall|i: int| 2 <= i <= n / 2 ==> #[trigger] (n as int % i) != 0
}

/// Tests `n` for divisors from 2 to `n / 2`.
pub fn is_prime(n: u32) -> (r: bool)
    ensures
        r == no_small_divisor(n),
{
    let mut i: u32 = 2;
    while i <= n / 2
        invariant
            2 <= i,
            i <= n / 2 + 2,
            forall|k: int| 2 <= k < i ==> #[trigger] (n as int % k) != 0,
        decreases n / 2 + 2 - i,
    {
        if n % i == 0 {
            return false;
        }
        i = i + 1;
    }
    true
}

} // verus!
