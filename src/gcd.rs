//! The greatest common divisor of two integers.
use vstd::prelude::*;

verus! {

/// The greatest common divisor of `a` and `b` by Euclid's recursion:
/// `gcd(a, 0) = a` and `gcd(a, b) = gcd(b, a mod b)`. In particular `gcd(0, 0) = 0`.
pub open spec fn spec_gcd(a: nat, b: nat) -> nat
    decreases b,
{
    if b == 0 {
        a
    } else {
        spec_gcd(b, a % b)
    }
}

/// The greatest common divisor does not depend on the order of its arguments.
pub proof fn lemma_gcd_symmetric(a: nat, b: nat)
    ensures
        spec_gcd(a, b) == spec_gcd(b, a),
{
    if a < b {
        assert(a % b == a) by {
            vstd::arithmetic::div_mod::lemma_small_mod(a, b);
        }
        assert(spec_gcd(a, b) == spec_gcd(b, a % b));
    } else if b < a {
        assert(b % a == b) by {
            vstd::arithmetic::div_mod::lemma_small_mod(b, a);
        }
        assert(spec_gcd(b, a) == spec_gcd(a, b % a));
    }
}

/// For a nonzero `n`, the greatest common divisor of `n` and `value` only depends on
/// `value` modulo `n`.
pub proof fn lemma_gcd_mod(n: nat, value: nat)
    requires
        n > 0,
    ensures
        spec_gcd(n, value % n) == spec_gcd(n, value),
{
    lemma_gcd_symmetric(value, n);
}

/// Computes the greatest common divisor of `a` and `b` with Euclid's algorithm,
/// in its division-based form.
pub fn gcd(a: u64, b: u64) -> (r: u64)
    ensures
        r == spec_gcd(a as nat, b as nat),
{
    let mut x = a;
    let mut y = b;
    while y != 0
        invariant
            spec_gcd(x as nat, y as nat) == spec_gcd(a as nat, b as nat),
        decreases y,
    {
        let r = x % y;
        x = y;
        y = r;
    }
    x
}

/// Computes the greatest common divisor of the constant `N` and `value`: the entry
/// that a table of `gcd(N, b)` for every `b < N` holds at `value % N`. Returns `0`
/// when `N` is zero, and never panics.
pub fn gcd_by_table<const N: usize>(value: u64) -> (r: u64)
    ensures
        N == 0 ==> r == 0,
        N > 0 ==> r == spec_gcd(N as nat, value as nat),
{
    if N == 0 {
        return 0;
    }
    let n = N as u64;
    let r = gcd(n, value % n);
    proof {
        lemma_gcd_mod(N as nat, value as nat);
    }
    r
}

/// Computes `N / gcd(N, value)` for the constant `N`: the entry that a table of
/// `N / gcd(N, b)` for every `b < N` holds at `value % N`. Returns `0` when `N` is
/// zero, and never panics.
pub fn n_over_gcd_by_table<const N: usize>(value: u64) -> (r: u64)
    ensures
        N == 0 ==> r == 0,
        N > 0 ==> r == N as nat / spec_gcd(N as nat, value as nat),
{
    if N == 0 {
        return 0;
    }
    let g = gcd_by_table::<N>(value);
    proof {
        lemma_gcd_positive(N as nat, value as nat);
    }
    N as u64 / g
}

/// The greatest common divisor of a nonzero `a` and any `b` is nonzero.
proof fn lemma_gcd_positive(a: nat, b: nat)
    requires
        a > 0,
    ensures
        0 < spec_gcd(a, b),
    decreases b,
{
    if b != 0 {
        assert(a % b < b) by {
            vstd::arithmetic::div_mod::lemma_mod_bound(a as int, b as int);
        }
        lemma_gcd_positive(b, a % b);
    }
}

} // verus!
