//! The benchmark driver's computation: run a Fibonacci strategy `m` times
//! and fold the results into a rolling checksum, reduced modulo 2147483647
//! after every addition. The checksum only forces the repeated work to be
//! evaluated; the modulus keeps the running sum bounded.

use crate::fib::{
    fib, fibonacci_iterative, fibonacci_tailrec, lemma_strategies_agree, lemma_wrap_add, wrap64,
};
use vstd::arithmetic::div_mod::{
    lemma_add_mod_noop_right, lemma_mod_bound, lemma_small_mod,
};
use vstd::prelude::*;

verus! {

/// The modulus that bounds the rolling checksum.
pub const CHECKSUM_MODULUS: u64 = 2147483647;

/// The rolling checksum after `m` rounds, each adding `f` with 64-bit
/// wraparound and then reducing modulo `CHECKSUM_MODULUS`.
pub open spec fn checksum(f: nat, m: nat) -> nat
    decreases m,
{
    if m == 0 {
        0
    } else {
        wrap64(checksum(f, (m - 1) as nat) + f) % (CHECKSUM_MODULUS as nat)
    }
}

/// The checksum stays below the modulus.
proof fn lemma_checksum_bound(f: nat, m: nat)
    ensures
        checksum(f, m) < CHECKSUM_MODULUS,
{
    if m == 0 {
    } else {
        lemma_mod_bound(
            wrap64(checksum(f, (m - 1) as nat) + f) as int,
            CHECKSUM_MODULUS as int,
        );
    }
}

/// The checksum law: as long as one round's addition cannot wrap at 64 bits,
/// `m` rounds of adding `f` and reducing after each addition give exactly
/// `(m * f) % CHECKSUM_MODULUS`.
pub proof fn lemma_checksum_value(f: nat, m: nat)
    requires
        f + CHECKSUM_MODULUS - 1 < 0x1_0000_0000_0000_0000,
    ensures
        checksum(f, m) == (m * f) % (CHECKSUM_MODULUS as nat),
    decreases m,
{
    let q = CHECKSUM_MODULUS as int;
    if m == 0 {
        lemma_small_mod(0, CHECKSUM_MODULUS as nat);
        assert(0 * f == 0);
    } else {
        lemma_checksum_value(f, (m - 1) as nat);
        let prev = checksum(f, (m - 1) as nat);
        lemma_checksum_bound(f, (m - 1) as nat);
        lemma_small_mod((prev + f) as nat, 0x1_0000_0000_0000_0000);
        assert(checksum(f, m) == (prev + f) % q as nat);
        lemma_add_mod_noop_right(f as int, ((m - 1) * f) as int, q);
        assert((f + ((m - 1) * f) % q) % q == (f + (m - 1) * f) % q);
        assert(f + (m - 1) * f == m * f) by (nonlinear_arith);
    }
}

/// Run the tail-recursive strategy `m` times on `n`, folding each result
/// into the rolling checksum.
pub fn run_checksum_tailrec(n: u64, m: u64) -> (r: u64)
    ensures
        r == checksum(wrap64(fib(n as nat)), m as nat),
{
    let mut sum: u64 = 0;
    let mut i: u64 = 0;
    while i < m
        invariant
            i <= m,
            sum == checksum(wrap64(fib(n as nat)), i as nat),
        decreases m - i,
    {
        let f = fibonacci_tailrec(n, 0, 1);
        proof {
            lemma_strategies_agree(n as nat);
            lemma_wrap_add(sum, f);
        }
        sum = sum.wrapping_add(f) % CHECKSUM_MODULUS;
        i = i + 1;
    }
    sum
}

/// Run the iterative strategy `m` times on `n`, folding each result into
/// the rolling checksum.
pub fn run_checksum_iterative(n: u64, m: u64) -> (r: u64)
    ensures
        r == checksum(wrap64(fib(n as nat)), m as nat),
{
    let mut sum: u64 = 0;
    let mut i: u64 = 0;
    while i < m
        invariant
            i <= m,
            sum == checksum(wrap64(fib(n as nat)), i as nat),
        decreases m - i,
    {
        let f = fibonacci_iterative(n);
        proof {
            lemma_wrap_add(sum, f);
        }
        sum = sum.wrapping_add(f) % CHECKSUM_MODULUS;
        i = i + 1;
    }
    sum
}

} // verus!
