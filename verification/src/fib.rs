//! The Fibonacci engine: three side-effect-free strategies that all compute
//! the n-th Fibonacci number, reduced modulo 2^64 by wrapping addition.

use vstd::arithmetic::div_mod::{
    lemma_add_mod_noop, lemma_mod_sub_multiples_vanish, lemma_mod_twice, lemma_small_mod,
};
use vstd::prelude::*;

verus! {

/// The mathematical Fibonacci sequence: `fib(0) == 0`, `fib(1) == 1`, and
/// every later value is the sum of the two before it.
pub open spec fn fib(n: nat) -> nat
    decreases n,
{
    if n == 0 {
        0
    } else if n == 1 {
        1
    } else {
        fib((n - 1) as nat) + fib((n - 2) as nat)
    }
}

/// The Fibonacci recurrence run for `n` steps from the accumulator pair
/// `(a, b)`: each step turns `(a, b)` into `(b, a + b)`, and the first
/// accumulator is the result.
pub open spec fn fib_pair(n: nat, a: nat, b: nat) -> nat
    decreases n,
{
    if n == 0 {
        a
    } else {
        fib_pair((n - 1) as nat, b, a + b)
    }
}

/// A value reduced to 64 bits, the way unsigned wrapping arithmetic leaves it.
pub open spec fn wrap64(x: nat) -> nat {
    x % 0x1_0000_0000_0000_0000
}

/// Wrapping 64-bit addition is addition followed by reduction modulo 2^64.
pub(crate) proof fn lemma_wrap_add(x: u64, y: u64)
    ensures
        x.wrapping_add(y) == wrap64((x + y) as nat),
{
    let m: int = 0x1_0000_0000_0000_0000;
    if x + y > u64::MAX {
        lemma_mod_sub_multiples_vanish(x + y, m);
        assert((-m + (x + y)) % m == (x + y) % m);
        lemma_small_mod((x + y - m) as nat, m as nat);
    } else {
        lemma_small_mod((x + y) as nat, m as nat);
    }
}

/// Reducing both accumulators modulo 2^64 does not change the result of
/// `fib_pair` modulo 2^64.
proof fn lemma_fib_pair_congruent(n: nat, a1: nat, b1: nat, a2: nat, b2: nat)
    requires
        a1 % 0x1_0000_0000_0000_0000 == a2 % 0x1_0000_0000_0000_0000,
        b1 % 0x1_0000_0000_0000_0000 == b2 % 0x1_0000_0000_0000_0000,
    ensures
        fib_pair(n, a1, b1) % 0x1_0000_0000_0000_0000 == fib_pair(n, a2, b2)
            % 0x1_0000_0000_0000_0000,
    decreases n,
{
    let m: int = 0x1_0000_0000_0000_0000;
    if n != 0 {
        lemma_add_mod_noop(a1 as int, b1 as int, m);
        lemma_add_mod_noop(a2 as int, b2 as int, m);
        lemma_fib_pair_congruent((n - 1) as nat, b1, a1 + b1, b2, a2 + b2);
    }
}

/// Running `fib_pair` for `n` steps from two adjacent Fibonacci values
/// advances the sequence by `n` places.
proof fn lemma_fib_pair_shift(n: nat, k: nat)
    ensures
        fib_pair(n, fib(k), fib(k + 1)) == fib(n + k),
    decreases n,
{
    if n != 0 {
        assert(fib(k + 2) == fib(k) + fib(k + 1));
        lemma_fib_pair_shift((n - 1) as nat, k + 1);
    }
}

/// The strategies agree. `fibonacci_naive` and `fibonacci_iterative` each
/// return `wrap64(fib(n))`, and `fibonacci_tailrec` started from the
/// accumulators 0 and 1 returns `wrap64(fib_pair(n, 0, 1))`; this lemma
/// closes the chain, so for every `n` all three return the same value.
pub proof fn lemma_strategies_agree(n: nat)
    ensures
        fib_pair(n, 0, 1) == fib(n),
{
    lemma_fib_pair_shift(n, 0);
}

/// The defining recurrence: every Fibonacci value past the two base cases is
/// the sum of the two before it.
pub proof fn lemma_fib_recurrence(n: nat)
    requires
        n >= 2,
    ensures
        fib(n) == fib((n - 1) as nat) + fib((n - 2) as nat),
{
}

/// Naive recursive strategy: exponential time, included to exhibit the
/// worst-case algorithmic cost.
pub fn fibonacci_naive(n: u64) -> (r: u64)
    ensures
        r == wrap64(fib(n as nat)),
    decreases n,
{
    if n < 2 {
        proof {
            lemma_small_mod(n as nat, 0x1_0000_0000_0000_0000);
        }
        n
    } else {
        let x = fibonacci_naive(n - 1);
        let y = fibonacci_naive(n - 2);
        proof {
            lemma_wrap_add(x, y);
            lemma_add_mod_noop(
                fib((n - 1) as nat) as int,
                fib((n - 2) as nat) as int,
                0x1_0000_0000_0000_0000,
            );
        }
        x.wrapping_add(y)
    }
}

/// Tail-recursive strategy: carries the two running values through `n`
/// steps and returns the first accumulator when the counter reaches zero.
pub fn fibonacci_tailrec(n: u64, a: u64, b: u64) -> (r: u64)
    ensures
        r == wrap64(fib_pair(n as nat, a as nat, b as nat)),
    decreases n,
{
    if n == 0 {
        proof {
            lemma_small_mod(a as nat, 0x1_0000_0000_0000_0000);
        }
        a
    } else {
        let s = a.wrapping_add(b);
        proof {
            lemma_wrap_add(a, b);
            lemma_mod_twice((a + b) as int, 0x1_0000_0000_0000_0000);
            lemma_fib_pair_congruent(
                (n - 1) as nat,
                b as nat,
                (a + b) as nat,
                b as nat,
                s as nat,
            );
        }
        fibonacci_tailrec(n - 1, b, s)
    }
}

/// Iterative strategy: the same recurrence as a bounded loop over two
/// mutable locals, linear time and constant stack.
pub fn fibonacci_iterative(n_orig: u64) -> (r: u64)
    ensures
        r == wrap64(fib(n_orig as nat)),
{
    let mut a: u64 = 0;
    let mut b: u64 = 1;
    let mut n = n_orig;
    proof {
        lemma_small_mod(0, 0x1_0000_0000_0000_0000);
        lemma_small_mod(1, 0x1_0000_0000_0000_0000);
    }
    while n > 0
        invariant
            n <= n_orig,
            a == wrap64(fib((n_orig - n) as nat)),
            b == wrap64(fib((n_orig - n + 1) as nat)),
        decreases n,
    {
        proof {
            let k = (n_orig - n) as nat;
            lemma_wrap_add(b, a);
            lemma_add_mod_noop(fib(k + 1) as int, fib(k) as int, 0x1_0000_0000_0000_0000);
            assert(fib(k + 2) == fib(k + 1) + fib(k));
        }
        let tmp = a;
        a = b;
        b = a.wrapping_add(tmp);
        n = n - 1;
    }
    a
}

} // verus!
