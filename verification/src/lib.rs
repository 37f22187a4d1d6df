//! A small Fibonacci benchmark library: three strategies for computing the
//! n-th Fibonacci number (naive recursion, tail-recursive accumulation, and
//! an iterative loop), a rolling checksum over repeated runs, and a decimal
//! parser for the command-line arguments. All arithmetic on the 64-bit
//! results wraps around, as the benchmark accepts silent overflow.

pub mod checksum;
pub mod fib;
pub mod parse;
