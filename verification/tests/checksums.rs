use fib_bench::checksum::{run_checksum_iterative, run_checksum_tailrec, CHECKSUM_MODULUS};
use fib_bench::fib::fibonacci_naive;

#[test]
fn scenario_ten_once() {
    assert_eq!(fibonacci_naive(10), 55);
    assert_eq!(run_checksum_tailrec(10, 1), 55);
    assert_eq!(run_checksum_iterative(10, 1), 55);
}

#[test]
fn scenario_zero_five_times() {
    assert_eq!(fibonacci_naive(0), 0);
    assert_eq!(run_checksum_tailrec(0, 5), 0);
    assert_eq!(run_checksum_iterative(0, 5), 0);
}

#[test]
fn zero_rounds_give_zero() {
    assert_eq!(run_checksum_tailrec(10, 0), 0);
    assert_eq!(run_checksum_iterative(10, 0), 0);
}

#[test]
fn checksum_is_repetitions_times_value() {
    assert_eq!(run_checksum_tailrec(10, 3), 165);
    assert_eq!(run_checksum_iterative(10, 3), 165);
    // 4 * fib(50) overflows neither 64 bits nor the test's own arithmetic
    assert_eq!(
        run_checksum_tailrec(50, 4),
        (4 * 12586269025u64) % CHECKSUM_MODULUS
    );
    assert_eq!(
        run_checksum_iterative(50, 4),
        (4 * 12586269025u64) % CHECKSUM_MODULUS
    );
}

#[test]
fn checksum_of_wrapped_value() {
    // fib(94) wraps to 1293530146158671551; two rounds sum that twice
    assert_eq!(
        run_checksum_iterative(94, 2),
        (2 * 1293530146158671551u64) % CHECKSUM_MODULUS
    );
    assert_eq!(
        run_checksum_tailrec(94, 2),
        (2 * 1293530146158671551u64) % CHECKSUM_MODULUS
    );
}

#[test]
fn checksum_stays_below_modulus() {
    for m in 0..=40u64 {
        assert!(run_checksum_iterative(80, m) < CHECKSUM_MODULUS);
    }
}
