//! The argument reader's computation: parse a non-negative 64-bit integer
//! from the bytes of a command-line argument. The accepted form is the one
//! std's unsigned parsing accepts: an optional leading `+`, then one or
//! more ASCII decimal digits, denoting a value that fits in a `u64`.

use vstd::prelude::*;

verus! {

/// An ASCII decimal digit, `'0'` through `'9'`.
pub open spec fn is_ascii_digit(c: u8) -> bool {
    48 <= c && c <= 57
}

/// The numeric value of an ASCII decimal digit.
pub open spec fn digit_value(c: u8) -> nat {
    (c - 48) as nat
}

/// Whether every byte of `s` is an ASCII decimal digit.
pub open spec fn all_digits(s: Seq<u8>) -> bool {
    forall|i: int| 0 <= i < s.len() ==> is_ascii_digit(#[trigger] s[i])
}

/// The value a string of decimal digits denotes, most significant first.
pub open spec fn decimal_value(s: Seq<u8>) -> nat
    decreases s.len(),
{
    if s.len() == 0 {
        0
    } else {
        decimal_value(s.drop_last()) * 10 + digit_value(s.last())
    }
}

/// The digits of a numeric argument: everything after an optional leading
/// `+` (byte 43).
pub open spec fn digit_part(s: Seq<u8>) -> Seq<u8> {
    if s.len() > 0 && s[0] == 43 {
        s.subrange(1, s.len() as int)
    } else {
        s
    }
}

/// Whether `s` is a well-formed `u64` literal: a non-empty run of digits
/// after the optional sign, denoting a value no larger than `u64::MAX`.
pub open spec fn is_u64_literal(s: Seq<u8>) -> bool {
    digit_part(s).len() > 0 && all_digits(digit_part(s)) && decimal_value(digit_part(s))
        <= u64::MAX
}

/// Appending digits to a digit string never decreases the denoted value.
proof fn lemma_decimal_value_mono(s: Seq<u8>, a: int, j: int, k: int)
    requires
        0 <= a <= j <= k <= s.len(),
    ensures
        decimal_value(s.subrange(a, j)) <= decimal_value(s.subrange(a, k)),
    decreases k - j,
{
    if j < k {
        lemma_decimal_value_mono(s, a, j, k - 1);
        assert(s.subrange(a, k).drop_last() =~= s.subrange(a, k - 1));
    }
}

/// Parse a non-negative integer from the bytes of an argument. Returns the
/// denoted value exactly when the bytes form a well-formed `u64` literal,
/// and `None` for every other input: an empty digit run, a byte that is not
/// a digit, or a value too large for 64 bits.
pub fn parse_u64(s: &[u8]) -> (r: Option<u64>)
    ensures
        match r {
            Some(v) => is_u64_literal(s@) && v == decimal_value(digit_part(s@)),
            None => !is_u64_literal(s@),
        },
{
    let len = s.len();
    let start: usize = if len > 0 && s[0] == 43 {
        1
    } else {
        0
    };
    proof {
        assert(digit_part(s@) =~= s@.subrange(start as int, len as int));
    }
    if start == len {
        return None;
    }
    let mut acc: u64 = 0;
    let mut j = start;
    while j < len
        invariant
            start <= j <= len == s@.len(),
            digit_part(s@) =~= s@.subrange(start as int, len as int),
            all_digits(s@.subrange(start as int, j as int)),
            acc == decimal_value(s@.subrange(start as int, j as int)),
        decreases len - j,
    {
        let c = s[j];
        if c < 48 || c > 57 {
            proof {
                assert(digit_part(s@)[j - start] == c);
            }
            return None;
        }
        let d = (c - 48) as u64;
        proof {
            assert(s@.subrange(start as int, j + 1).drop_last() =~= s@.subrange(
                start as int,
                j as int,
            ));
            assert(s@.subrange(start as int, j + 1).last() == c);
        }
        let next = match acc.checked_mul(10) {
            Some(x) => x.checked_add(d),
            None => None,
        };
        match next {
            Some(v) => {
                acc = v;
                j = j + 1;
            },
            None => {
                proof {
                    assert(decimal_value(s@.subrange(start as int, j + 1)) > u64::MAX);
                    lemma_decimal_value_mono(s@, start as int, j + 1, len as int);
                }
                return None;
            },
        }
    }
    Some(acc)
}

} // verus!
