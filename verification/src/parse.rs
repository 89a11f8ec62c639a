//! Parsing of non-negative base-10 integers from query-parameter text.

use vstd::prelude::*;
use vstd::string::StrSliceExecFns;

verus! {

/// Why a string failed to parse as a non-negative base-10 integer. The
/// kinds mirror std's integer parsing: an empty input, a character that is
/// no digit, or a value too large for `usize`.
#[derive(Clone, Copy, Debug, PartialEq, Eq, Structural)]
pub enum IntParseError {
    Empty,
    InvalidDigit,
    Overflow,
}

/// Whether `c` is a decimal digit.
pub open spec fn is_digit_char(c: char) -> bool {
    48 <= c as u32 <= 57
}

/// The numeric value of a decimal digit.
pub open spec fn digit_val(c: char) -> nat {
    (c as u32 - 48) as nat
}

/// Whether every character of `s` is a decimal digit.
pub open spec fn all_digits(s: Seq<char>) -> bool {
    forall|i: int| 0 <= i < s.len() ==> is_digit_char(#[trigger] s[i])
}

/// The digit part of a decimal literal: an optional leading '+' is dropped.
pub open spec fn digits_of(s: Seq<char>) -> Seq<char> {
    if s.len() > 0 && s[0] == '+' {
        s.subrange(1, s.len() as int)
    } else {
        s
    }
}

/// The value of a digit sequence read in base 10.
pub open spec fn dec_value(s: Seq<char>) -> nat
    decreases s.len(),
{
    if s.len() == 0 {
        0
    } else {
        dec_value(s.drop_last()) * 10 + digit_val(s.last())
    }
}

/// What parsing a non-negative base-10 integer yields: an optional leading
/// '+', then at least one decimal digit, rejecting values over
/// `usize::MAX`.
pub open spec fn spec_parse_usize(s: Seq<char>) -> Result<usize, IntParseError> {
    let d = digits_of(s);
    if s.len() == 0 {
        Err(IntParseError::Empty)
    } else if d.len() == 0 || !all_digits(d) {
        Err(IntParseError::InvalidDigit)
    } else if dec_value(d) > usize::MAX {
        Err(IntParseError::Overflow)
    } else {
        Ok(dec_value(d) as usize)
    }
}

/// The value of a digit sequence is at least the value of any of its
/// initial segments.
proof fn lemma_dec_value_prefix(s: Seq<char>, n: int)
    requires
        0 <= n <= s.len(),
    ensures
        dec_value(s.subrange(0, n)) <= dec_value(s),
    decreases s.len() - n,
{
    if n == s.len() {
        assert(s.subrange(0, n) =~= s);
    } else {
        assert(s.subrange(0, n + 1).drop_last() =~= s.subrange(0, n));
        assert(dec_value(s.subrange(0, n + 1)) == dec_value(s.subrange(0, n)) * 10 + digit_val(
            s.subrange(0, n + 1).last(),
        ));
        lemma_dec_value_prefix(s, n + 1);
    }
}

/// Parses `s` as a non-negative base-10 integer.
pub fn parse_usize(s: &str) -> (r: Result<usize, IntParseError>)
    ensures
        r == spec_parse_usize(s@),
{
    let n = s.unicode_len();
    if n == 0 {
        return Err(IntParseError::Empty);
    }
    let first = s.get_char(0);
    let start: usize = if first == '+' {
        1
    } else {
        0
    };
    proof {
        assert(digits_of(s@) =~= s@.subrange(start as int, n as int));
    }
    if start == n {
        return Err(IntParseError::InvalidDigit);
    }
    let ghost digits = digits_of(s@);
    // First pass: every character after the sign must be a digit.
    let mut i: usize = start;
    while i < n
        invariant
            n == s@.len(),
            start <= i <= n,
            start < n,
            digits == digits_of(s@),
            digits =~= s@.subrange(start as int, n as int),
            forall|j: int| start <= j < i ==> is_digit_char(#[trigger] s@[j]),
        decreases n - i,
    {
        let c = s.get_char(i);
        let cu = c as u32;
        if cu < 48 || cu > 57 {
            proof {
                assert(digits[i - start] == s@[i as int]);
            }
            return Err(IntParseError::InvalidDigit);
        }
        i = i + 1;
    }
    proof {
        assert forall|j: int| 0 <= j < digits.len() implies is_digit_char(#[trigger] digits[j]) by {
            assert(digits[j] == s@[start + j]);
            assert(is_digit_char(s@[start + j]));
        }
    }
    // Second pass: accumulate the value, watching for overflow.
    let mut val: usize = 0;
    let mut i: usize = start;
    while i < n
        invariant
            n == s@.len(),
            start <= i <= n,
            start < n,
            digits == digits_of(s@),
            digits =~= s@.subrange(start as int, n as int),
            all_digits(digits),
            val == dec_value(s@.subrange(start as int, i as int)),
        decreases n - i,
    {
        let c = s.get_char(i);
        let cu = c as u32;
        proof {
            assert(digits[i - start] == s@[i as int]);
            assert(is_digit_char(digits[i - start]));
            assert(s@.subrange(start as int, i + 1).drop_last() =~= s@.subrange(
                start as int,
                i as int,
            ));
            assert(dec_value(s@.subrange(start as int, i + 1)) == val * 10 + digit_val(
                s@[i as int],
            ));
            assert(digits.subrange(0, i + 1 - start) =~= s@.subrange(start as int, i + 1));
        }
        let d = (cu - 48) as usize;
        let next = match val.checked_mul(10) {
            Some(v10) => v10.checked_add(d),
            None => None,
        };
        match next {
            Some(v) => {
                val = v;
                i = i + 1;
            },
            None => {
                proof {
                    assert(dec_value(digits.subrange(0, i + 1 - start)) > usize::MAX);
                    lemma_dec_value_prefix(digits, i + 1 - start);
                }
                return Err(IntParseError::Overflow);
            },
        }
    }
    proof {
        assert(s@.subrange(start as int, n as int) =~= digits);
    }
    Ok(val)
}

} // verus!
