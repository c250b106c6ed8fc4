//! Verified parsing of the numeric id arguments of commands.
//!
//! A decimal integer token is an optional sign followed by one or more
//! decimal digits; a value out of the target type's range is rejected.  The
//! spec functions here are the definition the parsers are proved against.

use vstd::prelude::*;
use vstd::string::StrSliceExecFns;

verus! {

/// `c` is a decimal digit.
pub open spec fn is_dec_digit(c: char) -> bool {
    48 <= c as u32 <= 57
}

/// The value of a decimal digit.
pub open spec fn digit_val(c: char) -> int {
    c as u32 - 48
}

/// Every character of `s` is a decimal digit.
pub open spec fn all_dec_digits(s: Seq<char>) -> bool {
    forall|i: int| 0 <= i < s.len() ==> is_dec_digit(#[trigger] s[i])
}

/// The value of a digit string, most significant digit first.
pub open spec fn dec_value(s: Seq<char>) -> int
    decreases s.len(),
{
    if s.len() == 0 {
        0
    } else {
        dec_value(s.drop_last()) * 10 + digit_val(s.last())
    }
}

/// A digit string's value is non-negative.
pub proof fn lemma_dec_value_nonneg(s: Seq<char>)
    requires
        all_dec_digits(s),
    ensures
        dec_value(s) >= 0,
    decreases s.len(),
{
    if s.len() > 0 {
        let t = s.drop_last();
        assert(all_dec_digits(t)) by {
            assert(forall|i: int| 0 <= i < t.len() ==> t[i] == s[i]);
        }
        lemma_dec_value_nonneg(t);
        assert(is_dec_digit(s.last())) by {
            assert(s[s.len() - 1] == s.last());
        }
    }
}

/// Extending a digit string cannot decrease its value.
pub proof fn lemma_dec_value_prefix(s: Seq<char>, k: int)
    requires
        all_dec_digits(s),
        0 <= k <= s.len(),
    ensures
        dec_value(s.subrange(0, k)) <= dec_value(s),
    decreases s.len() - k,
{
    if k < s.len() {
        let t = s.subrange(0, k + 1);
        assert(t.drop_last() =~= s.subrange(0, k));
        assert(all_dec_digits(t)) by {
            assert(forall|i: int| 0 <= i < t.len() ==> t[i] == s[i]);
        }
        assert(is_dec_digit(t.last())) by {
            assert(t[k] == s[k]);
        }
        assert(all_dec_digits(t.drop_last())) by {
            assert(forall|i: int| 0 <= i < k ==> t.drop_last()[i] == s[i]);
        }
        lemma_dec_value_nonneg(t.drop_last());
        assert(dec_value(t) == dec_value(s.subrange(0, k)) * 10 + digit_val(t.last()));
        assert(dec_value(s.subrange(0, k)) <= dec_value(t));
        lemma_dec_value_prefix(s, k + 1);
    } else {
        assert(s.subrange(0, k) =~= s);
    }
}

/// The magnitude part of a token: `None` when it is empty, holds a
/// non-digit, or exceeds `u64::MAX`.
pub open spec fn spec_parse_magnitude(digits: Seq<char>) -> Option<u64> {
    if digits.len() == 0 || !all_dec_digits(digits) || dec_value(digits) > u64::MAX as int {
        None
    } else {
        Some(dec_value(digits) as u64)
    }
}

/// An unsigned decimal token: an optional `+`, then digits.
pub open spec fn spec_parse_u64(s: Seq<char>) -> Option<u64> {
    if s.len() > 0 && s[0] == '+' {
        spec_parse_magnitude(s.subrange(1, s.len() as int))
    } else {
        spec_parse_magnitude(s)
    }
}

/// A signed decimal token: an optional `+` or `-`, then digits, within
/// `i64`'s range.
pub open spec fn spec_parse_i64(s: Seq<char>) -> Option<i64> {
    if s.len() > 0 && s[0] == '-' {
        match spec_parse_magnitude(s.subrange(1, s.len() as int)) {
            Some(m) => if m <= i64::MAX as u64 + 1 {
                Some((-(m as int)) as i64)
            } else {
                None
            },
            None => None,
        }
    } else {
        match spec_parse_u64(s) {
            Some(m) => if m <= i64::MAX as u64 {
                Some(m as i64)
            } else {
                None
            },
            None => None,
        }
    }
}

/// A signed decimal token within `i32`'s range.
pub open spec fn spec_parse_i32(s: Seq<char>) -> Option<i32> {
    if s.len() > 0 && s[0] == '-' {
        match spec_parse_magnitude(s.subrange(1, s.len() as int)) {
            Some(m) => if m <= i32::MAX as u64 + 1 {
                Some((-(m as int)) as i32)
            } else {
                None
            },
            None => None,
        }
    } else {
        match spec_parse_u64(s) {
            Some(m) => if m <= i32::MAX as u64 {
                Some(m as i32)
            } else {
                None
            },
            None => None,
        }
    }
}

/// Parses the digit part of `s` starting at `start`.
fn parse_magnitude(s: &str, start: usize) -> (r: Option<u64>)
    requires
        start <= s@.len(),
    ensures
        r == spec_parse_magnitude(s@.subrange(start as int, s@.len() as int)),
{
    let n = s.unicode_len();
    let ghost digits = s@.subrange(start as int, s@.len() as int);
    if start == n {
        return None;
    }
    let mut acc: u128 = 0;
    let mut over = false;
    let mut j: usize = start;
    while j < n
        invariant
            start < n,
            n == s@.len(),
            start <= j <= n,
            digits == s@.subrange(start as int, n as int),
            all_dec_digits(s@.subrange(start as int, j as int)),
            !over ==> acc == dec_value(s@.subrange(start as int, j as int)) && acc <= u64::MAX,
            over ==> dec_value(s@.subrange(start as int, j as int)) > u64::MAX as int,
        decreases n - j,
    {
        let c = s.get_char(j);
        let cv = c as u32;
        if cv < 48 || cv > 57 {
            proof {
                assert(digits[j - start] == s@[j as int]);
                assert(!all_dec_digits(digits));
            }
            return None;
        }
        let d: u128 = (cv - 48) as u128;
        proof {
            let p = s@.subrange(start as int, j as int);
            let q = s@.subrange(start as int, j as int + 1);
            assert(q.drop_last() =~= p);
            assert(q.last() == s@[j as int]);
            assert(forall|i: int| 0 <= i < p.len() ==> q[i] == p[i]);
            lemma_dec_value_nonneg(p);
        }
        if !over {
            acc = acc * 10 + d;
            if acc > u64::MAX as u128 {
                over = true;
            }
        }
        j += 1;
    }
    proof {
        assert(s@.subrange(start as int, n as int) == digits);
    }
    if over {
        None
    } else {
        Some(acc as u64)
    }
}

/// Parses an unsigned decimal token, as `u64`.
pub fn parse_u64(s: &str) -> (r: Option<u64>)
    ensures
        r == spec_parse_u64(s@),
{
    let n = s.unicode_len();
    if n == 0 {
        return None;
    }
    let c = s.get_char(0);
    proof {
        assert(s@.subrange(0, s@.len() as int) =~= s@);
    }
    if c == '+' {
        parse_magnitude(s, 1)
    } else {
        parse_magnitude(s, 0)
    }
}

/// Parses a signed decimal token, as `i64`.
pub fn parse_i64(s: &str) -> (r: Option<i64>)
    ensures
        r == spec_parse_i64(s@),
{
    let n = s.unicode_len();
    if n == 0 {
        return None;
    }
    let c = s.get_char(0);
    if c == '-' {
        match parse_magnitude(s, 1) {
            None => None,
            Some(m) => {
                if m <= 9223372036854775807u64 + 1 {
                    if m == 9223372036854775808u64 {
                        Some(i64::MIN)
                    } else {
                        Some(-(m as i64))
                    }
                } else {
                    None
                }
            },
        }
    } else {
        match parse_u64(s) {
            None => None,
            Some(m) => {
                if m <= i64::MAX as u64 {
                    Some(m as i64)
                } else {
                    None
                }
            },
        }
    }
}

/// Parses a signed decimal token, as `i32`.
pub fn parse_i32(s: &str) -> (r: Option<i32>)
    ensures
        r == spec_parse_i32(s@),
{
    let n = s.unicode_len();
    if n == 0 {
        return None;
    }
    let c = s.get_char(0);
    if c == '-' {
        match parse_magnitude(s, 1) {
            None => None,
            Some(m) => {
                if m <= 2147483647u64 + 1 {
                    if m == 2147483648u64 {
                        Some(i32::MIN)
                    } else {
                        Some(-(m as i32))
                    }
                } else {
                    None
                }
            },
        }
    } else {
        match parse_u64(s) {
            None => None,
            Some(m) => {
                if m <= i32::MAX as u64 {
                    Some(m as i32)
                } else {
                    None
                }
            },
        }
    }
}

} // verus!
