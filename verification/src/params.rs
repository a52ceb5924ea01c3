//! Path-parameter coercion: a captured path segment is handed to the script
//! as an integer where it reads as one, and as text otherwise. (A fractional
//! number may still be upgraded by the numeric layer around the runtime; the
//! integer preference is decided here.)

use vstd::prelude::*;
use crate::text::chars_of;

verus! {

pub open spec fn is_digit(c: char) -> bool {
    48 <= c as u32 <= 57
}

pub open spec fn digit_val(c: char) -> int {
    c as u32 - 48
}

pub open spec fn all_digits(s: Seq<char>) -> bool {
    forall|i: int| 0 <= i < s.len() ==> is_digit(#[trigger] s[i])
}

/// The value of a digit string, most significant digit first.
pub open spec fn digits_val(s: Seq<char>) -> int
    decreases s.len(),
{
    if s.len() == 0 {
        0
    } else {
        digits_val(s.drop_last()) * 10 + digit_val(s.last())
    }
}

/// What the text parses to as a 32-bit integer: an optional sign, then at
/// least one digit, with the value in range; anything else is no integer.
pub open spec fn parsed_i32(s: Seq<char>) -> Option<i32> {
    let has_sign = s.len() > 0 && (s[0] == '+' || s[0] == '-');
    let digits = if has_sign {
        s.drop_first()
    } else {
        s
    };
    if digits.len() > 0 && all_digits(digits) {
        let v = if has_sign && s[0] == '-' {
            -digits_val(digits)
        } else {
            digits_val(digits)
        };
        if i32::MIN <= v <= i32::MAX {
            Some(v as i32)
        } else {
            None
        }
    } else {
        None
    }
}

proof fn lemma_digits_val_nonneg(s: Seq<char>)
    requires
        all_digits(s),
    ensures
        digits_val(s) >= 0,
    decreases s.len(),
{
    if s.len() > 0 {
        assert(forall|i: int|
            0 <= i < s.drop_last().len() ==> is_digit(#[trigger] s.drop_last()[i]));
        lemma_digits_val_nonneg(s.drop_last());
    }
}

/// Appending digits never shrinks the value.
proof fn lemma_digits_val_grows(s: Seq<char>, k: int)
    requires
        all_digits(s),
        0 <= k <= s.len(),
    ensures
        digits_val(s) >= digits_val(s.take(k)),
    decreases s.len() - k,
{
    if k < s.len() {
        lemma_digits_val_grows(s, k + 1);
        assert(s.take(k + 1).drop_last() =~= s.take(k));
        assert(forall|i: int| 0 <= i < s.take(k).len() ==> is_digit(#[trigger] s.take(k)[i]));
        lemma_digits_val_nonneg(s.take(k));
        assert(digits_val(s.take(k + 1)) == digits_val(s.take(k)) * 10 + digit_val(s[k]));
    } else {
        assert(s.take(k) =~= s);
    }
}

/// Parse a 32-bit integer exactly as `parsed_i32` describes.
pub fn parse_i32(s: &str) -> (r: Option<i32>)
    ensures
        r == parsed_i32(s@),
{
    let cs = chars_of(s);
    let n = cs.len();
    let mut start: usize = 0;
    let mut neg = false;
    if n > 0 && (cs[0] == '+' || cs[0] == '-') {
        start = 1;
        neg = cs[0] == '-';
    }
    if start >= n {
        return None;
    }
    let ghost digits = if start == 1 {
        s@.drop_first()
    } else {
        s@
    };
    proof {
        assert(digits =~= s@.subrange(start as int, n as int));
    }
    let mut acc: u64 = 0;
    let mut i = start;
    while i < n
        invariant
            cs@ == s@,
            n == s@.len(),
            start <= i <= n,
            start < n,
            start == 0 || start == 1,
            start == 1 ==> (s@[0] == '+' || s@[0] == '-'),
            start == 0 ==> !(s@[0] == '+' || s@[0] == '-'),
            neg == (start == 1 && s@[0] == '-'),
            digits == s@.subrange(start as int, n as int),
            all_digits(digits.take(i - start)),
            acc == digits_val(digits.take(i - start)),
            acc <= 2147483648,
        decreases n - i,
    {
        let c = cs[i];
        let u = c as u32;
        if !(48 <= u && u <= 57) {
            proof {
                assert(digits[i - start] == s@[i as int]);
                assert(!is_digit(digits[i - start]));
            }
            return None;
        }
        let d = (u - 48) as u64;
        let next = acc * 10 + d;
        proof {
            let k = i + 1 - start;
            assert(digits.take(k).drop_last() =~= digits.take(i - start));
            assert(digits.take(k).last() == s@[i as int]);
            assert(is_digit(s@[i as int]));
            assert(digit_val(s@[i as int]) == d as int);
            assert(digits_val(digits.take(k)) == acc * 10 + d);
            assert forall|j: int| 0 <= j < k implies is_digit(#[trigger] digits.take(k)[j]) by {
                if j < i - start {
                    assert(digits.take(k)[j] == digits.take(i - start)[j]);
                } else {
                    assert(digits.take(k)[j] == s@[i as int]);
                }
            }
        }
        if next > 2147483648 {
            proof {
                let k = i + 1 - start;
                if all_digits(digits) {
                    lemma_digits_val_grows(digits, k);
                    assert(digits_val(digits) > 2147483648);
                    let hs = s@.len() > 0 && (s@[0] == '+' || s@[0] == '-');
                    let dg = if hs { s@.drop_first() } else { s@ };
                    assert(hs == (start == 1));
                    assert(dg == digits);
                    assert(all_digits(dg));
                    assert(digits_val(dg) > 2147483648);
                    if hs && s@[0] == '-' {
                        assert(!(i32::MIN <= -digits_val(dg)));
                    } else {
                        assert(!(digits_val(dg) <= i32::MAX));
                    }
                    assert(parsed_i32(s@) is None);
                } else {
                    assert(parsed_i32(s@) is None);
                }
            }
            return None;
        }
        acc = next;
        i = i + 1;
    }
    proof {
        assert(digits.take(n - start) =~= digits);
    }
    if neg {
        proof {
            assert(parsed_i32(s@) == Some((-(acc as int)) as i32));
        }
        Some((-(acc as i64)) as i32)
    } else {
        if acc > 2147483647 {
            return None;
        }
        Some(acc as i32)
    }
}

/// A coerced path parameter: an integer where the segment reads as one, the
/// raw text otherwise.
pub enum ParamValue {
    Int(i32),
    Text(String),
}

/// Coerce one captured path segment, integers preferred.
pub fn coerce_param(s: String) -> (r: ParamValue)
    ensures
        match parsed_i32(s@) {
            Some(v) => r == ParamValue::Int(v),
            None => r == ParamValue::Text(s),
        },
{
    match parse_i32(s.as_str()) {
        Some(v) => ParamValue::Int(v),
        None => ParamValue::Text(s),
    }
}

} // verus!
