//! The JSON number grammar: an optional leading minus, an integer part that
//! is `0` or a non-zero digit followed by digits (no other leading zeros),
//! an optional fractional part of a dot followed by one or more digits, and
//! an optional exponent of `e` or `E`, an optional sign, and one or more
//! digits.

use vstd::prelude::*;
use vstd::string::StrSliceExecFns;

use crate::scanner::{is_ascii_digit_char, is_digit_char};

verus! {

/// The first position at or after `i` that does not hold an ASCII digit.
pub open spec fn digits_end(s: Seq<char>, i: int) -> int
    decreases s.len() - i,
    when 0 <= i <= s.len()
{
    if i >= s.len() {
        i
    } else if is_digit_char(s[i]) {
        digits_end(s, i + 1)
    } else {
        i
    }
}

/// `digits_end` stays between its starting point and the end of the text.
pub proof fn lemma_digits_end_bounds(s: Seq<char>, i: int)
    requires
        0 <= i <= s.len(),
    ensures
        i <= digits_end(s, i) <= s.len(),
    decreases s.len() - i,
{
    if i < s.len() && is_digit_char(s[i]) {
        lemma_digits_end_bounds(s, i + 1);
    }
}

/// Whether the text is a well-formed JSON number literal.
pub open spec fn json_number(s: Seq<char>) -> bool {
    let i0: int = if s.len() > 0 && s[0] == '-' {
        1
    } else {
        0
    };
    if i0 >= s.len() || !is_digit_char(s[i0]) {
        false
    } else {
        let i1: int = if s[i0] == '0' {
            i0 + 1
        } else {
            digits_end(s, i0)
        };
        let has_frac = i1 < s.len() && s[i1] == '.';
        let i2: int = if has_frac {
            digits_end(s, i1 + 1)
        } else {
            i1
        };
        let frac_ok = !has_frac || i2 > i1 + 1;
        let has_exp = 0 <= i2 < s.len() && (s[i2] == 'e' || s[i2] == 'E');
        if has_exp {
            let j: int = if i2 + 1 < s.len() && (s[i2 + 1] == '+' || s[i2 + 1] == '-') {
                i2 + 2
            } else {
                i2 + 1
            };
            let i3 = digits_end(s, j);
            frac_ok && i3 > j && i3 == s.len()
        } else {
            frac_ok && i2 == s.len()
        }
    }
}

/// Scan forward from `from` to the first non-digit position.
fn scan_digits(s: &str, from: usize) -> (r: usize)
    requires
        from <= s@.len(),
    ensures
        r == digits_end(s@, from as int),
        from <= r <= s@.len(),
    decreases s@.len() - from,
{
    proof {
        lemma_digits_end_bounds(s@, from as int);
    }
    if from < s.unicode_len() {
        let c = s.get_char(from);
        if is_ascii_digit_char(c) {
            return scan_digits(s, from + 1);
        }
    }
    from
}

/// Decide whether the text is a well-formed JSON number literal.
pub fn is_json_number(s: &str) -> (r: bool)
    ensures
        r == json_number(s@),
{
    let n = s.unicode_len();
    let i0: usize = if n > 0 && s.get_char(0) == '-' {
        1
    } else {
        0
    };
    if i0 >= n || !is_ascii_digit_char(s.get_char(i0)) {
        return false;
    }
    let i1: usize = if s.get_char(i0) == '0' {
        i0 + 1
    } else {
        scan_digits(s, i0)
    };
    let has_frac = i1 < n && s.get_char(i1) == '.';
    let i2: usize = if has_frac {
        scan_digits(s, i1 + 1)
    } else {
        i1
    };
    let frac_ok = !has_frac || i2 > i1 + 1;
    let has_exp = i2 < n && (s.get_char(i2) == 'e' || s.get_char(i2) == 'E');
    if has_exp {
        let j: usize = if i2 + 1 < n && (s.get_char(i2 + 1) == '+' || s.get_char(i2 + 1) == '-') {
            i2 + 2
        } else {
            i2 + 1
        };
        let i3 = scan_digits(s, j);
        frac_ok && i3 > j && i3 == n
    } else {
        frac_ok && i2 == n
    }
}

} // verus!
