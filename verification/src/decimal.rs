//! Decimal rendering of indices, for the synthetic counter column.
//!
//! The pairing stage labels an odd column set with a counter column whose
//! values are `0, 1, 2, …` written in decimal. The rendering is verified
//! against `decimal_digits`, and the digits it produces are proved to match
//! the float grammar, so the counter column satisfies the same invariant as
//! a classified column.

use vstd::prelude::*;
use crate::numeric::{dot_free_mantissa, float_syntax, is_ascii_digit, number_ok, strip_sign};

verus! {

/// The digit character for `d` in `0..10`.
pub open spec fn digit_char(d: int) -> char {
    (48 + d) as char
}

/// The decimal digits of `n`, most significant first.
pub open spec fn decimal_digits(n: nat) -> Seq<char>
    decreases n,
{
    if n < 10 {
        seq![digit_char(n as int)]
    } else {
        decimal_digits(n / 10).push(digit_char((n % 10) as int))
    }
}

pub proof fn lemma_decimal_digits_are_digits(n: nat)
    ensures
        decimal_digits(n).len() > 0,
        forall|i: int|
            0 <= i < decimal_digits(n).len() ==> is_ascii_digit(#[trigger] decimal_digits(n)[i]),
    decreases n,
{
    if n >= 10 {
        lemma_decimal_digits_are_digits(n / 10);
        let pre = decimal_digits(n / 10);
        let cur = decimal_digits(n);
        assert forall|i: int| 0 <= i < cur.len() implies is_ascii_digit(#[trigger] cur[i]) by {
            if i < pre.len() {
                assert(cur[i] == pre[i]);
            }
        }
    }
}

/// A decimal rendering is accepted by the float grammar.
pub proof fn lemma_decimal_digits_float_syntax(n: nat)
    ensures
        float_syntax(decimal_digits(n)),
{
    lemma_decimal_digits_are_digits(n);
    let s = decimal_digits(n);
    assert(is_ascii_digit(s[0]));
    assert(strip_sign(s) == s);
    assert(dot_free_mantissa(s));
    assert(number_ok(s));
}

fn digit_str(d: usize) -> (r: &'static str)
    requires
        d < 10,
    ensures
        r@ == seq![digit_char(d as int)],
{
    if d == 0 {
        proof {
            reveal_strlit("0");
        }
        "0"
    } else if d == 1 {
        proof {
            reveal_strlit("1");
        }
        "1"
    } else if d == 2 {
        proof {
            reveal_strlit("2");
        }
        "2"
    } else if d == 3 {
        proof {
            reveal_strlit("3");
        }
        "3"
    } else if d == 4 {
        proof {
            reveal_strlit("4");
        }
        "4"
    } else if d == 5 {
        proof {
            reveal_strlit("5");
        }
        "5"
    } else if d == 6 {
        proof {
            reveal_strlit("6");
        }
        "6"
    } else if d == 7 {
        proof {
            reveal_strlit("7");
        }
        "7"
    } else if d == 8 {
        proof {
            reveal_strlit("8");
        }
        "8"
    } else {
        proof {
            reveal_strlit("9");
        }
        "9"
    }
}

/// Render `n` in decimal.
pub fn to_decimal_string(n: usize) -> (r: String)
    ensures
        r@ == decimal_digits(n as nat),
    decreases n,
{
    if n < 10 {
        String::from_str(digit_str(n))
    } else {
        let mut s = to_decimal_string(n / 10);
        s.append(digit_str(n % 10));
        s
    }
}

} // verus!
