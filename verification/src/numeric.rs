//! The numeric probe: does a string parse as a floating-point number?
//!
//! Columns are classified by whether their values would be accepted by the
//! standard library's float parser. Acceptance is purely syntactic and is
//! documented as a small grammar:
//!
//! ```text
//! Float  ::= Sign? ( 'inf' | 'infinity' | 'nan' | Number )
//! Number ::= ( Digit+ | Digit+ '.' Digit* | Digit* '.' Digit+ ) Exp?
//! Exp    ::= ('e' | 'E') Sign? Digit+
//! Sign   ::= [+-]
//! ```
//!
//! with the three named forms matched ASCII-case-insensitively. `float_syntax`
//! states that grammar over a character sequence, and the executable
//! recognizers here are proved to decide it, so no parser is taken on trust.
//! `trimmed` models the removal of leading and trailing Unicode whitespace
//! that the probe applies before parsing.

use vstd::prelude::*;

verus! {

pub open spec fn is_ascii_digit(c: char) -> bool {
    48 <= c as int && c as int <= 57
}

pub open spec fn is_sign(c: char) -> bool {
    c == '+' || c == '-'
}

pub open spec fn is_exp_marker(c: char) -> bool {
    c == 'e' || c == 'E'
}

pub open spec fn all_digits(s: Seq<char>) -> bool {
    forall|i: int| 0 <= i < s.len() ==> is_ascii_digit(#[trigger] s[i])
}

/// The input with one leading sign character removed, if present.
pub open spec fn strip_sign(s: Seq<char>) -> Seq<char> {
    if s.len() > 0 && is_sign(s[0]) {
        s.drop_first()
    } else {
        s
    }
}

/// `Digit+`: a non-empty run of decimal digits.
pub open spec fn dot_free_mantissa(s: Seq<char>) -> bool {
    s.len() > 0 && all_digits(s)
}

/// `Digit+ '.' Digit*` or `Digit* '.' Digit+`: one dot, digits around it,
/// at least one digit in total.
pub open spec fn dotted_mantissa(s: Seq<char>) -> bool {
    exists|d: int|
        0 <= d < s.len() && #[trigger] s[d] == '.' && all_digits(s.take(d)) && all_digits(
            s.skip(d + 1),
        ) && s.len() > 1
}

pub open spec fn mantissa_ok(s: Seq<char>) -> bool {
    dot_free_mantissa(s) || dotted_mantissa(s)
}

/// What may follow the exponent marker: an optional sign, then `Digit+`.
pub open spec fn exp_ok(s: Seq<char>) -> bool {
    strip_sign(s).len() > 0 && all_digits(strip_sign(s))
}

/// `Number`: a mantissa, optionally followed by an exponent marker and a
/// well-formed exponent.
pub open spec fn number_ok(s: Seq<char>) -> bool {
    mantissa_ok(s) || (exists|k: int|
        0 <= k < s.len() && is_exp_marker(#[trigger] s[k]) && mantissa_ok(s.take(k)) && exp_ok(
            s.skip(k + 1),
        ))
}

/// `c` matches the lowercase letter `l` up to ASCII case.
pub open spec fn matches_ic(c: char, l: char) -> bool {
    c == l || (97 <= l as int && l as int <= 122 && c as int == l as int - 32)
}

/// `s` spells the lowercase word `lower`, ASCII-case-insensitively.
pub open spec fn eq_ignore_ascii_case(s: Seq<char>, lower: Seq<char>) -> bool {
    s.len() == lower.len() && forall|i: int|
        0 <= i < s.len() ==> matches_ic(#[trigger] s[i], lower[i])
}

pub open spec fn inf_chars() -> Seq<char> {
    seq!['i', 'n', 'f']
}

pub open spec fn infinity_chars() -> Seq<char> {
    seq!['i', 'n', 'f', 'i', 'n', 'i', 't', 'y']
}

pub open spec fn nan_chars() -> Seq<char> {
    seq!['n', 'a', 'n']
}

/// `inf`, `infinity` or `nan`, in any ASCII casing.
pub open spec fn is_special_name(s: Seq<char>) -> bool {
    eq_ignore_ascii_case(s, inf_chars()) || eq_ignore_ascii_case(s, infinity_chars())
        || eq_ignore_ascii_case(s, nan_chars())
}

/// The whole grammar: an optional sign, then a named value or a number.
pub open spec fn float_syntax(s: Seq<char>) -> bool {
    is_special_name(strip_sign(s)) || number_ok(strip_sign(s))
}

/// The characters the standard library treats as whitespace when trimming:
/// the Unicode `White_Space` code points.
pub open spec fn is_unicode_whitespace(c: char) -> bool {
    ||| (0x9 <= c as int && c as int <= 0xD)
    ||| c as int == 0x20
    ||| c as int == 0x85
    ||| c as int == 0xA0
    ||| c as int == 0x1680
    ||| (0x2000 <= c as int && c as int <= 0x200A)
    ||| c as int == 0x2028
    ||| c as int == 0x2029
    ||| c as int == 0x202F
    ||| c as int == 0x205F
    ||| c as int == 0x3000
}

pub open spec fn trim_start(s: Seq<char>) -> Seq<char>
    decreases s.len(),
{
    if s.len() > 0 && is_unicode_whitespace(s[0]) {
        trim_start(s.drop_first())
    } else {
        s
    }
}

pub open spec fn trim_end(s: Seq<char>) -> Seq<char>
    decreases s.len(),
{
    if s.len() > 0 && is_unicode_whitespace(s.last()) {
        trim_end(s.drop_last())
    } else {
        s
    }
}

/// The input without leading and trailing Unicode whitespace.
pub open spec fn trimmed(s: Seq<char>) -> Seq<char> {
    trim_end(trim_start(s))
}

/// The characters of a string slice, as a vector.
pub fn chars_of(s: &str) -> (v: Vec<char>)
    ensures
        v@ == s@,
{
    let n = s.unicode_len();
    let mut v: Vec<char> = Vec::new();
    let mut i: usize = 0;
    while i < n
        invariant
            n == s@.len(),
            i <= n,
            v@ =~= s@.take(i as int),
        decreases n - i,
    {
        v.push(s.get_char(i));
        i = i + 1;
    }
    proof {
        assert(s@.take(n as int) =~= s@);
    }
    v
}

fn is_digit_char(c: char) -> (r: bool)
    ensures
        r == is_ascii_digit(c),
{
    let u = c as u32;
    48 <= u && u <= 57
}

fn is_sign_char(c: char) -> (r: bool)
    ensures
        r == is_sign(c),
{
    c == '+' || c == '-'
}

fn is_marker_char(c: char) -> (r: bool)
    ensures
        r == is_exp_marker(c),
{
    c == 'e' || c == 'E'
}

fn is_ws_char(c: char) -> (r: bool)
    ensures
        r == is_unicode_whitespace(c),
{
    let u = c as u32;
    (0x9 <= u && u <= 0xD) || u == 0x20 || u == 0x85 || u == 0xA0 || u == 0x1680 || (0x2000 <= u
        && u <= 0x200A) || u == 0x2028 || u == 0x2029 || u == 0x202F || u == 0x205F || u == 0x3000
}

/// Decide `all_digits` on `v[from..to]`.
fn digits_in(v: &Vec<char>, from: usize, to: usize) -> (r: bool)
    requires
        from <= to <= v@.len(),
    ensures
        r == all_digits(v@.subrange(from as int, to as int)),
{
    let ghost s = v@.subrange(from as int, to as int);
    let mut i: usize = from;
    while i < to
        invariant
            from <= i <= to <= v@.len(),
            s == v@.subrange(from as int, to as int),
            forall|j: int| 0 <= j < i - from ==> is_ascii_digit(#[trigger] s[j]),
        decreases to - i,
    {
        if !is_digit_char(v[i]) {
            proof {
                assert(s[i - from] == v@[i as int]);
            }
            return false;
        }
        proof {
            assert(s[i - from] == v@[i as int]);
        }
        i = i + 1;
    }
    true
}

/// Decide `mantissa_ok` on `v[from..to]`.
fn mantissa_in(v: &Vec<char>, from: usize, to: usize) -> (r: bool)
    requires
        from <= to <= v@.len(),
    ensures
        r == mantissa_ok(v@.subrange(from as int, to as int)),
{
    let ghost s = v@.subrange(from as int, to as int);
    // find the first dot
    let mut d: usize = from;
    while d < to && v[d] != '.'
        invariant
            from <= d <= to <= v@.len(),
            s == v@.subrange(from as int, to as int),
            forall|j: int| 0 <= j < d - from ==> #[trigger] s[j] != '.',
        decreases to - d,
    {
        proof {
            assert(s[d - from] == v@[d as int]);
        }
        d = d + 1;
    }
    if d == to {
        // no dot anywhere: only a digit run qualifies
        let r = to - from > 0 && digits_in(v, from, to);
        proof {
            assert(s.len() == to - from);
            if r {
                assert(dot_free_mantissa(s));
            } else {
                assert(!dot_free_mantissa(s));
                assert forall|d2: int| 0 <= d2 < s.len() implies #[trigger] s[d2] != '.' by {}
                assert(!dotted_mantissa(s));
            }
        }
        return r;
    }
    proof {
        assert(s[d - from] == v@[d as int]);
        assert(s[d - from] == '.');
    }
    let left = digits_in(v, from, d);
    let right = digits_in(v, d + 1, to);
    let r = left && right && to - from > 1;
    proof {
        let di = d - from;
        assert(s.take(di) =~= v@.subrange(from as int, d as int));
        assert(s.skip(di + 1) =~= v@.subrange(d + 1, to as int));
        if r {
            assert(dotted_mantissa(s));
        } else {
            // the first dot is the only candidate: any other split position
            // would have to treat this dot as a digit
            assert forall|d2: int|
                0 <= d2 < s.len() && #[trigger] s[d2] == '.' && all_digits(s.take(d2))
                    && all_digits(s.skip(d2 + 1)) && s.len() > 1 implies false by {
                if d2 < di {
                    assert(s.skip(d2 + 1)[di - d2 - 1] == s[di]);
                    assert(is_ascii_digit(s[di]));
                } else if d2 > di {
                    assert(s.take(d2)[di] == s[di]);
                    assert(is_ascii_digit(s[di]));
                } else {
                    assert(!(all_digits(s.take(di)) && all_digits(s.skip(di + 1)) && s.len() > 1));
                }
            }
            assert(!dotted_mantissa(s));
            assert(!dot_free_mantissa(s)) by {
                assert(s[di] == '.');
                assert(!is_ascii_digit(s[di]));
            }
        }
    }
    r
}

/// Decide `exp_ok` on `v[from..to]`.
fn exponent_in(v: &Vec<char>, from: usize, to: usize) -> (r: bool)
    requires
        from <= to <= v@.len(),
    ensures
        r == exp_ok(v@.subrange(from as int, to as int)),
{
    let ghost s = v@.subrange(from as int, to as int);
    let start: usize = if from < to && is_sign_char(v[from]) {
        from + 1
    } else {
        from
    };
    proof {
        if s.len() > 0 && is_sign(s[0]) {
            assert(s[0] == v@[from as int]);
            assert(strip_sign(s) =~= v@.subrange(start as int, to as int));
        } else {
            assert(strip_sign(s) =~= v@.subrange(start as int, to as int));
        }
    }
    let r = to - start > 0 && digits_in(v, start, to);
    r
}

/// Decide `number_ok` on `v[from..to]`.
fn number_in(v: &Vec<char>, from: usize, to: usize) -> (r: bool)
    requires
        from <= to <= v@.len(),
    ensures
        r == number_ok(v@.subrange(from as int, to as int)),
{
    let ghost s = v@.subrange(from as int, to as int);
    // find the first exponent marker
    let mut k: usize = from;
    while k < to && !is_marker_char(v[k])
        invariant
            from <= k <= to <= v@.len(),
            s == v@.subrange(from as int, to as int),
            forall|j: int| 0 <= j < k - from ==> !is_exp_marker(#[trigger] s[j]),
        decreases to - k,
    {
        proof {
            assert(s[k - from] == v@[k as int]);
        }
        k = k + 1;
    }
    if k == to {
        let r = mantissa_in(v, from, to);
        proof {
            if !r {
                assert forall|k2: int|
                    0 <= k2 < s.len() implies !is_exp_marker(#[trigger] s[k2]) by {}
            }
        }
        return r;
    }
    proof {
        assert(s[k - from] == v@[k as int]);
        assert(is_exp_marker(s[k - from]));
    }
    let m = mantissa_in(v, from, k);
    let e = exponent_in(v, k + 1, to);
    let r = m && e;
    proof {
        let ki = k - from;
        assert(s.take(ki) =~= v@.subrange(from as int, k as int));
        assert(s.skip(ki + 1) =~= v@.subrange(k + 1, to as int));
        // an exponent marker is neither a digit nor a dot
        assert(!is_ascii_digit(s[ki]));
        assert(s[ki] != '.');
        // so the marker rules out a plain mantissa covering it
        assert(!dot_free_mantissa(s));
        assert forall|d: int|
            0 <= d < s.len() && #[trigger] s[d] == '.' && all_digits(s.take(d)) && all_digits(
                s.skip(d + 1),
            ) && s.len() > 1 implies false by {
            if d < ki {
                assert(s.skip(d + 1)[ki - d - 1] == s[ki]);
            } else if d > ki {
                assert(s.take(d)[ki] == s[ki]);
            }
        }
        assert(!mantissa_ok(s));
        if r {
            assert(0 <= ki < s.len() && is_exp_marker(s[ki]) && mantissa_ok(s.take(ki)) && exp_ok(
                s.skip(ki + 1),
            ));
        } else {
            assert forall|k2: int|
                0 <= k2 < s.len() && is_exp_marker(#[trigger] s[k2]) && mantissa_ok(s.take(k2))
                    && exp_ok(s.skip(k2 + 1)) implies false by {
                if k2 > ki {
                    // the first marker would sit inside that mantissa
                    let t = s.take(k2);
                    assert(t[ki] == s[ki]);
                    assert(!dot_free_mantissa(t));
                    assert forall|d: int|
                        0 <= d < t.len() && #[trigger] t[d] == '.' && all_digits(t.take(d))
                            && all_digits(t.skip(d + 1)) && t.len() > 1 implies false by {
                        if d < ki {
                            assert(t.skip(d + 1)[ki - d - 1] == t[ki]);
                        } else if d > ki {
                            assert(t.take(d)[ki] == t[ki]);
                        }
                    }
                    assert(!mantissa_ok(t));
                }
            }
        }
    }
    r
}

fn char_matches(c: char, lower: char, upper: char) -> (r: bool)
    requires
        97 <= lower as int <= 122,
        upper as int == lower as int - 32,
    ensures
        r == matches_ic(c, lower),
{
    c == lower || c == upper
}

/// Decide `is_special_name` on `v[from..to]`.
fn special_in(v: &Vec<char>, from: usize, to: usize) -> (r: bool)
    requires
        from <= to <= v@.len(),
    ensures
        r == is_special_name(v@.subrange(from as int, to as int)),
{
    let ghost s = v@.subrange(from as int, to as int);
    let m = to - from;
    if m == 3 {
        let inf = char_matches(v[from], 'i', 'I') && char_matches(v[from + 1], 'n', 'N')
            && char_matches(v[from + 2], 'f', 'F');
        let nan = char_matches(v[from], 'n', 'N') && char_matches(v[from + 1], 'a', 'A')
            && char_matches(v[from + 2], 'n', 'N');
        proof {
            assert(s[0] == v@[from as int]);
            assert(s[1] == v@[from + 1]);
            assert(s[2] == v@[from + 2]);
            if inf {
                assert forall|i: int| 0 <= i < 3 implies matches_ic(#[trigger] s[i], inf_chars()[i]) by {}
            } else {
                assert(!eq_ignore_ascii_case(s, inf_chars()));
            }
            if nan {
                assert forall|i: int| 0 <= i < 3 implies matches_ic(#[trigger] s[i], nan_chars()[i]) by {}
            } else {
                assert(!eq_ignore_ascii_case(s, nan_chars()));
            }
            assert(s.len() == 3);
            assert(infinity_chars().len() == 8);
            assert(!eq_ignore_ascii_case(s, infinity_chars()));
        }
        inf || nan
    } else if m == 8 {
        let r = char_matches(v[from], 'i', 'I') && char_matches(v[from + 1], 'n', 'N')
            && char_matches(v[from + 2], 'f', 'F') && char_matches(v[from + 3], 'i', 'I')
            && char_matches(v[from + 4], 'n', 'N') && char_matches(v[from + 5], 'i', 'I')
            && char_matches(v[from + 6], 't', 'T') && char_matches(v[from + 7], 'y', 'Y');
        proof {
            assert(s[0] == v@[from as int]);
            assert(s[1] == v@[from + 1]);
            assert(s[2] == v@[from + 2]);
            assert(s[3] == v@[from + 3]);
            assert(s[4] == v@[from + 4]);
            assert(s[5] == v@[from + 5]);
            assert(s[6] == v@[from + 6]);
            assert(s[7] == v@[from + 7]);
            assert(infinity_chars()[0] == 'i');
            assert(infinity_chars()[1] == 'n');
            assert(infinity_chars()[2] == 'f');
            assert(infinity_chars()[3] == 'i');
            assert(infinity_chars()[4] == 'n');
            assert(infinity_chars()[5] == 'i');
            assert(infinity_chars()[6] == 't');
            assert(infinity_chars()[7] == 'y');
            if r {
                assert forall|i: int|
                    0 <= i < 8 implies matches_ic(#[trigger] s[i], infinity_chars()[i]) by {}
            } else {
                assert(!eq_ignore_ascii_case(s, infinity_chars()));
            }
            assert(!eq_ignore_ascii_case(s, inf_chars()));
            assert(!eq_ignore_ascii_case(s, nan_chars()));
        }
        r
    } else {
        proof {
            assert(s.len() != 3 && s.len() != 8);
        }
        false
    }
}

/// Decide `float_syntax` on `v[from..to]`.
fn float_syntax_in(v: &Vec<char>, from: usize, to: usize) -> (r: bool)
    requires
        from <= to <= v@.len(),
    ensures
        r == float_syntax(v@.subrange(from as int, to as int)),
{
    let ghost s = v@.subrange(from as int, to as int);
    let start: usize = if from < to && is_sign_char(v[from]) {
        from + 1
    } else {
        from
    };
    proof {
        if s.len() > 0 && is_sign(s[0]) {
            assert(s[0] == v@[from as int]);
            assert(strip_sign(s) =~= v@.subrange(start as int, to as int));
        } else {
            if s.len() > 0 {
                assert(s[0] == v@[from as int]);
            }
            assert(strip_sign(s) =~= v@.subrange(start as int, to as int));
        }
    }
    if special_in(v, start, to) {
        true
    } else {
        number_in(v, start, to)
    }
}

proof fn lemma_trim_start_index(s: Seq<char>, lo: int)
    requires
        0 <= lo <= s.len(),
        forall|i: int| 0 <= i < lo ==> is_unicode_whitespace(#[trigger] s[i]),
        lo < s.len() ==> !is_unicode_whitespace(s[lo]),
    ensures
        trim_start(s) == s.skip(lo),
    decreases lo,
{
    if lo == 0 {
        assert(s.skip(0) =~= s);
    } else {
        assert(is_unicode_whitespace(s[0]));
        let t = s.drop_first();
        assert forall|i: int| 0 <= i < lo - 1 implies is_unicode_whitespace(#[trigger] t[i]) by {
            assert(t[i] == s[i + 1]);
        }
        lemma_trim_start_index(t, lo - 1);
        assert(t.skip(lo - 1) =~= s.skip(lo));
    }
}

proof fn lemma_trim_end_index(s: Seq<char>, hi: int)
    requires
        0 <= hi <= s.len(),
        forall|i: int| hi <= i < s.len() ==> is_unicode_whitespace(#[trigger] s[i]),
        hi > 0 ==> !is_unicode_whitespace(s[hi - 1]),
    ensures
        trim_end(s) == s.take(hi),
    decreases s.len(),
{
    if hi == s.len() {
        assert(s.take(hi) =~= s);
        if s.len() > 0 {
            assert(!is_unicode_whitespace(s.last()));
        }
    } else {
        assert(is_unicode_whitespace(s.last()));
        let t = s.drop_last();
        lemma_trim_end_index(t, hi);
        assert(t.take(hi) =~= s.take(hi));
    }
}

/// Decide whether the whole string matches the float grammar, with no
/// whitespace allowance.
pub fn is_float_syntax(s: &str) -> (r: bool)
    ensures
        r == float_syntax(s@),
{
    let cs = chars_of(s);
    let n = cs.len();
    proof {
        assert(cs@.subrange(0, n as int) =~= cs@);
    }
    float_syntax_in(&cs, 0, n)
}

/// The numeric probe: trim Unicode whitespace from both ends, then test the
/// float grammar — the test a column's first sorted value must pass for the
/// column to classify as numeric.
pub fn is_valid_float(s: &str) -> (r: bool)
    ensures
        r == float_syntax(trimmed(s@)),
{
    let cs = chars_of(s);
    let n = cs.len();
    let mut lo: usize = 0;
    while lo < n && is_ws_char(cs[lo])
        invariant
            n == cs@.len(),
            lo <= n,
            forall|i: int| 0 <= i < lo ==> is_unicode_whitespace(#[trigger] cs@[i]),
        decreases n - lo,
    {
        lo = lo + 1;
    }
    let mut hi: usize = n;
    while hi > lo && is_ws_char(cs[hi - 1])
        invariant
            lo <= hi <= n,
            n == cs@.len(),
            forall|i: int| hi <= i < n ==> is_unicode_whitespace(#[trigger] cs@[i]),
        decreases hi,
    {
        hi = hi - 1;
    }
    proof {
        lemma_trim_start_index(cs@, lo as int);
        let t = cs@.skip(lo as int);
        assert forall|i: int|
            hi - lo <= i < t.len() implies is_unicode_whitespace(#[trigger] t[i]) by {
            assert(t[i] == cs@[i + lo]);
        }
        if hi > lo {
            assert(t[hi - lo - 1] == cs@[hi - 1]);
        }
        lemma_trim_end_index(t, hi - lo);
        assert(trimmed(cs@) == t.take(hi - lo));
        assert(t.take(hi - lo) =~= cs@.subrange(lo as int, hi as int));
    }
    float_syntax_in(&cs, lo, hi)
}

} // verus!
