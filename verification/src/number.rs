//! The numeric literals of a model description.
//!
//! The coordinates of a vertex, a normal or a texture point are written as
//! decimal numbers: an optional sign, then digits with at most one decimal
//! point and at least one digit, then an optional exponent. The words `inf`,
//! `infinity` and `nan`, in any case and with an optional sign, are literals
//! too. This module recognises a literal; it does not compute its value,
//! which is left to whoever turns the literal into a machine number.

use vstd::prelude::*;

verus! {

pub const PLUS: u8 = 43;

pub const MINUS: u8 = 45;

pub const DOT: u8 = 46;

pub const DIGIT_ZERO: u8 = 48;

pub const DIGIT_NINE: u8 = 57;

pub const UPPER_A: u8 = 65;

pub const UPPER_Z: u8 = 90;

pub const LOWER_A: u8 = 97;

pub const LOWER_E: u8 = 101;

pub const LOWER_F: u8 = 102;

pub const LOWER_I: u8 = 105;

pub const LOWER_N: u8 = 110;

pub const LOWER_T: u8 = 116;

pub const LOWER_Y: u8 = 121;

/// The distance from an upper-case letter to its lower-case form.
pub const CASE_OFFSET: u8 = 32;

pub open spec fn is_digit(b: u8) -> bool {
    DIGIT_ZERO <= b && b <= DIGIT_NINE
}

pub open spec fn is_sign(b: u8) -> bool {
    b == PLUS || b == MINUS
}

/// The lower-case form of an upper-case letter; any other byte unchanged.
pub open spec fn to_lower(b: u8) -> u8 {
    if UPPER_A <= b && b <= UPPER_Z {
        (b + CASE_OFFSET) as u8
    } else {
        b
    }
}

/// Every byte of `s` is a digit.
pub open spec fn all_digits(s: Seq<u8>) -> bool {
    forall|i: int| 0 <= i < s.len() ==> is_digit(#[trigger] s[i])
}

/// The first offset at or after `from` that holds no digit, or the length.
pub open spec fn digits_end(s: Seq<u8>, from: int) -> int
    decreases s.len() - from,
{
    if 0 <= from < s.len() && is_digit(s[from]) {
        digits_end(s, from + 1)
    } else {
        from
    }
}

/// `s` spells `inf`, in any case.
pub open spec fn is_inf(s: Seq<u8>) -> bool {
    &&& s.len() == 3
    &&& to_lower(s[0]) == LOWER_I
    &&& to_lower(s[1]) == LOWER_N
    &&& to_lower(s[2]) == LOWER_F
}

/// `s` spells `nan`, in any case.
pub open spec fn is_nan(s: Seq<u8>) -> bool {
    &&& s.len() == 3
    &&& to_lower(s[0]) == LOWER_N
    &&& to_lower(s[1]) == LOWER_A
    &&& to_lower(s[2]) == LOWER_N
}

/// `s` spells `infinity`, in any case.
pub open spec fn is_infinity(s: Seq<u8>) -> bool {
    &&& s.len() == 8
    &&& to_lower(s[0]) == LOWER_I
    &&& to_lower(s[1]) == LOWER_N
    &&& to_lower(s[2]) == LOWER_F
    &&& to_lower(s[3]) == LOWER_I
    &&& to_lower(s[4]) == LOWER_N
    &&& to_lower(s[5]) == LOWER_I
    &&& to_lower(s[6]) == LOWER_T
    &&& to_lower(s[7]) == LOWER_Y
}

/// From the offset `at` to its end, `s` is an exponent: the letter `e` in
/// either case, an optional sign, and one digit or more.
pub open spec fn is_exponent(s: Seq<u8>, at: int) -> bool {
    let digits = if at + 1 < s.len() && is_sign(s[at + 1]) {
        at + 2
    } else {
        at + 1
    };
    &&& 0 <= at < s.len()
    &&& to_lower(s[at]) == LOWER_E
    &&& digits < s.len()
    &&& digits_end(s, digits) == s.len()
}

/// `s` is an unsigned decimal number: digits, then optionally a point and
/// more digits, with at least one digit in all, then optionally an exponent.
pub open spec fn is_decimal(s: Seq<u8>) -> bool {
    let whole_end = digits_end(s, 0);
    let has_point = whole_end < s.len() && s[whole_end] == DOT;
    let fraction_end = if has_point {
        digits_end(s, whole_end + 1)
    } else {
        whole_end
    };
    let digit_count = if has_point {
        fraction_end - 1
    } else {
        whole_end
    };
    &&& digit_count > 0
    &&& (fraction_end == s.len() || is_exponent(s, fraction_end))
}

/// `s` without its leading sign, where it has one.
pub open spec fn unsigned_part(s: Seq<u8>) -> Seq<u8> {
    if s.len() > 0 && is_sign(s[0]) {
        s.subrange(1, s.len() as int)
    } else {
        s
    }
}

/// `s` is a numeric literal.
pub open spec fn is_number(s: Seq<u8>) -> bool {
    let body = unsigned_part(s);
    is_decimal(body) || is_inf(body) || is_infinity(body) || is_nan(body)
}

/// `digits_end` stops inside the text, after digits only, and before a byte
/// that is no digit.
pub proof fn lemma_digits_end(s: Seq<u8>, from: int)
    requires
        0 <= from <= s.len(),
    ensures
        from <= digits_end(s, from) <= s.len(),
        forall|i: int| from <= i < digits_end(s, from) ==> is_digit(#[trigger] s[i]),
        digits_end(s, from) < s.len() ==> !is_digit(s[digits_end(s, from)]),
    decreases s.len() - from,
{
    if from < s.len() && is_digit(s[from]) {
        lemma_digits_end(s, from + 1);
    }
}

/// An exponent on its own: the letter `e` in either case, an optional sign,
/// and one digit or more.
pub open spec fn is_exponent_text(e: Seq<u8>) -> bool {
    &&& e.len() >= 2
    &&& to_lower(e[0]) == LOWER_E
    &&& if is_sign(e[1]) {
        e.len() >= 3 && all_digits(e.subrange(2, e.len() as int))
    } else {
        all_digits(e.subrange(1, e.len() as int))
    }
}

/// The four parts make up an unsigned decimal number: `whole` and `fraction`
/// are digits, at least one between them; there is a fraction only after a
/// point; and `exponent` is empty or an exponent.
pub open spec fn are_decimal_parts(
    whole: Seq<u8>,
    point: bool,
    fraction: Seq<u8>,
    exponent: Seq<u8>,
) -> bool {
    &&& all_digits(whole)
    &&& all_digits(fraction)
    &&& whole.len() + fraction.len() > 0
    &&& !point ==> fraction.len() == 0
    &&& exponent.len() == 0 || is_exponent_text(exponent)
}

/// The text of a decimal number with the given parts.
pub open spec fn decimal_text(
    whole: Seq<u8>,
    point: bool,
    fraction: Seq<u8>,
    exponent: Seq<u8>,
) -> Seq<u8> {
    whole + (if point {
        seq![DOT]
    } else {
        Seq::empty()
    }) + fraction + exponent
}

/// A run of digits that ends at `to`, where the text ends or a byte that is
/// no digit follows, is passed over as a whole.
pub proof fn lemma_digits_end_of_run(s: Seq<u8>, from: int, to: int)
    requires
        0 <= from <= to <= s.len(),
        forall|i: int| from <= i < to ==> is_digit(#[trigger] s[i]),
        to < s.len() ==> !is_digit(s[to]),
    ensures
        digits_end(s, from) == to,
    decreases to - from,
{
    if from < to {
        lemma_digits_end_of_run(s, from + 1, to);
    }
}

/// The unsigned decimal numbers are the texts that are made of a whole
/// part, an optional point with a fraction, and an optional exponent.
pub proof fn lemma_decimal_grammar(s: Seq<u8>)
    ensures
        is_decimal(s) <==> exists|
            whole: Seq<u8>,
            point: bool,
            fraction: Seq<u8>,
            exponent: Seq<u8>,
        |
            are_decimal_parts(whole, point, fraction, exponent) && s == #[trigger] decimal_text(
                whole,
                point,
                fraction,
                exponent,
            ),
{
    if is_decimal(s) {
        lemma_decimal_has_parts(s);
    }
    if exists|whole: Seq<u8>, point: bool, fraction: Seq<u8>, exponent: Seq<u8>|
        are_decimal_parts(whole, point, fraction, exponent) && s == #[trigger] decimal_text(
            whole,
            point,
            fraction,
            exponent,
        ) {
        let (whole, point, fraction, exponent) = choose|
            whole: Seq<u8>,
            point: bool,
            fraction: Seq<u8>,
            exponent: Seq<u8>,
        |
            are_decimal_parts(whole, point, fraction, exponent) && s == #[trigger] decimal_text(
                whole,
                point,
                fraction,
                exponent,
            );
        lemma_decimal_of_parts(whole, point, fraction, exponent);
    }
}

/// A text that is made of the parts of a decimal number is one.
pub proof fn lemma_decimal_of_parts(
    whole: Seq<u8>,
    point: bool,
    fraction: Seq<u8>,
    exponent: Seq<u8>,
)
    requires
        are_decimal_parts(whole, point, fraction, exponent),
    ensures
        is_decimal(decimal_text(whole, point, fraction, exponent)),
{
    let s = decimal_text(whole, point, fraction, exponent);
    let w = whole.len() as int;
    let mark: int = if point {
        1
    } else {
        0
    };
    let f = fraction.len() as int;
    let mantissa = w + mark + f;
    assert(s.len() == mantissa + exponent.len());
    assert forall|i: int| 0 <= i < w implies is_digit(#[trigger] s[i]) by {
        assert(s[i] == whole[i]);
    }
    assert forall|i: int| w + mark <= i < mantissa implies is_digit(#[trigger] s[i]) by {
        assert(s[i] == fraction[i - w - mark]);
    }
    if point {
        assert(s[w] == DOT);
    }
    if exponent.len() > 0 {
        assert(s[mantissa] == exponent[0]);
        assert(!is_digit(s[mantissa]));
    }
    lemma_digits_end_of_run(s, 0, w);
    if point {
        lemma_digits_end_of_run(s, w + 1, mantissa);
    }
    if exponent.len() > 0 {
        assert(s[mantissa + 1] == exponent[1]);
        let skip: int = if is_sign(exponent[1]) {
            2
        } else {
            1
        };
        let tail = exponent.subrange(skip, exponent.len() as int);
        assert forall|i: int| mantissa + skip <= i < s.len() implies is_digit(#[trigger] s[i]) by {
            assert(s[i] == exponent[i - mantissa]);
            assert(tail[i - mantissa - skip] == exponent[i - mantissa]);
        }
        if skip == 1 {
            assert(tail[0] == exponent[1]);
        }
        lemma_digits_end_of_run(s, mantissa + skip, s.len() as int);
        assert(is_exponent(s, mantissa));
    }
}

/// A decimal number is made of the parts of one.
pub proof fn lemma_decimal_has_parts(s: Seq<u8>)
    requires
        is_decimal(s),
    ensures
        exists|whole: Seq<u8>, point: bool, fraction: Seq<u8>, exponent: Seq<u8>|
            are_decimal_parts(whole, point, fraction, exponent) && s == #[trigger] decimal_text(
                whole,
                point,
                fraction,
                exponent,
            ),
{
    let whole_end = digits_end(s, 0);
    lemma_digits_end(s, 0);
    let point = whole_end < s.len() && s[whole_end] == DOT;
    let fraction_start = if point {
        whole_end + 1
    } else {
        whole_end
    };
    let fraction_end = if point {
        digits_end(s, whole_end + 1)
    } else {
        whole_end
    };
    if point {
        lemma_digits_end(s, whole_end + 1);
    }
    let whole = s.subrange(0, whole_end);
    let fraction = s.subrange(fraction_start, fraction_end);
    let exponent = s.subrange(fraction_end, s.len() as int);
    if exponent.len() > 0 {
        let digits = if fraction_end + 1 < s.len() && is_sign(s[fraction_end + 1]) {
            fraction_end + 2
        } else {
            fraction_end + 1
        };
        lemma_digits_end(s, digits);
        assert(exponent[0] == s[fraction_end]);
        assert(exponent[1] == s[fraction_end + 1]);
        let skip = digits - fraction_end;
        let tail = exponent.subrange(skip, exponent.len() as int);
        assert forall|i: int| 0 <= i < tail.len() implies is_digit(#[trigger] tail[i]) by {
            assert(tail[i] == s[digits + i]);
        }
        if skip == 1 {
            assert(is_digit(s[digits]));
        }
        assert(is_exponent_text(exponent));
    }
    assert(are_decimal_parts(whole, point, fraction, exponent));
    assert(s =~= decimal_text(whole, point, fraction, exponent));
}

/// A numeric literal holds no byte above the ASCII range.
pub proof fn lemma_number_is_ascii(s: Seq<u8>)
    requires
        is_number(s),
    ensures
        forall|i: int| 0 <= i < s.len() ==> #[trigger] s[i] < 128,
{
    let body = unsigned_part(s);
    assert forall|i: int| 0 <= i < body.len() implies #[trigger] body[i] < 128 by {
        if is_decimal(body) {
            let whole_end = digits_end(body, 0);
            lemma_digits_end(body, 0);
            if whole_end < body.len() && body[whole_end] == DOT {
                lemma_digits_end(body, whole_end + 1);
            }
            let has_point = whole_end < body.len() && body[whole_end] == DOT;
            let fraction_end = if has_point {
                digits_end(body, whole_end + 1)
            } else {
                whole_end
            };
            if fraction_end < body.len() {
                let digits = if fraction_end + 1 < body.len() && is_sign(body[fraction_end + 1]) {
                    fraction_end + 2
                } else {
                    fraction_end + 1
                };
                lemma_digits_end(body, digits);
            }
        }
    }
    assert forall|i: int| 0 <= i < s.len() implies #[trigger] s[i] < 128 by {
        if s.len() > 0 && is_sign(s[0]) {
            if i > 0 {
                assert(s[i] == body[i - 1]);
            }
        }
    }
}

pub fn digit(b: u8) -> (r: bool)
    ensures
        r == is_digit(b),
{
    DIGIT_ZERO <= b && b <= DIGIT_NINE
}

pub fn sign(b: u8) -> (r: bool)
    ensures
        r == is_sign(b),
{
    b == PLUS || b == MINUS
}

pub fn lower(b: u8) -> (r: u8)
    ensures
        r == to_lower(b),
{
    if UPPER_A <= b && b <= UPPER_Z {
        b + CASE_OFFSET
    } else {
        b
    }
}

/// Passes over the digits that start at `from`.
pub fn scan_digits(s: &[u8], from: usize) -> (end: usize)
    requires
        from <= s@.len(),
    ensures
        end == digits_end(s@, from as int),
        from <= end <= s@.len(),
{
    let mut at: usize = from;
    while at < s.len() && digit(s[at])
        invariant
            from <= at <= s@.len(),
            digits_end(s@, from as int) == digits_end(s@, at as int),
        decreases s@.len() - at,
    {
        at = at + 1;
    }
    at
}

/// Tells whether `s` is one of the words `inf`, `infinity` and `nan`.
fn special(s: &[u8]) -> (r: bool)
    ensures
        r == (is_inf(s@) || is_infinity(s@) || is_nan(s@)),
{
    if s.len() == 3 {
        let a: u8 = lower(s[0]);
        let b: u8 = lower(s[1]);
        let c: u8 = lower(s[2]);
        (a == LOWER_I && b == LOWER_N && c == LOWER_F) || (a == LOWER_N && b == LOWER_A && c
            == LOWER_N)
    } else if s.len() == 8 {
        lower(s[0]) == LOWER_I && lower(s[1]) == LOWER_N && lower(s[2]) == LOWER_F && lower(s[3])
            == LOWER_I && lower(s[4]) == LOWER_N && lower(s[5]) == LOWER_I && lower(s[6])
            == LOWER_T && lower(s[7]) == LOWER_Y
    } else {
        false
    }
}

/// Tells whether `s` is an exponent from the offset `at` on.
fn exponent(s: &[u8], at: usize) -> (r: bool)
    requires
        at < s@.len(),
    ensures
        r == is_exponent(s@, at as int),
{
    if lower(s[at]) != LOWER_E {
        return false;
    }
    let mut digits: usize = at + 1;
    if digits < s.len() && sign(s[digits]) {
        digits = digits + 1;
    }
    digits < s.len() && scan_digits(s, digits) == s.len()
}

/// Tells whether `s` is an unsigned decimal number.
fn decimal(s: &[u8]) -> (r: bool)
    ensures
        r == is_decimal(s@),
{
    let whole_end: usize = scan_digits(s, 0);
    let mut fraction_end: usize = whole_end;
    let mut digit_count: usize = whole_end;
    if whole_end < s.len() && s[whole_end] == DOT {
        fraction_end = scan_digits(s, whole_end + 1);
        digit_count = fraction_end - 1;
    }
    digit_count > 0 && (fraction_end == s.len() || exponent(s, fraction_end))
}

/// Tells whether `s` is a numeric literal.
pub fn number(s: &[u8]) -> (r: bool)
    ensures
        r == is_number(s@),
{
    if s.len() > 0 && sign(s[0]) {
        let body = &s[1..s.len()];
        decimal(body) || special(body)
    } else {
        decimal(s) || special(s)
    }
}

} // verus!
