//! The references of a face.
//!
//! A face names each of its corners by a token of one to three fields,
//! separated by slashes: the number of a vertex, then optionally that of a
//! texture point, then optionally that of a normal. A field is read as an
//! unsigned decimal integer: an optional plus sign and one digit or more.

use vstd::prelude::*;
use crate::number::{all_digits, digit, is_digit, DIGIT_ZERO, PLUS};

verus! {

/// The byte that separates two fields of a face reference.
pub const SLASH: u8 = 47;

/// The number that a run of digits spells in base ten.
pub open spec fn decimal_value(s: Seq<u8>) -> nat
    decreases s.len(),
{
    if s.len() == 0 {
        0
    } else {
        (decimal_value(s.drop_last()) * 10 + (s.last() - DIGIT_ZERO)) as nat
    }
}

/// `s` without its leading plus sign, where it has one.
pub open spec fn unsigned_digits(s: Seq<u8>) -> Seq<u8> {
    if s.len() > 0 && s[0] == PLUS {
        s.subrange(1, s.len() as int)
    } else {
        s
    }
}

/// The value of `s` read as an unsigned integer of at most `max`: `None`
/// where `s` is not an optional plus sign followed by one digit or more, or
/// where those digits spell a number above `max`.
pub open spec fn parse_unsigned(s: Seq<u8>, max: nat) -> Option<nat> {
    let digits = unsigned_digits(s);
    if digits.len() > 0 && all_digits(digits) && decimal_value(digits) <= max {
        Some(decimal_value(digits))
    } else {
        None
    }
}

/// The first offset at or after `from` that holds a slash, or the length.
pub open spec fn field_end(s: Seq<u8>, from: int) -> int
    decreases s.len() - from,
{
    if 0 <= from < s.len() && s[from] != SLASH {
        field_end(s, from + 1)
    } else {
        from
    }
}

/// The first field of a face reference: the bytes before its first slash.
pub open spec fn vertex_field(s: Seq<u8>) -> Seq<u8> {
    s.subrange(0, field_end(s, 0))
}

/// A face reference has a second field when it holds a slash.
pub open spec fn has_texture_field(s: Seq<u8>) -> bool {
    field_end(s, 0) < s.len()
}

/// The second field of a face reference: the bytes between its first slash
/// and its second, or its end.
pub open spec fn texture_field(s: Seq<u8>) -> Seq<u8> {
    s.subrange(field_end(s, 0) + 1, field_end(s, field_end(s, 0) + 1))
}

/// A field ends inside the reference, holds no slash, and ends at a slash or
/// at the end of the reference.
pub proof fn lemma_field_end(s: Seq<u8>, from: int)
    requires
        0 <= from <= s.len(),
    ensures
        from <= field_end(s, from) <= s.len(),
        forall|i: int| from <= i < field_end(s, from) ==> #[trigger] s[i] != SLASH,
        field_end(s, from) < s.len() ==> s[field_end(s, from)] == SLASH,
    decreases s.len() - from,
{
    if from < s.len() && s[from] != SLASH {
        lemma_field_end(s, from + 1);
    }
}

/// Among runs of digits, a prefix spells no more than the whole.
pub proof fn lemma_decimal_value_prefix(s: Seq<u8>, n: int)
    requires
        all_digits(s),
        0 <= n <= s.len(),
    ensures
        decimal_value(s.subrange(0, n)) <= decimal_value(s),
    decreases s.len() - n,
{
    if n == s.len() {
        assert(s.subrange(0, n) =~= s);
    } else {
        lemma_decimal_value_prefix(s, n + 1);
        let longer = s.subrange(0, n + 1);
        assert(longer.drop_last() =~= s.subrange(0, n));
        assert(is_digit(s[n]));
        assert(longer.last() == s[n]);
    }
}

/// Finds the end of the field that starts at `from`.
pub fn find_field_end(s: &[u8], from: usize) -> (end: usize)
    requires
        from <= s@.len(),
    ensures
        end == field_end(s@, from as int),
        from <= end <= s@.len(),
{
    let mut at: usize = from;
    while at < s.len() && s[at] != SLASH
        invariant
            from <= at <= s@.len(),
            field_end(s@, from as int) == field_end(s@, at as int),
        decreases s@.len() - at,
    {
        at = at + 1;
    }
    at
}

/// Reads `s` as an unsigned integer of at most `max`.
pub fn read_unsigned(s: &[u8], max: u64) -> (r: Option<u64>)
    ensures
        r matches Some(n) ==> parse_unsigned(s@, max as nat) == Some(n as nat),
        r is None ==> parse_unsigned(s@, max as nat) is None,
{
    let start: usize = if s.len() > 0 && s[0] == PLUS {
        1
    } else {
        0
    };
    let ghost digits = unsigned_digits(s@);
    if start == s.len() {
        return None;
    }
    let mut value: u64 = 0;
    let mut at: usize = start;
    while at < s.len()
        invariant
            start <= at <= s@.len(),
            start <= 1,
            digits == unsigned_digits(s@),
            digits == s@.subrange(start as int, s@.len() as int),
            all_digits(digits.subrange(0, at - start)),
            value == decimal_value(digits.subrange(0, at - start)),
            value <= max,
        decreases s@.len() - at,
    {
        let b: u8 = s[at];
        let ghost read = digits.subrange(0, at - start);
        let ghost longer = digits.subrange(0, at - start + 1);
        proof {
            assert(longer.drop_last() =~= read);
            assert(longer.last() == b);
        }
        if !digit(b) {
            proof {
                assert(digits[at - start] == b);
                assert(!all_digits(digits));
            }
            return None;
        }
        let d: u64 = (b - DIGIT_ZERO) as u64;
        if d > max || value > (max - d) / 10 {
            proof {
                if all_digits(digits) {
                    lemma_decimal_value_prefix(digits, at - start + 1);
                    assert(decimal_value(longer) == value * 10 + d);
                }
            }
            return None;
        }
        value = value * 10 + d;
        at = at + 1;
        proof {
            assert forall|i: int| 0 <= i < longer.len() implies is_digit(#[trigger] longer[i]) by {
                if i < read.len() {
                    assert(longer[i] == read[i]);
                }
            }
        }
    }
    proof {
        assert(digits.subrange(0, at - start) =~= digits);
    }
    Some(value)
}

} // verus!
