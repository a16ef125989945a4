//! Lines and tokens of a model description.
//!
//! A description is a sequence of bytes. Lines are separated by the newline
//! byte, and within a line the tokens are the maximal runs of bytes that are
//! not white space. Everything here works with offsets into the text, so a
//! token is a [`Span`] and nothing is copied.

use vstd::prelude::*;

verus! {

/// The byte that separates two lines.
pub const NEWLINE: u8 = 10;

/// The space character.
pub const SPACE: u8 = 32;

/// The first of the control characters that count as white space (tab).
pub const TAB: u8 = 9;

/// The last of the control characters that count as white space (carriage return).
pub const CARRIAGE_RETURN: u8 = 13;

/// A half-open range of offsets `start..end` into a text.
#[derive(Clone, Copy, Debug, PartialEq, Eq, Structural)]
pub struct Span {
    pub start: usize,
    pub end: usize,
}

impl Span {
    /// The span is a range of a text of `len` bytes.
    pub open spec fn within(self, len: int) -> bool {
        self.start <= self.end <= len
    }

    /// The bytes that the span covers.
    pub open spec fn of(self, text: Seq<u8>) -> Seq<u8> {
        text.subrange(self.start as int, self.end as int)
    }
}

/// White space: the space character and the control characters from tab to
/// carriage return.
pub open spec fn is_blank(b: u8) -> bool {
    b == SPACE || (TAB <= b && b <= CARRIAGE_RETURN)
}

/// The offset at which the line that starts at `from` ends: that of the first
/// newline at or after `from`, or the length of the text where there is none.
pub open spec fn line_end(text: Seq<u8>, from: int) -> int
    decreases text.len() - from,
{
    if from < 0 || from >= text.len() || text[from] == NEWLINE {
        from
    } else {
        line_end(text, from + 1)
    }
}

/// The first offset in `from..to` that holds white space, or `to`.
pub open spec fn token_end(text: Seq<u8>, from: int, to: int) -> int
    decreases to - from,
{
    if from < to && !is_blank(text[from]) {
        token_end(text, from + 1, to)
    } else {
        from
    }
}

/// The tokens of `text` between the offsets `from` and `to`, in order.
pub open spec fn tokens(text: Seq<u8>, from: int, to: int) -> Seq<Span>
    decreases to - from,
{
    if from < 0 || from >= to {
        Seq::empty()
    } else if is_blank(text[from]) {
        tokens(text, from + 1, to)
    } else {
        let end = token_end(text, from, to);
        proof {
            lemma_token_end(text, from + 1, to);
        }
        seq![Span { start: from as usize, end: end as usize }] + tokens(text, end, to)
    }
}

/// `token_end` stays in the window, and the bytes it passes over hold no
/// white space; where it stops short of `to`, white space follows.
pub proof fn lemma_token_end(text: Seq<u8>, from: int, to: int)
    requires
        from <= to,
    ensures
        from <= token_end(text, from, to) <= to,
        forall|i: int| from <= i < token_end(text, from, to) ==> !is_blank(#[trigger] text[i]),
        token_end(text, from, to) < to ==> is_blank(text[token_end(text, from, to)]),
    decreases to - from,
{
    if from < to && !is_blank(text[from]) {
        lemma_token_end(text, from + 1, to);
    }
}

/// A line ends inside the text, holds no newline, and ends at a newline or
/// at the end of the text.
pub proof fn lemma_line_end(text: Seq<u8>, from: int)
    requires
        0 <= from <= text.len(),
    ensures
        from <= line_end(text, from) <= text.len(),
        forall|i: int| from <= i < line_end(text, from) ==> #[trigger] text[i] != NEWLINE,
        line_end(text, from) < text.len() ==> text[line_end(text, from)] == NEWLINE,
    decreases text.len() - from,
{
    if from < text.len() && text[from] != NEWLINE {
        lemma_line_end(text, from + 1);
    }
}

/// What the tokens of a window are: each is a run of bytes without white
/// space that lies in the window and cannot be extended on either side; they
/// come in the order of the text and do not touch; and every byte of the
/// window that is not white space lies in one of them.
pub proof fn lemma_tokens_are_maximal_runs(text: Seq<u8>, from: int, to: int)
    requires
        0 <= from <= to <= text.len(),
        to <= usize::MAX,
    ensures
        forall|k: int|
            #![trigger tokens(text, from, to)[k]]
            0 <= k < tokens(text, from, to).len() ==> {
                let t = tokens(text, from, to)[k];
                &&& from <= t.start < t.end <= to
                &&& forall|i: int| t.start <= i < t.end ==> !is_blank(#[trigger] text[i])
                &&& t.start > from ==> is_blank(text[t.start - 1])
                &&& t.end < to ==> is_blank(text[t.end as int])
            },
        forall|j: int, k: int|
            #![trigger tokens(text, from, to)[j], tokens(text, from, to)[k]]
            0 <= j < k < tokens(text, from, to).len() ==> tokens(text, from, to)[j].end
                < tokens(text, from, to)[k].start,
        forall|i: int|
            from <= i < to && !is_blank(#[trigger] text[i]) ==> exists|k: int|
                0 <= k < tokens(text, from, to).len() && tokens(text, from, to)[k].start <= i
                    < (#[trigger] tokens(text, from, to)[k]).end,
    decreases to - from,
{
    let all = tokens(text, from, to);
    if from >= to {
    } else if is_blank(text[from]) {
        lemma_tokens_are_maximal_runs(text, from + 1, to);
        let rest = tokens(text, from + 1, to);
        assert(all == rest);
        assert forall|i: int| from <= i < to && !is_blank(#[trigger] text[i]) implies exists|
            k: int,
        |
            0 <= k < all.len() && all[k].start <= i < (#[trigger] all[k]).end by {
            assert(from + 1 <= i);
        }
    } else {
        let end = token_end(text, from, to);
        lemma_token_end(text, from, to);
        lemma_token_end(text, from + 1, to);
        lemma_tokens_are_maximal_runs(text, end, to);
        let first = Span { start: from as usize, end: end as usize };
        let rest = tokens(text, end, to);
        assert(all == seq![first] + rest);
        assert(all[0] == first);
        assert forall|k: int| 1 <= k < all.len() implies #[trigger] all[k] == rest[k - 1] by {}
        assert forall|k: int| #![trigger all[k]] 0 <= k < all.len() implies {
            let t = all[k];
            &&& from <= t.start < t.end <= to
            &&& forall|i: int| t.start <= i < t.end ==> !is_blank(#[trigger] text[i])
            &&& t.start > from ==> is_blank(text[t.start - 1])
            &&& t.end < to ==> is_blank(text[t.end as int])
        } by {
            if k > 0 {
                let t = rest[k - 1];
                assert(all[k] == t);
                if t.start == end {
                    assert(is_blank(text[end]));
                    assert(!is_blank(text[t.start as int]));
                }
            }
        }
        assert forall|j: int, k: int|
            #![trigger all[j], all[k]]
            0 <= j < k < all.len() implies all[j].end < all[k].start by {
            let tk = rest[k - 1];
            assert(all[k] == tk);
            if j == 0 {
                if tk.start == end {
                    assert(is_blank(text[end]));
                    assert(!is_blank(text[tk.start as int]));
                }
            } else {
                assert(all[j] == rest[j - 1]);
            }
        }
        assert forall|i: int| from <= i < to && !is_blank(#[trigger] text[i]) implies exists|
            k: int,
        |
            0 <= k < all.len() && all[k].start <= i < (#[trigger] all[k]).end by {
            if i < end {
                assert(all[0].start <= i < all[0].end);
            } else {
                let k = choose|k: int|
                    0 <= k < rest.len() && rest[k].start <= i < (#[trigger] rest[k]).end;
                assert(all[k + 1] == rest[k]);
                assert(all[k + 1].start <= i < all[k + 1].end);
            }
        }
    }
}

/// Tells whether a byte is white space.
pub fn blank(b: u8) -> (r: bool)
    ensures
        r == is_blank(b),
{
    b == SPACE || (TAB <= b && b <= CARRIAGE_RETURN)
}

/// Finds the end of the line that starts at `from`.
pub fn find_line_end(text: &[u8], from: usize) -> (end: usize)
    requires
        from <= text@.len(),
    ensures
        end == line_end(text@, from as int),
        from <= end <= text@.len(),
{
    let mut at: usize = from;
    while at < text.len() && text[at] != NEWLINE
        invariant
            from <= at <= text@.len(),
            line_end(text@, from as int) == line_end(text@, at as int),
        decreases text@.len() - at,
    {
        at = at + 1;
    }
    at
}

/// Splits the window `from..to` of a text into its tokens.
pub fn split_tokens(text: &[u8], from: usize, to: usize) -> (found: Vec<Span>)
    requires
        from <= to <= text@.len(),
    ensures
        found@ == tokens(text@, from as int, to as int),
{
    let mut found: Vec<Span> = Vec::new();
    let mut at: usize = from;
    while at < to
        invariant
            from <= at <= to <= text@.len(),
            tokens(text@, from as int, to as int) == found@ + tokens(text@, at as int, to as int),
        decreases to - at,
    {
        if blank(text[at]) {
            at = at + 1;
        } else {
            let start: usize = at;
            while at < to && !blank(text[at])
                invariant
                    start <= at <= to <= text@.len(),
                    token_end(text@, start as int, to as int) == token_end(
                        text@,
                        at as int,
                        to as int,
                    ),
                decreases to - at,
            {
                at = at + 1;
            }
            let ghost before = found@;
            found.push(Span { start, end: at });
            proof {
                let rest = tokens(text@, at as int, to as int);
                assert(tokens(text@, start as int, to as int) == seq![Span { start, end: at }]
                    + rest);
                assert(before + (seq![Span { start, end: at }] + rest) =~= found@ + rest);
            }
        }
    }
    proof {
        assert(found@ + Seq::<Span>::empty() =~= found@);
    }
    found
}

} // verus!
