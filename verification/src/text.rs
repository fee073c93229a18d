//! Scanning of text, character by character.

use vstd::prelude::*;
use vstd::std_specs::iter::IteratorSpec;

verus! {

/// Whether `c` separates fields: the characters that Unicode gives the
/// property White_Space.
pub open spec fn is_space(c: char) -> bool {
    let code = c as u32;
    ||| 0x09 <= code <= 0x0D
    ||| code == 0x20
    ||| code == 0x85
    ||| code == 0xA0
    ||| code == 0x1680
    ||| 0x2000 <= code <= 0x200A
    ||| code == 0x2028
    ||| code == 0x2029
    ||| code == 0x202F
    ||| code == 0x205F
    ||| code == 0x3000
}

/// What a scan looks for.
#[derive(Clone, Copy, Debug, PartialEq, Eq, Structural)]
pub enum Mark {
    /// A character that separates fields.
    Space,
    /// A character that belongs to a field.
    Ink,
    /// The character `-`.
    Dash,
    /// The character `/`.
    Slash,
}

impl Mark {
    /// Whether `c` is what this mark looks for.
    pub open spec fn fits(self, c: char) -> bool {
        match self {
            Mark::Space => is_space(c),
            Mark::Ink => !is_space(c),
            Mark::Dash => c == '-',
            Mark::Slash => c == '/',
        }
    }
}

/// The first position at or after `from` whose character fits `mark`, or the
/// length of `text` where there is none.
pub open spec fn first_at(text: Seq<char>, from: int, mark: Mark) -> int
    decreases text.len() - from,
{
    if from < 0 || from >= text.len() {
        text.len() as int
    } else if mark.fits(text[from]) {
        from
    } else {
        first_at(text, from + 1, mark)
    }
}

/// The value of a hexadecimal digit, in either case.
pub open spec fn hex_digit(c: char) -> Option<nat> {
    let code = c as u32;
    if 0x30 <= code <= 0x39 {
        Some((code - 0x30) as nat)
    } else if 0x41 <= code <= 0x46 {
        Some((code - 0x41 + 10) as nat)
    } else if 0x61 <= code <= 0x66 {
        Some((code - 0x61 + 10) as nat)
    } else {
        None
    }
}

/// Whether `digits` holds hexadecimal digits only.
pub open spec fn all_hex(digits: Seq<char>) -> bool {
    forall|i: int| 0 <= i < digits.len() ==> (#[trigger] hex_digit(digits[i])) is Some
}

/// The number that `digits` writes in base sixteen, most significant digit
/// first.
pub open spec fn hex_value(digits: Seq<char>) -> nat
    decreases digits.len(),
{
    if digits.len() == 0 {
        0
    } else {
        16 * hex_value(digits.drop_last()) + hex_digit(digits.last()).unwrap_or(0)
    }
}

/// The digits of `text`: what follows one leading `+`, or all of it.
pub open spec fn unsigned_part(text: Seq<char>) -> Seq<char> {
    if text.len() > 0 && text[0] == '+' {
        text.skip(1)
    } else {
        text
    }
}

/// The 64-bit number that `text` writes in base sixteen: an optional `+`,
/// then at least one digit and nothing else, with a value that fits.
pub open spec fn parse_hex(text: Seq<char>) -> Option<u64> {
    let digits = unsigned_part(text);
    if digits.len() > 0 && all_hex(digits) && hex_value(digits) <= u64::MAX {
        Some(hex_value(digits) as u64)
    } else {
        None
    }
}

/// A number only grows when digits are appended to it.
proof fn lemma_hex_value_grows(digits: Seq<char>, cut: int)
    requires
        0 <= cut <= digits.len(),
    ensures
        hex_value(digits.take(cut)) <= hex_value(digits),
    decreases digits.len() - cut,
{
    if cut < digits.len() {
        lemma_hex_value_grows(digits, cut + 1);
        assert(digits.take(cut + 1).drop_last() =~= digits.take(cut));
    } else {
        assert(digits.take(cut) =~= digits);
    }
}

/// What a search finds lies at or after the place it started from, fits the
/// mark unless it is the end of the text, and has nothing before it that
/// fits.
pub proof fn lemma_first_at_lower_bound(text: Seq<char>, from: int, mark: Mark)
    requires
        0 <= from <= text.len(),
    ensures
        from <= first_at(text, from, mark) <= text.len(),
        first_at(text, from, mark) < text.len() ==> mark.fits(
            text[first_at(text, from, mark)],
        ),
        forall|i: int| from <= i < first_at(text, from, mark) ==> !mark.fits(#[trigger] text[i]),
    decreases text.len() - from,
{
    if from < text.len() && !mark.fits(text[from]) {
        lemma_first_at_lower_bound(text, from + 1, mark);
    }
}

/// Searching a stretch of a text finds what searching the whole text from
/// the same place finds, cut off at the end of the stretch.
pub(crate) proof fn lemma_first_at_within(text: Seq<char>, from: int, to: int, mark: Mark)
    requires
        0 <= from <= to <= text.len(),
    ensures
        first_at(text.subrange(from, to), 0, mark) == if first_at(text, from, mark) < to {
            first_at(text, from, mark) - from
        } else {
            to - from
        },
{
    lemma_first_at_shifted(text, from, to, from, mark);
}

proof fn lemma_first_at_shifted(text: Seq<char>, from: int, to: int, at: int, mark: Mark)
    requires
        0 <= from <= at <= to <= text.len(),
    ensures
        first_at(text.subrange(from, to), at - from, mark) == if first_at(text, at, mark) < to {
            first_at(text, at, mark) - from
        } else {
            to - from
        },
    decreases to - at,
{
    if at < to {
        assert(text.subrange(from, to)[at - from] == text[at]);
        if !mark.fits(text[at]) {
            lemma_first_at_shifted(text, from, to, at + 1, mark);
        }
    } else {
        lemma_first_at_lower_bound(text, at, mark);
    }
}

/// The characters of `text`, one by one.
pub fn chars_of(text: &str) -> (chars: Vec<char>)
    ensures
        chars@ == text@,
{
    let mut chars: Vec<char> = Vec::new();
    for c in it: text.chars()
        invariant
            chars@ == it.seq().take(it.index() as int),
            it.seq() == text@,
    {
        chars.push(c);
    }
    chars
}

/// Whether `c` separates fields.
pub fn separates(c: char) -> (b: bool)
    ensures
        b == is_space(c),
{
    let code: u32 = c as u32;
    (0x09 <= code && code <= 0x0D) || code == 0x20 || code == 0x85 || code == 0xA0 || code
        == 0x1680 || (0x2000 <= code && code <= 0x200A) || code == 0x2028 || code == 0x2029 || code
        == 0x202F || code == 0x205F || code == 0x3000
}

/// The first position at or after `from` whose character fits `mark`, or the
/// length of `text`.
pub fn find(text: &Vec<char>, from: usize, mark: Mark) -> (at: usize)
    ensures
        at == first_at(text@, from as int, mark),
        from <= at <= text.len() || (from > text.len() && at == text.len()),
{
    let mut at: usize = from;
    while at < text.len()
        invariant
            from <= at,
            first_at(text@, from as int, mark) == first_at(text@, at as int, mark),
        decreases text.len() - at,
    {
        let c = text[at];
        let fits = match mark {
            Mark::Space => separates(c),
            Mark::Ink => !separates(c),
            Mark::Dash => c == '-',
            Mark::Slash => c == '/',
        };
        if fits {
            return at;
        }
        at += 1;
    }
    text.len()
}

/// The value of the hexadecimal digit `c`, if it is one.
pub fn digit_of(c: char) -> (d: Option<u64>)
    ensures
        match d {
            Some(v) => hex_digit(c) == Some(v as nat) && v < 16,
            None => hex_digit(c) is None,
        },
{
    let code: u32 = c as u32;
    if 0x30 <= code && code <= 0x39 {
        Some((code - 0x30) as u64)
    } else if 0x41 <= code && code <= 0x46 {
        Some((code - 0x41 + 10) as u64)
    } else if 0x61 <= code && code <= 0x66 {
        Some((code - 0x61 + 10) as u64)
    } else {
        None
    }
}

/// Reads the characters of `text` from `from` up to `to` as a 64-bit number
/// in base sixteen.
pub(crate) fn parse_hex_between(text: &Vec<char>, from: usize, to: usize) -> (number: Option<u64>)
    requires
        from <= to <= text.len(),
    ensures
        number == parse_hex(text@.subrange(from as int, to as int)),
{
    let ghost whole = text@.subrange(from as int, to as int);
    let first: usize = if from < to && text[from] == '+' {
        from + 1
    } else {
        from
    };
    let ghost digits = unsigned_part(whole);
    assert(digits =~= text@.subrange(first as int, to as int));
    if first == to {
        return None;
    }
    let mut value: u64 = 0;
    let mut at: usize = first;
    while at < to
        invariant
            from <= first <= at <= to <= text.len(),
            first < to,
            digits == text@.subrange(first as int, to as int),
            digits == unsigned_part(text@.subrange(from as int, to as int)),
            all_hex(digits.take(at - first)),
            value == hex_value(digits.take(at - first)),
        decreases to - at,
    {
        let ghost seen = digits.take(at - first);
        let ghost more = digits.take(at + 1 - first);
        proof {
            assert(more.drop_last() =~= seen);
            assert(more.last() == text@[at as int]);
            assert(digits[at - first] == text@[at as int]);
        }
        match digit_of(text[at]) {
            None => {
                assert(!all_hex(digits));
                return None;
            },
            Some(d) => {
                if value > (u64::MAX - d) / 16 {
                    proof {
                        lemma_hex_value_grows(digits, at + 1 - first);
                    }
                    return None;
                }
                value = value * 16 + d;
                proof {
                    assert forall|i: int| 0 <= i < more.len() implies (#[trigger] hex_digit(
                        more[i],
                    )) is Some by {
                        if i < seen.len() {
                            assert(more[i] == seen[i]);
                        }
                    }
                }
            },
        }
        at += 1;
    }
    assert(digits.take(at - first) =~= digits);
    Some(value)
}

/// Whether the characters of `a` from `a_from` up to `a_to` are those of `b`
/// from `b_from` up to `b_to`.
pub(crate) fn same_stretch(
    a: &Vec<char>,
    a_from: usize,
    a_to: usize,
    b: &Vec<char>,
    b_from: usize,
    b_to: usize,
) -> (same: bool)
    requires
        a_from <= a_to <= a.len(),
        b_from <= b_to <= b.len(),
    ensures
        same == (a@.subrange(a_from as int, a_to as int) == b@.subrange(
            b_from as int,
            b_to as int,
        )),
{
    let ghost left = a@.subrange(a_from as int, a_to as int);
    let ghost right = b@.subrange(b_from as int, b_to as int);
    if a_to - a_from != b_to - b_from {
        assert(left.len() != right.len());
        return false;
    }
    let mut i: usize = 0;
    while i < a_to - a_from
        invariant
            a_from <= a_to <= a.len(),
            b_from <= b_to <= b.len(),
            a_to - a_from == b_to - b_from,
            i <= a_to - a_from,
            left == a@.subrange(a_from as int, a_to as int),
            right == b@.subrange(b_from as int, b_to as int),
            forall|j: int| 0 <= j < i ==> left[j] == right[j],
        decreases a_to - a_from - i,
    {
        if a[a_from + i] != b[b_from + i] {
            assert(left[i as int] != right[i as int]);
            return false;
        }
        i += 1;
    }
    assert(left =~= right);
    true
}

/// The characters of `text` from `from` up to `to`.
pub(crate) fn copy_between(text: &Vec<char>, from: usize, to: usize) -> (copy: Vec<char>)
    requires
        from <= to <= text.len(),
    ensures
        copy@ == text@.subrange(from as int, to as int),
{
    let mut copy: Vec<char> = Vec::new();
    let mut at: usize = from;
    while at < to
        invariant
            from <= at <= to <= text.len(),
            copy@ == text@.subrange(from as int, at as int),
        decreases to - at,
    {
        copy.push(text[at]);
        proof {
            assert(copy@ =~= text@.subrange(from as int, at + 1));
        }
        at += 1;
    }
    copy
}

} // verus!
