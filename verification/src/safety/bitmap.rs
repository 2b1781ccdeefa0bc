//! Portable bitmaps, a bit to a pixel.
use vstd::arithmetic::power::{lemma_pow_increases, pow};
use vstd::prelude::*;

verus! {

/// The greatest width whose rows, rounded up to whole bytes, a decoder can count the pixels of in 32
/// bits.
pub const MAX_BITMAP_WIDTH: u32 = 0xffff_fff8;

/// A byte that separates the numbers of the header.
pub open spec fn is_separator(byte: u8) -> bool {
    9 <= byte <= 13 || byte == 0x20
}

/// The end of a line, which ends a comment.
pub open spec fn ends_comment(byte: u8) -> bool {
    byte == 0x0a || byte == 0x0d
}

/// The first word from the given place on, after what has been read of it: comments, which begin with
/// `#`, are left out, also from within the word. `live` says that the place is in no comment.
pub open spec fn word(data: Seq<u8>, at: int, live: bool, read: Seq<u8>) -> Seq<u8>
    decreases data.len() - at,
{
    if at >= data.len() {
        read
    } else if !live || data[at] == 0x23 {
        word(data, at + 1, ends_comment(data[at]), read)
    } else if !is_separator(data[at]) {
        word(data, at + 1, true, read.push(data[at]))
    } else if read.len() == 0 {
        word(data, at + 1, true, read)
    } else {
        read
    }
}

/// The number that digits stand for, if they are digits.
pub open spec fn digits(text: Seq<u8>) -> Option<nat>
    decreases text.len(),
{
    if text.len() == 0 {
        Some(0)
    } else {
        match digits(text.drop_last()) {
            Some(higher) => if 0x30 <= text.last() <= 0x39 {
                Some(10 * higher + (text.last() - 0x30) as nat)
            } else {
                None
            },
            None => None,
        }
    }
}

/// The number that a word stands for, if it does: its digits may come after a plus.
pub open spec fn number_in(text: Seq<u8>) -> Option<nat> {
    if text.len() > 0 && text[0] == 0x2b {
        digits(text.drop_first())
    } else {
        digits(text)
    }
}

/// A portable bitmap makes no decoder panic: the rows are not too wide. A decoder refuses a width of
/// more than 32 bits.
pub open spec fn bitmap_is_safe(data: Seq<u8>) -> bool {
    number_in(word(data, 2, true, Seq::empty())) matches Some(width) ==> !(MAX_BITMAP_WIDTH < width
        <= u32::MAX)
}

/// The first word after the name of the format.
fn first_word(data: &[u8]) -> (text: Vec<u8>)
    requires
        data@.len() >= 2,
    ensures
        text@ == word(data@, 2, true, Seq::empty()),
{
    let mut text: Vec<u8> = Vec::new();
    let mut at: usize = 2;
    let mut live: bool = true;
    while at < data.len()
        invariant
            at <= data@.len(),
            word(data@, 2, true, Seq::empty()) == word(data@, at as int, live, text@),
        decreases data.len() - at,
    {
        let byte: u8 = data[at];
        if !live || byte == 0x23 {
            live = byte == 0x0a || byte == 0x0d;
        } else if !separates(byte) {
            text.push(byte);
        } else if text.len() > 0 {
            return text;
        }
        at = at + 1;
    }
    text
}

/// Leading digits stand for no greater number than all of them.
proof fn lemma_digits_grow(text: Seq<u8>, count: int)
    requires
        0 <= count <= text.len(),
        digits(text) is Some,
    ensures
        digits(text.take(count)) is Some,
        digits(text.take(count))->Some_0 <= digits(text)->Some_0,
    decreases text.len(),
{
    if count == text.len() {
        assert(text.take(count) == text);
    } else {
        lemma_digits_grow(text.drop_last(), count);
        assert(text.drop_last().take(count) == text.take(count));
    }
}

/// The number that a word stands for, if it does and the number fits into 32 bits.
pub fn read_number(text: &[u8]) -> (number: Option<u64>)
    ensures
        match number {
            Some(value) => number_in(text@) == Some(value as nat) && value <= u32::MAX,
            None => number_in(text@) matches Some(value) ==> value > u32::MAX,
        },
{
    let start: usize = if text.len() > 0 && text[0] == 0x2b {
        1
    } else {
        0
    };
    let ghost rest = text@.skip(start as int);
    proof {
        if start == 1 {
            assert(rest == text@.drop_first());
        } else {
            assert(rest == text@);
        }
        assert(rest.take(0).len() == 0);
    }
    let mut value: u64 = 0;
    let mut i: usize = start;
    while i < text.len()
        invariant
            start <= i <= text@.len(),
            rest == text@.skip(start as int),
            number_in(text@) == digits(rest),
            value <= u32::MAX,
            digits(rest.take(i - start)) == Some(value as nat),
        decreases text.len() - i,
    {
        let byte: u8 = text[i];
        let ghost before = rest.take(i - start);
        let ghost after = rest.take(i - start + 1);
        proof {
            assert(after.drop_last() == before);
            assert(after.last() == byte);
            if digits(rest) is Some {
                lemma_digits_grow(rest, i - start + 1);
            }
        }
        if byte < 0x30 || byte > 0x39 {
            assert(digits(after) is None);
            return None;
        }
        value = 10 * value + (byte - 0x30) as u64;
        if value > u32::MAX as u64 {
            return None;
        }
        i = i + 1;
    }
    assert(rest.take(i - start) == rest);
    Some(value)
}

/// Whether a byte separates the numbers of the header.
pub fn separates(byte: u8) -> (yes: bool)
    ensures
        yes == is_separator(byte),
{
    (9 <= byte && byte <= 13) || byte == 0x20
}

/// Whether a portable bitmap makes no decoder panic.
pub fn check_bitmap(data: &[u8]) -> (safe: bool)
    requires
        data@.len() >= 2,
    ensures
        safe == bitmap_is_safe(data@),
{
    let text = first_word(data);
    match read_number(text.as_slice()) {
        Some(width) => width <= MAX_BITMAP_WIDTH as u64,
        None => true,
    }
}

/// Digits stand for a number of no more places than they are many.
proof fn lemma_digits_bounded(text: Seq<u8>)
    ensures
        digits(text) matches Some(value) ==> value < pow(10, text.len()),
    decreases text.len(),
{
    reveal(pow);
    if text.len() > 0 {
        lemma_digits_bounded(text.drop_last());
    }
}

/// A portable bitmap makes no decoder panic whose width is written in up to nine bytes.
pub proof fn law_bitmap_of_nine_digits_is_safe(data: Seq<u8>)
    requires
        word(data, 2, true, Seq::empty()).len() <= 9,
    ensures
        bitmap_is_safe(data),
{
    let text = word(data, 2, true, Seq::empty());
    lemma_digits_bounded(text);
    lemma_digits_bounded(text.drop_first());
    lemma_pow_increases(10, text.len(), 9);
    if text.len() > 0 {
        lemma_pow_increases(10, text.drop_first().len(), 9);
    }
    assert(pow(10, 9) == 1_000_000_000) by {
        reveal_with_fuel(pow, 10);
    }
}

} // verus!
