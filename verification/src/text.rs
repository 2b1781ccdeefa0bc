//! Reading and writing the short texts that form fields, file names and messages are made of.
use vstd::arithmetic::power::{lemma_pow0, pow};
use vstd::prelude::*;
use vstd::string::*;
use vstd::utf8::*;

verus! {

/// `String::push` of the standard library appends the given character to the end of the text.
pub assume_specification[ String::push ](text: &mut String, c: char)
    ensures
        final(text)@ == old(text)@.push(c),
;

/// A request that is answered with status 400.
#[derive(Clone, Copy, Debug, PartialEq, Eq, Structural)]
pub struct BadRequest;

/// The characters with the Unicode property `White_Space`.
pub open spec fn is_white_space(c: char) -> bool {
    let code = c as u32;
    ||| 0x09 <= code <= 0x0d
    ||| code == 0x20
    ||| code == 0x85
    ||| code == 0xa0
    ||| code == 0x1680
    ||| 0x2000 <= code <= 0x200a
    ||| code == 0x2028
    ||| code == 0x2029
    ||| code == 0x202f
    ||| code == 0x205f
    ||| code == 0x3000
}

/// `text` without the white space at its two ends.
pub open spec fn trimmed(text: Seq<char>) -> Seq<char>
    decreases text.len(),
{
    if text.len() == 0 {
        text
    } else if is_white_space(text.first()) {
        trimmed(text.drop_first())
    } else if is_white_space(text.last()) {
        trimmed(text.drop_last())
    } else {
        text
    }
}

/// The number that a decimal digit stands for.
pub open spec fn digit_value(c: char) -> nat {
    (c as nat - '0' as nat) as nat
}

/// Whether `c` is one of the ten decimal digits.
pub open spec fn is_digit(c: char) -> bool {
    '0' <= c <= '9'
}

/// Whether `text` is a run of at least one decimal digit.
pub open spec fn is_decimal(text: Seq<char>) -> bool {
    text.len() > 0 && forall|i: int| 0 <= i < text.len() ==> is_digit(#[trigger] text[i])
}

/// The number that a run of decimal digits stands for.
pub open spec fn decimal_value(digits: Seq<char>) -> nat
    decreases digits.len(),
{
    if digits.len() == 0 {
        0
    } else {
        10 * decimal_value(digits.drop_last()) + digit_value(digits.last())
    }
}

/// `text` without the one plus sign that may lead a number.
pub open spec fn without_plus(text: Seq<char>) -> Seq<char> {
    if text.len() > 0 && text[0] == '+' {
        text.drop_first()
    } else {
        text
    }
}

/// The unsigned number of 32 bits that `text` stands for, if it stands for one.
pub open spec fn unsigned_value(text: Seq<char>) -> Option<u32> {
    let digits = without_plus(text);
    if is_decimal(digits) && decimal_value(digits) <= u32::MAX {
        Some(decimal_value(digits) as u32)
    } else {
        None
    }
}

/// The decimal digits of a number.
pub open spec fn decimal_text(n: nat) -> Seq<char>
    decreases n,
{
    let digit = ('0' as nat + n % 10) as char;
    if n < 10 {
        seq![digit]
    } else {
        decimal_text(n / 10).push(digit)
    }
}

/// What a form field holds once white space is trimmed: nothing, or a text.
pub open spec fn optional_text(text: Seq<char>) -> Option<Seq<char>> {
    if trimmed(text).len() == 0 {
        None
    } else {
        Some(trimmed(text))
    }
}

/// What a numeric form field holds: nothing, a number, or a text that is refused.
pub open spec fn optional_number(text: Seq<char>) -> Result<Option<u32>, BadRequest> {
    match optional_text(text) {
        None => Ok(None),
        Some(value) => match unsigned_value(value) {
            Some(number) => Ok(Some(number)),
            None => Err(BadRequest),
        },
    }
}

/// The words by which a form says that a box is ticked.
pub open spec fn is_tick(text: Seq<char>) -> bool {
    ||| text == "true"@
    ||| text == "1"@
    ||| text == "on"@
    ||| text == "yes"@
}

/// Whether the two texts consist of the same characters.
pub fn same_text(a: &str, b: &str) -> (same: bool)
    ensures
        same == (a@ == b@),
{
    broadcast use encode_utf8_decode_utf8;

    let left = a.as_bytes();
    let right = b.as_bytes();
    assert(decode_utf8(left@) == a@);
    assert(decode_utf8(right@) == b@);
    if left.len() != right.len() {
        return false;
    }
    let mut i: usize = 0;
    while i < left.len()
        invariant
            i <= left.len(),
            left@.len() == right@.len(),
            left@ == encode_utf8(a@),
            right@ == encode_utf8(b@),
            forall|j: int| 0 <= j < i ==> left@[j] == right@[j],
        decreases left.len() - i,
    {
        if left[i] != right[i] {
            return false;
        }
        i = i + 1;
    }
    assert(left@ =~= right@);
    true
}

/// The characters of a text, one by one.
pub fn chars_of(text: &str) -> (chars: Vec<char>)
    ensures
        chars@ == text@,
{
    let mut chars: Vec<char> = Vec::new();
    for c in it: text.chars()
        invariant
            it.seq() == text@,
            chars@ == text@.take(it.index() as int),
    {
        chars.push(c);
    }
    assert(text@.take(text@.len() as int) == text@);
    chars
}

/// Whether `c` is white space.
pub fn white_space(c: char) -> (white: bool)
    ensures
        white == is_white_space(c),
{
    let code: u32 = c as u32;
    (0x09 <= code && code <= 0x0d) || code == 0x20 || code == 0x85 || code == 0xa0 || code == 0x1680
        || (0x2000 <= code && code <= 0x200a) || code == 0x2028 || code == 0x2029 || code == 0x202f
        || code == 0x205f || code == 0x3000
}

/// The text without the white space at its two ends.
pub fn trim(text: &str) -> (inner: &str)
    ensures
        inner@ == trimmed(text@),
{
    let chars = chars_of(text);
    let mut start: usize = 0;
    assert(text@.subrange(0, text@.len() as int) == text@);
    while start < chars.len() && white_space(chars[start])
        invariant
            chars@ == text@,
            start <= chars.len(),
            trimmed(text@) == trimmed(text@.subrange(start as int, text@.len() as int)),
        decreases chars.len() - start,
    {
        assert(text@.subrange(start as int, text@.len() as int).drop_first() == text@.subrange(
            start + 1,
            text@.len() as int,
        ));
        start = start + 1;
    }
    let mut end: usize = chars.len();
    while end > start && white_space(chars[end - 1])
        invariant
            chars@ == text@,
            start <= end <= chars.len(),
            start < end ==> !is_white_space(text@[start as int]),
            trimmed(text@) == trimmed(text@.subrange(start as int, end as int)),
        decreases end,
    {
        assert(text@.subrange(start as int, end as int).drop_last() == text@.subrange(
            start as int,
            end - 1,
        ));
        end = end - 1;
    }
    text.substring_char(start, end)
}

/// Reads a form field that holds a text: blank means absent.
pub fn parse_optional_string(text: &str) -> (value: Option<String>)
    ensures
        match value {
            Some(inner) => optional_text(text@) == Some(inner@),
            None => optional_text(text@) is None,
        },
{
    let inner = trim(text);
    if inner.is_empty() {
        None
    } else {
        Some(inner.to_owned())
    }
}

/// A longer run of digits stands for a number that is no smaller.
proof fn lemma_decimal_value_grows(digits: Seq<char>, n: int)
    requires
        0 <= n <= digits.len(),
    ensures
        decimal_value(digits.take(n)) <= decimal_value(digits),
    decreases digits.len() - n,
{
    if n < digits.len() {
        lemma_decimal_value_grows(digits, n + 1);
        assert(digits.take(n + 1).drop_last() == digits.take(n));
    } else {
        assert(digits.take(n) == digits);
    }
}

/// Reads an unsigned number of 32 bits: decimal digits, after one plus sign at most.
pub fn parse_unsigned(text: &str) -> (number: Option<u32>)
    ensures
        number == unsigned_value(text@),
{
    let chars = chars_of(text);
    let start: usize = if chars.len() > 0 && chars[0] == '+' {
        1
    } else {
        0
    };
    let ghost digits = without_plus(text@);
    assert(digits == text@.subrange(start as int, text@.len() as int));
    if start == chars.len() {
        return None;
    }
    let mut number: u32 = 0;
    let mut i: usize = start;
    while i < chars.len()
        invariant
            chars@ == text@,
            start <= i <= chars.len(),
            digits == text@.subrange(start as int, text@.len() as int),
            digits == without_plus(text@),
            forall|j: int| 0 <= j < i - start ==> is_digit(#[trigger] digits[j]),
            number == decimal_value(digits.take(i - start)),
        decreases chars.len() - i,
    {
        let c = chars[i];
        assert(c == digits[i - start]);
        if !('0' <= c && c <= '9') {
            return None;
        }
        proof {
            assert(digits.take(i - start + 1).drop_last() == digits.take(i - start));
            lemma_decimal_value_grows(digits, i - start + 1);
        }
        let digit: u32 = c as u32 - '0' as u32;
        match number.checked_mul(10) {
            Some(tens) => match tens.checked_add(digit) {
                Some(sum) => {
                    number = sum;
                },
                None => {
                    return None;
                },
            },
            None => {
                return None;
            },
        }
        i = i + 1;
    }
    assert(digits.take(digits.len() as int) == digits);
    Some(number)
}

/// Reads a form field that holds a number: blank means absent, and a text that is no number is
/// refused.
pub fn parse_optional_u32(text: &str) -> (value: Result<Option<u32>, BadRequest>)
    ensures
        value == optional_number(text@),
{
    match parse_optional_string(text) {
        Some(inner) => match parse_unsigned(inner.as_str()) {
            Some(number) => Ok(Some(number)),
            None => Err(BadRequest),
        },
        None => Ok(None),
    }
}

/// Reads a form field that holds a tick box: ticked by one of four words, and by nothing else.
pub fn parse_checkbox(text: &str) -> (ticked: bool)
    ensures
        ticked == is_tick(trimmed(text@)),
{
    match parse_optional_string(text) {
        Some(inner) => {
            let word = inner.as_str();
            same_text(word, "true") || same_text(word, "1") || same_text(word, "on") || same_text(
                word,
                "yes",
            )
        },
        None => {
            proof {
                reveal_strlit("true");
                reveal_strlit("1");
                reveal_strlit("on");
                reveal_strlit("yes");
            }
            false
        },
    }
}

/// Writes a number in decimal digits.
pub fn decimal(n: u64) -> (digits: String)
    ensures
        digits@ == decimal_text(n as nat),
    decreases n,
{
    let mut digits = if n < 10 {
        String::new()
    } else {
        decimal(n / 10)
    };
    let digit: u8 = 0x30 + (n % 10) as u8;
    digits.push(digit as char);
    assert(digits@ =~= decimal_text(n as nat));
    digits
}

/// Joins two texts.
pub fn joined(a: &str, b: &str) -> (both: String)
    ensures
        both@ == a@ + b@,
{
    let mut both = a.to_owned();
    both.append(b);
    both
}

/// Reading the digits of a number gives the number back.
pub proof fn law_decimal_round_trip(n: nat)
    ensures
        is_decimal(decimal_text(n)),
        decimal_value(decimal_text(n)) == n,
    decreases n,
{
    let digit = ('0' as nat + n % 10) as char;
    if n < 10 {
        assert(decimal_text(n) == seq![digit]);
        assert(decimal_text(n).drop_last() == Seq::<char>::empty());
        assert(decimal_value(Seq::<char>::empty()) == 0);
        assert(digit_value(digit) == n);
    } else {
        law_decimal_round_trip(n / 10);
        assert(decimal_text(n).drop_last() == decimal_text(n / 10));
        assert(decimal_text(n).last() == digit);
    }
}

/// A numeric form field that holds the digits of a number is read as that number.
pub proof fn law_number_read_back(n: u32)
    ensures
        optional_number(decimal_text(n as nat)) == Ok::<Option<u32>, BadRequest>(Some(n)),
{
    let digits = decimal_text(n as nat);
    law_decimal_round_trip(n as nat);
    assert(is_digit(digits[0]));
    assert(is_digit(digits[digits.len() - 1]));
    assert(trimmed(digits) == digits);
}

/// Trimming a text that was trimmed changes nothing.
pub proof fn law_trimmed_twice(text: Seq<char>)
    ensures
        trimmed(trimmed(text)) == trimmed(text),
    decreases text.len(),
{
    if text.len() > 0 {
        if is_white_space(text.first()) {
            law_trimmed_twice(text.drop_first());
        } else if is_white_space(text.last()) {
            law_trimmed_twice(text.drop_last());
        }
    }
}

/// The white space of ASCII is the space, the tab, the vertical tab, the form feed, the line feed and
/// the carriage return; no other character of ASCII is.
pub proof fn law_white_space_of_ascii(c: char)
    requires
        (c as u32) < 128,
    ensures
        is_white_space(c) <==> c == ' ' || c == '\t' || c == '\u{b}' || c == '\u{c}' || c == '\n' || c
            == '\r',
{
}

/// Beyond ASCII, white space is the next line, the no-break space, the ogham space, the spaces of
/// the general punctuation, the line and the paragraph separator, the narrow no-break space, the
/// mathematical space and the ideographic space. The zero-width spaces are none.
pub proof fn law_white_space_beyond_ascii(c: char)
    requires
        (c as u32) >= 128,
    ensures
        is_white_space(c) <==> c == '\u{85}' || c == '\u{a0}' || c == '\u{1680}' || c == '\u{2000}' || c
            == '\u{2001}' || c == '\u{2002}' || c == '\u{2003}' || c == '\u{2004}' || c == '\u{2005}'
            || c == '\u{2006}' || c == '\u{2007}' || c == '\u{2008}' || c == '\u{2009}' || c
            == '\u{200a}' || c == '\u{2028}' || c == '\u{2029}' || c == '\u{202f}' || c == '\u{205f}'
            || c == '\u{3000}',
{
}

/// Every character of the text is white space.
pub open spec fn is_blank(text: Seq<char>) -> bool {
    forall|i: int| 0 <= i < text.len() ==> is_white_space(#[trigger] text[i])
}

/// A text is what trimming leaves of it, with white space before and behind; what is left neither
/// begins nor ends with white space.
pub proof fn law_trimmed_is_the_middle(text: Seq<char>)
    ensures
        exists|front: Seq<char>, back: Seq<char>|
            #![trigger is_blank(front), is_blank(back)]
            is_blank(front) && is_blank(back) && text == front + trimmed(text) + back,
        trimmed(text).len() > 0 ==> !is_white_space(trimmed(text).first()) && !is_white_space(
            trimmed(text).last(),
        ),
    decreases text.len(),
{
    let none = Seq::<char>::empty();
    assert(is_blank(none));
    if text.len() == 0 {
        assert(text == none + trimmed(text) + none);
    } else if is_white_space(text.first()) {
        let rest = text.drop_first();
        law_trimmed_is_the_middle(rest);
        let (front, back) = choose|front: Seq<char>, back: Seq<char>|
            #![trigger is_blank(front), is_blank(back)]
            is_blank(front) && is_blank(back) && rest == front + trimmed(rest) + back;
        let wider = seq![text.first()] + front;
        assert(is_blank(wider)) by {
            assert forall|i: int| 0 <= i < wider.len() implies is_white_space(
                #[trigger] wider[i],
            ) by {
                if i > 0 {
                    assert(wider[i] == front[i - 1]);
                }
            }
        }
        assert(text == seq![text.first()] + rest);
        assert(text == wider + trimmed(text) + back);
    } else if is_white_space(text.last()) {
        let rest = text.drop_last();
        law_trimmed_is_the_middle(rest);
        let (front, back) = choose|front: Seq<char>, back: Seq<char>|
            #![trigger is_blank(front), is_blank(back)]
            is_blank(front) && is_blank(back) && rest == front + trimmed(rest) + back;
        let wider = back + seq![text.last()];
        assert(is_blank(wider)) by {
            assert forall|i: int| 0 <= i < wider.len() implies is_white_space(
                #[trigger] wider[i],
            ) by {
                if i < back.len() {
                    assert(wider[i] == back[i]);
                }
            }
        }
        assert(text == rest + seq![text.last()]);
        assert(text == front + trimmed(text) + wider);
    } else {
        assert(text == none + trimmed(text) + none);
    }
}

/// White space before and behind a text makes no difference to what trimming leaves of it; of white
/// space alone nothing is left.
pub proof fn law_padding_is_trimmed(front: Seq<char>, text: Seq<char>, back: Seq<char>)
    requires
        is_blank(front),
        is_blank(back),
    ensures
        trimmed(front + text + back) == trimmed(text),
        trimmed(front) == Seq::<char>::empty(),
    decreases front.len() + text.len() + back.len(),
{
    let all = front + text + back;
    if front.len() > 0 {
        let rest = front.drop_first();
        assert(is_blank(rest)) by {
            assert forall|i: int| 0 <= i < rest.len() implies is_white_space(#[trigger] rest[i]) by {
                assert(rest[i] == front[i + 1]);
            }
        }
        assert(is_white_space(front[0]));
        assert(all.first() == front[0]);
        assert(all.drop_first() == rest + text + back);
        law_padding_is_trimmed(rest, text, back);
    } else if back.len() > 0 && text.len() > 0 {
        assert(all.last() == back.last());
        assert(is_white_space(back[back.len() - 1]));
        if is_white_space(text.first()) {
            let rest = text.drop_first();
            assert(all.first() == text.first());
            assert(all.drop_first() == front + rest + back);
            law_padding_is_trimmed(front, rest, back);
        } else {
            let rest = back.drop_last();
            assert(is_blank(rest)) by {
                assert forall|i: int| 0 <= i < rest.len() implies is_white_space(
                    #[trigger] rest[i],
                ) by {
                    assert(rest[i] == back[i]);
                }
            }
            assert(all.first() == text.first());
            assert(all.drop_last() == front + text + rest);
            law_padding_is_trimmed(front, text, rest);
        }
    } else if back.len() > 0 {
        assert(all == back);
        let rest = back.drop_first();
        assert(is_blank(rest)) by {
            assert forall|i: int| 0 <= i < rest.len() implies is_white_space(#[trigger] rest[i]) by {
                assert(rest[i] == back[i + 1]);
            }
        }
        assert(is_white_space(back[0]));
        assert(all.drop_first() == front + text + rest);
        law_padding_is_trimmed(front, text, rest);
    } else {
        assert(all == text);
    }
}

/// A run of digits is read to base ten: put before another run, it counts for as many times ten as
/// that run has digits, and a single digit counts for its distance from the digit zero.
pub proof fn law_decimal_places(front: Seq<char>, back: Seq<char>, digit: char)
    ensures
        decimal_value(front + back) == decimal_value(front) * pow(10, back.len()) + decimal_value(
            back,
        ),
        is_digit(digit) <==> 0x30 <= digit as u32 <= 0x39,
        is_digit(digit) ==> decimal_value(seq![digit]) == digit as int - 0x30,
    decreases back.len(),
{
    assert(seq![digit].drop_last() == Seq::<char>::empty());
    assert(decimal_value(Seq::<char>::empty()) == 0);
    assert(seq![digit].last() == digit);
    let all = front + back;
    if back.len() == 0 {
        assert(all == front);
        lemma_pow0(10);
    } else {
        let rest = back.drop_last();
        assert(all.drop_last() == front + rest);
        assert(all.last() == back.last());
        law_decimal_places(front, rest, digit);
        let tens = pow(10, rest.len());
        assert(pow(10, back.len()) == 10 * tens) by {
            reveal(pow);
        }
        let value = decimal_value(front);
        assert(10 * (value * tens) == value * (10 * tens)) by (nonlinear_arith);
    }
}

/// The digits of a number do not begin with a zero, unless the number is zero.
pub proof fn law_no_leading_zero(n: nat)
    ensures
        decimal_text(n).len() > 0,
        decimal_text(n)[0] == '0' ==> n == 0 && decimal_text(n).len() == 1,
    decreases n,
{
    if n >= 10 {
        law_no_leading_zero(n / 10);
        assert(decimal_text(n)[0] == decimal_text(n / 10)[0]);
    }
}

/// A numeric form field that holds digits is read as the number that they stand for if it fits into 32
/// bits, and refused if it does not, whatever white space is around them, however many zeros they
/// begin with, and with one plus sign before them or none.
pub proof fn law_digits_are_read(front: Seq<char>, digits: Seq<char>, back: Seq<char>)
    requires
        is_blank(front),
        is_blank(back),
        is_decimal(digits),
    ensures
        ({
            let read = if decimal_value(digits) < 0x1_0000_0000 {
                Ok::<Option<u32>, BadRequest>(Some(decimal_value(digits) as u32))
            } else {
                Err::<Option<u32>, BadRequest>(BadRequest)
            };
            &&& optional_number(front + digits + back) == read
            &&& optional_number(front + (seq!['+'] + digits) + back) == read
        }),
{
    let signed = seq!['+'] + digits;
    law_padding_is_trimmed(front, digits, back);
    law_padding_is_trimmed(front, signed, back);
    assert(is_digit(digits[0]));
    assert(is_digit(digits[digits.len() - 1]));
    assert(signed.last() == digits.last());
    assert(trimmed(digits) == digits);
    assert(trimmed(signed) == signed);
    assert(without_plus(digits) == digits);
    assert(without_plus(signed) == digits);
}

/// A numeric form field is read as no number exactly if it is blank, and as a number only if it holds,
/// but for white space around and one plus sign before them, digits that stand for that number.
/// Anything else is refused.
pub proof fn law_only_digits_are_read(text: Seq<char>)
    ensures
        optional_number(text) == Ok::<Option<u32>, BadRequest>(None) <==> is_blank(text),
        optional_number(text) matches Ok(Some(number)) ==> exists|digits: Seq<char>| #[trigger]
            is_decimal(digits) && decimal_value(digits) == number && (trimmed(text) == digits
                || trimmed(text) == seq!['+'] + digits),
{
    law_blank_text_is_none(text);
    if let Ok(Some(number)) = optional_number(text) {
        let value = trimmed(text);
        let digits = without_plus(value);
        assert(is_decimal(digits));
        if value[0] == '+' {
            assert(value == seq!['+'] + digits);
        }
    }
}

/// A form field that holds a text is read as none exactly if it is blank, and else as the text without
/// the white space around it.
pub proof fn law_blank_text_is_none(text: Seq<char>)
    ensures
        optional_text(text) is None <==> is_blank(text),
        !is_blank(text) ==> optional_text(text) == Some(trimmed(text)),
{
    if is_blank(text) {
        law_padding_is_trimmed(text, Seq::empty(), Seq::empty());
    }
    if trimmed(text).len() == 0 {
        law_trimmed_is_the_middle(text);
        let (front, back) = choose|front: Seq<char>, back: Seq<char>|
            #![trigger is_blank(front), is_blank(back)]
            is_blank(front) && is_blank(back) && text == front + trimmed(text) + back;
        assert forall|i: int| 0 <= i < text.len() implies is_white_space(#[trigger] text[i]) by {
            if i < front.len() {
                assert(text[i] == front[i]);
            } else {
                assert(text[i] == back[i - front.len()]);
            }
        }
    }
}

/// A tick box counts as ticked exactly by four words in small letters, whatever white space is around
/// them.
pub proof fn law_tick_words(front: Seq<char>, word: Seq<char>, back: Seq<char>)
    requires
        is_blank(front),
        is_blank(back),
        word.len() > 0 ==> !is_white_space(word.first()) && !is_white_space(word.last()),
    ensures
        is_tick(trimmed(front + word + back)) <==> {
            ||| word == seq!['t', 'r', 'u', 'e']
            ||| word == seq!['1']
            ||| word == seq!['o', 'n']
            ||| word == seq!['y', 'e', 's']
        },
{
    reveal_strlit("true");
    reveal_strlit("1");
    reveal_strlit("on");
    reveal_strlit("yes");
    law_padding_is_trimmed(front, word, back);
    assert(trimmed(word) == word);
    assert("true"@ == seq!['t', 'r', 'u', 'e']);
    assert("1"@ == seq!['1']);
    assert("on"@ == seq!['o', 'n']);
    assert("yes"@ == seq!['y', 'e', 's']);
}

} // verus!
