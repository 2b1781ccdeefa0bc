//! Addresses of images inside addresses: how they are written and how they are read back.
use crate::format::is_alphanumeric;
use crate::pb::filter::Filter;
use crate::pb::resize::SampleFilter;
use crate::pb::spec::Data;
use crate::pb::{ImageSpec, Spec};
use crate::text::joined;
use percent_encoding::{percent_decode_str, percent_encode, NON_ALPHANUMERIC};
use vstd::prelude::*;
use vstd::string::*;
use vstd::utf8::*;

verus! {

/// Whether a byte is a letter or a digit of ASCII.
pub open spec fn is_plain_byte(b: u8) -> bool {
    is_alphanumeric(b as char)
}

/// The hexadecimal digit, in capitals, of a number below sixteen.
pub open spec fn hex_digit(n: int) -> char {
    if n < 10 {
        (0x30 + n) as u8 as char
    } else {
        (0x37 + n) as u8 as char
    }
}

/// The number that a byte stands for as a hexadecimal digit, in capitals or not.
pub open spec fn hex_value(b: u8) -> Option<int> {
    if 0x30 <= b <= 0x39 {
        Some(b - 0x30)
    } else if 0x41 <= b <= 0x46 {
        Some(b - 0x37)
    } else if 0x61 <= b <= 0x66 {
        Some(b - 0x57)
    } else {
        None
    }
}

/// Bytes as text: letters and digits as they are, any other byte as a percent sign and two
/// hexadecimal digits.
pub open spec fn percent_encoded(bytes: Seq<u8>) -> Seq<char>
    decreases bytes.len(),
{
    if bytes.len() == 0 {
        Seq::empty()
    } else {
        let b = bytes.first();
        let head = if is_plain_byte(b) {
            seq![b as char]
        } else {
            seq!['%', hex_digit(b as int / 16), hex_digit(b as int % 16)]
        };
        head + percent_encoded(bytes.drop_first())
    }
}

/// The bytes that a percent-encoded text stands for: each percent sign with two hexadecimal digits
/// behind it becomes one byte, everything else stays.
pub open spec fn percent_decoded(text: Seq<u8>) -> Seq<u8>
    decreases text.len(),
{
    if text.len() == 0 {
        Seq::empty()
    } else if text[0] == 0x25 && text.len() >= 3 && hex_value(text[1]) is Some && hex_value(
        text[2],
    ) is Some {
        seq![(16 * hex_value(text[1])->Some_0 + hex_value(text[2])->Some_0) as u8]
            + percent_decoded(text.skip(3))
    } else {
        seq![text[0]] + percent_decoded(text.drop_first())
    }
}

/// The text that `PercentDecode::decode_utf8_lossy` makes of decoded bytes.
pub uninterp spec fn lossy_text(bytes: Seq<u8>) -> Seq<char>;

/// `percent_encoding::percent_encode` with the set `NON_ALPHANUMERIC` writes every byte but the
/// letters and digits of ASCII as a percent sign and two hexadecimal digits in capitals.
#[verifier::external_body]
fn encode_bytes(bytes: &[u8]) -> (text: String)
    ensures
        text@ == percent_encoded(bytes@),
{
    percent_encode(bytes, NON_ALPHANUMERIC).to_string()
}

/// `percent_encoding::percent_decode_str` undoes percent-encoding, and `decode_utf8_lossy` of what
/// it returns reads the bytes as UTF-8. Bytes that are valid UTF-8 are read as what they encode;
/// how many replacement characters stand for others is left to the name.
#[verifier::external_body]
fn decode_text(text: &str) -> (decoded: String)
    ensures
        decoded@ == lossy_text(percent_decoded(encode_utf8(text@))),
        valid_utf8(percent_decoded(encode_utf8(text@))) ==> decoded@ == decode_utf8(
            percent_decoded(encode_utf8(text@)),
        ),
{
    percent_decode_str(text).decode_utf8_lossy().into_owned()
}

/// Writes an address so that it can be one part of another address.
pub fn encode_url(url: &str) -> (text: String)
    ensures
        text@ == percent_encoded(encode_utf8(url@)),
{
    encode_bytes(url.as_bytes())
}

/// Reads an address that was one part of another address.
pub fn decode_url(text: &str) -> (url: String)
    ensures
        url@ == lossy_text(percent_decoded(encode_utf8(text@))),
        valid_utf8(percent_decoded(encode_utf8(text@))) ==> url@ == decode_utf8(
            percent_decoded(encode_utf8(text@)),
        ),
{
    decode_text(text)
}

/// The line that shows an address to try the server with: the image at `url`, edited as the encoded
/// steps say.
pub fn test_url(spec: &str, url: &str) -> (line: String)
    ensures
        line@ == "test url: http://localhost:3000/image/"@ + spec@ + "/"@ + percent_encoded(
            encode_utf8(url@),
        ),
{
    let mut line = joined("test url: http://localhost:3000/image/", spec);
    line.append("/");
    let image = encode_url(url);
    line.append(image.as_str());
    line
}

/// The steps that the address to try shows off: a resize, a watermark and a filter.
pub fn sample_image_spec() -> (request: ImageSpec)
    ensures
        request.specs@.len() == 3,
        request.specs@[0].data matches Some(Data::Resize(op)) && op.width == 500 && op.height == 800
            && op.rtype == crate::pb::resize::ResizeType::Normal.spec_code() && op.filter
            == SampleFilter::CatmullRom.spec_code() && op.rtype == 0 && op.filter == 3,
        request.specs@[1].data matches Some(Data::Watermark(op)) && op.x == 20 && op.y == 20,
        request.specs@[2].data matches Some(Data::Filter(op)) && op.filter
            == Filter::Marine.spec_code() && op.filter == 3,
{
    let mut specs: Vec<Spec> = Vec::new();
    specs.push(Spec::new_resize(500, 800, SampleFilter::CatmullRom));
    specs.push(Spec::new_watermark(20, 20));
    specs.push(Spec::new_filter(Filter::Marine));
    ImageSpec::new(specs)
}

/// The characters of an encoded text.
proof fn lemma_encoded_characters(bytes: Seq<u8>)
    ensures
        forall|i: int|
            0 <= i < percent_encoded(bytes).len() ==> #[trigger] percent_encoded(bytes)[i] == '%'
                || is_alphanumeric(percent_encoded(bytes)[i]),
    decreases bytes.len(),
{
    if bytes.len() > 0 {
        let rest = bytes.drop_first();
        let b = bytes.first();
        lemma_encoded_characters(rest);
        let whole = percent_encoded(bytes);
        let tail = percent_encoded(rest);
        let n = whole.len() - tail.len();
        assert forall|i: int| 0 <= i < whole.len() implies #[trigger] whole[i] == '%'
            || is_alphanumeric(whole[i]) by {
            if i >= n {
                assert(whole[i] == tail[i - n]);
            }
        }
    }
}

/// An encoded address consists of letters, digits and percent signs; so it holds no slash and
/// stays one part of the address around it.
pub proof fn law_encoded_is_one_part(url: Seq<char>)
    ensures
        forall|i: int|
            0 <= i < percent_encoded(encode_utf8(url)).len() ==> #[trigger] percent_encoded(
                encode_utf8(url),
            )[i] == '%' || is_alphanumeric(percent_encoded(encode_utf8(url))[i]),
        !percent_encoded(encode_utf8(url)).contains('/'),
{
    lemma_encoded_characters(encode_utf8(url));
}

/// Decoding the bytes of an encoded text gives the bytes that were encoded.
proof fn lemma_decode_encoded(bytes: Seq<u8>)
    ensures
        percent_decoded(percent_encoded(bytes).map_values(|c: char| c as u8)) == bytes,
    decreases bytes.len(),
{
    let whole = percent_encoded(bytes).map_values(|c: char| c as u8);
    if bytes.len() > 0 {
        let b = bytes.first();
        let rest = bytes.drop_first();
        let tail = percent_encoded(rest).map_values(|c: char| c as u8);
        lemma_decode_encoded(rest);
        assert(seq![b] + rest == bytes);
        if is_plain_byte(b) {
            assert(whole[0] == b);
            assert(whole.drop_first() == tail);
        } else {
            let high = b as int / 16;
            let low = b as int % 16;
            assert(whole[0] == 0x25);
            assert(whole[1] == hex_digit(high) as u8);
            assert(whole[2] == hex_digit(low) as u8);
            assert(whole.skip(3) == tail);
            assert(hex_value(hex_digit(high) as u8) == Some(high));
            assert(hex_value(hex_digit(low) as u8) == Some(low));
        }
    }
}

/// An address that was encoded is read back as it was.
pub proof fn law_decode_after_encode(url: Seq<char>)
    ensures
        ({
            let bytes = percent_decoded(encode_utf8(percent_encoded(encode_utf8(url))));
            valid_utf8(bytes) && decode_utf8(bytes) == url
        }),
{
    let text = percent_encoded(encode_utf8(url));
    lemma_encoded_characters(encode_utf8(url));
    assert(is_ascii_chars(text)) by {
        assert forall|i: int| 0 <= i < text.len() implies (0 <= #[trigger] text[i] as nat) && (
        text[i] as nat) < 128 by {
            assert(text[i] == '%' || is_alphanumeric(text[i]));
        }
    }
    is_ascii_chars_encode_utf8(text);
    assert(encode_utf8(text) == text.map_values(|c: char| c as u8));
    lemma_decode_encoded(encode_utf8(url));
    encode_utf8_valid_utf8(url);
    encode_utf8_decode_utf8(url);
}

/// Encoding goes byte by byte: two runs of bytes are encoded one after the other. A letter or a digit
/// of ASCII stays as it is; any other byte becomes a percent sign and two hexadecimal digits, in
/// capitals, the first for its sixteens and the second for the rest.
pub proof fn law_encoding_byte_by_byte(first: Seq<u8>, second: Seq<u8>, b: u8)
    ensures
        percent_encoded(Seq::empty()) == Seq::<char>::empty(),
        percent_encoded(first + second) == percent_encoded(first) + percent_encoded(second),
        0x30 <= b <= 0x39 || 0x41 <= b <= 0x5a || 0x61 <= b <= 0x7a ==> percent_encoded(seq![b])
            == seq![b as char],
        !(0x30 <= b <= 0x39 || 0x41 <= b <= 0x5a || 0x61 <= b <= 0x7a) ==> {
            let text = percent_encoded(seq![b]);
            let digits = seq![
                '0',
                '1',
                '2',
                '3',
                '4',
                '5',
                '6',
                '7',
                '8',
                '9',
                'A',
                'B',
                'C',
                'D',
                'E',
                'F',
            ];
            text == seq!['%', digits[b as int / 16], digits[b as int % 16]]
        },
    decreases first.len(),
{
    let single = seq![b];
    assert(single.first() == b);
    assert(single.drop_first() == Seq::<u8>::empty());
    assert(percent_encoded(single.drop_first()) == Seq::<char>::empty());
    if is_plain_byte(b) {
        assert(percent_encoded(single) == seq![b as char]);
    } else {
        assert(percent_encoded(single) == seq![
            '%',
            hex_digit(b as int / 16),
            hex_digit(b as int % 16),
        ]);
    }
    let all = first + second;
    if first.len() == 0 {
        assert(all == second);
        assert(percent_encoded(first) + percent_encoded(second) == percent_encoded(second));
    } else {
        law_encoding_byte_by_byte(first.drop_first(), second, b);
        assert(all.first() == first.first());
        assert(all.drop_first() == first.drop_first() + second);
        let rest = percent_encoded(first.drop_first()) + percent_encoded(second);
        if is_plain_byte(first.first()) {
            assert(percent_encoded(all) == percent_encoded(first) + percent_encoded(second));
        } else {
            assert(percent_encoded(all) == percent_encoded(first) + percent_encoded(second));
        }
    }
}

/// Decoding leaves alone what holds no percent sign, a plus sign too, and turns a percent sign with two
/// hexadecimal digits, in capitals or not, into the byte of that number. A percent sign without two
/// such digits behind it stays.
pub proof fn law_decoding(before: Seq<u8>, after: Seq<u8>, high: u8, low: u8)
    requires
        !before.contains(0x25),
    ensures
        percent_decoded(Seq::empty()) == Seq::<u8>::empty(),
        percent_decoded(before + after) == before + percent_decoded(after),
        ({
            let digit = |b: u8| 0x30 <= b <= 0x39 || 0x41 <= b <= 0x46 || 0x61 <= b <= 0x66;
            let value = |b: u8|
                if b <= 0x39 {
                    b - 0x30
                } else if b <= 0x46 {
                    b - 0x41 + 10
                } else {
                    b - 0x61 + 10
                };
            let text = seq![0x25u8, high, low] + after;
            &&& digit(high) && digit(low) ==> percent_decoded(text) == seq![
                (16 * value(high) + value(low)) as u8,
            ] + percent_decoded(after)
            &&& !digit(high) || !digit(low) ==> percent_decoded(text) == seq![0x25u8]
                + percent_decoded(seq![high, low] + after)
        }),
        percent_decoded(seq![0x25u8]) == seq![0x25u8],
        percent_decoded(seq![0x25u8, high]) == seq![0x25u8] + percent_decoded(seq![high]),
    decreases before.len(),
{
    let text = seq![0x25u8, high, low] + after;
    assert(text.skip(3) == after);
    assert(text.drop_first() == seq![high, low] + after);
    assert(seq![0x25u8].drop_first() == Seq::<u8>::empty());
    assert(percent_decoded(seq![0x25u8].drop_first()) == Seq::<u8>::empty());
    assert(seq![0x25u8] + Seq::<u8>::empty() == seq![0x25u8]);
    assert(seq![0x25u8, high].drop_first() == seq![high]);
    let all = before + after;
    if before.len() == 0 {
        assert(all == after);
        assert(before + percent_decoded(after) == percent_decoded(after));
    } else {
        let rest = before.drop_first();
        assert(before.contains(before[0]));
        assert(!rest.contains(0x25)) by {
            if rest.contains(0x25) {
                let i = choose|i: int| 0 <= i < rest.len() && rest[i] == 0x25;
                assert(before[i + 1] == 0x25);
            }
        }
        law_decoding(rest, after, high, low);
        assert(all.drop_first() == rest + after);
        assert(all[0] == before[0]);
        assert(seq![before[0]] + (rest + percent_decoded(after)) == before + percent_decoded(
            after,
        ));
    }
}

} // verus!
