use thumbor::link::{decode_url, encode_url, sample_image_spec, test_url};
use thumbor::pb::filter::Filter as ColourFilter;
use thumbor::pb::resize::SampleFilter;
use thumbor::pb::Spec;

#[test]
fn url_is_encoded() {
    assert_eq!(encode_url("https://a.b/c?d=e&f"), "https%3A%2F%2Fa%2Eb%2Fc%3Fd%3De%26f");
    assert_eq!(encode_url("aZ09"), "aZ09");
    assert_eq!(encode_url("é~-_"), "%C3%A9%7E%2D%5F");
    assert_eq!(encode_url(""), "");
}

#[test]
fn url_is_decoded() {
    assert_eq!(decode_url("https%3A%2F%2Fa%2eb"), "https://a.b");
    assert_eq!(decode_url("plain/text?x"), "plain/text?x");
    assert_eq!(decode_url("100%"), "100%");
    assert_eq!(decode_url("%4"), "%4");
    assert_eq!(decode_url("%zz%41"), "%zzA");
    assert_eq!(decode_url("%%41"), "%A");
    assert_eq!(decode_url("%2541"), "%41");
    assert_eq!(decode_url("a+b"), "a+b");
    assert_eq!(decode_url("é"), "é");
}

#[test]
fn broken_text_is_decoded_with_losses() {
    assert_eq!(decode_url("a%FFb"), "a\u{fffd}b");
    assert_eq!(decode_url("%C3"), "\u{fffd}");
}

#[test]
fn decoding_undoes_encoding() {
    for url in ["", "a", "100% é/?#&=", "https://x.y/ü.png?w=1&h=%20", "\u{1f980}\n"] {
        let text = encode_url(url);
        assert!(text.chars().all(|c| c.is_ascii_alphanumeric() || c == '%'));
        assert_eq!(decode_url(&text), url);
    }
}

#[test]
fn test_url_line() {
    assert_eq!(
        test_url("CgkKBwj0AxCg", "http://x/y.png"),
        "test url: http://localhost:3000/image/CgkKBwj0AxCg/http%3A%2F%2Fx%2Fy%2Epng"
    );
}

#[test]
fn sample_steps() {
    assert_eq!(
        sample_image_spec().specs,
        vec![
            Spec::new_resize(500, 800, SampleFilter::CatmullRom),
            Spec::new_watermark(20, 20),
            Spec::new_filter(ColourFilter::Marine),
        ]
    );
}
