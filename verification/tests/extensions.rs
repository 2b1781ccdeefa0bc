use std::path::Path;
use thumbor::format::{
    choose_extension, detect_upload_extension, extract_extension, image_format_extension,
    ImageFormat,
};

fn some(text: &str) -> Option<String> {
    Some(text.to_string())
}

#[test]
fn extension_of_plain_name() {
    assert_eq!(extract_extension("photo.JPG"), some("jpg"));
    assert_eq!(extract_extension("photo.png"), some("png"));
    assert_eq!(extract_extension("archive.tar.gz"), some("gz"));
    assert_eq!(extract_extension("a.MP4"), some("mp4"));
}

#[test]
fn extension_of_path() {
    assert_eq!(extract_extension("dir.d/photo.png"), some("png"));
    assert_eq!(extract_extension("dir.d/photo"), None);
    assert_eq!(extract_extension("photo.png/"), some("png"));
    assert_eq!(extract_extension("photo.png/."), some("png"));
    assert_eq!(extract_extension("photo.png/.."), None);
    assert_eq!(extract_extension("../../x.sh"), some("sh"));
}

#[test]
fn names_without_extension() {
    assert_eq!(extract_extension(""), None);
    assert_eq!(extract_extension("photo"), None);
    assert_eq!(extract_extension(".bashrc"), None);
    assert_eq!(extract_extension("photo."), None);
    assert_eq!(extract_extension(".."), None);
    assert_eq!(extract_extension("."), None);
    assert_eq!(extract_extension("/"), None);
}

#[test]
fn extension_is_trimmed() {
    assert_eq!(extract_extension("photo. png "), some("png"));
    assert_eq!(extract_extension("photo.\u{3000}PNG\u{a0}"), some("png"));
    assert_eq!(extract_extension("photo.  "), None);
}

#[test]
fn unfit_extensions_are_refused() {
    assert_eq!(extract_extension("photo.p-g"), None);
    assert_eq!(extract_extension("photo.p g"), None);
    assert_eq!(extract_extension("photo.é"), None);
    assert_eq!(extract_extension("photo.jpg\0"), None);
    assert_eq!(extract_extension("photo.jp\\g"), None);
}

#[test]
fn extension_agrees_with_path() {
    let names = [
        "", ".", "..", "...", "a", "a.", "a.b", ".a", ".a.b", "..a", "...a", "a..", "a..b", "/", "//",
        "/a.b", "a.b/", "a.b//", "a.b/.", "a.b/./", "a.b/..", "a.b/../c.d", "./a.b", "../a.b", "a/.b",
        "a/..b", "a/b.c.d", "ä.ö", "a.b/c", "a.b/c.", "./.", "./..", "..//", ".a/", "a.b/...", "x.Y9",
    ];
    for name in names {
        let expected = Path::new(name)
            .extension()
            .and_then(|ext| ext.to_str())
            .map(str::trim)
            .filter(|ext| !ext.is_empty())
            .map(|ext| ext.to_ascii_lowercase())
            .filter(|ext| ext.chars().all(|ch| ch.is_ascii_alphanumeric()));
        assert_eq!(extract_extension(name), expected, "{name:?}");
    }
}

#[test]
fn extension_of_each_format() {
    let words = [
        (ImageFormat::Jpeg, "jpg"),
        (ImageFormat::Png, "png"),
        (ImageFormat::Gif, "gif"),
        (ImageFormat::WebP, "webp"),
        (ImageFormat::Bmp, "bmp"),
        (ImageFormat::Tiff, "tiff"),
        (ImageFormat::Tga, "tga"),
        (ImageFormat::Pnm, "pnm"),
        (ImageFormat::Dds, "dds"),
        (ImageFormat::Ico, "ico"),
        (ImageFormat::Hdr, "hdr"),
        (ImageFormat::OpenExr, "exr"),
        (ImageFormat::Farbfeld, "ff"),
        (ImageFormat::Avif, "avif"),
        (ImageFormat::Qoi, "qoi"),
        (ImageFormat::Other, "bin"),
    ];
    for (format, word) in words {
        assert_eq!(image_format_extension(format), word);
        assert_eq!(choose_extension(None, Some(format)), word);
    }
}

#[test]
fn name_comes_before_format() {
    assert_eq!(choose_extension(Some("a.gif"), Some(ImageFormat::Png)), "gif");
    assert_eq!(choose_extension(Some("a"), Some(ImageFormat::Png)), "png");
    assert_eq!(choose_extension(Some("a.?"), None), "bin");
    assert_eq!(choose_extension(None, None), "bin");
}

#[test]
fn format_is_guessed_from_signature() {
    let cases: [(&[u8], &str); 15] = [
        (&[0x89, b'P', b'N', b'G', 0x0d, 0x0a, 0x1a, 0x0a], "png"),
        (&[0xff, 0xd8, 0xff, 0xe0], "jpg"),
        (b"GIF89a", "gif"),
        (b"GIF87a", "gif"),
        (b"RIFF\0\0\0\0WEBPVP8 ", "webp"),
        (b"BM\0\0", "bmp"),
        (b"MM\0*", "tiff"),
        (b"II*\0", "tiff"),
        (b"DDS ", "dds"),
        (&[0, 0, 1, 0], "ico"),
        (b"#?RADIANCE", "hdr"),
        (b"P6\n", "pnm"),
        (b"farbfeld", "ff"),
        (b"qoif", "qoi"),
        (&[0x76, 0x2f, 0x31, 0x01], "exr"),
    ];
    for (data, word) in cases {
        assert_eq!(detect_upload_extension(None, data), word);
        assert_eq!(detect_upload_extension(Some("noext"), data), word);
        assert_eq!(detect_upload_extension(Some("x.TXT"), data), "txt");
    }
    assert_eq!(detect_upload_extension(None, b"hello"), "bin");
    assert_eq!(detect_upload_extension(None, b""), "bin");
}

#[test]
fn stored_extension_is_plain() {
    for name in ["a.PNG", "a.p/g", "../..", "a. é", "a.\n", "x.y z", "a.JPEG"] {
        let word = detect_upload_extension(Some(name), b"");
        assert!(!word.is_empty());
        assert!(word.chars().all(|c| c.is_ascii_lowercase() || c.is_ascii_digit()));
    }
}
