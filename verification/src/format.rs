//! Image file formats: how they are recognised and which extension a stored file gets.
use crate::text::{chars_of, is_blank, is_white_space, law_padding_is_trimmed, trim, trimmed};
use image::ImageFormat as Known;
use vstd::prelude::*;
use vstd::string::*;

verus! {

/// A format of image files.
#[derive(Clone, Copy, Debug, PartialEq, Eq, Structural)]
pub enum ImageFormat {
    Png,
    Jpeg,
    Gif,
    WebP,
    Pnm,
    Tiff,
    Tga,
    Dds,
    Bmp,
    Ico,
    Hdr,
    OpenExr,
    Farbfeld,
    Avif,
    Qoi,
    Other,
}

/// An image of the given size can be written in the format, with an alpha channel where the format
/// has one: there is an encoder that takes pixels of four bytes, and the file can say how large the
/// image is and where each part of it stands.
pub open spec fn can_hold(format: ImageFormat, width: u32, height: u32) -> bool {
    match format {
        ImageFormat::Png => 1 <= width && 1 <= height,
        ImageFormat::Jpeg => 1 <= width <= 65535 && 1 <= height <= 65535,
        ImageFormat::Gif => width <= 65535 && height <= 65535,
        ImageFormat::WebP => 1 <= width <= 16384 && 1 <= height <= 16384,
        ImageFormat::Pnm => true,
        ImageFormat::Tiff => 1 <= width && 1 <= height && 4 * (width * height) + 8 * height + 1024
            <= u32::MAX,
        ImageFormat::Tga => 1 <= width <= 65535 && 1 <= height <= 65535,
        ImageFormat::Bmp => 4 * width <= u32::MAX && 4 * (width * height) + 122 <= u32::MAX,
        ImageFormat::Ico => 1 <= width <= 256 && 1 <= height <= 256,
        ImageFormat::Qoi => 1 <= width * height <= 400_000_000,
        _ => false,
    }
}

/// An image becomes the same file in the format on every machine: what is written depends neither on
/// its byte order nor on what its processor can do.
pub open spec fn written_alike(format: ImageFormat) -> bool {
    match format {
        ImageFormat::Jpeg => true,
        ImageFormat::Pnm => true,
        ImageFormat::Tga => true,
        ImageFormat::Bmp => true,
        _ => false,
    }
}

/// Whether an image of the given size can be written in the format.
pub fn holds(format: ImageFormat, width: u32, height: u32) -> (yes: bool)
    ensures
        yes == can_hold(format, width, height),
{
    assert(0 <= width * height <= 0xffff_ffff * 0xffff_ffff) by (nonlinear_arith)
        requires
            0 <= width <= 0xffff_ffff,
            0 <= height <= 0xffff_ffff,
    ;
    let area: u128 = (width as u64 * height as u64) as u128;
    let most: u128 = u32::MAX as u128;
    match format {
        ImageFormat::Png => 1 <= width && 1 <= height,
        ImageFormat::Jpeg => 1 <= width && width <= 65535 && 1 <= height && height <= 65535,
        ImageFormat::Gif => width <= 65535 && height <= 65535,
        ImageFormat::WebP => 1 <= width && width <= 16384 && 1 <= height && height <= 16384,
        ImageFormat::Pnm => true,
        ImageFormat::Tiff => 1 <= width && 1 <= height && 4 * area + 8 * height as u128 + 1024 <= most,
        ImageFormat::Tga => 1 <= width && width <= 65535 && 1 <= height && height <= 65535,
        ImageFormat::Bmp => 4 * width as u128 <= most && 4 * area + 122 <= most,
        ImageFormat::Ico => 1 <= width && width <= 256 && 1 <= height && height <= 256,
        ImageFormat::Qoi => 1 <= area && area <= 400_000_000,
        _ => false,
    }
}

/// Which sizes a JPEG, GIF, TGA, WebP, icon or PNG file can say, and which of the formats without
/// such a bound write an image of a given size: a portable map any, a QOI file one of up to 400
/// million pixels, a bitmap and a TIFF file one whose places can be told in 32 bits. The formats that
/// are not named here are not written.
pub proof fn law_sizes_that_formats_hold(width: u32, height: u32)
    ensures
        can_hold(ImageFormat::Jpeg, width, height) <==> 1 <= width < 65536 && 1 <= height < 65536,
        can_hold(ImageFormat::Tga, width, height) <==> 1 <= width < 65536 && 1 <= height < 65536,
        can_hold(ImageFormat::Gif, width, height) <==> width < 65536 && height < 65536,
        can_hold(ImageFormat::WebP, width, height) <==> 1 <= width <= 0x4000 && 1 <= height
            <= 0x4000,
        can_hold(ImageFormat::Ico, width, height) <==> 1 <= width <= 0x100 && 1 <= height <= 0x100,
        can_hold(ImageFormat::Png, width, height) <==> width != 0 && height != 0,
        can_hold(ImageFormat::Pnm, width, height),
        can_hold(ImageFormat::Qoi, width, height) <==> 0 < width * height <= 400 * 1000 * 1000,
        can_hold(ImageFormat::Bmp, width, height) <==> width < 0x4000_0000 && 4 * (width * height)
            < 0x1_0000_0000 - 122,
        can_hold(ImageFormat::Tiff, width, height) <==> width != 0 && height != 0 && 4 * (width
            * height) + 8 * height < 0x1_0000_0000 - 1024,
        !can_hold(ImageFormat::Dds, width, height),
        !can_hold(ImageFormat::Hdr, width, height),
        !can_hold(ImageFormat::OpenExr, width, height),
        !can_hold(ImageFormat::Farbfeld, width, height),
        !can_hold(ImageFormat::Avif, width, height),
        !can_hold(ImageFormat::Other, width, height),
{
}

/// The format that `image::guess_format` recognises by the first bytes of a file.
pub uninterp spec fn guessed_format(data: Seq<u8>) -> Option<ImageFormat>;

/// `image::guess_format` looks for the signature of a format at the start of the bytes, and is
/// silent where it knows none. The bytes alone determine what it says.
#[verifier::external_body]
pub(crate) fn guess_format(data: &[u8]) -> (format: Option<ImageFormat>)
    ensures
        format == guessed_format(data@),
{
    image::guess_format(data).ok().map(|known| match known {
        Known::Png => ImageFormat::Png, Known::Jpeg => ImageFormat::Jpeg,
        Known::Gif => ImageFormat::Gif, Known::WebP => ImageFormat::WebP,
        Known::Pnm => ImageFormat::Pnm, Known::Tiff => ImageFormat::Tiff,
        Known::Tga => ImageFormat::Tga, Known::Dds => ImageFormat::Dds,
        Known::Bmp => ImageFormat::Bmp, Known::Ico => ImageFormat::Ico,
        Known::Hdr => ImageFormat::Hdr, Known::OpenExr => ImageFormat::OpenExr,
        Known::Farbfeld => ImageFormat::Farbfeld, Known::Avif => ImageFormat::Avif,
        Known::Qoi => ImageFormat::Qoi, _ => ImageFormat::Other,
    })
}

/// The part of `text` after the last `mark`; all of it where there is none.
pub open spec fn after_last(text: Seq<char>, mark: char) -> Seq<char>
    decreases text.len(),
{
    if text.len() == 0 || text.last() == mark {
        Seq::empty()
    } else {
        after_last(text.drop_last(), mark).push(text.last())
    }
}

/// The name of the file that a path leads to: its last part, where parts are separated by slashes,
/// slashes at the end and parts that are a single dot do not count, and two dots lead nowhere.
pub open spec fn file_name(path: Seq<char>) -> Option<Seq<char>>
    decreases path.len(),
{
    if path.len() == 0 {
        None
    } else if path.last() == '/' {
        file_name(path.drop_last())
    } else {
        let name = after_last(path, '/');
        if name == seq!['.'] {
            file_name(path.drop_last())
        } else if name == seq!['.', '.'] {
            None
        } else {
            Some(name)
        }
    }
}

/// The extension of a file name: what follows its last dot. A name without a dot has none, nor has
/// one whose only dot comes first.
pub open spec fn extension(name: Seq<char>) -> Option<Seq<char>> {
    let tail = after_last(name, '.');
    if tail.len() + 1 < name.len() {
        Some(tail)
    } else {
        None
    }
}

/// A capital letter of ASCII as a small one, any other character as it is.
pub open spec fn lowered(c: char) -> char {
    if 'A' <= c <= 'Z' {
        (c as u8 + 32) as char
    } else {
        c
    }
}

/// A letter or a digit of ASCII.
pub open spec fn is_alphanumeric(c: char) -> bool {
    'a' <= c <= 'z' || 'A' <= c <= 'Z' || '0' <= c <= '9'
}

/// A text fit to be the extension of a stored file: at least one character, and only small letters
/// and digits of ASCII.
pub open spec fn is_plain(text: Seq<char>) -> bool {
    &&& text.len() > 0
    &&& forall|i: int|
        0 <= i < text.len() ==> ('a' <= #[trigger] text[i] <= 'z' || '0' <= text[i] <= '9')
}

/// What is kept of an extension: it is trimmed and put in small letters, and refused if blank or if
/// a character is no letter or digit of ASCII.
pub open spec fn kept_extension(tail: Seq<char>) -> Option<Seq<char>> {
    let word = trimmed(tail).map_values(|c: char| lowered(c));
    if word.len() > 0 && forall|i: int|
        0 <= i < word.len() ==> is_alphanumeric(#[trigger] word[i]) {
        Some(word)
    } else {
        None
    }
}

/// The extension that an upload brings in its file name.
pub open spec fn brought_extension(filename: Seq<char>) -> Option<Seq<char>> {
    match file_name(filename) {
        Some(name) => match extension(name) {
            Some(tail) => kept_extension(tail),
            None => None,
        },
        None => None,
    }
}

/// The extension of files in a format.
pub open spec fn format_extension(format: ImageFormat) -> Seq<char> {
    match format {
        ImageFormat::Jpeg => "jpg"@,
        ImageFormat::Png => "png"@,
        ImageFormat::Gif => "gif"@,
        ImageFormat::WebP => "webp"@,
        ImageFormat::Bmp => "bmp"@,
        ImageFormat::Tiff => "tiff"@,
        ImageFormat::Tga => "tga"@,
        ImageFormat::Pnm => "pnm"@,
        ImageFormat::Dds => "dds"@,
        ImageFormat::Ico => "ico"@,
        ImageFormat::Hdr => "hdr"@,
        ImageFormat::OpenExr => "exr"@,
        ImageFormat::Farbfeld => "ff"@,
        ImageFormat::Avif => "avif"@,
        ImageFormat::Qoi => "qoi"@,
        ImageFormat::Other => "bin"@,
    }
}

/// The extension that an upload is stored under, by the file name that it came with, if any, and
/// the format that its bytes were recognised as, if any.
pub open spec fn upload_extension(
    filename: Option<Seq<char>>,
    format: Option<ImageFormat>,
) -> Seq<char> {
    let brought = match filename {
        Some(name) => brought_extension(name),
        None => None,
    };
    match brought {
        Some(word) => word,
        None => match format {
            Some(known) => format_extension(known),
            None => "bin"@,
        },
    }
}

/// What a file name that may be absent consists of.
pub open spec fn optional_view(text: Option<&str>) -> Option<Seq<char>> {
    match text {
        Some(inner) => Some(inner@),
        None => None,
    }
}

/// Where the part after the last `mark` begins, of the characters from `from` up to `end`.
fn start_after_last(chars: &Vec<char>, from: usize, end: usize, mark: char) -> (start: usize)
    requires
        from <= end <= chars@.len(),
    ensures
        from <= start <= end,
        after_last(chars@.subrange(from as int, end as int), mark) == chars@.subrange(
            start as int,
            end as int,
        ),
{
    let mut start: usize = end;
    let ghost whole = chars@.subrange(from as int, end as int);
    assert(after_last(whole, mark) == after_last(whole, mark) + chars@.subrange(
        end as int,
        end as int,
    ));
    while start > from && chars[start - 1] != mark
        invariant
            from <= start <= end <= chars@.len(),
            after_last(whole, mark) == after_last(
                chars@.subrange(from as int, start as int),
                mark,
            ) + chars@.subrange(start as int, end as int),
        decreases start,
    {
        proof {
            let c = chars@[start - 1];
            let head = chars@.subrange(from as int, start as int);
            let rest = chars@.subrange(start as int, end as int);
            let shorter = after_last(chars@.subrange(from as int, start - 1), mark);
            assert(head.drop_last() == chars@.subrange(from as int, start - 1));
            assert(head.last() == c);
            assert(shorter.push(c) + rest == shorter + chars@.subrange(start - 1, end as int));
        }
        start = start - 1;
    }
    assert(after_last(chars@.subrange(from as int, start as int), mark) == Seq::<char>::empty());
    start
}

/// Where the file name stands in a path.
fn file_name_bounds(chars: &Vec<char>) -> (bounds: Option<(usize, usize)>)
    ensures
        match bounds {
            Some((start, end)) => {
                &&& start <= end <= chars@.len()
                &&& file_name(chars@) == Some(chars@.subrange(start as int, end as int))
            },
            None => file_name(chars@) is None,
        },
{
    let mut end: usize = chars.len();
    assert(chars@.take(end as int) == chars@);
    while end > 0
        invariant
            end <= chars@.len(),
            file_name(chars@) == file_name(chars@.take(end as int)),
        decreases end,
    {
        let ghost path = chars@.take(end as int);
        assert(path.drop_last() == chars@.take(end - 1));
        assert(path.last() == chars@[end - 1]);
        if chars[end - 1] == '/' {
            end = end - 1;
        } else {
            let start: usize = start_after_last(chars, 0, end, '/');
            assert(chars@.subrange(0, end as int) == path);
            let ghost name = chars@.subrange(start as int, end as int);
            if end - start == 1 && chars[start] == '.' {
                assert(name == seq!['.']);
                end = end - 1;
            } else if end - start == 2 && chars[start] == '.' && chars[start + 1] == '.' {
                assert(name == seq!['.', '.']);
                return None;
            } else {
                proof {
                    assert(name.len() == end - start);
                    if name == seq!['.'] {
                        assert(name[0] == '.');
                    }
                    if name == seq!['.', '.'] {
                        assert(name[0] == '.' && name[1] == '.');
                    }
                }
                return Some((start, end));
            }
        }
    }
    None
}

/// A capital letter of ASCII as a small one, any other character as it is.
fn lower(c: char) -> (small: char)
    ensures
        small == lowered(c),
{
    if 'A' <= c && c <= 'Z' {
        let code: u8 = c as u8 + 32;
        code as char
    } else {
        c
    }
}

/// Trims an extension and puts it in small letters; refuses it if it is blank or not plain.
fn keep_extension(tail: &str) -> (word: Option<String>)
    ensures
        match word {
            Some(kept) => kept_extension(tail@) == Some(kept@),
            None => kept_extension(tail@) is None,
        },
{
    let inner = chars_of(trim(tail));
    let ghost whole = trimmed(tail@).map_values(|c: char| lowered(c));
    if inner.len() == 0 {
        return None;
    }
    let mut word = String::new();
    let mut i: usize = 0;
    while i < inner.len()
        invariant
            i <= inner@.len(),
            inner@ == trimmed(tail@),
            whole == trimmed(tail@).map_values(|c: char| lowered(c)),
            word@ == whole.take(i as int),
            forall|j: int| 0 <= j < i ==> is_alphanumeric(#[trigger] whole[j]),
        decreases inner.len() - i,
    {
        let c = lower(inner[i]);
        assert(c == whole[i as int]);
        if !(('a' <= c && c <= 'z') || ('A' <= c && c <= 'Z') || ('0' <= c && c <= '9')) {
            return None;
        }
        word.push(c);
        assert(whole.take(i + 1) == whole.take(i as int).push(c));
        i = i + 1;
    }
    assert(whole.take(whole.len() as int) == whole);
    Some(word)
}

/// The extension of an uploaded file's name, trimmed and in small letters, where it is fit to be
/// kept.
pub fn extract_extension(filename: &str) -> (word: Option<String>)
    ensures
        match word {
            Some(kept) => brought_extension(filename@) == Some(kept@),
            None => brought_extension(filename@) is None,
        },
{
    let chars = chars_of(filename);
    match file_name_bounds(&chars) {
        Some((start, end)) => {
            let dot: usize = start_after_last(&chars, start, end, '.');
            if dot - start <= 1 {
                None
            } else {
                keep_extension(filename.substring_char(dot, end))
            }
        },
        None => None,
    }
}

/// The extension of files in a format.
pub fn image_format_extension(format: ImageFormat) -> (word: &'static str)
    ensures
        word@ == format_extension(format),
{
    match format {
        ImageFormat::Jpeg => "jpg",
        ImageFormat::Png => "png",
        ImageFormat::Gif => "gif",
        ImageFormat::WebP => "webp",
        ImageFormat::Bmp => "bmp",
        ImageFormat::Tiff => "tiff",
        ImageFormat::Tga => "tga",
        ImageFormat::Pnm => "pnm",
        ImageFormat::Dds => "dds",
        ImageFormat::Ico => "ico",
        ImageFormat::Hdr => "hdr",
        ImageFormat::OpenExr => "exr",
        ImageFormat::Farbfeld => "ff",
        ImageFormat::Avif => "avif",
        ImageFormat::Qoi => "qoi",
        ImageFormat::Other => "bin",
    }
}

/// The extension that an upload is stored under, once its format has been guessed.
pub fn choose_extension(filename: Option<&str>, format: Option<ImageFormat>) -> (word: String)
    ensures
        word@ == upload_extension(optional_view(filename), format),
{
    if let Some(name) = filename {
        if let Some(word) = extract_extension(name) {
            return word;
        }
    }
    match format {
        Some(known) => image_format_extension(known).to_owned(),
        None => "bin".to_owned(),
    }
}

/// The extension that an upload is stored under: the one of its file name where that is fit, else
/// the one of the format that its bytes look like, else `bin`.
pub fn detect_upload_extension(original_filename: Option<&str>, data: &[u8]) -> (word: String)
    ensures
        word@ == upload_extension(optional_view(original_filename), guessed_format(data@)),
{
    choose_extension(original_filename, guess_format(data))
}

/// Whatever name an upload came with and whatever it holds, the extension that it is stored under
/// is plain.
pub proof fn law_upload_extension_is_plain(
    filename: Option<Seq<char>>,
    format: Option<ImageFormat>,
)
    ensures
        is_plain(upload_extension(filename, format)),
{
    reveal_strlit("jpg");
    reveal_strlit("png");
    reveal_strlit("gif");
    reveal_strlit("webp");
    reveal_strlit("bmp");
    reveal_strlit("tiff");
    reveal_strlit("tga");
    reveal_strlit("pnm");
    reveal_strlit("dds");
    reveal_strlit("ico");
    reveal_strlit("hdr");
    reveal_strlit("exr");
    reveal_strlit("ff");
    reveal_strlit("avif");
    reveal_strlit("qoi");
    reveal_strlit("bin");
    let brought = match filename {
        Some(name) => brought_extension(name),
        None => None,
    };
    match brought {
        Some(word) => {
            let tail = extension(file_name(filename->Some_0)->Some_0)->Some_0;
            let inner = trimmed(tail);
            assert(word == inner.map_values(|c: char| lowered(c)));
            assert forall|i: int| 0 <= i < word.len() implies ('a' <= #[trigger] word[i] <= 'z'
                || '0' <= word[i] <= '9') by {
                assert(is_alphanumeric(word[i]));
                assert(word[i] == lowered(inner[i]));
            }
        },
        None => {},
    }
}

/// Behind a mark, or from the start on, what holds no mark is what follows the last mark.
proof fn lemma_after_last(before: Seq<char>, rest: Seq<char>, mark: char)
    requires
        before.len() == 0 || before.last() == mark,
        !rest.contains(mark),
    ensures
        after_last(before + rest, mark) == rest,
    decreases rest.len(),
{
    let text = before + rest;
    if rest.len() == 0 {
        assert(text == before);
    } else {
        let shorter = rest.drop_last();
        assert(rest[rest.len() - 1] != mark);
        assert(text.last() == rest.last());
        assert(text.drop_last() == before + shorter);
        assert(!shorter.contains(mark)) by {
            if shorter.contains(mark) {
                let i = choose|i: int| 0 <= i < shorter.len() && shorter[i] == mark;
                assert(rest[i] == mark);
            }
        }
        lemma_after_last(before, shorter, mark);
        assert(shorter.push(rest.last()) == rest);
    }
}

/// The last part of a path is the name of the file, unless it is empty or only dots.
proof fn lemma_file_name(directory: Seq<char>, name: Seq<char>)
    requires
        directory.len() == 0 || directory.last() == '/',
        name.len() > 0,
        !name.contains('/'),
        name != seq!['.'],
        name != seq!['.', '.'],
    ensures
        file_name(directory + name) == Some(name),
{
    let path = directory + name;
    lemma_after_last(directory, name, '/');
    assert(name.contains(name[name.len() - 1]));
    assert(path.last() == name.last());
}

/// A name of a part before a dot and a part without dots behind it has the second as its extension.
proof fn lemma_extension(stem: Seq<char>, tail: Seq<char>)
    requires
        stem.len() > 0,
        !tail.contains('.'),
    ensures
        extension(stem + seq!['.'] + tail) == Some(tail),
{
    lemma_after_last(stem + seq!['.'], tail, '.');
}

/// What is neither in one text nor in another is not in both put together.
proof fn lemma_in_neither(first: Seq<char>, second: Seq<char>, c: char)
    requires
        !first.contains(c),
        !second.contains(c),
    ensures
        !(first + second).contains(c),
{
    let all = first + second;
    if all.contains(c) {
        let i = choose|i: int| 0 <= i < all.len() && all[i] == c;
        if i < first.len() {
            assert(first[i] == c);
        } else {
            assert(second[i - first.len()] == c);
        }
    }
}

/// A single character holds no other.
proof fn lemma_not_in_one(one: char, c: char)
    requires
        one != c,
    ensures
        !seq![one].contains(c),
{
    assert(seq![one][0] == one);
}

/// A file name that ends in a dot and letters and digits of ASCII brings these, in small letters, as
/// its extension, wherever the file was, whatever comes before the dot, and whatever white space is
/// around them.
pub proof fn law_extension_is_brought(
    directory: Seq<char>,
    stem: Seq<char>,
    front: Seq<char>,
    word: Seq<char>,
    back: Seq<char>,
)
    requires
        directory.len() == 0 || directory.last() == '/',
        stem.len() > 0,
        !stem.contains('/'),
        word.len() > 0,
        forall|i: int| 0 <= i < word.len() ==> is_alphanumeric(#[trigger] word[i]),
        is_blank(front),
        is_blank(back),
    ensures
        ({
            let brought = brought_extension(
                directory + (stem + seq!['.'] + (front + word + back)),
            );
            &&& brought is Some
            &&& brought->Some_0.len() == word.len()
            &&& forall|i: int|
                0 <= i < word.len() ==> (#[trigger] brought->Some_0[i]) as int == word[i] as int + if 'A'
                    <= word[i] <= 'Z' {
                    32int
                } else {
                    0
                }
        }),
{
    let tail = front + word + back;
    let name = stem + seq!['.'] + tail;
    assert forall|c: char| c == '/' || c == '.' implies !tail.contains(c) by {
        assert(!front.contains(c)) by {
            if front.contains(c) {
                let i = choose|i: int| 0 <= i < front.len() && front[i] == c;
                assert(is_white_space(front[i]));
            }
        }
        assert(!back.contains(c)) by {
            if back.contains(c) {
                let i = choose|i: int| 0 <= i < back.len() && back[i] == c;
                assert(is_white_space(back[i]));
            }
        }
        assert(!word.contains(c)) by {
            if word.contains(c) {
                let i = choose|i: int| 0 <= i < word.len() && word[i] == c;
                assert(is_alphanumeric(word[i]));
            }
        }
        lemma_in_neither(front, word, c);
        lemma_in_neither(front + word, back, c);
    }
    lemma_not_in_one('.', '/');
    lemma_in_neither(stem, seq!['.'], '/');
    lemma_in_neither(stem + seq!['.'], tail, '/');
    assert(name.len() >= 3);
    lemma_file_name(directory, name);
    lemma_extension(stem, tail);
    law_padding_is_trimmed(front, word, back);
    assert(is_alphanumeric(word[0]));
    assert(is_alphanumeric(word[word.len() - 1]));
    assert(trimmed(word) == word);
    let kept = word.map_values(|c: char| lowered(c));
    assert forall|i: int| 0 <= i < kept.len() implies is_alphanumeric(#[trigger] kept[i]) by {
        assert(is_alphanumeric(word[i]));
    }
    assert(kept_extension(tail) == Some(kept));
}

/// A file name that ends in a dot and something else brings no extension: nothing or white space, or a
/// text that has, but for white space around it, a character that is no letter or digit of ASCII.
pub proof fn law_unfit_extension_is_not_brought(
    directory: Seq<char>,
    stem: Seq<char>,
    tail: Seq<char>,
)
    requires
        directory.len() == 0 || directory.last() == '/',
        stem.len() > 0,
        !stem.contains('/'),
        !tail.contains('/'),
        !tail.contains('.'),
        is_blank(tail) || exists|i: int|
            0 <= i < trimmed(tail).len() && !is_alphanumeric(#[trigger] trimmed(tail)[i]),
    ensures
        brought_extension(directory + (stem + seq!['.'] + tail)) is None,
{
    let name = stem + seq!['.'] + tail;
    lemma_not_in_one('.', '/');
    lemma_in_neither(stem, seq!['.'], '/');
    lemma_in_neither(stem + seq!['.'], tail, '/');
    assert(name.len() >= 2);
    if is_blank(tail) {
        law_padding_is_trimmed(tail, Seq::empty(), Seq::empty());
    } else {
        let i = choose|i: int|
            0 <= i < trimmed(tail).len() && !is_alphanumeric(#[trigger] trimmed(tail)[i]);
        let word = trimmed(tail).map_values(|c: char| lowered(c));
        assert(!is_alphanumeric(word[i]));
    }
    lemma_extension(stem, tail);
    if name == seq!['.', '.'] {
        lemma_after_last(directory, name, '/');
        assert((directory + name).last() == name[1]);
    } else {
        lemma_file_name(directory, name);
    }
}

/// A file name without a dot brings no extension, nor does one whose only dot comes first.
pub proof fn law_no_dot_no_extension(directory: Seq<char>, name: Seq<char>)
    requires
        directory.len() == 0 || directory.last() == '/',
        name.len() > 0,
        name != seq!['.'],
        !name.contains('/'),
        !name.drop_first().contains('.'),
    ensures
        brought_extension(directory + name) is None,
{
    let rest = name.drop_first();
    if name == seq!['.', '.'] {
        assert(rest[0] == '.');
    }
    lemma_file_name(directory, name);
    assert(name == seq![name[0]] + rest);
    if name[0] == '.' {
        lemma_after_last(seq!['.'], rest, '.');
    } else {
        lemma_not_in_one(name[0], '.');
        lemma_in_neither(seq![name[0]], rest, '.');
        lemma_after_last(Seq::empty(), name, '.');
        assert(Seq::<char>::empty() + name == name);
    }
}

/// A slash at the end of a path, with a dot behind it or not, makes no difference to the extension
/// that it brings; a path that ends in two dots brings none, nor does an empty one.
pub proof fn law_path_endings(path: Seq<char>)
    ensures
        brought_extension(path + seq!['/']) == brought_extension(path),
        brought_extension(path + seq!['/'] + seq!['.']) == brought_extension(path),
        brought_extension(path + seq!['/'] + seq!['.', '.']) is None,
        brought_extension(Seq::empty()) is None,
{
    let slash = path + seq!['/'];
    let dot = slash + seq!['.'];
    let dots = slash + seq!['.', '.'];
    assert(slash.last() == '/');
    assert(slash.drop_last() == path);
    lemma_not_in_one('.', '/');
    lemma_after_last(slash, seq!['.'], '/');
    assert(dot.last() == '.');
    assert(dot.drop_last() == slash);
    assert(file_name(dot) == file_name(slash));
    assert(seq!['.', '.'] == seq!['.'] + seq!['.']);
    lemma_in_neither(seq!['.'], seq!['.'], '/');
    lemma_after_last(slash, seq!['.', '.'], '/');
    assert(dots.last() == '.');
    assert(file_name(dots) is None);
}

/// The extension that a file name brings is the one that counts; without one it is the one of the
/// format that the bytes were recognised as, and without a format it is `bin`.
pub proof fn law_name_counts_before_format(name: Seq<char>, format: Option<ImageFormat>)
    ensures
        brought_extension(name) matches Some(word) ==> upload_extension(Some(name), format) == word,
        brought_extension(name) is None ==> upload_extension(Some(name), format)
            == upload_extension(None, format),
        upload_extension(None, None) == "bin"@,
        upload_extension(None, Some(ImageFormat::Jpeg)) == "jpg"@,
        upload_extension(None, Some(ImageFormat::Png)) == "png"@,
        upload_extension(None, Some(ImageFormat::Gif)) == "gif"@,
        upload_extension(None, Some(ImageFormat::WebP)) == "webp"@,
        upload_extension(None, Some(ImageFormat::Bmp)) == "bmp"@,
        upload_extension(None, Some(ImageFormat::Tiff)) == "tiff"@,
        upload_extension(None, Some(ImageFormat::Tga)) == "tga"@,
        upload_extension(None, Some(ImageFormat::Pnm)) == "pnm"@,
        upload_extension(None, Some(ImageFormat::Dds)) == "dds"@,
        upload_extension(None, Some(ImageFormat::Ico)) == "ico"@,
        upload_extension(None, Some(ImageFormat::Hdr)) == "hdr"@,
        upload_extension(None, Some(ImageFormat::OpenExr)) == "exr"@,
        upload_extension(None, Some(ImageFormat::Farbfeld)) == "ff"@,
        upload_extension(None, Some(ImageFormat::Avif)) == "avif"@,
        upload_extension(None, Some(ImageFormat::Qoi)) == "qoi"@,
        upload_extension(None, Some(ImageFormat::Other)) == "bin"@,
        format matches Some(known) ==> format_extension(known) == upload_extension(None, format),
{
}

/// Which characters are letters and digits of ASCII, by their codes.
pub proof fn law_alphanumeric_codes(c: char)
    ensures
        is_alphanumeric(c) <==> 0x30 <= c as u32 <= 0x39 || 0x41 <= c as u32 <= 0x5a || 0x61 <= c as u32
            <= 0x7a,
{
}

} // verus!
