//! Which image files the outside decoders can be given.
//!
//! On some malformed files a decoder indexes past the end of a buffer, copies between buffers of
//! unequal length or overflows a number, and panics. The checks here find those files by their
//! bytes, so that they can be refused before a decoder sees them.
pub mod bitmap;
pub mod jpeg;
pub mod png;
pub mod radiance;
pub mod tiff;
pub mod webp;

use self::bitmap::{bitmap_is_safe, check_bitmap};
use self::jpeg::{
    check_jpeg, has_ordinary_frames, jpeg_is_safe, lemma_ordinary_jpeg, Setting,
};
use self::png::{
    check_icon, check_png, icon_is_safe, is_true_colour, lemma_true_colour_is_safe, png_at,
    png_is_safe,
};
use self::radiance::{
    after_blank, check_radiance, has_no_runs, is_ascii, lemma_radiance_without_runs, line_end,
    radiance_is_safe,
};
use self::tiff::{check_tiff, long, number_of, short, tiff_is_safe};
use self::webp::container::{check_webp, webp_is_safe};
use vstd::prelude::*;

verus! {

/// How decoding may end early.
#[derive(Clone, Copy, Debug, PartialEq, Eq, Structural)]
pub enum Ending {
    /// The decoder returns an error.
    Fails,
    /// The decoder panics, or may.
    Panics,
}

/// How PNG files begin.
pub const PNG_START: [u8; 8] = [0x89, 0x50, 0x4e, 0x47, 0x0d, 0x0a, 0x1a, 0x0a];

/// How JPEG files begin.
pub const JPEG_START: [u8; 3] = [0xff, 0xd8, 0xff];

/// How WebP files begin: `RIFF`.
pub const WEBP_START: [u8; 4] = [0x52, 0x49, 0x46, 0x46];

/// How TIFF files begin whose numbers have the higher byte first: `MM`, then 42.
pub const TIFF_START_BIG: [u8; 4] = [0x4d, 0x4d, 0x00, 0x2a];

/// How TIFF files begin whose numbers have the lower byte first: `II`, then 42.
pub const TIFF_START_LITTLE: [u8; 4] = [0x49, 0x49, 0x2a, 0x00];

/// How icon files begin.
pub const ICON_START: [u8; 4] = [0x00, 0x00, 0x01, 0x00];

/// How portable bitmaps begin whose pixels are bits: `P4`.
pub const BITMAP_START: [u8; 2] = [0x50, 0x34];

/// How Radiance HDR files begin: `#?RADIANCE`.
pub const RADIANCE_START: [u8; 10] = [
    0x23,
    0x3f,
    0x52,
    0x41,
    0x44,
    0x49,
    0x41,
    0x4e,
    0x43,
    0x45,
];

/// The data begin with the given bytes.
pub open spec fn begins(data: Seq<u8>, start: Seq<u8>) -> bool {
    &&& start.len() <= data.len()
    &&& forall|i: int| 0 <= i < start.len() ==> #[trigger] start[i] == data[i]
}

/// No decoder panics on the data. The decoder is chosen by the first bytes, and those for the
/// formats that are not named here take any bytes.
pub open spec fn safe_to_open(data: Seq<u8>) -> bool {
    if begins(data, PNG_START@) {
        png_is_safe(data, 8)
    } else if begins(data, JPEG_START@) {
        jpeg_is_safe(data, 2, Setting::File)
    } else if begins(data, WEBP_START@) {
        webp_is_safe(data)
    } else if begins(data, TIFF_START_BIG@) {
        tiff_is_safe(data, false)
    } else if begins(data, TIFF_START_LITTLE@) {
        tiff_is_safe(data, true)
    } else if begins(data, ICON_START@) {
        icon_is_safe(data)
    } else if begins(data, RADIANCE_START@) {
        radiance_is_safe(data)
    } else if begins(data, BITMAP_START@) {
        bitmap_is_safe(data)
    } else {
        true
    }
}

/// A PNG file of an image with four channels can be opened.
pub proof fn law_true_colour_is_safe(data: Seq<u8>)
    requires
        begins(data, PNG_START@),
        is_true_colour(data),
    ensures
        safe_to_open(data),
{
    lemma_true_colour_is_safe(data);
}

/// Data can be opened that begin like no PNG, JPEG, WebP, TIFF, icon or Radiance file and like no
/// portable bitmap of bits; the first byte tells most of them.
pub proof fn law_other_formats_are_safe(data: Seq<u8>)
    requires
        data.len() < 2 || !(data[0] == 0x89 || data[0] == 0xff || data[0] == 0x52 || data[0] == 0x4d
            || data[0] == 0x49 || data[0] == 0x00 || data[0] == 0x23 || (data[0] == 0x50 && data[1]
            == 0x34)),
    ensures
        safe_to_open(data),
{
    assert(PNG_START@[0] == 0x89);
    assert(JPEG_START@[0] == 0xff);
    assert(WEBP_START@[0] == 0x52);
    assert(TIFF_START_BIG@[0] == 0x4d);
    assert(TIFF_START_LITTLE@[0] == 0x49);
    assert(ICON_START@[0] == 0x00);
    assert(RADIANCE_START@[0] == 0x23);
    assert(BITMAP_START@[0] == 0x50);
    assert(BITMAP_START@[1] == 0x34);
}

/// A JPEG file can be opened whose frame headers are ordinary: sides of up to 65528 pixels, and eight
/// bits to a sample where the frame is lossless.
pub proof fn law_ordinary_jpeg_is_safe(data: Seq<u8>)
    requires
        data.len() >= 3,
        data[0] == 0xff && data[1] == 0xd8 && data[2] == 0xff,
        has_ordinary_frames(data),
    ensures
        safe_to_open(data),
{
    assert(PNG_START@[0] == 0x89);
    lemma_ordinary_jpeg(data, 2);
    assert(JPEG_START@ =~= seq![0xffu8, 0xd8, 0xff]);
    assert(begins(data, JPEG_START@));
}

/// A PNG file can be opened whose header says that its pixels are no places in a palette; one whose
/// palette follows the header can be opened exactly if it has three bytes for each of up to 256
/// colours.
pub proof fn law_png_by_its_palette(data: Seq<u8>)
    requires
        begins(data, PNG_START@),
        data.len() >= 33,
        data[8] == 0 && data[9] == 0 && data[10] == 0 && data[11] == 13,
        data[12] == 0x49 && data[13] == 0x48 && data[14] == 0x44 && data[15] == 0x52,
    ensures
        data[25] != 3 ==> safe_to_open(data),
        data[25] == 3 && data.len() >= 45 && data[33] == 0 && data[34] == 0 && data[37] == 0x50
            && data[38] == 0x4c && data[39] == 0x54 && data[40] == 0x45 ==> {
            let size = 256 * data[35] + data[36];
            1 <= size && 45 + size <= data.len() ==> (safe_to_open(data) <==> size % 3 == 0 && size
                / 3 <= 256)
        },
{
}

/// A lossy WebP file can be opened, and so can one whose first chunk is of a kind that is not known.
pub proof fn law_lossy_webp_is_safe(data: Seq<u8>)
    requires
        data.len() >= 16,
        data[0] == 0x52 && data[1] == 0x49 && data[2] == 0x46 && data[3] == 0x46,
        !(data[12] == 0x56 && data[13] == 0x50 && data[14] == 0x38 && (data[15] == 0x4c || data[15]
            == 0x58)),
    ensures
        safe_to_open(data),
{
    assert(PNG_START@[0] == 0x89);
    assert(JPEG_START@[0] == 0xff);
    assert(WEBP_START@ =~= seq![0x52u8, 0x49, 0x46, 0x46]);
    assert(begins(data, WEBP_START@));
}

/// A TIFF file can be opened whose strips are not JPEG images and hold all the channels together.
pub proof fn law_plain_tiff_is_safe(data: Seq<u8>, little: bool)
    requires
        data.len() >= 8,
        begins(
            data,
            if little {
                seq![0x49u8, 0x49, 0x2a, 0x00]
            } else {
                seq![0x4du8, 0x4d, 0x00, 0x2a]
            },
        ),
        ({
            let place = long(data, little, 4);
            let count = short(data, little, place);
            &&& number_of(data, little, place + 2, count, 259, 1) != 7
            &&& number_of(data, little, place + 2, count, 284, 1) != 2
            &&& number_of(data, little, place + 2, count, 322, 0) == 0
        }),
    ensures
        safe_to_open(data),
{
    let start = if little {
        seq![0x49u8, 0x49, 0x2a, 0x00]
    } else {
        seq![0x4du8, 0x4d, 0x00, 0x2a]
    };
    assert(start[0] == data[0] && start[1] == data[1] && start[2] == data[2] && start[3]
        == data[3]);
    assert(PNG_START@[0] == 0x89);
    assert(JPEG_START@[0] == 0xff);
    assert(WEBP_START@[0] == 0x52);
    assert(TIFF_START_BIG@ =~= seq![0x4du8, 0x4d, 0x00, 0x2a]);
    assert(TIFF_START_LITTLE@ =~= seq![0x49u8, 0x49, 0x2a, 0x00]);
    if little {
        assert(TIFF_START_BIG@[0] == 0x4d);
    }
}

/// An icon file can be opened that encloses no PNG file.
pub proof fn law_plain_icon_is_safe(data: Seq<u8>)
    requires
        data.len() >= 4,
        data[0] == 0 && data[1] == 0 && data[2] == 1 && data[3] == 0,
        forall|i: int| 0 <= i ==> !#[trigger] png_at(data, i),
    ensures
        safe_to_open(data),
{
    assert(PNG_START@[0] == 0x89);
    assert(JPEG_START@[0] == 0xff);
    assert(WEBP_START@[0] == 0x52);
    assert(TIFF_START_BIG@[0] == 0x4d);
    assert(TIFF_START_LITTLE@[0] == 0x49);
    assert(ICON_START@ =~= seq![0u8, 0, 1, 0]);
    assert(begins(data, ICON_START@));
}

/// A Radiance file can be opened that nowhere has three bytes of one in a row, and gives its size in
/// ASCII.
pub proof fn law_radiance_without_runs_is_safe(data: Seq<u8>)
    requires
        begins(data, RADIANCE_START@),
        has_no_runs(data),
        after_blank(data, line_end(data, 10) + 1) matches Some(at) ==> is_ascii(
            data,
            at,
            line_end(data, at),
        ),
    ensures
        safe_to_open(data),
{
    assert(RADIANCE_START@[0] == data[0]);
    assert(PNG_START@[0] == 0x89);
    assert(JPEG_START@[0] == 0xff);
    assert(WEBP_START@[0] == 0x52);
    assert(TIFF_START_BIG@[0] == 0x4d);
    assert(TIFF_START_LITTLE@[0] == 0x49);
    assert(ICON_START@[0] == 0x00);
    lemma_radiance_without_runs(data);
}

/// Whether the data begin with the given bytes.
fn has_start<const N: usize>(data: &[u8], start: [u8; N]) -> (yes: bool)
    ensures
        yes == begins(data@, start@),
{
    if data.len() < N {
        return false;
    }
    let mut i: usize = 0;
    while i < N
        invariant
            i <= N <= data@.len(),
            forall|k: int| 0 <= k < i ==> #[trigger] start@[k] == data@[k],
        decreases N - i,
    {
        if start[i] != data[i] {
            assert(start@[i as int] != data@[i as int]);
            return false;
        }
        i = i + 1;
    }
    true
}

/// Whether no decoder panics on the data.
pub fn decodes_safely(data: &[u8]) -> (ok: bool)
    ensures
        ok == safe_to_open(data@),
{
    if has_start(data, PNG_START) {
        check_png(data, 8)
    } else if has_start(data, JPEG_START) {
        check_jpeg(data, Setting::File)
    } else if has_start(data, WEBP_START) {
        check_webp(data)
    } else if has_start(data, TIFF_START_BIG) {
        check_tiff(data, false)
    } else if has_start(data, TIFF_START_LITTLE) {
        check_tiff(data, true)
    } else if has_start(data, ICON_START) {
        check_icon(data)
    } else if has_start(data, RADIANCE_START) {
        check_radiance(data)
    } else if has_start(data, BITMAP_START) {
        check_bitmap(data)
    } else {
        true
    }
}

} // verus!
