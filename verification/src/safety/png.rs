//! PNG files, and the icon files that enclose them.
use super::jpeg::{big_short, big_short_of};
use super::tiff::{long, long_of, short, short_of};
use vstd::prelude::*;

verus! {

/// The names of the chunks that matter here, as numbers: `IHDR`, `PLTE`, `IDAT`, `fdAT` and `IEND`.
pub const HEADER: u32 = 0x4948_4452;

pub const PALETTE: u32 = 0x504c_5445;

pub const IMAGE_DATA: u32 = 0x4944_4154;

pub const FRAME_DATA: u32 = 0x6664_4154;

pub const LAST: u32 = 0x4945_4e44;

/// The colour type of images whose pixels are places in a palette.
pub const INDEXED: u8 = 3;

/// The colour type of images with four channels.
pub const FOUR_CHANNELS: u8 = 6;

/// The number of bytes of the longest palette that there is room for.
pub const MAX_PALETTE: u32 = 768;

/// A number of four bytes, the highest first.
pub open spec fn big_long(data: Seq<u8>, at: int) -> int {
    0x1_0000 * big_short(data, at) + big_short(data, at + 2)
}

/// The first palette from the given place on, before any image data, makes no decoder panic: it has
/// three bytes for each colour, and no more colours than there is room for. A chunk that is empty is
/// passed over; a second header is refused.
pub open spec fn palette_is_safe(data: Seq<u8>, at: int) -> bool
    decreases data.len() - at,
{
    at + 8 <= data.len() ==> {
        let size = big_long(data, at);
        let kind = big_long(data, at + 4);
        at + 12 + size <= data.len() && kind != IMAGE_DATA && kind != FRAME_DATA && kind != LAST
            ==> {
            if size > 0 && kind == HEADER {
                true
            } else if size > 0 && kind == PALETTE {
                size % 3 == 0 && size <= MAX_PALETTE
            } else {
                palette_is_safe(data, at + 12 + size)
            }
        }
    }
}

/// The chunks of a PNG file from the given place on make no decoder panic. The first chunk that is
/// not empty has to be the header; only what it says to be indexed needs a palette.
pub open spec fn png_is_safe(data: Seq<u8>, at: int) -> bool
    decreases data.len() - at,
{
    at + 8 <= data.len() ==> {
        let size = big_long(data, at);
        at + 12 + size <= data.len() && big_long(data, at + 4) == HEADER ==> {
            if size == 0 {
                png_is_safe(data, at + 12)
            } else {
                size >= 13 && data[at + 17] == INDEXED ==> palette_is_safe(data, at + 12 + size)
            }
        }
    }
}

/// What follows the first eight bytes begins with the header of a PNG image with four channels.
pub open spec fn is_true_colour(data: Seq<u8>) -> bool {
    &&& data.len() >= 33
    &&& big_long(data, 8) == 13
    &&& big_long(data, 12) == HEADER
    &&& data[25] == FOUR_CHANNELS
}

/// What stands at the given place begins like a PNG file.
pub open spec fn png_at(data: Seq<u8>, at: int) -> bool {
    at + 8 <= data.len() && big_long(data, at) == 0x8950_4e47 && big_long(data, at + 4)
        == 0x0d0a_1a0a
}

/// A side of an icon: zero stands for 256.
pub open spec fn icon_side(byte: u8) -> int {
    if byte == 0 {
        256
    } else {
        byte as int
    }
}

/// The place of an entry in the directory of an icon file.
pub open spec fn icon_at(index: int) -> int {
    6 + 16 * index
}

/// An entry of an icon file is better than another one: it has more bits for each pixel, or as many
/// and more pixels.
pub open spec fn is_better(data: Seq<u8>, one: int, other: int) -> bool {
    let bits = short(data, true, icon_at(one) + 6);
    let other_bits = short(data, true, icon_at(other) + 6);
    bits > other_bits || (bits == other_bits && icon_side(data[icon_at(one)]) * icon_side(
        data[icon_at(one) + 1],
    ) > icon_side(data[icon_at(other)]) * icon_side(data[icon_at(other) + 1]))
}

/// The best entry of the chosen one and those from `index` up to, and without, `count`; of equal
/// ones the chosen one, or else the first.
pub open spec fn best_icon(data: Seq<u8>, index: int, count: int, chosen: int) -> int
    decreases count - index,
{
    if index >= count {
        chosen
    } else {
        best_icon(
            data,
            index + 1,
            count,
            if is_better(data, index, chosen) {
                index
            } else {
                chosen
            },
        )
    }
}

/// An icon file makes no decoder panic: the best of its images, the last one before others that are
/// as good, is no PNG image that does. A directory that does not fit into the file is refused.
pub open spec fn icon_is_safe(data: Seq<u8>) -> bool {
    data.len() >= 6 ==> {
        let count = short(data, true, 4);
        1 <= count && icon_at(count) <= data.len() ==> {
            let best = best_icon(data, 0, count - 1, count - 1);
            let place = long(data, true, icon_at(best) + 12);
            png_at(data, place) ==> png_is_safe(data, place + 8)
        }
    }
}

/// A PNG image with four channels makes no decoder panic.
pub proof fn lemma_true_colour_is_safe(data: Seq<u8>)
    requires
        is_true_colour(data),
    ensures
        png_is_safe(data, 8),
{
}

/// A number of four bytes, the highest first.
fn big_long_of(data: &[u8], at: usize) -> (value: u32)
    requires
        at + 4 <= data@.len(),
    ensures
        value == big_long(data@, at as int),
{
    let total: usize = data.len();
    assert(at + 4 <= total);
    0x1_0000 * big_short_of(data, at) + big_short_of(data, at + 2)
}

/// Whether the first palette makes no decoder panic.
fn check_palette(data: &[u8], at: usize) -> (safe: bool)
    requires
        at <= data@.len(),
    ensures
        safe == palette_is_safe(data@, at as int),
{
    let total: usize = data.len();
    let mut place: usize = at;
    while total - place >= 8
        invariant
            total == data@.len(),
            place <= total,
            palette_is_safe(data@, at as int) == palette_is_safe(data@, place as int),
        decreases total - place,
    {
        let size: u32 = big_long_of(data, place);
        let kind: u32 = big_long_of(data, place + 4);
        if (total - place) as u64 - 8 < 4 + size as u64 || kind == IMAGE_DATA || kind == FRAME_DATA
            || kind == LAST || (size > 0 && kind == HEADER) {
            return true;
        }
        if size > 0 && kind == PALETTE {
            return size % 3 == 0 && size <= MAX_PALETTE;
        }
        place = place + 12 + size as usize;
    }
    true
}

/// Whether the chunks of a PNG file from the given place on make no decoder panic.
pub fn check_png(data: &[u8], at: usize) -> (safe: bool)
    requires
        at <= data@.len(),
    ensures
        safe == png_is_safe(data@, at as int),
{
    let total: usize = data.len();
    let mut place: usize = at;
    while total - place >= 8
        invariant
            total == data@.len(),
            place <= total,
            png_is_safe(data@, at as int) == png_is_safe(data@, place as int),
        decreases total - place,
    {
        let size: u32 = big_long_of(data, place);
        if (total - place) as u64 - 8 < 4 + size as u64 || big_long_of(data, place + 4) != HEADER {
            return true;
        }
        if size > 0 {
            return size < 13 || data[place + 17] != INDEXED || check_palette(
                data,
                place + 12 + size as usize,
            );
        }
        place = place + 12;
    }
    true
}

/// The number of pixels of an icon, by its entry.
fn icon_area(data: &[u8], at: usize) -> (area: u32)
    requires
        at + 2 <= data@.len(),
    ensures
        area == icon_side(data@[at as int]) * icon_side(data@[at + 1]),
{
    let width: u32 = if data[at] == 0 {
        256
    } else {
        data[at] as u32
    };
    let height: u32 = if data[at + 1] == 0 {
        256
    } else {
        data[at + 1] as u32
    };
    assert(0 <= width * height <= 256 * 256) by (nonlinear_arith)
        requires
            0 <= width <= 256,
            0 <= height <= 256,
    ;
    width * height
}

/// Whether an icon file makes no decoder panic.
pub fn check_icon(data: &[u8]) -> (safe: bool)
    ensures
        safe == icon_is_safe(data@),
{
    let total: usize = data.len();
    if total < 6 {
        return true;
    }
    let count: usize = short_of(data, true, 4) as usize;
    if count < 1 || (total - 6) / 16 < count {
        return true;
    }
    let mut chosen: usize = count - 1;
    let mut index: usize = 0;
    while index < count - 1
        invariant
            total == data@.len(),
            1 <= count <= 0xffff,
            6 + 16 * count <= total,
            index <= count - 1,
            chosen < count,
            best_icon(data@, 0, count - 1, count - 1) == best_icon(
                data@,
                index as int,
                count - 1,
                chosen as int,
            ),
        decreases count - index,
    {
        let one: usize = 6 + 16 * index;
        let other: usize = 6 + 16 * chosen;
        let bits: u32 = short_of(data, true, one + 6);
        let other_bits: u32 = short_of(data, true, other + 6);
        if bits > other_bits || (bits == other_bits && icon_area(data, one) > icon_area(data, other))
        {
            chosen = index;
        }
        index = index + 1;
    }
    let place: u32 = long_of(data, true, 6 + 16 * chosen + 12);
    if (total as u64) < 8 || place as u64 > total as u64 - 8 {
        return true;
    }
    let at: usize = place as usize;
    big_long_of(data, at) != 0x8950_4e47 || big_long_of(data, at + 4) != 0x0d0a_1a0a || check_png(
        data,
        at + 8,
    )
}

} // verus!
