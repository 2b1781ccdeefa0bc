//! TIFF files.
use super::jpeg::{big_short, big_short_of, check_jpeg, jpeg_is_safe, Setting};
use vstd::prelude::*;
use vstd::slice::slice_subrange;

verus! {

/// The tags of the directory that matter here.
pub const WIDTH: u32 = 256;

pub const HEIGHT: u32 = 257;

pub const COMPRESSION: u32 = 259;

pub const PHOTOMETRIC: u32 = 262;

pub const STRIP_PLACES: u32 = 273;

pub const SAMPLES: u32 = 277;

pub const ROWS: u32 = 278;

pub const STRIP_SIZES: u32 = 279;

pub const PLANES: u32 = 284;

pub const TILE_WIDTH: u32 = 322;

pub const TILE_HEIGHT: u32 = 323;

pub const TILE_PLACES: u32 = 324;

pub const TILE_SIZES: u32 = 325;

pub const JPEG_TABLES: u32 = 347;

/// A number of two bytes.
pub open spec fn short(data: Seq<u8>, little: bool, at: int) -> int {
    if little {
        data[at] + 0x100 * data[at + 1]
    } else {
        big_short(data, at)
    }
}

/// A number of four bytes.
pub open spec fn long(data: Seq<u8>, little: bool, at: int) -> int {
    if little {
        short(data, little, at) + 0x1_0000 * short(data, little, at + 2)
    } else {
        0x1_0000 * short(data, little, at) + short(data, little, at + 2)
    }
}

/// The kinds of value that there are: an entry with another is passed over.
pub open spec fn known_kind(kind: int) -> bool {
    1 <= kind <= 13 || 16 <= kind <= 18
}

/// The last entry for the tag among the first `count` entries of twelve bytes at `base`.
pub open spec fn entry(data: Seq<u8>, little: bool, base: int, count: int, tag: u32) -> Option<int>
    decreases count,
{
    if count <= 0 {
        None
    } else {
        let at = base + 12 * (count - 1);
        if short(data, little, at) == tag && known_kind(short(data, little, at + 2)) {
            Some(at)
        } else {
            entry(data, little, base, count - 1, tag)
        }
    }
}

/// The number of an entry, and 0 where the entry holds no single number of up to 32 bits. One of
/// the kinds that take 64 bits stands elsewhere in the file.
pub open spec fn value(data: Seq<u8>, little: bool, at: int) -> int {
    let kind = short(data, little, at + 2);
    let place = long(data, little, at + 8);
    if long(data, little, at + 4) != 1 {
        0
    } else if kind == 1 {
        data[at + 8] as int
    } else if kind == 3 {
        short(data, little, at + 8)
    } else if kind == 4 || kind == 13 {
        place
    } else if (kind == 16 || kind == 18) && place + 8 <= data.len() {
        let (low, high) = if little {
            (long(data, little, place), long(data, little, place + 4))
        } else {
            (long(data, little, place + 4), long(data, little, place))
        };
        if high == 0 {
            low
        } else {
            0
        }
    } else {
        0
    }
}

/// The number that goes with a tag.
pub open spec fn number_of(
    data: Seq<u8>,
    little: bool,
    base: int,
    count: int,
    tag: u32,
    otherwise: int,
) -> int {
    match entry(data, little, base, count, tag) {
        Some(at) => value(data, little, at),
        None => otherwise,
    }
}

/// How many parts of the given length cover the whole.
pub open spec fn parts(whole: int, part: int) -> int {
    (whole - 1) / part + 1
}

/// The strips can be counted in 32 bits.
pub open spec fn strips_countable(height: int, rows: int, samples: int) -> bool {
    height >= 1 && rows >= 1 ==> parts(height, rows) * samples <= u32::MAX
}

/// The tiles can be counted.
pub open spec fn tiles_countable(
    width: int,
    height: int,
    tile_width: int,
    tile_height: int,
    planes: int,
) -> bool {
    width >= 1 && height >= 1 && tile_width >= 1 && tile_height >= 1 ==> {
        &&& width + tile_width <= usize::MAX
        &&& height + tile_height <= usize::MAX
        &&& parts(height, tile_height) * parts(width, tile_width) <= usize::MAX
        &&& parts(height, tile_height) * parts(width, tile_width) * planes <= usize::MAX
    }
}

/// How many bytes a number takes in a list of the given kind; none if the kind has no numbers.
pub open spec fn item_size(kind: int) -> int {
    if kind == 1 {
        1
    } else if kind == 3 {
        2
    } else if kind == 4 || kind == 13 {
        4
    } else if kind == 16 || kind == 18 {
        8
    } else {
        0
    }
}

/// The place of a list of items of the given size: up to four bytes stand in the entry itself.
pub open spec fn list_place(data: Seq<u8>, little: bool, at: int, size: int) -> int {
    if long(data, little, at + 4) * size <= 4 {
        at + 8
    } else {
        long(data, little, at + 8)
    }
}

/// A list of items of the given size stands within the file.
pub open spec fn list_fits(data: Seq<u8>, little: bool, at: int, size: int) -> bool {
    list_place(data, little, at, size) + long(data, little, at + 4) * size <= data.len()
}

/// An item of a list of numbers. One of 64 bits that does not fit into 32 leads nowhere in a file.
pub open spec fn item(data: Seq<u8>, little: bool, at: int, index: int) -> int {
    let size = item_size(short(data, little, at + 2));
    let place = list_place(data, little, at, size) + index * size;
    if size == 1 {
        data[place] as int
    } else if size == 2 {
        short(data, little, place)
    } else if size == 4 {
        long(data, little, place)
    } else {
        wide_number(data, little, place)
    }
}

/// A number of eight bytes.
pub open spec fn wide_number(data: Seq<u8>, little: bool, at: int) -> int {
    if little {
        long(data, little, at) + 0x1_0000_0000 * long(data, little, at + 4)
    } else {
        0x1_0000_0000 * long(data, little, at) + long(data, little, at + 4)
    }
}

/// The part of a file from the given place on, as far as it is there.
pub open spec fn part(data: Seq<u8>, place: int, size: int) -> Seq<u8> {
    if place >= data.len() {
        Seq::empty()
    } else if size >= data.len() - place {
        data.skip(place)
    } else {
        data.subrange(place, place + size)
    }
}

/// The tables that stand before each JPEG image; their last two bytes are never read. Tables of any
/// kind but bytes, or of a single byte, are refused.
pub open spec fn tables(data: Seq<u8>, little: bool, at: int) -> Option<Seq<u8>> {
    let count = long(data, little, at + 4);
    if short(data, little, at + 2) == 7 && count >= 2 && list_fits(data, little, at, 1) {
        let place = list_place(data, little, at, 1);
        Some(data.subrange(place, place + count - 2))
    } else {
        None
    }
}

/// A JPEG image of a TIFF file makes no decoder panic: without tables it stands as it is, with tables
/// it goes without its first two bytes.
pub open spec fn strip_is_safe(strip: Seq<u8>, before: Option<Seq<u8>>, setting: Setting) -> bool {
    match before {
        None => strip.len() >= 2 && strip[0] == 0xff && strip[1] == 0xd8 ==> jpeg_is_safe(
            strip,
            2,
            setting,
        ),
        Some(first) => strip.len() >= 2 ==> {
            let whole = first + strip.skip(2);
            whole.len() >= 2 && whole[0] == 0xff && whole[1] == 0xd8 ==> jpeg_is_safe(
                whole,
                2,
                setting,
            )
        },
    }
}

/// The JPEG image of the given number makes no decoder panic.
pub open spec fn listed_strip_is_safe(
    data: Seq<u8>,
    little: bool,
    places: int,
    sizes: int,
    index: int,
    before: Option<Seq<u8>>,
    setting: Setting,
) -> bool {
    strip_is_safe(
        part(data, item(data, little, places, index), item(data, little, sizes, index)),
        before,
        setting,
    )
}

/// The JPEG images at the places and of the sizes that two lists give make no decoder panic. Lists
/// that hold texts or fractions are read as numbers too, and count as unsafe; other lists
/// without numbers, of unequal length or beyond the end of the file are refused.
pub open spec fn lists_are_safe(
    data: Seq<u8>,
    little: bool,
    places: int,
    sizes: int,
    before: Option<Seq<u8>>,
    setting: Setting,
) -> bool {
    let kind = short(data, little, places + 2);
    let other = short(data, little, sizes + 2);
    let count = long(data, little, places + 4);
    if kind == 2 || kind == 5 || other == 2 || other == 5 {
        false
    } else if item_size(kind) == 0 || item_size(other) == 0 || count != long(
        data,
        little,
        sizes + 4,
    ) || !list_fits(data, little, places, item_size(kind)) || !list_fits(
        data,
        little,
        sizes,
        item_size(other),
    ) {
        true
    } else {
        forall|index: int|
            0 <= index < count ==> #[trigger] listed_strip_is_safe(
                data,
                little,
                places,
                sizes,
                index,
                before,
                setting,
            )
    }
}

/// The JPEG images in a TIFF file, whether in strips or in tiles, make no decoder panic.
pub open spec fn strips_are_safe(
    data: Seq<u8>,
    little: bool,
    base: int,
    count: int,
    setting: Setting,
) -> bool {
    let strips = entry(data, little, base, count, STRIP_PLACES);
    let places = if strips is Some {
        strips
    } else {
        entry(data, little, base, count, TILE_PLACES)
    };
    let sizes = if strips is Some {
        entry(data, little, base, count, STRIP_SIZES)
    } else {
        entry(data, little, base, count, TILE_SIZES)
    };
    places is Some && sizes is Some ==> match entry(data, little, base, count, JPEG_TABLES) {
        None => lists_are_safe(
            data,
            little,
            places->Some_0,
            sizes->Some_0,
            None,
            setting,
        ),
        Some(at) => tables(data, little, at) is Some ==> lists_are_safe(
            data,
            little,
            places->Some_0,
            sizes->Some_0,
            tables(data, little, at),
            setting,
        ),
    }
}

/// A directory of `count` entries at `base` makes no decoder panic. Where each sample has planes of
/// its own, only the first of them is decoded, so that colours cannot fill the image.
pub open spec fn directory_is_safe(data: Seq<u8>, little: bool, base: int, count: int) -> bool {
    let width = number_of(data, little, base, count, WIDTH, 0);
    let height = number_of(data, little, base, count, HEIGHT, 0);
    let samples = number_of(data, little, base, count, SAMPLES, 1);
    let rows = number_of(data, little, base, count, ROWS, height);
    let tile_width = number_of(data, little, base, count, TILE_WIDTH, 0);
    let tile_height = number_of(data, little, base, count, TILE_HEIGHT, 0);
    let photometric = number_of(data, little, base, count, PHOTOMETRIC, 9);
    let planar = number_of(data, little, base, count, PLANES, 1) == 2;
    let packed = number_of(data, little, base, count, COMPRESSION, 1) == 7;
    &&& planar ==> strips_countable(height, rows, samples)
    &&& planar ==> !(photometric == 2 && (samples == 3 || samples == 4))
    &&& tiles_countable(
        width,
        height,
        tile_width,
        tile_height,
        if planar {
            samples
        } else {
            1
        },
    )
    &&& packed ==> strips_are_safe(
        data,
        little,
        base,
        count,
        if photometric <= 1 {
            Setting::GreyStrip
        } else {
            Setting::Strip
        },
    )
}

/// A TIFF file makes no decoder panic. Only its first directory is read; where that does not fit
/// into the file, the file is refused.
pub open spec fn tiff_is_safe(data: Seq<u8>, little: bool) -> bool {
    data.len() >= 8 ==> {
        let place = long(data, little, 4);
        place + 2 <= data.len() ==> {
            let count = short(data, little, place);
            place + 6 + 12 * count <= data.len() ==> directory_is_safe(
                data,
                little,
                place + 2,
                count,
            )
        }
    }
}

/// A number of two bytes.
pub fn short_of(data: &[u8], little: bool, at: usize) -> (number: u32)
    requires
        at + 2 <= data@.len(),
    ensures
        number == short(data@, little, at as int),
        number <= 0xffff,
{
    if little {
        data[at] as u32 + 0x100 * data[at + 1] as u32
    } else {
        big_short_of(data, at)
    }
}

/// A number of four bytes.
pub fn long_of(data: &[u8], little: bool, at: usize) -> (number: u32)
    requires
        at + 4 <= data@.len(),
    ensures
        number == long(data@, little, at as int),
{
    let total: usize = data.len();
    assert(at + 4 <= total);
    if little {
        short_of(data, little, at) + 0x1_0000 * short_of(data, little, at + 2)
    } else {
        0x1_0000 * short_of(data, little, at) + short_of(data, little, at + 2)
    }
}

/// The last entry for the tag.
fn find_entry(data: &[u8], little: bool, base: usize, count: u32, tag: u32) -> (found: Option<
    usize,
>)
    requires
        base + 12 * count <= data@.len(),
        count <= 0xffff,
    ensures
        match found {
            Some(at) => {
                &&& entry(data@, little, base as int, count as int, tag) == Some(at as int)
                &&& at + 12 <= data@.len()
            },
            None => entry(data@, little, base as int, count as int, tag) is None,
        },
{
    let total: usize = data.len();
    let mut left: u32 = count;
    while left > 0
        invariant
            left <= count <= 0xffff,
            total == data@.len(),
            base + 12 * count <= total,
            entry(data@, little, base as int, count as int, tag) == entry(
                data@,
                little,
                base as int,
                left as int,
                tag,
            ),
        decreases left,
    {
        assert(base + 12 * left <= total);
        let at: usize = base + 12 * (left - 1) as usize;
        let kind: u32 = short_of(data, little, at + 2);
        if short_of(data, little, at) == tag && ((1 <= kind && kind <= 13) || (16 <= kind && kind
            <= 18)) {
            return Some(at);
        }
        left = left - 1;
    }
    None
}

/// The number of an entry.
fn value_of(data: &[u8], little: bool, at: usize) -> (number: u32)
    requires
        at + 12 <= data@.len(),
    ensures
        number == value(data@, little, at as int),
{
    let total: usize = data.len();
    assert(at + 12 <= total);
    let kind: u32 = short_of(data, little, at + 2);
    let place: u32 = long_of(data, little, at + 8);
    if long_of(data, little, at + 4) != 1 {
        0
    } else if kind == 1 {
        data[at + 8] as u32
    } else if kind == 3 {
        short_of(data, little, at + 8)
    } else if kind == 4 || kind == 13 {
        place
    } else if (kind == 16 || kind == 18) && place as u64 + 8 <= total as u64 {
        let first: u32 = long_of(data, little, place as usize);
        let second: u32 = long_of(data, little, place as usize + 4);
        if little {
            if second == 0 {
                first
            } else {
                0
            }
        } else {
            if first == 0 {
                second
            } else {
                0
            }
        }
    } else {
        0
    }
}

/// The number that goes with a tag.
fn find_number(
    data: &[u8],
    little: bool,
    base: usize,
    count: u32,
    tag: u32,
    otherwise: u32,
) -> (number: u32)
    requires
        base + 12 * count <= data@.len(),
        count <= 0xffff,
    ensures
        number == number_of(
            data@,
            little,
            base as int,
            count as int,
            tag,
            otherwise as int,
        ),
{
    match find_entry(data, little, base, count, tag) {
        Some(at) => value_of(data, little, at),
        None => otherwise,
    }
}

/// How many parts of the given length cover the whole.
fn count_parts(whole: u32, part: u32) -> (count: u32)
    requires
        whole >= 1,
        part >= 1,
    ensures
        count == parts(whole as int, part as int),
        count >= 1,
{
    assert(0 <= (whole - 1) / (part as int) <= whole - 1) by (nonlinear_arith)
        requires
            whole >= 1,
            part >= 1,
    ;
    (whole - 1) / part + 1
}

/// The product of two numbers.
fn product(one: u64, other: u64) -> (all: u128)
    ensures
        all == one * other,
{
    assert(0 <= one * other <= 0xffff_ffff_ffff_ffff * 0xffff_ffff_ffff_ffff) by (nonlinear_arith)
        requires
            0 <= one <= 0xffff_ffff_ffff_ffff,
            0 <= other <= 0xffff_ffff_ffff_ffff,
    ;
    one as u128 * other as u128
}

/// Whether the strips can be counted in 32 bits.
fn counts_strips(height: u32, rows: u32, samples: u32) -> (yes: bool)
    ensures
        yes == strips_countable(height as int, rows as int, samples as int),
{
    if height < 1 || rows < 1 {
        return true;
    }
    product(count_parts(height, rows) as u64, samples as u64) <= u32::MAX as u128
}

/// Whether the tiles can be counted.
fn counts_tiles(width: u32, height: u32, tile_width: u32, tile_height: u32, planes: u32) -> (yes:
    bool)
    ensures
        yes == tiles_countable(
            width as int,
            height as int,
            tile_width as int,
            tile_height as int,
            planes as int,
        ),
{
    if width < 1 || height < 1 || tile_width < 1 || tile_height < 1 {
        return true;
    }
    let most: u128 = usize::MAX as u128;
    let tiles: u128 = product(
        count_parts(height, tile_height) as u64,
        count_parts(width, tile_width) as u64,
    );
    width as u128 + tile_width as u128 <= most && height as u128 + tile_height as u128 <= most
        && tiles <= most && product(tiles as u64, planes as u64) <= most
}

/// How many bytes a number takes in a list of the given kind.
fn size_of_item(kind: u32) -> (size: u64)
    ensures
        size == item_size(kind as int),
        size <= 8,
{
    if kind == 1 {
        1
    } else if kind == 3 {
        2
    } else if kind == 4 || kind == 13 {
        4
    } else if kind == 16 || kind == 18 {
        8
    } else {
        0
    }
}

/// The place of a list, if it stands within the file.
fn find_list(data: &[u8], little: bool, at: usize, size: u64) -> (place: Option<usize>)
    requires
        at + 12 <= data@.len(),
        size <= 8,
    ensures
        match place {
            Some(found) => {
                &&& list_fits(data@, little, at as int, size as int)
                &&& found == list_place(data@, little, at as int, size as int)
            },
            None => !list_fits(data@, little, at as int, size as int),
        },
{
    let total: usize = data.len();
    assert(at + 12 <= total);
    let count: u64 = long_of(data, little, at + 4) as u64;
    assert(0 <= count * size <= 0xffff_ffff * 8) by (nonlinear_arith)
        requires
            0 <= count <= 0xffff_ffff,
            0 <= size <= 8,
    ;
    let bytes: u64 = count * size;
    if bytes <= 4 {
        return if bytes <= (total - at - 8) as u64 {
            Some(at + 8)
        } else {
            None
        };
    }
    let place: u64 = long_of(data, little, at + 8) as u64;
    if place <= total as u64 && bytes <= total as u64 - place {
        Some(place as usize)
    } else {
        None
    }
}

/// An item of a list of numbers.
fn item_of(data: &[u8], little: bool, at: usize, index: u64) -> (number: u64)
    requires
        at + 12 <= data@.len(),
        index < long(data@, little, at + 4),
        item_size(short(data@, little, at + 2)) > 0,
        list_fits(data@, little, at as int, item_size(short(data@, little, at + 2))),
    ensures
        number == item(data@, little, at as int, index as int),
{
    let total: usize = data.len();
    assert(at + 12 <= total);
    let size: u64 = size_of_item(short_of(data, little, at + 2));
    let count: u64 = long_of(data, little, at + 4) as u64;
    let place: usize = match find_list(data, little, at, size) {
        Some(found) => found,
        None => 0,
    };
    assert(index * size + size <= count * size) by (nonlinear_arith)
        requires
            index + 1 <= count,
            size >= 0,
    ;
    assert(index * size >= 0) by (nonlinear_arith)
        requires
            index >= 0,
            size >= 0,
    ;
    assert(place + index * size + size <= total);
    let here: usize = place + (index * size) as usize;
    if size == 1 {
        data[here] as u64
    } else if size == 2 {
        short_of(data, little, here) as u64
    } else if size == 4 {
        long_of(data, little, here) as u64
    } else if little {
        long_of(data, little, here) as u64 + 0x1_0000_0000 * long_of(data, little, here + 4) as u64
    } else {
        0x1_0000_0000 * long_of(data, little, here) as u64 + long_of(data, little, here + 4) as u64
    }
}

/// The part of a file from the given place on.
fn part_of(data: &[u8], place: u64, size: u64) -> (found: &[u8])
    ensures
        found@ == part(data@, place as int, size as int),
{
    let total: usize = data.len();
    if place >= total as u64 {
        let none = slice_subrange(data, total, total);
        assert(none@ == Seq::<u8>::empty());
        return none;
    }
    let start: usize = place as usize;
    if size >= (total - start) as u64 {
        let rest = slice_subrange(data, start, total);
        assert(rest@ == data@.skip(place as int));
        return rest;
    }
    slice_subrange(data, start, start + size as usize)
}

/// The tables that stand before each JPEG image.
fn tables_of(data: &[u8], little: bool, at: usize) -> (found: Option<&[u8]>)
    requires
        at + 12 <= data@.len(),
    ensures
        match found {
            Some(bytes) => tables(data@, little, at as int) == Some(bytes@),
            None => tables(data@, little, at as int) is None,
        },
{
    let total: usize = data.len();
    assert(at + 12 <= total);
    let count: u32 = long_of(data, little, at + 4);
    if short_of(data, little, at + 2) != 7 || count < 2 {
        return None;
    }
    match find_list(data, little, at, 1) {
        Some(place) => Some(slice_subrange(data, place, place + (count - 2) as usize)),
        None => None,
    }
}

/// Whether a JPEG image of a TIFF file makes no decoder panic.
fn check_strip(strip: &[u8], before: Option<&[u8]>, setting: Setting) -> (safe: bool)
    ensures
        safe == strip_is_safe(
            strip@,
            match before {
                Some(first) => Some(first@),
                None => None,
            },
            setting,
        ),
{
    match before {
        None => strip.len() < 2 || strip[0] != 0xff || strip[1] != 0xd8 || check_jpeg(
            strip,
            setting,
        ),
        Some(first) => {
            if strip.len() < 2 {
                return true;
            }
            let mut whole: Vec<u8> = Vec::new();
            let mut i: usize = 0;
            while i < first.len()
                invariant
                    i <= first@.len(),
                    whole@ == first@.take(i as int),
                decreases first.len() - i,
            {
                whole.push(first[i]);
                i = i + 1;
                assert(whole@ == first@.take(i as int));
            }
            assert(first@.take(i as int) == first@);
            let mut j: usize = 2;
            assert(whole@ == first@ + strip@.subrange(2, 2));
            while j < strip.len()
                invariant
                    2 <= j <= strip@.len(),
                    whole@ == first@ + strip@.subrange(2, j as int),
                decreases strip.len() - j,
            {
                whole.push(strip[j]);
                j = j + 1;
                assert(whole@ == first@ + strip@.subrange(2, j as int));
            }
            assert(strip@.subrange(2, j as int) == strip@.skip(2));
            whole.len() < 2 || whole[0] != 0xff || whole[1] != 0xd8 || check_jpeg(
                whole.as_slice(),
                setting,
            )
        },
    }
}

/// Whether the JPEG images that two lists give make no decoder panic.
fn check_lists(
    data: &[u8],
    little: bool,
    places: usize,
    sizes: usize,
    before: Option<&[u8]>,
    setting: Setting,
) -> (safe: bool)
    requires
        places + 12 <= data@.len(),
        sizes + 12 <= data@.len(),
    ensures
        safe == lists_are_safe(
            data@,
            little,
            places as int,
            sizes as int,
            match before {
                Some(first) => Some(first@),
                None => None,
            },
            setting,
        ),
{
    let total: usize = data.len();
    assert(places + 12 <= total && sizes + 12 <= total);
    let ghost first = match before {
        Some(bytes) => Some(bytes@),
        None => None,
    };
    let kind: u32 = short_of(data, little, places + 2);
    let other: u32 = short_of(data, little, sizes + 2);
    if kind == 2 || kind == 5 || other == 2 || other == 5 {
        return false;
    }
    let size: u64 = size_of_item(kind);
    let other_size: u64 = size_of_item(other);
    let count: u64 = long_of(data, little, places + 4) as u64;
    if size == 0 || other_size == 0 || count != long_of(data, little, sizes + 4) as u64 || find_list(
        data,
        little,
        places,
        size,
    ).is_none() || find_list(data, little, sizes, other_size).is_none() {
        return true;
    }
    let mut i: u64 = 0;
    while i < count
        invariant
            i <= count,
            total == data@.len(),
            places + 12 <= total,
            sizes + 12 <= total,
            count == long(data@, little, places + 4),
            count == long(data@, little, sizes + 4),
            item_size(short(data@, little, places + 2)) > 0,
            item_size(short(data@, little, sizes + 2)) > 0,
            list_fits(
                data@,
                little,
                places as int,
                item_size(short(data@, little, places + 2)),
            ),
            list_fits(data@, little, sizes as int, item_size(short(data@, little, sizes + 2))),
            first == match before {
                Some(bytes) => Some(bytes@),
                None => None,
            },
            forall|k: int|
                0 <= k < i ==> #[trigger] listed_strip_is_safe(
                    data@,
                    little,
                    places as int,
                    sizes as int,
                    k,
                    first,
                    setting,
                ),
        decreases count - i,
    {
        let strip = part_of(
            data,
            item_of(data, little, places, i),
            item_of(data, little, sizes, i),
        );
        if !check_strip(strip, before, setting) {
            assert(!listed_strip_is_safe(
                data@,
                little,
                places as int,
                sizes as int,
                i as int,
                first,
                setting,
            ));
            return false;
        }
        i = i + 1;
    }
    true
}

/// Whether the JPEG images in a TIFF file make no decoder panic.
fn check_strips(data: &[u8], little: bool, base: usize, count: u32, setting: Setting) -> (safe: bool)
    requires
        base + 12 * count <= data@.len(),
        count <= 0xffff,
    ensures
        safe == strips_are_safe(data@, little, base as int, count as int, setting),
{
    let strips = find_entry(data, little, base, count, STRIP_PLACES);
    let (found, given) = match strips {
        Some(at) => (Some(at), find_entry(data, little, base, count, STRIP_SIZES)),
        None => (
            find_entry(data, little, base, count, TILE_PLACES),
            find_entry(data, little, base, count, TILE_SIZES),
        ),
    };
    let (places, sizes) = match (found, given) {
        (Some(at), Some(other)) => (at, other),
        _ => {
            return true;
        },
    };
    match find_entry(data, little, base, count, JPEG_TABLES) {
        None => check_lists(data, little, places, sizes, None, setting),
        Some(at) => match tables_of(data, little, at) {
            Some(bytes) => check_lists(data, little, places, sizes, Some(bytes), setting),
            None => true,
        },
    }
}

/// Whether a directory makes no decoder panic.
fn check_directory(data: &[u8], little: bool, base: usize, count: u32) -> (safe: bool)
    requires
        base + 12 * count <= data@.len(),
        count <= 0xffff,
    ensures
        safe == directory_is_safe(data@, little, base as int, count as int),
{
    let width: u32 = find_number(data, little, base, count, WIDTH, 0);
    let height: u32 = find_number(data, little, base, count, HEIGHT, 0);
    let samples: u32 = find_number(data, little, base, count, SAMPLES, 1);
    let rows: u32 = find_number(data, little, base, count, ROWS, height);
    let tile_width: u32 = find_number(data, little, base, count, TILE_WIDTH, 0);
    let tile_height: u32 = find_number(data, little, base, count, TILE_HEIGHT, 0);
    let photometric: u32 = find_number(data, little, base, count, PHOTOMETRIC, 9);
    let planar: bool = find_number(data, little, base, count, PLANES, 1) == 2;
    let packed: bool = find_number(data, little, base, count, COMPRESSION, 1) == 7;
    let planes: u32 = if planar {
        samples
    } else {
        1
    };
    if planar && !counts_strips(height, rows, samples) {
        return false;
    }
    if planar && photometric == 2 && (samples == 3 || samples == 4) {
        return false;
    }
    if !counts_tiles(width, height, tile_width, tile_height, planes) {
        return false;
    }
    let setting = if photometric <= 1 {
        Setting::GreyStrip
    } else {
        Setting::Strip
    };
    !packed || check_strips(data, little, base, count, setting)
}

/// Whether a TIFF file makes no decoder panic.
pub fn check_tiff(data: &[u8], little: bool) -> (safe: bool)
    ensures
        safe == tiff_is_safe(data@, little),
{
    let total: usize = data.len();
    if total < 8 {
        return true;
    }
    let place: u64 = long_of(data, little, 4) as u64;
    if place + 2 > total as u64 {
        return true;
    }
    let count: u32 = short_of(data, little, place as usize);
    if place + 6 + 12 * count as u64 > total as u64 {
        return true;
    }
    check_directory(data, little, place as usize + 2, count)
}

} // verus!
