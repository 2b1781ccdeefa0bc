//! JPEG files, and the JPEG images that TIFF files hold.
use vstd::prelude::*;

verus! {

/// The longest side of an image whose blocks a decoder can always count in sixteen bits.
pub const MAX_JPEG_SIDE: u32 = 65528;

/// Where a JPEG image stands.
#[derive(Clone, Copy, Debug, PartialEq, Eq, Structural)]
pub enum Setting {
    /// In a file of its own.
    File,
    /// In a TIFF file, for several channels.
    Strip,
    /// In a TIFF file, for a single channel.
    GreyStrip,
}

/// A number of two bytes, the higher first.
pub open spec fn big_short(data: Seq<u8>, at: int) -> int {
    0x100 * data[at] + data[at + 1]
}

/// The segments of some kinds say how long they are, and are passed over or hold tables.
pub open spec fn has_length(kind: u8) -> bool {
    kind == 0xc4 || kind == 0xdb || kind == 0xdd || kind == 0xfe || 0xe0 <= kind <= 0xef
}

/// How many samples of a component of a frame stand side by side in a block.
pub open spec fn across(data: Seq<u8>, frame: int, index: int) -> int {
    data[frame + 11 + 3 * index] as int / 16
}

/// How many samples of a component stand one below the other.
pub open spec fn down(data: Seq<u8>, frame: int, index: int) -> int {
    data[frame + 11 + 3 * index] as int % 16
}

/// The most samples of any of the first `count` components that stand side by side.
pub open spec fn most_across(data: Seq<u8>, frame: int, count: int) -> int
    decreases count,
{
    if count <= 0 {
        0
    } else {
        let others = most_across(data, frame, count - 1);
        let one = across(data, frame, count - 1);
        if one > others {
            one
        } else {
            others
        }
    }
}

/// The most samples of any of the first `count` components that stand one below the other.
pub open spec fn most_down(data: Seq<u8>, frame: int, count: int) -> int
    decreases count,
{
    if count <= 0 {
        0
    } else {
        let others = most_down(data, frame, count - 1);
        let one = down(data, frame, count - 1);
        if one > others {
            one
        } else {
            others
        }
    }
}

/// A scan of a single component has more blocks than a decoder can count: all blocks of the longest
/// columns, and, where three samples go with a pixel, of the longest rows.
pub open spec fn overflows(data: Seq<u8>, frame: int, index: int) -> bool {
    let count = data[frame + 9] as int;
    ||| big_short(data, frame + 5) > MAX_JPEG_SIDE && down(data, frame, index) == most_down(
        data,
        frame,
        count,
    )
    ||| big_short(data, frame + 7) > MAX_JPEG_SIDE && across(data, frame, index) == 3
        && most_across(data, frame, count) == 3
}

/// A scan of a single component is of another one than the given, or its blocks can be counted.
pub open spec fn countable(data: Seq<u8>, frame: int, index: int, scan: int) -> bool {
    data[frame + 10 + 3 * index] == data[scan + 5] ==> !overflows(data, frame, index)
}

/// A scan of a frame makes no decoder panic. In one of several components the blocks are larger.
pub open spec fn scan_is_safe(data: Seq<u8>, frame: int, scan: int) -> bool {
    scan + 6 <= data.len() && data[scan + 4] == 1 ==> forall|index: int|
        0 <= index < data[frame + 9] ==> #[trigger] countable(data, frame, index, scan)
}

/// The scans of a frame from the given place on make no decoder panic. Between them stand tables
/// and other segments; a second frame, or what has no place there, is refused.
pub open spec fn scans_are_safe(data: Seq<u8>, frame: int, at: int) -> bool
    decreases data.len() - at,
{
    if at + 2 > data.len() {
        true
    } else if data[at] != 0xff || data[at + 1] == 0xff {
        scans_are_safe(data, frame, at + 1)
    } else if data[at + 1] == 0 || 0xd0 <= data[at + 1] <= 0xd7 {
        scans_are_safe(data, frame, at + 2)
    } else if (data[at + 1] == 0xda || has_length(data[at + 1])) && at + 4 <= data.len() {
        let size = big_short(data, at + 2);
        &&& data[at + 1] == 0xda ==> scan_is_safe(data, frame, at)
        &&& 2 <= size <= data.len() - at - 2 ==> scans_are_safe(data, frame, at + 2 + size)
    } else {
        true
    }
}

/// A frame header, and what follows it, make no decoder panic. The samples of a lossless frame have
/// to fill the place that a file has for them. The channels of an image that is to have a single one
/// are copied side by side, for which they must not be stretched. Where a side is long, the scans
/// decide.
pub open spec fn frame_is_safe(data: Seq<u8>, at: int, setting: Setting) -> bool {
    at + 10 <= data.len() && at + 10 + 3 * data[at + 9] <= data.len() ==> {
        let precision = data[at + 4];
        let count = data[at + 9] as int;
        if data[at + 1] == 0xc3 {
            setting == Setting::File ==> precision == 8 || (count == 1 && 9 <= precision <= 16)
        } else {
            &&& !(setting == Setting::GreyStrip && count >= 3 && most_across(data, at, count) >= 2)
            &&& big_short(data, at + 5) > MAX_JPEG_SIDE || big_short(data, at + 7) > MAX_JPEG_SIDE
                ==> scans_are_safe(data, at, at + 10 + 3 * count)
        }
    }
}

/// The segments of a JPEG image from the given place on make no decoder panic. The first frame
/// header decides; an image without one is refused.
pub open spec fn jpeg_is_safe(data: Seq<u8>, at: int, setting: Setting) -> bool
    decreases data.len() - at,
{
    if at + 2 > data.len() {
        true
    } else if data[at] != 0xff || data[at + 1] == 0xff {
        jpeg_is_safe(data, at + 1, setting)
    } else if data[at + 1] == 0 {
        jpeg_is_safe(data, at + 2, setting)
    } else if 0xc0 <= data[at + 1] <= 0xc3 {
        frame_is_safe(data, at, setting)
    } else if has_length(data[at + 1]) && at + 4 <= data.len() {
        let size = big_short(data, at + 2);
        2 <= size <= data.len() - at - 2 ==> jpeg_is_safe(data, at + 2 + size, setting)
    } else {
        true
    }
}

/// A number of two bytes, the higher first.
pub fn big_short_of(data: &[u8], at: usize) -> (value: u32)
    requires
        at + 2 <= data@.len(),
    ensures
        value == big_short(data@, at as int),
        value <= 0xffff,
{
    0x100 * data[at] as u32 + data[at + 1] as u32
}

/// Whether the segments of a kind say how long they are.
fn says_length(kind: u8) -> (yes: bool)
    ensures
        yes == has_length(kind),
{
    kind == 0xc4 || kind == 0xdb || kind == 0xdd || kind == 0xfe || (0xe0 <= kind && kind <= 0xef)
}

/// The most that any component of a frame is sampled across and down.
fn most_sampled(data: &[u8], frame: usize) -> (most: (u8, u8))
    requires
        frame + 10 <= data@.len(),
        frame + 10 + 3 * data@[frame + 9] <= data@.len(),
    ensures
        most.0 == most_across(data@, frame as int, data@[frame + 9] as int),
        most.1 == most_down(data@, frame as int, data@[frame + 9] as int),
{
    let total: usize = data.len();
    assert(frame + 10 <= total);
    let count: usize = data[frame + 9] as usize;
    let mut wide: u8 = 0;
    let mut tall: u8 = 0;
    let mut i: usize = 0;
    while i < count
        invariant
            total == data@.len(),
            i <= count <= 255,
            frame + 10 + 3 * count <= total,
            wide == most_across(data@, frame as int, i as int),
            tall == most_down(data@, frame as int, i as int),
        decreases count - i,
    {
        let factors: u8 = data[frame + 11 + 3 * i];
        if factors / 16 > wide {
            wide = factors / 16;
        }
        if factors % 16 > tall {
            tall = factors % 16;
        }
        i = i + 1;
    }
    (wide, tall)
}

/// Whether a scan of a frame makes no decoder panic.
fn check_scan(data: &[u8], frame: usize, scan: usize) -> (safe: bool)
    requires
        frame + 10 <= data@.len(),
        frame + 10 + 3 * data@[frame + 9] <= data@.len(),
        scan + 4 <= data@.len(),
    ensures
        safe == scan_is_safe(data@, frame as int, scan as int),
{
    let total: usize = data.len();
    assert(frame + 10 <= total && scan + 4 <= total);
    if total - scan < 6 || data[scan + 4] != 1 {
        return true;
    }
    let count: usize = data[frame + 9] as usize;
    let long: bool = big_short_of(data, frame + 5) > MAX_JPEG_SIDE;
    let broad: bool = big_short_of(data, frame + 7) > MAX_JPEG_SIDE;
    let (wide, tall) = most_sampled(data, frame);
    let mut i: usize = 0;
    while i < count
        invariant
            total == data@.len(),
            i <= count <= 255,
            count == data@[frame + 9],
            frame + 10 + 3 * count <= total,
            scan + 6 <= total,
            data@[scan + 4] == 1,
            long == (big_short(data@, frame + 5) > MAX_JPEG_SIDE),
            broad == (big_short(data@, frame + 7) > MAX_JPEG_SIDE),
            wide == most_across(data@, frame as int, count as int),
            tall == most_down(data@, frame as int, count as int),
            forall|k: int|
                0 <= k < i ==> #[trigger] countable(data@, frame as int, k, scan as int),
        decreases count - i,
    {
        let factors: u8 = data[frame + 11 + 3 * i];
        if data[frame + 10 + 3 * i] == data[scan + 5] && ((long && factors % 16 == tall) || (broad
            && factors / 16 == 3 && wide == 3)) {
            assert(!countable(data@, frame as int, i as int, scan as int));
            return false;
        }
        i = i + 1;
    }
    true
}

/// Whether the scans of a frame make no decoder panic.
fn check_scans(data: &[u8], frame: usize, start: usize) -> (safe: bool)
    requires
        frame + 10 <= data@.len(),
        frame + 10 + 3 * data@[frame + 9] <= data@.len(),
        start <= data@.len(),
    ensures
        safe == scans_are_safe(data@, frame as int, start as int),
{
    let total: usize = data.len();
    let mut at: usize = start;
    while total - at >= 2
        invariant
            total == data@.len(),
            at <= total,
            frame + 10 <= total,
            frame + 10 + 3 * data@[frame + 9] <= total,
            scans_are_safe(data@, frame as int, start as int) == scans_are_safe(
                data@,
                frame as int,
                at as int,
            ),
        decreases total - at,
    {
        let kind: u8 = data[at + 1];
        if data[at] != 0xff || kind == 0xff {
            at = at + 1;
        } else if kind == 0 || (0xd0 <= kind && kind <= 0xd7) {
            at = at + 2;
        } else if (kind == 0xda || says_length(kind)) && total - at >= 4 {
            if kind == 0xda && !check_scan(data, frame, at) {
                return false;
            }
            let size: usize = big_short_of(data, at + 2) as usize;
            if size < 2 || size > total - at - 2 {
                return true;
            }
            at = at + 2 + size;
        } else {
            return true;
        }
    }
    true
}

/// Whether a frame header, and what follows it, make no decoder panic.
fn check_frame(data: &[u8], at: usize, setting: Setting) -> (safe: bool)
    requires
        at + 2 <= data@.len(),
    ensures
        safe == frame_is_safe(data@, at as int, setting),
{
    let total: usize = data.len();
    assert(at + 2 <= total);
    if total - at < 10 {
        return true;
    }
    let count: usize = data[at + 9] as usize;
    if total - at - 10 < 3 * count {
        return true;
    }
    let precision: u8 = data[at + 4];
    if data[at + 1] == 0xc3 {
        return setting != Setting::File || precision == 8 || (count == 1 && 9 <= precision
            && precision <= 16);
    }
    if setting == Setting::GreyStrip && count >= 3 && most_sampled(data, at).0 >= 2 {
        return false;
    }
    (big_short_of(data, at + 5) <= MAX_JPEG_SIDE && big_short_of(data, at + 7) <= MAX_JPEG_SIDE)
        || check_scans(data, at, at + 10 + 3 * count)
}

/// Whether the segments of a JPEG image, after its first two bytes, make no decoder panic.
pub fn check_jpeg(data: &[u8], setting: Setting) -> (safe: bool)
    ensures
        safe == jpeg_is_safe(data@, 2, setting),
{
    let total: usize = data.len();
    if total < 2 {
        return true;
    }
    let mut at: usize = 2;
    while total - at >= 2
        invariant
            total == data@.len(),
            at <= total,
            jpeg_is_safe(data@, 2, setting) == jpeg_is_safe(data@, at as int, setting),
        decreases total - at,
    {
        let kind: u8 = data[at + 1];
        if data[at] != 0xff || kind == 0xff {
            at = at + 1;
        } else if kind == 0 {
            at = at + 2;
        } else if 0xc0 <= kind && kind <= 0xc3 {
            return check_frame(data, at, setting);
        } else if says_length(kind) && total - at >= 4 {
            let size: usize = big_short_of(data, at + 2) as usize;
            if size < 2 || size > total - at - 2 {
                return true;
            }
            at = at + 2 + size;
        } else {
            return true;
        }
    }
    true
}

/// Every frame header, wherever one may be taken to stand, says sides that a decoder can count, and is
/// of a lossless frame only with samples of eight bits.
pub open spec fn has_ordinary_frames(data: Seq<u8>) -> bool {
    forall|i: int|
        0 <= i && i + 10 <= data.len() && #[trigger] data[i] == 0xff && 0xc0 <= data[i + 1] <= 0xc3
            ==> {
            &&& data[i + 1] == 0xc3 ==> data[i + 4] == 8
            &&& 256 * data[i + 5] + data[i + 6] <= 65528
            &&& 256 * data[i + 7] + data[i + 8] <= 65528
        }
}

/// An image whose frame headers are ordinary makes no decoder panic, from wherever it is read.
pub proof fn lemma_ordinary_jpeg(data: Seq<u8>, at: int)
    requires
        has_ordinary_frames(data),
        0 <= at,
    ensures
        jpeg_is_safe(data, at, Setting::File),
    decreases data.len() - at,
{
    if at + 2 > data.len() {
    } else if data[at] != 0xff || data[at + 1] == 0xff {
        lemma_ordinary_jpeg(data, at + 1);
    } else if data[at + 1] == 0 {
        lemma_ordinary_jpeg(data, at + 2);
    } else if 0xc0 <= data[at + 1] <= 0xc3 {
    } else if has_length(data[at + 1]) && at + 4 <= data.len() {
        let size = big_short(data, at + 2);
        if 2 <= size <= data.len() - at - 2 {
            lemma_ordinary_jpeg(data, at + 2 + size);
        }
    }
}

} // verus!
