//! The chunks of WebP files.
use super::bits::{read, read_bits, MAX_CHUNK};
use super::frames::{frame, read_frame, MAX_SIDE};
use crate::safety::Ending;
use vstd::arithmetic::power2::{lemma2_to64, pow2};
use vstd::prelude::*;
use vstd::slice::slice_subrange;

verus! {

/// What a chunk holds, as far as it matters here.
#[derive(Clone, Copy, Debug, PartialEq, Eq, Structural)]
pub enum Kind {
    Lossy,
    Lossless,
    Extended,
    Alpha,
    Frame,
    Other,
}

/// A number of two bytes, the lower first.
pub open spec fn two_bytes(data: Seq<u8>, at: int) -> int {
    data[at] + 0x100 * data[at + 1]
}

/// A number of three bytes, the lowest first.
pub open spec fn three_bytes(data: Seq<u8>, at: int) -> int {
    two_bytes(data, at) + 0x1_0000 * data[at + 2]
}

/// A number of four bytes, the lowest first.
pub open spec fn four_bytes(data: Seq<u8>, at: int) -> int {
    three_bytes(data, at) + 0x100_0000 * data[at + 3]
}

/// The kind that a chunk has by its name: the names are `VP8 `, `VP8L`, `VP8X`, `ALPH` and `ANMF`.
pub open spec fn kind_at(data: Seq<u8>, at: int) -> Kind {
    if data[at] == 0x56 && data[at + 1] == 0x50 && data[at + 2] == 0x38 {
        if data[at + 3] == 0x20 {
            Kind::Lossy
        } else if data[at + 3] == 0x4c {
            Kind::Lossless
        } else if data[at + 3] == 0x58 {
            Kind::Extended
        } else {
            Kind::Other
        }
    } else if data[at] == 0x41 && data[at + 1] == 0x4c && data[at + 2] == 0x50 && data[at + 3]
        == 0x48 {
        Kind::Alpha
    } else if data[at] == 0x41 && data[at + 1] == 0x4e && data[at + 2] == 0x4d && data[at + 3]
        == 0x46 {
        Kind::Frame
    } else {
        Kind::Other
    }
}

/// The place after a chunk: a chunk of an odd number of bytes is followed by one more, and the
/// last one may be cut off.
pub open spec fn chunk_end(data: Seq<u8>, at: int) -> int {
    let size = four_bytes(data, at + 4);
    let end = at + 8 + size + size % 2;
    if end < data.len() {
        end
    } else {
        data.len() as int
    }
}

/// What a chunk holds. Of a chunk of an odd number of bytes the last byte that is there is left
/// away, also if the chunk was cut off.
pub open spec fn chunk_body(data: Seq<u8>, at: int) -> Seq<u8> {
    let end = chunk_end(data, at);
    if four_bytes(data, at + 4) % 2 == 1 && end > at + 8 {
        data.subrange(at + 8, end - 1)
    } else {
        data.subrange(at + 8, end)
    }
}

/// The number of pixels of a lossy frame, by its header; none if the header is refused.
pub open spec fn lossy_area(body: Seq<u8>) -> Option<int> {
    if body.len() >= 10 && body[0] % 2 == 0 && body[3] == 0x9d && body[4] == 0x01 && body[5]
        == 0x2a {
        Some((two_bytes(body, 6) % 0x4000) * (two_bytes(body, 8) % 0x4000))
    } else {
        None
    }
}

/// The width and height of a lossless frame, and how reading it goes on.
pub open spec fn lossless_size(body: Seq<u8>) -> Result<(u16, u16), Ending> {
    if body.len() == 0 || body[0] != 0x2f {
        Err(Ending::Fails)
    } else {
        match read(body, 8, 14) {
            Err(ending) => Err(ending),
            Ok((width, _)) => match read(body, 22, 14) {
                Err(ending) => Err(ending),
                Ok((height, _)) => match read(body, 36, 4) {
                    Err(ending) => Err(ending),
                    Ok((rest, _)) => if rest >= 2 {
                        Err(Ending::Fails)
                    } else {
                        Ok(((width + 1) as u16, (height + 1) as u16))
                    },
                },
            },
        }
    }
}

/// A lossless frame makes no decoder panic.
pub open spec fn lossless_is_safe(body: Seq<u8>) -> bool {
    lossless_size(body) matches Ok((width, height)) ==> frame(body, 40, width, height) != Err::<
        u64,
        Ending,
    >(Ending::Panics)
}

/// The alpha channel of a frame of the given size makes no decoder panic: it is written plainly, or
/// as a lossless frame without a header. The decoder refuses sides of more than sixteen bits.
pub open spec fn alpha_is_safe(body: Seq<u8>, width: int, height: int) -> bool {
    body.len() > 0 && body[0] % 4 == 1 && width <= 0xffff && height <= 0xffff ==> {
        &&& width <= MAX_SIDE
        &&& height <= MAX_SIDE
        &&& frame(body, 8, width as u16, height as u16) != Err::<u64, Ending>(Ending::Panics)
    }
}

/// The first frame of an animation makes no decoder panic on a canvas of the given size. A frame
/// that covers the canvas has to have its size; another has to have an alpha channel, and no fewer
/// pixels than it says.
pub open spec fn animation_is_safe(body: Seq<u8>, width: int, height: int) -> bool {
    body.len() >= 24 ==> {
        let w = three_bytes(body, 6) + 1;
        let h = three_bytes(body, 9) + 1;
        let whole = w == width && h == height;
        let inner = chunk_body(body, 16);
        let next = chunk_end(body, 16);
        match kind_at(body, 16) {
            Kind::Lossy => lossy_area(inner) matches Some(area) ==> whole && area == width * height,
            Kind::Lossless => {
                &&& lossless_is_safe(inner)
                &&& lossless_size(inner) matches Ok((a, b)) ==> whole || a * b >= w * h
            },
            Kind::Alpha => {
                &&& alpha_is_safe(inner, w, h)
                &&& next + 8 <= body.len() && kind_at(body, next) == Kind::Lossy ==> (lossy_area(
                    chunk_body(body, next),
                ) matches Some(area) ==> if whole {
                    area == width * height
                } else {
                    area >= w * h
                })
            },
            _ => true,
        }
    }
}

/// The image that an extended file holds at the given place makes no decoder panic on a canvas of
/// the given size. After an alpha channel comes a lossy frame, or the decoder gives up.
pub open spec fn image_is_safe(data: Seq<u8>, at: int, width: int, height: int) -> bool {
    let body = chunk_body(data, at);
    let next = chunk_end(data, at);
    match kind_at(data, at) {
        Kind::Lossy => lossy_area(body) matches Some(area) ==> area == width * height,
        Kind::Lossless => lossless_is_safe(body),
        Kind::Alpha => {
            &&& alpha_is_safe(body, width, height)
            &&& next + 8 <= data.len() && kind_at(data, next) == Kind::Lossy ==> (lossy_area(
                chunk_body(data, next),
            ) matches Some(area) ==> area == width * height)
        },
        _ => true,
    }
}

/// No chunk of an extended file from the given place on makes a decoder panic. Only the first image
/// is decoded, and of an animation only the first frame.
pub open spec fn chunks_are_safe(
    data: Seq<u8>,
    at: int,
    width: int,
    height: int,
    still: bool,
    animated: bool,
) -> bool
    decreases data.len() - at,
{
    at + 8 > data.len() || {
        let kind = kind_at(data, at);
        let pictured = kind == Kind::Lossy || kind == Kind::Lossless || kind == Kind::Alpha;
        &&& pictured && !still ==> image_is_safe(data, at, width, height)
        &&& kind == Kind::Frame && !animated ==> animation_is_safe(
            chunk_body(data, at),
            width,
            height,
        )
        &&& chunk_end(data, at) > at && chunks_are_safe(
            data,
            chunk_end(data, at),
            width,
            height,
            still || pictured,
            animated || kind == Kind::Frame,
        )
    }
}

/// No chunk of an extended file makes a decoder panic, by the header that says how large the canvas
/// is.
pub open spec fn extended_is_safe(data: Seq<u8>, header: Seq<u8>, at: int) -> bool {
    header.len() >= 10 ==> {
        let width = three_bytes(header, 4) + 1;
        let height = three_bytes(header, 7) + 1;
        width * height <= u32::MAX ==> chunks_are_safe(data, at, width, height, false, false)
    }
}

/// A WebP file makes no decoder panic: a lossy one never does.
pub open spec fn webp_is_safe(data: Seq<u8>) -> bool {
    data.len() >= 20 ==> match kind_at(data, 12) {
        Kind::Lossless => lossless_is_safe(chunk_body(data, 12)),
        Kind::Extended => extended_is_safe(data, chunk_body(data, 12), chunk_end(data, 12)),
        _ => true,
    }
}

/// A number of two bytes.
fn two_bytes_of(data: &[u8], at: usize) -> (value: u32)
    requires
        at + 2 <= data@.len(),
    ensures
        value == two_bytes(data@, at as int),
        value <= 0xffff,
{
    data[at] as u32 + 0x100 * data[at + 1] as u32
}

/// A number of three bytes.
fn three_bytes_of(data: &[u8], at: usize) -> (value: u32)
    requires
        at + 3 <= data@.len(),
    ensures
        value == three_bytes(data@, at as int),
        value <= 0xff_ffff,
{
    let total: usize = data.len();
    assert(at + 3 <= total);
    two_bytes_of(data, at) + 0x1_0000 * data[at + 2] as u32
}

/// The kind of a chunk.
fn kind_of(data: &[u8], at: usize) -> (kind: Kind)
    requires
        at + 4 <= data@.len(),
    ensures
        kind == kind_at(data@, at as int),
{
    let a: u8 = data[at];
    let b: u8 = data[at + 1];
    let c: u8 = data[at + 2];
    let d: u8 = data[at + 3];
    if a == 0x56 && b == 0x50 && c == 0x38 {
        if d == 0x20 {
            Kind::Lossy
        } else if d == 0x4c {
            Kind::Lossless
        } else if d == 0x58 {
            Kind::Extended
        } else {
            Kind::Other
        }
    } else if a == 0x41 && b == 0x4c && c == 0x50 && d == 0x48 {
        Kind::Alpha
    } else if a == 0x41 && b == 0x4e && c == 0x4d && d == 0x46 {
        Kind::Frame
    } else {
        Kind::Other
    }
}

/// Where a chunk ends, and what it holds.
fn chunk_of(data: &[u8], at: usize) -> (chunk: (&[u8], usize))
    requires
        at + 8 <= data@.len(),
    ensures
        chunk.0@ == chunk_body(data@, at as int),
        chunk.0@.len() <= MAX_CHUNK,
        chunk.1 == chunk_end(data@, at as int),
        at + 8 <= chunk.1 <= data@.len(),
{
    let total: usize = data.len();
    assert(at + 8 <= total);
    let size: u64 = three_bytes_of(data, at + 4) as u64 + 0x100_0000 * data[at + 7] as u64;
    let padded: u64 = size + size % 2;
    let there: u64 = (total - at - 8) as u64;
    let taken: u64 = if padded < there {
        padded
    } else {
        there
    };
    let end: usize = at + 8 + taken as usize;
    if size % 2 == 1 && taken > 0 {
        (slice_subrange(data, at + 8, end - 1), end)
    } else {
        (slice_subrange(data, at + 8, end), end)
    }
}

/// The number of pixels of a lossy frame.
fn lossy_area_of(body: &[u8]) -> (area: Option<u64>)
    ensures
        match area {
            Some(pixels) => lossy_area(body@) == Some(pixels as int),
            None => lossy_area(body@) is None,
        },
{
    if body.len() >= 10 && body[0] % 2 == 0 && body[3] == 0x9d && body[4] == 0x01 && body[5]
        == 0x2a {
        let width: u64 = (two_bytes_of(body, 6) % 0x4000) as u64;
        let height: u64 = (two_bytes_of(body, 8) % 0x4000) as u64;
        assert(0 <= width * height <= 0x4000 * 0x4000) by (nonlinear_arith)
            requires
                0 <= width <= 0x4000,
                0 <= height <= 0x4000,
        ;
        Some(width * height)
    } else {
        None
    }
}

/// The width and height of a lossless frame.
fn lossless_size_of(body: &[u8]) -> (size: Result<(u16, u16), Ending>)
    requires
        body@.len() <= MAX_CHUNK,
    ensures
        size == lossless_size(body@),
        size matches Ok((width, _)) ==> width > 0 && body@.len() >= 5,
{
    if body.len() == 0 || body[0] != 0x2f {
        return Err(Ending::Fails);
    }
    proof {
        lemma2_to64();
    }
    match read_bits(body, 8, 14) {
        Err(ending) => Err(ending),
        Ok((width, a)) => match read_bits(body, a, 14) {
            Err(ending) => Err(ending),
            Ok((height, b)) => match read_bits(body, b, 4) {
                Err(ending) => Err(ending),
                Ok((rest, _)) => if rest >= 2 {
                    Err(Ending::Fails)
                } else {
                    Ok(((width + 1) as u16, (height + 1) as u16))
                },
            },
        },
    }
}

/// Whether a lossless frame makes no decoder panic.
fn check_lossless(body: &[u8]) -> (safe: bool)
    requires
        body@.len() <= MAX_CHUNK,
    ensures
        safe == lossless_is_safe(body@),
{
    match lossless_size_of(body) {
        Ok((width, height)) => match read_frame(body, 40, width, height) {
            Err(Ending::Panics) => false,
            _ => true,
        },
        Err(_) => true,
    }
}

/// Whether an alpha channel makes no decoder panic.
fn check_alpha(body: &[u8], width: u32, height: u32) -> (safe: bool)
    requires
        body@.len() <= MAX_CHUNK,
        width > 0,
    ensures
        safe == alpha_is_safe(body@, width as int, height as int),
{
    if body.len() > 0 && body[0] % 4 == 1 && width <= 0xffff && height <= 0xffff {
        width <= MAX_SIDE as u32 && height <= MAX_SIDE as u32 && match read_frame(
            body,
            8,
            width as u16,
            height as u16,
        ) {
            Err(Ending::Panics) => false,
            _ => true,
        }
    } else {
        true
    }
}

/// The product of two numbers.
fn area_of(width: u32, height: u32) -> (area: u64)
    ensures
        area == width * height,
{
    assert(0 <= width * height <= 0xffff_ffff * 0xffff_ffff) by (nonlinear_arith)
        requires
            0 <= width <= 0xffff_ffff,
            0 <= height <= 0xffff_ffff,
    ;
    width as u64 * height as u64
}

/// Whether the first frame of an animation makes no decoder panic.
fn check_animation(body: &[u8], width: u32, height: u32) -> (safe: bool)
    ensures
        safe == animation_is_safe(body@, width as int, height as int),
{
    if body.len() < 24 {
        return true;
    }
    let w: u32 = three_bytes_of(body, 6) + 1;
    let h: u32 = three_bytes_of(body, 9) + 1;
    let whole: bool = w == width && h == height;
    let canvas: u64 = area_of(width, height);
    let own: u64 = area_of(w, h);
    let (inner, next) = chunk_of(body, 16);
    match kind_of(body, 16) {
        Kind::Lossy => match lossy_area_of(inner) {
            Some(area) => whole && area == canvas,
            None => true,
        },
        Kind::Lossless => {
            check_lossless(inner) && match lossless_size_of(inner) {
                Ok((a, b)) => whole || area_of(a as u32, b as u32) >= own,
                Err(_) => true,
            }
        },
        Kind::Alpha => {
            if !check_alpha(inner, w, h) {
                return false;
            }
            if body.len() - next < 8 || kind_of(body, next) != Kind::Lossy {
                return true;
            }
            let (second, _) = chunk_of(body, next);
            match lossy_area_of(second) {
                Some(area) => if whole {
                    area == canvas
                } else {
                    area >= own
                },
                None => true,
            }
        },
        _ => true,
    }
}

/// Whether the image at the given place makes no decoder panic.
fn check_image(data: &[u8], at: usize, width: u32, height: u32) -> (safe: bool)
    requires
        at + 8 <= data@.len(),
        width > 0,
    ensures
        safe == image_is_safe(data@, at as int, width as int, height as int),
{
    let (body, next) = chunk_of(data, at);
    match kind_of(data, at) {
        Kind::Lossy => match lossy_area_of(body) {
            Some(area) => area == area_of(width, height),
            None => true,
        },
        Kind::Lossless => check_lossless(body),
        Kind::Alpha => {
            if !check_alpha(body, width, height) {
                return false;
            }
            if data.len() - next < 8 || kind_of(data, next) != Kind::Lossy {
                return true;
            }
            let (second, _) = chunk_of(data, next);
            match lossy_area_of(second) {
                Some(area) => area == area_of(width, height),
                None => true,
            }
        },
        _ => true,
    }
}

/// Whether no chunk of an extended file makes a decoder panic.
fn check_extended(data: &[u8], header: &[u8], at: usize) -> (safe: bool)
    requires
        at <= data@.len(),
    ensures
        safe == extended_is_safe(data@, header@, at as int),
{
    if header.len() < 10 {
        return true;
    }
    let width: u32 = three_bytes_of(header, 4) + 1;
    let height: u32 = three_bytes_of(header, 7) + 1;
    if area_of(width, height) > u32::MAX as u64 {
        return true;
    }
    let mut place: usize = at;
    let mut still: bool = false;
    let mut animated: bool = false;
    while data.len() - place >= 8
        invariant
            place <= data@.len(),
            header@.len() >= 10,
            width == three_bytes(header@, 4) + 1,
            height == three_bytes(header@, 7) + 1,
            width * height <= u32::MAX,
            chunks_are_safe(data@, at as int, width as int, height as int, false, false)
                == chunks_are_safe(
                data@,
                place as int,
                width as int,
                height as int,
                still,
                animated,
            ),
        decreases data@.len() - place,
    {
        let kind = kind_of(data, place);
        let (body, next) = chunk_of(data, place);
        if kind == Kind::Frame {
            if !animated && !check_animation(body, width, height) {
                return false;
            }
            animated = true;
        } else if kind == Kind::Lossy || kind == Kind::Lossless || kind == Kind::Alpha {
            if !still && !check_image(data, place, width, height) {
                return false;
            }
            still = true;
        }
        place = next;
    }
    true
}

/// Whether a WebP file makes no decoder panic.
pub fn check_webp(data: &[u8]) -> (safe: bool)
    ensures
        safe == webp_is_safe(data@),
{
    if data.len() < 20 {
        return true;
    }
    let (body, next) = chunk_of(data, 12);
    match kind_of(data, 12) {
        Kind::Lossless => check_lossless(body),
        Kind::Extended => check_extended(data, body, next),
        _ => true,
    }
}

/// A still extended file that holds nothing but a lossy frame after its header makes no decoder panic
/// exactly if the frame, where its own header can be read, has as many pixels as the canvas.
pub proof fn law_extended_lossy_still(data: Seq<u8>)
    requires
        data.len() >= 38,
        data[12] == 0x56 && data[13] == 0x50 && data[14] == 0x38 && data[15] == 0x58,
        data[16] == 10 && data[17] == 0 && data[18] == 0 && data[19] == 0,
        data[30] == 0x56 && data[31] == 0x50 && data[32] == 0x38 && data[33] == 0x20,
        chunk_end(data, 30) == data.len(),
    ensures
        ({
            let width = data[24] + 256 * data[25] + 65536 * data[26] + 1;
            let height = data[27] + 256 * data[28] + 65536 * data[29] + 1;
            width * height <= u32::MAX ==> (webp_is_safe(data) <==> match lossy_area(
                chunk_body(data, 30),
            ) {
                Some(area) => area == width * height,
                None => true,
            })
        }),
{
    assert(four_bytes(data, 16) == 10);
    assert(chunk_end(data, 12) == 30);
    let header = chunk_body(data, 12);
    assert(header == data.subrange(20, 30));
    assert(header.len() == 10);
    assert(three_bytes(header, 4) == data[24] + 256 * data[25] + 65536 * data[26]);
    assert(three_bytes(header, 7) == data[27] + 256 * data[28] + 65536 * data[29]);
    assert(kind_at(data, 30) == Kind::Lossy);
    let width = three_bytes(header, 4) + 1;
    let height = three_bytes(header, 7) + 1;
    assert(chunks_are_safe(data, data.len() as int, width, height, true, false));
}

} // verus!
