//! The image operations that the outside crates perform, and what is taken on trust of them.
//!
//! Each function here hands plain pixels to the outside crate and takes plain pixels back.
use crate::engine::steps::{can_carve, can_resample, reproducible, walkable};
use crate::format::{can_hold, written_alike, ImageFormat};
use crate::pb::resize::SampleFilter;
use crate::raster::{Picture, Raster};
use crate::safety::png::is_true_colour;
use crate::safety::{begins, safe_to_open, PNG_START};
use image::{DynamicImage, ImageBuffer, ImageFormat as Known};
use photon_rs::native::open_image_from_bytes;
use photon_rs::transform::SamplingFilter;
use photon_rs::{effects, filters, multiple, transform, PhotonImage};
use std::io::Cursor;
use vstd::prelude::*;

verus! {

/// The error with which `photon_rs` refuses bytes that it cannot read as an image.
#[verifier::external_type_specification]
#[verifier::external_body]
pub struct ExPhotonError(photon_rs::native::Error);

/// The images that `open_image_from_bytes` may read from the given bytes: none where it refuses
/// them, else one for each way in which a machine may round.
pub uninterp spec fn opened(data: Seq<u8>) -> Set<Picture>;

/// The sheets of pixels that `transform::resize` may make of an image, one for each way in which a
/// machine may round.
pub uninterp spec fn resampled(
    image: Picture,
    width: u32,
    height: u32,
    filter: SampleFilter,
) -> Set<Seq<u8>>;

/// The pixels that `transform::seam_carve` keeps of an image.
pub uninterp spec fn carved(image: Picture, width: u32, height: u32) -> Seq<u8>;

/// The pixels that `effects::adjust_contrast` makes of an image, by the bit pattern of the amount.
pub uninterp spec fn contrasted(image: Picture, contrast: u32) -> Seq<u8>;

/// The pixels that `filters::filter` makes of an image, by the name of the filter.
pub uninterp spec fn filtered(image: Picture, name: Seq<char>) -> Seq<u8>;

/// The pixels that `multiple::watermark` makes of an image and a mark laid over it at `(x, y)`.
pub uninterp spec fn stamped(image: Picture, mark: Picture, x: i64, y: i64) -> Seq<u8>;

/// The files that `DynamicImage::write_to` may write for an image in the given format, one for each
/// way in which a machine may go about it.
pub uninterp spec fn written_files(image: Picture, format: ImageFormat) -> Set<Seq<u8>>;

/// `photon_rs::native::open_image_from_bytes` reads an image file of any format that it knows.
///
/// Whether it can, and the size of the image, depend on the bytes alone; it allows a decoder 512
/// MiB, so an image that it reads has at most that many pixels. Each pixel becomes four bytes. On
/// these bytes machines may differ in rounding, as the JPEG decoder does on processors with SSSE3,
/// so more than one image may go with a file. On some malformed files a decoder panics; those are
/// left out.
#[verifier::external_body]
pub(crate) fn open_image(data: &[u8]) -> (image: Result<Raster, photon_rs::native::Error>)
    requires
        safe_to_open(data@),
    ensures
        match image {
            Ok(raster) => {
                &&& opened(data@).contains(raster@)
                &&& forall|other: Picture| #[trigger]
                    opened(data@).contains(other) ==> other.width == raster.width && other.height
                        == raster.height
                &&& raster@.wf()
                &&& raster.width * raster.height <= 0x2000_0000
            },
            Err(_) => opened(data@) == Set::<Picture>::empty(),
        },
{
    let image = open_image_from_bytes(data)?;
    Ok(
        Raster {
            pixels: image.get_raw_pixels(),
            width: image.get_width(),
            height: image.get_height(),
        },
    )
}

/// `photon_rs::transform::resize` makes an image of exactly the width and height asked for.
///
/// Asked for the size that the image has, it copies the image. The filters for the nearest pixel
/// and for the triangle only add, multiply and divide, and so give the same pixels everywhere. The
/// others take powers, the exponential or the sine, whose last digits differ from machine to
/// machine, so more than one sheet of pixels may go with them.
#[verifier::external_body]
pub(crate) fn resize(
    image: &Raster,
    width: u32,
    height: u32,
    filter: SampleFilter,
) -> (made: Raster)
    requires
        image@.wf(),
        can_resample(image.width, image.height, width, height, filter),
    ensures
        made.width == width,
        made.height == height,
        made@.wf(),
        width == image.width && height == image.height ==> made@ == image@,
        resampled(image@, width, height, filter).contains(made.pixels@),
        reproducible(filter) ==> resampled(image@, width, height, filter) == set![made.pixels@],
{
    let source = PhotonImage::new(image.pixels.clone(), image.width, image.height);
    let filter = match filter {
        SampleFilter::Nearest => SamplingFilter::Nearest,
        SampleFilter::Triangle => SamplingFilter::Triangle,
        SampleFilter::CatmullRom => SamplingFilter::CatmullRom,
        SampleFilter::Gaussian => SamplingFilter::Gaussian,
        SampleFilter::Lanczos3 => SamplingFilter::Lanczos3,
    };
    let made = transform::resize(&source, width, height, filter);
    Raster { pixels: made.get_raw_pixels(), width: made.get_width(), height: made.get_height() }
}

/// `photon_rs::transform::seam_carve` takes seams out of an image until it is no wider and no
/// higher than asked for. A side that is short enough already stays as it is. The gradients by
/// which it chooses are rooted from squares of small whole numbers, which are exact everywhere.
#[verifier::external_body]
pub(crate) fn seam_carve(image: &Raster, width: u32, height: u32) -> (made: Raster)
    requires
        image@.wf(),
        can_carve(image.width, image.height, width, height),
    ensures
        made.width == if image.width <= width { image.width } else { width },
        made.height == if image.height <= height { image.height } else { height },
        made@.wf(),
        image.width <= width && image.height <= height ==> made@ == image@,
        made.pixels@ == carved(image@, width, height),
{
    let source = PhotonImage::new(image.pixels.clone(), image.width, image.height);
    let made = transform::seam_carve(&source, width, height);
    Raster { pixels: made.get_raw_pixels(), width: made.get_width(), height: made.get_height() }
}

/// `photon_rs::transform::crop` copies the pixels from `(x1, y1)` up to, and without, `(x2, y2)`.
#[verifier::external_body]
pub(crate) fn crop(image: &Raster, x1: u32, y1: u32, x2: u32, y2: u32) -> (made: Raster)
    requires
        image@.wf(),
        x1 <= x2,
        y1 <= y2,
        x1 < x2 && y1 < y2 ==> x2 <= image.width && y2 <= image.height,
        walkable((x2 - x1) as u32, (y2 - y1) as u32),
    ensures
        made@ == image@.cropped(x1, y1, x2, y2),
{
    let source = PhotonImage::new(image.pixels.clone(), image.width, image.height);
    let made = transform::crop(&source, x1, y1, x2, y2);
    Raster { pixels: made.get_raw_pixels(), width: made.get_width(), height: made.get_height() }
}

/// `photon_rs::transform::fliph` mirrors an image left to right.
#[verifier::external_body]
pub(crate) fn fliph(image: &Raster) -> (made: Raster)
    requires
        image@.wf(),
        walkable(image.width, image.height),
    ensures
        made@ == image@.flipped_h(),
{
    let mut picture = PhotonImage::new(image.pixels.clone(), image.width, image.height);
    transform::fliph(&mut picture);
    Raster { pixels: picture.get_raw_pixels(), width: image.width, height: image.height }
}

/// `photon_rs::transform::flipv` mirrors an image top to bottom.
#[verifier::external_body]
pub(crate) fn flipv(image: &Raster) -> (made: Raster)
    requires
        image@.wf(),
        walkable(image.width, image.height),
    ensures
        made@ == image@.flipped_v(),
{
    let mut picture = PhotonImage::new(image.pixels.clone(), image.width, image.height);
    transform::flipv(&mut picture);
    Raster { pixels: picture.get_raw_pixels(), width: image.width, height: image.height }
}

/// `photon_rs::effects::adjust_contrast` maps each colour byte through one table, which the
/// amount alone determines. The amount goes in as the bit pattern of a single.
#[verifier::external_body]
pub(crate) fn adjust_contrast(image: &Raster, contrast: u32) -> (made: Raster)
    requires
        image@.wf(),
        walkable(image.width, image.height),
    ensures
        made.width == image.width,
        made.height == image.height,
        made@.wf(),
        made.pixels@ == contrasted(image@, contrast),
{
    let mut picture = PhotonImage::new(image.pixels.clone(), image.width, image.height);
    let bits = contrast.to_be_bytes();
    effects::adjust_contrast(&mut picture, bytes::Buf::get_f32(&mut &bits[..]));
    Raster { pixels: picture.get_raw_pixels(), width: image.width, height: image.height }
}

/// `photon_rs::filters::filter` mixes each pixel with the colour of the filter that has the given
/// name.
#[verifier::external_body]
pub(crate) fn filter(image: &Raster, name: &str) -> (made: Raster)
    requires
        image@.wf(),
        walkable(image.width, image.height),
        name@ == "oceanic"@ || name@ == "islands"@ || name@ == "marine"@,
    ensures
        made.width == image.width,
        made.height == image.height,
        made@.wf(),
        made.pixels@ == filtered(image@, name@),
{
    let mut picture = PhotonImage::new(image.pixels.clone(), image.width, image.height);
    filters::filter(&mut picture, name);
    Raster { pixels: picture.get_raw_pixels(), width: image.width, height: image.height }
}

/// `photon_rs::multiple::watermark` lays a mark over an image, its top left corner at column `x` and
/// row `y`; what falls outside the image is left away. It changes no pixel outside the mark, keeps
/// those under a pixel of the mark whose alpha is 0, and replaces those under one whose alpha is
/// 255. How it mixes the two under any other is left to the name.
#[verifier::external_body]
pub(crate) fn watermark(image: &Raster, mark: &Raster, x: i64, y: i64) -> (made: Raster)
    requires
        image@.wf(),
        mark@.wf(),
    ensures
        made.width == image.width,
        made.height == image.height,
        made@.wf(),
        made.pixels@ == stamped(image@, mark@, x, y),
        image@.overlaid(mark@, x as int, y as int, made@),
{
    let mut picture = PhotonImage::new(image.pixels.clone(), image.width, image.height);
    let mark = PhotonImage::new(mark.pixels.clone(), mark.width, mark.height);
    multiple::watermark(&mut picture, &mark, x, y);
    Raster { pixels: picture.get_raw_pixels(), width: image.width, height: image.height }
}

/// `image::DynamicImage::write_to` writes an image out in the given format; JPEG, which has no alpha
/// channel, goes without it and in the standard quality.
///
/// The compressors of PNG, and so of ICO, go by what the processor can do, TIFF has the byte order
/// of the machine, and the encoders of GIF, QOI and WebP leave open whether they agree everywhere, so
/// more than one file may go with an image. A PNG file says that it has four
/// channels, and loses nothing: an image that takes at most 512 MiB is read from it as it was.
#[verifier::external_body]
pub(crate) fn write_image(image: Raster, format: ImageFormat) -> (file: Vec<u8>)
    requires
        image@.wf(),
        can_hold(format, image.width, image.height),
    ensures
        written_files(image@, format).contains(file@),
        written_alike(format) ==> written_files(image@, format) == set![file@],
        format == ImageFormat::Png ==> begins(file@, PNG_START@) && is_true_colour(file@),
        format == ImageFormat::Png && image@.pixels.len() <= 0x2000_0000 ==> opened(file@)
            == set![image@],
{
    let known = match format {
        ImageFormat::Png => Known::Png, ImageFormat::Jpeg => Known::Jpeg,
        ImageFormat::Gif => Known::Gif, ImageFormat::WebP => Known::WebP,
        ImageFormat::Pnm => Known::Pnm, ImageFormat::Tiff => Known::Tiff,
        ImageFormat::Tga => Known::Tga, ImageFormat::Bmp => Known::Bmp,
        ImageFormat::Ico => Known::Ico, ImageFormat::Qoi => Known::Qoi,
        _ => Known::Dds,
    };
    let buffer = ImageBuffer::from_vec(image.width, image.height, image.pixels).unwrap();
    let mut cursor = Cursor::new(Vec::new());
    DynamicImage::ImageRgba8(buffer).write_to(&mut cursor, known).unwrap();
    cursor.into_inner()
}

} // verus!
