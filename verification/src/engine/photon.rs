//! The engine on `photon_rs`.
use super::foreign;
use super::foreign::{opened, resampled, stamped, written_files};
use super::steps::{
    applied, can_crop, can_resample, can_resize, can_take, can_take_all, colour_filter,
    colour_filter_of, contrast_effect, crop_effect, filter_effect, law_applied_in_parts,
    law_applied_once, law_applied_settled, law_can_take_in_parts, law_watermark_step,
    lemma_step_size, readable_size, resize_effect, resize_type_of, sample_filter_of, settled, size_after, size_after_all,
    step_effect, takes, walkable, watermark_effect,
};
use super::{Engine, SpecTransform};
use crate::format::{can_hold, written_alike, ImageFormat};
use crate::pb::resize::{ResizeType, SampleFilter};
use crate::pb::spec::Data;
use crate::pb::{Contrast, Crop, Filter, Fliph, Flipv, Resize, Spec, Watermark};
use crate::raster::{Picture, Raster};
use crate::safety::{decodes_safely, law_true_colour_is_safe, safe_to_open};
use vstd::prelude::*;

verus! {

/// The side of the square that the watermark is scaled to.
pub const WATERMARK_SIDE: u32 = 64;

/// Why no image can be had from some bytes.
#[derive(Clone, Copy, Debug, PartialEq, Eq, Structural)]
pub enum OpenError {
    /// The bytes are no image that can be read.
    UnreadableImage,
    /// The bytes are such that a decoder would panic on them.
    UnsafeImage,
}

/// An image being edited, and the mark that watermark steps stamp on it, if there is one.
pub struct Photon {
    pub image: Raster,
    pub watermark: Option<Raster>,
}

impl Photon {
    /// The image and the mark are well formed.
    pub open spec fn wf(self) -> bool {
        &&& self.image@.wf()
        &&& self.watermark matches Some(mark) ==> mark@.wf()
    }

    /// What the mark shows.
    pub open spec fn mark(self) -> Option<Picture> {
        match self.watermark {
            Some(mark) => Some(mark@),
            None => None,
        }
    }

    /// Reads an image file, to be edited with the given mark. Bytes that a decoder would panic on are
    /// refused unread.
    pub fn try_from(bytes: &[u8], watermark: Option<Raster>) -> (engine: Result<
        Photon,
        OpenError,
    >)
        requires
            watermark matches Some(mark) ==> mark@.wf(),
        ensures
            match engine {
                Ok(photon) => {
                    &&& safe_to_open(bytes@)
                    &&& photon.wf()
                    &&& photon.watermark == watermark
                    &&& opened(bytes@).contains(photon.image@)
                    &&& readable_size(bytes@) == Some((photon.image.width, photon.image.height))
                    &&& photon.image.width * photon.image.height <= 0x2000_0000
                },
                Err(OpenError::UnreadableImage) => safe_to_open(bytes@) && readable_size(bytes@) is None,
                Err(OpenError::UnsafeImage) => !safe_to_open(bytes@),
            },
    {
        if !decodes_safely(bytes) {
            return Err(OpenError::UnsafeImage);
        }
        match foreign::open_image(bytes) {
            Ok(image) => Ok(Photon { image, watermark }),
            Err(_) => Err(OpenError::UnreadableImage),
        }
    }
}

impl Engine for Photon {
    open spec fn can_apply(self, steps: Seq<Spec>) -> bool {
        self.wf() && can_take_all(steps, self.image.width, self.image.height)
    }

    open spec fn apply_effect(self, steps: Seq<Spec>, after: Self) -> bool {
        &&& after.wf()
        &&& after.watermark == self.watermark
        &&& applied(steps, self.mark(), self.image@, after.image@)
    }

    open spec fn can_generate(self, format: ImageFormat) -> bool {
        self.wf() && can_hold(format, self.image.width, self.image.height)
    }

    open spec fn generates(self, format: ImageFormat, file: Seq<u8>) -> bool {
        is_file_of(file, self.image@, format)
    }

    fn apply(&mut self, spec: &[Spec]) {
        let ghost start = *self;
        let mut i: usize = 0;
        assert(spec@.skip(0) == spec@);
        while i < spec.len()
            invariant
                i <= spec@.len(),
                self.wf(),
                self.watermark == start.watermark,
                can_take_all(spec@.skip(i as int), self.image.width, self.image.height),
                forall|after: Picture| #[trigger]
                    applied(spec@.skip(i as int), start.mark(), self.image@, after) ==> applied(
                        spec@,
                        start.mark(),
                        start.image@,
                        after,
                    ),
            decreases spec.len() - i,
        {
            let ghost before = *self;
            let ghost rest = spec@.skip(i as int);
            assert(rest.first() == spec@[i as int]);
            assert(rest.drop_first() == spec@.skip(i + 1));
            match &spec[i].data {
                Some(Data::Resize(v)) => self.transform(v),
                Some(Data::Crop(v)) => self.transform(v),
                Some(Data::Contrast(v)) => self.transform(v),
                Some(Data::Filter(v)) => self.transform(v),
                Some(Data::Fliph(v)) => self.transform(v),
                Some(Data::Flipv(v)) => self.transform(v),
                Some(Data::Watermark(v)) => self.transform(v),
                None => {},
            }
            proof {
                assert(step_effect(rest.first(), start.mark(), before.image@, self.image@));
                lemma_step_size(rest.first(), start.mark(), before.image@, self.image@);
                assert forall|after: Picture| #[trigger]
                    applied(spec@.skip(i + 1), start.mark(), self.image@, after) implies applied(
                    spec@,
                    start.mark(),
                    start.image@,
                    after,
                ) by {
                    assert(applied(rest, start.mark(), before.image@, after));
                }
            }
            i = i + 1;
        }
        assert(applied(spec@.skip(i as int), start.mark(), self.image@, self.image@));
    }

    fn generate(self, format: ImageFormat) -> (file: Vec<u8>) {
        image_to_buf(self.image, format)
    }
}

impl SpecTransform<&Resize> for Photon {
    open spec fn can_transform(self, op: &Resize) -> bool {
        self.wf() && can_resize(*op, self.image.width, self.image.height)
    }

    open spec fn transform_effect(self, op: &Resize, after: Self) -> bool {
        &&& after.wf()
        &&& after.watermark == self.watermark
        &&& resize_effect(*op, self.image@, after.image@)
    }

    fn transform(&mut self, op: &Resize) {
        let filter = sample_filter_of(op);
        let image = match resize_type_of(op) {
            ResizeType::Normal => foreign::resize(&self.image, op.width, op.height, filter),
            ResizeType::SeamCarve => foreign::seam_carve(&self.image, op.width, op.height),
        };
        self.image = image;
    }
}

impl SpecTransform<&Crop> for Photon {
    open spec fn can_transform(self, op: &Crop) -> bool {
        self.wf() && can_crop(*op, self.image.width, self.image.height)
    }

    open spec fn transform_effect(self, op: &Crop, after: Self) -> bool {
        &&& after.wf()
        &&& after.watermark == self.watermark
        &&& crop_effect(*op, self.image@, after.image@)
    }

    fn transform(&mut self, op: &Crop) {
        let image = foreign::crop(&self.image, op.x1, op.y1, op.x2, op.y2);
        proof {
            lemma_step_size(
                Spec { data: Some(Data::Crop(*op)) },
                None,
                self.image@,
                image@,
            );
        }
        self.image = image;
    }
}

impl SpecTransform<&Contrast> for Photon {
    open spec fn can_transform(self, op: &Contrast) -> bool {
        self.wf() && walkable(self.image.width, self.image.height)
    }

    open spec fn transform_effect(self, op: &Contrast, after: Self) -> bool {
        &&& after.wf()
        &&& after.watermark == self.watermark
        &&& contrast_effect(*op, self.image@, after.image@)
    }

    fn transform(&mut self, op: &Contrast) {
        self.image = foreign::adjust_contrast(&self.image, op.contrast);
    }
}

impl SpecTransform<&Flipv> for Photon {
    open spec fn can_transform(self, op: &Flipv) -> bool {
        self.wf() && walkable(self.image.width, self.image.height)
    }

    open spec fn transform_effect(self, op: &Flipv, after: Self) -> bool {
        &&& after.wf()
        &&& after.watermark == self.watermark
        &&& after.image@ == self.image@.flipped_v()
    }

    fn transform(&mut self, op: &Flipv) {
        let image = foreign::flipv(&self.image);
        proof {
            lemma_step_size(
                Spec { data: Some(Data::Flipv(*op)) },
                None,
                self.image@,
                image@,
            );
        }
        self.image = image;
    }
}

impl SpecTransform<&Fliph> for Photon {
    open spec fn can_transform(self, op: &Fliph) -> bool {
        self.wf() && walkable(self.image.width, self.image.height)
    }

    open spec fn transform_effect(self, op: &Fliph, after: Self) -> bool {
        &&& after.wf()
        &&& after.watermark == self.watermark
        &&& after.image@ == self.image@.flipped_h()
    }

    fn transform(&mut self, op: &Fliph) {
        let image = foreign::fliph(&self.image);
        proof {
            lemma_step_size(
                Spec { data: Some(Data::Fliph(*op)) },
                None,
                self.image@,
                image@,
            );
        }
        self.image = image;
    }
}

impl SpecTransform<&Filter> for Photon {
    open spec fn can_transform(self, op: &Filter) -> bool {
        self.wf() && (colour_filter(*op) is Some ==> walkable(self.image.width, self.image.height))
    }

    open spec fn transform_effect(self, op: &Filter, after: Self) -> bool {
        &&& after.wf()
        &&& after.watermark == self.watermark
        &&& filter_effect(*op, self.image@, after.image@)
    }

    fn transform(&mut self, op: &Filter) {
        match colour_filter_of(op) {
            Some(found) => {
                if let Some(name) = found.to_str() {
                    self.image = foreign::filter(&self.image, name);
                }
            },
            None => {},
        }
    }
}

impl SpecTransform<&Watermark> for Photon {
    open spec fn can_transform(self, op: &Watermark) -> bool {
        self.wf()
    }

    open spec fn transform_effect(self, op: &Watermark, after: Self) -> bool {
        &&& after.wf()
        &&& after.watermark == self.watermark
        &&& watermark_effect(*op, self.mark(), self.image@, after.image@)
    }

    fn transform(&mut self, op: &Watermark) {
        if let Some(mark) = &self.watermark {
            let image = foreign::watermark(&self.image, mark, op.x as i64, op.y as i64);
            self.image = image;
        }
    }
}

/// Applying a list of one step does what the transformation for that step does, and a step without
/// data leaves everything as it was.
pub proof fn law_apply_once(photon: Photon, step: Spec, after: Photon)
    requires
        photon.wf(),
    ensures
        photon.apply_effect(seq![step], after) <==> match step.data {
            Some(Data::Resize(op)) => photon.transform_effect(&op, after),
            Some(Data::Crop(op)) => photon.transform_effect(&op, after),
            Some(Data::Contrast(op)) => photon.transform_effect(&op, after),
            Some(Data::Filter(op)) => photon.transform_effect(&op, after),
            Some(Data::Fliph(op)) => photon.transform_effect(&op, after),
            Some(Data::Flipv(op)) => photon.transform_effect(&op, after),
            Some(Data::Watermark(op)) => photon.transform_effect(&op, after),
            None => {
                &&& after.wf()
                &&& after.image@ == photon.image@
                &&& after.watermark == photon.watermark
            },
        },
{
    law_applied_once(step, photon.mark(), photon.image@, after.image@);
}

/// An image can take a list of one step exactly if it can take that step.
pub proof fn law_can_apply_once(photon: Photon, step: Spec)
    ensures
        photon.can_apply(seq![step]) <==> photon.wf() && match step.data {
            Some(Data::Resize(op)) => photon.can_transform(&op),
            Some(Data::Crop(op)) => photon.can_transform(&op),
            Some(Data::Contrast(op)) => photon.can_transform(&op),
            Some(Data::Filter(op)) => photon.can_transform(&op),
            Some(Data::Fliph(op)) => photon.can_transform(&op),
            Some(Data::Flipv(op)) => photon.can_transform(&op),
            Some(Data::Watermark(op)) => photon.can_transform(&op),
            None => true,
        },
{
    let steps = seq![step];
    assert(steps.first() == step);
    assert(steps.drop_first().len() == 0);
    let (width, height) = (photon.image.width, photon.image.height);
    let (next_width, next_height) = size_after(step, width, height);
    assert(can_take_all(steps.drop_first(), next_width, next_height));
    assert(can_take_all(steps, width, height) == can_take(step, width, height));
}

/// Applying steps does to the image what the steps do, with the mark that the engine was given, and
/// keeps that mark.
pub proof fn law_apply_takes_the_steps(photon: Photon, steps: Seq<Spec>, after: Photon)
    requires
        photon.wf(),
    ensures
        photon.mark() is Some <==> photon.watermark is Some,
        photon.watermark matches Some(raster) ==> photon.mark() == Some(raster@),
        photon.apply_effect(steps, after) <==> {
            &&& after.wf()
            &&& after.watermark == photon.watermark
            &&& applied(steps, photon.mark(), photon.image@, after.image@)
        },
        photon.can_apply(steps) <==> can_take_all(steps, photon.image.width, photon.image.height),
{
}

/// Each transformation does to the image what the step that carries its numbers does, and is
/// possible exactly where that step is.
pub proof fn law_transform_takes_the_step(
    photon: Photon,
    resize: Resize,
    crop: Crop,
    contrast: Contrast,
    filter: Filter,
    watermark: Watermark,
    after: Photon,
)
    requires
        photon.wf(),
        after.wf(),
        after.watermark == photon.watermark,
    ensures
        ({
            let does = |data: Data|
                step_effect(
                    Spec { data: Some(data) },
                    photon.mark(),
                    photon.image@,
                    after.image@,
                );
            let can = |data: Data|
                can_take(Spec { data: Some(data) }, photon.image.width, photon.image.height);
            &&& photon.transform_effect(&resize, after) == does(Data::Resize(resize))
            &&& photon.transform_effect(&crop, after) == does(Data::Crop(crop))
            &&& photon.transform_effect(&contrast, after) == does(Data::Contrast(contrast))
            &&& photon.transform_effect(&filter, after) == does(Data::Filter(filter))
            &&& photon.transform_effect(&Fliph {  }, after) == does(Data::Fliph(Fliph {  }))
            &&& photon.transform_effect(&Flipv {  }, after) == does(Data::Flipv(Flipv {  }))
            &&& photon.transform_effect(&watermark, after) == does(Data::Watermark(watermark))
            &&& photon.can_transform(&resize) == can(Data::Resize(resize))
            &&& photon.can_transform(&crop) == can(Data::Crop(crop))
            &&& photon.can_transform(&contrast) == can(Data::Contrast(contrast))
            &&& photon.can_transform(&filter) == can(Data::Filter(filter))
            &&& photon.can_transform(&Fliph {  }) == can(Data::Fliph(Fliph {  }))
            &&& photon.can_transform(&Flipv {  }) == can(Data::Flipv(Flipv {  }))
            &&& photon.can_transform(&watermark) == can(Data::Watermark(watermark))
        }),
{
}

/// Applying two lists of steps in one go is applying the first list and then the second: what the one
/// may leave is what the other may leave.
pub proof fn law_apply_in_parts(photon: Photon, first: Seq<Spec>, second: Seq<Spec>, after: Photon)
    requires
        photon.wf(),
        after.wf(),
        after.watermark == photon.watermark,
    ensures
        photon.apply_effect(first + second, after) <==> exists|between: Picture| #[trigger]
            applied(first, photon.mark(), photon.image@, between) && applied(
                second,
                photon.mark(),
                between,
                after.image@,
            ),
        photon.can_apply(first + second) <==> photon.can_apply(first) && ({
            let (width, height) = size_after_all(first, photon.image.width, photon.image.height);
            can_take_all(second, width, height)
        }),
{
    law_applied_in_parts(first, second, photon.mark(), photon.image@, after.image@);
    law_can_take_in_parts(first, second, photon.image.width, photon.image.height);
}

/// Where every step of both lists is settled, applying them in one go leaves the image that applying
/// the first list and then the second leaves.
pub proof fn law_apply_twice_settled(
    photon: Photon,
    first: Seq<Spec>,
    second: Seq<Spec>,
    between: Photon,
    one: Photon,
    other: Photon,
)
    requires
        photon.wf(),
        forall|i: int| 0 <= i < first.len() ==> settled(#[trigger] first[i]),
        forall|i: int| 0 <= i < second.len() ==> settled(#[trigger] second[i]),
        photon.apply_effect(first, between),
        between.apply_effect(second, one),
        photon.apply_effect(first + second, other),
    ensures
        one.image@ == other.image@,
        one.watermark == other.watermark,
{
    let all = first + second;
    law_applied_in_parts(first, second, photon.mark(), photon.image@, one.image@);
    assert(applied(first, photon.mark(), photon.image@, between.image@));
    assert forall|i: int| 0 <= i < all.len() implies settled(#[trigger] all[i]) by {
        if i < first.len() {
            assert(settled(first[i]));
        } else {
            assert(settled(second[i - first.len()]));
        }
    }
    law_applied_settled(all, photon.mark(), photon.image@, one.image@, other.image@);
}

/// The logo can be scaled to the mark.
pub open spec fn can_be_mark(logo: Picture) -> bool {
    can_resample(logo.width, logo.height, WATERMARK_SIDE, WATERMARK_SIDE, SampleFilter::Nearest)
}

/// The mark is the logo, scaled to a small square by its nearest pixels.
pub open spec fn is_mark_of(mark: Picture, logo: Picture) -> bool {
    &&& mark.wf()
    &&& mark.width == WATERMARK_SIDE
    &&& mark.height == WATERMARK_SIDE
    &&& resampled(logo, WATERMARK_SIDE, WATERMARK_SIDE, SampleFilter::Nearest) == set![mark.pixels]
}

/// Scales a logo to the mark that watermark steps stamp.
pub fn scale_mark(logo: &Raster) -> (mark: Raster)
    requires
        logo@.wf(),
        can_be_mark(logo@),
    ensures
        is_mark_of(mark@, logo@),
{
    foreign::resize(logo, WATERMARK_SIDE, WATERMARK_SIDE, SampleFilter::Nearest)
}

/// A mark can be made out of the data: they are an image that can be read, and the machine can
/// address the sheet of pixels that scaling it takes.
pub open spec fn holds_mark(data: Seq<u8>) -> bool {
    &&& safe_to_open(data)
    &&& readable_size(data) matches Some((width, height)) && can_resample(
        width,
        height,
        WATERMARK_SIDE,
        WATERMARK_SIDE,
        SampleFilter::Nearest,
    )
}

/// Makes the mark that watermark steps stamp out of an image file. Where none can be made, watermark
/// steps do nothing.
pub fn watermark(data: &[u8]) -> (mark: Option<Raster>)
    ensures
        mark is Some <==> holds_mark(data@),
        mark matches Some(square) ==> exists|logo: Picture| #[trigger]
            opened(data@).contains(logo) && is_mark_of(square@, logo),
{
    if !decodes_safely(data) {
        return None;
    }
    match foreign::open_image(data) {
        Ok(logo) => {
            let step = Spec::new_resize(WATERMARK_SIDE, WATERMARK_SIDE, SampleFilter::Nearest);
            if takes(&step, logo.width, logo.height) {
                Some(scale_mark(&logo))
            } else {
                None
            }
        },
        Err(_) => None,
    }
}

/// A mark is 64 pixels wide and 64 high, whatever the logo: the nearest pixels of the logo.
pub proof fn law_mark_is_a_small_square(mark: Picture, logo: Picture)
    requires
        is_mark_of(mark, logo),
    ensures
        mark.width == 64,
        mark.height == 64,
        mark.pixels.len() == 4 * 64 * 64,
        resampled(logo, 64, 64, SampleFilter::Nearest) == set![mark.pixels],
{
}

/// A mark can be made of any image file that can be opened and read, as long as the 64 rows of it
/// that scaling takes can be addressed, or it is of the size of a mark already.
pub proof fn law_readable_logo_makes_a_mark(data: Seq<u8>)
    ensures
        holds_mark(data) <==> safe_to_open(data) && match readable_size(data) {
            Some((width, height)) => (width == 64 && height == 64) || 16 * (width * 64)
                <= isize::MAX,
            None => false,
        },
{
    assert(4 * (WATERMARK_SIDE * WATERMARK_SIDE) == 16384);
}

/// A watermark step with a mark that was made of a logo stamps it in column `op.x` and row `op.y`:
/// every pixel outside the 64 columns and the 64 rows from there on stays as it was.
pub proof fn law_mark_stays_in_its_square(
    photon: Photon,
    logo: Picture,
    op: Watermark,
    after: Photon,
    x: int,
    y: int,
    c: int,
)
    requires
        photon.wf(),
        photon.mark() matches Some(mark) && is_mark_of(mark, logo),
        photon.transform_effect(&op, after),
        photon.image@.inside(x, y, c),
    ensures
        after.image@.pixels == stamped(
            photon.image@,
            photon.mark()->Some_0,
            op.x as i64,
            op.y as i64,
        ),
        !(op.x <= x < op.x + 64 && op.y <= y < op.y + 64) ==> after.image@.channel(x, y, c)
            == photon.image@.channel(x, y, c),
{
    law_watermark_step(op, photon.mark()->Some_0, photon.image@, after.image@, x, y, c);
}

/// The file is the image in the given format: any that may be written for it, or the one that is
/// written for it everywhere. A PNG file can be opened, and one of up to 512 MiB of pixels gives the
/// image back as it was.
pub open spec fn is_file_of(file: Seq<u8>, image: Picture, format: ImageFormat) -> bool {
    &&& written_files(image, format).contains(file)
    &&& written_alike(format) ==> written_files(image, format) == set![file]
    &&& format == ImageFormat::Png ==> safe_to_open(file)
    &&& format == ImageFormat::Png && image.pixels.len() <= 0x2000_0000 ==> opened(file) == set![
        image,
    ]
}

/// What is written for an image is one of the files that go with this image in the format asked for;
/// as JPEG, PNM, TGA or BMP it is the only one.
pub proof fn law_written_file_is_of_the_image(file: Seq<u8>, image: Picture, format: ImageFormat)
    ensures
        is_file_of(file, image, format) ==> written_files(image, format).contains(file),
        is_file_of(file, image, ImageFormat::Jpeg) <==> written_files(image, ImageFormat::Jpeg)
            == set![file],
        is_file_of(file, image, ImageFormat::Pnm) <==> written_files(image, ImageFormat::Pnm)
            == set![file],
        is_file_of(file, image, ImageFormat::Tga) <==> written_files(image, ImageFormat::Tga)
            == set![file],
        is_file_of(file, image, ImageFormat::Bmp) <==> written_files(image, ImageFormat::Bmp)
            == set![file],
{
}

/// An engine writes the image that it holds, in the format asked for.
pub proof fn law_generate_writes_the_image(photon: Photon, format: ImageFormat, file: Seq<u8>)
    requires
        photon.wf(),
    ensures
        photon.generates(format, file) <==> is_file_of(file, photon.image@, format),
        photon.can_generate(format) <==> can_hold(format, photon.image.width, photon.image.height),
{
}

/// Writes an image out in the given format.
pub fn image_to_buf(image: Raster, format: ImageFormat) -> (file: Vec<u8>)
    requires
        image@.wf(),
        can_hold(format, image.width, image.height),
    ensures
        is_file_of(file@, image@, format),
{
    let file = foreign::write_image(image, format);
    proof {
        if format == ImageFormat::Png {
            law_true_colour_is_safe(file@);
        }
    }
    file
}

} // verus!
