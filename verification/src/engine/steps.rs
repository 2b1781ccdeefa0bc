//! What the editing steps do to an image, and which steps an image can take.
use crate::engine::foreign::{carved, contrasted, filtered, opened, resampled, stamped};
use crate::pb::filter::Filter as ColourFilter;
use crate::pb::resize::{ResizeType, SampleFilter};
use crate::pb::spec::Data;
use crate::pb::{Contrast, Crop, Filter, Fliph, Flipv, Resize, Spec, Watermark};
use crate::raster::{
    law_crop_shows_the_part, law_flip_h_swaps_columns, law_flip_h_twice, law_flip_v_swaps_rows,
    law_flip_v_twice, lemma_build_wf, Picture,
};
use vstd::prelude::*;

verus! {

/// The longest shorter side up to which an interpolating filter is known to work: where a side of up
/// to this length is stretched, or another is shrunk to it, single precision places every sample
/// close enough to a pixel.
pub const MAX_SAMPLED_SIDE: u32 = 1048576;

/// The width and height of the image that can be read from the given bytes, if one can.
pub open spec fn readable_size(data: Seq<u8>) -> Option<(u32, u32)> {
    if opened(data) == Set::<Picture>::empty() {
        None
    } else {
        let image = choose|image: Picture| opened(data).contains(image);
        Some((image.width, image.height))
    }
}

/// The pixels of an image can be counted in 32 bits, with one to spare.
pub open spec fn walkable(width: u32, height: u32) -> bool {
    width * height < u32::MAX
}

/// The pixels that the filter samples depend on the input alone: it takes no power, exponential or
/// sine, whose last digits differ from machine to machine.
pub open spec fn reproducible(filter: SampleFilter) -> bool {
    match filter {
        SampleFilter::Nearest => true,
        SampleFilter::Triangle => true,
        SampleFilter::CatmullRom => false,
        SampleFilter::Gaussian => false,
        SampleFilter::Lanczos3 => false,
    }
}

/// An interpolating filter is known to leave a side of this length as it is: single precision holds
/// the middle of every pixel, or rounds it to the next pixel of the side. Of an even length beyond
/// the first bound, the last pixel has no next one.
pub open spec fn keepable(side: u32) -> bool {
    side <= 0x80_0000 || (side % 2 == 1 && side < 0x100_0000)
}

/// An interpolating filter can turn a side of the first length into one of the second.
pub open spec fn can_sample(side: u32, new_side: u32) -> bool {
    side <= MAX_SAMPLED_SIDE || new_side <= MAX_SAMPLED_SIDE || (side == new_side && keepable(
        side,
    ))
}

/// An image of the first size can be resampled to the second: the sheets of pixels that this takes
/// can be addressed, and the sides are short enough for the filter.
pub open spec fn can_resample(
    width: u32,
    height: u32,
    new_width: u32,
    new_height: u32,
    filter: SampleFilter,
) -> bool {
    (width == new_width && height == new_height) || {
        &&& 16 * (width * new_height) <= isize::MAX
        &&& 4 * (new_width * new_height) <= isize::MAX
        &&& filter == SampleFilter::Nearest || (can_sample(width, new_width) && can_sample(
            height,
            new_height,
        ))
    }
}

/// The largest gradient of a pixel, which is what the pixel adds to the energy of a seam.
pub const MAX_GRADIENT: u32 = 1442;

/// The shorter of two lengths.
pub open spec fn shorter(one: u32, other: u32) -> u32 {
    if one <= other {
        one
    } else {
        other
    }
}

/// Seams can be taken out of an image of the first size down to the second: the energy of a seam
/// can be counted in 32 bits, the sheet of gradients can be addressed, and there are pixels to
/// take and to keep. Seams from top to bottom go first; those from side to side are as long as the
/// image is wide by then.
pub open spec fn can_carve(width: u32, height: u32, new_width: u32, new_height: u32) -> bool {
    (width <= new_width && height <= new_height) || {
        &&& new_width < width ==> MAX_GRADIENT * height <= u32::MAX
        &&& new_height < height ==> MAX_GRADIENT * shorter(width, new_width) <= u32::MAX
        &&& 8 * (width * height) <= isize::MAX
        &&& width >= 1
        &&& height >= 1
        &&& new_width >= 1
        &&& new_height >= 1
    }
}

/// How the pixels of a resize step are found: a code that no resize type has means a plain resize.
pub open spec fn resize_type(op: Resize) -> ResizeType {
    match ResizeType::spec_from_code(op.rtype) {
        Some(rtype) => rtype,
        None => ResizeType::Normal,
    }
}

/// The sampling filter of a resize step: a code that no filter has means the nearest pixel.
pub open spec fn sample_filter(op: Resize) -> SampleFilter {
    match SampleFilter::spec_from_code(op.filter) {
        Some(filter) => filter,
        None => SampleFilter::Nearest,
    }
}

/// The size that a resize step asks for, of an image of the given size.
pub open spec fn resized_to(op: Resize, width: u32, height: u32) -> (u32, u32) {
    match resize_type(op) {
        ResizeType::Normal => (op.width, op.height),
        ResizeType::SeamCarve => (shorter(width, op.width), shorter(height, op.height)),
    }
}

/// An image of the given size can take a resize step.
pub open spec fn can_resize(op: Resize, width: u32, height: u32) -> bool {
    match resize_type(op) {
        ResizeType::Normal => can_resample(width, height, op.width, op.height, sample_filter(op)),
        ResizeType::SeamCarve => can_carve(width, height, op.width, op.height),
    }
}

/// An image of the given size can take a crop step: the corners are in order and, unless nothing
/// is kept, within the image.
pub open spec fn can_crop(op: Crop, width: u32, height: u32) -> bool {
    &&& op.x1 <= op.x2
    &&& op.y1 <= op.y2
    &&& op.x1 < op.x2 && op.y1 < op.y2 ==> op.x2 <= width && op.y2 <= height
    &&& walkable((op.x2 - op.x1) as u32, (op.y2 - op.y1) as u32)
}

/// The filter of a filter step, if it names one that does something.
pub open spec fn colour_filter(op: Filter) -> Option<ColourFilter> {
    match ColourFilter::spec_from_code(op.filter) {
        Some(ColourFilter::Unspecified) => None,
        found => found,
    }
}

/// What a resize step makes of an image. The size is always settled; the pixels are settled where
/// the size stays, where seams are carved, and where the sampling filter is reproducible, and else
/// up to the rounding of the machine.
pub open spec fn resize_effect(op: Resize, before: Picture, after: Picture) -> bool {
    &&& after.wf()
    &&& (after.width, after.height) == resized_to(op, before.width, before.height)
    &&& (after.width, after.height) == (before.width, before.height) ==> after == before
    &&& match resize_type(op) {
        ResizeType::Normal => {
            let sheets = resampled(before, op.width, op.height, sample_filter(op));
            &&& sheets.contains(after.pixels)
            &&& reproducible(sample_filter(op)) ==> sheets == set![after.pixels]
        },
        ResizeType::SeamCarve => after.pixels == carved(before, op.width, op.height),
    }
}

/// What a crop step makes of an image.
pub open spec fn crop_effect(op: Crop, before: Picture, after: Picture) -> bool {
    after == before.cropped(op.x1, op.y1, op.x2, op.y2)
}

/// What a contrast step makes of an image.
pub open spec fn contrast_effect(op: Contrast, before: Picture, after: Picture) -> bool {
    &&& after.wf()
    &&& after == (Picture {
        pixels: contrasted(before, op.contrast),
        ..before
    })
}

/// What a filter step makes of an image: without a filter that does something, the image itself.
pub open spec fn filter_effect(op: Filter, before: Picture, after: Picture) -> bool {
    match colour_filter(op) {
        Some(found) => {
            &&& after.wf()
            &&& after == (Picture {
                pixels: filtered(before, found.spec_name()->Some_0),
                ..before
            })
        },
        None => after == before,
    }
}

/// What a watermark step makes of an image: the mark lies over it, the top left corner in the column
/// and the row that the step names. Without a mark it is the image itself.
pub open spec fn watermark_effect(
    op: Watermark,
    mark: Option<Picture>,
    before: Picture,
    after: Picture,
) -> bool {
    match mark {
        Some(stamp) => {
            &&& after.wf()
            &&& after == (Picture {
                pixels: stamped(before, stamp, op.x as i64, op.y as i64),
                ..before
            })
            &&& before.overlaid(stamp, op.x as int, op.y as int, after)
        },
        None => after == before,
    }
}

/// An image of the given size can take a step.
pub open spec fn can_take(step: Spec, width: u32, height: u32) -> bool {
    match step.data {
        Some(Data::Resize(op)) => can_resize(op, width, height),
        Some(Data::Crop(op)) => can_crop(op, width, height),
        Some(Data::Contrast(_)) => walkable(width, height),
        Some(Data::Filter(op)) => colour_filter(op) is Some ==> walkable(width, height),
        Some(Data::Fliph(_)) => walkable(width, height),
        Some(Data::Flipv(_)) => walkable(width, height),
        Some(Data::Watermark(_)) => true,
        None => true,
    }
}

/// The size of an image after a step.
pub open spec fn size_after(step: Spec, width: u32, height: u32) -> (u32, u32) {
    match step.data {
        Some(Data::Resize(op)) => resized_to(op, width, height),
        Some(Data::Crop(op)) => ((op.x2 - op.x1) as u32, (op.y2 - op.y1) as u32),
        _ => (width, height),
    }
}

/// What a step makes of an image.
pub open spec fn step_effect(
    step: Spec,
    mark: Option<Picture>,
    before: Picture,
    after: Picture,
) -> bool {
    match step.data {
        Some(Data::Resize(op)) => resize_effect(op, before, after),
        Some(Data::Crop(op)) => crop_effect(op, before, after),
        Some(Data::Contrast(op)) => contrast_effect(op, before, after),
        Some(Data::Filter(op)) => filter_effect(op, before, after),
        Some(Data::Fliph(_)) => after == before.flipped_h(),
        Some(Data::Flipv(_)) => after == before.flipped_v(),
        Some(Data::Watermark(op)) => watermark_effect(op, mark, before, after),
        None => after == before,
    }
}

/// An image of the given size can take the steps one after the other.
pub open spec fn can_take_all(steps: Seq<Spec>, width: u32, height: u32) -> bool
    decreases steps.len(),
{
    steps.len() == 0 || {
        let (next_width, next_height) = size_after(steps.first(), width, height);
        &&& can_take(steps.first(), width, height)
        &&& can_take_all(steps.drop_first(), next_width, next_height)
    }
}

/// The size of an image after the steps.
pub open spec fn size_after_all(steps: Seq<Spec>, width: u32, height: u32) -> (u32, u32)
    decreases steps.len(),
{
    if steps.len() == 0 {
        (width, height)
    } else {
        let (next_width, next_height) = size_after(steps.first(), width, height);
        size_after_all(steps.drop_first(), next_width, next_height)
    }
}

/// What the steps, one after the other, make of an image.
pub open spec fn applied(
    steps: Seq<Spec>,
    mark: Option<Picture>,
    before: Picture,
    after: Picture,
) -> bool
    decreases steps.len(),
{
    if steps.len() == 0 {
        after == before
    } else {
        exists|between: Picture| #[trigger]
            step_effect(steps.first(), mark, before, between) && applied(
                steps.drop_first(),
                mark,
                between,
                after,
            )
    }
}

/// The pixels that a step makes depend on the image and the mark alone.
pub open spec fn settled(step: Spec) -> bool {
    match step.data {
        Some(Data::Resize(op)) => resize_type(op) == ResizeType::SeamCarve || reproducible(
            sample_filter(op),
        ),
        _ => true,
    }
}

/// The resize type of a resize step.
pub fn resize_type_of(op: &Resize) -> (rtype: ResizeType)
    ensures
        rtype == resize_type(*op),
{
    match ResizeType::from_code(op.rtype) {
        Some(rtype) => rtype,
        None => ResizeType::Normal,
    }
}

/// The sampling filter of a resize step.
pub fn sample_filter_of(op: &Resize) -> (filter: SampleFilter)
    ensures
        filter == sample_filter(*op),
{
    match SampleFilter::from_code(op.filter) {
        Some(filter) => filter,
        None => SampleFilter::Nearest,
    }
}

/// The filter of a filter step, if it names one that does something.
pub fn colour_filter_of(op: &Filter) -> (filter: Option<ColourFilter>)
    ensures
        filter == colour_filter(*op),
{
    match ColourFilter::from_code(op.filter) {
        Some(ColourFilter::Unspecified) => None,
        found => found,
    }
}

/// Whether the pixels of an image can be counted in 32 bits, with one to spare.
fn is_walkable(width: u32, height: u32) -> (yes: bool)
    ensures
        yes == walkable(width, height),
{
    let pixels: u64 = area(width, height);
    pixels < u32::MAX as u64
}

/// The number of pixels of an image.
fn area(width: u32, height: u32) -> (pixels: u64)
    ensures
        pixels == width * height,
{
    assert(0 <= width * height <= 0xffff_ffff * 0xffff_ffff) by (nonlinear_arith)
        requires
            0 <= width <= 0xffff_ffff,
            0 <= height <= 0xffff_ffff,
    ;
    width as u64 * height as u64
}

/// Whether an image of the given size can take a step.
pub fn takes(step: &Spec, width: u32, height: u32) -> (yes: bool)
    ensures
        yes == can_take(*step, width, height),
{
    match step.data {
        Some(Data::Resize(op)) => takes_resize(&op, width, height),
        Some(Data::Crop(op)) => {
            op.x1 <= op.x2 && op.y1 <= op.y2 && (!(op.x1 < op.x2 && op.y1 < op.y2) || (op.x2
                <= width && op.y2 <= height)) && is_walkable(op.x2 - op.x1, op.y2 - op.y1)
        },
        Some(Data::Contrast(_)) => is_walkable(width, height),
        Some(Data::Filter(op)) => match colour_filter_of(&op) {
            Some(_) => is_walkable(width, height),
            None => true,
        },
        Some(Data::Fliph(_)) => is_walkable(width, height),
        Some(Data::Flipv(_)) => is_walkable(width, height),
        Some(Data::Watermark(_)) => true,
        None => true,
    }
}

/// Whether an interpolating filter can turn a side of the first length into one of the second.
fn samples(side: u32, new_side: u32) -> (yes: bool)
    ensures
        yes == can_sample(side, new_side),
{
    side <= MAX_SAMPLED_SIDE || new_side <= MAX_SAMPLED_SIDE || (side == new_side && (side
        <= 0x80_0000 || (side % 2 == 1 && side < 0x100_0000)))
}

/// Whether an image of the given size can take a resize step.
fn takes_resize(op: &Resize, width: u32, height: u32) -> (yes: bool)
    ensures
        yes == can_resize(*op, width, height),
{
    let most: u128 = isize::MAX as u128;
    match resize_type_of(op) {
        ResizeType::Normal => {
            let between: u128 = area(width, op.height) as u128;
            let after: u128 = area(op.width, op.height) as u128;
            (width == op.width && height == op.height) || (16 * between <= most && 4 * after <= most
                && (sample_filter_of(op) == SampleFilter::Nearest || (samples(width, op.width)
                && samples(height, op.height))))
        },
        ResizeType::SeamCarve => {
            let before: u128 = area(width, height) as u128;
            let across: u32 = if width <= op.width {
                width
            } else {
                op.width
            };
            (width <= op.width && height <= op.height) || ((op.width >= width || MAX_GRADIENT as u64
                * height as u64 <= u32::MAX as u64) && (op.height >= height || MAX_GRADIENT as u64
                * across as u64 <= u32::MAX as u64) && 8 * before <= most && width >= 1 && height
                >= 1 && op.width >= 1 && op.height >= 1)
        },
    }
}

/// The size of an image after a step that it can take.
pub fn next_size(step: &Spec, width: u32, height: u32) -> (size: (u32, u32))
    requires
        can_take(*step, width, height),
    ensures
        size == size_after(*step, width, height),
{
    match step.data {
        Some(Data::Resize(op)) => match resize_type_of(&op) {
            ResizeType::Normal => (op.width, op.height),
            ResizeType::SeamCarve => (
                if width <= op.width {
                    width
                } else {
                    op.width
                },
                if height <= op.height {
                    height
                } else {
                    op.height
                },
            ),
        },
        Some(Data::Crop(op)) => (op.x2 - op.x1, op.y2 - op.y1),
        _ => (width, height),
    }
}

/// Runs through the sizes that the steps lead to: the last size where every step can be taken,
/// none otherwise.
pub fn final_size(steps: &[Spec], width: u32, height: u32) -> (size: Option<(u32, u32)>)
    ensures
        size is Some <==> can_take_all(steps@, width, height),
        size matches Some(last) ==> last == size_after_all(steps@, width, height),
{
    let mut w: u32 = width;
    let mut h: u32 = height;
    let mut i: usize = 0;
    assert(steps@.skip(0) == steps@);
    while i < steps.len()
        invariant
            i <= steps@.len(),
            can_take_all(steps@, width, height) == can_take_all(steps@.skip(i as int), w, h),
            size_after_all(steps@, width, height) == size_after_all(steps@.skip(i as int), w, h),
        decreases steps.len() - i,
    {
        assert(steps@.skip(i as int).first() == steps@[i as int]);
        assert(steps@.skip(i as int).drop_first() == steps@.skip(i + 1));
        if !takes(&steps[i], w, h) {
            return None;
        }
        let size = next_size(&steps[i], w, h);
        w = size.0;
        h = size.1;
        i = i + 1;
    }
    Some((w, h))
}

/// A step leaves a well-formed image of the size that goes with the step.
pub proof fn lemma_step_size(step: Spec, mark: Option<Picture>, before: Picture, after: Picture)
    requires
        before.wf(),
        step_effect(step, mark, before, after),
    ensures
        after.wf(),
        (after.width, after.height) == size_after(step, before.width, before.height),
{
    match step.data {
        Some(Data::Crop(op)) => {
            lemma_build_wf(
                (op.x2 - op.x1) as u32,
                (op.y2 - op.y1) as u32,
                |x: int, y: int, c: int| before.channel(op.x1 + x, op.y1 + y, c),
            );
        },
        Some(Data::Fliph(_)) => {
            lemma_build_wf(
                before.width,
                before.height,
                |x: int, y: int, c: int| before.channel(before.width - 1 - x, y, c),
            );
        },
        Some(Data::Flipv(_)) => {
            lemma_build_wf(
                before.width,
                before.height,
                |x: int, y: int, c: int| before.channel(x, before.height - 1 - y, c),
            );
        },
        _ => {},
    }
}

/// The steps leave a well-formed image, whose size depends on the steps and on the size that the
/// image had, not on what it shows.
pub proof fn law_applied_size(
    steps: Seq<Spec>,
    mark: Option<Picture>,
    before: Picture,
    after: Picture,
)
    requires
        before.wf(),
        applied(steps, mark, before, after),
    ensures
        after.wf(),
        (after.width, after.height) == size_after_all(steps, before.width, before.height),
    decreases steps.len(),
{
    if steps.len() > 0 {
        let between = choose|between: Picture| #[trigger]
            step_effect(steps.first(), mark, before, between) && applied(
                steps.drop_first(),
                mark,
                between,
                after,
            );
        lemma_step_size(steps.first(), mark, before, between);
        law_applied_size(steps.drop_first(), mark, between, after);
    }
}

/// Taking two lists of steps in one go is taking the first list and then the second.
pub proof fn law_applied_in_parts(
    first: Seq<Spec>,
    second: Seq<Spec>,
    mark: Option<Picture>,
    before: Picture,
    after: Picture,
)
    ensures
        applied(first + second, mark, before, after) <==> exists|between: Picture| #[trigger]
            applied(first, mark, before, between) && applied(second, mark, between, after),
    decreases first.len(),
{
    let all = first + second;
    if first.len() == 0 {
        assert(all == second);
        assert(applied(first, mark, before, before));
    } else {
        assert(all.first() == first.first());
        assert(all.drop_first() == first.drop_first() + second);
        if applied(all, mark, before, after) {
            let next = choose|next: Picture| #[trigger]
                step_effect(all.first(), mark, before, next) && applied(
                    all.drop_first(),
                    mark,
                    next,
                    after,
                );
            law_applied_in_parts(first.drop_first(), second, mark, next, after);
            let between = choose|between: Picture| #[trigger]
                applied(first.drop_first(), mark, next, between) && applied(
                    second,
                    mark,
                    between,
                    after,
                );
            assert(step_effect(first.first(), mark, before, next));
            assert(applied(first, mark, before, between));
        }
        if exists|between: Picture| #[trigger]
            applied(first, mark, before, between) && applied(second, mark, between, after) {
            let between = choose|between: Picture| #[trigger]
                applied(first, mark, before, between) && applied(second, mark, between, after);
            let next = choose|next: Picture| #[trigger]
                step_effect(first.first(), mark, before, next) && applied(
                    first.drop_first(),
                    mark,
                    next,
                    between,
                );
            law_applied_in_parts(first.drop_first(), second, mark, next, after);
            assert(step_effect(all.first(), mark, before, next));
            assert(applied(all.drop_first(), mark, next, after));
        }
    }
}

/// An image can take two lists of steps in one go exactly if it can take the first list and what
/// that leaves can take the second.
pub proof fn law_can_take_in_parts(first: Seq<Spec>, second: Seq<Spec>, width: u32, height: u32)
    ensures
        ({
            let (w, h) = size_after_all(first, width, height);
            &&& can_take_all(first + second, width, height) <==> can_take_all(first, width, height)
                && can_take_all(second, w, h)
            &&& size_after_all(first + second, width, height) == size_after_all(second, w, h)
        }),
    decreases first.len(),
{
    let all = first + second;
    if first.len() == 0 {
        assert(all == second);
    } else {
        assert(all.first() == first.first());
        assert(all.drop_first() == first.drop_first() + second);
        let (w, h) = size_after(first.first(), width, height);
        law_can_take_in_parts(first.drop_first(), second, w, h);
    }
}

/// Where every step is settled, the same image with the same steps becomes the same image.
pub proof fn law_applied_settled(
    steps: Seq<Spec>,
    mark: Option<Picture>,
    before: Picture,
    one: Picture,
    other: Picture,
)
    requires
        forall|i: int| 0 <= i < steps.len() ==> settled(#[trigger] steps[i]),
        applied(steps, mark, before, one),
        applied(steps, mark, before, other),
    ensures
        one == other,
    decreases steps.len(),
{
    if steps.len() > 0 {
        let a = choose|a: Picture| #[trigger]
            step_effect(steps.first(), mark, before, a) && applied(
                steps.drop_first(),
                mark,
                a,
                one,
            );
        let b = choose|b: Picture| #[trigger]
            step_effect(steps.first(), mark, before, b) && applied(
                steps.drop_first(),
                mark,
                b,
                other,
            );
        assert(settled(steps[0]));
        assert(a == b);
        assert forall|i: int| 0 <= i < steps.drop_first().len() implies settled(
            #[trigger] steps.drop_first()[i],
        ) by {
            assert(settled(steps[i + 1]));
        }
        law_applied_settled(steps.drop_first(), mark, a, one, other);
    }
}

/// Taking a list of one step is taking that step.
pub proof fn law_applied_once(step: Spec, mark: Option<Picture>, before: Picture, after: Picture)
    ensures
        applied(seq![step], mark, before, after) <==> step_effect(step, mark, before, after),
{
    reveal_with_fuel(applied, 2);
    let steps = seq![step];
    assert(steps.first() == step);
    assert(steps.drop_first().len() == 0);
    if step_effect(step, mark, before, after) {
        assert(step_effect(steps.first(), mark, before, after));
        assert(applied(steps.drop_first(), mark, after, after));
    }
}

/// A resize step brings the image to exactly the width and the height that it names, by the sampling
/// filter that has its code; code 1 of the resize types takes seams out instead, and makes no side
/// longer. An image that has the size already stays as it is.
pub proof fn law_resize_step(op: Resize, mark: Option<Picture>, before: Picture, after: Picture)
    requires
        step_effect(Spec { data: Some(Data::Resize(op)) }, mark, before, after),
    ensures
        op.rtype != 1 ==> after.width == op.width && after.height == op.height,
        op.rtype != 1 && op.filter == 2 ==> resampled(
            before,
            op.width,
            op.height,
            SampleFilter::Triangle,
        ) == set![after.pixels],
        op.rtype != 1 && op.filter == 3 ==> resampled(
            before,
            op.width,
            op.height,
            SampleFilter::CatmullRom,
        ).contains(after.pixels),
        op.rtype != 1 && op.filter == 4 ==> resampled(
            before,
            op.width,
            op.height,
            SampleFilter::Gaussian,
        ).contains(after.pixels),
        op.rtype != 1 && op.filter == 5 ==> resampled(
            before,
            op.width,
            op.height,
            SampleFilter::Lanczos3,
        ).contains(after.pixels),
        op.rtype != 1 && !(2 <= op.filter <= 5) ==> resampled(
            before,
            op.width,
            op.height,
            SampleFilter::Nearest,
        ) == set![after.pixels],
        op.rtype == 1 ==> {
            &&& after.pixels == carved(before, op.width, op.height)
            &&& after.width <= before.width && after.width <= op.width
            &&& after.width == before.width || after.width == op.width
            &&& after.height <= before.height && after.height <= op.height
            &&& after.height == before.height || after.height == op.height
        },
        before.width == op.width && before.height == op.height ==> after == before,
{
}

/// A crop step leaves an image as wide and as high as the corners are apart, which shows at each
/// column and row what the image showed that many columns and rows from the first corner.
pub proof fn law_crop_step(
    op: Crop,
    mark: Option<Picture>,
    before: Picture,
    after: Picture,
    x: int,
    y: int,
    c: int,
)
    requires
        before.wf(),
        op.x1 <= op.x2 <= before.width,
        op.y1 <= op.y2 <= before.height,
        step_effect(Spec { data: Some(Data::Crop(op)) }, mark, before, after),
    ensures
        after.width == op.x2 - op.x1,
        after.height == op.y2 - op.y1,
        after.pixels.len() == 4 * (after.width * after.height),
        0 <= x < op.x2 - op.x1 && 0 <= y < op.y2 - op.y1 && 0 <= c < 4 ==> after.pixels[4 * (y
            * after.width + x) + c] == before.pixels[4 * ((op.y1 + y) * before.width + (op.x1 + x))
            + c],
{
    lemma_step_size(Spec { data: Some(Data::Crop(op)) }, mark, before, after);
    if 0 <= x < op.x2 - op.x1 && 0 <= y < op.y2 - op.y1 && 0 <= c < 4 {
        law_crop_shows_the_part(before, op.x1, op.y1, op.x2, op.y2, x, y, c);
    }
}

/// A left-to-right mirroring keeps every row where it is and puts each column as far from the right
/// as it was from the left.
pub proof fn law_fliph_step(
    mark: Option<Picture>,
    before: Picture,
    after: Picture,
    x: int,
    y: int,
    c: int,
)
    requires
        before.wf(),
        step_effect(Spec { data: Some(Data::Fliph(Fliph {  })) }, mark, before, after),
    ensures
        after.width == before.width,
        after.height == before.height,
        after.pixels.len() == before.pixels.len(),
        0 <= x < before.width && 0 <= y < before.height && 0 <= c < 4 ==> after.pixels[4 * (y
            * before.width + (before.width - 1 - x)) + c] == before.pixels[4 * (y * before.width
            + x) + c],
{
    lemma_step_size(Spec { data: Some(Data::Fliph(Fliph {  })) }, mark, before, after);
    if 0 <= x < before.width && 0 <= y < before.height && 0 <= c < 4 {
        law_flip_h_swaps_columns(before, x, y, c);
    }
}

/// A top-to-bottom mirroring keeps every column where it is and puts each row as far from the bottom
/// as it was from the top.
pub proof fn law_flipv_step(
    mark: Option<Picture>,
    before: Picture,
    after: Picture,
    x: int,
    y: int,
    c: int,
)
    requires
        before.wf(),
        step_effect(Spec { data: Some(Data::Flipv(Flipv {  })) }, mark, before, after),
    ensures
        after.width == before.width,
        after.height == before.height,
        after.pixels.len() == before.pixels.len(),
        0 <= x < before.width && 0 <= y < before.height && 0 <= c < 4 ==> after.pixels[4 * ((
        before.height - 1 - y) * before.width + x) + c] == before.pixels[4 * (y * before.width + x)
            + c],
{
    lemma_step_size(Spec { data: Some(Data::Flipv(Flipv {  })) }, mark, before, after);
    if 0 <= x < before.width && 0 <= y < before.height && 0 <= c < 4 {
        law_flip_v_swaps_rows(before, x, y, c);
    }
}

/// A contrast step changes the pixels by exactly the amount that it names, and keeps the size.
pub proof fn law_contrast_step(op: Contrast, mark: Option<Picture>, before: Picture, after: Picture)
    requires
        step_effect(Spec { data: Some(Data::Contrast(op)) }, mark, before, after),
    ensures
        after.width == before.width,
        after.height == before.height,
        after.pixels == contrasted(before, op.contrast),
{
}

/// A filter step with code 1, 2 or 3 colours the image by the filter called oceanic, islands or
/// marine, and keeps the size; with any other code it changes nothing.
pub proof fn law_filter_step(op: Filter, mark: Option<Picture>, before: Picture, after: Picture)
    requires
        step_effect(Spec { data: Some(Data::Filter(op)) }, mark, before, after),
    ensures
        after.width == before.width,
        after.height == before.height,
        op.filter == 1 ==> after.pixels == filtered(before, "oceanic"@),
        op.filter == 2 ==> after.pixels == filtered(before, "islands"@),
        op.filter == 3 ==> after.pixels == filtered(before, "marine"@),
        !(1 <= op.filter <= 3) ==> after == before,
{
}

/// A watermark step stamps the mark in column `op.x` and row `op.y`, and keeps the size. Every pixel
/// is as it was that is not among the columns and the rows from there on which the mark is wide and
/// high.
pub proof fn law_watermark_step(
    op: Watermark,
    stamp: Picture,
    before: Picture,
    after: Picture,
    x: int,
    y: int,
    c: int,
)
    requires
        step_effect(Spec { data: Some(Data::Watermark(op)) }, Some(stamp), before, after),
    ensures
        after.width == before.width,
        after.height == before.height,
        after.pixels.len() == 4 * (before.width * before.height),
        after.pixels == stamped(before, stamp, op.x as i64, op.y as i64),
        0 <= x < before.width && 0 <= y < before.height && 0 <= c < 4 && !(op.x <= x < op.x
            + stamp.width && op.y <= y < op.y + stamp.height) ==> after.pixels[4 * (y * before.width
            + x) + c] == before.pixels[4 * (y * before.width + x) + c],
{
    assert(after.channel(x, y, c) == after.pixels[4 * (y * before.width + x) + c]);
}

/// Where a watermark step stamps, a pixel of the mark with alpha 255 takes the place of the pixel of
/// the image that lies `op.x` columns and `op.y` rows further, and one with alpha 0 leaves it as it
/// was.
pub proof fn law_watermark_covers(
    op: Watermark,
    stamp: Picture,
    before: Picture,
    after: Picture,
    u: int,
    v: int,
    c: int,
)
    requires
        step_effect(Spec { data: Some(Data::Watermark(op)) }, Some(stamp), before, after),
        0 <= u < stamp.width,
        0 <= v < stamp.height,
        0 <= c < 4,
        op.x + u < before.width,
        op.y + v < before.height,
    ensures
        ({
            let alpha = stamp.pixels[4 * (v * stamp.width + u) + 3];
            let place = 4 * ((op.y + v) * before.width + (op.x + u)) + c;
            &&& alpha == 0 ==> after.pixels[place] == before.pixels[place]
            &&& alpha == 255 ==> after.pixels[place] == stamp.pixels[4 * (v * stamp.width + u) + c]
        }),
{
    let (x, y) = (op.x + u, op.y + v);
    assert(before.inside(x, y, c));
    assert(stamp.inside(x - op.x, y - op.y, c));
    assert(after.channel(x, y, c) == after.pixels[4 * (y * before.width + x) + c]);
}

/// Without a mark, a watermark step changes nothing; nor does a step without data.
pub proof fn law_nothing_to_stamp(
    op: Watermark,
    mark: Option<Picture>,
    before: Picture,
    after: Picture,
)
    ensures
        step_effect(Spec { data: Some(Data::Watermark(op)) }, None, before, after) <==> after
            == before,
        step_effect(Spec { data: None }, mark, before, after) <==> after == before,
{
}

/// Which images can take a crop step: its corners are in order, and either it keeps nothing or it
/// stays within the image; and what it keeps has fewer pixels than 32 bits can count.
pub proof fn law_can_take_crop(op: Crop, width: u32, height: u32)
    ensures
        can_take(Spec { data: Some(Data::Crop(op)) }, width, height) <==> {
            &&& op.x1 <= op.x2 && op.y1 <= op.y2
            &&& op.x1 == op.x2 || op.y1 == op.y2 || (op.x2 <= width && op.y2 <= height)
            &&& (op.x2 - op.x1) * (op.y2 - op.y1) < 0xffff_ffff
        },
        op.x1 <= op.x2 && op.y1 <= op.y2 ==> size_after(
            Spec { data: Some(Data::Crop(op)) },
            width,
            height,
        ) == ((op.x2 - op.x1) as u32, (op.y2 - op.y1) as u32),
{
}

/// Which images can take a step that goes over their pixels: those that have fewer pixels than 32
/// bits can count. A watermark step, a step without data and a filter step without a filter can be
/// taken by any image. None of them changes the size.
pub proof fn law_can_take_pixelwise(step: Spec, width: u32, height: u32)
    requires
        step.data matches Some(data) ==> !(data is Resize) && !(data is Crop),
    ensures
        can_take(step, width, height) <==> width * height < 0xffff_ffff || match step.data {
            Some(Data::Watermark(_)) => true,
            Some(Data::Filter(op)) => !(1 <= op.filter <= 3),
            None => true,
            _ => false,
        },
        size_after(step, width, height) == (width, height),
{
}

/// Which images can take a resize step that samples: one whose size stays can always; another exactly
/// if the sheets of pixels that it takes can be addressed and, unless the nearest pixel is sampled, of
/// each side the length before or after is at most 1048576. A side that stays may be longer: up to
/// 8388608, and if it is odd, below 16777216.
pub proof fn law_can_take_resize(op: Resize, width: u32, height: u32)
    requires
        op.rtype != 1,
    ensures
        can_take(Spec { data: Some(Data::Resize(op)) }, width, height) <==> (width == op.width
            && height == op.height) || {
            let stays = |side: u32, new_side: u32|
                side == new_side && (side <= 8388608 || (side % 2 == 1 && side < 16777216));
            &&& 16 * (width * op.height) <= isize::MAX
            &&& 4 * (op.width * op.height) <= isize::MAX
            &&& !(2 <= op.filter <= 5) || {
                &&& width <= 1048576 || op.width <= 1048576 || stays(width, op.width)
                &&& height <= 1048576 || op.height <= 1048576 || stays(height, op.height)
            }
        },
        size_after(Spec { data: Some(Data::Resize(op)) }, width, height) == (op.width, op.height),
{
}

/// Which images can take a resize step that carves: one that is no larger than asked for can always;
/// another exactly if there are pixels to take and to keep, the gradients of all its pixels can be
/// addressed, and no seam that is taken out is longer than 2978479 pixels. No side grows.
pub proof fn law_can_take_carving(op: Resize, width: u32, height: u32)
    requires
        op.rtype == 1,
    ensures
        can_take(Spec { data: Some(Data::Resize(op)) }, width, height) <==> (width <= op.width
            && height <= op.height) || {
            &&& 1 <= width && 1 <= height && 1 <= op.width && 1 <= op.height
            &&& 8 * (width * height) <= isize::MAX
            &&& op.width < width ==> height <= 2978479
            &&& op.height < height ==> width <= 2978479 || op.width <= 2978479
        },
        size_after(Spec { data: Some(Data::Resize(op)) }, width, height).0 == if width <= op.width {
            width
        } else {
            op.width
        },
        size_after(Spec { data: Some(Data::Resize(op)) }, width, height).1 == if height
            <= op.height {
            height
        } else {
            op.height
        },
{
}

/// Of a list of steps the first is taken first, and the others of what it leaves; a list without
/// steps leaves the image as it was.
pub proof fn law_applied_first_step_first(
    step: Spec,
    rest: Seq<Spec>,
    mark: Option<Picture>,
    before: Picture,
    after: Picture,
)
    ensures
        applied(Seq::empty(), mark, before, after) <==> after == before,
        applied(seq![step] + rest, mark, before, after) <==> exists|between: Picture| #[trigger]
            step_effect(step, mark, before, between) && applied(rest, mark, between, after),
{
    let steps = seq![step] + rest;
    assert(steps.first() == step);
    assert(steps.drop_first() == rest);
}

/// A step without data, a filter step without a filter that does something, and a watermark step
/// without a mark leave the image as it was.
pub proof fn law_idle_step(step: Spec, mark: Option<Picture>, before: Picture, after: Picture)
    requires
        step_effect(step, mark, before, after),
        match step.data {
            None => true,
            Some(Data::Filter(op)) => colour_filter(op) is None,
            Some(Data::Watermark(_)) => mark is None,
            _ => false,
        },
    ensures
        after == before,
{
}

/// Two mirrorings of one kind, one after the other, leave the image as it was.
pub proof fn law_double_flip(step: Spec, mark: Option<Picture>, before: Picture, after: Picture)
    requires
        before.wf(),
        step.data is Some,
        step.data->Some_0 is Fliph || step.data->Some_0 is Flipv,
        applied(seq![step, step], mark, before, after),
    ensures
        after == before,
{
    let steps = seq![step, step];
    let once = choose|once: Picture| #[trigger]
        step_effect(steps.first(), mark, before, once) && applied(
            steps.drop_first(),
            mark,
            once,
            after,
        );
    let rest = steps.drop_first();
    let twice = choose|twice: Picture| #[trigger]
        step_effect(rest.first(), mark, once, twice) && applied(
            rest.drop_first(),
            mark,
            twice,
            after,
        );
    assert(rest.first() == step);
    assert(rest.drop_first().len() == 0);
    law_flip_h_twice(before);
    law_flip_v_twice(before);
}

} // verus!
