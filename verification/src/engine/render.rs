//! From an image file and a list of steps to the edited image.
use super::foreign::opened;
use super::photon::{is_file_of, OpenError, Photon};
use super::steps::{
    applied, can_take, can_take_all, final_size, law_applied_once, law_applied_settled,
    law_applied_size, readable_size, settled, size_after, size_after_all, step_effect,
};
use super::Engine;
use crate::format::{can_hold, holds, ImageFormat};
use crate::pb::Spec;
use crate::raster::{Picture, Raster};
use crate::safety::safe_to_open;
use vstd::prelude::*;

verus! {

/// Why an edited image cannot be had.
#[derive(Clone, Copy, Debug, PartialEq, Eq, Structural)]
pub enum RenderError {
    /// The bytes are no image that can be read.
    Unreadable,
    /// The bytes are such that a decoder would panic on them.
    Unsafe,
    /// The image cannot take the steps, or what they leave does not fit into a JPEG file.
    Impossible,
}

/// An image of the given size can take the steps, and what they leave fits into a JPEG file.
pub open spec fn can_render(size: (u32, u32), steps: Seq<Spec>) -> bool {
    let (width, height) = size_after_all(steps, size.0, size.1);
    &&& can_take_all(steps, size.0, size.1)
    &&& can_hold(ImageFormat::Jpeg, width, height)
}

/// The file is what the steps make of an image, written as JPEG.
pub open spec fn rendered(
    before: Picture,
    mark: Option<Picture>,
    steps: Seq<Spec>,
    file: Seq<u8>,
) -> bool {
    exists|after: Picture| #[trigger]
        applied(steps, mark, before, after) && is_file_of(file, after, ImageFormat::Jpeg)
}

/// Where every step is settled, the same image with the same steps becomes the same file.
pub proof fn law_rendered_settled(
    before: Picture,
    mark: Option<Picture>,
    steps: Seq<Spec>,
    one: Seq<u8>,
    other: Seq<u8>,
)
    requires
        forall|i: int| 0 <= i < steps.len() ==> settled(#[trigger] steps[i]),
        rendered(before, mark, steps, one),
        rendered(before, mark, steps, other),
    ensures
        one == other,
{
    let a = choose|a: Picture| #[trigger]
        applied(steps, mark, before, a) && is_file_of(one, a, ImageFormat::Jpeg);
    let b = choose|b: Picture| #[trigger]
        applied(steps, mark, before, b) && is_file_of(other, b, ImageFormat::Jpeg);
    law_applied_settled(steps, mark, before, a, b);
}

/// Without steps the file is the image as it came, written as JPEG, and all that is asked of the
/// image is that its sides are neither empty nor longer than a JPEG file can say.
pub proof fn law_render_nothing(before: Picture, mark: Option<Picture>, file: Seq<u8>)
    ensures
        rendered(before, mark, Seq::empty(), file) <==> is_file_of(file, before, ImageFormat::Jpeg),
        can_render((before.width, before.height), Seq::empty()) <==> 1 <= before.width <= 65535 && 1
            <= before.height <= 65535,
{
    if is_file_of(file, before, ImageFormat::Jpeg) {
        assert(applied(Seq::empty(), mark, before, before));
    }
}

/// The first step of a list is taken first, of the image as it came, and the others of what it
/// leaves.
pub proof fn law_render_first_step_first(
    before: Picture,
    mark: Option<Picture>,
    step: Spec,
    rest: Seq<Spec>,
    file: Seq<u8>,
)
    ensures
        rendered(before, mark, seq![step] + rest, file) <==> exists|between: Picture| #[trigger]
            step_effect(step, mark, before, between) && rendered(between, mark, rest, file),
{
    let steps = seq![step] + rest;
    assert(steps.first() == step);
    assert(steps.drop_first() == rest);
    if rendered(before, mark, steps, file) {
        let after = choose|after: Picture| #[trigger]
            applied(steps, mark, before, after) && is_file_of(file, after, ImageFormat::Jpeg);
        let between = choose|between: Picture| #[trigger]
            step_effect(steps.first(), mark, before, between) && applied(
                steps.drop_first(),
                mark,
                between,
                after,
            );
        assert(step_effect(step, mark, before, between));
        assert(applied(rest, mark, between, after));
        assert(rendered(between, mark, rest, file));
    }
    if exists|between: Picture| #[trigger]
        step_effect(step, mark, before, between) && rendered(between, mark, rest, file) {
        let between = choose|between: Picture| #[trigger]
            step_effect(step, mark, before, between) && rendered(between, mark, rest, file);
        let after = choose|after: Picture| #[trigger]
            applied(rest, mark, between, after) && is_file_of(file, after, ImageFormat::Jpeg);
        assert(step_effect(steps.first(), mark, before, between));
        assert(applied(steps, mark, before, after));
    }
}

/// An image can be edited by a list exactly if it can take the first step, and the image of the size
/// that this leaves can be edited by the others.
pub proof fn law_can_render_first_step_first(size: (u32, u32), step: Spec, rest: Seq<Spec>)
    ensures
        can_render(size, seq![step] + rest) <==> can_take(step, size.0, size.1) && can_render(
            size_after(step, size.0, size.1),
            rest,
        ),
{
    let steps = seq![step] + rest;
    assert(steps.first() == step);
    assert(steps.drop_first() == rest);
}

/// The last step of a list is taken last, of what the others leave, and what it leaves is written as
/// JPEG.
pub proof fn law_render_last_step_last(
    before: Picture,
    mark: Option<Picture>,
    steps: Seq<Spec>,
    step: Spec,
    file: Seq<u8>,
)
    ensures
        rendered(before, mark, steps.push(step), file) <==> exists|between: Picture, after: Picture|
            #[trigger] applied(steps, mark, before, between) && #[trigger] step_effect(
                step,
                mark,
                between,
                after,
            ) && is_file_of(file, after, ImageFormat::Jpeg),
    decreases steps.len(),
{
    let all = steps.push(step);
    if steps.len() == 0 {
        assert(all == seq![step]);
        assert(applied(steps, mark, before, before));
        if rendered(before, mark, all, file) {
            let after = choose|after: Picture| #[trigger]
                applied(all, mark, before, after) && is_file_of(file, after, ImageFormat::Jpeg);
            law_applied_once(step, mark, before, after);
        }
        if exists|between: Picture, after: Picture| #[trigger]
            applied(steps, mark, before, between) && #[trigger] step_effect(
                step,
                mark,
                between,
                after,
            ) && is_file_of(file, after, ImageFormat::Jpeg) {
            let (between, after) = choose|between: Picture, after: Picture| #[trigger]
                applied(steps, mark, before, between) && #[trigger] step_effect(
                    step,
                    mark,
                    between,
                    after,
                ) && is_file_of(file, after, ImageFormat::Jpeg);
            law_applied_once(step, mark, before, after);
        }
    } else {
        let first = steps.first();
        let rest = steps.drop_first();
        assert(all == seq![first] + rest.push(step));
        law_render_first_step_first(before, mark, first, rest.push(step), file);
        if rendered(before, mark, all, file) {
            let next = choose|next: Picture| #[trigger]
                step_effect(first, mark, before, next) && rendered(
                    next,
                    mark,
                    rest.push(step),
                    file,
                );
            law_render_last_step_last(next, mark, rest, step, file);
            let (between, after) = choose|between: Picture, after: Picture| #[trigger]
                applied(rest, mark, next, between) && #[trigger] step_effect(
                    step,
                    mark,
                    between,
                    after,
                ) && is_file_of(file, after, ImageFormat::Jpeg);
            assert(step_effect(steps.first(), mark, before, next));
            assert(applied(steps, mark, before, between));
        }
        if exists|between: Picture, after: Picture| #[trigger]
            applied(steps, mark, before, between) && #[trigger] step_effect(
                step,
                mark,
                between,
                after,
            ) && is_file_of(file, after, ImageFormat::Jpeg) {
            let (between, after) = choose|between: Picture, after: Picture| #[trigger]
                applied(steps, mark, before, between) && #[trigger] step_effect(
                    step,
                    mark,
                    between,
                    after,
                ) && is_file_of(file, after, ImageFormat::Jpeg);
            let next = choose|next: Picture| #[trigger]
                step_effect(steps.first(), mark, before, next) && applied(
                    steps.drop_first(),
                    mark,
                    next,
                    between,
                );
            assert(step_effect(first, mark, before, next));
            assert(applied(rest, mark, next, between));
            law_render_last_step_last(next, mark, rest, step, file);
            assert(rendered(next, mark, rest.push(step), file));
        }
    }
}

/// Whether the image can take the steps, and what they leave fits into a JPEG file.
pub fn renders(image: &Raster, steps: &[Spec]) -> (yes: bool)
    ensures
        yes == can_render((image.width, image.height), steps@),
{
    match final_size(steps, image.width, image.height) {
        Some((width, height)) => holds(ImageFormat::Jpeg, width, height),
        None => false,
    }
}

/// Edits an image that was read, and writes it out as JPEG.
pub fn render_image(engine: Photon, steps: &[Spec]) -> (file: Vec<u8>)
    requires
        engine.wf(),
        can_render((engine.image.width, engine.image.height), steps@),
    ensures
        rendered(engine.image@, engine.mark(), steps@, file@),
{
    let ghost start = engine;
    let mut engine = engine;
    engine.apply(steps);
    proof {
        law_applied_size(steps@, start.mark(), start.image@, engine.image@);
    }
    engine.generate(ImageFormat::Jpeg)
}

/// Reads an image file, edits the image and writes it out as JPEG.
pub fn render(data: &[u8], steps: &[Spec], watermark: Option<Raster>) -> (file: Result<
    Vec<u8>,
    RenderError,
>)
    requires
        watermark matches Some(mark) ==> mark@.wf(),
    ensures
        match file {
            Ok(made) => safe_to_open(data@) && exists|before: Picture| #[trigger]
                opened(data@).contains(before) && can_render((before.width, before.height), steps@)
                    && rendered(
                    before,
                    match watermark {
                        Some(mark) => Some(mark@),
                        None => None,
                    },
                    steps@,
                    made@,
                ),
            Err(RenderError::Unreadable) => safe_to_open(data@) && readable_size(data@) is None,
            Err(RenderError::Unsafe) => !safe_to_open(data@),
            Err(RenderError::Impossible) => {
                &&& safe_to_open(data@)
                &&& readable_size(data@) matches Some(size) && !can_render(size, steps@)
            },
        },
{
    match Photon::try_from(data, watermark) {
        Ok(engine) => {
            if renders(&engine.image, steps) {
                Ok(render_image(engine, steps))
            } else {
                Err(RenderError::Impossible)
            }
        },
        Err(OpenError::UnreadableImage) => Err(RenderError::Unreadable),
        Err(OpenError::UnsafeImage) => Err(RenderError::Unsafe),
    }
}

} // verus!
