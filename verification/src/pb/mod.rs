//! The messages in which a client says how an image is to be edited.
use vstd::prelude::*;

pub mod filter;
pub mod resize;
pub mod spec;

verus! {

/// Bring the image to a width and a height, by the resize type and the sampling filter whose
/// codes are given.
#[derive(Clone, Copy, Debug, PartialEq, Eq, Structural)]
pub struct Resize {
    pub width: u32,
    pub height: u32,
    pub rtype: i32,
    pub filter: i32,
}

/// Keep the rectangle from `(x1, y1)` up to, and without, `(x2, y2)`.
#[derive(Clone, Copy, Debug, PartialEq, Eq, Structural)]
pub struct Crop {
    pub x1: u32,
    pub y1: u32,
    pub x2: u32,
    pub y2: u32,
}

/// Adjust the contrast. The amount is the bit pattern of an IEEE 754 single.
#[derive(Clone, Copy, Debug, PartialEq, Eq, Structural)]
pub struct Contrast {
    pub contrast: u32,
}

/// Apply the colour filter whose code is given.
#[derive(Clone, Copy, Debug, PartialEq, Eq, Structural)]
pub struct Filter {
    pub filter: i32,
}

/// Mirror the image left to right.
#[derive(Clone, Copy, Debug, PartialEq, Eq, Structural)]
pub struct Fliph {}

/// Mirror the image top to bottom.
#[derive(Clone, Copy, Debug, PartialEq, Eq, Structural)]
pub struct Flipv {}

/// Stamp the watermark, its top left corner at `(x, y)`.
#[derive(Clone, Copy, Debug, PartialEq, Eq, Structural)]
pub struct Watermark {
    pub x: u32,
    pub y: u32,
}

/// One editing step; a step without data does nothing.
#[derive(Clone, Copy, Debug, PartialEq, Eq)]
pub struct Spec {
    pub data: Option<spec::Data>,
}

/// The editing steps of a request, in order.
#[derive(Clone, Debug, PartialEq, Eq)]
pub struct ImageSpec {
    pub specs: Vec<Spec>,
}

impl Spec {
    /// A plain resize.
    pub fn new_resize(width: u32, height: u32, filter: resize::SampleFilter) -> (step: Spec)
        ensures
            step.data == Some(
                spec::Data::Resize(
                    Resize {
                        width,
                        height,
                        rtype: resize::ResizeType::Normal.spec_code(),
                        filter: filter.spec_code(),
                    },
                ),
            ),
    {
        Spec {
            data: Some(
                spec::Data::Resize(
                    Resize {
                        width,
                        height,
                        rtype: resize::ResizeType::Normal.code(),
                        filter: filter.code(),
                    },
                ),
            ),
        }
    }

    /// A watermark at the given place.
    pub fn new_watermark(x: u32, y: u32) -> (step: Spec)
        ensures
            step.data == Some(spec::Data::Watermark(Watermark { x, y })),
    {
        Spec { data: Some(spec::Data::Watermark(Watermark { x, y })) }
    }

    /// A colour filter.
    pub fn new_filter(filter: filter::Filter) -> (step: Spec)
        ensures
            step.data == Some(spec::Data::Filter(Filter { filter: filter.spec_code() })),
    {
        Spec { data: Some(spec::Data::Filter(Filter { filter: filter.code() })) }
    }
}

impl ImageSpec {
    /// A request for the given steps.
    pub fn new(specs: Vec<Spec>) -> (request: ImageSpec)
        ensures
            request.specs == specs,
    {
        ImageSpec { specs }
    }
}

} // verus!
