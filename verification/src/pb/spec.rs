//! The kinds of editing step.
use super::{Contrast, Crop, Filter, Fliph, Flipv, Resize, Watermark};
use vstd::prelude::*;

verus! {

/// What one editing step does.
#[derive(Clone, Copy, Debug, PartialEq, Eq)]
pub enum Data {
    Resize(Resize),
    Crop(Crop),
    Flipv(Flipv),
    Fliph(Fliph),
    Contrast(Contrast),
    Filter(Filter),
    Watermark(Watermark),
}

} // verus!
