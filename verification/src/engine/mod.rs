//! The image engine: what an engine does, and the engine on `photon_rs`.
use crate::format::ImageFormat;
use crate::pb::Spec;
use vstd::prelude::*;

pub mod foreign;
pub mod photon;
pub mod render;
pub mod steps;

pub use photon::Photon;

verus! {

/// Edits one image and writes it out.
pub trait Engine: Sized {
    /// The image can take the steps.
    spec fn can_apply(self, steps: Seq<Spec>) -> bool;

    /// `after` is what the steps, one after the other, make of this image.
    spec fn apply_effect(self, steps: Seq<Spec>, after: Self) -> bool;

    /// The image can be written out in the given format.
    spec fn can_generate(self, format: ImageFormat) -> bool;

    /// The image may be written out as the file.
    spec fn generates(self, format: ImageFormat, file: Seq<u8>) -> bool;

    /// Takes the steps, one after the other.
    fn apply(&mut self, spec: &[Spec])
        requires
            old(self).can_apply(spec@),
        ensures
            old(self).apply_effect(spec@, *final(self)),
    ;

    /// Writes the image out.
    fn generate(self, format: ImageFormat) -> (file: Vec<u8>)
        requires
            self.can_generate(format),
        ensures
            self.generates(format, file@),
    ;
}

/// Takes one kind of step.
pub trait SpecTransform<T>: Sized {
    /// The image can take the step.
    spec fn can_transform(self, op: T) -> bool;

    /// `after` is what the step makes of this image.
    spec fn transform_effect(self, op: T, after: Self) -> bool;

    /// Takes the step.
    fn transform(&mut self, op: T)
        requires
            old(self).can_transform(op),
        ensures
            old(self).transform_effect(op, *final(self)),
    ;
}

} // verus!
