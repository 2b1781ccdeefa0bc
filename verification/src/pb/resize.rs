//! The ways to resize an image and their codes.
use vstd::prelude::*;

verus! {

/// How pixels are given up or made when the size changes.
#[derive(Clone, Copy, Debug, PartialEq, Eq, Structural)]
pub enum ResizeType {
    Normal,
    SeamCarve,
}

/// How a pixel of a resized image is sampled.
#[derive(Clone, Copy, Debug, PartialEq, Eq, Structural)]
pub enum SampleFilter {
    Nearest,
    Triangle,
    CatmullRom,
    Gaussian,
    Lanczos3,
}

impl ResizeType {
    /// The code of the resize type.
    pub open spec fn spec_code(self) -> i32 {
        match self {
            ResizeType::Normal => 0,
            ResizeType::SeamCarve => 1,
        }
    }

    /// The resize type that has the given code.
    pub open spec fn spec_from_code(code: i32) -> Option<ResizeType> {
        if code == 0 {
            Some(ResizeType::Normal)
        } else if code == 1 {
            Some(ResizeType::SeamCarve)
        } else {
            None
        }
    }

    /// The code of the resize type.
    pub fn code(self) -> (code: i32)
        ensures
            code == self.spec_code(),
    {
        match self {
            ResizeType::Normal => 0,
            ResizeType::SeamCarve => 1,
        }
    }

    /// The resize type that has the given code, if any has.
    pub fn from_code(code: i32) -> (rtype: Option<ResizeType>)
        ensures
            rtype == ResizeType::spec_from_code(code),
    {
        match code {
            0 => Some(ResizeType::Normal),
            1 => Some(ResizeType::SeamCarve),
            _ => None,
        }
    }
}

impl SampleFilter {
    /// The code of the filter.
    pub open spec fn spec_code(self) -> i32 {
        match self {
            SampleFilter::Nearest => 1,
            SampleFilter::Triangle => 2,
            SampleFilter::CatmullRom => 3,
            SampleFilter::Gaussian => 4,
            SampleFilter::Lanczos3 => 5,
        }
    }

    /// The filter that has the given code.
    pub open spec fn spec_from_code(code: i32) -> Option<SampleFilter> {
        if code == 1 {
            Some(SampleFilter::Nearest)
        } else if code == 2 {
            Some(SampleFilter::Triangle)
        } else if code == 3 {
            Some(SampleFilter::CatmullRom)
        } else if code == 4 {
            Some(SampleFilter::Gaussian)
        } else if code == 5 {
            Some(SampleFilter::Lanczos3)
        } else {
            None
        }
    }

    /// The code of the filter.
    pub fn code(self) -> (code: i32)
        ensures
            code == self.spec_code(),
    {
        match self {
            SampleFilter::Nearest => 1,
            SampleFilter::Triangle => 2,
            SampleFilter::CatmullRom => 3,
            SampleFilter::Gaussian => 4,
            SampleFilter::Lanczos3 => 5,
        }
    }

    /// The filter that has the given code, if any has.
    pub fn from_code(code: i32) -> (filter: Option<SampleFilter>)
        ensures
            filter == SampleFilter::spec_from_code(code),
    {
        match code {
            1 => Some(SampleFilter::Nearest),
            2 => Some(SampleFilter::Triangle),
            3 => Some(SampleFilter::CatmullRom),
            4 => Some(SampleFilter::Gaussian),
            5 => Some(SampleFilter::Lanczos3),
            _ => None,
        }
    }
}

/// A resize type is found again by its code, and no two of them share a code.
pub proof fn law_resize_type_code_round_trip(rtype: ResizeType, code: i32)
    ensures
        ResizeType::spec_from_code(rtype.spec_code()) == Some(rtype),
        ResizeType::spec_from_code(code) matches Some(found) ==> found.spec_code() == code,
{
}

/// A sampling filter is found again by its code, and no two of them share a code.
pub proof fn law_sample_filter_code_round_trip(filter: SampleFilter, code: i32)
    ensures
        SampleFilter::spec_from_code(filter.spec_code()) == Some(filter),
        SampleFilter::spec_from_code(code) matches Some(found) ==> found.spec_code() == code,
{
}

/// The codes by which messages name the ways to resize: 0 and 1 for the resize types, and 1 to 5 for
/// the sampling filters. No other code stands for one.
pub proof fn law_resize_codes(code: i32)
    ensures
        ResizeType::spec_from_code(code) == Some(ResizeType::Normal) <==> code == 0,
        ResizeType::spec_from_code(code) == Some(ResizeType::SeamCarve) <==> code == 1,
        SampleFilter::spec_from_code(code) == Some(SampleFilter::Nearest) <==> code == 1,
        SampleFilter::spec_from_code(code) == Some(SampleFilter::Triangle) <==> code == 2,
        SampleFilter::spec_from_code(code) == Some(SampleFilter::CatmullRom) <==> code == 3,
        SampleFilter::spec_from_code(code) == Some(SampleFilter::Gaussian) <==> code == 4,
        SampleFilter::spec_from_code(code) == Some(SampleFilter::Lanczos3) <==> code == 5,
{
}

} // verus!
