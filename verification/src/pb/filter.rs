//! The colour filters and their codes.
use vstd::prelude::*;

verus! {

/// A colour filter.
#[derive(Clone, Copy, Debug, PartialEq, Eq, Structural)]
pub enum Filter {
    Unspecified,
    Oceanic,
    Islands,
    Marine,
}

impl Filter {
    /// The code of the filter.
    pub open spec fn spec_code(self) -> i32 {
        match self {
            Filter::Unspecified => 0,
            Filter::Oceanic => 1,
            Filter::Islands => 2,
            Filter::Marine => 3,
        }
    }

    /// The filter that has the given code.
    pub open spec fn spec_from_code(code: i32) -> Option<Filter> {
        if code == 0 {
            Some(Filter::Unspecified)
        } else if code == 1 {
            Some(Filter::Oceanic)
        } else if code == 2 {
            Some(Filter::Islands)
        } else if code == 3 {
            Some(Filter::Marine)
        } else {
            None
        }
    }

    /// The name under which the image engine knows the filter.
    pub open spec fn spec_name(self) -> Option<Seq<char>> {
        match self {
            Filter::Unspecified => None,
            Filter::Oceanic => Some("oceanic"@),
            Filter::Islands => Some("islands"@),
            Filter::Marine => Some("marine"@),
        }
    }

    /// The code of the filter.
    pub fn code(self) -> (code: i32)
        ensures
            code == self.spec_code(),
    {
        match self {
            Filter::Unspecified => 0,
            Filter::Oceanic => 1,
            Filter::Islands => 2,
            Filter::Marine => 3,
        }
    }

    /// The filter that has the given code, if any has.
    pub fn from_code(code: i32) -> (filter: Option<Filter>)
        ensures
            filter == Filter::spec_from_code(code),
    {
        match code {
            0 => Some(Filter::Unspecified),
            1 => Some(Filter::Oceanic),
            2 => Some(Filter::Islands),
            3 => Some(Filter::Marine),
            _ => None,
        }
    }

    /// The name under which the image engine knows the filter; none for no filter.
    pub fn to_str(self) -> (name: Option<&'static str>)
        ensures
            match name {
                Some(text) => self.spec_name() == Some(text@),
                None => self.spec_name() is None,
            },
    {
        match self {
            Filter::Unspecified => None,
            Filter::Oceanic => Some("oceanic"),
            Filter::Islands => Some("islands"),
            Filter::Marine => Some("marine"),
        }
    }
}

/// A filter is found again by its code, and no two filters share a code.
pub proof fn law_filter_code_round_trip(filter: Filter, code: i32)
    ensures
        Filter::spec_from_code(filter.spec_code()) == Some(filter),
        Filter::spec_from_code(code) matches Some(found) ==> found.spec_code() == code,
{
}

/// The codes by which messages name the colour filters, and the names by which the image engine knows
/// them: 1 for oceanic, 2 for islands and 3 for marine; 0 stands for no filter, which has no name, and
/// no other code for any.
pub proof fn law_filter_codes_and_names(code: i32)
    ensures
        Filter::spec_from_code(code) == Some(Filter::Unspecified) <==> code == 0,
        Filter::spec_from_code(code) is Some <==> 0 <= code <= 3,
        Filter::Unspecified.spec_name() is None,
        code == 1 ==> Filter::spec_from_code(code)->Some_0.spec_name() == Some("oceanic"@),
        code == 2 ==> Filter::spec_from_code(code)->Some_0.spec_name() == Some("islands"@),
        code == 3 ==> Filter::spec_from_code(code)->Some_0.spec_name() == Some("marine"@),
        Filter::spec_from_code(code) == Some(Filter::Oceanic) <==> code == 1,
        Filter::spec_from_code(code) == Some(Filter::Islands) <==> code == 2,
        Filter::spec_from_code(code) == Some(Filter::Marine) <==> code == 3,
{
}

} // verus!
