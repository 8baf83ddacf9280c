use vstd::prelude::*;

verus! {

/// The kinds of text that an input field can be limited to.
#[derive(Debug, Clone, Copy, PartialEq, Eq, Structural)]
pub enum CommonFilter {
    Uint,
    Int,
    Float,
    ID,
    Name,
    Any,
    Hex,
    Base64Normal,
    Base64URL,
}

impl CommonFilter {
    /// The filter that stands for the characters that `filter` lets through:
    /// the filter itself.
    pub fn get_common_filter_allowed_chars(filter: CommonFilter) -> (allowed: CommonFilter)
        ensures
            allowed == filter,
    {
        filter
    }
}

} // verus!
