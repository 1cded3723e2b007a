use vstd::prelude::*;

verus! {

/// The ways a conversion can fail inside the library.
#[derive(Debug, PartialEq, Eq)]
pub enum ConvertError {
    /// An annotation document is malformed, incomplete, or holds a
    /// non-numeric value where a number is expected.
    ParseError { path: String },
    /// The medium naming mode met a category name without any ASCII digit.
    NamingError { name: String },
    /// An object name was never registered as a category.
    UnknownCategory { name: String },
    /// A configuration word names no naming mode.
    InvalidMode { word: String },
}

} // verus!
