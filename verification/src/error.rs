use vstd::prelude::*;

verus! {

/// The text that was refused as the content of a cell.
#[derive(Debug, PartialEq, Eq)]
pub struct InvalidCell {
    pub text: String,
}

/// Everything that can go wrong with caller-supplied input.
///
/// All of these are recoverable and are handed back to the caller.
#[derive(Debug, PartialEq, Eq)]
pub enum EngineError {
    /// A cell was given text that is neither empty nor exactly one grapheme
    /// cluster.
    Construction(InvalidCell),
    /// A size or a rate is zero where that is impossible, or too large to
    /// be held.
    InvalidDimension,
    /// The source and the destination of a sub-region assignment differ in
    /// shape.
    DimensionMismatch,
    /// No scene or object is registered under this name.
    Lookup { name: String },
    /// The text is not a well-formed interchange document.
    Interchange,
}

} // verus!
