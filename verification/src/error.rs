use vstd::prelude::*;

verus! {

/// The single failure kind this component raises: the input does not meet
/// the layout's specification. Both variants arise only at construction;
/// each carries the offending values so that a caller can report exactly
/// which condition failed.
#[derive(Debug, Clone, Copy, PartialEq, Eq, Structural)]
pub enum Error {
    /// The declared element width does not equal the in-memory byte width
    /// of the target numeric type.
    WidthMismatch { type_width: usize, declared_width: usize },
    /// The buffer length is not an exact multiple of the element width.
    MisalignedLength { length: usize, width: usize },
}

} // verus!
