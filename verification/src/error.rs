use vstd::prelude::*;

verus! {

/// Why a buffer was refused.
#[derive(Debug, Clone, Copy, PartialEq, Eq, Structural)]
pub enum X3FError {
    /// A region lacks the bytes that its fixed or minimum size requires.
    TooShort,
    /// The first four bytes are not the container's magic tag.
    InvalidFileType,
    /// An offset read from the buffer points past the buffer's end.
    OutOfBounds,
}

} // verus!
