use vstd::prelude::*;
use vstd::slice::slice_subrange;
use crate::error::X3FError;

verus! {

/// The trailer of a container: its last four bytes, which hold the offset of
/// the directory from the start of the file, little-endian.
#[derive(Debug)]
pub struct DirectoryPointerRef<'a> {
    bytes: &'a [u8],
}

impl<'a> DirectoryPointerRef<'a> {
    pub const LENGTH: usize = 4;

    #[verifier::type_invariant]
    spec fn inv(self) -> bool {
        self.bytes@.len() == 4
    }

    /// The bytes that the pointer covers.
    pub closed spec fn view(&self) -> Seq<u8> {
        self.bytes@
    }

    /// Takes the first 4 bytes of `bytes` as a directory pointer.
    pub fn from_bytes(bytes: &'a [u8]) -> (r: Result<Self, X3FError>)
        ensures
            bytes@.len() < 4 ==> r == Err::<Self, X3FError>(X3FError::TooShort),
            bytes@.len() >= 4 ==> r is Ok && r->Ok_0@ == bytes@.subrange(0, 4),
    {
        if bytes.len() < Self::LENGTH {
            return Err(X3FError::TooShort);
        }
        Ok(Self { bytes: slice_subrange(bytes, 0, Self::LENGTH) })
    }

    /// All 4 bytes, as they stand in the buffer.
    #[must_use]
    pub fn as_bytes(&self) -> (out: &'a [u8])
        ensures
            out@ == self@,
            out@.len() == 4,
    {
        proof {
            use_type_invariant(self);
        }
        self.bytes
    }

    /// The offset field, undecoded.
    #[must_use]
    pub fn offset(&self) -> (out: &'a [u8])
        ensures
            out@ == self@.subrange(0, 4),
            out@ == self@,
            out@.len() == 4,
    {
        proof {
            use_type_invariant(self);
        }
        slice_subrange(self.bytes, 0, 4)
    }
}

} // verus!
