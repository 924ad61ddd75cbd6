use vstd::prelude::*;
use vstd::slice::slice_subrange;
use crate::error::X3FError;

verus! {

/// The 40 leading bytes of a container.
///
/// | Offset | Length | Field |
/// | --- | --- | --- |
/// | 0 | 4 | file type identifier, `"FOVb"` |
/// | 4 | 4 | file format version |
/// | 8 | 16 | unique identifier |
/// | 24 | 4 | mark bits |
/// | 28 | 4 | image columns, little-endian |
/// | 32 | 4 | image rows, little-endian |
/// | 36 | 4 | rotation in degrees clockwise, little-endian |
///
/// The fields are handed out as raw bytes; nothing is decoded and the rotation
/// is not held to any set of values.
#[derive(Debug)]
pub struct HeaderRef<'a> {
    bytes: &'a [u8],
}

impl<'a> HeaderRef<'a> {
    pub const LENGTH: usize = 40;

    #[verifier::type_invariant]
    spec fn inv(self) -> bool {
        self.bytes@.len() == 40
    }

    /// The bytes that the header covers.
    pub closed spec fn view(&self) -> Seq<u8> {
        self.bytes@
    }

    /// Takes the first 40 bytes of `bytes` as a header.
    pub fn from_bytes(bytes: &'a [u8]) -> (r: Result<Self, X3FError>)
        ensures
            bytes@.len() < 40 ==> r == Err::<Self, X3FError>(X3FError::TooShort),
            bytes@.len() >= 40 ==> r is Ok && r->Ok_0@ == bytes@.subrange(0, 40),
    {
        if bytes.len() < Self::LENGTH {
            return Err(X3FError::TooShort);
        }
        Ok(Self { bytes: slice_subrange(bytes, 0, Self::LENGTH) })
    }

    /// All 40 bytes, as they stand in the buffer.
    #[must_use]
    pub fn as_bytes(&self) -> (out: &'a [u8])
        ensures
            out@ == self@,
            out@.len() == 40,
    {
        proof {
            use_type_invariant(self);
        }
        self.bytes
    }

    /// The file type identifier.
    #[must_use]
    pub fn file_type_identifier(&self) -> (out: &'a [u8])
        ensures
            out@ == self@.subrange(0, 4),
            out@.len() == 4,
    {
        proof {
            use_type_invariant(self);
        }
        slice_subrange(self.bytes, 0, 4)
    }

    /// The file format version.
    #[must_use]
    pub fn file_format_version(&self) -> (out: &'a [u8])
        ensures
            out@ == self@.subrange(4, 8),
            out@.len() == 4,
    {
        proof {
            use_type_invariant(self);
        }
        slice_subrange(self.bytes, 4, 8)
    }

    /// The identifier that is unique to the image.
    #[must_use]
    pub fn unique_identifier(&self) -> (out: &'a [u8])
        ensures
            out@ == self@.subrange(8, 24),
            out@.len() == 16,
    {
        proof {
            use_type_invariant(self);
        }
        slice_subrange(self.bytes, 8, 24)
    }

    /// The mark bits.
    #[must_use]
    pub fn mark_bits(&self) -> (out: &'a [u8])
        ensures
            out@ == self@.subrange(24, 28),
            out@.len() == 4,
    {
        proof {
            use_type_invariant(self);
        }
        slice_subrange(self.bytes, 24, 28)
    }

    /// The width of the unrotated image.
    #[must_use]
    pub fn image_columns(&self) -> (out: &'a [u8])
        ensures
            out@ == self@.subrange(28, 32),
            out@.len() == 4,
    {
        proof {
            use_type_invariant(self);
        }
        slice_subrange(self.bytes, 28, 32)
    }

    /// The height of the unrotated image.
    #[must_use]
    pub fn image_rows(&self) -> (out: &'a [u8])
        ensures
            out@ == self@.subrange(32, 36),
            out@.len() == 4,
    {
        proof {
            use_type_invariant(self);
        }
        slice_subrange(self.bytes, 32, 36)
    }

    /// The clockwise rotation.
    #[must_use]
    pub fn rotation(&self) -> (out: &'a [u8])
        ensures
            out@ == self@.subrange(36, 40),
            out@.len() == 4,
    {
        proof {
            use_type_invariant(self);
        }
        slice_subrange(self.bytes, 36, 40)
    }
}

/// The 192 bytes that follow the header in files of the 2.1 family and later.
///
/// | Offset | Length | Field |
/// | --- | --- | --- |
/// | 0 | 32 | white balance label, zero-terminated |
/// | 32 | 32 | extended data types, one byte each |
/// | 64 | 128 | extended data, four bytes each |
#[derive(Debug)]
pub struct ExtendedHeaderRef<'a> {
    bytes: &'a [u8],
}

impl<'a> ExtendedHeaderRef<'a> {
    pub const LENGTH: usize = 192;

    #[verifier::type_invariant]
    spec fn inv(self) -> bool {
        self.bytes@.len() == 192
    }

    /// The bytes that the extended header covers.
    pub closed spec fn view(&self) -> Seq<u8> {
        self.bytes@
    }

    /// Takes the first 192 bytes of `bytes` as an extended header.
    pub fn from_bytes(bytes: &'a [u8]) -> (r: Result<Self, X3FError>)
        ensures
            bytes@.len() < 192 ==> r == Err::<Self, X3FError>(X3FError::TooShort),
            bytes@.len() >= 192 ==> r is Ok && r->Ok_0@ == bytes@.subrange(0, 192),
    {
        if bytes.len() < Self::LENGTH {
            return Err(X3FError::TooShort);
        }
        Ok(Self { bytes: slice_subrange(bytes, 0, Self::LENGTH) })
    }

    /// All 192 bytes, as they stand in the buffer.
    #[must_use]
    pub fn as_bytes(&self) -> (out: &'a [u8])
        ensures
            out@ == self@,
            out@.len() == 192,
    {
        proof {
            use_type_invariant(self);
        }
        self.bytes
    }

    /// The white balance label.
    #[must_use]
    pub fn white_balance_label_string(&self) -> (out: &'a [u8])
        ensures
            out@ == self@.subrange(0, 32),
            out@.len() == 32,
    {
        proof {
            use_type_invariant(self);
        }
        slice_subrange(self.bytes, 0, 32)
    }

    /// The 32 type codes of the extended data.
    #[must_use]
    pub fn extended_data_types(&self) -> (out: &'a [u8])
        ensures
            out@ == self@.subrange(32, 64),
            out@.len() == 32,
    {
        proof {
            use_type_invariant(self);
        }
        slice_subrange(self.bytes, 32, 64)
    }

    /// The 32 values of the extended data.
    #[must_use]
    pub fn extended_data(&self) -> (out: &'a [u8])
        ensures
            out@ == self@.subrange(64, 192),
            out@.len() == 128,
    {
        proof {
            use_type_invariant(self);
        }
        slice_subrange(self.bytes, 64, 192)
    }
}

} // verus!
