use vstd::prelude::*;
use vstd::slice::slice_subrange;
use crate::error::X3FError;

verus! {

/// A property list: pairs of a name and a value, as text.
///
/// | Offset | Length | Field |
/// | --- | --- | --- |
/// | 0 | 4 | section identifier |
/// | 4 | 4 | property list format version |
/// | 8 | 4 | number of property entries |
/// | 12 | 4 | character format of all entries |
/// | 16 | 4 | reserved |
/// | 20 | 4 | total length of the name and value data, in characters |
///
/// The names and values after the head are not decoded.
#[derive(Debug)]
pub struct Prop<'a> {
    bytes: &'a [u8],
}

impl<'a> Prop<'a> {
    pub const LENGTH: usize = 24;

    #[verifier::type_invariant]
    spec fn inv(self) -> bool {
        self.bytes@.len() >= 24
    }

    /// The bytes that the section covers: its head and the payload after it.
    pub closed spec fn view(&self) -> Seq<u8> {
        self.bytes@
    }

    /// Takes all of `bytes` as a property list, if they hold at least its head.
    pub fn from_bytes(bytes: &'a [u8]) -> (r: Result<Self, X3FError>)
        ensures
            bytes@.len() < 24 ==> r == Err::<Self, X3FError>(X3FError::TooShort),
            bytes@.len() >= 24 ==> r is Ok && r->Ok_0@ == bytes@,
    {
        if bytes.len() < Self::LENGTH {
            return Err(X3FError::TooShort);
        }
        Ok(Self { bytes })
    }

    /// All the bytes, as they stand in the buffer.
    #[must_use]
    pub fn as_bytes(&self) -> (out: &'a [u8])
        ensures
            out@ == self@,
            out@.len() >= 24,
    {
        proof {
            use_type_invariant(self);
        }
        self.bytes
    }

    /// The section identifier.
    #[must_use]
    pub fn section_identifier(&self) -> (out: &'a [u8])
        ensures
            out@ == self@.subrange(0, 4),
            out@.len() == 4,
    {
        proof {
            use_type_invariant(self);
        }
        slice_subrange(self.bytes, 0, 4)
    }

    /// The version of the list's format.
    #[must_use]
    pub fn property_list_format_version(&self) -> (out: &'a [u8])
        ensures
            out@ == self@.subrange(4, 8),
            out@.len() == 4,
    {
        proof {
            use_type_invariant(self);
        }
        slice_subrange(self.bytes, 4, 8)
    }

    /// The number of pairs in the list.
    #[must_use]
    pub fn number_of_property_entries(&self) -> (out: &'a [u8])
        ensures
            out@ == self@.subrange(8, 12),
            out@.len() == 4,
    {
        proof {
            use_type_invariant(self);
        }
        slice_subrange(self.bytes, 8, 12)
    }

    /// The character format of the names and values.
    #[must_use]
    pub fn character_format(&self) -> (out: &'a [u8])
        ensures
            out@ == self@.subrange(12, 16),
            out@.len() == 4,
    {
        proof {
            use_type_invariant(self);
        }
        slice_subrange(self.bytes, 12, 16)
    }

    /// The reserved field.
    #[must_use]
    pub fn reserved(&self) -> (out: &'a [u8])
        ensures
            out@ == self@.subrange(16, 20),
            out@.len() == 4,
    {
        proof {
            use_type_invariant(self);
        }
        slice_subrange(self.bytes, 16, 20)
    }

    /// The length of all names and values together, in characters.
    #[must_use]
    pub fn total_length_of_name_value_data(&self) -> (out: &'a [u8])
        ensures
            out@ == self@.subrange(20, 24),
            out@.len() == 4,
    {
        proof {
            use_type_invariant(self);
        }
        slice_subrange(self.bytes, 20, 24)
    }
}

/// Image data.
///
/// | Offset | Length | Field |
/// | --- | --- | --- |
/// | 0 | 4 | section identifier |
/// | 4 | 4 | image format version |
/// | 8 | 4 | type of image data |
/// | 12 | 4 | data format |
/// | 16 | 4 | image columns |
/// | 20 | 4 | image rows |
/// | 24 | 4 | row size in bytes; zero where rows vary in length |
///
/// The pixels after the head are not decoded.
#[derive(Debug)]
pub struct Image<'a> {
    bytes: &'a [u8],
}

impl<'a> Image<'a> {
    pub const LENGTH: usize = 28;

    #[verifier::type_invariant]
    spec fn inv(self) -> bool {
        self.bytes@.len() >= 28
    }

    /// The bytes that the section covers: its head and the payload after it.
    pub closed spec fn view(&self) -> Seq<u8> {
        self.bytes@
    }

    /// Takes all of `bytes` as an image, if they hold at least its head.
    pub fn from_bytes(bytes: &'a [u8]) -> (r: Result<Self, X3FError>)
        ensures
            bytes@.len() < 28 ==> r == Err::<Self, X3FError>(X3FError::TooShort),
            bytes@.len() >= 28 ==> r is Ok && r->Ok_0@ == bytes@,
    {
        if bytes.len() < Self::LENGTH {
            return Err(X3FError::TooShort);
        }
        Ok(Self { bytes })
    }

    /// All the bytes, as they stand in the buffer.
    #[must_use]
    pub fn as_bytes(&self) -> (out: &'a [u8])
        ensures
            out@ == self@,
            out@.len() >= 28,
    {
        proof {
            use_type_invariant(self);
        }
        self.bytes
    }

    /// The section identifier.
    #[must_use]
    pub fn section_identifier(&self) -> (out: &'a [u8])
        ensures
            out@ == self@.subrange(0, 4),
            out@.len() == 4,
    {
        proof {
            use_type_invariant(self);
        }
        slice_subrange(self.bytes, 0, 4)
    }

    /// The version of the image's format.
    #[must_use]
    pub fn image_format_version(&self) -> (out: &'a [u8])
        ensures
            out@ == self@.subrange(4, 8),
            out@.len() == 4,
    {
        proof {
            use_type_invariant(self);
        }
        slice_subrange(self.bytes, 4, 8)
    }

    /// How far the image has been processed.
    #[must_use]
    pub fn type_of_image_data(&self) -> (out: &'a [u8])
        ensures
            out@ == self@.subrange(8, 12),
            out@.len() == 4,
    {
        proof {
            use_type_invariant(self);
        }
        slice_subrange(self.bytes, 8, 12)
    }

    /// How the pixels are stored.
    #[must_use]
    pub fn data_format(&self) -> (out: &'a [u8])
        ensures
            out@ == self@.subrange(12, 16),
            out@.len() == 4,
    {
        proof {
            use_type_invariant(self);
        }
        slice_subrange(self.bytes, 12, 16)
    }

    /// The width of the image in pixels.
    #[must_use]
    pub fn image_columns(&self) -> (out: &'a [u8])
        ensures
            out@ == self@.subrange(16, 20),
            out@.len() == 4,
    {
        proof {
            use_type_invariant(self);
        }
        slice_subrange(self.bytes, 16, 20)
    }

    /// The height of the image in pixels.
    #[must_use]
    pub fn image_rows(&self) -> (out: &'a [u8])
        ensures
            out@ == self@.subrange(20, 24),
            out@.len() == 4,
    {
        proof {
            use_type_invariant(self);
        }
        slice_subrange(self.bytes, 20, 24)
    }

    /// The size of a row in bytes, or zero where rows vary in length.
    #[must_use]
    pub fn row_size_in_bytes(&self) -> (out: &'a [u8])
        ensures
            out@ == self@.subrange(24, 28),
            out@.len() == 4,
    {
        proof {
            use_type_invariant(self);
        }
        slice_subrange(self.bytes, 24, 28)
    }
}

/// Camera metadata. Only the section identifier is known; the rest is handed
/// out as it is.
#[derive(Debug)]
pub struct Camf<'a> {
    bytes: &'a [u8],
}

impl<'a> Camf<'a> {
    pub const LENGTH: usize = 4;

    #[verifier::type_invariant]
    spec fn inv(self) -> bool {
        self.bytes@.len() >= 4
    }

    /// The bytes that the section covers: its head and the payload after it.
    pub closed spec fn view(&self) -> Seq<u8> {
        self.bytes@
    }

    /// Takes all of `bytes` as camera metadata, if they hold at least its head.
    pub fn from_bytes(bytes: &'a [u8]) -> (r: Result<Self, X3FError>)
        ensures
            bytes@.len() < 4 ==> r == Err::<Self, X3FError>(X3FError::TooShort),
            bytes@.len() >= 4 ==> r is Ok && r->Ok_0@ == bytes@,
    {
        if bytes.len() < Self::LENGTH {
            return Err(X3FError::TooShort);
        }
        Ok(Self { bytes })
    }

    /// All the bytes, as they stand in the buffer.
    #[must_use]
    pub fn as_bytes(&self) -> (out: &'a [u8])
        ensures
            out@ == self@,
            out@.len() >= 4,
    {
        proof {
            use_type_invariant(self);
        }
        self.bytes
    }

    /// The section identifier.
    #[must_use]
    pub fn section_identifier(&self) -> (out: &'a [u8])
        ensures
            out@ == self@.subrange(0, 4),
            out@.len() == 4,
    {
        proof {
            use_type_invariant(self);
        }
        slice_subrange(self.bytes, 0, 4)
    }
}

/// The kinds of section that a directory entry can name.
#[derive(Debug, Clone, Copy, PartialEq, Eq, Structural)]
pub enum SectionKind {
    Prop,
    Image,
    Ima2,
    Camf,
}

/// The kind that a type tag names: `"PROP"`, `"IMAG"`, `"IMA2"` or `"CAMF"`.
/// Any other tag names none.
pub open spec fn kind_of_tag(tag: Seq<u8>) -> Option<SectionKind> {
    if tag == seq![0x50u8, 0x52u8, 0x4fu8, 0x50u8] {
        Some(SectionKind::Prop)
    } else if tag == seq![0x49u8, 0x4du8, 0x41u8, 0x47u8] {
        Some(SectionKind::Image)
    } else if tag == seq![0x49u8, 0x4du8, 0x41u8, 0x32u8] {
        Some(SectionKind::Ima2)
    } else if tag == seq![0x43u8, 0x41u8, 0x4du8, 0x46u8] {
        Some(SectionKind::Camf)
    } else {
        None
    }
}

/// The least number of bytes that a section of a kind holds.
pub open spec fn min_len(kind: SectionKind) -> nat {
    match kind {
        SectionKind::Prop => 24,
        SectionKind::Image => 28,
        SectionKind::Ima2 => 28,
        SectionKind::Camf => 4,
    }
}

/// The section that a directory entry points to.
///
/// `Ima2` holds an image like `Image` does; the tag is kept so that a reader
/// can tell a preview that was processed from one that was not.
#[derive(Debug)]
pub enum SectionData<'a> {
    Prop(Prop<'a>),
    Image(Image<'a>),
    Ima2(Image<'a>),
    Camf(Camf<'a>),
}

impl<'a> SectionData<'a> {
    /// Which kind of section this is.
    pub open spec fn kind(&self) -> SectionKind {
        match self {
            SectionData::Prop(_) => SectionKind::Prop,
            SectionData::Image(_) => SectionKind::Image,
            SectionData::Ima2(_) => SectionKind::Ima2,
            SectionData::Camf(_) => SectionKind::Camf,
        }
    }

    /// The bytes that the section covers.
    pub open spec fn view(&self) -> Seq<u8> {
        match self {
            SectionData::Prop(p) => p@,
            SectionData::Image(i) => i@,
            SectionData::Ima2(i) => i@,
            SectionData::Camf(c) => c@,
        }
    }
}

} // verus!
