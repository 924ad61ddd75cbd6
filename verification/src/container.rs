use vstd::prelude::*;
use vstd::slice::slice_subrange;
use crate::data::{kind_of_tag, min_len, Camf, Image, Prop, SectionData, SectionKind};
use crate::directory::{entry_views, lemma_entry_views_in_bounds, DirectoryEntryRef, DirectoryRef};
use crate::directory_pointer::DirectoryPointerRef;
use crate::endian::{decode_u32_le, le_u32};
use crate::error::X3FError;
use crate::header::{ExtendedHeaderRef, HeaderRef};

verus! {

/// The tag that opens every container: `"FOVb"`.
pub open spec fn magic() -> Seq<u8> {
    seq![0x46u8, 0x4fu8, 0x56u8, 0x62u8]
}

/// Whether the version field of a buffer's header calls for an extended
/// header: read as a little-endian number, it is above `0x2000`.
pub open spec fn has_extended_header(buffer: Seq<u8>) -> bool
    recommends
        buffer.len() >= 8,
{
    le_u32(buffer.subrange(4, 8)) > 0x2000
}

/// The offset of the directory, as the last four bytes of a buffer give it.
pub open spec fn directory_offset(buffer: Seq<u8>) -> int
    recommends
        buffer.len() >= 4,
{
    le_u32(buffer.subrange(buffer.len() - 4, buffer.len() as int)) as int
}

/// Why a buffer is no container, or `None` where it is one. The checks are
/// made in this order and the first that fails decides.
pub open spec fn parse_error(buffer: Seq<u8>) -> Option<X3FError> {
    if buffer.len() < 44 {
        Some(X3FError::TooShort)
    } else if buffer.subrange(0, 4) != magic() {
        Some(X3FError::InvalidFileType)
    } else if has_extended_header(buffer) && buffer.len() < 232 {
        Some(X3FError::TooShort)
    } else if directory_offset(buffer) > buffer.len() {
        Some(X3FError::OutOfBounds)
    } else if buffer.len() - directory_offset(buffer) < 12 {
        Some(X3FError::TooShort)
    } else {
        None
    }
}

/// The section that a 12-byte directory entry names in a buffer: its kind and
/// its bytes. There is none where the tag is unknown, where the entry's range
/// does not lie within the buffer, or where the range is shorter than the
/// head of a section of that kind.
pub open spec fn resolve_section(buffer: Seq<u8>, entry: Seq<u8>) -> Option<(SectionKind, Seq<u8>)>
    recommends
        entry.len() == 12,
{
    let offset = le_u32(entry.subrange(0, 4));
    let length = le_u32(entry.subrange(4, 8));
    match kind_of_tag(entry.subrange(8, 12)) {
        Some(kind) => if offset + length <= buffer.len() && length >= min_len(kind) {
            Some((kind, buffer.subrange(offset as int, (offset + length) as int)))
        } else {
            None
        },
        None => None,
    }
}

/// The entries of a container's directory: those of the bytes from 12 after
/// the directory's offset to the end of the buffer.
pub open spec fn directory_entries(buffer: Seq<u8>) -> Seq<Seq<u8>>
    recommends
        parse_error(buffer) is None,
{
    entry_views(buffer.subrange(directory_offset(buffer) + 12, buffer.len() as int))
}

/// No buffer of under 44 bytes is a container: it cannot hold a header and a
/// directory pointer.
pub proof fn lemma_short_buffer_is_too_short(buffer: Seq<u8>)
    requires
        buffer.len() < 44,
    ensures
        parse_error(buffer) == Some(X3FError::TooShort),
{
}

/// A buffer of 44 bytes or more that does not open with the magic tag is
/// refused for its file type, whatever else it holds.
pub proof fn lemma_wrong_magic_is_invalid_file_type(buffer: Seq<u8>)
    requires
        buffer.len() >= 44,
        buffer.subrange(0, 4) != magic(),
    ensures
        parse_error(buffer) == Some(X3FError::InvalidFileType),
{
}

/// In a container every region lies within the buffer: the header, the
/// extended header where the version calls for one, and the directory with
/// its 12-byte head.
pub proof fn lemma_regions_within_buffer(buffer: Seq<u8>)
    requires
        parse_error(buffer) is None,
    ensures
        buffer.len() >= 44,
        buffer.subrange(0, 4) == magic(),
        has_extended_header(buffer) ==> buffer.len() >= 232,
        directory_offset(buffer) + 12 <= buffer.len(),
{
}

/// Every entry of a container's directory is 12 bytes of the buffer and ends
/// no later than the buffer does, whatever number of entries the directory
/// declares.
pub proof fn lemma_entries_within_buffer(buffer: Seq<u8>, k: int)
    requires
        parse_error(buffer) is None,
        0 <= k < directory_entries(buffer).len(),
    ensures
        directory_offset(buffer) + 12 + 12 * k + 12 <= buffer.len(),
        directory_entries(buffer)[k] == buffer.subrange(
            directory_offset(buffer) + 12 + 12 * k,
            directory_offset(buffer) + 12 + 12 * k + 12,
        ),
{
    let start = directory_offset(buffer) + 12;
    let region = buffer.subrange(start, buffer.len() as int);
    lemma_entry_views_in_bounds(region, k);
    assert(region.subrange(12 * k, 12 * k + 12) =~= buffer.subrange(
        start + 12 * k,
        start + 12 * k + 12,
    ));
}

/// A section that an entry names lies within the buffer, where the entry
/// says, and holds at least the head of its kind.
pub proof fn lemma_resolved_section_within_buffer(buffer: Seq<u8>, entry: Seq<u8>)
    requires
        resolve_section(buffer, entry) is Some,
    ensures
        ({
            let offset = le_u32(entry.subrange(0, 4));
            let length = le_u32(entry.subrange(4, 8));
            let (kind, bytes) = resolve_section(buffer, entry)->Some_0;
            &&& kind_of_tag(entry.subrange(8, 12)) == Some(kind)
            &&& offset + length <= buffer.len()
            &&& bytes == buffer.subrange(offset as int, (offset + length) as int)
            &&& bytes.len() == length
            &&& bytes.len() >= min_len(kind)
        }),
{
}

/// Whether a 4-byte field holds the four given bytes.
fn tag_is(field: &[u8], b0: u8, b1: u8, b2: u8, b3: u8) -> (r: bool)
    requires
        field@.len() == 4,
    ensures
        r <==> field@ == seq![b0, b1, b2, b3],
{
    let r = field[0] == b0 && field[1] == b1 && field[2] == b2 && field[3] == b3;
    proof {
        if r {
            assert(field@ =~= seq![b0, b1, b2, b3]);
        }
    }
    r
}

/// A validated container: the buffer and the regions found in it.
///
/// | Region | Offset | Length |
/// | --- | --- | --- |
/// | header | 0 | 40 |
/// | extended header, from version 2.1 | 40 | 192 |
/// | data | | |
/// | directory | as the trailer says | 12 and 12 for each entry |
/// | directory pointer | end - 4 | 4 |
#[derive(Debug)]
pub struct X3F<'a> {
    bytes: &'a [u8],
    header: HeaderRef<'a>,
    extended_header: Option<ExtendedHeaderRef<'a>>,
    directory_pointer: DirectoryPointerRef<'a>,
    directory: DirectoryRef<'a>,
}

impl<'a> X3F<'a> {
    #[verifier::type_invariant]
    spec fn inv(self) -> bool {
        let buffer = self.bytes@;
        &&& parse_error(buffer) is None
        &&& self.header@ == buffer.subrange(0, 40)
        &&& match self.extended_header {
            Some(extended) => has_extended_header(buffer) && extended@ == buffer.subrange(40, 232),
            None => !has_extended_header(buffer),
        }
        &&& self.directory_pointer@ == buffer.subrange(buffer.len() - 4, buffer.len() as int)
        &&& self.directory@ == buffer.subrange(
            directory_offset(buffer),
            buffer.len() as int,
        )
    }

    /// The whole buffer.
    pub closed spec fn view(&self) -> Seq<u8> {
        self.bytes@
    }

    /// Finds the regions of a container in `bytes`, or says why there is no
    /// container in them. Nothing is read before it is known to be there.
    pub fn from_bytes(bytes: &'a [u8]) -> (r: Result<Self, X3FError>)
        ensures
            match r {
                Ok(x3f) => parse_error(bytes@) is None && x3f@ == bytes@,
                Err(e) => parse_error(bytes@) == Some(e),
            },
            bytes@.len() < 44 ==> r == Err::<Self, X3FError>(X3FError::TooShort),
            bytes@.len() >= 44 && bytes@.subrange(0, 4) != magic() ==> r == Err::<Self, X3FError>(
                X3FError::InvalidFileType,
            ),
    {
        if bytes.len() < HeaderRef::LENGTH + DirectoryPointerRef::LENGTH {
            return Err(X3FError::TooShort);
        }
        let header = match HeaderRef::from_bytes(slice_subrange(bytes, 0, HeaderRef::LENGTH)) {
            Ok(header) => header,
            Err(e) => {
                return Err(e);
            },
        };
        let identifier = header.file_type_identifier();
        assert(identifier@ =~= bytes@.subrange(0, 4));
        if !tag_is(identifier, 0x46, 0x4f, 0x56, 0x62) {
            return Err(X3FError::InvalidFileType);
        }
        let version_field = header.file_format_version();
        assert(version_field@ =~= bytes@.subrange(4, 8));
        let version: u32 = match decode_u32_le(version_field) {
            Some(version) => version,
            None => 0,
        };
        let extended_header = if version > 0x2000 {
            if bytes.len() < HeaderRef::LENGTH + ExtendedHeaderRef::LENGTH {
                return Err(X3FError::TooShort);
            }
            let extended_bytes = slice_subrange(
                bytes,
                HeaderRef::LENGTH,
                HeaderRef::LENGTH + ExtendedHeaderRef::LENGTH,
            );
            match ExtendedHeaderRef::from_bytes(extended_bytes) {
                Ok(extended) => Some(extended),
                Err(e) => {
                    return Err(e);
                },
            }
        } else {
            None
        };
        let trailer = slice_subrange(
            bytes,
            bytes.len() - DirectoryPointerRef::LENGTH,
            bytes.len(),
        );
        let directory_pointer = match DirectoryPointerRef::from_bytes(trailer) {
            Ok(pointer) => pointer,
            Err(e) => {
                return Err(e);
            },
        };
        let offset: usize = match decode_u32_le(directory_pointer.offset()) {
            Some(offset) => offset as usize,
            None => {
                return Err(X3FError::TooShort);
            },
        };
        if offset > bytes.len() {
            return Err(X3FError::OutOfBounds);
        }
        let directory = match DirectoryRef::from_bytes(slice_subrange(bytes, offset, bytes.len())) {
            Ok(directory) => directory,
            Err(e) => {
                return Err(e);
            },
        };
        proof {
            assert(header@ =~= bytes@.subrange(0, 40));
            assert(directory_pointer@ =~= bytes@.subrange(bytes@.len() - 4, bytes@.len() as int));
            if extended_header is Some {
                assert(extended_header->Some_0@ =~= bytes@.subrange(40, 232));
            }
        }
        Ok(Self { bytes, header, extended_header, directory_pointer, directory })
    }

    /// The whole buffer, as it was given.
    #[must_use]
    pub fn as_bytes(&self) -> (out: &'a [u8])
        ensures
            out@ == self@,
            parse_error(self@) is None,
    {
        proof {
            use_type_invariant(self);
        }
        self.bytes
    }

    /// The header: the first 40 bytes of the buffer.
    #[must_use]
    pub fn header(&self) -> (out: &HeaderRef<'a>)
        ensures
            out@ == self@.subrange(0, 40),
    {
        proof {
            use_type_invariant(self);
        }
        &self.header
    }

    /// The extended header: the 192 bytes after the header, in a file whose
    /// version calls for them, and nothing in any other.
    #[must_use]
    pub fn extended_header(&self) -> (out: Option<&ExtendedHeaderRef<'a>>)
        ensures
            out is Some <==> has_extended_header(self@),
            out is Some ==> self@.len() >= 232 && out->Some_0@ == self@.subrange(40, 232),
    {
        proof {
            use_type_invariant(self);
        }
        self.extended_header.as_ref()
    }

    /// The directory pointer: the last 4 bytes of the buffer.
    #[must_use]
    pub fn directory_pointer(&self) -> (out: &DirectoryPointerRef<'a>)
        ensures
            out@ == self@.subrange(self@.len() - 4, self@.len() as int),
    {
        proof {
            use_type_invariant(self);
        }
        &self.directory_pointer
    }

    /// The directory: the buffer from the offset that the directory pointer
    /// holds to its end.
    #[must_use]
    pub fn directory(&self) -> (out: &DirectoryRef<'a>)
        ensures
            directory_offset(self@) + 12 <= self@.len(),
            out@ == self@.subrange(directory_offset(self@), self@.len() as int),
            entry_views(out.entry_region()) == directory_entries(self@),
    {
        proof {
            use_type_invariant(self);
            assert(self.directory.entry_region() =~= self@.subrange(
                directory_offset(self@) + 12,
                self@.len() as int,
            ));
        }
        &self.directory
    }

    /// The section that a directory entry names, or `None` where the entry
    /// names none in this buffer.
    #[must_use]
    pub fn section_data(&self, entry: &DirectoryEntryRef<'a>) -> (r: Option<SectionData<'a>>)
        ensures
            match r {
                Some(section) => resolve_section(self@, entry@) == Some(
                    (section.kind(), section@),
                ),
                None => resolve_section(self@, entry@) is None,
            },
    {
        let offset: usize = match decode_u32_le(entry.data_offset()) {
            Some(offset) => offset as usize,
            None => {
                return None;
            },
        };
        let length: usize = match decode_u32_le(entry.data_length()) {
            Some(length) => length as usize,
            None => {
                return None;
            },
        };
        let entry_type = entry.entry_type();
        let total: usize = self.bytes.len();
        let end: usize = match offset.checked_add(length) {
            Some(end) => end,
            None => {
                return None;
            },
        };
        if end > total {
            return None;
        }
        let data_bytes = slice_subrange(self.bytes, offset, end);
        if tag_is(entry_type, 0x50, 0x52, 0x4f, 0x50) {
            match Prop::from_bytes(data_bytes) {
                Ok(prop) => Some(SectionData::Prop(prop)),
                Err(_) => None,
            }
        } else if tag_is(entry_type, 0x49, 0x4d, 0x41, 0x47) {
            match Image::from_bytes(data_bytes) {
                Ok(image) => Some(SectionData::Image(image)),
                Err(_) => None,
            }
        } else if tag_is(entry_type, 0x49, 0x4d, 0x41, 0x32) {
            match Image::from_bytes(data_bytes) {
                Ok(image) => Some(SectionData::Ima2(image)),
                Err(_) => None,
            }
        } else if tag_is(entry_type, 0x43, 0x41, 0x4d, 0x46) {
            match Camf::from_bytes(data_bytes) {
                Ok(camf) => Some(SectionData::Camf(camf)),
                Err(_) => None,
            }
        } else {
            None
        }
    }
}

} // verus!
