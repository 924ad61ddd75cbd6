use vstd::prelude::*;
use vstd::slice::slice_subrange;
use crate::error::X3FError;

verus! {

/// The entries that a run of bytes holds: one for each full 12 bytes, in
/// order. What is left after the last full entry belongs to none.
pub open spec fn entry_views(region: Seq<u8>) -> Seq<Seq<u8>> {
    Seq::new((region.len() / 12) as nat, |i: int| region.subrange(12 * i, 12 * i + 12))
}

/// The first entry of a region is its first 12 bytes, and the entries after it
/// are those of the region without them.
pub proof fn lemma_entry_views_step(region: Seq<u8>)
    requires
        region.len() >= 12,
    ensures
        entry_views(region).len() > 0,
        entry_views(region)[0] == region.subrange(0, 12),
        entry_views(region.subrange(12, region.len() as int)) == entry_views(region).skip(1),
{
    let rest = region.subrange(12, region.len() as int);
    assert(entry_views(region)[0] == region.subrange(0, 12));
    assert(entry_views(rest).len() == entry_views(region).skip(1).len());
    assert forall|i: int| 0 <= i < entry_views(rest).len() implies entry_views(rest)[i]
        == entry_views(region).skip(1)[i] by {
        assert(rest.subrange(12 * i, 12 * i + 12) =~= region.subrange(
            12 * (i + 1),
            12 * (i + 1) + 12,
        ));
    }
    assert(entry_views(rest) =~= entry_views(region).skip(1));
}

/// A region holds as many entries as 12 goes into its length. What is left
/// over is shorter than an entry and belongs to none; a region of under 12
/// bytes holds no entry at all.
pub proof fn lemma_entry_views_count(region: Seq<u8>)
    ensures
        entry_views(region).len() == region.len() / 12,
        12 * entry_views(region).len() <= region.len() < 12 * entry_views(region).len() + 12,
        region.len() < 12 ==> entry_views(region).len() == 0,
{
}

/// Every entry of a region is 12 bytes of it, at a multiple of 12, and ends
/// no later than the region does.
pub proof fn lemma_entry_views_in_bounds(region: Seq<u8>, k: int)
    requires
        0 <= k < entry_views(region).len(),
    ensures
        12 * k + 12 <= region.len(),
        entry_views(region)[k] == region.subrange(12 * k, 12 * k + 12),
        entry_views(region)[k].len() == 12,
{
}

/// The table of contents of a container.
///
/// | Offset | Length | Field |
/// | --- | --- | --- |
/// | 0 | 4 | section identifier, `"SECd"` |
/// | 4 | 4 | section version |
/// | 8 | 4 | number of entries, little-endian |
/// | 12 | 12 each | the entries |
///
/// The number of entries that the table declares is only reported. How many
/// entries there are is decided by the bytes at hand.
#[derive(Debug)]
pub struct DirectoryRef<'a> {
    bytes: &'a [u8],
}

impl<'a> DirectoryRef<'a> {
    #[verifier::type_invariant]
    spec fn inv(self) -> bool {
        self.bytes@.len() >= 12
    }

    /// The bytes that the directory covers: its 12-byte head and all that
    /// follows it.
    pub closed spec fn view(&self) -> Seq<u8> {
        self.bytes@
    }

    /// The bytes after the 12-byte head.
    pub open spec fn entry_region(&self) -> Seq<u8> {
        self@.subrange(12, self@.len() as int)
    }

    /// Takes all of `bytes` as a directory.
    pub fn from_bytes(bytes: &'a [u8]) -> (r: Result<Self, X3FError>)
        ensures
            bytes@.len() < 12 ==> r == Err::<Self, X3FError>(X3FError::TooShort),
            bytes@.len() >= 12 ==> r is Ok && r->Ok_0@ == bytes@,
    {
        if bytes.len() < 12 {
            return Err(X3FError::TooShort);
        }
        Ok(Self { bytes })
    }

    /// All the bytes, as they stand in the buffer.
    #[must_use]
    pub fn as_bytes(&self) -> (out: &'a [u8])
        ensures
            out@ == self@,
            out@.len() >= 12,
    {
        proof {
            use_type_invariant(self);
        }
        self.bytes
    }

    /// The section identifier.
    #[must_use]
    pub fn section_identifier(&self) -> (out: &'a [u8])
        ensures
            out@ == self@.subrange(0, 4),
            out@.len() == 4,
    {
        proof {
            use_type_invariant(self);
        }
        slice_subrange(self.bytes, 0, 4)
    }

    /// The section version.
    #[must_use]
    pub fn section_version(&self) -> (out: &'a [u8])
        ensures
            out@ == self@.subrange(4, 8),
            out@.len() == 4,
    {
        proof {
            use_type_invariant(self);
        }
        slice_subrange(self.bytes, 4, 8)
    }

    /// The declared number of entries, undecoded.
    #[must_use]
    pub fn entry_count(&self) -> (out: &'a [u8])
        ensures
            out@ == self@.subrange(8, 12),
            out@.len() == 4,
    {
        proof {
            use_type_invariant(self);
        }
        slice_subrange(self.bytes, 8, 12)
    }

    /// A walk over the entries, from the first. Each call starts afresh.
    #[must_use]
    pub fn entries(&self) -> (it: DirectoryEntriesIter<'a>)
        ensures
            self@.len() >= 12,
            it.remaining() == self.entry_region(),
            it.yields() == entry_views(self.entry_region()),
    {
        proof {
            use_type_invariant(self);
        }
        DirectoryEntriesIter { bytes: slice_subrange(self.bytes, 12, self.bytes.len()), pos: 0 }
    }
}

/// A walk over the entries of a directory, in strides of 12 bytes.
#[derive(Debug)]
pub struct DirectoryEntriesIter<'a> {
    bytes: &'a [u8],
    pos: usize,
}

impl<'a> DirectoryEntriesIter<'a> {
    #[verifier::type_invariant]
    spec fn inv(self) -> bool {
        self.pos <= self.bytes@.len()
    }

    /// The bytes that the walk has not passed yet.
    pub closed spec fn remaining(&self) -> Seq<u8> {
        self.bytes@.subrange(self.pos as int, self.bytes@.len() as int)
    }

    /// The entries that the walk has yet to hand out, in order.
    pub open spec fn yields(&self) -> Seq<Seq<u8>> {
        entry_views(self.remaining())
    }

    /// Hands out the next entry, if 12 bytes are left for one. Once they are
    /// not, the walk stays where it is and every further call gives `None`.
    pub fn next(&mut self) -> (r: Option<DirectoryEntryRef<'a>>)
        ensures
            old(self).remaining().len() >= 12 ==> {
                &&& r is Some
                &&& r->Some_0@ == old(self).remaining().subrange(0, 12)
                &&& final(self).remaining() == old(self).remaining().subrange(
                    12,
                    old(self).remaining().len() as int,
                )
            },
            old(self).remaining().len() < 12 ==> r is None && *final(self) == *old(self),
            old(self).yields().len() > 0 ==> {
                &&& r is Some
                &&& r->Some_0@ == old(self).yields()[0]
                &&& final(self).yields() == old(self).yields().skip(1)
            },
            old(self).yields().len() == 0 ==> r is None,
    {
        proof {
            use_type_invariant(&*self);
        }
        if self.bytes.len() - self.pos >= 12 {
            let entry = DirectoryEntryRef {
                bytes: slice_subrange(self.bytes, self.pos, self.pos + 12),
            };
            proof {
                let before = old(self).remaining();
                lemma_entry_views_step(before);
                assert(entry.bytes@ =~= before.subrange(0, 12));
                assert(self.bytes@.subrange(self.pos + 12, self.bytes@.len() as int)
                    =~= before.subrange(12, before.len() as int));
            }
            self.pos += 12;
            Some(entry)
        } else {
            None
        }
    }

    /// How many entries the walk has yet to hand out.
    pub fn count(self) -> (n: usize)
        ensures
            n == self.yields().len(),
            n == self.remaining().len() / 12,
    {
        let mut it = self;
        let mut n: usize = 0;
        proof {
            use_type_invariant(&it);
            vstd::slice::axiom_spec_len(it.bytes);
        }
        loop
            invariant
                n + it.yields().len() == self.yields().len(),
                self.remaining().len() <= usize::MAX,
            ensures
                it.yields().len() == 0,
            decreases it.yields().len(),
        {
            match it.next() {
                Some(_) => {
                    n += 1;
                },
                None => {
                    break ;
                },
            }
        }
        n
    }
}

/// One entry of a directory: where a section lies and what it is.
///
/// | Offset | Length | Field |
/// | --- | --- | --- |
/// | 0 | 4 | offset of the section from the start of the file, little-endian |
/// | 4 | 4 | length of the section in bytes, little-endian |
/// | 8 | 4 | type of the section |
#[derive(Debug)]
pub struct DirectoryEntryRef<'a> {
    bytes: &'a [u8],
}

impl<'a> DirectoryEntryRef<'a> {
    #[verifier::type_invariant]
    spec fn inv(self) -> bool {
        self.bytes@.len() == 12
    }

    /// The bytes that the entry covers.
    pub closed spec fn view(&self) -> Seq<u8> {
        self.bytes@
    }

    /// All 12 bytes, as they stand in the buffer.
    #[must_use]
    pub fn as_bytes(&self) -> (out: &'a [u8])
        ensures
            out@ == self@,
            out@.len() == 12,
    {
        proof {
            use_type_invariant(self);
        }
        self.bytes
    }

    /// The offset field, undecoded.
    #[must_use]
    pub fn data_offset(&self) -> (out: &'a [u8])
        ensures
            out@ == self@.subrange(0, 4),
            out@.len() == 4,
    {
        proof {
            use_type_invariant(self);
        }
        slice_subrange(self.bytes, 0, 4)
    }

    /// The length field, undecoded.
    #[must_use]
    pub fn data_length(&self) -> (out: &'a [u8])
        ensures
            out@ == self@.subrange(4, 8),
            out@.len() == 4,
    {
        proof {
            use_type_invariant(self);
        }
        slice_subrange(self.bytes, 4, 8)
    }

    /// The type tag.
    #[must_use]
    pub fn entry_type(&self) -> (out: &'a [u8])
        ensures
            out@ == self@.subrange(8, 12),
            out@.len() == 4,
    {
        proof {
            use_type_invariant(self);
        }
        slice_subrange(self.bytes, 8, 12)
    }
}

} // verus!
