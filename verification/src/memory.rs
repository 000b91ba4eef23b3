//! The memory collaborator: address-mapped storage of 36-bit words,
//! each carrying a metadata ("mark") bit.
//!
//! Addresses are 18-bit values; the unit maps the physical addresses
//! below its size, and an address at or above it (in particular any
//! address with the mark bit set) is not mapped.  Words at or above
//! the writable boundary can be fetched but not stored (they model
//! the machine's fixed plugboard region).  Fetch and store can tag
//! the metadata bit of the word they touch.

use vstd::prelude::*;

use crate::subword::word_in_range;

verus! {

/// The number of physical addresses: the physical address space is
/// 17 bits wide.
pub const PHYSICAL_ADDRESSES: usize = 0o400_000;

/// The physical address of the start-of-memory-clearing program in
/// the plugboard region, used as the toggle start point.
pub const STANDARD_PROGRAM_CLEAR_MEMORY: u32 = 0o377_750;

/// Why a fetch or store failed.
#[derive(Debug, Clone, Copy, PartialEq, Eq, Structural)]
pub enum MemoryOpFailure {
    /// The address maps to no storage.
    NotMapped,
    /// The address maps to storage that cannot be written.
    ReadOnly,
}

/// What a fetch or store does to the metadata bit of the word it
/// touches.
#[derive(Debug, Clone, Copy, PartialEq, Eq, Structural)]
pub enum MetaBitChange {
    /// Leave the metadata bit as it is.
    Keep,
    /// Set the metadata bit.
    Tag,
}

/// The metadata that comes back with a fetched word.
#[derive(Debug, Clone, Copy, PartialEq, Eq, Structural)]
pub struct ExtraBits {
    /// The metadata bit the word carried before this operation.
    pub meta: bool,
}

/// An address-mapped memory unit.
#[derive(Debug)]
pub struct MemoryUnit {
    words: Vec<u64>,
    metas: Vec<bool>,
    writable_len: usize,
}

impl MemoryUnit {
    /// The stored words; address `a` is mapped exactly when `a` is
    /// below their number.
    pub closed spec fn spec_words(&self) -> Seq<u64> {
        self.words@
    }

    /// The metadata bits, one per stored word.
    pub closed spec fn spec_metas(&self) -> Seq<bool> {
        self.metas@
    }

    /// Addresses below this bound are writable; the rest are
    /// read-only.
    pub closed spec fn spec_writable_len(&self) -> usize {
        self.writable_len
    }

    /// Well-formedness: one metadata bit per word, no more storage
    /// than the physical address space, the writable region inside
    /// the mapped region, and every word in range.
    pub open spec fn wf(&self) -> bool {
        &&& self.spec_words().len() == self.spec_metas().len()
        &&& self.spec_words().len() <= PHYSICAL_ADDRESSES
        &&& self.spec_writable_len() <= self.spec_words().len()
        &&& forall|i: int|
            0 <= i < self.spec_words().len() ==> word_in_range(#[trigger] self.spec_words()[i])
    }

    /// A memory unit of `size` zeroed words with clear metadata bits,
    /// writable below `writable_len` and read-only above it.
    pub fn new(size: usize, writable_len: usize) -> (r: MemoryUnit)
        requires
            size <= PHYSICAL_ADDRESSES,
            writable_len <= size,
        ensures
            r.wf(),
            r.spec_words() == Seq::new(size as nat, |i: int| 0u64),
            r.spec_metas() == Seq::new(size as nat, |i: int| false),
            r.spec_writable_len() == writable_len,
    {
        let mut words: Vec<u64> = Vec::new();
        let mut metas: Vec<bool> = Vec::new();
        let mut i: usize = 0;
        while i < size
            invariant
                i <= size,
                words@ =~= Seq::new(i as nat, |j: int| 0u64),
                metas@ =~= Seq::new(i as nat, |j: int| false),
            decreases size - i,
        {
            words.push(0);
            metas.push(false);
            i += 1;
        }
        proof {
            assert(words@ =~= Seq::new(size as nat, |j: int| 0u64));
            assert(metas@ =~= Seq::new(size as nat, |j: int| false));
        }
        MemoryUnit { words, metas, writable_len }
    }

    /// The number of mapped addresses.
    pub fn size(&self) -> (r: usize)
        ensures
            r == self.spec_words().len(),
    {
        self.words.len()
    }

    /// Fetch the word at `addr`, reporting its metadata bit and
    /// applying `meta` to it.  Fails with `NotMapped`, and changes
    /// nothing, when `addr` is not mapped.
    pub fn fetch(&mut self, addr: u32, meta: &MetaBitChange) -> (r: Result<
        (u64, ExtraBits),
        MemoryOpFailure,
    >)
        requires
            old(self).wf(),
        ensures
            final(self).wf(),
            final(self).spec_words() == old(self).spec_words(),
            final(self).spec_writable_len() == old(self).spec_writable_len(),
            if (addr as int) < old(self).spec_words().len() {
                &&& r == Ok::<_, MemoryOpFailure>(
                    (
                        old(self).spec_words()[addr as int],
                        ExtraBits { meta: old(self).spec_metas()[addr as int] },
                    ),
                )
                &&& final(self).spec_metas() == (match meta {
                    MetaBitChange::Keep => old(self).spec_metas(),
                    MetaBitChange::Tag => old(self).spec_metas().update(addr as int, true),
                })
            } else {
                &&& r == Err::<(u64, ExtraBits), _>(MemoryOpFailure::NotMapped)
                &&& final(self).spec_metas() == old(self).spec_metas()
            },
    {
        let idx = addr as usize;
        if idx < self.words.len() {
            let word = self.words[idx];
            let extra = ExtraBits { meta: self.metas[idx] };
            match meta {
                MetaBitChange::Keep => {},
                MetaBitChange::Tag => {
                    self.metas.set(idx, true);
                },
            }
            Ok((word, extra))
        } else {
            Err(MemoryOpFailure::NotMapped)
        }
    }

    /// Store `value` at `addr`, applying `meta` to the metadata bit.
    /// Fails with `NotMapped` when `addr` is not mapped and with
    /// `ReadOnly` when it is mapped but not writable; a failed store
    /// changes nothing.
    pub fn store(&mut self, addr: u32, value: &u64, meta: &MetaBitChange) -> (r: Result<
        (),
        MemoryOpFailure,
    >)
        requires
            old(self).wf(),
            word_in_range(*value),
        ensures
            final(self).wf(),
            final(self).spec_writable_len() == old(self).spec_writable_len(),
            if (addr as int) < old(self).spec_writable_len() {
                &&& r == Ok::<(), MemoryOpFailure>(())
                &&& final(self).spec_words() == old(self).spec_words().update(
                    addr as int,
                    *value,
                )
                &&& final(self).spec_metas() == (match meta {
                    MetaBitChange::Keep => old(self).spec_metas(),
                    MetaBitChange::Tag => old(self).spec_metas().update(addr as int, true),
                })
            } else {
                &&& r == Err::<(), MemoryOpFailure>(
                    if (addr as int) < old(self).spec_words().len() {
                        MemoryOpFailure::ReadOnly
                    } else {
                        MemoryOpFailure::NotMapped
                    },
                )
                &&& final(self).spec_words() == old(self).spec_words()
                &&& final(self).spec_metas() == old(self).spec_metas()
            },
    {
        let idx = addr as usize;
        if idx >= self.words.len() {
            Err(MemoryOpFailure::NotMapped)
        } else if idx >= self.writable_len {
            Err(MemoryOpFailure::ReadOnly)
        } else {
            self.words.set(idx, *value);
            match meta {
                MetaBitChange::Keep => {},
                MetaBitChange::Tag => {
                    self.metas.set(idx, true);
                },
            }
            Ok(())
        }
    }
}

} // verus!
