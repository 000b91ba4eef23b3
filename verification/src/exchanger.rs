//! The exchange element: a pure function that combines a new value
//! with existing memory content under a configuration selector.
//!
//! The model here is quarter-activation masking.  A configuration
//! value activates or deactivates each of the four 9-bit quarters of
//! a word: bit *q* of the configuration set means quarter *q* is
//! inactive.  On a store, active quarters come from the new value and
//! inactive quarters keep the existing memory content, so
//! configuration zero stores the new value whole.  The combination
//! cannot fail and has no side effects.

use vstd::prelude::*;

use crate::subword::{word_in_range, WORD_MASK};

verus! {

/// Mask of a 9-bit configuration value.
pub const CONFIGURATION_MASK: u32 = 0o777;

/// One system-configuration value: the contents of one F-memory
/// register, 9 bits.
#[derive(Debug, Clone, Copy, PartialEq, Eq, Structural)]
pub struct SystemConfiguration {
    /// The 9-bit configuration value.
    pub bits: u32,
}

impl View for SystemConfiguration {
    type V = u32;

    /// A configuration is viewed as its 9-bit value.
    open spec fn view(&self) -> u32 {
        self.bits
    }
}

impl SystemConfiguration {
    /// The configuration with value `bits`; bits above the 9th are
    /// discarded.
    pub fn new(bits: u32) -> (r: SystemConfiguration)
        ensures
            r@ == bits & CONFIGURATION_MASK,
            r@ <= CONFIGURATION_MASK,
    {
        proof {
            assert(bits & CONFIGURATION_MASK <= CONFIGURATION_MASK) by (bit_vector);
        }
        SystemConfiguration { bits: bits & CONFIGURATION_MASK }
    }

    /// The all-quarters-active configuration: a store replaces the
    /// whole word.
    pub fn zero() -> (r: SystemConfiguration)
        ensures
            r@ == 0,
    {
        SystemConfiguration { bits: 0 }
    }
}

/// The mask of the bits of a word that belong to active quarters
/// under configuration value `cfg`: quarter `q` is active when bit
/// `q` of `cfg` is clear.
pub open spec fn spec_active_mask(cfg: u32) -> u64 {
    (if cfg & 0o1 == 0 {
        0o777u64
    } else {
        0u64
    }) | (if cfg & 0o2 == 0 {
        0o777_000u64
    } else {
        0u64
    }) | (if cfg & 0o4 == 0 {
        0o777_000_000u64
    } else {
        0u64
    }) | (if cfg & 0o10 == 0 {
        0o777_000_000_000u64
    } else {
        0u64
    })
}

/// The word stored when `new` is exchanged into existing content
/// `old_word` under configuration value `cfg`: active quarters from
/// `new`, inactive quarters from `old_word`.
pub open spec fn spec_exchanged_value(cfg: u32, new: u64, old_word: u64) -> u64 {
    (new & spec_active_mask(cfg)) | (old_word & (WORD_MASK & !spec_active_mask(cfg)))
}

/// The exchanged value fits in a word, and configuration zero stores
/// the new value whole.
pub proof fn lemma_exchanged_value_facts(cfg: u32, new: u64, old_word: u64)
    by (bit_vector)
    ensures
        word_in_range(new) ==> word_in_range(spec_exchanged_value(cfg, new, old_word)),
        word_in_range(new) && cfg == 0 ==> spec_exchanged_value(cfg, new, old_word) == new,
{
}

/// Combine `new` with existing memory content `existing` under
/// configuration `config`.
pub fn exchanged_value(config: &SystemConfiguration, new: &u64, existing: &u64) -> (r: u64)
    requires
        word_in_range(*new),
    ensures
        r == spec_exchanged_value(config@, *new, *existing),
        word_in_range(r),
{
    proof {
        lemma_exchanged_value_facts(config@, *new, *existing);
    }
    let cfg = config.bits;
    let mask: u64 = (if cfg & 0o1 == 0 {
        0o777u64
    } else {
        0u64
    }) | (if cfg & 0o2 == 0 {
        0o777_000u64
    } else {
        0u64
    }) | (if cfg & 0o4 == 0 {
        0o777_000_000u64
    } else {
        0u64
    }) | (if cfg & 0o10 == 0 {
        0o777_000_000_000u64
    } else {
        0u64
    });
    (*new & mask) | (*existing & (WORD_MASK & !mask))
}

} // verus!
