//! Alarms: the unified failure signal of the control element.
//!
//! Every unrecoverable per-cycle condition surfaces as one of these
//! typed values, returned to the caller of fetch or execute.  The
//! control element performs no retries and no internal recovery; the
//! surrounding driver decides policy.

use vstd::prelude::*;

use crate::instruction::Opcode;

verus! {

/// The failure conditions the control element can report.
#[derive(Debug, Clone, Copy, PartialEq, Eq, Structural)]
pub enum Alarm {
    /// Instruction fetch found the program counter's physical address
    /// not mapped; carries that address.
    PSAL(u32),
    /// The fetched word does not decode to any known instruction;
    /// carries the word.
    OCSAL(u64),
    /// An operand fetch, store or deferred-address fetch failed;
    /// carries the current instruction word and the failing address
    /// widened to a word.
    QSAL(u64, u64),
    /// The opcode decoded but no handler is implemented for it.
    ROUNDTUITAL(Opcode),
}

} // verus!
