//! A verified core of a simulator for a historical 36-bit computer.
//!
//! The crate models the machine's control element: the register file,
//! the 64-way priority scheduler of instruction sequences, deferred
//! operand-address resolution, instruction fetch and decode, and the
//! CODABO / RESET / STARTOVER front-panel operations.  Alongside the
//! control element it provides the Lincoln Writer character-set
//! conversions and the simulated-clock bookkeeping used by the
//! surrounding driver loop.

pub mod alarm;
pub mod charset;
pub mod clock;
pub mod control;
pub mod exchanger;
pub mod instruction;
pub mod memory;
pub mod subword;
