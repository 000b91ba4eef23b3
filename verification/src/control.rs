//! The control element: the register file, the 64-way priority
//! scheduler of instruction sequences, sequence changing with its
//! trap, instruction fetch and decode, deferred operand-address
//! resolution, and the CODABO / RESET / STARTOVER front-panel
//! operations.
//!
//! A sequence is a prioritized logical instruction stream numbered
//! 0 through 63; lower numbers have higher priority.  Each sequence
//! has a flag recording a pending run request; with no flag raised
//! the machine is idle ("Limbo").  Index register 0 is pinned at
//! zero; index registers double as the saved program counters of
//! their sequences.

use vstd::prelude::*;

use crate::alarm::Alarm;
use crate::exchanger::{exchanged_value, spec_exchanged_value, SystemConfiguration};
use crate::instruction::{
    spec_decode, spec_deferred, spec_held, spec_opcode_number, spec_operand_address_field,
    Instruction, OperandAddress, SymbolicInstruction,
};
use crate::memory::{ExtraBits, MemoryUnit, MetaBitChange, STANDARD_PROGRAM_CLEAR_MEMORY};
use crate::subword::{
    half_in_range, spec_join_halves, spec_join_quarters, word_in_range, HALF_MASK,
};

verus! {

/// The number of sequences, and of index registers.
pub const SEQUENCE_COUNT: u8 = 64;

/// The sequence that handles trap conditions.
pub const TRAP_SEQUENCE: u8 = 42;

/// The number of F-memory (configuration) registers.
pub const F_MEMORY_SIZE: usize = 32;

/// Mask of the 17-bit physical part of an 18-bit address.
pub const ADDRESS_PHYSICAL_MASK: u32 = 0o377_777;

/// The mark bit of an 18-bit address.
pub const ADDRESS_MARK_BIT: u32 = 0o400_000;

/// The physical part of address `a`.
pub open spec fn spec_physical_part(a: u32) -> u32 {
    a & ADDRESS_PHYSICAL_MASK
}

/// The mark bit of address `a`, kept in place.
pub open spec fn spec_mark_part(a: u32) -> u32 {
    a & ADDRESS_MARK_BIT
}

/// True when bit `seq` of flag word `fv` is set: sequence `seq` has
/// a pending run request.
pub open spec fn seq_raised(fv: u64, seq: u8) -> bool {
    (fv >> (seq as u64)) & 1 == 1
}

/// The flag bit of sequence `f`.
pub open spec fn spec_flagbit(f: u8) -> u64 {
    1u64 << (f as u64)
}

/// How raising and lowering one flag changes each bit of the flag
/// word.
proof fn lemma_raise_lower(fv: u64, f: u8)
    by (bit_vector)
    requires
        f < 64,
    ensures
        forall|s: u8|
            s < 64 ==> #[trigger] seq_raised(fv | spec_flagbit(f), s) == (s == f || seq_raised(
                fv,
                s,
            )),
        forall|s: u8|
            s < 64 ==> #[trigger] seq_raised(fv & !spec_flagbit(f), s) == (s != f && seq_raised(
                fv,
                s,
            )),
        fv == 0 ==> forall|s: u8| s < 64 ==> !seq_raised(fv, s),
{
}

/// Flags represent requests to run for instruction sequences, one
/// bit per sequence in one 64-bit word.
#[derive(Debug)]
pub struct SequenceFlags {
    flag_values: u64,
}

impl View for SequenceFlags {
    type V = u64;

    /// The flag word: bit `i` set means sequence `i` requests to
    /// run.
    closed spec fn view(&self) -> u64 {
        self.flag_values
    }
}

impl SequenceFlags {
    /// New instances start with no flag raised: the machine is in
    /// Limbo.
    pub fn new() -> (r: SequenceFlags)
        ensures
            r@ == 0,
    {
        SequenceFlags { flag_values: 0 }
    }

    /// Lower every flag.
    pub fn lower_all(&mut self)
        ensures
            final(self)@ == 0,
    {
        self.flag_values = 0;
    }

    /// The flag bit of sequence `flag`.
    pub fn flagbit(flag: u8) -> (r: u64)
        requires
            flag < SEQUENCE_COUNT,
        ensures
            r == spec_flagbit(flag),
    {
        1u64 << (flag as u64)
    }

    /// Lower the flag of sequence `flag`: it no longer requests to
    /// run.
    pub fn lower(&mut self, flag: u8)
        requires
            flag < SEQUENCE_COUNT,
        ensures
            final(self)@ == old(self)@ & !spec_flagbit(flag),
            forall|s: u8|
                s < SEQUENCE_COUNT ==> #[trigger] seq_raised(final(self)@, s) == (s != flag
                    && seq_raised(old(self)@, s)),
    {
        proof {
            lemma_raise_lower(self.flag_values, flag);
        }
        self.flag_values = self.flag_values & !SequenceFlags::flagbit(flag);
    }

    /// Raise the flag of sequence `flag`: it requests to run.
    pub fn raise(&mut self, flag: u8)
        requires
            flag < SEQUENCE_COUNT,
        ensures
            final(self)@ == old(self)@ | spec_flagbit(flag),
            forall|s: u8|
                s < SEQUENCE_COUNT ==> #[trigger] seq_raised(final(self)@, s) == (s == flag
                    || seq_raised(old(self)@, s)),
    {
        proof {
            lemma_raise_lower(self.flag_values, flag);
        }
        self.flag_values = self.flag_values | SequenceFlags::flagbit(flag);
    }

    /// The highest-priority (lowest-numbered) raised flag, or `None`
    /// when no flag is raised (the machine is in Limbo).  For every
    /// set of raised flags this is exactly the minimum of the set.
    pub fn highest_priority_raised_flag(&self) -> (r: Option<u8>)
        ensures
            r == spec_highest_flag(self@),
            r is None <==> self@ == 0,
            match r {
                Some(s) => {
                    &&& s < SEQUENCE_COUNT
                    &&& seq_raised(self@, s)
                    &&& forall|t: u8| t < s ==> !(#[trigger] seq_raised(self@, t))
                },
                None => forall|t: u8| t < SEQUENCE_COUNT ==> !(#[trigger] seq_raised(self@, t)),
            },
    {
        proof {
            vstd::std_specs::bits::axiom_u64_trailing_zeros(self.flag_values);
            let fv = self.flag_values;
            let tz = vstd::std_specs::bits::u64_trailing_zeros(fv);
            assert(fv == 0 ==> forall|t: u8| t < 64 ==> !seq_raised(fv, t)) by (bit_vector);
            assert forall|t: u8| fv != 0 && t < tz implies !seq_raised(fv, t) by {
                assert((fv >> (t as u64)) & 1 == 0 ==> !seq_raised(fv, t));
            }
            if fv != 0 {
                assert(tz < 64 && (fv >> (tz as u64)) & 1 == 1);
                assert(seq_raised(fv, tz as u8));
            }
        }
        let n = self.flag_values.trailing_zeros();
        if n == 64 {
            None
        } else {
            Some(n as u8)
        }
    }
}

/// The nine reset modes: eight with fixed start addresses in the
/// plugboard region, and one that defers to the toggle start point.
#[derive(Debug, Clone, Copy, PartialEq, Eq, Structural)]
pub enum ResetMode {
    ResetTSP,
    Reset0,
    Reset1,
    Reset2,
    Reset3,
    Reset4,
    Reset5,
    Reset6,
    Reset7,
}

/// The fixed address of reset mode `m`, or `None` for the mode that
/// reads the toggle start point.
pub open spec fn spec_reset_address(m: ResetMode) -> Option<u32> {
    match m {
        ResetMode::ResetTSP => None,
        ResetMode::Reset0 => Some(0o377_710),
        ResetMode::Reset1 => Some(0o377_711),
        ResetMode::Reset2 => Some(0o377_712),
        ResetMode::Reset3 => Some(0o377_713),
        ResetMode::Reset4 => Some(0o377_714),
        ResetMode::Reset5 => Some(0o377_715),
        ResetMode::Reset6 => Some(0o377_716),
        ResetMode::Reset7 => Some(0o377_717),
    }
}

impl ResetMode {
    /// The fixed address of this mode, or `None` for the mode that
    /// reads the toggle start point.
    pub fn address(&self) -> (r: Option<u32>)
        ensures
            r == spec_reset_address(*self),
            match r {
                Some(a) => half_in_range(a),
                None => true,
            },
    {
        match self {
            ResetMode::ResetTSP => None,
            ResetMode::Reset0 => Some(0o377_710),
            ResetMode::Reset1 => Some(0o377_711),
            ResetMode::Reset2 => Some(0o377_712),
            ResetMode::Reset3 => Some(0o377_713),
            ResetMode::Reset4 => Some(0o377_714),
            ResetMode::Reset5 => Some(0o377_715),
            ResetMode::Reset6 => Some(0o377_716),
            ResetMode::Reset7 => Some(0o377_717),
        }
    }
}

/// An 18-bit index value reinterpreted as a signed integer: values
/// with the top bit set are negative.
pub open spec fn spec_bits_to_signed(bits: u32) -> i32 {
    if bits & ADDRESS_MARK_BIT != 0 {
        ((bits & HALF_MASK) - 0o1_000_000) as i32
    } else {
        (bits & HALF_MASK) as i32
    }
}

/// A signed 18-bit index value reinterpreted as its 18 bits.
pub open spec fn spec_signed_to_bits(v: i32) -> u32 {
    if v < 0 {
        (v + 0o1_000_000) as u32
    } else {
        v as u32
    }
}

/// True when `v` fits in a signed 18-bit index register.
pub open spec fn index_value_in_range(v: i32) -> bool {
    -0o400_000 <= v < 0o400_000
}

/// Reinterpreting between 18 bits and signed values is a bijection.
pub proof fn lemma_signed_bits_roundtrip(v: i32, bits: u32)
    ensures
        index_value_in_range(v) ==> spec_bits_to_signed(spec_signed_to_bits(v)) == v,
        index_value_in_range(v) ==> half_in_range(spec_signed_to_bits(v)),
        half_in_range(bits) ==> index_value_in_range(spec_bits_to_signed(bits)),
        half_in_range(bits) ==> spec_signed_to_bits(spec_bits_to_signed(bits)) == bits,
{
    assert(index_value_in_range(v) ==> spec_bits_to_signed(spec_signed_to_bits(v)) == v
        && half_in_range(spec_signed_to_bits(v))) by (bit_vector);
    assert(half_in_range(bits) ==> index_value_in_range(spec_bits_to_signed(bits))
        && spec_signed_to_bits(spec_bits_to_signed(bits)) == bits) by (bit_vector);
}

/// The sign extension of an 18-bit index value to a 36-bit word: the
/// left half is all ones for a negative value and all zeros
/// otherwise.
pub open spec fn spec_sign_extend_index_value(v: i32) -> u64 {
    spec_join_halves(
        if v < 0 {
            HALF_MASK
        } else {
            0
        },
        spec_signed_to_bits(v),
    )
}

/// Sign-extend the signed 18-bit index value `index_val` to a 36-bit
/// word.
pub fn sign_extend_index_value(index_val: &i32) -> (r: u64)
    requires
        index_value_in_range(*index_val),
    ensures
        r == spec_sign_extend_index_value(*index_val),
        word_in_range(r),
{
    proof {
        lemma_signed_bits_roundtrip(*index_val, 0);
    }
    let left: u32 = if *index_val < 0 {
        HALF_MASK
    } else {
        0
    };
    let bits: u32 = if *index_val < 0 {
        (*index_val + 0o1_000_000) as u32
    } else {
        *index_val as u32
    };
    crate::subword::join_halves(left, bits)
}

/// The spec-level value of the register file: every register as a
/// plain mathematical value.
#[verifier::ext_equal]
pub struct RegsView {
    /// E register: the sequence-change audit word.
    pub e: u64,
    /// N register: the current instruction word.
    pub n: u64,
    /// The decoded form of N, when it decodes.
    pub n_sym: Option<SymbolicInstruction>,
    /// P register: the program counter, physical part plus mark bit.
    pub p: u32,
    /// Q register: the most recent memory reference address.
    pub q: u32,
    /// K register: the active sequence, `None` in Limbo.
    pub k: Option<u8>,
    /// Start point register, set only by reset.
    pub spr: u32,
    /// The 64 index registers (X memory), signed 18-bit values.
    pub index_regs: Seq<i32>,
    /// The 32 configuration registers (F memory).
    pub f_memory: Seq<SystemConfiguration>,
    /// The per-sequence run-request flags.
    pub flags: u64,
    /// Whether the active sequence may keep running with its flag
    /// down.
    pub current_sequence_is_runnable: bool,
}

/// All mutable processor state of the control element.
#[derive(Debug)]
pub struct ControlRegisters {
    /// E register: the sequence-change audit word.
    pub e: u64,
    /// N register: the current instruction.
    pub n: Instruction,
    /// The decoded form of N, when it decodes.
    pub n_sym: Option<SymbolicInstruction>,
    /// P register: the program counter.
    pub p: u32,
    /// Q register: the most recent memory reference address.
    pub q: u32,
    /// K register: the active sequence, `None` in Limbo.
    pub k: Option<u8>,
    /// Start point register, set only by reset.
    pub spr: u32,
    /// The 64 index registers (X memory).
    pub index_regs: Vec<i32>,
    /// The 32 configuration registers (F memory).
    pub f_memory: Vec<SystemConfiguration>,
    /// The per-sequence run-request flags.
    pub flags: SequenceFlags,
    /// Whether the active sequence may keep running with its flag
    /// down.
    pub current_sequence_is_runnable: bool,
}

impl View for ControlRegisters {
    type V = RegsView;

    /// The registers as plain values.
    open spec fn view(&self) -> RegsView {
        RegsView {
            e: self.e,
            n: self.n@,
            n_sym: self.n_sym,
            p: self.p,
            q: self.q,
            k: self.k,
            spr: self.spr,
            index_regs: self.index_regs@,
            f_memory: self.f_memory@,
            flags: self.flags@,
            current_sequence_is_runnable: self.current_sequence_is_runnable,
        }
    }
}

/// Well-formedness of a register-file value: every register holds a
/// value of its width, there are exactly 64 index registers with
/// register 0 pinned at zero, exactly 32 configuration registers
/// with register 0 pinned at the zero configuration, the active
/// sequence is a sequence number, and the decoded instruction
/// mirrors the N register.
pub open spec fn regs_wf(r: RegsView) -> bool {
    &&& word_in_range(r.e)
    &&& word_in_range(r.n)
    &&& r.n_sym == spec_decode(r.n)
    &&& half_in_range(r.p)
    &&& half_in_range(r.q)
    &&& half_in_range(r.spr)
    &&& match r.k {
        Some(s) => s < SEQUENCE_COUNT,
        None => true,
    }
    &&& r.index_regs.len() == SEQUENCE_COUNT
    &&& r.index_regs[0] == 0
    &&& forall|i: int|
        0 <= i < r.index_regs.len() ==> index_value_in_range(#[trigger] r.index_regs[i])
    &&& r.f_memory.len() == F_MEMORY_SIZE
    &&& r.f_memory[0]@ == 0
    &&& forall|i: int| 0 <= i < r.f_memory.len() ==> (#[trigger] r.f_memory[i])@ <= 0o777
}

/// The register file at construction: fully zeroed, in Limbo, with
/// an invalid instruction in N.
pub open spec fn spec_initial_regs() -> RegsView {
    RegsView {
        e: 0,
        n: 0,
        n_sym: None,
        p: 0,
        q: 0,
        k: None,
        spr: 0,
        index_regs: Seq::new(SEQUENCE_COUNT as nat, |i: int| 0i32),
        f_memory: Seq::new(F_MEMORY_SIZE as nat, |i: int| (SystemConfiguration { bits: 0 })),
        flags: 0,
        current_sequence_is_runnable: false,
    }
}

impl ControlRegisters {
    /// A fully zeroed register file: no flag raised, no active
    /// sequence, an invalid instruction in N.
    pub fn new() -> (r: ControlRegisters)
        ensures
            r@ == spec_initial_regs(),
            regs_wf(r@),
    {
        let mut index_regs: Vec<i32> = Vec::new();
        let mut i: usize = 0;
        while i < SEQUENCE_COUNT as usize
            invariant
                i <= SEQUENCE_COUNT as usize,
                index_regs@ =~= Seq::new(i as nat, |j: int| 0i32),
            decreases SEQUENCE_COUNT as usize - i,
        {
            index_regs.push(0);
            i += 1;
        }
        let mut f_memory: Vec<SystemConfiguration> = Vec::new();
        let mut j: usize = 0;
        while j < F_MEMORY_SIZE
            invariant
                j <= F_MEMORY_SIZE,
                f_memory@ =~= Seq::new(j as nat, |x: int| (SystemConfiguration { bits: 0 })),
            decreases F_MEMORY_SIZE - j,
        {
            f_memory.push(SystemConfiguration::zero());
            j += 1;
        }
        let r = ControlRegisters {
            e: 0,
            n: Instruction::invalid(),
            n_sym: None,
            p: 0,
            q: 0,
            k: None,
            spr: 0,
            index_regs,
            f_memory,
            flags: SequenceFlags::new(),
            current_sequence_is_runnable: false,
        };
        proof {
            assert(r@ =~= spec_initial_regs());
            assert(spec_opcode_number(0) == 0) by (bit_vector);
            assert(spec_decode(0) is None);
        }
        r
    }

    /// Whether the instruction in N requests "hold": while it does,
    /// the scheduler is not consulted.
    pub fn previous_instruction_hold(&self) -> (r: bool)
        ensures
            r == spec_held(self@.n),
    {
        self.n.is_held()
    }

    /// Set the start point register; only reset does this.
    pub fn set_spr(&mut self, addr: u32)
        requires
            half_in_range(addr),
        ensures
            final(self)@ == (RegsView { spr: addr, ..old(self)@ }),
    {
        self.spr = addr;
    }

    /// The value of index register `n`.  Index register 0 is always
    /// zero.
    pub fn get_index_register(&self, n: u8) -> (r: i32)
        requires
            regs_wf(self@),
            n < SEQUENCE_COUNT,
        ensures
            r == self@.index_regs[n as int],
            index_value_in_range(r),
            n == 0 ==> r == 0,
    {
        self.index_regs[n as usize]
    }

    /// The value of index register `n` reinterpreted as an 18-bit
    /// address.
    pub fn get_index_register_as_address(&self, n: u8) -> (r: u32)
        requires
            regs_wf(self@),
            n < SEQUENCE_COUNT,
        ensures
            r == spec_signed_to_bits(self@.index_regs[n as int]),
            half_in_range(r),
    {
        let value = self.get_index_register(n);
        proof {
            lemma_signed_bits_roundtrip(value, 0);
        }
        if value < 0 {
            (value + 0o1_000_000) as u32
        } else {
            value as u32
        }
    }

    /// Set index register `n` to `value`.  Index register 0 is fixed
    /// at zero: setting it is excluded.
    pub fn set_index_register(&mut self, n: u8, value: i32)
        requires
            regs_wf(old(self)@),
            0 < n < SEQUENCE_COUNT,
            index_value_in_range(value),
        ensures
            final(self)@ == (RegsView {
                index_regs: old(self)@.index_regs.update(n as int, value),
                ..old(self)@
            }),
            regs_wf(final(self)@),
    {
        self.index_regs.set(n as usize, value);
        proof {
            assert(final(self)@ =~= (RegsView {
                index_regs: old(self)@.index_regs.update(n as int, value),
                ..old(self)@
            }));
        }
    }

    /// Set index register `n` to the 18-bit address `addr`,
    /// reinterpreted as a signed value.
    pub fn set_index_register_from_address(&mut self, n: u8, addr: u32)
        requires
            regs_wf(old(self)@),
            0 < n < SEQUENCE_COUNT,
            half_in_range(addr),
        ensures
            final(self)@ == (RegsView {
                index_regs: old(self)@.index_regs.update(
                    n as int,
                    spec_bits_to_signed(addr),
                ),
                ..old(self)@
            }),
            regs_wf(final(self)@),
    {
        proof {
            lemma_signed_bits_roundtrip(0, addr);
        }
        let value: i32 = if addr & ADDRESS_MARK_BIT != 0 {
            proof {
                assert(addr & ADDRESS_MARK_BIT != 0 && addr <= HALF_MASK ==> (addr
                    & HALF_MASK) == addr) by (bit_vector);
            }
            (addr & HALF_MASK) as i32 - 0o1_000_000
        } else {
            proof {
                assert(addr & ADDRESS_MARK_BIT == 0 && addr <= HALF_MASK ==> (addr
                    & HALF_MASK) == addr && addr < 0o400_000) by (bit_vector);
            }
            (addr & HALF_MASK) as i32
        };
        self.set_index_register(n, value);
    }

    /// The contents of configuration (F-memory) register `n`.
    /// Register 0 always holds the zero configuration.
    pub fn get_f_mem(&self, n: u32) -> (r: SystemConfiguration)
        requires
            regs_wf(self@),
            n < F_MEMORY_SIZE,
        ensures
            r == self@.f_memory[n as int],
            n == 0 ==> r@ == 0,
    {
        self.f_memory[n as usize]
    }
}

/// When fetches of the control element set the metadata bit of the
/// words they touch.
#[derive(Debug, Clone, Copy, PartialEq, Eq, Structural)]
pub enum SetMetabit {
    /// Never tag.
    Never,
    /// Tag each fetched instruction word.
    Instructions,
    /// Tag each word fetched during deferred-address resolution.
    DeferredAddresses,
    /// Tag each fetched operand word.
    Operands,
}

/// A transient request describing how the program counter updates.
#[derive(Debug, Clone, Copy, PartialEq, Eq, Structural)]
pub enum ProgramCounterChange {
    /// Load P for the given sequence: from its index register, or
    /// from the start point register for sequence 0.  The only
    /// update that may alter the mark bit.
    SequenceChange(u8),
    /// Sequential increment: the physical part advances by one with
    /// wraparound, the mark bit is unchanged.
    CounterUpdate,
    /// Absolute jump: the physical part comes from the target, the
    /// mark bit is preserved.
    Jump(u32),
}

/// The program counter after a sequential increment: the physical
/// part advances by one and wraps, the mark bit stays.
pub open spec fn spec_counter_update(p: u32) -> u32 {
    spec_mark_part(p) | ((((p & ADDRESS_PHYSICAL_MASK) + 1) as u32) & ADDRESS_PHYSICAL_MASK)
}

/// The program counter after an absolute jump to `target`: the
/// physical part of the target under the old mark bit.
pub open spec fn spec_jump(p: u32, target: u32) -> u32 {
    spec_mark_part(p) | spec_physical_part(target)
}

/// The program counter after a change to sequence `next`: loaded
/// from that sequence's index register, or from the start point
/// register for sequence 0.
pub open spec fn spec_p_for_sequence(r: RegsView, next: u8) -> u32 {
    if next != 0 {
        spec_signed_to_bits(r.index_regs[next as int])
    } else {
        r.spr
    }
}

/// Facts about program-counter updates: both kinds stay inside 18
/// bits, a sequential update keeps the mark bit and advances the
/// physical part by one with wraparound, and a jump keeps the mark
/// bit and takes the target's physical part.
pub proof fn lemma_program_counter_facts(p: u32, t: u32)
    by (bit_vector)
    ensures
        spec_counter_update(p) <= HALF_MASK,
        spec_jump(p, t) <= HALF_MASK,
        spec_mark_part(spec_counter_update(p)) == spec_mark_part(p),
        spec_physical_part(p) < ADDRESS_PHYSICAL_MASK ==> spec_physical_part(
            spec_counter_update(p),
        ) == spec_physical_part(p) + 1,
        spec_physical_part(p) == ADDRESS_PHYSICAL_MASK ==> spec_physical_part(
            spec_counter_update(p),
        ) == 0,
        spec_mark_part(spec_jump(p, t)) == spec_mark_part(p),
        spec_physical_part(spec_jump(p, t)) == spec_physical_part(t),
{
}

/// True when a change to sequence `next` fires the
/// trap-on-change-sequence: the feature is enabled, the target
/// sequence's index register is marked (negative), the active
/// sequence is not already the trap handler, and the target sequence
/// number is greater than the trap handler's.
pub open spec fn spec_trap_fires(trap_enabled: bool, r: RegsView, next: u8) -> bool {
    &&& trap_enabled
    &&& r.index_regs[next as int] < 0
    &&& r.k != Some(TRAP_SEQUENCE)
    &&& next > TRAP_SEQUENCE
}

/// The register file after `change_sequence(prev, next)`.  With
/// `prev == Some(next)` nothing changes.  Otherwise: the audit word
/// E records previous sequence, next sequence and current P; if the
/// trap fires, the trap sequence's flag is raised and it becomes the
/// effective next sequence; K takes the effective next sequence; the
/// outgoing sequence's P is saved into its index register (index
/// register 0 stays pinned at zero); and P is loaded for the
/// effective next sequence.
pub open spec fn spec_change_sequence(
    r: RegsView,
    trap_enabled: bool,
    prev: Option<u8>,
    next: u8,
) -> RegsView {
    if prev == Some(next) {
        r
    } else {
        let fires = spec_trap_fires(trap_enabled, r, next);
        let eff = if fires {
            TRAP_SEQUENCE
        } else {
            next
        };
        let prev_num: u8 = match prev {
            Some(n) => n,
            None => 0,
        };
        let xs = match prev {
            Some(pn) => if pn != 0 {
                r.index_regs.update(pn as int, spec_bits_to_signed(r.p))
            } else {
                r.index_regs
            },
            None => r.index_regs,
        };
        RegsView {
            e: spec_join_halves(spec_join_quarters(prev_num as u32, next as u32), r.p),
            k: Some(eff),
            flags: if fires {
                r.flags | spec_flagbit(TRAP_SEQUENCE)
            } else {
                r.flags
            },
            index_regs: xs,
            p: spec_p_for_sequence(RegsView { index_regs: xs, ..r }, eff),
            ..r
        }
    }
}

/// The start point register after `reset(m)`: the mode's fixed
/// address, or the toggle start point.
pub open spec fn spec_spr_after_reset(m: ResetMode) -> u32 {
    match spec_reset_address(m) {
        Some(a) => a,
        None => STANDARD_PROGRAM_CLEAR_MEMORY,
    }
}

/// The control element: the register file together with the
/// front-panel state that governs trapping and metadata tagging.
#[derive(Debug)]
pub struct ControlUnit {
    /// The register file.
    pub regs: ControlRegisters,
    /// Whether the machine is running; the surrounding driver owns
    /// this.
    pub running: bool,
    /// Whether trap-on-change-sequence is enabled.
    pub trap_on_change_sequence: bool,
    /// When fetches tag the metadata bit of the words they touch.
    pub set_metabit_mode: SetMetabit,
}

/// True when everything but the register file is the same in `a`
/// and `b`.
pub open spec fn cu_flags_unchanged(a: ControlUnit, b: ControlUnit) -> bool {
    &&& a.running == b.running
    &&& a.trap_on_change_sequence == b.trap_on_change_sequence
    &&& a.set_metabit_mode == b.set_metabit_mode
}

impl ControlUnit {
    /// A newly constructed control element: zeroed registers, not
    /// running, trap disabled, never tagging metadata bits.
    pub fn new() -> (r: ControlUnit)
        ensures
            r.regs@ == spec_initial_regs(),
            regs_wf(r.regs@),
            !r.running,
            !r.trap_on_change_sequence,
            r.set_metabit_mode == SetMetabit::Never,
    {
        ControlUnit {
            regs: ControlRegisters::new(),
            running: false,
            trap_on_change_sequence: false,
            set_metabit_mode: SetMetabit::Never,
        }
    }

    /// The value of the toggle start point: the address of the
    /// memory-clearing program in the plugboard.
    pub fn tsp(&self) -> (r: u32)
        ensures
            r == STANDARD_PROGRAM_CLEAR_MEMORY,
            half_in_range(r),
    {
        STANDARD_PROGRAM_CLEAR_MEMORY
    }

    /// RESET: load the start point register with the mode's fixed
    /// address, or with the toggle start point.  Nothing else
    /// changes.
    pub fn reset(&mut self, reset_mode: &ResetMode)
        ensures
            final(self).regs@ == (RegsView {
                spr: spec_spr_after_reset(*reset_mode),
                ..old(self).regs@
            }),
            cu_flags_unchanged(*old(self), *final(self)),
            regs_wf(old(self).regs@) ==> regs_wf(final(self).regs@),
    {
        let addr = match reset_mode.address() {
            Some(address) => address,
            None => self.tsp(),
        };
        self.regs.set_spr(addr);
    }

    /// STARTOVER: raise the flag of sequence 0.
    pub fn startover(&mut self)
        ensures
            final(self).regs@ == (RegsView {
                flags: old(self).regs@.flags | spec_flagbit(0),
                ..old(self).regs@
            }),
            cu_flags_unchanged(*old(self), *final(self)),
            regs_wf(old(self).regs@) ==> regs_wf(final(self).regs@),
    {
        self.regs.flags.raise(0);
    }

    /// CODABO: clear all flags, mark the active sequence
    /// not-runnable, reset, then raise sequence 0.  K and P are not
    /// touched; the next fetch performs the change to sequence 0.
    pub fn codabo(&mut self, reset_mode: &ResetMode)
        ensures
            final(self).regs@ == (RegsView {
                spr: spec_spr_after_reset(*reset_mode),
                flags: spec_flagbit(0),
                current_sequence_is_runnable: false,
                ..old(self).regs@
            }),
            cu_flags_unchanged(*old(self), *final(self)),
            regs_wf(old(self).regs@) ==> regs_wf(final(self).regs@),
    {
        self.regs.flags.lower_all();
        self.regs.current_sequence_is_runnable = false;
        self.reset(reset_mode);
        self.startover();
        proof {
            assert(0u64 | spec_flagbit(0) == spec_flagbit(0)) by (bit_vector);
            assert(final(self).regs@ =~= (RegsView {
                spr: spec_spr_after_reset(*reset_mode),
                flags: spec_flagbit(0),
                current_sequence_is_runnable: false,
                ..old(self).regs@
            }));
        }
    }

    /// Apply a program-counter change request to P.
    pub fn set_program_counter(&mut self, change: ProgramCounterChange)
        requires
            regs_wf(old(self).regs@),
            match change {
                ProgramCounterChange::SequenceChange(next) => next < SEQUENCE_COUNT,
                ProgramCounterChange::CounterUpdate => true,
                ProgramCounterChange::Jump(target) => half_in_range(target),
            },
        ensures
            final(self).regs@ == (RegsView {
                p: match change {
                    ProgramCounterChange::SequenceChange(next) => spec_p_for_sequence(
                        old(self).regs@,
                        next,
                    ),
                    ProgramCounterChange::CounterUpdate => spec_counter_update(old(self).regs@.p),
                    ProgramCounterChange::Jump(target) => spec_jump(old(self).regs@.p, target),
                },
                ..old(self).regs@
            }),
            cu_flags_unchanged(*old(self), *final(self)),
            regs_wf(final(self).regs@),
    {
        match change {
            ProgramCounterChange::SequenceChange(next_seq) => {
                if next_seq != 0 {
                    proof {
                        lemma_signed_bits_roundtrip(
                            self.regs@.index_regs[next_seq as int],
                            0,
                        );
                    }
                    self.regs.p = self.regs.get_index_register_as_address(next_seq);
                } else {
                    self.regs.p = self.regs.spr;
                }
            },
            ProgramCounterChange::CounterUpdate => {
                proof {
                    lemma_program_counter_facts(self.regs.p, 0);
                    let pv = self.regs@.p;
                    assert(pv & ADDRESS_PHYSICAL_MASK < 0o400_000u32) by (bit_vector);
                }
                self.regs.p = (self.regs.p & ADDRESS_MARK_BIT) | (((self.regs.p
                    & ADDRESS_PHYSICAL_MASK) + 1) & ADDRESS_PHYSICAL_MASK);
            },
            ProgramCounterChange::Jump(new_p) => {
                proof {
                    lemma_program_counter_facts(self.regs.p, new_p);
                }
                self.regs.p = (self.regs.p & ADDRESS_MARK_BIT) | (new_p
                    & ADDRESS_PHYSICAL_MASK);
            },
        }
    }

    /// Change the active sequence from `prev_seq` to `next_seq`.
    /// With `prev_seq == next_seq` this is a no-op: E, K, P and all
    /// index registers stay untouched.  Otherwise it records the
    /// audit word, applies the trap-on-change-sequence substitution,
    /// saves the outgoing sequence's P and loads the incoming one's.
    pub fn change_sequence(&mut self, prev_seq: Option<u8>, next_seq: u8)
        requires
            regs_wf(old(self).regs@),
            next_seq < SEQUENCE_COUNT,
            match prev_seq {
                Some(s) => s < SEQUENCE_COUNT,
                None => true,
            },
        ensures
            final(self).regs@ == spec_change_sequence(
                old(self).regs@,
                old(self).trap_on_change_sequence,
                prev_seq,
                next_seq,
            ),
            cu_flags_unchanged(*old(self), *final(self)),
            regs_wf(final(self).regs@),
    {
        if prev_seq == Some(next_seq) {
            return ;
        }
        let ghost r0 = self.regs@;
        let sequence_change_trap = self.trap_on_change_sequence && self.regs.get_index_register(
            next_seq,
        ) < 0 && self.regs.k != Some(TRAP_SEQUENCE) && next_seq > TRAP_SEQUENCE;
        let previous_sequence: u8 = match prev_seq {
            None => 0,
            Some(n) => n,
        };
        proof {
            crate::subword::lemma_quarter_facts(previous_sequence as u32, next_seq as u32);
            crate::subword::lemma_half_facts(
                0,
                spec_join_quarters(previous_sequence as u32, next_seq as u32),
                self.regs.p,
            );
        }
        self.regs.e = crate::subword::join_halves(
            crate::subword::join_quarters(previous_sequence as u32, next_seq as u32),
            self.regs.p,
        );
        let next_eff: u8 = if sequence_change_trap {
            self.regs.flags.raise(TRAP_SEQUENCE);
            TRAP_SEQUENCE
        } else {
            next_seq
        };
        self.regs.k = Some(next_eff);
        if let Some(prev) = prev_seq {
            // Index register 0 is pinned at zero, so sequence 0's P
            // cannot be saved there; it is re-loaded from the start
            // point register instead.
            if prev != 0 {
                let p = self.regs.p;
                self.regs.set_index_register_from_address(prev, p);
            }
        }
        self.set_program_counter(ProgramCounterChange::SequenceChange(next_eff));
        proof {
            assert(final(self).regs@ =~= spec_change_sequence(
                r0,
                old(self).trap_on_change_sequence,
                prev_seq,
                next_seq,
            ));
        }
    }
}

/// The highest-priority raised flag of flag word `fv`: the lowest
/// set bit, or `None` when no bit is set.
pub open spec fn spec_highest_flag(fv: u64) -> Option<u8> {
    if fv == 0 {
        None
    } else {
        Some(vstd::std_specs::bits::u64_trailing_zeros(fv) as u8)
    }
}

/// True when a fetch cycle is idle: the previous instruction did not
/// hold, no flag is raised, and the active sequence is not runnable.
pub open spec fn spec_fetch_idle(r: RegsView) -> bool {
    &&& !spec_held(r.n)
    &&& r.flags == 0
    &&& !r.current_sequence_is_runnable
}

/// The register file after the scheduler phase of a fetch: with the
/// previous instruction held, or with the highest-priority flag
/// matching the active sequence, or with no flag raised at all,
/// nothing changes; otherwise the sequence changes to the
/// highest-priority flagged one.
pub open spec fn spec_regs_after_schedule(r: RegsView, trap_enabled: bool) -> RegsView {
    if spec_held(r.n) {
        r
    } else {
        match spec_highest_flag(r.flags) {
            None => r,
            Some(s) => if Some(s) == r.k {
                r
            } else {
                spec_change_sequence(r, trap_enabled, r.k, s)
            },
        }
    }
}

/// The addressing-ring sum of a physical address and a signed index
/// value: modular over the 18-bit address space, wrapping and never
/// saturating.
pub open spec fn spec_index_by(a: u32, d: i32) -> u32 {
    (((a + spec_signed_to_bits(d)) as u32) & HALF_MASK) as u32
}

/// Indexing stays inside 18 bits.
pub proof fn lemma_index_by_in_range(a: u32, d: i32)
    by (bit_vector)
    ensures
        spec_index_by(a, d) <= HALF_MASK,
{
}

/// How one run of deferred-address resolution ends.
#[derive(Debug, Clone, Copy, PartialEq, Eq, Structural)]
pub enum ResolveOutcome {
    /// The chain reached a direct operand reference; `n` is the
    /// instruction word then in N.
    Done { n: u64 },
    /// A deferred address was not mapped; `n` is the instruction
    /// word then in N and `addr` the failing address.
    Unmapped { n: u64, addr: u32 },
    /// The safety bound on indirections ran out: the chain is
    /// cyclic; `n` is the instruction word then in N.
    Exhausted { n: u64 },
}

/// The largest number of indirections one resolution follows.  A
/// chain longer than the physical address space must revisit an
/// address, and since resolution never changes any stored word, a
/// revisit repeats forever; the bound therefore cuts only cyclic
/// chains, which would loop forever on the real hardware.
pub const DEFER_LIMIT: usize = 0o400_000;

/// Deferred-address resolution over the stored words `words`,
/// starting from instruction word `n`, with at most `fuel`
/// indirections: while the operand reference is deferred, the word
/// at the deferred address is fetched and its right half replaces
/// the right half of `n`.
pub open spec fn spec_resolve_n(words: Seq<u64>, n: u64, fuel: nat) -> ResolveOutcome
    decreases fuel,
{
    if !spec_deferred(n) {
        ResolveOutcome::Done { n }
    } else if fuel == 0 {
        ResolveOutcome::Exhausted { n }
    } else {
        let a = spec_operand_address_field(n);
        if a as int >= words.len() {
            ResolveOutcome::Unmapped { n, addr: a }
        } else {
            spec_resolve_n(
                words,
                spec_join_halves(
                    crate::subword::spec_left_half(n),
                    crate::subword::spec_right_half(words[a as int]),
                ),
                (fuel - 1) as nat,
            )
        }
    }
}

/// Splicing a word's right half into the right half of an
/// instruction word leaves the opcode number unchanged.
pub proof fn lemma_splice_preserves_opcode(n: u64, w: u64)
    by (bit_vector)
    ensures
        spec_opcode_number(
            spec_join_halves(
                crate::subword::spec_left_half(n),
                crate::subword::spec_right_half(w),
            ),
        ) == spec_opcode_number(n),
{
}

impl ControlUnit {
    /// Load the fetched word into the N register and decode it.
    /// Decoding fails with the invalid-opcode alarm when the opcode
    /// number names no instruction; N still holds the word then, and
    /// no decoded form is kept.
    pub fn update_n_register(&mut self, instruction_word: u64) -> (r: Result<(), Alarm>)
        requires
            regs_wf(old(self).regs@),
            word_in_range(instruction_word),
        ensures
            final(self).regs@ == (RegsView {
                n: instruction_word,
                n_sym: spec_decode(instruction_word),
                ..old(self).regs@
            }),
            r == (if spec_decode(instruction_word) is Some {
                Ok::<(), Alarm>(())
            } else {
                Err::<(), Alarm>(Alarm::OCSAL(instruction_word))
            }),
            cu_flags_unchanged(*old(self), *final(self)),
            regs_wf(final(self).regs@),
    {
        self.regs.n = Instruction::from_word(instruction_word);
        match SymbolicInstruction::from_instruction(&self.regs.n) {
            Some(symbolic) => {
                self.regs.n_sym = Some(symbolic);
                Ok(())
            },
            None => {
                self.regs.n_sym = None;
                Err(self.invalid_opcode_alarm())
            },
        }
    }

    /// The invalid-opcode alarm for the word in N.
    pub fn invalid_opcode_alarm(&self) -> (r: Alarm)
        ensures
            r == Alarm::OCSAL(self.regs@.n),
    {
        Alarm::OCSAL(self.regs.n.word())
    }

    /// Fetch one instruction.  Unless the previous instruction held,
    /// the scheduler is consulted first: the highest-priority raised
    /// flag picks the sequence, changing sequence if it differs from
    /// the active one, and with no flag raised and the active
    /// sequence not runnable the cycle is idle and returns
    /// `Ok(false)` without touching memory.  Otherwise the word at
    /// the physical part of P is fetched after P advances
    /// sequentially, and decoded into N.  Fetching from an unmapped
    /// address gives the addressing alarm; a word that does not
    /// decode gives the invalid-opcode alarm, with P already
    /// advanced.
    pub fn fetch_instruction(&mut self, mem: &mut MemoryUnit) -> (r: Result<bool, Alarm>)
        requires
            regs_wf(old(self).regs@),
            old(mem).wf(),
        ensures
            ({
                let r0 = old(self).regs@;
                if spec_fetch_idle(r0) {
                    &&& r == Ok::<bool, Alarm>(false)
                    &&& final(self).regs@ == r0
                    &&& final(mem).spec_metas() == old(mem).spec_metas()
                } else {
                    let r1 = spec_regs_after_schedule(r0, old(self).trap_on_change_sequence);
                    let a = spec_physical_part(r1.p);
                    let r2 = RegsView { p: spec_counter_update(r1.p), ..r1 };
                    if a as int >= old(mem).spec_words().len() {
                        &&& r == Err::<bool, Alarm>(Alarm::PSAL(a))
                        &&& final(self).regs@ == r2
                        &&& final(mem).spec_metas() == old(mem).spec_metas()
                    } else {
                        let w = old(mem).spec_words()[a as int];
                        &&& final(mem).spec_metas() == (if old(self).set_metabit_mode
                            == SetMetabit::Instructions {
                            old(mem).spec_metas().update(a as int, true)
                        } else {
                            old(mem).spec_metas()
                        })
                        &&& final(self).regs@ == (RegsView {
                            n: w,
                            n_sym: spec_decode(w),
                            ..r2
                        })
                        &&& r == (if spec_decode(w) is Some {
                            Ok::<bool, Alarm>(true)
                        } else {
                            Err::<bool, Alarm>(Alarm::OCSAL(w))
                        })
                    }
                }
            }),
            final(mem).spec_words() == old(mem).spec_words(),
            final(mem).spec_writable_len() == old(mem).spec_writable_len(),
            final(mem).wf(),
            regs_wf(final(self).regs@),
            cu_flags_unchanged(*old(self), *final(self)),
    {
        let ghost r0 = self.regs@;
        if !self.regs.previous_instruction_hold() {
            match self.regs.flags.highest_priority_raised_flag() {
                None => {
                    // The active sequence's flag is down.  It keeps
                    // running only while it is marked runnable;
                    // otherwise the cycle is idle.
                    if !self.regs.current_sequence_is_runnable {
                        return Ok(false);
                    }
                },
                Some(seq) => {
                    if self.regs.k == Some(seq) {
                        // The active sequence still has the highest
                        // priority: just carry on.
                    } else {
                        let k = self.regs.k;
                        self.change_sequence(k, seq);
                    }
                },
            }
        }
        let ghost r1 = self.regs@;
        proof {
            assert(r1 =~= spec_regs_after_schedule(r0, old(self).trap_on_change_sequence));
        }
        let p_physical_address = self.regs.p & ADDRESS_PHYSICAL_MASK;
        proof {
            let pv = r1.p;
            assert(pv & ADDRESS_PHYSICAL_MASK < 0o400_000u32) by (bit_vector);
        }
        self.set_program_counter(ProgramCounterChange::CounterUpdate);
        proof {
            assert(self.regs@ =~= (RegsView { p: spec_counter_update(r1.p), ..r1 }));
        }
        let meta_op = match self.set_metabit_mode {
            SetMetabit::Instructions => MetaBitChange::Tag,
            _ => MetaBitChange::Keep,
        };
        let instruction_word = match mem.fetch(p_physical_address, &meta_op) {
            Ok((inst, _meta)) => inst,
            Err(_) => {
                return Err(Alarm::PSAL(p_physical_address));
            },
        };
        match self.update_n_register(instruction_word) {
            Ok(()) => Ok(true),
            Err(alarm) => Err(alarm),
        }
    }

    /// Execute the instruction in N, fetched by `fetch_instruction`;
    /// P already points at the next instruction.  Dispatch is
    /// attempted only when decode succeeded, and fails with the
    /// invalid-opcode alarm otherwise.  No opcode handler is
    /// implemented here, so every decoded instruction reports the
    /// unimplemented-feature alarm rather than a silent no-op.
    pub fn execute_instruction(&mut self, mem: &mut MemoryUnit) -> (r: Result<(), Alarm>)
        requires
            regs_wf(old(self).regs@),
            old(mem).wf(),
        ensures
            r == (match old(self).regs@.n_sym {
                None => Err::<(), Alarm>(Alarm::OCSAL(old(self).regs@.n)),
                Some(sym) => Err::<(), Alarm>(Alarm::ROUNDTUITAL(sym.opcode)),
            }),
            final(self).regs@ == old(self).regs@,
            final(mem).spec_words() == old(mem).spec_words(),
            final(mem).spec_metas() == old(mem).spec_metas(),
            final(mem).spec_writable_len() == old(mem).spec_writable_len(),
            final(mem).wf(),
            cu_flags_unchanged(*old(self), *final(self)),
    {
        let sym = match &self.regs.n_sym {
            None => {
                return Err(self.invalid_opcode_alarm());
            },
            Some(s) => s,
        };
        Err(Alarm::ROUNDTUITAL(sym.opcode()))
    }

    /// The configuration selected by the instruction in N: the
    /// F-memory register its configuration field names.
    pub fn get_config(&self) -> (r: SystemConfiguration)
        requires
            regs_wf(self.regs@),
        ensures
            r == self.regs@.f_memory[crate::instruction::spec_configuration(self.regs@.n) as int],
            r@ <= 0o777,
    {
        let cf = self.regs.n.configuration();
        self.regs.get_f_mem(cf)
    }

    /// Fetch the operand word at `operand_address`, tagging its
    /// metadata bit when so configured.  An unmapped address gives
    /// the addressing alarm with the current instruction and the
    /// failing address.
    pub fn fetch_operand_from_address(&self, mem: &mut MemoryUnit, operand_address: u32) -> (r:
        Result<(u64, ExtraBits), Alarm>)
        requires
            regs_wf(self.regs@),
            old(mem).wf(),
            half_in_range(operand_address),
        ensures
            final(mem).spec_words() == old(mem).spec_words(),
            final(mem).spec_writable_len() == old(mem).spec_writable_len(),
            final(mem).wf(),
            if (operand_address as int) < old(mem).spec_words().len() {
                &&& r == Ok::<(u64, ExtraBits), Alarm>(
                    (
                        old(mem).spec_words()[operand_address as int],
                        ExtraBits { meta: old(mem).spec_metas()[operand_address as int] },
                    ),
                )
                &&& final(mem).spec_metas() == (if self.set_metabit_mode == SetMetabit::Operands {
                    old(mem).spec_metas().update(operand_address as int, true)
                } else {
                    old(mem).spec_metas()
                })
            } else {
                &&& r == Err::<(u64, ExtraBits), Alarm>(
                    Alarm::QSAL(self.regs@.n, operand_address as u64),
                )
                &&& final(mem).spec_metas() == old(mem).spec_metas()
            },
    {
        let meta_op = match self.set_metabit_mode {
            SetMetabit::Operands => MetaBitChange::Tag,
            _ => MetaBitChange::Keep,
        };
        match mem.fetch(operand_address, &meta_op) {
            Ok((word, extra_bits)) => Ok((word, extra_bits)),
            Err(_) => Err(Alarm::QSAL(self.regs.n.word(), operand_address as u64)),
        }
    }

    /// Store `value` at `target` unchanged.  A store the memory unit
    /// refuses, for an unmapped as for a read-only address, gives
    /// the addressing alarm with the current instruction and the
    /// target address.
    pub fn memory_store_without_exchange(
        &self,
        mem: &mut MemoryUnit,
        target: u32,
        value: &u64,
        meta_op: &MetaBitChange,
    ) -> (r: Result<(), Alarm>)
        requires
            regs_wf(self.regs@),
            old(mem).wf(),
            half_in_range(target),
            word_in_range(*value),
        ensures
            final(mem).spec_writable_len() == old(mem).spec_writable_len(),
            final(mem).wf(),
            if (target as int) < old(mem).spec_writable_len() {
                &&& r == Ok::<(), Alarm>(())
                &&& final(mem).spec_words() == old(mem).spec_words().update(target as int, *value)
                &&& final(mem).spec_metas() == (match meta_op {
                    MetaBitChange::Keep => old(mem).spec_metas(),
                    MetaBitChange::Tag => old(mem).spec_metas().update(target as int, true),
                })
            } else {
                &&& r == Err::<(), Alarm>(Alarm::QSAL(self.regs@.n, target as u64))
                &&& final(mem).spec_words() == old(mem).spec_words()
                &&& final(mem).spec_metas() == old(mem).spec_metas()
            },
    {
        match mem.store(target, value, meta_op) {
            Ok(()) => Ok(()),
            Err(_) => Err(Alarm::QSAL(self.regs.n.word(), target as u64)),
        }
    }

    /// Store `value` at `target` after exchanging it with the
    /// existing content under the instruction's selected
    /// configuration.
    pub fn memory_store_with_exchange(
        &self,
        mem: &mut MemoryUnit,
        target: u32,
        value: &u64,
        existing: &u64,
        meta_op: &MetaBitChange,
    ) -> (r: Result<(), Alarm>)
        requires
            regs_wf(self.regs@),
            old(mem).wf(),
            half_in_range(target),
            word_in_range(*value),
        ensures
            final(mem).spec_writable_len() == old(mem).spec_writable_len(),
            final(mem).wf(),
            ({
                let stored = spec_exchanged_value(
                    self.regs@.f_memory[crate::instruction::spec_configuration(
                        self.regs@.n,
                    ) as int]@,
                    *value,
                    *existing,
                );
                if (target as int) < old(mem).spec_writable_len() {
                    &&& r == Ok::<(), Alarm>(())
                    &&& final(mem).spec_words() == old(mem).spec_words().update(
                        target as int,
                        stored,
                    )
                    &&& final(mem).spec_metas() == (match meta_op {
                        MetaBitChange::Keep => old(mem).spec_metas(),
                        MetaBitChange::Tag => old(mem).spec_metas().update(target as int, true),
                    })
                } else {
                    &&& r == Err::<(), Alarm>(Alarm::QSAL(self.regs@.n, target as u64))
                    &&& final(mem).spec_words() == old(mem).spec_words()
                    &&& final(mem).spec_metas() == old(mem).spec_metas()
                }
            }),
    {
        let config = self.get_config();
        let combined = exchanged_value(&config, value, existing);
        self.memory_store_without_exchange(mem, target, &combined, meta_op)
    }

    /// Resolve the operand address of the instruction in N without
    /// overriding the index-register field.
    pub fn operand_address_with_optional_defer_and_index(&mut self, mem: &mut MemoryUnit) -> (r:
        Result<u32, Alarm>)
        requires
            regs_wf(old(self).regs@),
            old(mem).wf(),
            old(self).regs@.n_sym is Some,
        ensures
            resolve_ensures(*old(self), *final(self), *old(mem), *final(mem), None, r),
            regs_wf(final(self).regs@),
            final(mem).wf(),
            cu_flags_unchanged(*old(self), *final(self)),
    {
        self.resolve_operand_address(mem, None)
    }

    /// Resolve the operand address of the instruction in N.  While
    /// the reference is deferred, the word at the deferred address
    /// is fetched (tagging its metadata bit when so configured) and
    /// its right half is spliced into N, reclassifying the
    /// reference.  Once direct, the index register named by the
    /// instruction -- or by `initial_index_override` -- offsets the
    /// address over the 18-bit ring; the result is recorded in Q as
    /// the most recent memory reference and returned.  An unmapped
    /// deferred address, or a cyclic chain once the safety bound
    /// runs out, gives the addressing alarm.
    pub fn resolve_operand_address(
        &mut self,
        mem: &mut MemoryUnit,
        initial_index_override: Option<u8>,
    ) -> (r: Result<u32, Alarm>)
        requires
            regs_wf(old(self).regs@),
            old(mem).wf(),
            old(self).regs@.n_sym is Some,
            match initial_index_override {
                Some(o) => o < SEQUENCE_COUNT,
                None => true,
            },
        ensures
            resolve_ensures(*old(self), *final(self), *old(mem), *final(mem),
                initial_index_override, r),
            regs_wf(final(self).regs@),
            final(mem).wf(),
            cu_flags_unchanged(*old(self), *final(self)),
    {
        let ghost r0 = self.regs@;
        let ghost words = mem.spec_words();
        let ghost metas0 = mem.spec_metas();
        let meta_op = match self.set_metabit_mode {
            SetMetabit::DeferredAddresses => MetaBitChange::Tag,
            _ => MetaBitChange::Keep,
        };
        let mut iterations: usize = 0;
        loop
            invariant
                regs_wf(self.regs@),
                mem.wf(),
                self.regs@ == (RegsView { n: self.regs@.n, n_sym: self.regs@.n_sym, ..r0 }),
                self.regs@.n_sym == spec_decode(self.regs@.n),
                self.regs@.n_sym is Some,
                spec_opcode_number(self.regs@.n) == spec_opcode_number(r0.n),
                crate::subword::spec_left_half(self.regs@.n) == crate::subword::spec_left_half(
                    r0.n,
                ) || iterations > 0,
                mem.spec_words() == words,
                mem.spec_writable_len() == old(mem).spec_writable_len(),
                meta_op == (if self.set_metabit_mode == SetMetabit::DeferredAddresses {
                    MetaBitChange::Tag
                } else {
                    MetaBitChange::Keep
                }),
                self.set_metabit_mode != SetMetabit::DeferredAddresses ==> mem.spec_metas()
                    == metas0,
                mem.spec_metas().len() == metas0.len(),
                forall|i: int|
                    0 <= i < metas0.len() ==> #[trigger] mem.spec_metas()[i] == metas0[i]
                        || mem.spec_metas()[i] == true,
                iterations <= DEFER_LIMIT,
                spec_resolve_n(words, r0.n, DEFER_LIMIT as nat) == spec_resolve_n(
                    words,
                    self.regs@.n,
                    (DEFER_LIMIT - iterations) as nat,
                ),
                cu_flags_unchanged(*old(self), *self),
                match initial_index_override {
                    Some(o) => o < SEQUENCE_COUNT,
                    None => true,
                },
                words == old(mem).spec_words(),
                metas0 == old(mem).spec_metas(),
                r0 == old(self).regs@,
            decreases DEFER_LIMIT - iterations,
        {
            match self.regs.n.operand_address() {
                OperandAddress::Deferred(physical) => {
                    if iterations == DEFER_LIMIT {
                        // The safety bound ran out: the chain is
                        // cyclic and would loop forever on the real
                        // hardware.
                        return Err(Alarm::QSAL(self.regs.n.word(), physical as u64));
                    }
                    let fetched_word = match mem.fetch(physical, &meta_op) {
                        Err(_) => {
                            return Err(Alarm::QSAL(self.regs.n.word(), physical as u64));
                        },
                        Ok((word, _meta)) => word,
                    };
                    // Indexation applies only after the last
                    // indirection; here only the right half of N is
                    // replaced by the fetched word's right half.
                    let fetched = crate::subword::right_half(fetched_word);
                    let unchanged_left = crate::subword::left_half(self.regs.n.word());
                    let spliced = crate::subword::join_halves(unchanged_left, fetched);
                    proof {
                        lemma_splice_preserves_opcode(self.regs@.n, fetched_word);
                        crate::instruction::lemma_decode_depends_on_opcode_only(
                            spliced,
                            self.regs@.n,
                        );
                    }
                    match self.update_n_register(spliced) {
                        Ok(()) => {},
                        Err(alarm) => {
                            // Unreachable: splicing the right half
                            // leaves the opcode number unchanged, so
                            // the word still decodes.
                            return Err(alarm);
                        },
                    }
                    iterations += 1;
                },
                OperandAddress::Direct(physical_address) => {
                    let j: u8 = match initial_index_override {
                        None => self.regs.n.index_address() as u8,
                        Some(overridden) => overridden,
                    };
                    let delta = self.regs.get_index_register(j);
                    proof {
                        crate::instruction::lemma_instruction_field_bounds(self.regs@.n);
                        lemma_signed_bits_roundtrip(delta, 0);
                        lemma_index_by_in_range(physical_address, delta);
                    }
                    let delta_bits: u32 = if delta < 0 {
                        (delta + 0o1_000_000) as u32
                    } else {
                        delta as u32
                    };
                    self.regs.q = (physical_address + delta_bits) & HALF_MASK;
                    proof {
                        assert(self.regs@ =~= (RegsView {
                            n: self.regs@.n,
                            n_sym: spec_decode(self.regs@.n),
                            q: spec_index_by(physical_address, delta),
                            ..r0
                        }));
                    }
                    return Ok(self.regs.q);
                },
            }
        }
    }

    /// Release the active sequence unless the instruction in N
    /// requests "hold": its flag is lowered and it is marked not
    /// runnable.
    pub fn dismiss_unless_held(&mut self)
        requires
            regs_wf(old(self).regs@),
        ensures
            final(self).regs@ == (if !spec_held(old(self).regs@.n) && old(self).regs@.k is Some {
                RegsView {
                    flags: old(self).regs@.flags & !spec_flagbit(old(self).regs@.k->0),
                    current_sequence_is_runnable: false,
                    ..old(self).regs@
                }
            } else {
                old(self).regs@
            }),
            regs_wf(final(self).regs@),
            cu_flags_unchanged(*old(self), *final(self)),
    {
        if !self.regs.n.is_held() {
            if let Some(current_seq) = self.regs.k {
                self.regs.flags.lower(current_seq);
                self.regs.current_sequence_is_runnable = false;
            }
        }
    }
}

/// What `resolve_operand_address` ensures, stated over the outcome
/// of the deferred-address chain on the old state: on `Done` the
/// returned and recorded address is the direct operand indexed once
/// by the selected index register; on `Unmapped` and `Exhausted` the
/// addressing alarm names the instruction word then in N and the
/// failing address.  Stored words never change; metadata bits change
/// only by tagging, and only in the deferred-addresses tagging mode.
pub open spec fn resolve_ensures(
    cu0: ControlUnit,
    cu1: ControlUnit,
    mem0: MemoryUnit,
    mem1: MemoryUnit,
    initial_index_override: Option<u8>,
    r: Result<u32, Alarm>,
) -> bool {
    &&& mem1.spec_words() == mem0.spec_words()
    &&& mem1.spec_writable_len() == mem0.spec_writable_len()
    &&& (cu0.set_metabit_mode != SetMetabit::DeferredAddresses ==> mem1.spec_metas()
        == mem0.spec_metas())
    &&& mem1.spec_metas().len() == mem0.spec_metas().len()
    &&& (forall|i: int|
        0 <= i < mem0.spec_metas().len() ==> #[trigger] mem1.spec_metas()[i]
            == mem0.spec_metas()[i] || mem1.spec_metas()[i] == true)
    &&& match spec_resolve_n(mem0.spec_words(), cu0.regs@.n, DEFER_LIMIT as nat) {
        ResolveOutcome::Done { n } => {
            let j = match initial_index_override {
                Some(o) => o,
                None => crate::instruction::spec_index_address(n) as u8,
            };
            let q = spec_index_by(
                spec_operand_address_field(n),
                cu0.regs@.index_regs[j as int],
            );
            &&& r == Ok::<u32, Alarm>(q)
            &&& cu1.regs@ == (RegsView { n, n_sym: spec_decode(n), q, ..cu0.regs@ })
        },
        ResolveOutcome::Unmapped { n, addr } => {
            &&& r == Err::<u32, Alarm>(Alarm::QSAL(n, addr as u64))
            &&& cu1.regs@ == (RegsView { n, n_sym: spec_decode(n), ..cu0.regs@ })
        },
        ResolveOutcome::Exhausted { n } => {
            &&& r == Err::<u32, Alarm>(
                Alarm::QSAL(n, spec_operand_address_field(n) as u64),
            )
            &&& cu1.regs@ == (RegsView { n, n_sym: spec_decode(n), ..cu0.regs@ })
        },
    }
}

/// For every set of raised flags, the highest-priority raised flag
/// is the minimum of the set: it is raised, no lower-numbered
/// sequence is, and it is absent exactly when the set is empty
/// (Limbo).
pub proof fn lemma_highest_flag_is_minimum(fv: u64)
    ensures
        match spec_highest_flag(fv) {
            None => fv == 0,
            Some(s) => {
                &&& s < SEQUENCE_COUNT
                &&& seq_raised(fv, s)
                &&& forall|t: u8| t < s ==> !(#[trigger] seq_raised(fv, t))
            },
        },
{
    vstd::std_specs::bits::axiom_u64_trailing_zeros(fv);
    let tz = vstd::std_specs::bits::u64_trailing_zeros(fv);
    assert forall|t: u8| fv != 0 && t < tz implies !seq_raised(fv, t) by {
        assert((fv >> (t as u64)) & 1 == 0 ==> !seq_raised(fv, t));
    }
    if fv != 0 {
        assert(tz < 64 && (fv >> (tz as u64)) & 1 == 1);
        assert(seq_raised(fv, tz as u8));
    }
}

/// Index register 0 is zero in every well-formed register file:
/// since every operation of the control element preserves
/// well-formedness and a direct set of register 0 is excluded by
/// precondition, it is zero after any sequence of valid operations.
pub proof fn lemma_index_register_zero_pinned(r: RegsView)
    requires
        regs_wf(r),
    ensures
        r.index_regs[0] == 0,
{
}

/// Changing sequence from a sequence to itself changes nothing: E,
/// K, P and all index registers keep their values, for every
/// sequence number and every starting state.
pub proof fn lemma_change_sequence_self(r: RegsView, trap_enabled: bool, k: u8)
    ensures
        spec_change_sequence(r, trap_enabled, Some(k), k) == r,
{
}

/// The fields of an instruction word after the right half of `w` is
/// spliced into it, in terms of that right half.
proof fn lemma_spliced_word_fields(n: u64, w: u64)
    by (bit_vector)
    ensures
        spec_deferred(
            spec_join_halves(
                crate::subword::spec_left_half(n),
                crate::subword::spec_right_half(w),
            ),
        ) == (crate::subword::spec_right_half(w) & 0o400_000 != 0),
        spec_operand_address_field(
            spec_join_halves(
                crate::subword::spec_left_half(n),
                crate::subword::spec_right_half(w),
            ),
        ) == crate::subword::spec_right_half(w) & 0o377_777,
        crate::subword::spec_left_half(
            spec_join_halves(
                crate::subword::spec_left_half(n),
                crate::subword::spec_right_half(w),
            ),
        ) == crate::subword::spec_left_half(n),
{
}

/// A proper deferred-address chain of length N resolves after
/// exactly N indirections: `addrs` lists the chain, each address
/// mapped, the stored word at each but the last pointing (deferred)
/// at the next, and the word at the last holding a direct operand
/// reference.  Resolution then ends with the last stored word's
/// right half spliced into the instruction, for any indirection
/// budget of at least N -- so the direct operand address it holds is
/// the one that the index register then offsets, exactly once,
/// after the last indirection.
pub proof fn lemma_deferred_chain_resolves(words: Seq<u64>, n0: u64, addrs: Seq<u32>, fuel: nat)
    requires
        addrs.len() >= 1,
        spec_deferred(n0),
        spec_operand_address_field(n0) == addrs[0],
        forall|i: int| 0 <= i < addrs.len() ==> (#[trigger] addrs[i]) < words.len(),
        forall|i: int|
            0 <= i < addrs.len() - 1 ==> crate::subword::spec_right_half(
                #[trigger] words[addrs[i] as int],
            ) & 0o400_000 != 0,
        forall|i: int|
            0 <= i < addrs.len() - 1 ==> crate::subword::spec_right_half(
                #[trigger] words[addrs[i] as int],
            ) & 0o377_777 == addrs[i + 1],
        crate::subword::spec_right_half(words[addrs[addrs.len() - 1] as int]) & 0o400_000 == 0,
        fuel >= addrs.len(),
    ensures
        spec_resolve_n(words, n0, fuel) == (ResolveOutcome::Done {
            n: spec_join_halves(
                crate::subword::spec_left_half(n0),
                crate::subword::spec_right_half(words[addrs[addrs.len() - 1] as int]),
            ),
        }),
    decreases addrs.len(),
{
    let a0 = addrs[0];
    let mid = spec_join_halves(
        crate::subword::spec_left_half(n0),
        crate::subword::spec_right_half(words[a0 as int]),
    );
    lemma_spliced_word_fields(n0, words[a0 as int]);
    if addrs.len() == 1 {
        assert(!spec_deferred(mid));
        assert(spec_resolve_n(words, mid, (fuel - 1) as nat) == (ResolveOutcome::Done {
            n: mid,
        }));
    } else {
        let rest = addrs.subrange(1, addrs.len() as int);
        assert(spec_deferred(mid));
        assert(spec_operand_address_field(mid) == rest[0]);
        assert forall|i: int| 0 <= i < rest.len() - 1 implies crate::subword::spec_right_half(
            #[trigger] words[rest[i] as int],
        ) & 0o400_000 != 0 && crate::subword::spec_right_half(words[rest[i] as int]) & 0o377_777
            == rest[i + 1] by {
            assert(rest[i] == addrs[i + 1]);
            assert(rest[i + 1] == addrs[i + 2]);
        }
        assert(rest[rest.len() - 1] == addrs[addrs.len() - 1]);
        lemma_deferred_chain_resolves(words, mid, rest, (fuel - 1) as nat);
        crate::subword::lemma_half_facts(n0, 0, 0);
        assert(crate::subword::spec_left_half(mid) == crate::subword::spec_left_half(n0));
    }
}

} // verus!
