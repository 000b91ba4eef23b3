//! Machine instructions and their decoded symbolic form.
//!
//! An instruction is one 36-bit word.  From the most significant bit
//! down it holds: the hold bit (1 bit), the configuration field
//! (5 bits), the opcode number (6 bits), the index-register field
//! (6 bits), the defer bit (1 bit) and the operand address (17 bits).
//! Decoding turns the word into a symbolic instruction; it fails when
//! the opcode number does not name any instruction of the machine.

use vstd::prelude::*;

use crate::subword::{word_in_range, WORD_MASK};

verus! {

/// Mask of the 17-bit operand-address field.
pub const OPERAND_ADDRESS_MASK: u32 = 0o377_777;

/// The instruction set.  Opcode numbers are assigned sparsely over
/// the 6-bit opcode field; numbers without a variant here decode to
/// nothing.
#[derive(Debug, Clone, Copy, PartialEq, Eq, Structural)]
pub enum Opcode {
    Ios,
    Jmp,
    Jpx,
    Jnx,
    Aux,
    Rsx,
    Skx,
    Exx,
    Adx,
    Dpx,
    Skm,
    Lde,
    Spf,
    Spg,
    Lda,
    Ldb,
    Ldc,
    Ldd,
    Ste,
    Flf,
    Flg,
    Sta,
    Stb,
    Stc,
    Std,
    Ite,
    Ita,
    Una,
    Sed,
    Jov,
    Jpa,
    Jna,
    Exa,
    Ins,
    Com,
    Tsd,
    Cya,
    Cyb,
    Cab,
    Noa,
    Dsa,
    Nab,
    Add,
    Sca,
    Scb,
    Sab,
    Tly,
    Div,
    Mul,
    Sub,
}

/// The opcode named by a 6-bit opcode number, if any.
pub open spec fn spec_opcode_for_number(n: u32) -> Option<Opcode> {
    match n {
        0o04 => Some(Opcode::Ios),
        0o05 => Some(Opcode::Jmp),
        0o06 => Some(Opcode::Jpx),
        0o07 => Some(Opcode::Jnx),
        0o10 => Some(Opcode::Aux),
        0o11 => Some(Opcode::Rsx),
        0o12 => Some(Opcode::Skx),
        0o14 => Some(Opcode::Exx),
        0o15 => Some(Opcode::Adx),
        0o16 => Some(Opcode::Dpx),
        0o17 => Some(Opcode::Skm),
        0o20 => Some(Opcode::Lde),
        0o21 => Some(Opcode::Spf),
        0o22 => Some(Opcode::Spg),
        0o24 => Some(Opcode::Lda),
        0o25 => Some(Opcode::Ldb),
        0o26 => Some(Opcode::Ldc),
        0o27 => Some(Opcode::Ldd),
        0o30 => Some(Opcode::Ste),
        0o31 => Some(Opcode::Flf),
        0o32 => Some(Opcode::Flg),
        0o34 => Some(Opcode::Sta),
        0o35 => Some(Opcode::Stb),
        0o36 => Some(Opcode::Stc),
        0o37 => Some(Opcode::Std),
        0o40 => Some(Opcode::Ite),
        0o41 => Some(Opcode::Ita),
        0o42 => Some(Opcode::Una),
        0o43 => Some(Opcode::Sed),
        0o45 => Some(Opcode::Jov),
        0o46 => Some(Opcode::Jpa),
        0o47 => Some(Opcode::Jna),
        0o54 => Some(Opcode::Exa),
        0o55 => Some(Opcode::Ins),
        0o56 => Some(Opcode::Com),
        0o57 => Some(Opcode::Tsd),
        0o60 => Some(Opcode::Cya),
        0o61 => Some(Opcode::Cyb),
        0o62 => Some(Opcode::Cab),
        0o64 => Some(Opcode::Noa),
        0o65 => Some(Opcode::Dsa),
        0o66 => Some(Opcode::Nab),
        0o67 => Some(Opcode::Add),
        0o70 => Some(Opcode::Sca),
        0o71 => Some(Opcode::Scb),
        0o72 => Some(Opcode::Sab),
        0o74 => Some(Opcode::Tly),
        0o75 => Some(Opcode::Div),
        0o76 => Some(Opcode::Mul),
        0o77 => Some(Opcode::Sub),
        _ => None,
    }
}

/// The opcode named by a 6-bit opcode number, if any.
pub fn opcode_for_number(n: u32) -> (r: Option<Opcode>)
    ensures
        r == spec_opcode_for_number(n),
{
    match n {
        0o04 => Some(Opcode::Ios),
        0o05 => Some(Opcode::Jmp),
        0o06 => Some(Opcode::Jpx),
        0o07 => Some(Opcode::Jnx),
        0o10 => Some(Opcode::Aux),
        0o11 => Some(Opcode::Rsx),
        0o12 => Some(Opcode::Skx),
        0o14 => Some(Opcode::Exx),
        0o15 => Some(Opcode::Adx),
        0o16 => Some(Opcode::Dpx),
        0o17 => Some(Opcode::Skm),
        0o20 => Some(Opcode::Lde),
        0o21 => Some(Opcode::Spf),
        0o22 => Some(Opcode::Spg),
        0o24 => Some(Opcode::Lda),
        0o25 => Some(Opcode::Ldb),
        0o26 => Some(Opcode::Ldc),
        0o27 => Some(Opcode::Ldd),
        0o30 => Some(Opcode::Ste),
        0o31 => Some(Opcode::Flf),
        0o32 => Some(Opcode::Flg),
        0o34 => Some(Opcode::Sta),
        0o35 => Some(Opcode::Stb),
        0o36 => Some(Opcode::Stc),
        0o37 => Some(Opcode::Std),
        0o40 => Some(Opcode::Ite),
        0o41 => Some(Opcode::Ita),
        0o42 => Some(Opcode::Una),
        0o43 => Some(Opcode::Sed),
        0o45 => Some(Opcode::Jov),
        0o46 => Some(Opcode::Jpa),
        0o47 => Some(Opcode::Jna),
        0o54 => Some(Opcode::Exa),
        0o55 => Some(Opcode::Ins),
        0o56 => Some(Opcode::Com),
        0o57 => Some(Opcode::Tsd),
        0o60 => Some(Opcode::Cya),
        0o61 => Some(Opcode::Cyb),
        0o62 => Some(Opcode::Cab),
        0o64 => Some(Opcode::Noa),
        0o65 => Some(Opcode::Dsa),
        0o66 => Some(Opcode::Nab),
        0o67 => Some(Opcode::Add),
        0o70 => Some(Opcode::Sca),
        0o71 => Some(Opcode::Scb),
        0o72 => Some(Opcode::Sab),
        0o74 => Some(Opcode::Tly),
        0o75 => Some(Opcode::Div),
        0o76 => Some(Opcode::Mul),
        0o77 => Some(Opcode::Sub),
        _ => None,
    }
}

/// An instruction's operand reference: either a direct physical
/// address, or the address of a word whose right half holds the next
/// candidate address (deferred addressing).
#[derive(Debug, Clone, Copy, PartialEq, Eq, Structural)]
pub enum OperandAddress {
    Direct(u32),
    Deferred(u32),
}

/// One instruction word, undecoded.
#[derive(Debug, Clone, Copy, PartialEq, Eq, Structural)]
pub struct Instruction {
    word: u64,
}

impl View for Instruction {
    type V = u64;

    /// An instruction is viewed as its 36-bit word.
    closed spec fn view(&self) -> u64 {
        self.word
    }
}

/// The hold bit (most significant bit) of instruction word `w`.
pub open spec fn spec_held(w: u64) -> bool {
    (w >> 35) & 1 == 1
}

/// The 5-bit configuration field of instruction word `w`.
pub open spec fn spec_configuration(w: u64) -> u32 {
    ((w >> 30) & 0o37) as u32
}

/// The 6-bit opcode number of instruction word `w`.
pub open spec fn spec_opcode_number(w: u64) -> u32 {
    ((w >> 24) & 0o77) as u32
}

/// The 6-bit index-register field of instruction word `w`.
pub open spec fn spec_index_address(w: u64) -> u32 {
    ((w >> 18) & 0o77) as u32
}

/// The defer bit of instruction word `w`.
pub open spec fn spec_deferred(w: u64) -> bool {
    (w >> 17) & 1 == 1
}

/// The 17-bit operand-address field of instruction word `w`.
pub open spec fn spec_operand_address_field(w: u64) -> u32 {
    (w & (OPERAND_ADDRESS_MASK as u64)) as u32
}

/// The operand reference encoded in instruction word `w`.
pub open spec fn spec_operand_address(w: u64) -> OperandAddress {
    if spec_deferred(w) {
        OperandAddress::Deferred(spec_operand_address_field(w))
    } else {
        OperandAddress::Direct(spec_operand_address_field(w))
    }
}

/// Field bounds that follow from the field masks.
pub proof fn lemma_instruction_field_bounds(w: u64)
    by (bit_vector)
    ensures
        spec_configuration(w) < 0o40,
        spec_opcode_number(w) < 0o100,
        spec_index_address(w) < 0o100,
        spec_operand_address_field(w) <= OPERAND_ADDRESS_MASK,
        (w & WORD_MASK) <= WORD_MASK,
{
}

impl Instruction {
    /// The instruction with word `w`; bits above the 36th are
    /// discarded.
    pub fn from_word(w: u64) -> (r: Instruction)
        ensures
            r@ == w & WORD_MASK,
            word_in_range(r@),
            word_in_range(w) ==> r@ == w,
    {
        proof {
            lemma_instruction_field_bounds(w);
            assert(word_in_range(w) ==> w & WORD_MASK == w) by (bit_vector);
        }
        Instruction { word: w & WORD_MASK }
    }

    /// An instruction word that decodes to nothing: every field zero,
    /// and opcode number 0 names no instruction.
    pub fn invalid() -> (r: Instruction)
        ensures
            r@ == 0,
    {
        Instruction { word: 0 }
    }

    /// The undecoded 36-bit word.
    pub fn word(&self) -> (w: u64)
        ensures
            w == self@,
    {
        self.word
    }

    /// The hold bit: while it is set, the scheduler is not consulted
    /// and the active sequence keeps running.
    pub fn is_held(&self) -> (r: bool)
        ensures
            r == spec_held(self@),
    {
        (self.word >> 35) & 1 == 1
    }

    /// The 5-bit configuration field.
    pub fn configuration(&self) -> (r: u32)
        ensures
            r == spec_configuration(self@),
            r < 0o40,
    {
        proof {
            lemma_instruction_field_bounds(self.word);
        }
        ((self.word >> 30) & 0o37) as u32
    }

    /// The 6-bit opcode number.
    pub fn opcode_number(&self) -> (r: u32)
        ensures
            r == spec_opcode_number(self@),
            r < 0o100,
    {
        proof {
            lemma_instruction_field_bounds(self.word);
        }
        ((self.word >> 24) & 0o77) as u32
    }

    /// The 6-bit index-register field.
    pub fn index_address(&self) -> (r: u32)
        ensures
            r == spec_index_address(self@),
            r < 0o100,
    {
        proof {
            lemma_instruction_field_bounds(self.word);
        }
        ((self.word >> 18) & 0o77) as u32
    }

    /// The operand reference: deferred when the defer bit is set,
    /// direct otherwise.
    pub fn operand_address(&self) -> (r: OperandAddress)
        ensures
            r == spec_operand_address(self@),
    {
        proof {
            lemma_instruction_field_bounds(self.word);
        }
        let field = (self.word & (OPERAND_ADDRESS_MASK as u64)) as u32;
        if (self.word >> 17) & 1 == 1 {
            OperandAddress::Deferred(field)
        } else {
            OperandAddress::Direct(field)
        }
    }
}

/// The decoded form of an instruction word, available only when the
/// opcode number names an instruction.
#[derive(Debug, Clone, Copy, PartialEq, Eq, Structural)]
pub struct SymbolicInstruction {
    pub held: bool,
    pub configuration: u32,
    pub opcode: Opcode,
    pub index: u32,
    pub operand_address: OperandAddress,
}

/// The symbolic form of instruction word `w`, if the opcode number
/// names an instruction.
pub open spec fn spec_decode(w: u64) -> Option<SymbolicInstruction> {
    match spec_opcode_for_number(spec_opcode_number(w)) {
        Some(op) => Some(
            SymbolicInstruction {
                held: spec_held(w),
                configuration: spec_configuration(w),
                opcode: op,
                index: spec_index_address(w),
                operand_address: spec_operand_address(w),
            },
        ),
        None => None,
    }
}

impl SymbolicInstruction {
    /// Decode `inst`; `None` when the opcode number names no
    /// instruction.
    pub fn from_instruction(inst: &Instruction) -> (r: Option<SymbolicInstruction>)
        ensures
            r == spec_decode(inst@),
    {
        match opcode_for_number(inst.opcode_number()) {
            Some(op) => Some(
                SymbolicInstruction {
                    held: inst.is_held(),
                    configuration: inst.configuration(),
                    opcode: op,
                    index: inst.index_address(),
                    operand_address: inst.operand_address(),
                },
            ),
            None => None,
        }
    }

    /// The decoded opcode.
    pub fn opcode(&self) -> (r: Opcode)
        ensures
            r == self.opcode,
    {
        self.opcode
    }
}

/// Whether a word decodes depends only on its opcode number; in
/// particular, replacing the right half of a decodable word (as the
/// deferred-addressing cycle does) leaves it decodable.
pub proof fn lemma_decode_depends_on_opcode_only(w1: u64, w2: u64)
    requires
        spec_opcode_number(w1) == spec_opcode_number(w2),
    ensures
        spec_decode(w1) is Some <==> spec_decode(w2) is Some,
{
}

} // verus!
