use tx2::control::sign_extend_index_value;
use tx2::exchanger::{exchanged_value, SystemConfiguration};
use tx2::instruction::{Instruction, Opcode, OperandAddress, SymbolicInstruction};
use tx2::memory::{ExtraBits, MemoryOpFailure, MemoryUnit, MetaBitChange};
use tx2::subword::{join_halves, join_quarters, left_half, right_half, split_halves};

#[test]
fn subword_halves_round_trip() {
    let w = join_halves(0o123_456, 0o654_321);
    assert_eq!(w, 0o123_456_654_321);
    assert_eq!(left_half(w), 0o123_456);
    assert_eq!(right_half(w), 0o654_321);
    assert_eq!(split_halves(w), (0o123_456, 0o654_321));
    assert_eq!(join_quarters(0o123, 0o456), 0o123_456 & 0o777_777);
    assert_eq!(join_quarters(0o3, 0o5), (3 << 9) | 5);
}

#[test]
fn sign_extension_of_index_values() {
    assert_eq!(sign_extend_index_value(&5), 5);
    assert_eq!(sign_extend_index_value(&0), 0);
    // -1 in an 18-bit register sign-extends to all ones.
    assert_eq!(sign_extend_index_value(&-1), 0o777_777_777_777);
    assert_eq!(sign_extend_index_value(&-2), 0o777_777_777_776);
}

#[test]
fn instruction_field_decoding() {
    // hold=1, configuration=0o21, opcode=0o12 (SKX), index=0o43,
    // defer=0, operand address 0o52525.
    let w: u64 = (1 << 35) | (0o21 << 30) | (0o12 << 24) | (0o43 << 18) | 0o052_525;
    let inst = Instruction::from_word(w);
    assert!(inst.is_held());
    assert_eq!(inst.configuration(), 0o21);
    assert_eq!(inst.opcode_number(), 0o12);
    assert_eq!(inst.index_address(), 0o43);
    assert_eq!(inst.operand_address(), OperandAddress::Direct(0o052_525));
    let sym = SymbolicInstruction::from_instruction(&inst).expect("SKX decodes");
    assert_eq!(sym.opcode(), Opcode::Skx);
    assert!(sym.held);
    assert_eq!(sym.index, 0o43);

    let deferred = Instruction::from_word((0o5 << 24) | (1 << 17) | 0o700);
    assert_eq!(deferred.operand_address(), OperandAddress::Deferred(0o700));
}

#[test]
fn unassigned_opcode_numbers_do_not_decode() {
    for opcode in [0o0u64, 0o1, 0o2, 0o3, 0o13, 0o23, 0o33, 0o44, 0o50, 0o63, 0o73] {
        let inst = Instruction::from_word(opcode << 24);
        assert!(
            SymbolicInstruction::from_instruction(&inst).is_none(),
            "opcode number {:o} should not decode",
            opcode
        );
    }
    assert!(SymbolicInstruction::from_instruction(&Instruction::invalid()).is_none());
}

#[test]
fn exchange_with_zero_configuration_replaces_the_word() {
    let cfg = SystemConfiguration::zero();
    assert_eq!(
        exchanged_value(&cfg, &0o111_222_333_444, &0o555_666_777_000),
        0o111_222_333_444
    );
}

#[test]
fn exchange_masks_inactive_quarters() {
    // Bit 0 set: quarter 0 is inactive and keeps the old content.
    let cfg = SystemConfiguration::new(0o1);
    assert_eq!(
        exchanged_value(&cfg, &0o111_222_333_444, &0o555_666_777_000),
        0o111_222_333_000
    );
    // Bits 1 and 3: quarters 1 and 3 keep the old content.
    let cfg = SystemConfiguration::new(0o12);
    assert_eq!(
        exchanged_value(&cfg, &0o111_222_333_444, &0o555_666_777_000),
        0o555_222_777_444
    );
    // All four bits: the store leaves the old word.
    let cfg = SystemConfiguration::new(0o17);
    assert_eq!(
        exchanged_value(&cfg, &0o111_222_333_444, &0o555_666_777_000),
        0o555_666_777_000
    );
}

#[test]
fn memory_store_and_fetch_round_trip() {
    let mut mem = MemoryUnit::new(0o100, 0o100);
    assert_eq!(mem.size(), 0o100);
    assert_eq!(mem.store(0o42, &0o123_456, &MetaBitChange::Keep), Ok(()));
    assert_eq!(
        mem.fetch(0o42, &MetaBitChange::Keep),
        Ok((0o123_456, ExtraBits { meta: false }))
    );
}

#[test]
fn memory_rejects_unmapped_addresses() {
    let mut mem = MemoryUnit::new(0o100, 0o100);
    assert_eq!(
        mem.fetch(0o100, &MetaBitChange::Keep),
        Err(MemoryOpFailure::NotMapped)
    );
    assert_eq!(
        mem.store(0o200, &1, &MetaBitChange::Keep),
        Err(MemoryOpFailure::NotMapped)
    );
}

#[test]
fn memory_rejects_stores_to_read_only_words() {
    let mut mem = MemoryUnit::new(0o100, 0o40);
    assert_eq!(
        mem.store(0o40, &1, &MetaBitChange::Keep),
        Err(MemoryOpFailure::ReadOnly)
    );
    // The read-only region can still be fetched.
    assert_eq!(
        mem.fetch(0o40, &MetaBitChange::Keep),
        Ok((0, ExtraBits { meta: false }))
    );
}

#[test]
fn memory_tags_metadata_bits() {
    let mut mem = MemoryUnit::new(0o10, 0o10);
    // The first tagging fetch reports the old (clear) bit and sets it.
    assert_eq!(
        mem.fetch(0o3, &MetaBitChange::Tag),
        Ok((0, ExtraBits { meta: false }))
    );
    assert_eq!(
        mem.fetch(0o3, &MetaBitChange::Keep),
        Ok((0, ExtraBits { meta: true }))
    );
}
