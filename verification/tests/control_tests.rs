use tx2::alarm::Alarm;
use tx2::control::{ControlRegisters, ControlUnit, ProgramCounterChange, ResetMode, SequenceFlags};
use tx2::instruction::Opcode;
use tx2::memory::MemoryUnit;

/// An instruction word from its fields: hold bit, configuration,
/// opcode number, index field, defer bit and 17-bit operand address.
fn inst_word(held: bool, cfg: u64, opcode: u64, index: u64, defer: bool, addr: u64) -> u64 {
    ((held as u64) << 35)
        | ((cfg & 0o37) << 30)
        | ((opcode & 0o77) << 24)
        | ((index & 0o77) << 18)
        | ((defer as u64) << 17)
        | (addr & 0o377_777)
}

#[test]
fn test_sequence_flags() {
    let mut flags = SequenceFlags::new();

    flags.lower_all();
    assert_eq!(flags.highest_priority_raised_flag(), None);

    flags.raise(0);
    assert_eq!(flags.highest_priority_raised_flag(), Some(0));
    flags.raise(1);
    // 0 is still raised, so it still has the highest priority.
    assert_eq!(flags.highest_priority_raised_flag(), Some(0));

    flags.lower(0);
    assert_eq!(flags.highest_priority_raised_flag(), Some(1));
    flags.lower(1);
    assert_eq!(flags.highest_priority_raised_flag(), None);

    let four = 4;
    let six = 6;
    flags.raise(four);
    flags.raise(six);
    assert_eq!(flags.highest_priority_raised_flag(), Some(four));
    flags.lower(four);
    assert_eq!(flags.highest_priority_raised_flag(), Some(six));
}

#[test]
fn highest_priority_is_minimum_of_raised_set() {
    let mut flags = SequenceFlags::new();
    assert_eq!(flags.highest_priority_raised_flag(), None);
    flags.raise(63);
    flags.raise(9);
    flags.raise(41);
    assert_eq!(flags.highest_priority_raised_flag(), Some(9));
    flags.lower(9);
    assert_eq!(flags.highest_priority_raised_flag(), Some(41));
    flags.lower(41);
    assert_eq!(flags.highest_priority_raised_flag(), Some(63));
    flags.lower(63);
    assert_eq!(flags.highest_priority_raised_flag(), None);
}

#[test]
fn index_register_zero_stays_zero() {
    let mut regs = ControlRegisters::new();
    assert_eq!(regs.get_index_register(0), 0);
    regs.set_index_register(3, -5);
    regs.set_index_register(63, 0o177_777);
    assert_eq!(regs.get_index_register(0), 0);
    assert_eq!(regs.get_index_register(3), -5);
    assert_eq!(regs.get_index_register(63), 0o177_777);
    // A whole sequence change leaves register 0 pinned too.
    let mut cu = ControlUnit::new();
    cu.regs.p = 0o1234;
    cu.change_sequence(Some(0), 7);
    assert_eq!(cu.regs.get_index_register(0), 0);
}

#[test]
fn change_sequence_to_self_changes_nothing() {
    let mut cu = ControlUnit::new();
    cu.regs.e = 0o123_456;
    cu.regs.k = Some(7);
    cu.regs.p = 0o4321;
    cu.regs.set_index_register(7, 0o100);
    cu.change_sequence(Some(7), 7);
    assert_eq!(cu.regs.e, 0o123_456);
    assert_eq!(cu.regs.k, Some(7));
    assert_eq!(cu.regs.p, 0o4321);
    assert_eq!(cu.regs.get_index_register(7), 0o100);
    for n in 0..64 {
        if n != 7 {
            assert_eq!(cu.regs.get_index_register(n), 0);
        }
    }
}

#[test]
fn change_sequence_records_audit_and_saves_p() {
    let mut cu = ControlUnit::new();
    cu.regs.k = Some(3);
    cu.regs.p = 0o1000;
    cu.regs.set_index_register(5, 0o2000);
    cu.change_sequence(Some(3), 5);
    // E holds (previous, next) in the left half's quarters and the
    // old P in the right half.
    assert_eq!(cu.regs.e, ((3 << 9 | 5) as u64) << 18 | 0o1000);
    // The outgoing sequence's P is saved in its index register.
    assert_eq!(cu.regs.get_index_register(3), 0o1000);
    assert_eq!(cu.regs.k, Some(5));
    // P is loaded from the incoming sequence's index register.
    assert_eq!(cu.regs.p, 0o2000);
}

#[test]
fn trap_on_change_sequence_substitutes_the_trap_handler() {
    let mut cu = ControlUnit::new();
    cu.trap_on_change_sequence = true;
    cu.regs.set_index_register(50, -1); // marked placeholder
    cu.regs.set_index_register(42, 0o3000);
    cu.change_sequence(None, 50);
    assert_eq!(cu.regs.k, Some(42));
    // The trap sequence's flag was raised and P loaded from its
    // index register.
    assert_eq!(cu.regs.flags.highest_priority_raised_flag(), Some(42));
    assert_eq!(cu.regs.p, 0o3000);
}

#[test]
fn deferred_chain_resolves_with_one_indexation() {
    let mut cu = ControlUnit::new();
    let mut mem = MemoryUnit::new(0o1000, 0o1000);
    // A chain of three indirections: 0o100 -> 0o101 -> 0o102, whose
    // word holds the direct operand 0o300.
    mem.store(0o100, &(0o400_000 | 0o101), &tx2::memory::MetaBitChange::Keep)
        .expect("store");
    mem.store(0o101, &(0o400_000 | 0o102), &tx2::memory::MetaBitChange::Keep)
        .expect("store");
    mem.store(0o102, &0o300, &tx2::memory::MetaBitChange::Keep)
        .expect("store");
    // The instruction defers to 0o100 and indexes by register 1.
    let word = inst_word(false, 0, 0o5, 1, true, 0o100);
    cu.update_n_register(word).expect("decodes");
    cu.regs.set_index_register(1, 2);
    let addr = cu
        .operand_address_with_optional_defer_and_index(&mut mem)
        .expect("chain resolves");
    // Indexing was applied exactly once, after the last indirection.
    assert_eq!(addr, 0o302);
    assert_eq!(cu.regs.q, 0o302);
}

#[test]
fn deferred_chain_with_negative_index_wraps() {
    let mut cu = ControlUnit::new();
    let mut mem = MemoryUnit::new(0o1000, 0o1000);
    mem.store(0o20, &0o5, &tx2::memory::MetaBitChange::Keep)
        .expect("store");
    let word = inst_word(false, 0, 0o5, 2, true, 0o20);
    cu.update_n_register(word).expect("decodes");
    cu.regs.set_index_register(2, -7);
    let addr = cu
        .operand_address_with_optional_defer_and_index(&mut mem)
        .expect("chain resolves");
    // 5 - 7 wraps around the 18-bit address ring.
    assert_eq!(addr, 0o777_776);
}

#[test]
fn unmapped_deferred_address_gives_addressing_alarm() {
    let mut cu = ControlUnit::new();
    let mut mem = MemoryUnit::new(0o100, 0o100);
    let word = inst_word(false, 0, 0o5, 0, true, 0o500);
    cu.update_n_register(word).expect("decodes");
    assert_eq!(
        cu.operand_address_with_optional_defer_and_index(&mut mem),
        Err(Alarm::QSAL(word, 0o500))
    );
}

#[test]
fn counter_update_wraps_and_keeps_mark_bit() {
    let mut cu = ControlUnit::new();
    cu.regs.p = 0o400_000 | 0o377_777; // mark bit set, maximum physical address
    cu.set_program_counter(ProgramCounterChange::CounterUpdate);
    assert_eq!(cu.regs.p, 0o400_000); // wrapped to 0, mark bit unchanged
    cu.regs.p = 0o5;
    cu.set_program_counter(ProgramCounterChange::CounterUpdate);
    assert_eq!(cu.regs.p, 0o6);
}

#[test]
fn jump_keeps_mark_bit() {
    let mut cu = ControlUnit::new();
    cu.regs.p = 0o400_000 | 0o100;
    cu.set_program_counter(ProgramCounterChange::Jump(0o777));
    assert_eq!(cu.regs.p, 0o400_000 | 0o777);
}

#[test]
fn codabo_reset0_sets_spr_and_flags() {
    let mut cu = ControlUnit::new();
    cu.regs.flags.raise(17);
    cu.regs.current_sequence_is_runnable = true;
    cu.codabo(&ResetMode::Reset0);
    assert_eq!(cu.regs.spr, 0o377_710);
    assert!(!cu.regs.current_sequence_is_runnable);
    // Exactly sequence 0's flag is raised.
    assert_eq!(cu.regs.flags.highest_priority_raised_flag(), Some(0));
    cu.regs.flags.lower(0);
    assert_eq!(cu.regs.flags.highest_priority_raised_flag(), None);
    // The first fetch after CODABO changes to sequence 0 and loads P
    // from SPR.
    let mut cu = ControlUnit::new();
    cu.codabo(&ResetMode::Reset0);
    let mut mem = MemoryUnit::new(0o400_000, 0o400_000);
    mem.store(0o377_710, &inst_word(false, 0, 0o5, 0, false, 0), &tx2::memory::MetaBitChange::Keep)
        .expect("store");
    assert_eq!(cu.fetch_instruction(&mut mem), Ok(true));
    assert_eq!(cu.regs.k, Some(0));
    assert_eq!(cu.regs.p, 0o377_711);
}

#[test]
fn codabo_tsp_then_fetch_runs_sequence_zero() {
    let mut cu = ControlUnit::new();
    cu.codabo(&ResetMode::ResetTSP);
    assert_eq!(cu.regs.spr, cu.tsp());
    let mut mem = MemoryUnit::new(0o400_000, 0o400_000);
    mem.store(cu.tsp(), &inst_word(false, 0, 0o5, 0, false, 0), &tx2::memory::MetaBitChange::Keep)
        .expect("store");
    assert_eq!(cu.fetch_instruction(&mut mem), Ok(true));
    assert_eq!(cu.regs.k, Some(0));
}

#[test]
fn invalid_opcode_alarm_after_p_advanced() {
    let mut cu = ControlUnit::new();
    cu.regs.k = Some(0);
    cu.regs.flags.raise(0);
    cu.regs.p = 0o10;
    let mut mem = MemoryUnit::new(0o100, 0o100);
    // The word at 0o10 is zero: opcode number 0 names no
    // instruction, so decode fails after P has advanced.
    assert_eq!(cu.fetch_instruction(&mut mem), Err(Alarm::OCSAL(0)));
    assert_eq!(cu.regs.p, 0o11);
}

#[test]
fn idle_cycle_fetches_nothing() {
    let mut cu = ControlUnit::new();
    let mut mem = MemoryUnit::new(0o100, 0o100);
    assert_eq!(cu.fetch_instruction(&mut mem), Ok(false));
    assert_eq!(cu.regs.k, None);
    assert_eq!(cu.regs.p, 0);
}

#[test]
fn unmapped_instruction_fetch_gives_psal() {
    let mut cu = ControlUnit::new();
    cu.regs.k = Some(0);
    cu.regs.flags.raise(0);
    cu.regs.p = 0o77; // beyond the 0o40 mapped words
    let mut mem = MemoryUnit::new(0o40, 0o40);
    assert_eq!(cu.fetch_instruction(&mut mem), Err(Alarm::PSAL(0o77)));
    assert_eq!(cu.regs.p, 0o100);
}

#[test]
fn execute_reports_unimplemented_opcode() {
    let mut cu = ControlUnit::new();
    let mut mem = MemoryUnit::new(0o100, 0o100);
    cu.update_n_register(inst_word(false, 0, 0o5, 0, false, 0o40))
        .expect("decodes");
    assert_eq!(
        cu.execute_instruction(&mut mem),
        Err(Alarm::ROUNDTUITAL(Opcode::Jmp))
    );
}

#[test]
fn execute_without_decoded_instruction_reports_invalid_opcode() {
    let mut cu = ControlUnit::new();
    let mut mem = MemoryUnit::new(0o100, 0o100);
    assert_eq!(cu.execute_instruction(&mut mem), Err(Alarm::OCSAL(0)));
}

#[test]
fn dismiss_unless_held_lowers_the_active_flag() {
    let mut cu = ControlUnit::new();
    cu.regs.k = Some(3);
    cu.regs.flags.raise(3);
    cu.regs.current_sequence_is_runnable = true;
    cu.update_n_register(inst_word(false, 0, 0o5, 0, false, 0))
        .expect("decodes");
    cu.dismiss_unless_held();
    assert_eq!(cu.regs.flags.highest_priority_raised_flag(), None);
    assert!(!cu.regs.current_sequence_is_runnable);
}

#[test]
fn dismiss_keeps_held_sequence() {
    let mut cu = ControlUnit::new();
    cu.regs.k = Some(3);
    cu.regs.flags.raise(3);
    cu.regs.current_sequence_is_runnable = true;
    cu.update_n_register(inst_word(true, 0, 0o5, 0, false, 0))
        .expect("decodes");
    cu.dismiss_unless_held();
    assert_eq!(cu.regs.flags.highest_priority_raised_flag(), Some(3));
    assert!(cu.regs.current_sequence_is_runnable);
}

#[test]
fn held_instruction_skips_the_scheduler() {
    let mut cu = ControlUnit::new();
    // A held instruction in N: even a higher-priority flag does not
    // take over.
    cu.update_n_register(inst_word(true, 0, 0o5, 0, false, 0))
        .expect("decodes");
    cu.regs.k = Some(9);
    cu.regs.p = 0o20;
    cu.regs.flags.raise(1);
    let mut mem = MemoryUnit::new(0o100, 0o100);
    mem.store(0o20, &inst_word(false, 0, 0o12, 0, false, 0), &tx2::memory::MetaBitChange::Keep)
        .expect("store");
    assert_eq!(cu.fetch_instruction(&mut mem), Ok(true));
    assert_eq!(cu.regs.k, Some(9)); // unchanged: no sequence change happened
}

#[test]
fn reset_only_loads_the_start_point_register() {
    let mut cu = ControlUnit::new();
    cu.regs.k = Some(5);
    cu.regs.p = 0o123;
    cu.reset(&ResetMode::Reset7);
    assert_eq!(cu.regs.spr, 0o377_717);
    assert_eq!(cu.regs.k, Some(5));
    assert_eq!(cu.regs.p, 0o123);
    assert_eq!(cu.regs.flags.highest_priority_raised_flag(), None);
}

#[test]
fn startover_raises_sequence_zero() {
    let mut cu = ControlUnit::new();
    cu.startover();
    assert_eq!(cu.regs.flags.highest_priority_raised_flag(), Some(0));
}

#[test]
fn reset_mode_addresses() {
    assert_eq!(ResetMode::ResetTSP.address(), None);
    assert_eq!(ResetMode::Reset0.address(), Some(0o377_710));
    assert_eq!(ResetMode::Reset1.address(), Some(0o377_711));
    assert_eq!(ResetMode::Reset2.address(), Some(0o377_712));
    assert_eq!(ResetMode::Reset3.address(), Some(0o377_713));
    assert_eq!(ResetMode::Reset4.address(), Some(0o377_714));
    assert_eq!(ResetMode::Reset5.address(), Some(0o377_715));
    assert_eq!(ResetMode::Reset6.address(), Some(0o377_716));
    assert_eq!(ResetMode::Reset7.address(), Some(0o377_717));
}

#[test]
fn fetch_operand_reports_value_and_unmapped_addresses() {
    let mut cu = ControlUnit::new();
    let mut mem = MemoryUnit::new(0o100, 0o100);
    mem.store(0o33, &0o707_070, &tx2::memory::MetaBitChange::Keep)
        .expect("store");
    let word = inst_word(false, 0, 0o5, 0, false, 0o33);
    cu.update_n_register(word).expect("decodes");
    let (value, extra) = cu
        .fetch_operand_from_address(&mut mem, 0o33)
        .expect("mapped");
    assert_eq!(value, 0o707_070);
    assert!(!extra.meta);
    assert_eq!(
        cu.fetch_operand_from_address(&mut mem, 0o200),
        Err(Alarm::QSAL(word, 0o200))
    );
}

#[test]
fn store_with_exchange_applies_the_selected_configuration() {
    let mut cu = ControlUnit::new();
    let mut mem = MemoryUnit::new(0o100, 0o100);
    mem.store(0o44, &0o555_666_777_000, &tx2::memory::MetaBitChange::Keep)
        .expect("store");
    // Configuration register 1 deactivates quarter 0, and the
    // instruction's configuration field selects register 1.
    cu.regs.f_memory[1] = tx2::exchanger::SystemConfiguration::new(0o1);
    cu.update_n_register(inst_word(false, 1, 0o16, 0, false, 0o44))
        .expect("decodes");
    assert_eq!(cu.get_config(), tx2::exchanger::SystemConfiguration::new(0o1));
    let existing = 0o555_666_777_000;
    cu.memory_store_with_exchange(
        &mut mem,
        0o44,
        &0o111_222_333_444,
        &existing,
        &tx2::memory::MetaBitChange::Keep,
    )
    .expect("writable");
    assert_eq!(
        mem.fetch(0o44, &tx2::memory::MetaBitChange::Keep),
        Ok((0o111_222_333_000, tx2::memory::ExtraBits { meta: false }))
    );
}

#[test]
fn store_to_read_only_memory_gives_addressing_alarm() {
    let mut cu = ControlUnit::new();
    let mut mem = MemoryUnit::new(0o100, 0o40);
    let word = inst_word(false, 0, 0o16, 0, false, 0o50);
    cu.update_n_register(word).expect("decodes");
    assert_eq!(
        cu.memory_store_without_exchange(
            &mut mem,
            0o50,
            &1,
            &tx2::memory::MetaBitChange::Keep
        ),
        Err(Alarm::QSAL(word, 0o50))
    );
}
