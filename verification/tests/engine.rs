use chip8::instruction::{encode, Instruction};
use chip8::machine::Fault;
use chip8::quirks::{AddressOverflow, IndexCarry, JumpBase, Quirks, ShiftSource};
use chip8::state::State;

fn quirks(
    shift_source: ShiftSource,
    jump_base: JumpBase,
    index_carry: IndexCarry,
    address_overflow: AddressOverflow,
) -> Quirks {
    Quirks { shift_source, jump_base, index_carry, address_overflow }
}

fn saturating() -> Quirks {
    quirks(
        ShiftSource::InPlace,
        JumpBase::RegisterZero,
        IndexCarry::Flagged,
        AddressOverflow::Saturate,
    )
}

fn program(words: &[u16]) -> Vec<u8> {
    let mut image = Vec::new();
    for word in words {
        image.push((word >> 8) as u8);
        image.push((word & 0xFF) as u8);
    }
    image
}

/// A machine whose memory ends with `words` and whose program counter
/// stands at `pc`.
fn at_end_of_memory(words: &[u16], pc: usize) -> State {
    let mut image = vec![0u8; 4096 - 0x200 - 2 * words.len()];
    image.extend(program(words));
    let mut state = State::default();
    assert_eq!(state.load_program(&image), Ok(()));
    state.execute_with(Instruction::Jump(pc), 0);
    state
}

fn run(state: &mut State, instruction: Instruction) {
    state.execute_with(instruction, 0);
}

#[test]
fn add_wraps_and_sets_carry_for_all_pairs() {
    for a in 0..=255u8 {
        for b in 0..=255u8 {
            let mut state = State::default();
            run(&mut state, Instruction::SetLiteral(1, a));
            run(&mut state, Instruction::SetLiteral(2, b));
            run(&mut state, Instruction::Add(1, 2));
            let sum = a as u16 + b as u16;
            assert_eq!(state.register(1), (sum % 256) as u8);
            assert_eq!(state.register(0xF), if sum > 255 { 1 } else { 0 });
            assert_eq!(state.register(2), b);
        }
    }
}

#[test]
fn sub_wraps_and_sets_no_borrow_for_all_pairs() {
    for a in 0..=255u8 {
        for b in 0..=255u8 {
            let mut state = State::default();
            run(&mut state, Instruction::SetLiteral(1, a));
            run(&mut state, Instruction::SetLiteral(2, b));
            run(&mut state, Instruction::Sub(1, 2));
            assert_eq!(state.register(1), a.wrapping_sub(b));
            assert_eq!(state.register(0xF), if a >= b { 1 } else { 0 });
        }
    }
}

#[test]
fn add_exact_values() {
    let mut state = State::default();
    run(&mut state, Instruction::SetLiteral(3, 200));
    run(&mut state, Instruction::SetLiteral(4, 100));
    run(&mut state, Instruction::Add(3, 4));
    assert_eq!(state.register(3), 44);
    assert_eq!(state.register(0xF), 1);
    run(&mut state, Instruction::SetLiteral(3, 1));
    run(&mut state, Instruction::Add(3, 3));
    assert_eq!(state.register(3), 2);
    assert_eq!(state.register(0xF), 0);
}

#[test]
fn add_into_flag_register_keeps_the_sum() {
    let mut state = State::default();
    run(&mut state, Instruction::SetLiteral(0xF, 250));
    run(&mut state, Instruction::SetLiteral(1, 10));
    run(&mut state, Instruction::Add(0xF, 1));
    assert_eq!(state.register(0xF), 4);
}

#[test]
fn add_reads_flag_register_operand_before_writing_flag() {
    let mut state = State::default();
    run(&mut state, Instruction::SetLiteral(0xF, 200));
    run(&mut state, Instruction::SetLiteral(1, 100));
    run(&mut state, Instruction::Add(1, 0xF));
    assert_eq!(state.register(1), 44);
    assert_eq!(state.register(0xF), 1);
}

#[test]
fn sub_exact_values() {
    let mut state = State::default();
    run(&mut state, Instruction::SetLiteral(1, 5));
    run(&mut state, Instruction::SetLiteral(2, 7));
    run(&mut state, Instruction::Sub(1, 2));
    assert_eq!(state.register(1), 254);
    assert_eq!(state.register(0xF), 0);
    run(&mut state, Instruction::Sub(2, 2));
    assert_eq!(state.register(2), 0);
    assert_eq!(state.register(0xF), 1);
}

#[test]
fn add_literal_wraps_without_touching_flag() {
    let mut state = State::default();
    run(&mut state, Instruction::SetLiteral(0xF, 7));
    run(&mut state, Instruction::SetLiteral(1, 0xFF));
    run(&mut state, Instruction::AddLiteral(1, 2));
    assert_eq!(state.register(1), 1);
    assert_eq!(state.register(0xF), 7);
}

#[test]
fn logic_operations() {
    let mut state = State::default();
    run(&mut state, Instruction::SetLiteral(1, 0b1100));
    run(&mut state, Instruction::SetLiteral(2, 0b1010));
    run(&mut state, Instruction::SetRegister(3, 1));
    run(&mut state, Instruction::Or(3, 2));
    assert_eq!(state.register(3), 0b1110);
    run(&mut state, Instruction::SetRegister(3, 1));
    run(&mut state, Instruction::And(3, 2));
    assert_eq!(state.register(3), 0b1000);
    run(&mut state, Instruction::SetRegister(3, 1));
    run(&mut state, Instruction::Xor(3, 2));
    assert_eq!(state.register(3), 0b0110);
}

#[test]
fn shifts_in_place_for_all_values() {
    for value in 0..=255u8 {
        let mut state = State::default();
        run(&mut state, Instruction::SetLiteral(1, value));
        run(&mut state, Instruction::SetLiteral(2, 0x55));
        run(&mut state, Instruction::Lshift(1, 2));
        assert_eq!(state.register(1), value << 1);
        assert_eq!(state.register(0xF), value >> 7);
        assert_eq!(state.register(2), 0x55);

        run(&mut state, Instruction::SetLiteral(1, value));
        run(&mut state, Instruction::Rshift(1, 2));
        assert_eq!(state.register(1), value >> 1);
        assert_eq!(state.register(0xF), value & 1);
    }
}

#[test]
fn shift_flag_is_one_for_bit_shifted_out() {
    let mut state = State::default();
    run(&mut state, Instruction::SetLiteral(1, 0x81));
    run(&mut state, Instruction::Lshift(1, 0));
    assert_eq!(state.register(1), 0x02);
    assert_eq!(state.register(0xF), 1);
    run(&mut state, Instruction::SetLiteral(1, 0x81));
    run(&mut state, Instruction::Rshift(1, 0));
    assert_eq!(state.register(1), 0x40);
    assert_eq!(state.register(0xF), 1);
}

#[test]
fn shifts_from_y_when_configured() {
    let mut state = State::with_quirks(quirks(
        ShiftSource::FromY,
        JumpBase::RegisterZero,
        IndexCarry::Flagged,
        AddressOverflow::Wrap,
    ));
    run(&mut state, Instruction::SetLiteral(1, 0x01));
    run(&mut state, Instruction::SetLiteral(2, 0xC0));
    run(&mut state, Instruction::Lshift(1, 2));
    assert_eq!(state.register(1), 0x80);
    assert_eq!(state.register(2), 0xC0);
    assert_eq!(state.register(0xF), 1);
    run(&mut state, Instruction::SetLiteral(2, 0x06));
    run(&mut state, Instruction::Rshift(1, 2));
    assert_eq!(state.register(1), 0x03);
    assert_eq!(state.register(0xF), 0);
}

#[test]
fn skip_eq_literal_advances_by_four_or_two() {
    let mut state = State::default();
    let image = program(&[0x6A42, 0x3A42, 0x0000, 0x3A43]);
    assert_eq!(state.load_program(&image), Ok(()));
    assert_eq!(state.update(), Ok(()));
    assert_eq!(state.pc(), 0x202);
    assert_eq!(state.update(), Ok(()));
    assert_eq!(state.pc(), 0x206);
    assert_eq!(state.update(), Ok(()));
    assert_eq!(state.pc(), 0x208);
}

#[test]
fn other_skips() {
    let mut state = State::default();
    run(&mut state, Instruction::SetLiteral(1, 9));
    run(&mut state, Instruction::SetLiteral(2, 9));
    run(&mut state, Instruction::SkipNeqLiteral(1, 9));
    assert_eq!(state.pc(), 0x200);
    run(&mut state, Instruction::SkipNeqLiteral(1, 8));
    assert_eq!(state.pc(), 0x202);
    run(&mut state, Instruction::SkipEq(1, 2));
    assert_eq!(state.pc(), 0x204);
    run(&mut state, Instruction::SkipNeq(1, 2));
    assert_eq!(state.pc(), 0x204);
    run(&mut state, Instruction::SetLiteral(2, 1));
    run(&mut state, Instruction::SkipNeq(1, 2));
    assert_eq!(state.pc(), 0x206);
    run(&mut state, Instruction::SkipEq(1, 2));
    assert_eq!(state.pc(), 0x206);
}

#[test]
fn taken_skip_at_the_end_of_memory_leaves_pc_past_it() {
    // SkipEqLiteral(0, 0) at 0xFFC: two for the fetch, two for the skip.
    let mut state = at_end_of_memory(&[0x3000, 0x0000], 0xFFC);
    assert_eq!(state.update(), Ok(()));
    assert_eq!(state.pc(), 4096);
}

#[test]
fn skip_not_taken_at_the_last_word_leaves_pc_at_the_end() {
    // SkipEqLiteral(0, 1) at 0xFFE is not taken.
    let mut state = at_end_of_memory(&[0x3001], 0xFFE);
    assert_eq!(state.update(), Ok(()));
    assert_eq!(state.pc(), 4096);
}

#[test]
fn key_skip_at_the_end_of_memory_leaves_pc_past_it() {
    let mut state = at_end_of_memory(&[0xE09E, 0x0000], 0xFFC);
    state.key_down(0);
    assert_eq!(state.update(), Ok(()));
    assert_eq!(state.pc(), 4096);

    let mut other = at_end_of_memory(&[0xE0A1, 0x0000], 0xFFC);
    assert_eq!(other.update(), Ok(()));
    assert_eq!(other.pc(), 4096);
}

#[test]
fn key_wait_at_the_last_word() {
    let mut state = at_end_of_memory(&[0xF30A], 0xFFE);
    assert_eq!(state.update(), Ok(()));
    assert_eq!(state.pc(), 0xFFE);
    state.key_down(0xB);
    assert_eq!(state.update(), Ok(()));
    assert_eq!(state.pc(), 4096);
    assert_eq!(state.register(3), 0xB);
}

#[test]
fn next_instruction_at_the_last_word() {
    let mut state = at_end_of_memory(&[0x6A42], 0xFFE);
    assert_eq!(state.next_instruction(), Ok(Instruction::SetLiteral(0xA, 0x42)));
    assert_eq!(state.pc(), 4096);
    assert_eq!(
        state.next_instruction(),
        Err(Fault::FetchOutsideMemory { address: 4096 })
    );
    assert_eq!(state.pc(), 4096);
}

#[test]
fn fetch_outside_memory_is_a_fault_and_changes_nothing() {
    let mut state = at_end_of_memory(&[0x6A42], 0xFFE);
    assert_eq!(state.update(), Ok(()));
    assert_eq!(state.pc(), 4096);
    assert!(!state.underflows());
    for _ in 0..3 {
        assert_eq!(state.update(), Err(Fault::FetchOutsideMemory { address: 4096 }));
        assert_eq!(state.pc(), 4096);
        assert_eq!(state.register(0xA), 0x42);
        assert_eq!(state.stack_depth(), 0);
    }
}

#[test]
fn word_that_straddles_the_end_of_memory_is_not_fetched() {
    // The last byte alone would read as the start of a clear screen or a
    // return: nothing is taken from address 0 to complete it.
    let mut state = at_end_of_memory(&[0x0000], 0xFFE);
    run(&mut state, Instruction::Jump(0xFFF));
    assert!(!state.underflows());
    assert_eq!(state.update(), Err(Fault::FetchOutsideMemory { address: 0xFFF }));
    assert_eq!(state.pc(), 0xFFF);
    assert_eq!(
        state.next_instruction(),
        Err(Fault::FetchOutsideMemory { address: 0xFFF })
    );
    assert_eq!(state.pc(), 0xFFF);
}

#[test]
fn jump_offset_past_the_end_of_memory_is_not_reduced() {
    let mut state = State::default();
    assert_eq!(state.load_program(&program(&[0x60FF, 0xBFFF])), Ok(()));
    assert_eq!(state.update(), Ok(()));
    assert_eq!(state.update(), Ok(()));
    assert_eq!(state.pc(), 0xFFF + 0xFF);
    assert_eq!(
        state.update(),
        Err(Fault::FetchOutsideMemory { address: 0xFFF + 0xFF })
    );
    assert_eq!(state.pc(), 0xFFF + 0xFF);
}

#[test]
fn call_at_the_last_word_saves_the_end_of_memory() {
    let mut state = at_end_of_memory(&[0x2300], 0xFFE);
    assert_eq!(state.update(), Ok(()));
    assert_eq!(state.pc(), 0x300);
    assert_eq!(state.stack_depth(), 1);
    run(&mut state, Instruction::Return);
    assert_eq!(state.pc(), 4096);
    assert_eq!(state.stack_depth(), 0);
    assert_eq!(state.update(), Err(Fault::FetchOutsideMemory { address: 4096 }));
}

#[test]
fn jump_and_jump_offset_by_register_zero() {
    let mut state = State::default();
    run(&mut state, Instruction::Jump(0x345));
    assert_eq!(state.pc(), 0x345);
    run(&mut state, Instruction::SetLiteral(0, 0x10));
    run(&mut state, Instruction::SetLiteral(3, 0x20));
    run(&mut state, Instruction::JumpOffset(0x300));
    assert_eq!(state.pc(), 0x310);
    run(&mut state, Instruction::SetLiteral(0, 0xFF));
    run(&mut state, Instruction::JumpOffset(0xFFF));
    assert_eq!(state.pc(), 0x10FE);
}

#[test]
fn jump_offset_by_addressed_register() {
    let mut state = State::with_quirks(quirks(
        ShiftSource::InPlace,
        JumpBase::AddressedRegister,
        IndexCarry::Flagged,
        AddressOverflow::Wrap,
    ));
    run(&mut state, Instruction::SetLiteral(0, 0x10));
    run(&mut state, Instruction::SetLiteral(3, 0x20));
    run(&mut state, Instruction::JumpOffset(0x300));
    assert_eq!(state.pc(), 0x320);
}

#[test]
fn call_then_return_restores_program_counter() {
    let mut state = State::default();
    let mut image = vec![0u8; 0x102];
    image[0] = 0x23;
    image[1] = 0x00;
    image[0x100] = 0x00;
    image[0x101] = 0xEE;
    assert_eq!(state.load_program(&image), Ok(()));
    assert_eq!(state.update(), Ok(()));
    assert_eq!(state.pc(), 0x300);
    assert_eq!(state.stack_depth(), 1);
    assert!(!state.underflows());
    assert_eq!(state.update(), Ok(()));
    assert_eq!(state.pc(), 0x202);
    assert_eq!(state.stack_depth(), 0);
}

#[test]
fn nested_calls_return_in_reverse_order() {
    let mut state = State::default();
    run(&mut state, Instruction::Jump(0x210));
    run(&mut state, Instruction::Call(0x400));
    run(&mut state, Instruction::Call(0x500));
    run(&mut state, Instruction::SetLiteral(1, 1));
    assert_eq!(state.stack_depth(), 2);
    run(&mut state, Instruction::Return);
    assert_eq!(state.pc(), 0x400);
    run(&mut state, Instruction::Return);
    assert_eq!(state.pc(), 0x210);
    assert_eq!(state.stack_depth(), 0);
}

#[test]
fn return_on_empty_stack_is_announced() {
    let mut state = State::default();
    assert_eq!(state.load_program(&program(&[0x00EE])), Ok(()));
    assert!(state.underflows());
    let mut other = State::default();
    assert_eq!(other.load_program(&program(&[0x2204, 0x0000, 0x00EE])), Ok(()));
    assert!(!other.underflows());
    assert_eq!(other.update(), Ok(()));
    assert!(!other.underflows());
}

#[test]
fn clear_then_jump_to_self_scenario() {
    let mut state = State::default();
    assert_eq!(state.load_program(&program(&[0x00E0, 0x1200])), Ok(()));
    // Clear, jump back to the clear, clear again.
    assert_eq!(state.update(), Ok(()));
    assert_eq!(state.pc(), 0x202);
    assert_eq!(state.update(), Ok(()));
    assert_eq!(state.pc(), 0x200);
    assert_eq!(state.update(), Ok(()));
    assert_eq!(state.pc(), 0x202);
    assert_eq!(state.stack_depth(), 0);
    assert!(state.get_points().is_empty());
    for row in 0..32 {
        for col in 0..64 {
            assert!(!state.pixel(row, col));
        }
    }
}

#[test]
fn unknown_word_is_reported_with_address_and_word() {
    let mut state = State::default();
    assert_eq!(state.load_program(&program(&[0x6001, 0xF1FF, 0x6102])), Ok(()));
    assert_eq!(state.update(), Ok(()));
    assert_eq!(
        state.update(),
        Err(Fault::UnknownInstruction { address: 0x202, word: 0xF1FF })
    );
    assert_eq!(state.pc(), 0x204);
    assert_eq!(state.register(0), 1);
    assert_eq!(state.update(), Ok(()));
    assert_eq!(state.register(1), 2);
}

#[test]
fn next_instruction_fetches_big_endian_and_advances() {
    let mut state = State::default();
    assert_eq!(state.load_program(&[0xD1, 0x25]), Ok(()));
    assert_eq!(state.next_instruction(), Ok(Instruction::Display(1, 2, 5)));
    assert_eq!(state.pc(), 0x202);
    assert_eq!(
        state.next_instruction(),
        Err(Fault::UnknownInstruction { address: 0x202, word: 0x0000 })
    );
    assert_eq!(state.pc(), 0x204);
}

#[test]
fn decimal_conversion_of_255() {
    let mut state = State::default();
    run(&mut state, Instruction::SetLiteral(4, 255));
    run(&mut state, Instruction::SetIndex(0x300));
    run(&mut state, Instruction::ToDecimal(4));
    assert_eq!(state.memory(0x300), 2);
    assert_eq!(state.memory(0x301), 5);
    assert_eq!(state.memory(0x302), 5);
    assert_eq!(state.index(), 0x300);
}

#[test]
fn decimal_conversion_of_all_values() {
    for value in 0..=255u8 {
        let mut state = State::default();
        run(&mut state, Instruction::SetLiteral(0, value));
        run(&mut state, Instruction::SetIndex(0xFFD));
        run(&mut state, Instruction::ToDecimal(0));
        assert_eq!(state.memory(0xFFD), value / 100);
        assert_eq!(state.memory(0xFFE), value / 10 % 10);
        assert_eq!(state.memory(0xFFF), value % 10);
    }
}

#[test]
fn decimal_conversion_wraps_past_the_end_of_memory() {
    let mut state = State::default();
    run(&mut state, Instruction::SetLiteral(0, 123));
    run(&mut state, Instruction::SetIndex(0xFFF));
    run(&mut state, Instruction::ToDecimal(0));
    assert_eq!(state.memory(0xFFF), 1);
    assert_eq!(state.memory(0x000), 2);
    assert_eq!(state.memory(0x001), 3);
}

#[test]
fn decimal_conversion_saturates_past_the_end_of_memory() {
    let mut state = State::with_quirks(saturating());
    run(&mut state, Instruction::SetLiteral(0, 123));
    run(&mut state, Instruction::SetIndex(0xFFE));
    run(&mut state, Instruction::ToDecimal(0));
    assert_eq!(state.memory(0xFFE), 1);
    // Tens and ones both land on the last byte; the tens are written later.
    assert_eq!(state.memory(0xFFF), 2);
    assert_eq!(state.memory(0x000), 0);
}

#[test]
fn write_and_read_memory_include_register_x() {
    let mut state = State::default();
    for i in 0..16 {
        run(&mut state, Instruction::SetLiteral(i, 0x10 + i as u8));
    }
    run(&mut state, Instruction::SetIndex(0x400));
    run(&mut state, Instruction::WriteMemory(3));
    assert_eq!(state.memory(0x400), 0x10);
    assert_eq!(state.memory(0x401), 0x11);
    assert_eq!(state.memory(0x402), 0x12);
    assert_eq!(state.memory(0x403), 0x13);
    assert_eq!(state.memory(0x404), 0x00);
    assert_eq!(state.index(), 0x400);

    for i in 0..16 {
        run(&mut state, Instruction::SetLiteral(i, 0));
    }
    run(&mut state, Instruction::ReadMemory(2));
    assert_eq!(state.register(0), 0x10);
    assert_eq!(state.register(1), 0x11);
    assert_eq!(state.register(2), 0x12);
    assert_eq!(state.register(3), 0x00);
}

#[test]
fn write_memory_of_register_zero_only() {
    let mut state = State::default();
    run(&mut state, Instruction::SetLiteral(0, 0xAB));
    run(&mut state, Instruction::SetLiteral(1, 0xCD));
    run(&mut state, Instruction::SetIndex(0x400));
    run(&mut state, Instruction::WriteMemory(0));
    assert_eq!(state.memory(0x400), 0xAB);
    assert_eq!(state.memory(0x401), 0x00);
}

#[test]
fn write_memory_wraps_past_the_end_of_memory() {
    let mut state = State::default();
    for i in 0..4 {
        run(&mut state, Instruction::SetLiteral(i, 0xA0 + i as u8));
    }
    run(&mut state, Instruction::SetIndex(0xFFE));
    run(&mut state, Instruction::WriteMemory(3));
    assert_eq!(state.memory(0xFFE), 0xA0);
    assert_eq!(state.memory(0xFFF), 0xA1);
    assert_eq!(state.memory(0x000), 0xA2);
    assert_eq!(state.memory(0x001), 0xA3);
    run(&mut state, Instruction::SetLiteral(2, 0));
    run(&mut state, Instruction::ReadMemory(3));
    assert_eq!(state.register(2), 0xA2);
}

#[test]
fn write_memory_saturates_past_the_end_of_memory() {
    let mut state = State::with_quirks(saturating());
    for i in 0..4 {
        run(&mut state, Instruction::SetLiteral(i, 0xA0 + i as u8));
    }
    run(&mut state, Instruction::SetIndex(0xFFE));
    run(&mut state, Instruction::WriteMemory(3));
    assert_eq!(state.memory(0xFFE), 0xA0);
    assert_eq!(state.memory(0xFFF), 0xA3);
    assert_eq!(state.memory(0x000), 0x00);
    run(&mut state, Instruction::ReadMemory(3));
    assert_eq!(state.register(0), 0xA0);
    assert_eq!(state.register(1), 0xA3);
    assert_eq!(state.register(2), 0xA3);
    assert_eq!(state.register(3), 0xA3);
}

#[test]
fn index_add_without_overflow_keeps_flag() {
    let mut state = State::default();
    run(&mut state, Instruction::SetLiteral(0xF, 9));
    run(&mut state, Instruction::SetLiteral(1, 0x20));
    run(&mut state, Instruction::SetIndex(0x100));
    run(&mut state, Instruction::IndexAdd(1));
    assert_eq!(state.index(), 0x120);
    assert_eq!(state.register(0xF), 9);
}

#[test]
fn index_add_overflow_flagged_and_wrapping() {
    let mut state = State::default();
    run(&mut state, Instruction::SetLiteral(1, 0x20));
    run(&mut state, Instruction::SetIndex(0xFF0));
    run(&mut state, Instruction::IndexAdd(1));
    assert_eq!(state.index(), 0x010);
    assert_eq!(state.register(0xF), 1);
}

#[test]
fn index_add_overflow_flagged_and_saturating() {
    let mut state = State::with_quirks(saturating());
    run(&mut state, Instruction::SetLiteral(1, 0x20));
    run(&mut state, Instruction::SetIndex(0xFF0));
    run(&mut state, Instruction::IndexAdd(1));
    assert_eq!(state.index(), 0xFFF);
    assert_eq!(state.register(0xF), 1);
}

#[test]
fn index_add_overflow_unflagged() {
    for overflow in [AddressOverflow::Wrap, AddressOverflow::Saturate] {
        let mut state = State::with_quirks(quirks(
            ShiftSource::InPlace,
            JumpBase::RegisterZero,
            IndexCarry::Ignored,
            overflow,
        ));
        run(&mut state, Instruction::SetLiteral(0xF, 5));
        run(&mut state, Instruction::SetLiteral(1, 0x10));
        run(&mut state, Instruction::SetIndex(0xFF0));
        run(&mut state, Instruction::IndexAdd(1));
        assert_eq!(state.register(0xF), 5);
        let expected = if overflow == AddressOverflow::Wrap { 0x000 } else { 0xFFF };
        assert_eq!(state.index(), expected);
    }
}

#[test]
fn index_font_points_at_glyph_of_low_nibble() {
    let mut state = State::default();
    run(&mut state, Instruction::SetLiteral(2, 0x0A));
    run(&mut state, Instruction::IndexFont(2));
    assert_eq!(state.index(), 0x50 + 5 * 0xA);
    run(&mut state, Instruction::SetLiteral(2, 0xF1));
    run(&mut state, Instruction::IndexFont(2));
    assert_eq!(state.index(), 0x55);
    assert_eq!(state.memory(0x55), 0x20);
    assert_eq!(state.memory(0x56), 0x60);
}

#[test]
fn timers_are_set_read_and_count_down_to_zero() {
    let mut state = State::default();
    run(&mut state, Instruction::SetLiteral(1, 2));
    run(&mut state, Instruction::SetDelay(1));
    run(&mut state, Instruction::SetLiteral(1, 1));
    run(&mut state, Instruction::SetSound(1));
    assert_eq!(state.delay(), 2);
    assert_eq!(state.sound(), 1);
    state.update_timers();
    assert_eq!(state.delay(), 1);
    assert_eq!(state.sound(), 0);
    run(&mut state, Instruction::GetDelay(5));
    assert_eq!(state.register(5), 1);
    state.update_timers();
    state.update_timers();
    assert_eq!(state.delay(), 0);
    assert_eq!(state.sound(), 0);
}

#[test]
fn random_is_masked_by_the_literal() {
    let mut state = State::default();
    state.execute_with(Instruction::Random(1, 0x0F), 0xAB);
    assert_eq!(state.register(1), 0x0B);
    for _ in 0..64 {
        state.execute_instruction(Instruction::Random(2, 0x0F));
        assert!(state.register(2) <= 0x0F);
        state.execute_instruction(Instruction::Random(3, 0x00));
        assert_eq!(state.register(3), 0);
    }
}

#[test]
fn random_draws_differing_bytes() {
    let mut state = State::default();
    let mut seen = [false; 256];
    for _ in 0..4096 {
        state.execute_instruction(Instruction::Random(1, 0xFF));
        seen[state.register(1) as usize] = true;
    }
    assert!(seen.iter().filter(|hit| **hit).count() > 1);
}

#[test]
fn execute_instruction_agrees_with_execute_with_when_nothing_is_drawn() {
    let mut first = State::default();
    let mut second = State::default();
    for instruction in [
        Instruction::SetLiteral(1, 77),
        Instruction::SetIndex(0x321),
        Instruction::ToDecimal(1),
        Instruction::Call(0x400),
    ] {
        first.execute_instruction(instruction);
        second.execute_with(instruction, 0x5A);
    }
    assert_eq!(first.pc(), second.pc());
    assert_eq!(first.memory(0x322), second.memory(0x322));
    assert_eq!(first.memory(0x322), 7);
}

#[test]
fn key_skips_follow_the_held_keys() {
    let mut state = State::default();
    run(&mut state, Instruction::SetLiteral(1, 0x07));
    run(&mut state, Instruction::SkipIfPressed(1));
    assert_eq!(state.pc(), 0x200);
    run(&mut state, Instruction::SkipIfNotPressed(1));
    assert_eq!(state.pc(), 0x202);
    state.key_down(7);
    assert!(state.is_key_down(7));
    run(&mut state, Instruction::SkipIfPressed(1));
    assert_eq!(state.pc(), 0x204);
    run(&mut state, Instruction::SkipIfNotPressed(1));
    assert_eq!(state.pc(), 0x204);
    state.key_up(7);
    assert!(!state.is_key_down(7));
    run(&mut state, Instruction::SkipIfPressed(1));
    assert_eq!(state.pc(), 0x204);
}

#[test]
fn key_skip_uses_low_nibble_of_register() {
    let mut state = State::default();
    state.key_down(0x3);
    run(&mut state, Instruction::SetLiteral(1, 0xA3));
    run(&mut state, Instruction::SkipIfPressed(1));
    assert_eq!(state.pc(), 0x202);
}

#[test]
fn key_wait_holds_the_program_counter_until_a_key_goes_down() {
    let mut state = State::default();
    assert_eq!(state.load_program(&program(&[encode(Instruction::GetKey(4)), 0x6101])), Ok(()));
    for _ in 0..5 {
        assert_eq!(state.update(), Ok(()));
        assert_eq!(state.pc(), 0x200);
    }
    state.key_down(0xC);
    assert_eq!(state.update(), Ok(()));
    assert_eq!(state.pc(), 0x202);
    assert_eq!(state.register(4), 0xC);
    assert_eq!(state.update(), Ok(()));
    assert_eq!(state.register(1), 1);
}

#[test]
fn key_wait_takes_each_press_once() {
    let mut state = State::default();
    state.key_down(0x1);
    state.key_down(0x2);
    run(&mut state, Instruction::Jump(0x202));
    run(&mut state, Instruction::GetKey(0));
    assert_eq!(state.register(0), 0x2);
    assert_eq!(state.pc(), 0x202);
    run(&mut state, Instruction::GetKey(1));
    assert_eq!(state.register(1), 0);
    assert_eq!(state.pc(), 0x200);
}
