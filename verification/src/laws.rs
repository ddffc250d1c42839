//! Laws of the execution engine.
//!
//! Each proof function states a law of the model in [`crate::machine`], which
//! the executable engine is proved to follow.

use crate::instruction::{decoded, Instruction};
use crate::machine::{
    lemma_resolve, lemma_wrapped_offset, Fault, Machine, DISPLAY_HEIGHT, DISPLAY_WIDTH, FLAG,
    MEMORY_SIZE, REGISTER_COUNT,
};
use crate::quirks::JumpBase;
use vstd::prelude::*;

verus! {

/// The three decimal digits of a byte make up the byte.
proof fn lemma_decimal_digits(value: u8)
    by (bit_vector)
    ensures
        (value / 100) * 100 + ((value / 10) % 10) * 10 + value % 10 == value,
        value / 100 < 3,
{
}

/// Only a `Random` instruction depends on the byte that was drawn.
pub proof fn lemma_random_byte_ignored(
    machine: Machine,
    instruction: Instruction,
    first: u8,
    second: u8,
)
    requires
        instruction !is Random,
    ensures
        machine.execute(instruction, first) == machine.execute(instruction, second),
{
}

/// A cycle keeps a machine well formed, unless it would return from an empty
/// call stack.
pub proof fn lemma_tick_wf(machine: Machine, random: u8)
    requires
        machine.wf(),
        !machine.underflows(),
    ensures
        machine.tick(random).wf(),
{
    if machine.can_fetch() {
        crate::instruction::lemma_decoded_well_formed(machine.fetched_word());
        match decoded(machine.fetched_word()) {
            Some(instruction) => {
                crate::machine::lemma_execute_wf(machine.after_fetch(), instruction, random);
            },
            None => {},
        }
    }
}

/// A cycle that finds no whole instruction word at the program counter
/// reports that with the address and leaves the machine exactly as it was.
pub proof fn lemma_fetch_outside_memory(machine: Machine, random: u8)
    requires
        machine.pc + 2 > MEMORY_SIZE,
    ensures
        machine.fault() == Some(Fault::FetchOutsideMemory { address: machine.pc }),
        machine.tick(random) == machine,
        machine.fetch() == machine,
{
}

/// A fetch inside memory moves the program counter on by exactly two and
/// changes nothing else, whether or not the word stands for an instruction.
pub proof fn lemma_fetch_advances(machine: Machine)
    requires
        machine.wf(),
        machine.pc + 2 <= MEMORY_SIZE,
    ensures
        machine.fetch() == (Machine { pc: (machine.pc + 2) as usize, ..machine }),
        machine.fetch().pc == machine.pc + 2,
        machine.fault() is Some ==> machine.tick(0) == machine.fetch(),
{
}

/// `Add` leaves the sum modulo 256 in register `x` and sets the flag to 1
/// exactly when the sum exceeds 255. Where `x` is the flag register itself
/// the sum is what it holds afterwards.
pub proof fn lemma_add_carry(machine: Machine, x: usize, y: usize, random: u8)
    requires
        machine.wf(),
        x < REGISTER_COUNT,
        y < REGISTER_COUNT,
    ensures
        ({
            let a = machine.register(x) as int;
            let b = machine.register(y) as int;
            let after = machine.execute(Instruction::Add(x, y), random);
            &&& after.register(x) == (a + b) % 256
            &&& x != FLAG ==> (after.register(FLAG) == 1 <==> a + b > 255)
            &&& x != FLAG ==> (after.register(FLAG) == 0 <==> a + b <= 255)
            &&& forall|i: int|
                0 <= i < REGISTER_COUNT && i != x && i != FLAG ==> after.registers[i]
                    == machine.registers[i]
        }),
{
}

/// `Sub` leaves the difference modulo 256 in register `x` and sets the flag
/// to 1 exactly when the minuend is at least the subtrahend. Where `x` is
/// the flag register itself the difference is what it holds afterwards.
pub proof fn lemma_sub_borrow(machine: Machine, x: usize, y: usize, random: u8)
    requires
        machine.wf(),
        x < REGISTER_COUNT,
        y < REGISTER_COUNT,
    ensures
        ({
            let a = machine.register(x) as int;
            let b = machine.register(y) as int;
            let after = machine.execute(Instruction::Sub(x, y), random);
            &&& after.register(x) == (a - b) % 256
            &&& x != FLAG ==> (after.register(FLAG) == 1 <==> a >= b)
            &&& x != FLAG ==> (after.register(FLAG) == 0 <==> a < b)
            &&& forall|i: int|
                0 <= i < REGISTER_COUNT && i != x && i != FLAG ==> after.registers[i]
                    == machine.registers[i]
        }),
{
}

/// A left shift puts the top bit of the source into the flag and twice the
/// source, modulo 256, into register `x`, provided neither the source nor
/// `x` is the flag register.
pub proof fn lemma_shift_left_flag(machine: Machine, x: usize, y: usize, random: u8)
    requires
        machine.wf(),
        x < FLAG,
        machine.shift_source(x, y) < FLAG,
    ensures
        ({
            let value = machine.register(machine.shift_source(x, y)) as int;
            let after = machine.execute(Instruction::Lshift(x, y), random);
            &&& after.register(x) == (value * 2) % 256
            &&& after.register(FLAG) == value / 128
            &&& after.register(FLAG) == 1 <==> value >= 128
        }),
{
}

/// A right shift puts the bottom bit of the source into the flag and half
/// the source into register `x`, provided neither the source nor `x` is the
/// flag register.
pub proof fn lemma_shift_right_flag(machine: Machine, x: usize, y: usize, random: u8)
    requires
        machine.wf(),
        x < FLAG,
        machine.shift_source(x, y) < FLAG,
    ensures
        ({
            let value = machine.register(machine.shift_source(x, y)) as int;
            let after = machine.execute(Instruction::Rshift(x, y), random);
            &&& after.register(x) == value / 2
            &&& after.register(FLAG) == value % 2
            &&& after.register(FLAG) == 1 <==> value % 2 == 1
        }),
{
}

/// A cycle that executes `SkipEqLiteral(x, nn)` moves the program counter on
/// by four where register `x` holds `nn` and by two where it does not, and
/// changes nothing else.
pub proof fn lemma_skip_eq_literal(machine: Machine, x: usize, nn: u8, random: u8)
    requires
        machine.wf(),
        machine.next_instruction() == Ok::<Instruction, Fault>(Instruction::SkipEqLiteral(x, nn)),
    ensures
        machine.register(x) == nn ==> machine.tick(random) == (Machine {
            pc: (machine.pc + 4) as usize,
            ..machine
        }),
        machine.register(x) != nn ==> machine.tick(random) == (Machine {
            pc: (machine.pc + 2) as usize,
            ..machine
        }),
        machine.tick(random).pc == machine.pc + if machine.register(x) == nn {
            4int
        } else {
            2int
        },
{
}

/// A cycle that executes one of the two key skips moves the program counter
/// on by four or by two, as the key named by the low nibble of register `x`
/// is held or not, and changes nothing else.
pub proof fn lemma_key_skips(machine: Machine, x: usize, random: u8)
    requires
        machine.wf(),
    ensures
        machine.next_instruction() == Ok::<Instruction, Fault>(Instruction::SkipIfPressed(x))
            ==> machine.tick(random) == (Machine {
            pc: (machine.pc + if machine.key_held(x) {
                4int
            } else {
                2int
            }) as usize,
            ..machine
        }),
        machine.next_instruction() == Ok::<Instruction, Fault>(Instruction::SkipIfNotPressed(x))
            ==> machine.tick(random) == (Machine {
            pc: (machine.pc + if machine.key_held(x) {
                2int
            } else {
                4int
            }) as usize,
            ..machine
        }),
{
}

/// A cycle that executes any skip changes nothing but the program counter,
/// which it moves on by two or by four.
pub proof fn lemma_skip_moves_only_pc(machine: Machine, instruction: Instruction, random: u8)
    requires
        machine.wf(),
        machine.next_instruction() == Ok::<Instruction, Fault>(instruction),
        instruction.may_skip(),
    ensures
        machine.tick(random) == (Machine { pc: machine.tick(random).pc, ..machine }),
        machine.tick(random).pc == machine.pc + 2 || machine.tick(random).pc == machine.pc + 4,
{
}

/// A cycle that executes `JumpOffset(address)` continues at the address plus
/// the base register, whatever the program counter was and even where the
/// sum lies past the end of memory, and changes nothing else.
pub proof fn lemma_jump_offset_target(machine: Machine, address: usize, random: u8)
    requires
        machine.wf(),
        machine.next_instruction() == Ok::<Instruction, Fault>(Instruction::JumpOffset(address)),
    ensures
        machine.tick(random) == (Machine {
            pc: (address + machine.register(machine.jump_base(address))) as usize,
            ..machine
        }),
        machine.quirks.jump_base == JumpBase::RegisterZero ==> machine.tick(random).pc == address
            + machine.registers[0],
{
}

/// A key wait that finds no pending key press leaves the machine exactly as
/// it was, so that the next cycle meets the same instruction again.
pub proof fn lemma_key_wait_repeats(machine: Machine, x: usize, random: u8)
    requires
        machine.wf(),
        machine.next_instruction() == Ok::<Instruction, Fault>(Instruction::GetKey(x)),
        machine.pressed is None,
    ensures
        machine.tick(random) == machine,
{
    assert(machine.tick(random) =~~= machine);
}

/// A key wait takes the pending key press into register `x`, uses it up and
/// lets the program go on with the next instruction.
pub proof fn lemma_key_wait_takes_key(machine: Machine, x: usize, key: u8, random: u8)
    requires
        machine.wf(),
        machine.next_instruction() == Ok::<Instruction, Fault>(Instruction::GetKey(x)),
        machine.pressed == Some(key),
    ensures
        machine.tick(random) == (Machine {
            registers: machine.registers.update(x as int, key),
            pressed: None,
            pc: (machine.pc + 2) as usize,
            ..machine
        }),
        machine.tick(random).register(x) == key,
        machine.tick(random).pc == machine.pc + 2,
{
    crate::instruction::lemma_decoded_well_formed(machine.fetched_word());
}

/// A return restores the program counter that the matching call saved: if
/// the call stack is again what the call left, the return continues right
/// after the call and leaves the stack as it was before the call.
pub proof fn lemma_call_then_return(
    machine: Machine,
    address: usize,
    later: Machine,
    first: u8,
    second: u8,
)
    requires
        later.stack == machine.execute(Instruction::Call(address), first).stack,
    ensures
        machine.execute(Instruction::Call(address), first).pc == address,
        later.can_execute(Instruction::Return),
        later.execute(Instruction::Return, second).pc == machine.pc,
        later.execute(Instruction::Return, second).stack == machine.stack,
{
    assert(machine.stack.push(machine.pc).drop_last() =~= machine.stack);
}

/// The decimal digits that `ToDecimal` stores make up the value of the
/// register, hundreds first, where they fit below the end of memory; nothing
/// else in memory changes.
pub proof fn lemma_to_decimal_digits(machine: Machine, x: usize, random: u8)
    requires
        machine.wf(),
        x < REGISTER_COUNT,
        machine.index + 2 < MEMORY_SIZE,
    ensures
        ({
            let value = machine.register(x) as int;
            let i = machine.index as int;
            let after = machine.execute(Instruction::ToDecimal(x), random);
            &&& after.memory[i] == value / 100
            &&& after.memory[i + 1] == (value / 10) % 10
            &&& after.memory[i + 2] == value % 10
            &&& after.memory[i] * 100 + after.memory[i + 1] * 10 + after.memory[i + 2] == value
            &&& forall|a: int|
                0 <= a < MEMORY_SIZE && !(i <= a <= i + 2) ==> after.memory[a] == machine.memory[a]
        }),
{
    lemma_decimal_digits(machine.register(x));
    let i = machine.index as int;
    lemma_resolve(machine, i);
    lemma_resolve(machine, i + 1);
    lemma_resolve(machine, i + 2);
}

/// `WriteMemory(x)` stores register `i` at the index register plus `i` for
/// every `i` up to and including `x`, where that stays below the end of
/// memory; nothing else in memory changes.
pub proof fn lemma_write_memory_in_range(machine: Machine, x: usize, random: u8)
    requires
        machine.wf(),
        x < REGISTER_COUNT,
        machine.index + x < MEMORY_SIZE,
    ensures
        ({
            let after = machine.execute(Instruction::WriteMemory(x), random);
            &&& forall|i: int|
                0 <= i <= x ==> #[trigger] after.memory[machine.index + i] == machine.registers[i]
            &&& forall|a: int|
                0 <= a < MEMORY_SIZE && !(machine.index <= a <= machine.index + x)
                    ==> #[trigger] after.memory[a] == machine.memory[a]
        }),
{
    let after = machine.write_memory(x);
    assert forall|a: int| 0 <= a < MEMORY_SIZE implies #[trigger] after.memory[a] == if machine.index
        <= a <= machine.index + x {
        machine.registers[a - machine.index]
    } else {
        machine.memory[a]
    } by {
        lemma_wrapped_offset(a, machine.index as int);
    }
    assert forall|i: int| 0 <= i <= x implies #[trigger] after.memory[machine.index + i]
        == machine.registers[i] by {
        let a = machine.index + i;
        assert(after.memory[a] == machine.registers[a - machine.index]);
    }
}

/// `ReadMemory(x)` loads register `i` from the index register plus `i` for
/// every `i` up to and including `x`, where that stays below the end of
/// memory, and leaves the other registers alone.
pub proof fn lemma_read_memory_in_range(machine: Machine, x: usize, random: u8)
    requires
        machine.wf(),
        x < REGISTER_COUNT,
        machine.index + x < MEMORY_SIZE,
    ensures
        ({
            let after = machine.execute(Instruction::ReadMemory(x), random);
            &&& forall|i: int|
                0 <= i <= x ==> #[trigger] after.registers[i] == machine.memory[machine.index + i]
            &&& forall|i: int|
                x < i < REGISTER_COUNT ==> #[trigger] after.registers[i] == machine.registers[i]
        }),
{
    let after = machine.read_memory(x);
    assert forall|i: int| 0 <= i <= x implies #[trigger] after.registers[i]
        == machine.memory[machine.index + i] by {
        lemma_resolve(machine, machine.index + i);
    }
}

/// Storing registers and loading them back from the same place gives the
/// same registers, where the block stays below the end of memory.
pub proof fn lemma_write_then_read(machine: Machine, x: usize, first: u8, second: u8)
    requires
        machine.wf(),
        x < REGISTER_COUNT,
        machine.index + x < MEMORY_SIZE,
    ensures
        machine.execute(Instruction::WriteMemory(x), first).execute(
            Instruction::ReadMemory(x),
            second,
        ).registers == machine.registers,
{
    let stored = machine.execute(Instruction::WriteMemory(x), first);
    let loaded = stored.execute(Instruction::ReadMemory(x), second);
    lemma_write_memory_in_range(machine, x, first);
    assert forall|i: int| 0 <= i < REGISTER_COUNT implies loaded.registers[i]
        == machine.registers[i] by {
        if i <= x {
            lemma_resolve(stored, machine.index + i);
            assert(stored.memory[machine.index + i] == machine.registers[i]);
        }
    }
    assert(loaded.registers =~= machine.registers);
}

/// Drawing is its own inverse: the same sprite drawn twice at the same
/// place leaves the display as it was. The second draw reports a collision
/// exactly when the sprite has a pixel on the display that was off before
/// the first draw.
///
/// The position must not be taken from the flag register, which the first
/// draw overwrites.
pub proof fn lemma_draw_twice(machine: Machine, x: usize, y: usize, n: usize, random: u8)
    requires
        machine.wf(),
        x < FLAG,
        y < FLAG,
        n < 16,
    ensures
        ({
            let once = machine.execute(Instruction::Display(x, y, n), random);
            let twice = once.execute(Instruction::Display(x, y, n), random);
            &&& twice.display == machine.display
            &&& twice.register(FLAG) == 1 <==> exists|r: int, c: int|
                0 <= r < DISPLAY_HEIGHT && 0 <= c < DISPLAY_WIDTH && !machine.display[r][c]
                    && #[trigger] machine.sprite_pixel(x, y, n, r, c)
            &&& twice.register(FLAG) == 0 || twice.register(FLAG) == 1
        }),
{
    let once = machine.draw(x, y, n);
    let twice = once.draw(x, y, n);
    assert forall|r: int, c: int| once.sprite_pixel(x, y, n, r, c) == machine.sprite_pixel(
        x,
        y,
        n,
        r,
        c,
    ) by {}
    assert(twice.display =~~= machine.display);
    if once.collides(x, y, n) {
        let (r, c) = choose|r: int, c: int|
            0 <= r < DISPLAY_HEIGHT && 0 <= c < DISPLAY_WIDTH && once.display[r][c]
                && #[trigger] once.sprite_pixel(x, y, n, r, c);
        assert(!machine.display[r][c] && machine.sprite_pixel(x, y, n, r, c));
    }
    if exists|r: int, c: int|
        0 <= r < DISPLAY_HEIGHT && 0 <= c < DISPLAY_WIDTH && !machine.display[r][c]
            && #[trigger] machine.sprite_pixel(x, y, n, r, c) {
        let (r, c) = choose|r: int, c: int|
            0 <= r < DISPLAY_HEIGHT && 0 <= c < DISPLAY_WIDTH && !machine.display[r][c]
                && #[trigger] machine.sprite_pixel(x, y, n, r, c);
        assert(once.display[r][c] && once.sprite_pixel(x, y, n, r, c));
    }
}

/// A sprite drawn twice onto pixels that were off, with at least one of its
/// pixels on the display, is cleared again by the second draw, and the
/// second draw sets the flag to 1.
pub proof fn lemma_draw_twice_clears(
    machine: Machine,
    x: usize,
    y: usize,
    n: usize,
    random: u8,
    row: int,
    col: int,
)
    requires
        machine.wf(),
        x < FLAG,
        y < FLAG,
        n < 16,
        0 <= row < DISPLAY_HEIGHT,
        0 <= col < DISPLAY_WIDTH,
        machine.sprite_pixel(x, y, n, row, col),
        forall|r: int, c: int|
            0 <= r < DISPLAY_HEIGHT && 0 <= c < DISPLAY_WIDTH && #[trigger] machine.sprite_pixel(
                x,
                y,
                n,
                r,
                c,
            ) ==> !machine.display[r][c],
    ensures
        ({
            let once = machine.execute(Instruction::Display(x, y, n), random);
            let twice = once.execute(Instruction::Display(x, y, n), random);
            &&& once.register(FLAG) == 0
            &&& twice.register(FLAG) == 1
            &&& forall|r: int, c: int|
                0 <= r < DISPLAY_HEIGHT && 0 <= c < DISPLAY_WIDTH && #[trigger] machine.sprite_pixel(
                    x,
                    y,
                    n,
                    r,
                    c,
                ) ==> once.display[r][c] && !twice.display[r][c]
        }),
{
    lemma_draw_twice(machine, x, y, n, random);
    assert(!machine.display[row][col] && machine.sprite_pixel(x, y, n, row, col));
}

/// Every timer tick brings a timer one closer to zero and never below it.
pub proof fn lemma_timers_count_down(machine: Machine)
    ensures
        machine.tick_timers().delay <= machine.delay,
        machine.tick_timers().sound <= machine.sound,
        machine.delay > 0 ==> machine.tick_timers().delay == machine.delay - 1,
        machine.sound > 0 ==> machine.tick_timers().sound == machine.sound - 1,
        machine.delay == 0 ==> machine.tick_timers().delay == 0,
        machine.sound == 0 ==> machine.tick_timers().sound == 0,
{
}

} // verus!
