//! The machine state and its execution engine.

use crate::instruction::{decode, decoded, Instruction};
use crate::machine::{
    blank_display, display_positions, lemma_execute_wf, lemma_load_next_register, lemma_resolve,
    lemma_store_next_register, row_pixel, Fault, Machine, DISPLAY_HEIGHT, DISPLAY_WIDTH, FLAG,
    FONT, FONT_START, GLYPH_SIZE, MEMORY_SIZE, PC_LIMIT, PROGRAM_START, REGISTER_COUNT,
};
use crate::quirks::{AddressOverflow, IndexCarry, JumpBase, Quirks, ShiftSource};
use vstd::prelude::*;

verus! {

/// One machine: memory, registers, call stack, timers, display and keys.
///
/// Its abstract value is a [`Machine`], written `state@` in contracts.
pub struct State {
    memory: [u8; 4096],
    display: [[bool; 64]; 32],
    stack: Vec<usize>,
    pc: usize,
    index: usize,
    delay: u8,
    sound: u8,
    variable: [u8; 16],
    keys: [bool; 16],
    pressed: Option<u8>,
    quirks: Quirks,
}

impl View for State {
    type V = Machine;

    closed spec fn view(&self) -> Machine {
        Machine {
            memory: self.memory@,
            registers: self.variable@,
            index: self.index,
            pc: self.pc,
            stack: self.stack@,
            delay: self.delay,
            sound: self.sound,
            display: Seq::new(DISPLAY_HEIGHT as nat, |r: int| self.display@[r]@),
            keys: self.keys@,
            pressed: self.pressed,
            quirks: self.quirks,
        }
    }
}

impl Default for State {
    /// A machine with the standard quirks and no program loaded.
    fn default() -> (state: State)
        ensures
            state@ == Machine::initial(Quirks::standard()),
            state@.wf(),
    {
        State::with_quirks(Quirks::default())
    }
}

/// One byte from `rand::random::<u8>()`, which draws it from the
/// thread-local generator of the `rand` crate. Nothing is claimed of the
/// byte: any value may come back, and two calls may differ. The generator
/// seeds itself from the operating system, on first use and again from time
/// to time, and panics if that source fails.
#[verifier::external_body]
fn random_byte() -> (byte: u8) {
    rand::random::<u8>()
}

/// Combines one sprite row with one line of the display by exclusive or,
/// starting at column `left` and stopping at the right edge. Returns whether
/// a pixel that was on has been turned off.
fn draw_row(line: &mut [bool; 64], left: usize, bits: u8) -> (hit: bool)
    requires
        left < DISPLAY_WIDTH,
    ensures
        forall|c: int|
            0 <= c < DISPLAY_WIDTH ==> #[trigger] final(line)@[c] == (old(line)@[c] != row_pixel(
                bits,
                left as int,
                c,
            )),
        hit <==> exists|c: int|
            0 <= c < DISPLAY_WIDTH && old(line)@[c] && #[trigger] row_pixel(bits, left as int, c),
{
    let mut hit = false;
    let mut col: usize = 0;
    while col < 8 && left + col < DISPLAY_WIDTH
        invariant
            col <= 8,
            left + col <= DISPLAY_WIDTH,
            forall|c: int|
                0 <= c < DISPLAY_WIDTH ==> #[trigger] line@[c] == if c < left + col {
                    old(line)@[c] != row_pixel(bits, left as int, c)
                } else {
                    old(line)@[c]
                },
            hit <==> exists|c: int|
                0 <= c < left + col && old(line)@[c] && #[trigger] row_pixel(bits, left as int, c),
        decreases 8 - col,
    {
        let sprite_pixel = bits & (0x80u8 >> (col as u8)) != 0;
        let display_pixel = line[left + col];
        assert(sprite_pixel == row_pixel(bits, left as int, (left + col) as int));
        line[left + col] = sprite_pixel != display_pixel;
        if sprite_pixel && display_pixel {
            hit = true;
        }
        col += 1;
    }
    hit
}

impl State {
    /// A machine with the given quirks and no program loaded: the font is in
    /// place, everything else is zero and execution starts at `0x200`.
    pub fn with_quirks(quirks: Quirks) -> (state: State)
        ensures
            state@ == Machine::initial(quirks),
            state@.wf(),
    {
        let mut memory = [0u8; 4096];
        let mut i: usize = 0;
        while i < 80
            invariant
                i <= 80,
                forall|a: int|
                    0 <= a < MEMORY_SIZE ==> #[trigger] memory@[a] == if FONT_START <= a
                        < FONT_START + i {
                        FONT@[a - FONT_START]
                    } else {
                        0u8
                    },
            decreases 80 - i,
        {
            memory[FONT_START + i] = FONT[i];
            i += 1;
        }
        let state = State {
            memory,
            display: [[false; 64]; 32],
            stack: Vec::new(),
            pc: PROGRAM_START,
            index: 0,
            delay: 0,
            sound: 0,
            variable: [0u8; 16],
            keys: [false; 16],
            pressed: None,
            quirks,
        };
        proof {
            let initial = Machine::initial(quirks);
            assert(state@.memory =~= initial.memory);
            assert(state@.registers =~= initial.registers);
            assert(state@.stack =~= initial.stack);
            assert(state@.keys =~= initial.keys);
            assert(state@.display =~~= initial.display);
        }
        state
    }

    /// The address of the next instruction word.
    pub fn pc(&self) -> (pc: usize)
        ensures
            pc == self@.pc,
    {
        self.pc
    }

    /// The index register.
    pub fn index(&self) -> (index: usize)
        ensures
            index == self@.index,
    {
        self.index
    }

    /// The delay timer.
    pub fn delay(&self) -> (delay: u8)
        ensures
            delay == self@.delay,
    {
        self.delay
    }

    /// The sound timer. Sound is due while it is not zero.
    pub fn sound(&self) -> (sound: u8)
        ensures
            sound == self@.sound,
    {
        self.sound
    }

    /// The value of register `x`.
    pub fn register(&self, x: usize) -> (value: u8)
        requires
            x < REGISTER_COUNT,
        ensures
            value == self@.registers[x as int],
    {
        self.variable[x]
    }

    /// The byte of memory at `address`.
    pub fn memory(&self, address: usize) -> (value: u8)
        requires
            address < MEMORY_SIZE,
        ensures
            value == self@.memory[address as int],
    {
        self.memory[address]
    }

    /// Whether the pixel at `row`, `col` is on.
    pub fn pixel(&self, row: usize, col: usize) -> (on: bool)
        requires
            row < DISPLAY_HEIGHT,
            col < DISPLAY_WIDTH,
        ensures
            on == self@.display[row as int][col as int],
    {
        self.display[row][col]
    }

    /// The number of return addresses on the call stack.
    pub fn stack_depth(&self) -> (depth: usize)
        ensures
            depth == self@.stack.len(),
    {
        self.stack.len()
    }

    /// Whether key `key` is held down.
    pub fn is_key_down(&self, key: u8) -> (down: bool)
        requires
            key < REGISTER_COUNT,
        ensures
            down == self@.keys[key as int],
    {
        self.keys[key as usize]
    }

    /// The compatibility configuration of this machine.
    pub fn quirks(&self) -> (quirks: Quirks)
        ensures
            quirks == self@.quirks,
    {
        self.quirks
    }

    /// Records that key `key` went down: it is held from now on and is the
    /// key that the next key wait receives.
    pub fn key_down(&mut self, key: u8)
        requires
            key < REGISTER_COUNT,
        ensures
            final(self)@ == old(self)@.key_down(key),
            old(self)@.wf() ==> final(self)@.wf(),
    {
        self.keys[key as usize] = true;
        self.pressed = Some(key);
        proof {
            assert(self@.display =~~= old(self)@.display);
        }
    }

    /// Records that key `key` was let go.
    pub fn key_up(&mut self, key: u8)
        requires
            key < REGISTER_COUNT,
        ensures
            final(self)@ == old(self)@.key_up(key),
            old(self)@.wf() ==> final(self)@.wf(),
    {
        self.keys[key as usize] = false;
        proof {
            assert(self@.display =~~= old(self)@.display);
        }
    }

    /// The memory cell that `address` denotes.
    fn resolve(&self, address: usize) -> (cell: usize)
        requires
            address < 2 * MEMORY_SIZE,
        ensures
            cell == self@.resolve(address as int),
            cell < MEMORY_SIZE,
    {
        proof {
            lemma_resolve(self@, address as int);
        }
        match self.quirks.address_overflow {
            AddressOverflow::Wrap => address % MEMORY_SIZE,
            AddressOverflow::Saturate => if address < MEMORY_SIZE {
                address
            } else {
                MEMORY_SIZE - 1
            },
        }
    }

    /// Skips the following instruction if `condition` holds.
    fn skip_when(&mut self, condition: bool)
        requires
            old(self)@.pc + 2 <= PC_LIMIT,
        ensures
            final(self)@ == old(self)@.skip_when(condition),
    {
        if condition {
            self.pc = self.pc + 2;
        }
        assert(self@ =~~= old(self)@.skip_when(condition));
    }

    /// Stores `value` in register `x`.
    fn set_register(&mut self, x: usize, value: u8)
        requires
            x < REGISTER_COUNT,
        ensures
            final(self)@ == old(self)@.with_register(x, value),
    {
        self.variable[x] = value;
        assert(self@ =~~= old(self)@.with_register(x, value));
    }

    /// Stores the three decimal digits of register `x` at the index register.
    fn to_decimal(&mut self, x: usize)
        requires
            old(self)@.wf(),
            x < REGISTER_COUNT,
        ensures
            final(self)@ == old(self)@.to_decimal(x),
    {
        let value = self.variable[x];
        let ones = self.resolve(self.index + 2);
        let tens = self.resolve(self.index + 1);
        let hundreds = self.resolve(self.index);
        self.memory[ones] = value % 10;
        self.memory[tens] = (value / 10) % 10;
        self.memory[hundreds] = value / 100;
        assert(self@ =~~= old(self)@.to_decimal(x));
    }

    /// Stores registers 0 to `x` inclusive at the index register.
    fn write_memory(&mut self, x: usize)
        requires
            old(self)@.wf(),
            x < REGISTER_COUNT,
        ensures
            final(self)@ == old(self)@.write_memory(x),
    {
        let ghost before = self@;
        assert(self@.memory =~= before.memory_with_registers(0));
        let mut i: usize = 0;
        while i <= x
            invariant
                i <= x + 1,
                x < REGISTER_COUNT,
                before.wf(),
                self@.memory == before.memory_with_registers(i as int),
                self@ == (Machine { memory: self@.memory, ..before }),
            decreases x + 1 - i,
        {
            let cell = self.resolve(self.index + i);
            self.memory[cell] = self.variable[i];
            proof {
                lemma_store_next_register(before, i as int);
            }
            i += 1;
            assert(self@ =~~= (Machine { memory: self@.memory, ..before }));
        }
    }

    /// Loads registers 0 to `x` inclusive from the index register.
    fn read_memory(&mut self, x: usize)
        requires
            old(self)@.wf(),
            x < REGISTER_COUNT,
        ensures
            final(self)@ == old(self)@.read_memory(x),
    {
        let ghost before = self@;
        assert(self@.registers =~= before.registers_from_memory(0));
        let mut i: usize = 0;
        while i <= x
            invariant
                i <= x + 1,
                x < REGISTER_COUNT,
                before.wf(),
                self@.registers == before.registers_from_memory(i as int),
                self@ == (Machine { registers: self@.registers, ..before }),
            decreases x + 1 - i,
        {
            let cell = self.resolve(self.index + i);
            self.variable[i] = self.memory[cell];
            proof {
                lemma_load_next_register(before, i as int);
            }
            i += 1;
            assert(self@ =~~= (Machine { registers: self@.registers, ..before }));
        }
    }

    /// Draws the `n`-row sprite at the index register with its top-left
    /// corner at the position that registers `x` and `y` give.
    fn draw(&mut self, x: usize, y: usize, n: usize)
        requires
            old(self)@.wf(),
            x < REGISTER_COUNT,
            y < REGISTER_COUNT,
            n < 16,
        ensures
            final(self)@ == old(self)@.draw(x, y, n),
    {
        let ghost before = self@;
        let left = (self.variable[x] % 64) as usize;
        let top = (self.variable[y] % 32) as usize;
        let mut collided = false;
        let mut row: usize = 0;
        assert(self@.display =~~= before.display);
        while row < n && top + row < DISPLAY_HEIGHT
            invariant
                row <= n,
                top + row <= DISPLAY_HEIGHT,
                n < 16,
                before.wf(),
                left == before.sprite_left(x),
                top == before.sprite_top(y),
                self@ == (Machine { display: self@.display, ..before }),
                self@.display.len() == DISPLAY_HEIGHT,
                forall|r: int|
                    0 <= r < DISPLAY_HEIGHT ==> (#[trigger] self@.display[r]).len()
                        == DISPLAY_WIDTH,
                forall|r: int, c: int|
                    0 <= r < DISPLAY_HEIGHT && 0 <= c < DISPLAY_WIDTH
                        ==> #[trigger] self@.display[r][c] == if r < top + row {
                        before.display[r][c] != before.sprite_pixel(x, y, n, r, c)
                    } else {
                        before.display[r][c]
                    },
                collided <==> exists|r: int, c: int|
                    0 <= r < top + row && 0 <= c < DISPLAY_WIDTH && before.display[r][c]
                        && #[trigger] before.sprite_pixel(x, y, n, r, c),
            decreases n - row,
        {
            let cell = self.resolve(self.index + row);
            let bits = self.memory[cell];
            let ghost shown = self@.display;
            let ghost here = (top + row) as int;
            let mut line = self.display[top + row];
            let ghost line_before = line@;
            assert(line_before == shown[here]);
            let hit = draw_row(&mut line, left, bits);
            self.display[top + row] = line;
            proof {
                assert(self@.display[here] == line@);
                assert forall|r: int| 0 <= r < DISPLAY_HEIGHT && r != here implies self@.display[r]
                    == shown[r] by {}
                assert(bits == before.sprite_row(here - top));
                assert forall|c: int| 0 <= c < DISPLAY_WIDTH implies before.sprite_pixel(
                    x,
                    y,
                    n,
                    here,
                    c,
                ) == row_pixel(bits, left as int, c) by {}
                assert(line_before =~= before.display[here]);
                if hit {
                    let c = choose|c: int|
                        0 <= c < DISPLAY_WIDTH && line_before[c] && #[trigger] row_pixel(
                            bits,
                            left as int,
                            c,
                        );
                    assert(before.display[here][c] && before.sprite_pixel(x, y, n, here, c));
                }
                if exists|r: int, c: int|
                    0 <= r < here + 1 && 0 <= c < DISPLAY_WIDTH && before.display[r][c]
                        && #[trigger] before.sprite_pixel(x, y, n, r, c) {
                    let (r, c) = choose|r: int, c: int|
                        0 <= r < here + 1 && 0 <= c < DISPLAY_WIDTH && before.display[r][c]
                            && #[trigger] before.sprite_pixel(x, y, n, r, c);
                    if r == here {
                        assert(line_before[c] && row_pixel(bits, left as int, c));
                    }
                }
                assert forall|r: int, c: int|
                    0 <= r < DISPLAY_HEIGHT && 0 <= c < DISPLAY_WIDTH implies #[trigger] self@.display[r][c]
                    == if r < here + 1 {
                    before.display[r][c] != before.sprite_pixel(x, y, n, r, c)
                } else {
                    before.display[r][c]
                } by {
                    if r == here {
                        assert(line@[c] == (line_before[c] != row_pixel(bits, left as int, c)));
                        assert(shown[here][c] == before.display[here][c]);
                    } else {
                        assert(self@.display[r][c] == shown[r][c]);
                    }
                }
                assert(self@ =~~= (Machine { display: self@.display, ..before }));
            }
            collided = collided || hit;
            row += 1;
        }
        self.variable[FLAG] = if collided {
            1
        } else {
            0
        };
        proof {
            assert(collided == before.collides(x, y, n)) by {
                if before.collides(x, y, n) {
                    let (r, c) = choose|r: int, c: int|
                        0 <= r < DISPLAY_HEIGHT && 0 <= c < DISPLAY_WIDTH && before.display[r][c]
                            && #[trigger] before.sprite_pixel(x, y, n, r, c);
                    assert(r < top + row);
                }
            }
            assert(self@.display =~~= before.drawn_display(x, y, n));
            assert(self@ =~~= before.draw(x, y, n));
        }
    }

    /// Turns every pixel off.
    fn clear_screen(&mut self)
        ensures
            final(self)@ == (Machine { display: blank_display(), ..old(self)@ }),
    {
        self.display = [[false; 64]; 32];
        assert(self@ =~~= (Machine { display: blank_display(), ..old(self)@ }));
    }

    /// Continues at `address`.
    fn jump(&mut self, address: usize)
        ensures
            final(self)@ == (Machine { pc: address, ..old(self)@ }),
    {
        self.pc = address;
        assert(self@ =~~= (Machine { pc: address, ..old(self)@ }));
    }

    /// Saves the program counter on the call stack and continues at
    /// `address`.
    fn call(&mut self, address: usize)
        ensures
            final(self)@ == (Machine {
                stack: old(self)@.stack.push(old(self)@.pc),
                pc: address,
                ..old(self)@
            }),
    {
        self.stack.push(self.pc);
        self.pc = address;
        assert(self@ =~~= (Machine {
            stack: old(self)@.stack.push(old(self)@.pc),
            pc: address,
            ..old(self)@
        }));
    }

    /// Continues at the address on top of the call stack and removes it.
    fn return_from_call(&mut self)
        requires
            old(self)@.stack.len() > 0,
        ensures
            final(self)@ == (Machine {
                pc: old(self)@.stack.last(),
                stack: old(self)@.stack.drop_last(),
                ..old(self)@
            }),
    {
        if let Some(address) = self.stack.pop() {
            self.pc = address;
        }
        assert(self@ =~~= (Machine {
            pc: old(self)@.stack.last(),
            stack: old(self)@.stack.drop_last(),
            ..old(self)@
        }));
    }

    /// Adds register `y` to register `x`, with the carry in the flag.
    fn add_registers(&mut self, x: usize, y: usize)
        requires
            x < REGISTER_COUNT,
            y < REGISTER_COUNT,
        ensures
            final(self)@ == old(self)@.add_registers(x, y),
    {
        let result = self.variable[x].wrapping_add(self.variable[y]);
        let carry: u8 = if result < self.variable[x] {
            1
        } else {
            0
        };
        self.variable[FLAG] = carry;
        self.variable[x] = result;
        assert(self@ =~~= old(self)@.add_registers(x, y));
    }

    /// Subtracts register `y` from register `x`, with the flag set when
    /// nothing was borrowed.
    fn subtract_registers(&mut self, x: usize, y: usize)
        requires
            x < REGISTER_COUNT,
            y < REGISTER_COUNT,
        ensures
            final(self)@ == old(self)@.subtract_registers(x, y),
    {
        let result = self.variable[x].wrapping_sub(self.variable[y]);
        let no_borrow: u8 = if result <= self.variable[x] {
            1
        } else {
            0
        };
        self.variable[FLAG] = no_borrow;
        self.variable[x] = result;
        assert(self@ =~~= old(self)@.subtract_registers(x, y));
    }

    /// Shifts the source register left by one into register `x`, with the
    /// bit shifted out in the flag.
    fn shift_left(&mut self, x: usize, y: usize)
        requires
            x < REGISTER_COUNT,
            y < REGISTER_COUNT,
        ensures
            final(self)@ == old(self)@.shift_left(x, y),
    {
        let source = self.shift_source(x, y);
        let shifted_out = self.variable[source];
        assert(shifted_out >> 7 == shifted_out / 128) by (bit_vector);
        self.variable[FLAG] = shifted_out >> 7;
        let value = self.variable[source];
        assert(value << 1 == (value * 2) % 256) by (bit_vector);
        self.variable[x] = value << 1;
        assert(self@ =~~= old(self)@.shift_left(x, y));
    }

    /// Shifts the source register right by one into register `x`, with the
    /// bit shifted out in the flag.
    fn shift_right(&mut self, x: usize, y: usize)
        requires
            x < REGISTER_COUNT,
            y < REGISTER_COUNT,
        ensures
            final(self)@ == old(self)@.shift_right(x, y),
    {
        let source = self.shift_source(x, y);
        let shifted_out = self.variable[source];
        assert(shifted_out & 1 == shifted_out % 2) by (bit_vector);
        self.variable[FLAG] = shifted_out & 1;
        let value = self.variable[source];
        assert(value >> 1 == value / 2) by (bit_vector);
        self.variable[x] = value >> 1;
        assert(self@ =~~= old(self)@.shift_right(x, y));
    }

    /// Continues at `address` plus the base register.
    fn jump_offset(&mut self, address: usize)
        requires
            address < MEMORY_SIZE,
        ensures
            final(self)@ == old(self)@.jump_offset(address),
    {
        let base = match self.quirks.jump_base {
            JumpBase::RegisterZero => 0,
            JumpBase::AddressedRegister => address / 0x100,
        };
        self.pc = address + self.variable[base] as usize;
        assert(self@ =~~= old(self)@.jump_offset(address));
    }

    /// Takes a pending key press into register `x`, or steps back onto the
    /// instruction while none is pending.
    fn get_key(&mut self, x: usize)
        requires
            x < REGISTER_COUNT,
            old(self)@.pressed is None ==> old(self)@.pc >= 2,
        ensures
            final(self)@ == old(self)@.get_key(x),
    {
        match self.pressed {
            Some(key) => {
                self.variable[x] = key;
                self.pressed = None;
            },
            None => {
                self.pc = self.pc - 2;
            },
        }
        assert(self@ =~~= old(self)@.get_key(x));
    }

    /// Sets the delay timer.
    fn set_delay(&mut self, value: u8)
        ensures
            final(self)@ == (Machine { delay: value, ..old(self)@ }),
    {
        self.delay = value;
        assert(self@ =~~= (Machine { delay: value, ..old(self)@ }));
    }

    /// Sets the sound timer.
    fn set_sound(&mut self, value: u8)
        ensures
            final(self)@ == (Machine { sound: value, ..old(self)@ }),
    {
        self.sound = value;
        assert(self@ =~~= (Machine { sound: value, ..old(self)@ }));
    }

    /// Sets the index register.
    fn set_index(&mut self, address: usize)
        ensures
            final(self)@ == (Machine { index: address, ..old(self)@ }),
    {
        self.index = address;
        assert(self@ =~~= (Machine { index: address, ..old(self)@ }));
    }

    /// Advances the index register by register `x`.
    fn index_add(&mut self, x: usize)
        requires
            old(self)@.wf(),
            x < REGISTER_COUNT,
        ensures
            final(self)@ == old(self)@.index_add(x),
    {
        let sum = self.index + self.variable[x] as usize;
        let target = self.resolve(sum);
        if sum >= MEMORY_SIZE {
            match self.quirks.index_carry {
                IndexCarry::Flagged => {
                    self.variable[FLAG] = 1;
                },
                IndexCarry::Ignored => {},
            }
        }
        self.index = target;
        assert(self@ =~~= old(self)@.index_add(x));
    }

    /// Points the index register at the glyph of the low nibble of register
    /// `x`.
    fn index_font(&mut self, x: usize)
        requires
            x < REGISTER_COUNT,
        ensures
            final(self)@ == old(self)@.index_font(x),
    {
        self.index = FONT_START + GLYPH_SIZE * (self.variable[x] % 16) as usize;
        assert(self@ =~~= old(self)@.index_font(x));
    }

    /// Executes one instruction, with `random` as the byte that a `Random`
    /// instruction draws. The program counter is taken to stand behind the
    /// instruction already; only jumps, calls, returns, skips and an
    /// unanswered key wait change it.
    ///
    /// The instruction must have its operands in range, and a `Return` needs
    /// a return address on the call stack. A skip needs the program counter
    /// two below its limit and an unanswered key wait needs it to be at
    /// least two, as it is after every fetch.
    pub fn execute_with(&mut self, instruction: Instruction, random: u8)
        requires
            old(self)@.wf(),
            old(self)@.can_execute(instruction),
        ensures
            final(self)@ == old(self)@.execute(instruction, random),
            final(self)@.wf(),
    {
        match instruction {
            Instruction::ClearScreen => self.clear_screen(),
            Instruction::Jump(address) => self.jump(address),
            Instruction::Call(address) => self.call(address),
            Instruction::Return => self.return_from_call(),
            Instruction::SkipEqLiteral(x, nn) => self.skip_when(self.variable[x] == nn),
            Instruction::SkipNeqLiteral(x, nn) => self.skip_when(self.variable[x] != nn),
            Instruction::SkipEq(x, y) => self.skip_when(self.variable[x] == self.variable[y]),
            Instruction::SkipNeq(x, y) => self.skip_when(self.variable[x] != self.variable[y]),
            Instruction::SetLiteral(x, nn) => self.set_register(x, nn),
            Instruction::AddLiteral(x, nn) => self.set_register(
                x,
                self.variable[x].wrapping_add(nn),
            ),
            Instruction::SetRegister(x, y) => self.set_register(x, self.variable[y]),
            Instruction::Or(x, y) => self.set_register(x, self.variable[x] | self.variable[y]),
            Instruction::And(x, y) => self.set_register(x, self.variable[x] & self.variable[y]),
            Instruction::Xor(x, y) => self.set_register(x, self.variable[x] ^ self.variable[y]),
            Instruction::Add(x, y) => self.add_registers(x, y),
            Instruction::Sub(x, y) => self.subtract_registers(x, y),
            Instruction::Lshift(x, y) => self.shift_left(x, y),
            Instruction::Rshift(x, y) => self.shift_right(x, y),
            Instruction::SetIndex(address) => self.set_index(address),
            Instruction::JumpOffset(address) => self.jump_offset(address),
            Instruction::Random(x, nn) => self.set_register(x, random & nn),
            Instruction::Display(x, y, n) => self.draw(x, y, n),
            Instruction::SkipIfPressed(x) => self.skip_when(
                self.keys[(self.variable[x] % 16) as usize],
            ),
            Instruction::SkipIfNotPressed(x) => self.skip_when(
                !self.keys[(self.variable[x] % 16) as usize],
            ),
            Instruction::GetKey(x) => self.get_key(x),
            Instruction::GetDelay(x) => self.set_register(x, self.delay),
            Instruction::SetDelay(x) => self.set_delay(self.variable[x]),
            Instruction::SetSound(x) => self.set_sound(self.variable[x]),
            Instruction::IndexAdd(x) => self.index_add(x),
            Instruction::IndexFont(x) => self.index_font(x),
            Instruction::ToDecimal(x) => self.to_decimal(x),
            Instruction::WriteMemory(x) => self.write_memory(x),
            Instruction::ReadMemory(x) => self.read_memory(x),
        }
        proof {
            lemma_execute_wf(old(self)@, instruction, random);
        }
    }

    /// The register that a shift of `x`, `y` reads.
    fn shift_source(&self, x: usize, y: usize) -> (source: usize)
        ensures
            source == self@.shift_source(x, y),
    {
        match self.quirks.shift_source {
            ShiftSource::InPlace => x,
            ShiftSource::FromY => y,
        }
    }

    /// Executes one instruction. A `Random` instruction draws its byte from
    /// the thread-local generator; no other instruction draws one.
    ///
    /// The demands on the instruction and the program counter are those of
    /// [`State::execute_with`].
    pub fn execute_instruction(&mut self, instruction: Instruction)
        requires
            old(self)@.wf(),
            old(self)@.can_execute(instruction),
        ensures
            exists|random: u8| final(self)@ == old(self)@.execute(instruction, random),
            instruction !is Random ==> final(self)@ == old(self)@.execute(instruction, 0),
            final(self)@.wf(),
    {
        let random = match instruction {
            Instruction::Random(_, _) => random_byte(),
            _ => 0,
        };
        self.execute_with(instruction, random);
    }

    /// The instruction word at the program counter.
    fn fetch_word(&self) -> (word: u16)
        requires
            self@.can_fetch(),
        ensures
            word == self@.fetched_word(),
    {
        let high = self.memory[self.pc];
        let low = self.memory[self.pc + 1];
        high as u16 * 0x100 + low as u16
    }

    /// Fetches the instruction word at the program counter, moves the
    /// program counter past it and decodes it.
    ///
    /// Where the program counter stands so close to the end of memory that
    /// no whole word lies there, that is reported and nothing changes; no
    /// byte is read from anywhere else. A word that stands for no
    /// instruction is reported with its address; the program counter has
    /// then moved past it all the same.
    pub fn next_instruction(&mut self) -> (result: Result<Instruction, Fault>)
        requires
            old(self)@.wf(),
        ensures
            result == old(self)@.next_instruction(),
            final(self)@ == old(self)@.fetch(),
            final(self)@.wf(),
            result matches Ok(instruction) ==> instruction.well_formed(),
    {
        if self.pc > MEMORY_SIZE - 2 {
            return Err(Fault::FetchOutsideMemory { address: self.pc });
        }
        let address = self.pc;
        let word = self.fetch_word();
        self.pc = self.pc + 2;
        assert(self@ =~~= old(self)@.after_fetch());
        match decode(word) {
            Some(instruction) => Ok(instruction),
            None => Err(Fault::UnknownInstruction { address, word }),
        }
    }

    /// Whether the next instruction is a return that finds the call stack
    /// empty. [`State::update`] must not be called on such a machine.
    pub fn underflows(&self) -> (fatal: bool)
        requires
            self@.wf(),
        ensures
            fatal == self@.underflows(),
    {
        if self.pc > MEMORY_SIZE - 2 {
            return false;
        }
        match decode(self.fetch_word()) {
            Some(Instruction::Return) => self.stack.len() == 0,
            _ => false,
        }
    }

    /// Runs one cycle: fetches, decodes and executes the instruction at the
    /// program counter.
    ///
    /// Where no whole word lies at the program counter, that is reported and
    /// nothing changes. A word that stands for no instruction is reported
    /// with its address and is otherwise passed over. The machine must not be
    /// about to return from an empty call stack (see [`State::underflows`]).
    pub fn update(&mut self) -> (result: Result<(), Fault>)
        requires
            old(self)@.wf(),
            !old(self)@.underflows(),
        ensures
            result == match old(self)@.fault() {
                Some(fault) => Err::<(), Fault>(fault),
                None => Ok::<(), Fault>(()),
            },
            exists|random: u8| final(self)@ == old(self)@.tick(random),
            !(old(self)@.next_instruction() matches Ok(Instruction::Random(_, _))) ==> final(self)@
                == old(self)@.tick(0),
            final(self)@.wf(),
    {
        match self.next_instruction() {
            Ok(instruction) => {
                let ghost fetched = self@;
                self.execute_instruction(instruction);
                proof {
                    let random = choose|random: u8| self@ == fetched.execute(instruction, random);
                    assert(self@ == old(self)@.tick(random));
                }
                Ok(())
            },
            Err(fault) => {
                assert(self@ == old(self)@.tick(0));
                Err(fault)
            },
        }
    }

    /// Copies a program image into memory at the load address `0x200`.
    ///
    /// An image that does not fit between the load address and the end of
    /// memory is refused and the machine is left as it was.
    pub fn load_program(&mut self, image: &[u8]) -> (result: Result<(), Fault>)
        ensures
            Machine::image_fits(image@.len()) ==> result == Ok::<(), Fault>(()) && final(self)@
                == old(self)@.load(image@),
            !Machine::image_fits(image@.len()) ==> result == Err::<(), Fault>(
                Fault::ImageTooLarge { len: image@.len() as usize },
            ) && final(self)@ == old(self)@,
            old(self)@.wf() ==> final(self)@.wf(),
    {
        let len = image.len();
        if len > MEMORY_SIZE - PROGRAM_START {
            return Err(Fault::ImageTooLarge { len });
        }
        let ghost before = self@;
        let mut i: usize = 0;
        assert(self@ =~~= before.load(image@.take(0)));
        while i < len
            invariant
                i <= len,
                len == image@.len(),
                len <= MEMORY_SIZE - PROGRAM_START,
                self@ == before.load(image@.take(i as int)),
            decreases len - i,
        {
            self.memory[PROGRAM_START + i] = image[i];
            i += 1;
            assert(self@ =~~= before.load(image@.take(i as int)));
        }
        assert(image@.take(len as int) =~= image@);
        Ok(())
    }

    /// The positions of the pixels that are on, as row and column, row by row
    /// from the top and within a row from the left.
    pub fn get_points(&self) -> (points: Vec<(usize, usize)>)
        ensures
            points@ == self@.lit_pixels(),
    {
        let ghost positions = display_positions();
        let ghost lit = |position: (usize, usize)| self@.is_lit(position);
        let mut points: Vec<(usize, usize)> = Vec::new();
        let mut row: usize = 0;
        assert(positions.take(0).filter(lit) =~= Seq::<(usize, usize)>::empty());
        while row < DISPLAY_HEIGHT
            invariant
                row <= DISPLAY_HEIGHT,
                positions == display_positions(),
                lit == |position: (usize, usize)| self@.is_lit(position),
                points@ == positions.take(row * DISPLAY_WIDTH as int).filter(lit),
            decreases DISPLAY_HEIGHT - row,
        {
            let mut col: usize = 0;
            while col < DISPLAY_WIDTH
                invariant
                    row < DISPLAY_HEIGHT,
                    col <= DISPLAY_WIDTH,
                    positions == display_positions(),
                    lit == |position: (usize, usize)| self@.is_lit(position),
                    points@ == positions.take(row * DISPLAY_WIDTH + col).filter(lit),
                decreases DISPLAY_WIDTH - col,
            {
                proof {
                    let k = (row * DISPLAY_WIDTH + col) as int;
                    assert(positions[k] == (row, col));
                    assert(positions.take(k + 1) =~= positions.take(k).push(positions[k]));
                    positions.take(k).lemma_filter_push(positions[k], lit);
                    assert(lit((row, col)) == self.display@[row as int]@[col as int]);
                }
                if self.display[row][col] {
                    points.push((row, col));
                }
                col += 1;
            }
            row += 1;
        }
        assert(positions.take((DISPLAY_HEIGHT * DISPLAY_WIDTH) as int) =~= positions);
        points
    }

    /// Moves both timers one tick closer to zero. A timer at zero stays
    /// there.
    pub fn update_timers(&mut self)
        ensures
            final(self)@ == old(self)@.tick_timers(),
            old(self)@.wf() ==> final(self)@.wf(),
    {
        if self.delay > 0 {
            self.delay -= 1;
        }
        if self.sound > 0 {
            self.sound -= 1;
        }
        proof {
            assert(self@.display =~~= old(self)@.display);
        }
    }
}

} // verus!
