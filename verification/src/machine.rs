//! The mathematical model of the machine.
//!
//! [`Machine`] is the abstract value of a [`crate::state::State`]: memory and
//! registers as sequences, the display as a grid of booleans. Every
//! instruction is given its meaning here, as a function from one machine to
//! the next, and the executable engine is proved to compute these functions.

use crate::instruction::{decoded, Instruction};
use crate::quirks::{AddressOverflow, IndexCarry, JumpBase, Quirks, ShiftSource};
use vstd::prelude::*;

verus! {

/// Number of addressable bytes.
pub const MEMORY_SIZE: usize = 4096;

/// Address at which a program image is loaded and execution starts.
pub const PROGRAM_START: usize = 0x200;

/// The largest value the program counter takes: the last address plus the
/// largest register value, which is as far as a jump with offset reaches.
pub const PC_LIMIT: usize = 0xFFF + 0xFF;

/// Address of the first font glyph.
pub const FONT_START: usize = 0x50;

/// Number of bytes in one font glyph.
pub const GLYPH_SIZE: usize = 5;

/// Number of pixel columns.
pub const DISPLAY_WIDTH: usize = 64;

/// Number of pixel rows.
pub const DISPLAY_HEIGHT: usize = 32;

/// Number of general-purpose registers, and of keys.
pub const REGISTER_COUNT: usize = 16;

/// Index of the register that doubles as carry and collision flag.
pub const FLAG: usize = 0xF;

/// The glyphs of the sixteen hexadecimal digits, five bytes each.
pub const FONT: [u8; 80] = [
    0xF0, 0x90, 0x90, 0x90, 0xF0,
    0x20, 0x60, 0x20, 0x20, 0x70,
    0xF0, 0x10, 0xF0, 0x80, 0xF0,
    0xF0, 0x10, 0xF0, 0x10, 0xF0,
    0x90, 0x90, 0xF0, 0x10, 0x10,
    0xF0, 0x80, 0xF0, 0x10, 0xF0,
    0xF0, 0x80, 0xF0, 0x90, 0xF0,
    0xF0, 0x10, 0x20, 0x40, 0x40,
    0xF0, 0x90, 0xF0, 0x90, 0xF0,
    0xF0, 0x90, 0xF0, 0x10, 0xF0,
    0xF0, 0x90, 0xF0, 0x90, 0x90,
    0xE0, 0x90, 0xE0, 0x90, 0xE0,
    0xF0, 0x80, 0x80, 0x80, 0xF0,
    0xE0, 0x90, 0x90, 0x90, 0xE0,
    0xF0, 0x80, 0xF0, 0x80, 0xF0,
    0xF0, 0x80, 0xF0, 0x80, 0x80,
];

/// Why a machine could not go on.
#[derive(Clone, Copy, Debug, PartialEq, Eq, Structural)]
pub enum Fault {
    /// A program image of `len` bytes does not fit between the load address
    /// and the end of memory.
    ImageTooLarge { len: usize },
    /// The word fetched at `address` stands for no instruction.
    UnknownInstruction { address: usize, word: u16 },
    /// The program counter stands at `address`, where no whole instruction
    /// word lies inside memory.
    FetchOutsideMemory { address: usize },
}

/// The abstract state of one machine.
#[verifier::ext_equal]
pub struct Machine {
    /// The 4096 bytes of memory.
    pub memory: Seq<u8>,
    /// The sixteen general-purpose registers.
    pub registers: Seq<u8>,
    /// The index register.
    pub index: usize,
    /// The address of the next instruction word. It is never reduced and may
    /// come to stand past the end of memory, where nothing can be fetched.
    pub pc: usize,
    /// The saved return addresses, the most recent last.
    pub stack: Seq<usize>,
    /// The delay timer.
    pub delay: u8,
    /// The sound timer.
    pub sound: u8,
    /// The pixels, 32 rows of 64 columns.
    pub display: Seq<Seq<bool>>,
    /// Which of the sixteen keys are held down.
    pub keys: Seq<bool>,
    /// The key most recently pressed and not yet taken by a key wait.
    pub pressed: Option<u8>,
    /// The compatibility configuration.
    pub quirks: Quirks,
}

/// A display with every pixel off.
pub open spec fn blank_display() -> Seq<Seq<bool>> {
    Seq::new(DISPLAY_HEIGHT as nat, |r: int| Seq::new(DISPLAY_WIDTH as nat, |c: int| false))
}

/// Memory as a fresh machine holds it: the font at its place, zero elsewhere.
pub open spec fn initial_memory() -> Seq<u8> {
    Seq::new(
        MEMORY_SIZE as nat,
        |a: int|
            if FONT_START <= a < FONT_START + 80 {
                FONT@[a - FONT_START]
            } else {
                0u8
            },
    )
}

/// Every position of the display as row and column, row by row from the top
/// and within a row from the left.
pub open spec fn display_positions() -> Seq<(usize, usize)> {
    Seq::new(
        (DISPLAY_HEIGHT * DISPLAY_WIDTH) as nat,
        |i: int| ((i / DISPLAY_WIDTH as int) as usize, (i % DISPLAY_WIDTH as int) as usize),
    )
}

/// Whether column `col` of a sprite row is set. Column 0 is the most
/// significant bit.
pub open spec fn sprite_bit(row: u8, col: int) -> bool {
    row & (0x80u8 >> (col as u8)) != 0
}

/// Whether a sprite row whose first column lies at column `left` of the
/// display has a set pixel at column `c`.
pub open spec fn row_pixel(row: u8, left: int, c: int) -> bool {
    left <= c < left + 8 && sprite_bit(row, c - left)
}

impl Machine {
    /// A machine before any program is loaded.
    pub open spec fn initial(quirks: Quirks) -> Machine {
        Machine {
            memory: initial_memory(),
            registers: Seq::new(REGISTER_COUNT as nat, |i: int| 0u8),
            index: 0,
            pc: PROGRAM_START,
            stack: Seq::empty(),
            delay: 0,
            sound: 0,
            display: blank_display(),
            keys: Seq::new(REGISTER_COUNT as nat, |i: int| false),
            pressed: None,
            quirks,
        }
    }

    /// Every component has its fixed size, the index register is an address
    /// and the program counter, like every saved return address, is within
    /// its limit.
    pub open spec fn wf(self) -> bool {
        &&& self.memory.len() == MEMORY_SIZE
        &&& self.registers.len() == REGISTER_COUNT
        &&& self.index < MEMORY_SIZE
        &&& self.pc <= PC_LIMIT
        &&& forall|i: int| 0 <= i < self.stack.len() ==> #[trigger] self.stack[i] <= PC_LIMIT
        &&& self.display.len() == DISPLAY_HEIGHT
        &&& forall|r: int|
            0 <= r < DISPLAY_HEIGHT ==> (#[trigger] self.display[r]).len() == DISPLAY_WIDTH
        &&& self.keys.len() == REGISTER_COUNT
        &&& self.pressed matches Some(key) ==> key < REGISTER_COUNT
    }

    /// The value of register `x`.
    pub open spec fn register(self, x: usize) -> u8 {
        self.registers[x as int]
    }

    /// This machine with register `x` holding `value`.
    pub open spec fn with_register(self, x: usize, value: u8) -> Machine {
        Machine { registers: self.registers.update(x as int, value), ..self }
    }

    /// This machine with the flag register holding `value`.
    pub open spec fn with_flag(self, value: u8) -> Machine {
        self.with_register(FLAG, value)
    }

    /// This machine with the following instruction skipped if `condition`
    /// holds: the program counter moves two bytes on.
    pub open spec fn skip_when(self, condition: bool) -> Machine {
        if condition {
            Machine { pc: (self.pc + 2) as usize, ..self }
        } else {
            self
        }
    }

    /// The memory cell that `address` denotes, which may lie past the end of
    /// memory.
    pub open spec fn resolve(self, address: int) -> int {
        match self.quirks.address_overflow {
            AddressOverflow::Wrap => address % (MEMORY_SIZE as int),
            AddressOverflow::Saturate => if address < MEMORY_SIZE {
                address
            } else {
                MEMORY_SIZE - 1
            },
        }
    }

    /// Whether the two bytes at the program counter both lie inside memory.
    pub open spec fn can_fetch(self) -> bool {
        self.pc + 2 <= MEMORY_SIZE
    }

    /// The instruction word at the program counter, most significant byte
    /// first.
    pub open spec fn fetched_word(self) -> u16 {
        (self.memory[self.pc as int] * 0x100 + self.memory[self.pc + 1]) as u16
    }

    /// This machine with the program counter moved past the fetched word.
    pub open spec fn after_fetch(self) -> Machine {
        Machine { pc: (self.pc + 2) as usize, ..self }
    }

    /// What a fetch and decode at the program counter yields: the instruction
    /// there, or the fault that no whole word lies there or that the word
    /// stands for no instruction.
    pub open spec fn next_instruction(self) -> Result<Instruction, Fault> {
        if !self.can_fetch() {
            Err(Fault::FetchOutsideMemory { address: self.pc })
        } else {
            match decoded(self.fetched_word()) {
                Some(instruction) => Ok(instruction),
                None => Err(
                    Fault::UnknownInstruction { address: self.pc, word: self.fetched_word() },
                ),
            }
        }
    }

    /// The fault that the next cycle ends in, if any.
    pub open spec fn fault(self) -> Option<Fault> {
        match self.next_instruction() {
            Ok(_) => None,
            Err(fault) => Some(fault),
        }
    }

    /// The machine after a fetch and decode: unchanged where no whole word
    /// lies at the program counter, otherwise with the program counter moved
    /// past the word.
    pub open spec fn fetch(self) -> Machine {
        if self.can_fetch() {
            self.after_fetch()
        } else {
            self
        }
    }

    /// The machine one fetch, decode and execute later. Where no whole word
    /// lies at the program counter nothing changes. A word that stands for no
    /// instruction is passed over and changes nothing else.
    pub open spec fn tick(self, random: u8) -> Machine {
        if !self.can_fetch() {
            self
        } else {
            match decoded(self.fetched_word()) {
                Some(instruction) => self.after_fetch().execute(instruction, random),
                None => self.after_fetch(),
            }
        }
    }

    /// Whether a program image of `len` bytes fits into memory.
    pub open spec fn image_fits(len: nat) -> bool {
        len <= MEMORY_SIZE - PROGRAM_START
    }

    /// This machine with `image` copied into memory at the load address.
    pub open spec fn load(self, image: Seq<u8>) -> Machine {
        Machine {
            memory: Seq::new(
                MEMORY_SIZE as nat,
                |a: int|
                    if PROGRAM_START <= a < PROGRAM_START + image.len() {
                        image[a - PROGRAM_START]
                    } else {
                        self.memory[a]
                    },
            ),
            ..self
        }
    }

    /// Whether the pixel at `position`, a row and a column, is on.
    pub open spec fn is_lit(self, position: (usize, usize)) -> bool {
        self.display[position.0 as int][position.1 as int]
    }

    /// The positions of the pixels that are on, as row and column, row by row
    /// from the top and within a row from the left.
    pub open spec fn lit_pixels(self) -> Seq<(usize, usize)> {
        display_positions().filter(|position: (usize, usize)| self.is_lit(position))
    }

    /// The next instruction is a return and there is nothing to return to.
    pub open spec fn underflows(self) -> bool {
        &&& self.can_fetch()
        &&& decoded(self.fetched_word()) == Some(Instruction::Return)
        &&& self.stack.len() == 0
    }

    /// Both timers one tick closer to zero.
    pub open spec fn tick_timers(self) -> Machine {
        Machine {
            delay: if self.delay > 0 {
                (self.delay - 1) as u8
            } else {
                0
            },
            sound: if self.sound > 0 {
                (self.sound - 1) as u8
            } else {
                0
            },
            ..self
        }
    }

    /// Key `key` goes down: it is held from now on and becomes the most recent
    /// press.
    pub open spec fn key_down(self, key: u8) -> Machine {
        Machine { keys: self.keys.update(key as int, true), pressed: Some(key), ..self }
    }

    /// Key `key` is let go.
    pub open spec fn key_up(self, key: u8) -> Machine {
        Machine { keys: self.keys.update(key as int, false), ..self }
    }

    /// `Add`: register `x` receives the sum modulo 256. The flag is the carry
    /// of the two operands and is written before the sum.
    pub open spec fn add_registers(self, x: usize, y: usize) -> Machine {
        let sum = self.register(x) + self.register(y);
        self.with_flag(
            if sum > 255 {
                1
            } else {
                0
            },
        ).with_register(x, (sum % 256) as u8)
    }

    /// `Sub`: register `x` receives the difference modulo 256. The flag is 1
    /// when nothing was borrowed and is written before the difference.
    pub open spec fn subtract_registers(self, x: usize, y: usize) -> Machine {
        let minuend = self.register(x);
        let subtrahend = self.register(y);
        self.with_flag(
            if minuend >= subtrahend {
                1
            } else {
                0
            },
        ).with_register(x, ((minuend - subtrahend) % 256) as u8)
    }

    /// The register that a shift of `x`, `y` reads.
    pub open spec fn shift_source(self, x: usize, y: usize) -> usize {
        match self.quirks.shift_source {
            ShiftSource::InPlace => x,
            ShiftSource::FromY => y,
        }
    }

    /// `Lshift`: the top bit of the source goes to the flag, then the source
    /// is shifted left by one into register `x`.
    pub open spec fn shift_left(self, x: usize, y: usize) -> Machine {
        let source = self.shift_source(x, y);
        let flagged = self.with_flag((self.register(source) / 128) as u8);
        flagged.with_register(x, ((flagged.register(source) * 2) % 256) as u8)
    }

    /// `Rshift`: the bottom bit of the source goes to the flag, then the
    /// source is shifted right by one into register `x`.
    pub open spec fn shift_right(self, x: usize, y: usize) -> Machine {
        let source = self.shift_source(x, y);
        let flagged = self.with_flag((self.register(source) % 2) as u8);
        flagged.with_register(x, (flagged.register(source) / 2) as u8)
    }

    /// The register whose value `JumpOffset(address)` adds to `address`.
    pub open spec fn jump_base(self, address: usize) -> usize {
        match self.quirks.jump_base {
            JumpBase::RegisterZero => 0,
            JumpBase::AddressedRegister => address / 0x100,
        }
    }

    /// `JumpOffset`: the program counter becomes the address plus the base
    /// register. The sum may lie past the end of memory, where the next
    /// fetch faults.
    pub open spec fn jump_offset(self, address: usize) -> Machine {
        Machine { pc: (address + self.register(self.jump_base(address))) as usize, ..self }
    }

    /// `IndexAdd`: the index register advances by register `x`. A sum past
    /// the end of memory is resolved as the overflow quirk says, and sets the
    /// flag where the carry quirk asks for it; otherwise the flag is kept.
    pub open spec fn index_add(self, x: usize) -> Machine {
        let sum = self.index + self.register(x);
        let flagged = if sum >= MEMORY_SIZE && self.quirks.index_carry == IndexCarry::Flagged {
            self.with_flag(1)
        } else {
            self
        };
        Machine { index: self.resolve(sum) as usize, ..flagged }
    }

    /// `IndexFont`: the index register points at the glyph of the low nibble
    /// of register `x`.
    pub open spec fn index_font(self, x: usize) -> Machine {
        Machine { index: (FONT_START + GLYPH_SIZE * (self.register(x) % 16)) as usize, ..self }
    }

    /// `ToDecimal`: the three decimal digits of register `x` are stored at
    /// the index register, hundreds first. The ones are written first and the
    /// hundreds last.
    pub open spec fn to_decimal(self, x: usize) -> Machine {
        let value = self.register(x);
        Machine {
            memory: self.memory.update(self.resolve(self.index + 2), (value % 10) as u8).update(
                self.resolve(self.index + 1),
                ((value / 10) % 10) as u8,
            ).update(self.resolve(self.index as int), (value / 100) as u8),
            ..self
        }
    }

    /// The register that cell `address` holds once registers 0 up to, not
    /// including, `count` have been stored at the index register in rising
    /// order, or `None` if none of them went to that cell.
    pub open spec fn stored_register(self, address: int, count: int) -> Option<int> {
        match self.quirks.address_overflow {
            AddressOverflow::Wrap => {
                let offset = (address - self.index) % (MEMORY_SIZE as int);
                if offset < count {
                    Some(offset)
                } else {
                    None
                }
            },
            AddressOverflow::Saturate => {
                if self.index <= address < MEMORY_SIZE - 1 && address - self.index < count {
                    Some(address - self.index)
                } else if address == MEMORY_SIZE - 1 && self.index + count > MEMORY_SIZE - 1 {
                    Some(count - 1)
                } else {
                    None
                }
            },
        }
    }

    /// Memory after registers 0 up to, not including, `count` have been
    /// stored at the index register.
    pub open spec fn memory_with_registers(self, count: int) -> Seq<u8> {
        Seq::new(
            MEMORY_SIZE as nat,
            |a: int|
                match self.stored_register(a, count) {
                    Some(i) => self.registers[i],
                    None => self.memory[a],
                },
        )
    }

    /// `WriteMemory`: registers 0 to `x` inclusive are stored at the index
    /// register.
    pub open spec fn write_memory(self, x: usize) -> Machine {
        Machine { memory: self.memory_with_registers(x + 1), ..self }
    }

    /// Registers after registers 0 up to, not including, `count` have been
    /// loaded from the index register.
    pub open spec fn registers_from_memory(self, count: int) -> Seq<u8> {
        Seq::new(
            REGISTER_COUNT as nat,
            |i: int|
                if i < count {
                    self.memory[self.resolve(self.index + i)]
                } else {
                    self.registers[i]
                },
        )
    }

    /// `ReadMemory`: registers 0 to `x` inclusive are loaded from the index
    /// register.
    pub open spec fn read_memory(self, x: usize) -> Machine {
        Machine { registers: self.registers_from_memory(x + 1), ..self }
    }

    /// The column of the display at which a sprite drawn through register
    /// `x` starts.
    pub open spec fn sprite_left(self, x: usize) -> int {
        self.register(x) as int % (DISPLAY_WIDTH as int)
    }

    /// The row of the display at which a sprite drawn through register `y`
    /// starts.
    pub open spec fn sprite_top(self, y: usize) -> int {
        self.register(y) as int % (DISPLAY_HEIGHT as int)
    }

    /// Row `row` of the sprite at the index register.
    pub open spec fn sprite_row(self, row: int) -> u8 {
        self.memory[self.resolve(self.index + row)]
    }

    /// Whether the sprite of `Display(x, y, n)` has a set pixel at row `r`,
    /// column `c` of the display. The sprite does not wrap: what falls
    /// outside the display is no pixel of it.
    pub open spec fn sprite_pixel(self, x: usize, y: usize, n: usize, r: int, c: int) -> bool {
        let top = self.sprite_top(y);
        top <= r < top + n && row_pixel(self.sprite_row(r - top), self.sprite_left(x), c)
    }

    /// Whether `Display(x, y, n)` turns off a pixel that was on.
    pub open spec fn collides(self, x: usize, y: usize, n: usize) -> bool {
        exists|r: int, c: int|
            0 <= r < DISPLAY_HEIGHT && 0 <= c < DISPLAY_WIDTH && self.display[r][c]
                && #[trigger] self.sprite_pixel(x, y, n, r, c)
    }

    /// The display after `Display(x, y, n)`: every pixel of the sprite is
    /// combined with the pixel under it by exclusive or.
    pub open spec fn drawn_display(self, x: usize, y: usize, n: usize) -> Seq<Seq<bool>> {
        Seq::new(
            DISPLAY_HEIGHT as nat,
            |r: int|
                Seq::new(
                    DISPLAY_WIDTH as nat,
                    |c: int| self.display[r][c] != self.sprite_pixel(x, y, n, r, c),
                ),
        )
    }

    /// `Display`: the sprite is drawn and the flag tells whether any pixel
    /// collided.
    pub open spec fn draw(self, x: usize, y: usize, n: usize) -> Machine {
        Machine {
            display: self.drawn_display(x, y, n),
            registers: self.registers.update(
                FLAG as int,
                if self.collides(x, y, n) {
                    1u8
                } else {
                    0u8
                },
            ),
            ..self
        }
    }

    /// Whether the key named by the low nibble of register `x` is held.
    pub open spec fn key_held(self, x: usize) -> bool {
        self.keys[self.register(x) as int % 16]
    }

    /// `GetKey`: a pending key press is taken into register `x`. While none
    /// is pending the program counter steps back onto the instruction, so
    /// that it is fetched again.
    pub open spec fn get_key(self, x: usize) -> Machine {
        match self.pressed {
            Some(key) => Machine { pressed: None, ..self.with_register(x, key) },
            None => Machine { pc: (self.pc - 2) as usize, ..self },
        }
    }

    /// What must hold for `instruction` to be executed: its operands are in
    /// range; a return has an address to return to; a skip leaves the program
    /// counter within its limit; and a key wait that finds no key press has
    /// its own word behind the program counter. The last two hold of every
    /// instruction that has just been fetched.
    pub open spec fn can_execute(self, instruction: Instruction) -> bool {
        &&& instruction.well_formed()
        &&& instruction is Return ==> self.stack.len() > 0
        &&& instruction.may_skip() ==> self.pc + 2 <= PC_LIMIT
        &&& instruction is GetKey && self.pressed is None ==> self.pc >= 2
    }

    /// The machine after `instruction` has been executed. `random` is the
    /// byte drawn for a `Random` instruction and is ignored by every other.
    pub open spec fn execute(self, instruction: Instruction, random: u8) -> Machine {
        match instruction {
            Instruction::ClearScreen => Machine { display: blank_display(), ..self },
            Instruction::Jump(address) => Machine { pc: address, ..self },
            Instruction::Call(address) => Machine {
                stack: self.stack.push(self.pc),
                pc: address,
                ..self
            },
            Instruction::Return => Machine {
                pc: self.stack.last(),
                stack: self.stack.drop_last(),
                ..self
            },
            Instruction::SkipEqLiteral(x, nn) => self.skip_when(self.register(x) == nn),
            Instruction::SkipNeqLiteral(x, nn) => self.skip_when(self.register(x) != nn),
            Instruction::SkipEq(x, y) => self.skip_when(self.register(x) == self.register(y)),
            Instruction::SkipNeq(x, y) => self.skip_when(self.register(x) != self.register(y)),
            Instruction::SetLiteral(x, nn) => self.with_register(x, nn),
            Instruction::AddLiteral(x, nn) => self.with_register(
                x,
                ((self.register(x) + nn) % 256) as u8,
            ),
            Instruction::SetRegister(x, y) => self.with_register(x, self.register(y)),
            Instruction::Or(x, y) => self.with_register(x, self.register(x) | self.register(y)),
            Instruction::And(x, y) => self.with_register(x, self.register(x) & self.register(y)),
            Instruction::Xor(x, y) => self.with_register(x, self.register(x) ^ self.register(y)),
            Instruction::Add(x, y) => self.add_registers(x, y),
            Instruction::Sub(x, y) => self.subtract_registers(x, y),
            Instruction::Lshift(x, y) => self.shift_left(x, y),
            Instruction::Rshift(x, y) => self.shift_right(x, y),
            Instruction::SetIndex(address) => Machine { index: address, ..self },
            Instruction::JumpOffset(address) => self.jump_offset(address),
            Instruction::Random(x, nn) => self.with_register(x, random & nn),
            Instruction::Display(x, y, n) => self.draw(x, y, n),
            Instruction::SkipIfPressed(x) => self.skip_when(self.key_held(x)),
            Instruction::SkipIfNotPressed(x) => self.skip_when(!self.key_held(x)),
            Instruction::GetKey(x) => self.get_key(x),
            Instruction::GetDelay(x) => self.with_register(x, self.delay),
            Instruction::SetDelay(x) => Machine { delay: self.register(x), ..self },
            Instruction::SetSound(x) => Machine { sound: self.register(x), ..self },
            Instruction::IndexAdd(x) => self.index_add(x),
            Instruction::IndexFont(x) => self.index_font(x),
            Instruction::ToDecimal(x) => self.to_decimal(x),
            Instruction::WriteMemory(x) => self.write_memory(x),
            Instruction::ReadMemory(x) => self.read_memory(x),
        }
    }
}

/// The distance from `index` up to `address` in the wrapping address space.
pub proof fn lemma_wrapped_offset(address: int, index: int)
    requires
        0 <= address < MEMORY_SIZE,
        0 <= index < MEMORY_SIZE,
    ensures
        (address - index) % (MEMORY_SIZE as int) == if address >= index {
            address - index
        } else {
            address - index + MEMORY_SIZE
        },
{
}

/// The cell that an address less than one memory size past the end denotes.
pub proof fn lemma_resolve(machine: Machine, address: int)
    requires
        0 <= address < 2 * MEMORY_SIZE,
    ensures
        0 <= machine.resolve(address) < MEMORY_SIZE,
        address < MEMORY_SIZE ==> machine.resolve(address) == address,
        address >= MEMORY_SIZE ==> machine.resolve(address) == match machine.quirks.address_overflow {
            AddressOverflow::Wrap => address - MEMORY_SIZE,
            AddressOverflow::Saturate => MEMORY_SIZE - 1,
        },
{
}

/// Storing one more register extends the stored block by one.
pub proof fn lemma_store_next_register(machine: Machine, count: int)
    requires
        machine.wf(),
        0 <= count < REGISTER_COUNT,
    ensures
        machine.memory_with_registers(count).update(
            machine.resolve(machine.index + count),
            machine.registers[count],
        ) == machine.memory_with_registers(count + 1),
{
    let cell = machine.resolve(machine.index + count);
    let stored = machine.memory_with_registers(count).update(cell, machine.registers[count]);
    let extended = machine.memory_with_registers(count + 1);
    lemma_resolve(machine, machine.index + count);
    assert forall|a: int| 0 <= a < MEMORY_SIZE implies stored[a] == extended[a] by {
        lemma_wrapped_offset(a, machine.index as int);
    }
    assert(stored =~= extended);
}

/// Loading one more register extends the loaded block by one.
pub proof fn lemma_load_next_register(machine: Machine, count: int)
    requires
        machine.wf(),
        0 <= count < REGISTER_COUNT,
    ensures
        machine.registers_from_memory(count).update(
            count,
            machine.memory[machine.resolve(machine.index + count)],
        ) == machine.registers_from_memory(count + 1),
{
    assert(machine.registers_from_memory(count).update(
        count,
        machine.memory[machine.resolve(machine.index + count)],
    ) =~= machine.registers_from_memory(count + 1));
}

/// Executing an instruction keeps a machine well formed.
pub proof fn lemma_execute_wf(machine: Machine, instruction: Instruction, random: u8)
    requires
        machine.wf(),
        machine.can_execute(instruction),
    ensures
        machine.execute(instruction, random).wf(),
{
    match instruction {
        Instruction::IndexAdd(x) => {
            lemma_resolve(machine, machine.index + machine.register(x));
        },
        _ => {},
    }
}

} // verus!
