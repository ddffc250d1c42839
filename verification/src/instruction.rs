//! Instruction words and their decoding.
//!
//! An instruction is a 16-bit word. Its top four bits select the opcode
//! class; the remaining twelve bits are sliced into operand fields.

use vstd::prelude::*;

verus! {

/// One decoded operation together with the operands it needs.
///
/// Register operands are indices into the sixteen general-purpose registers,
/// addresses are twelve bits wide, and the sprite height of `Display` is a
/// four-bit count.
#[derive(Clone, Copy, Debug, PartialEq, Eq, Structural)]
pub enum Instruction {
    ClearScreen,
    Jump(usize),
    Call(usize),
    Return,
    SkipEqLiteral(usize, u8),
    SkipNeqLiteral(usize, u8),
    SkipEq(usize, usize),
    SkipNeq(usize, usize),
    SetLiteral(usize, u8),
    AddLiteral(usize, u8),
    SetRegister(usize, usize),
    Or(usize, usize),
    And(usize, usize),
    Xor(usize, usize),
    Add(usize, usize),
    Sub(usize, usize),
    Lshift(usize, usize),
    Rshift(usize, usize),
    SetIndex(usize),
    JumpOffset(usize),
    Random(usize, u8),
    Display(usize, usize, usize),
    SkipIfPressed(usize),
    SkipIfNotPressed(usize),
    GetKey(usize),
    GetDelay(usize),
    SetDelay(usize),
    SetSound(usize),
    IndexAdd(usize),
    IndexFont(usize),
    ToDecimal(usize),
    WriteMemory(usize),
    ReadMemory(usize),
}

/// The opcode class: bits 12 to 15 of the word.
pub open spec fn class_of(word: u16) -> int {
    word as int / 0x1000
}

/// The first register operand `X`: bits 8 to 11.
pub open spec fn field_x(word: u16) -> int {
    (word as int / 0x100) % 0x10
}

/// The second register operand `Y`: bits 4 to 7.
pub open spec fn field_y(word: u16) -> int {
    (word as int / 0x10) % 0x10
}

/// The four-bit immediate `N`: bits 0 to 3.
pub open spec fn field_n(word: u16) -> int {
    word as int % 0x10
}

/// The eight-bit immediate `NN`: bits 0 to 7.
pub open spec fn field_nn(word: u16) -> int {
    word as int % 0x100
}

/// The twelve-bit address `NNN`: bits 0 to 11.
pub open spec fn field_nnn(word: u16) -> int {
    word as int % 0x1000
}

/// Class `0x8`: register-to-register arithmetic and logic, selected by `N`.
///
/// `8XY7` is the subtraction with its operands exchanged.
pub open spec fn decoded_arithmetic(word: u16) -> Option<Instruction> {
    let x = field_x(word) as usize;
    let y = field_y(word) as usize;
    let n = field_n(word);
    if n == 0x0 {
        Some(Instruction::SetRegister(x, y))
    } else if n == 0x1 {
        Some(Instruction::Or(x, y))
    } else if n == 0x2 {
        Some(Instruction::And(x, y))
    } else if n == 0x3 {
        Some(Instruction::Xor(x, y))
    } else if n == 0x4 {
        Some(Instruction::Add(x, y))
    } else if n == 0x5 {
        Some(Instruction::Sub(x, y))
    } else if n == 0x6 {
        Some(Instruction::Rshift(x, y))
    } else if n == 0x7 {
        Some(Instruction::Sub(y, x))
    } else if n == 0xE {
        Some(Instruction::Lshift(x, y))
    } else {
        None
    }
}

/// Class `0xE`: the two key-state skips, selected by `NN`.
pub open spec fn decoded_key_skip(word: u16) -> Option<Instruction> {
    let x = field_x(word) as usize;
    let nn = field_nn(word);
    if nn == 0x9E {
        Some(Instruction::SkipIfPressed(x))
    } else if nn == 0xA1 {
        Some(Instruction::SkipIfNotPressed(x))
    } else {
        None
    }
}

/// Class `0xF`: timers, key wait, index and block-memory operations,
/// selected by `NN`.
pub open spec fn decoded_extended(word: u16) -> Option<Instruction> {
    let x = field_x(word) as usize;
    let nn = field_nn(word);
    if nn == 0x07 {
        Some(Instruction::GetDelay(x))
    } else if nn == 0x0A {
        Some(Instruction::GetKey(x))
    } else if nn == 0x15 {
        Some(Instruction::SetDelay(x))
    } else if nn == 0x18 {
        Some(Instruction::SetSound(x))
    } else if nn == 0x1E {
        Some(Instruction::IndexAdd(x))
    } else if nn == 0x29 {
        Some(Instruction::IndexFont(x))
    } else if nn == 0x33 {
        Some(Instruction::ToDecimal(x))
    } else if nn == 0x55 {
        Some(Instruction::WriteMemory(x))
    } else if nn == 0x65 {
        Some(Instruction::ReadMemory(x))
    } else {
        None
    }
}

/// The operation a word stands for, or `None` where the word matches no
/// recognised opcode.
pub open spec fn decoded(word: u16) -> Option<Instruction> {
    let class = class_of(word);
    let x = field_x(word) as usize;
    let y = field_y(word) as usize;
    let n = field_n(word) as usize;
    let nn = field_nn(word) as u8;
    let nnn = field_nnn(word) as usize;
    if class == 0x0 {
        if word == 0x00E0 {
            Some(Instruction::ClearScreen)
        } else if word == 0x00EE {
            Some(Instruction::Return)
        } else {
            None
        }
    } else if class == 0x1 {
        Some(Instruction::Jump(nnn))
    } else if class == 0x2 {
        Some(Instruction::Call(nnn))
    } else if class == 0x3 {
        Some(Instruction::SkipEqLiteral(x, nn))
    } else if class == 0x4 {
        Some(Instruction::SkipNeqLiteral(x, nn))
    } else if class == 0x5 {
        Some(Instruction::SkipEq(x, y))
    } else if class == 0x6 {
        Some(Instruction::SetLiteral(x, nn))
    } else if class == 0x7 {
        Some(Instruction::AddLiteral(x, nn))
    } else if class == 0x8 {
        decoded_arithmetic(word)
    } else if class == 0x9 {
        Some(Instruction::SkipNeq(x, y))
    } else if class == 0xA {
        Some(Instruction::SetIndex(nnn))
    } else if class == 0xB {
        Some(Instruction::JumpOffset(nnn))
    } else if class == 0xC {
        Some(Instruction::Random(x, nn))
    } else if class == 0xD {
        Some(Instruction::Display(x, y, n))
    } else if class == 0xE {
        decoded_key_skip(word)
    } else {
        decoded_extended(word)
    }
}

impl Instruction {
    /// Every register operand names one of the sixteen registers, every
    /// address fits in twelve bits and a sprite height fits in four.
    pub open spec fn well_formed(self) -> bool {
        match self {
            Instruction::ClearScreen | Instruction::Return => true,
            Instruction::Jump(n)
            | Instruction::Call(n)
            | Instruction::SetIndex(n)
            | Instruction::JumpOffset(n) => n < 0x1000,
            Instruction::SkipEqLiteral(x, _)
            | Instruction::SkipNeqLiteral(x, _)
            | Instruction::SetLiteral(x, _)
            | Instruction::AddLiteral(x, _)
            | Instruction::Random(x, _) => x < 16,
            Instruction::SkipEq(x, y)
            | Instruction::SkipNeq(x, y)
            | Instruction::SetRegister(x, y)
            | Instruction::Or(x, y)
            | Instruction::And(x, y)
            | Instruction::Xor(x, y)
            | Instruction::Add(x, y)
            | Instruction::Sub(x, y)
            | Instruction::Lshift(x, y)
            | Instruction::Rshift(x, y) => x < 16 && y < 16,
            Instruction::Display(x, y, n) => x < 16 && y < 16 && n < 16,
            Instruction::SkipIfPressed(x)
            | Instruction::SkipIfNotPressed(x)
            | Instruction::GetKey(x)
            | Instruction::GetDelay(x)
            | Instruction::SetDelay(x)
            | Instruction::SetSound(x)
            | Instruction::IndexAdd(x)
            | Instruction::IndexFont(x)
            | Instruction::ToDecimal(x)
            | Instruction::WriteMemory(x)
            | Instruction::ReadMemory(x) => x < 16,
        }
    }

    /// Whether this instruction may skip the one that follows it.
    pub open spec fn may_skip(self) -> bool {
        match self {
            Instruction::SkipEqLiteral(_, _)
            | Instruction::SkipNeqLiteral(_, _)
            | Instruction::SkipEq(_, _)
            | Instruction::SkipNeq(_, _)
            | Instruction::SkipIfPressed(_)
            | Instruction::SkipIfNotPressed(_) => true,
            _ => false,
        }
    }

    /// The word that encodes this instruction.
    ///
    /// A subtraction is always written as `8XY5`.
    pub open spec fn encoding(self) -> int {
        match self {
            Instruction::ClearScreen => 0x00E0,
            Instruction::Return => 0x00EE,
            Instruction::Jump(n) => 0x1000 + n,
            Instruction::Call(n) => 0x2000 + n,
            Instruction::SkipEqLiteral(x, nn) => 0x3000 + 0x100 * x + nn,
            Instruction::SkipNeqLiteral(x, nn) => 0x4000 + 0x100 * x + nn,
            Instruction::SkipEq(x, y) => 0x5000 + 0x100 * x + 0x10 * y,
            Instruction::SetLiteral(x, nn) => 0x6000 + 0x100 * x + nn,
            Instruction::AddLiteral(x, nn) => 0x7000 + 0x100 * x + nn,
            Instruction::SetRegister(x, y) => 0x8000 + 0x100 * x + 0x10 * y,
            Instruction::Or(x, y) => 0x8001 + 0x100 * x + 0x10 * y,
            Instruction::And(x, y) => 0x8002 + 0x100 * x + 0x10 * y,
            Instruction::Xor(x, y) => 0x8003 + 0x100 * x + 0x10 * y,
            Instruction::Add(x, y) => 0x8004 + 0x100 * x + 0x10 * y,
            Instruction::Sub(x, y) => 0x8005 + 0x100 * x + 0x10 * y,
            Instruction::Rshift(x, y) => 0x8006 + 0x100 * x + 0x10 * y,
            Instruction::Lshift(x, y) => 0x800E + 0x100 * x + 0x10 * y,
            Instruction::SkipNeq(x, y) => 0x9000 + 0x100 * x + 0x10 * y,
            Instruction::SetIndex(n) => 0xA000 + n,
            Instruction::JumpOffset(n) => 0xB000 + n,
            Instruction::Random(x, nn) => 0xC000 + 0x100 * x + nn,
            Instruction::Display(x, y, n) => 0xD000 + 0x100 * x + 0x10 * y + n,
            Instruction::SkipIfPressed(x) => 0xE09E + 0x100 * x,
            Instruction::SkipIfNotPressed(x) => 0xE0A1 + 0x100 * x,
            Instruction::GetDelay(x) => 0xF007 + 0x100 * x,
            Instruction::GetKey(x) => 0xF00A + 0x100 * x,
            Instruction::SetDelay(x) => 0xF015 + 0x100 * x,
            Instruction::SetSound(x) => 0xF018 + 0x100 * x,
            Instruction::IndexAdd(x) => 0xF01E + 0x100 * x,
            Instruction::IndexFont(x) => 0xF029 + 0x100 * x,
            Instruction::ToDecimal(x) => 0xF033 + 0x100 * x,
            Instruction::WriteMemory(x) => 0xF055 + 0x100 * x,
            Instruction::ReadMemory(x) => 0xF065 + 0x100 * x,
        }
    }
}

/// Slices the address field out of a word.
fn address_field(opcode: u16) -> (nnn: usize)
    ensures
        nnn == field_nnn(opcode),
{
    assert(opcode & 0x0FFF == opcode % 0x1000) by (bit_vector);
    (opcode & 0x0FFF) as usize
}

/// Slices the first register field out of a word.
fn register_x(opcode: u16) -> (x: usize)
    ensures
        x == field_x(opcode),
{
    assert((opcode & 0x0F00) >> 8 == (opcode / 0x100) % 0x10) by (bit_vector);
    ((opcode & 0x0F00) >> 8) as usize
}

/// Slices the second register field out of a word.
fn register_y(opcode: u16) -> (y: usize)
    ensures
        y == field_y(opcode),
{
    assert((opcode & 0x00F0) >> 4 == (opcode / 0x10) % 0x10) by (bit_vector);
    ((opcode & 0x00F0) >> 4) as usize
}

/// Slices the four-bit immediate out of a word.
fn nibble_field(opcode: u16) -> (n: usize)
    ensures
        n == field_n(opcode),
{
    assert(opcode & 0x000F == opcode % 0x10) by (bit_vector);
    (opcode & 0x000F) as usize
}

/// Slices the eight-bit immediate out of a word.
fn byte_field(opcode: u16) -> (nn: u8)
    ensures
        nn == field_nn(opcode),
{
    assert(opcode & 0x00FF == opcode % 0x100) by (bit_vector);
    (opcode & 0x00FF) as u8
}

/// Decodes one instruction word.
///
/// Decoding is total: every word yields either the operation it stands for
/// or `None`, and the operands of a decoded operation are always in range.
pub fn decode(opcode: u16) -> (result: Option<Instruction>)
    ensures
        result == decoded(opcode),
        result matches Some(instruction) ==> instruction.well_formed(),
{
    assert(opcode & 0xF000 == (opcode / 0x1000) * 0x1000) by (bit_vector);
    let x = register_x(opcode);
    let y = register_y(opcode);
    let n = nibble_field(opcode);
    let nn = byte_field(opcode);
    let nnn = address_field(opcode);
    match opcode & 0xF000 {
        0x0000 => match opcode {
            0x00E0 => Some(Instruction::ClearScreen),
            0x00EE => Some(Instruction::Return),
            _ => None,
        },
        0x1000 => Some(Instruction::Jump(nnn)),
        0x2000 => Some(Instruction::Call(nnn)),
        0x3000 => Some(Instruction::SkipEqLiteral(x, nn)),
        0x4000 => Some(Instruction::SkipNeqLiteral(x, nn)),
        0x5000 => Some(Instruction::SkipEq(x, y)),
        0x9000 => Some(Instruction::SkipNeq(x, y)),
        0x6000 => Some(Instruction::SetLiteral(x, nn)),
        0x7000 => Some(Instruction::AddLiteral(x, nn)),
        0x8000 => match n {
            0x0 => Some(Instruction::SetRegister(x, y)),
            0x1 => Some(Instruction::Or(x, y)),
            0x2 => Some(Instruction::And(x, y)),
            0x3 => Some(Instruction::Xor(x, y)),
            0x4 => Some(Instruction::Add(x, y)),
            0x5 => Some(Instruction::Sub(x, y)),
            0x7 => Some(Instruction::Sub(y, x)),
            0x6 => Some(Instruction::Rshift(x, y)),
            0xE => Some(Instruction::Lshift(x, y)),
            _ => None,
        },
        0xA000 => Some(Instruction::SetIndex(nnn)),
        0xB000 => Some(Instruction::JumpOffset(nnn)),
        0xC000 => Some(Instruction::Random(x, nn)),
        0xD000 => Some(Instruction::Display(x, y, n)),
        0xE000 => match nn {
            0x9E => Some(Instruction::SkipIfPressed(x)),
            0xA1 => Some(Instruction::SkipIfNotPressed(x)),
            _ => None,
        },
        0xF000 => match nn {
            0x07 => Some(Instruction::GetDelay(x)),
            0x15 => Some(Instruction::SetDelay(x)),
            0x18 => Some(Instruction::SetSound(x)),
            0x1E => Some(Instruction::IndexAdd(x)),
            0x0A => Some(Instruction::GetKey(x)),
            0x29 => Some(Instruction::IndexFont(x)),
            0x33 => Some(Instruction::ToDecimal(x)),
            0x55 => Some(Instruction::WriteMemory(x)),
            0x65 => Some(Instruction::ReadMemory(x)),
            _ => None,
        },
        _ => None,
    }
}

/// Assembles an instruction of the address format.
fn address_word(class: u16, address: usize) -> (word: u16)
    requires
        class < 0x10,
        address < 0x1000,
    ensures
        word == 0x1000 * class + address,
{
    class * 0x1000 + address as u16
}

/// Assembles an instruction of the register-and-byte format.
fn literal_word(class: u16, x: usize, nn: u8) -> (word: u16)
    requires
        class < 0x10,
        x < 0x10,
    ensures
        word == 0x1000 * class + 0x100 * x + nn,
{
    class * 0x1000 + x as u16 * 0x100 + nn as u16
}

/// Assembles an instruction of the two-register format.
fn register_word(class: u16, x: usize, y: usize, n: usize) -> (word: u16)
    requires
        class < 0x10,
        x < 0x10,
        y < 0x10,
        n < 0x10,
    ensures
        word == 0x1000 * class + 0x100 * x + 0x10 * y + n,
{
    class * 0x1000 + x as u16 * 0x100 + y as u16 * 0x10 + n as u16
}

/// Encodes an instruction whose operands are in range as its word.
/// [`decode`] gives the instruction back.
pub fn encode(instruction: Instruction) -> (word: u16)
    requires
        instruction.well_formed(),
    ensures
        word == instruction.encoding(),
        decoded(word) == Some(instruction),
{
    proof {
        lemma_decode_encoding(instruction);
    }
    match instruction {
        Instruction::ClearScreen => 0x00E0,
        Instruction::Return => 0x00EE,
        Instruction::Jump(n) => address_word(0x1, n),
        Instruction::Call(n) => address_word(0x2, n),
        Instruction::SkipEqLiteral(x, nn) => literal_word(0x3, x, nn),
        Instruction::SkipNeqLiteral(x, nn) => literal_word(0x4, x, nn),
        Instruction::SkipEq(x, y) => register_word(0x5, x, y, 0x0),
        Instruction::SetLiteral(x, nn) => literal_word(0x6, x, nn),
        Instruction::AddLiteral(x, nn) => literal_word(0x7, x, nn),
        Instruction::SetRegister(x, y) => register_word(0x8, x, y, 0x0),
        Instruction::Or(x, y) => register_word(0x8, x, y, 0x1),
        Instruction::And(x, y) => register_word(0x8, x, y, 0x2),
        Instruction::Xor(x, y) => register_word(0x8, x, y, 0x3),
        Instruction::Add(x, y) => register_word(0x8, x, y, 0x4),
        Instruction::Sub(x, y) => register_word(0x8, x, y, 0x5),
        Instruction::Rshift(x, y) => register_word(0x8, x, y, 0x6),
        Instruction::Lshift(x, y) => register_word(0x8, x, y, 0xE),
        Instruction::SkipNeq(x, y) => register_word(0x9, x, y, 0x0),
        Instruction::SetIndex(n) => address_word(0xA, n),
        Instruction::JumpOffset(n) => address_word(0xB, n),
        Instruction::Random(x, nn) => literal_word(0xC, x, nn),
        Instruction::Display(x, y, n) => register_word(0xD, x, y, n),
        Instruction::SkipIfPressed(x) => literal_word(0xE, x, 0x9E),
        Instruction::SkipIfNotPressed(x) => literal_word(0xE, x, 0xA1),
        Instruction::GetDelay(x) => literal_word(0xF, x, 0x07),
        Instruction::GetKey(x) => literal_word(0xF, x, 0x0A),
        Instruction::SetDelay(x) => literal_word(0xF, x, 0x15),
        Instruction::SetSound(x) => literal_word(0xF, x, 0x18),
        Instruction::IndexAdd(x) => literal_word(0xF, x, 0x1E),
        Instruction::IndexFont(x) => literal_word(0xF, x, 0x29),
        Instruction::ToDecimal(x) => literal_word(0xF, x, 0x33),
        Instruction::WriteMemory(x) => literal_word(0xF, x, 0x55),
        Instruction::ReadMemory(x) => literal_word(0xF, x, 0x65),
    }
}

/// The fields of a word assembled from a class and an address.
proof fn lemma_fields_of_address_word(class: u16, nnn: u16, word: u16)
    by (bit_vector)
    requires
        class < 0x10,
        nnn < 0x1000,
        word == 0x1000 * class + nnn,
    ensures
        word / 0x1000 == class,
        word % 0x1000 == nnn,
{
}

/// The fields of a word assembled from a class, a register and a byte.
proof fn lemma_fields_of_literal_word(class: u16, x: u16, nn: u16, word: u16)
    by (bit_vector)
    requires
        class < 0x10,
        x < 0x10,
        nn < 0x100,
        word == 0x1000 * class + 0x100 * x + nn,
    ensures
        word / 0x1000 == class,
        (word / 0x100) % 0x10 == x,
        word % 0x100 == nn,
{
}

/// The fields of a word assembled from a class, two registers and a nibble.
proof fn lemma_fields_of_register_word(class: u16, x: u16, y: u16, n: u16, word: u16)
    by (bit_vector)
    requires
        class < 0x10,
        x < 0x10,
        y < 0x10,
        n < 0x10,
        word == 0x1000 * class + 0x100 * x + 0x10 * y + n,
    ensures
        word / 0x1000 == class,
        (word / 0x100) % 0x10 == x,
        (word / 0x10) % 0x10 == y,
        word % 0x10 == n,
{
}

/// Decoding the encoding of an instruction gives the instruction back, with
/// every operand unchanged.
pub proof fn lemma_decode_encoding(instruction: Instruction)
    requires
        instruction.well_formed(),
    ensures
        0 <= instruction.encoding() <= u16::MAX,
        decoded(instruction.encoding() as u16) == Some(instruction),
{
    let word = instruction.encoding() as u16;
    match instruction {
        Instruction::ClearScreen | Instruction::Return => {},
        Instruction::Jump(n) => lemma_fields_of_address_word(0x1, n as u16, word),
        Instruction::Call(n) => lemma_fields_of_address_word(0x2, n as u16, word),
        Instruction::SetIndex(n) => lemma_fields_of_address_word(0xA, n as u16, word),
        Instruction::JumpOffset(n) => lemma_fields_of_address_word(0xB, n as u16, word),
        Instruction::SkipEqLiteral(x, nn) => lemma_fields_of_literal_word(0x3, x as u16, nn as u16, word),
        Instruction::SkipNeqLiteral(x, nn) => lemma_fields_of_literal_word(0x4, x as u16, nn as u16, word),
        Instruction::SetLiteral(x, nn) => lemma_fields_of_literal_word(0x6, x as u16, nn as u16, word),
        Instruction::AddLiteral(x, nn) => lemma_fields_of_literal_word(0x7, x as u16, nn as u16, word),
        Instruction::Random(x, nn) => lemma_fields_of_literal_word(0xC, x as u16, nn as u16, word),
        Instruction::SkipEq(x, y) => lemma_fields_of_register_word(0x5, x as u16, y as u16, 0x0, word),
        Instruction::SkipNeq(x, y) => lemma_fields_of_register_word(0x9, x as u16, y as u16, 0x0, word),
        Instruction::SetRegister(x, y) => lemma_fields_of_register_word(0x8, x as u16, y as u16, 0x0, word),
        Instruction::Or(x, y) => lemma_fields_of_register_word(0x8, x as u16, y as u16, 0x1, word),
        Instruction::And(x, y) => lemma_fields_of_register_word(0x8, x as u16, y as u16, 0x2, word),
        Instruction::Xor(x, y) => lemma_fields_of_register_word(0x8, x as u16, y as u16, 0x3, word),
        Instruction::Add(x, y) => lemma_fields_of_register_word(0x8, x as u16, y as u16, 0x4, word),
        Instruction::Sub(x, y) => lemma_fields_of_register_word(0x8, x as u16, y as u16, 0x5, word),
        Instruction::Rshift(x, y) => lemma_fields_of_register_word(0x8, x as u16, y as u16, 0x6, word),
        Instruction::Lshift(x, y) => lemma_fields_of_register_word(0x8, x as u16, y as u16, 0xE, word),
        Instruction::Display(x, y, n) => lemma_fields_of_register_word(0xD, x as u16, y as u16, n as u16, word),
        Instruction::SkipIfPressed(x) => lemma_fields_of_literal_word(0xE, x as u16, 0x9E, word),
        Instruction::SkipIfNotPressed(x) => lemma_fields_of_literal_word(0xE, x as u16, 0xA1, word),
        Instruction::GetDelay(x) => lemma_fields_of_literal_word(0xF, x as u16, 0x07, word),
        Instruction::GetKey(x) => lemma_fields_of_literal_word(0xF, x as u16, 0x0A, word),
        Instruction::SetDelay(x) => lemma_fields_of_literal_word(0xF, x as u16, 0x15, word),
        Instruction::SetSound(x) => lemma_fields_of_literal_word(0xF, x as u16, 0x18, word),
        Instruction::IndexAdd(x) => lemma_fields_of_literal_word(0xF, x as u16, 0x1E, word),
        Instruction::IndexFont(x) => lemma_fields_of_literal_word(0xF, x as u16, 0x29, word),
        Instruction::ToDecimal(x) => lemma_fields_of_literal_word(0xF, x as u16, 0x33, word),
        Instruction::WriteMemory(x) => lemma_fields_of_literal_word(0xF, x as u16, 0x55, word),
        Instruction::ReadMemory(x) => lemma_fields_of_literal_word(0xF, x as u16, 0x65, word),
    }
}

/// A decoded instruction is well formed.
pub proof fn lemma_decoded_well_formed(word: u16)
    ensures
        decoded(word) matches Some(instruction) ==> instruction.well_formed(),
{
}

} // verus!
