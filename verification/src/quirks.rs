//! Compatibility switches.
//!
//! Three instruction families have behaved differently on different
//! interpreters. None of the variants is built in: a machine carries a
//! [`Quirks`] value and consults it whenever it executes such an instruction,
//! never while decoding.

use vstd::prelude::*;

verus! {

/// Which register the two shift instructions read.
#[derive(Clone, Copy, Debug, PartialEq, Eq, Structural)]
pub enum ShiftSource {
    /// `X` is shifted in place and `Y` is ignored.
    InPlace,
    /// `Y` is shifted and the result stored into `X`.
    FromY,
}

/// Which register the jump-with-offset instruction adds to its address.
#[derive(Clone, Copy, Debug, PartialEq, Eq, Structural)]
pub enum JumpBase {
    /// Register 0.
    RegisterZero,
    /// The register named by the top nibble of the address field.
    AddressedRegister,
}

/// Whether adding to the index register reports overflow in register `0xF`.
#[derive(Clone, Copy, Debug, PartialEq, Eq, Structural)]
pub enum IndexCarry {
    /// Register `0xF` is left alone.
    Ignored,
    /// Register `0xF` is set to 1 when the sum leaves the address space.
    Flagged,
}

/// What becomes of an address that leaves the 4096-byte address space, both
/// when the index register is advanced and when a memory instruction
/// reaches past the end of memory.
#[derive(Clone, Copy, Debug, PartialEq, Eq, Structural)]
pub enum AddressOverflow {
    /// The address wraps around to the start of memory.
    Wrap,
    /// The address stays at the last byte of memory.
    Saturate,
}

/// The compatibility configuration of one machine.
#[derive(Clone, Copy, Debug, PartialEq, Eq, Structural)]
pub struct Quirks {
    pub shift_source: ShiftSource,
    pub jump_base: JumpBase,
    pub index_carry: IndexCarry,
    pub address_overflow: AddressOverflow,
}

impl Quirks {
    /// In-place shifts, jumps offset by register 0, a flagged and wrapping
    /// index register.
    pub open spec fn standard() -> Quirks {
        Quirks {
            shift_source: ShiftSource::InPlace,
            jump_base: JumpBase::RegisterZero,
            index_carry: IndexCarry::Flagged,
            address_overflow: AddressOverflow::Wrap,
        }
    }
}

impl Default for Quirks {
    fn default() -> (quirks: Quirks)
        ensures
            quirks == Quirks::standard(),
    {
        Quirks {
            shift_source: ShiftSource::InPlace,
            jump_base: JumpBase::RegisterZero,
            index_carry: IndexCarry::Flagged,
            address_overflow: AddressOverflow::Wrap,
        }
    }
}

} // verus!
