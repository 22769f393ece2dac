//! The opcode decoder: a pure view over one raw 16-bit instruction word.

use vstd::prelude::*;

verus! {

/// The four 4-bit fields of an instruction word, most significant first,
/// and the derived operand forms, as spec-level functions. The executable
/// accessors on [`Instruction`] are proved to return exactly these values.
pub open spec fn nib1_of(w: u16) -> u16 {
    w / 0x1000
}

/// Second nibble, used as the register index `X`.
pub open spec fn nib2_of(w: u16) -> u16 {
    (w / 0x100) % 0x10
}

/// Third nibble, used as the register index `Y`.
pub open spec fn nib3_of(w: u16) -> u16 {
    (w / 0x10) % 0x10
}

/// Fourth nibble, used as the small count `N`.
pub open spec fn nib4_of(w: u16) -> u16 {
    w % 0x10
}

/// Low byte, used as the immediate `NN`.
pub open spec fn imm_of(w: u16) -> u16 {
    w % 0x100
}

/// Low 12 bits, used as the address `NNN`.
pub open spec fn addr_of(w: u16) -> u16 {
    w % 0x1000
}

/// One raw CHIP-8 instruction word. Any 16-bit pattern is representable,
/// including patterns with no assigned meaning; every accessor is total.
pub struct Instruction {
    pub raw: u16,
}

impl Instruction {
    /// The first (most significant) nibble, which selects the instruction family.
    pub fn nibble1(&self) -> (r: u8)
        ensures
            r == nib1_of(self.raw),
    {
        (self.raw / 0x1000) as u8
    }

    /// The second nibble.
    pub fn nibble2(&self) -> (r: u8)
        ensures
            r == nib2_of(self.raw),
    {
        ((self.raw / 0x100) % 0x10) as u8
    }

    /// The third nibble.
    pub fn nibble3(&self) -> (r: u8)
        ensures
            r == nib3_of(self.raw),
    {
        ((self.raw / 0x10) % 0x10) as u8
    }

    /// The fourth (least significant) nibble.
    pub fn nibble4(&self) -> (r: u8)
        ensures
            r == nib4_of(self.raw),
    {
        (self.raw % 0x10) as u8
    }

    /// The register index `X`, drawn from the second nibble; always below 16.
    pub fn x(&self) -> (r: usize)
        ensures
            r == nib2_of(self.raw),
            r < 16,
    {
        ((self.raw / 0x100) % 0x10) as usize
    }

    /// The register index `Y`, drawn from the third nibble; always below 16.
    pub fn y(&self) -> (r: usize)
        ensures
            r == nib3_of(self.raw),
            r < 16,
    {
        ((self.raw / 0x10) % 0x10) as usize
    }

    /// The count `N`, drawn from the fourth nibble; always below 16.
    pub fn n(&self) -> (r: u8)
        ensures
            r == nib4_of(self.raw),
            r < 16,
    {
        (self.raw % 0x10) as u8
    }

    /// The 8-bit immediate `NN`.
    pub fn nn(&self) -> (r: u8)
        ensures
            r == imm_of(self.raw),
    {
        (self.raw % 0x100) as u8
    }

    /// The 12-bit address `NNN`; always below 0x1000.
    pub fn nnn(&self) -> (r: u16)
        ensures
            r == addr_of(self.raw),
            r < 0x1000,
    {
        self.raw % 0x1000
    }
}

} // verus!
