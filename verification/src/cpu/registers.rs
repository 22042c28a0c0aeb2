//! The general-purpose register file, instruction pointer and flags.
use vstd::prelude::*;
use crate::ast::{reg_index, RegRef, RegWidth, Register};

verus! {

#[derive(Debug, Clone, Copy, PartialEq, Eq, Structural)]
pub struct Flags {
    pub cf: bool,
    pub zf: bool,
    pub sf: bool,
    pub of: bool,
    pub pf: bool,
}

impl Default for Flags {
    /// All flags clear.
    fn default() -> (f: Flags)
        ensures f == clear_flags(),
    {
        Flags { cf: false, zf: false, sf: false, of: false, pf: false }
    }
}

/// All flags clear.
pub open spec fn clear_flags() -> Flags {
    Flags { cf: false, zf: false, sf: false, of: false, pf: false }
}

/// The part of a 64-bit register value that a reference of width `w` reads.
pub open spec fn slot_read(raw: u64, w: RegWidth) -> u64 {
    match w {
        RegWidth::Qword => raw,
        RegWidth::Dword => raw & 0xFFFF_FFFF,
        RegWidth::Word => raw & 0xFFFF,
        RegWidth::Byte => raw & 0xFF,
        RegWidth::ByteHi => (raw >> 8u64) & 0xFF,
    }
}

/// A 64-bit register value after a write of `val` through a reference of width `w`:
/// 64-bit writes replace it, 32-bit writes zero-extend, narrower writes keep the other bits.
pub open spec fn slot_write(raw: u64, w: RegWidth, val: u64) -> u64 {
    match w {
        RegWidth::Qword => val,
        RegWidth::Dword => val & 0xFFFF_FFFF,
        RegWidth::Word => (raw & !0xFFFFu64) | (val & 0xFFFF),
        RegWidth::Byte => (raw & !0xFFu64) | (val & 0xFF),
        RegWidth::ByteHi => (raw & !0xFF00u64) | ((val & 0xFF) << 8u64),
    }
}

#[derive(Debug, Clone, Copy)]
pub struct Registers {
    pub gpr: [u64; 16],
    pub rip: u64,
    pub flags: Flags,
}

/// The register file as a sequence of sixteen 64-bit values, the instruction pointer and flags.
pub struct RegsV {
    pub gpr: Seq<u64>,
    pub rip: u64,
    pub flags: Flags,
}

impl RegsV {
    /// The value that reading `r` gives.
    pub open spec fn value(self, r: RegRef) -> u64 {
        slot_read(self.gpr[reg_index(r.reg)], r.width)
    }

    /// The register file after writing `val` through `r`.
    pub open spec fn written(self, r: RegRef, val: u64) -> RegsV {
        RegsV { gpr: self.gpr.update(reg_index(r.reg), slot_write(self.gpr[reg_index(r.reg)], r.width, val)), ..self }
    }

    /// The register file after storing `val` in the whole of register `r`.
    pub open spec fn set(self, r: Register, val: u64) -> RegsV {
        RegsV { gpr: self.gpr.update(reg_index(r), val), ..self }
    }

    /// The whole 64-bit value of register `r`.
    pub open spec fn get(self, r: Register) -> u64 {
        self.gpr[reg_index(r)]
    }
}

impl View for Registers {
    type V = RegsV;

    open spec fn view(&self) -> RegsV {
        RegsV { gpr: self.gpr@, rip: self.rip, flags: self.flags }
    }
}

impl Registers {
    pub fn new() -> (r: Self)
        ensures
            r@ == (RegsV { gpr: Seq::new(16, |i: int| 0u64), rip: 0, flags: clear_flags() }),
    {
        let r = Registers {
            gpr: [0u64, 0, 0, 0, 0, 0, 0, 0, 0, 0, 0, 0, 0, 0, 0, 0],
            rip: 0,
            flags: Flags { cf: false, zf: false, sf: false, of: false, pf: false },
        };
        assert(r.gpr@ =~= Seq::new(16, |i: int| 0u64));
        r
    }

    pub fn read(&self, r: RegRef) -> (v: u64)
        ensures v == self@.value(r),
    {
        let raw = self.gpr[r.reg.index()];
        match r.width {
            RegWidth::Qword => raw,
            RegWidth::Dword => raw & 0xFFFF_FFFF,
            RegWidth::Word => raw & 0xFFFF,
            RegWidth::Byte => raw & 0xFF,
            RegWidth::ByteHi => (raw >> 8) & 0xFF,
        }
    }

    pub fn write(&mut self, r: RegRef, val: u64)
        ensures
            final(self)@ == old(self)@.written(r, val),
    {
        let i = r.reg.index();
        let raw = self.gpr[i];
        let new_val = match r.width {
            RegWidth::Qword => val,
            RegWidth::Dword => val & 0xFFFF_FFFF,
            RegWidth::Word => (raw & !0xFFFF) | (val & 0xFFFF),
            RegWidth::Byte => (raw & !0xFF) | (val & 0xFF),
            RegWidth::ByteHi => (raw & !0xFF00) | ((val & 0xFF) << 8),
        };
        self.gpr[i] = new_val;
    }

    pub fn read_named(&self, r: Register) -> (v: u64)
        ensures v == self@.get(r),
    {
        self.gpr[r.index()]
    }

    pub fn write_named(&mut self, r: Register, val: u64)
        ensures
            final(self)@ == old(self)@.set(r, val),
    {
        self.gpr[r.index()] = val;
    }
}

/// The part of a 64-bit value that a read of width `w` gives back after a write of `val`.
pub open spec fn written_part(w: RegWidth, val: u64) -> u64 {
    match w {
        RegWidth::Qword => val,
        RegWidth::Dword => val & 0xFFFF_FFFF,
        RegWidth::Word => val & 0xFFFF,
        RegWidth::Byte | RegWidth::ByteHi => val & 0xFF,
    }
}

/// Reading a register back through the reference it was written through gives the written
/// value cut to the reference's width, and every other register keeps its value.
pub proof fn law_read_after_write(regs: RegsV, r: RegRef, val: u64, other: Register)
    requires regs.gpr.len() == 16,
    ensures
        regs.written(r, val).value(r) == written_part(r.width, val),
        other != r.reg ==> regs.written(r, val).get(other) == regs.get(other),
        regs.written(r, val).rip == regs.rip,
        regs.written(r, val).flags == regs.flags,
{
    let raw = regs.gpr[reg_index(r.reg)];
    assert(
        (val & 0xFFFF_FFFF) & 0xFFFF_FFFF == val & 0xFFFF_FFFF
        && ((raw & !0xFFFFu64) | (val & 0xFFFF)) & 0xFFFF == val & 0xFFFF
        && ((raw & !0xFFu64) | (val & 0xFF)) & 0xFF == val & 0xFF
        && (((raw & !0xFF00u64) | ((val & 0xFF) << 8u64)) >> 8u64) & 0xFF == val & 0xFF
    ) by (bit_vector);
    assert(reg_index(other) != reg_index(r.reg) || other == r.reg);
}

/// A 32-bit write clears the upper half of the 64-bit register; 16- and 8-bit writes keep
/// every bit outside the written part.
pub proof fn law_write_keeps_other_bits(regs: RegsV, r: RegRef, val: u64)
    requires regs.gpr.len() == 16,
    ensures
        r.width == RegWidth::Dword ==> regs.written(r, val).get(r.reg) >> 32u64 == 0,
        r.width == RegWidth::Word ==> regs.written(r, val).get(r.reg) & !0xFFFFu64 == regs.get(r.reg) & !0xFFFFu64,
        r.width == RegWidth::Byte ==> regs.written(r, val).get(r.reg) & !0xFFu64 == regs.get(r.reg) & !0xFFu64,
        r.width == RegWidth::ByteHi ==> regs.written(r, val).get(r.reg) & !0xFF00u64 == regs.get(r.reg) & !0xFF00u64,
{
    let raw = regs.gpr[reg_index(r.reg)];
    assert(
        (val & 0xFFFF_FFFF) >> 32u64 == 0
        && ((raw & !0xFFFFu64) | (val & 0xFFFF)) & !0xFFFFu64 == raw & !0xFFFFu64
        && ((raw & !0xFFu64) | (val & 0xFF)) & !0xFFu64 == raw & !0xFFu64
        && ((raw & !0xFF00u64) | ((val & 0xFF) << 8u64)) & !0xFF00u64 == raw & !0xFF00u64
    ) by (bit_vector);
}

} // verus!
