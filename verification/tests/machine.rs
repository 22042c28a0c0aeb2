use asm_sim::ast::{RegRef, RegWidth, Register, Size};
use asm_sim::cpu::alu;
use asm_sim::cpu::memory::Memory;
use asm_sim::cpu::registers::{Flags, Registers};
use asm_sim::error::SimError;
use asm_sim::program::{DATA_BASE, MEM_SIZE, STACK_TOP, TEXT_BASE};

fn flags(cf: bool, zf: bool, sf: bool, of: bool, pf: bool) -> Flags {
    Flags { cf, zf, sf, of, pf }
}

#[test]
fn alu_add_sets_carry_and_overflow() {
    let r = alu::add(0xFF, 1, 8);
    assert_eq!(r.val, 0);
    assert_eq!(r.flags, flags(true, true, false, false, true));
    let r = alu::add(0x7F, 1, 8);
    assert_eq!(r.val, 0x80);
    assert_eq!(r.flags, flags(false, false, true, true, false));
    let r = alu::add(u64::MAX, 2, 64);
    assert_eq!(r.val, 1);
    assert!(r.flags.cf && !r.flags.of);
}

#[test]
fn alu_sub_sets_borrow_and_overflow() {
    let r = alu::sub(0, 1, 64);
    assert_eq!(r.val, u64::MAX);
    assert_eq!(r.flags, flags(true, false, true, false, true));
    let r = alu::sub(0x80, 1, 8);
    assert_eq!(r.val, 0x7F);
    assert!(!r.flags.cf && r.flags.of && !r.flags.sf);
    let r = alu::sub(5, 5, 32);
    assert_eq!(r.val, 0);
    assert!(r.flags.zf && !r.flags.cf);
}

#[test]
fn alu_carry_chains() {
    let r = alu::add_with_carry(0xFFFF_FFFF, 0, true, 32);
    assert_eq!(r.val, 0);
    assert!(r.flags.cf && r.flags.zf);
    let r = alu::sub_with_borrow(0, 0, true, 16);
    assert_eq!(r.val, 0xFFFF);
    assert!(r.flags.cf && r.flags.sf);
    let r = alu::add_with_carry(2, 3, false, 64);
    assert_eq!(r.val, 5);
    assert!(!r.flags.cf);
}

#[test]
fn alu_logic_clears_carry_and_overflow() {
    let r = alu::and(0xF0F0, 0x0FF0, 16);
    assert_eq!(r.val, 0x00F0);
    assert_eq!(r.flags, flags(false, false, false, false, true));
    let r = alu::or(0x80, 0x01, 8);
    assert_eq!(r.val, 0x81);
    assert_eq!(r.flags, flags(false, false, true, false, true));
    let r = alu::xor(0xABCD, 0xABCD, 64);
    assert_eq!(r.val, 0);
    assert_eq!(r.flags, flags(false, true, false, false, true));
    let r = alu::and(0x7, 0x1, 8);
    assert!(!r.flags.pf);
}

#[test]
fn alu_shifts() {
    let r = alu::shl(0x81, 1, 8);
    assert_eq!(r.val, 0x02);
    assert!(r.flags.cf && r.flags.of);
    let r = alu::shr(0x81, 1, 8);
    assert_eq!(r.val, 0x40);
    assert!(r.flags.cf && r.flags.of);
    let r = alu::sar(0x80, 3, 8);
    assert_eq!(r.val, 0xF0);
    assert!(!r.flags.cf && r.flags.sf && !r.flags.of);
    let r = alu::sar((-256i64) as u64, 4, 64);
    assert_eq!(r.val, (-16i64) as u64);
    let r = alu::shl(5, 64, 64);
    assert_eq!(r.val, 5);
    assert!(!r.flags.cf);
}

#[test]
fn alu_rotations() {
    let r = alu::rol(0x81, 1, 8);
    assert_eq!(r.val, 0x03);
    assert!(r.flags.cf);
    let r = alu::ror(0x81, 1, 8);
    assert_eq!(r.val, 0xC0);
    assert!(r.flags.cf);
    let r = alu::ror(alu::rol(0x1234_5678, 12, 32).val, 12, 32);
    assert_eq!(r.val, 0x1234_5678);
    let r = alu::rol(0x8000_0000_0000_0001, 65, 64);
    assert_eq!(r.val, 3);
}

#[test]
fn alu_neg() {
    let r = alu::neg(1, 8);
    assert_eq!(r.val, 0xFF);
    assert!(r.flags.cf && r.flags.sf && !r.flags.of);
    let r = alu::neg(0, 64);
    assert_eq!(r.val, 0);
    assert!(!r.flags.cf && r.flags.zf);
    let r = alu::neg(0x80, 8);
    assert_eq!(r.val, 0x80);
    assert!(r.flags.of);
}

#[test]
fn alu_widths() {
    assert_eq!(alu::bits_for_width(RegWidth::ByteHi), 8);
    assert_eq!(alu::bits_for_width(RegWidth::Dword), 32);
    assert_eq!(alu::bits_for_size(Size::Word), 16);
    assert_eq!(alu::bits_for_size(Size::Qword), 64);
    assert_eq!(Size::Dword.bytes(), 4);
    assert_eq!(Register::R13.index(), 13);
}

#[test]
fn registers_partial_writes() {
    let mut regs = Registers::new();
    regs.write_named(Register::Rax, 0x1122_3344_5566_7788);
    regs.write(RegRef { reg: Register::Rax, width: RegWidth::Byte }, 0xFF);
    assert_eq!(regs.read_named(Register::Rax), 0x1122_3344_5566_77FF);
    regs.write(RegRef { reg: Register::Rax, width: RegWidth::ByteHi }, 0xAB);
    assert_eq!(regs.read_named(Register::Rax), 0x1122_3344_5566_ABFF);
    assert_eq!(regs.read(RegRef { reg: Register::Rax, width: RegWidth::ByteHi }), 0xAB);
    regs.write(RegRef { reg: Register::Rax, width: RegWidth::Word }, 0x1_2345);
    assert_eq!(regs.read_named(Register::Rax), 0x1122_3344_5566_2345);
    regs.write(RegRef { reg: Register::Rax, width: RegWidth::Dword }, 0xFFFF_FFFF_0000_0001);
    assert_eq!(regs.read_named(Register::Rax), 1);
    assert_eq!(regs.read(RegRef { reg: Register::Rax, width: RegWidth::Dword }), 1);
}

#[test]
fn memory_roundtrip_little_endian() {
    let mut mem = Memory::new();
    assert_eq!(mem.data.len(), MEM_SIZE);
    mem.write_u64(DATA_BASE, 0x0102_0304_0506_0708, 0).unwrap();
    assert_eq!(mem.read_u8(DATA_BASE, 0).unwrap(), 0x08);
    assert_eq!(mem.read_u16(DATA_BASE, 0).unwrap(), 0x0708);
    assert_eq!(mem.read_u32(DATA_BASE + 4, 0).unwrap(), 0x0102_0304);
    assert_eq!(mem.read_u64(DATA_BASE, 0).unwrap(), 0x0102_0304_0506_0708);
    mem.write_u16(STACK_TOP - 2, 0xBEEF, 0).unwrap();
    mem.write_u32(STACK_TOP - 8, 0xDEAD_BEEF, 0).unwrap();
    mem.write_u8(STACK_TOP - 9, 7, 0).unwrap();
    assert_eq!(mem.read_bytes(STACK_TOP - 9, 3, 0).unwrap(), &[7, 0xEF, 0xBE][..]);
    mem.write_bytes(DATA_BASE + 100, b"xyz", 0).unwrap();
    assert_eq!(mem.read_bytes(DATA_BASE + 100, 3, 0).unwrap(), &b"xyz"[..]);
}

#[test]
fn memory_faults() {
    let mut mem = Memory::new();
    match mem.write_u8(TEXT_BASE + 4, 1, 0x1234) {
        Err(e) => assert_eq!(e.to_string(), "runtime error at rip=0x1234: segfault: write to text segment at 0x1004"),
        Ok(()) => panic!("text is read-only"),
    }
    assert!(mem.read_u8(TEXT_BASE + 4, 0).is_ok());
    match mem.read_u64(MEM_SIZE as u64 - 4, 9) {
        Err(SimError::Runtime { rip, msg }) => {
            assert_eq!(rip, 9);
            assert_eq!(msg, "segfault: address 0xfffffc out of bounds");
        },
        _ => panic!("out of bounds"),
    }
    assert!(mem.read_u8(u64::MAX, 0).is_err());
    assert!(mem.write_bytes(MEM_SIZE as u64 - 1, b"ab", 0).is_err());
    assert!(mem.read_bytes(MEM_SIZE as u64 - 2, 2, 0).is_ok());
}
