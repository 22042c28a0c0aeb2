//! Execution of one instruction against the registers, memory and system-call buffers.
use vstd::prelude::*;
use vstd::hash_map::StringHashMap;
use crate::ast::{Instruction, MemAddr, Op, Operand, RegRef, RegWidth, Register, Size};
use crate::cpu::alu::{self, modulus, AluResult};
use crate::cpu::memory::{le_bytes, Memory};
use crate::cpu::registers::{Flags, Registers, RegsV};
use crate::cpu::semantics::{abs, access_bits, address_of, reg_part, mul_regs, imul_regs, div_regs, idiv_regs, arity_message, alu_result, binary_spec, condition, default_width, div_spec, execute_spec, is_conditional, jump_spec, jump_target, lookup, move_spec, mul_spec, pair_bits, read_value, stack_spec, trunc_div, trunc_rem, two64, unary_spec, width_size, wrap64, write_value, IoV, MachineV};
use crate::cpu::syscall::SyscallIo;
use crate::error::{Fault, SimError};
use crate::show::{op_text, operand_string};
use crate::text::{concat2, concat3, decimal, owned};

verus! {

/// The result of an execution agrees with an outcome: the same value, or a runtime error at
/// `rip` with the same message.
pub open spec fn agrees<T>(r: Result<T, SimError>, o: Result<T, Seq<char>>, rip: u64) -> bool {
    match o {
        Ok(v) => r matches Ok(x) && x == v,
        Err(m) => r matches Err(e) && e@ == (Fault::Runtime { rip, msg: m }),
    }
}

/// The state that the registers, memory and buffers hold.
pub open spec fn machine(regs: Registers, mem: Memory, io: IoV) -> MachineV {
    MachineV { regs: regs@, mem: mem.data@, io }
}

/// Memory keeps its size and its segment bases.
pub open spec fn same_layout(m1: Memory, m2: Memory) -> bool {
    &&& m2.wf()
    &&& m2.text_start == m1.text_start
    &&& m2.data_start == m1.data_start
    &&& m2.stack_start == m1.stack_start
}

fn runtime(rip: u64, msg: String) -> (e: SimError)
    ensures e@ == (Fault::Runtime { rip, msg: msg@ }),
{
    SimError::Runtime { rip, msg }
}

proof fn lemma_i64_as_u64(x: i64)
    ensures x as u64 == wrap64(x as int),
{
    assert(x as u64 as int == if x < 0 { x as int + 0x1_0000_0000_0000_0000 } else { x as int }) by (bit_vector);
    if x < 0 {
        vstd::arithmetic::div_mod::lemma_mod_add_multiples_vanish(x as int, two64());
        vstd::arithmetic::div_mod::lemma_small_mod((x as int + two64()) as nat, two64() as nat);
    } else {
        vstd::arithmetic::div_mod::lemma_small_mod(x as nat, two64() as nat);
    }
}

proof fn lemma_wrap_small(x: u64)
    ensures wrap64(x as int) == x,
{
    vstd::arithmetic::div_mod::lemma_small_mod(x as nat, two64() as nat);
}

/// Wrapping addition of a reduced value is addition modulo 2^64.
proof fn lemma_wrap_add(a: int, b: int)
    ensures wrap64(wrap64(a) as int + wrap64(b) as int) == wrap64(a + b),
{
    vstd::arithmetic::div_mod::lemma_add_mod_noop(a, b, two64());
}

proof fn lemma_wrapping_add(x: u64, y: u64)
    ensures x.wrapping_add(y) == wrap64(x as int + y as int),
{
    if x as int + y as int >= two64() {
        vstd::arithmetic::div_mod::lemma_mod_sub_multiples_vanish(x as int + y as int, two64());
        vstd::arithmetic::div_mod::lemma_small_mod((x as int + y as int - two64()) as nat, two64() as nat);
    } else {
        vstd::arithmetic::div_mod::lemma_small_mod((x as int + y as int) as nat, two64() as nat);
    }
}

proof fn lemma_wrapping_sub(x: u64, y: u64)
    ensures x.wrapping_sub(y) == wrap64(x as int - y as int),
{
    if x < y {
        vstd::arithmetic::div_mod::lemma_mod_add_multiples_vanish(x as int - y as int, two64());
        vstd::arithmetic::div_mod::lemma_small_mod((x as int - y as int + two64()) as nat, two64() as nat);
    } else {
        vstd::arithmetic::div_mod::lemma_small_mod((x as int - y as int) as nat, two64() as nat);
    }
}

fn resolve_label(name: &String, symbols: &StringHashMap<i64>, rip: u64) -> (r: Result<u64, SimError>)
    ensures agrees(r, lookup(symbols@, name@), rip),
{
    match symbols.get(name.as_str()) {
        Some(v) => Ok(*v as u64),
        None => Err(runtime(rip, concat3("undefined symbol '", name.as_str(), "'"))),
    }
}

fn effective_addr(m: &MemAddr, regs: &Registers, symbols: &StringHashMap<i64>, rip: u64) -> (r: Result<u64, SimError>)
    ensures agrees(r, address_of(m@, regs@, symbols@), rip),
{
    let label_base: u64 = match &m.label {
        Some(name) => resolve_label(name, symbols, rip)?,
        None => 0,
    };
    let base: u64 = match m.base {
        Some(r) => regs.read(r),
        None => 0,
    };
    let idx: u64 = match m.index {
        Some(r) => regs.read(r).wrapping_mul(m.scale as u64),
        None => 0,
    };
    let a1 = label_base.wrapping_add(base);
    let a2 = a1.wrapping_add(idx);
    let addr = a2.wrapping_add(m.disp as u64);
    proof {
        let ghost lb: int = match m@.label { Some(n) => symbols@[n] as int, None => 0 };
        let ghost bi: int = match m@.base { Some(r) => regs@.value(r) as int, None => 0 };
        let ghost ii: int = match m@.index { Some(r) => regs@.value(r) as int * m.scale as int, None => 0 };
        if m.label.is_some() {
            lemma_i64_as_u64(symbols@[m@.label.unwrap()]);
        } else {
            lemma_wrap_small(0);
        }
        lemma_wrap_small(base);
        lemma_wrap_small(idx);
        assert(idx == wrap64(ii));
        lemma_i64_as_u64(m.disp);
        lemma_wrapping_add(label_base, base);
        lemma_wrap_add(lb, bi);
        lemma_wrapping_add(a1, idx);
        lemma_wrap_add(lb + bi, ii);
        lemma_wrapping_add(a2, m.disp as u64);
        lemma_wrap_add(lb + bi + ii, m.disp as int);
    }
    Ok(addr)
}

fn width_to_size(w: RegWidth) -> (s: Size)
    ensures s == width_size(w),
{
    match w {
        RegWidth::Byte | RegWidth::ByteHi => Size::Byte,
        RegWidth::Word => Size::Word,
        RegWidth::Dword => Size::Dword,
        RegWidth::Qword => Size::Qword,
    }
}

fn default_width_of(op: &Operand) -> (w: RegWidth)
    ensures w == default_width(op@),
{
    match op {
        Operand::Register(r) => r.width,
        _ => RegWidth::Qword,
    }
}

fn operand_bits(dst: &Operand, src: &Operand) -> (b: u32)
    ensures
        b == pair_bits(dst@, src@),
        1 <= b <= 64,
{
    match dst {
        Operand::Register(r) => alu::bits_for_width(r.width),
        Operand::Memory(m) => match m.size {
            Some(s) => alu::bits_for_size(s),
            None => match src {
                Operand::Register(r) => alu::bits_for_width(r.width),
                _ => 64,
            },
        },
        _ => 64,
    }
}

fn access_bits_of(op: &Operand) -> (b: u32)
    ensures
        b == access_bits(op@),
        b == 8 || b == 16 || b == 32 || b == 64,
{
    match op {
        Operand::Register(r) => alu::bits_for_width(r.width),
        Operand::Memory(m) => match m.size {
            Some(s) => alu::bits_for_size(s),
            None => 64,
        },
        _ => 64,
    }
}

/// Reads an operand: a register, an immediate, a label's value or memory.
pub fn read_operand(op: &Operand, regs: &Registers, mem: &Memory, symbols: &StringHashMap<i64>, default_width: RegWidth) -> (r: Result<u64, SimError>)
    requires mem.wf(),
    ensures agrees(r, read_value(op@, regs@, mem.data@, symbols@, default_width), regs.rip),
{
    let rip = regs.rip;
    match op {
        Operand::Register(r) => Ok(regs.read(*r)),
        Operand::Immediate(n) => Ok(*n as u64),
        Operand::Label(name) => resolve_label(name, symbols, rip),
        Operand::Memory(m) => {
            let addr = effective_addr(m, regs, symbols, rip)?;
            let size = match m.size {
                Some(s) => s,
                None => width_to_size(default_width),
            };
            match size {
                Size::Byte => {
                    let v = mem.read_u8(addr, rip)?;
                    Ok(v as u64)
                },
                Size::Word => {
                    let v = mem.read_u16(addr, rip)?;
                    Ok(v as u64)
                },
                Size::Dword => {
                    let v = mem.read_u32(addr, rip)?;
                    Ok(v as u64)
                },
                Size::Qword => mem.read_u64(addr, rip),
            }
        },
    }
}

/// The bytes stored for a narrowed value are those of the value itself.
proof fn lemma_le_bytes_narrow(val: u64)
    ensures
        le_bytes(val as u8 as u64, 1) == le_bytes(val, 1),
        le_bytes(val as u16 as u64, 2) == le_bytes(val, 2),
        le_bytes(val as u32 as u64, 4) == le_bytes(val, 4),
{
    assert(
        (((val as u8 as u64) >> 0u64) & 0xFF) == ((val >> 0u64) & 0xFF)
        && (((val as u16 as u64) >> 0u64) & 0xFF) == ((val >> 0u64) & 0xFF)
        && (((val as u16 as u64) >> 8u64) & 0xFF) == ((val >> 8u64) & 0xFF)
        && (((val as u32 as u64) >> 0u64) & 0xFF) == ((val >> 0u64) & 0xFF)
        && (((val as u32 as u64) >> 8u64) & 0xFF) == ((val >> 8u64) & 0xFF)
        && (((val as u32 as u64) >> 16u64) & 0xFF) == ((val >> 16u64) & 0xFF)
        && (((val as u32 as u64) >> 24u64) & 0xFF) == ((val >> 24u64) & 0xFF)
    ) by (bit_vector);
    assert(le_bytes(val as u8 as u64, 1) =~= le_bytes(val, 1));
    assert(le_bytes(val as u16 as u64, 2) =~= le_bytes(val, 2));
    assert(le_bytes(val as u32 as u64, 4) =~= le_bytes(val, 4));
}

/// Writes a value to a register or memory operand; other operands are an error.
fn write_dst(op: &Operand, val: u64, regs: &mut Registers, mem: &mut Memory, symbols: &StringHashMap<i64>, default_width: RegWidth) -> (r: Result<(), SimError>)
    requires old(mem).wf(),
    ensures
        same_layout(*old(mem), *final(mem)),
        match write_value(op@, val, old(regs)@, old(mem).data@, symbols@, default_width) {
            Ok((rv, mv)) => r is Ok && final(regs)@ == rv && final(mem).data@ == mv,
            Err(m) => agrees(r, Err::<(), Seq<char>>(m), old(regs).rip) && final(regs)@ == old(regs)@
                && final(mem).data@ == old(mem).data@,
        },
{
    let rip = regs.rip;
    match op {
        Operand::Register(r) => {
            regs.write(*r, val);
            Ok(())
        },
        Operand::Memory(m) => {
            let addr = effective_addr(m, regs, symbols, rip)?;
            let size = match m.size {
                Some(s) => s,
                None => width_to_size(default_width),
            };
            proof { lemma_le_bytes_narrow(val); }
            match size {
                Size::Byte => mem.write_u8(addr, val as u8, rip),
                Size::Word => mem.write_u16(addr, val as u16, rip),
                Size::Dword => mem.write_u32(addr, val as u32, rip),
                Size::Qword => mem.write_u64(addr, val, rip),
            }
        },
        _ => Err(runtime(rip, owned("invalid destination operand"))),
    }
}

fn arity_error(op: Op, n: u64, got: usize, rip: u64) -> (e: SimError)
    ensures e@ == (Fault::Runtime { rip, msg: arity_message(op, n as nat, got as nat) }),
{
    let head = concat3(op_text(op), " requires ", decimal(n).as_str());
    runtime(rip, concat3(head.as_str(), " operand(s), got ", decimal(got as u64).as_str()))
}

/// The outcome and the state after an instruction agree with its specification.
pub open spec fn follows(r: Result<bool, SimError>, spec: (Result<bool, Seq<char>>, MachineV), rip: u64, regs: Registers, mem: Memory, io: IoV) -> bool {
    &&& agrees(r, spec.0, rip)
    &&& machine(regs, mem, io) == spec.1
}

#[verifier::spinoff_prover]
fn exec_move(instr: &Instruction, regs: &mut Registers, mem: &mut Memory, symbols: &StringHashMap<i64>, Ghost(io): Ghost<IoV>) -> (r: Result<bool, SimError>)
    requires
        old(mem).wf(),
        instr.op == Op::Mov || instr.op == Op::Movzx || instr.op == Op::Movsx || instr.op == Op::Lea || instr.op == Op::Xchg,
    ensures
        same_layout(*old(mem), *final(mem)),
        follows(r, move_spec(instr.op, instr@.operands, machine(*old(regs), *old(mem), io), symbols@), old(regs).rip, *final(regs), *final(mem), io),
{
    let rip = regs.rip;
    let ops = &instr.operands;
    if ops.len() < 2 {
        return Err(arity_error(instr.op, 2, ops.len(), rip));
    }
    assert(instr@.operands[0] == ops@[0]@ && instr@.operands[1] == ops@[1]@);
    let dw = default_width_of(&ops[0]);
    match instr.op {
        Op::Mov => {
            let val = read_operand(&ops[1], regs, mem, symbols, dw)?;
            write_dst(&ops[0], val, regs, mem, symbols, dw)?;
        },
        Op::Movzx => {
            let sw = default_width_of(&ops[1]);
            let val = read_operand(&ops[1], regs, mem, symbols, sw)?;
            write_dst(&ops[0], val, regs, mem, symbols, dw)?;
        },
        Op::Movsx => {
            let sw = default_width_of(&ops[1]);
            let src_bits = access_bits_of(&ops[1]);
            let val = read_operand(&ops[1], regs, mem, symbols, sw)?;
            let sign_bit = alu::sign_bit_for(src_bits);
            let mask = alu::mask_for(src_bits);
            let extended = if val & sign_bit != 0 { val | !mask } else { val };
            write_dst(&ops[0], extended, regs, mem, symbols, dw)?;
        },
        Op::Lea => {
            let addr = match &ops[1] {
                Operand::Memory(m) => effective_addr(m, regs, symbols, rip)?,
                Operand::Label(name) => resolve_label(name, symbols, rip)?,
                _ => return Err(runtime(rip, owned("lea requires memory operand"))),
            };
            write_dst(&ops[0], addr, regs, mem, symbols, dw)?;
        },
        _ => {
            let a = read_operand(&ops[0], regs, mem, symbols, dw)?;
            let b = read_operand(&ops[1], regs, mem, symbols, dw)?;
            write_dst(&ops[0], b, regs, mem, symbols, dw)?;
            write_dst(&ops[1], a, regs, mem, symbols, dw)?;
        },
    }
    Ok(false)
}

#[verifier::spinoff_prover]
fn exec_stack(instr: &Instruction, regs: &mut Registers, mem: &mut Memory, symbols: &StringHashMap<i64>, Ghost(io): Ghost<IoV>) -> (r: Result<bool, SimError>)
    requires
        old(mem).wf(),
        instr.op == Op::Push || instr.op == Op::Pop,
    ensures
        same_layout(*old(mem), *final(mem)),
        follows(r, stack_spec(instr.op, instr@.operands, machine(*old(regs), *old(mem), io), symbols@), old(regs).rip, *final(regs), *final(mem), io),
{
    let rip = regs.rip;
    let ops = &instr.operands;
    if ops.len() < 1 {
        return Err(arity_error(instr.op, 1, ops.len(), rip));
    }
    assert(instr@.operands[0] == ops@[0]@);
    let dw = default_width_of(&ops[0]);
    if instr.op == Op::Push {
        let val = read_operand(&ops[0], regs, mem, symbols, dw)?;
        let rsp = regs.read_named(Register::Rsp).wrapping_sub(8);
        proof { lemma_wrapping_sub(regs@.get(Register::Rsp), 8); }
        regs.write_named(Register::Rsp, rsp);
        mem.write_u64(rsp, val, rip)?;
    } else {
        let rsp = regs.read_named(Register::Rsp);
        let val = mem.read_u64(rsp, rip)?;
        proof { lemma_wrapping_add(rsp, 8); }
        regs.write_named(Register::Rsp, rsp.wrapping_add(8));
        write_dst(&ops[0], val, regs, mem, symbols, dw)?;
    }
    Ok(false)
}

fn alu_apply(op: Op, a: u64, b: u64, bits: u32, cf: bool) -> (r: AluResult)
    requires 1 <= bits <= 64,
    ensures r == alu_result(op, a, b, bits, cf),
{
    match op {
        Op::Add => alu::add(a, b, bits),
        Op::Adc => alu::add_with_carry(a, b, cf, bits),
        Op::Sub | Op::Cmp => alu::sub(a, b, bits),
        Op::Sbb => alu::sub_with_borrow(a, b, cf, bits),
        Op::And | Op::Test => alu::and(a, b, bits),
        Op::Or => alu::or(a, b, bits),
        Op::Xor => alu::xor(a, b, bits),
        Op::Shl => alu::shl(a, b, bits),
        Op::Shr => alu::shr(a, b, bits),
        Op::Sar => alu::sar(a, b, bits),
        Op::Rol => alu::rol(a, b, bits),
        _ => alu::ror(a, b, bits),
    }
}

#[verifier::spinoff_prover]
fn exec_binary(instr: &Instruction, regs: &mut Registers, mem: &mut Memory, symbols: &StringHashMap<i64>, Ghost(io): Ghost<IoV>) -> (r: Result<bool, SimError>)
    requires old(mem).wf(),
    ensures
        same_layout(*old(mem), *final(mem)),
        follows(r, binary_spec(instr.op, instr@.operands, machine(*old(regs), *old(mem), io), symbols@), old(regs).rip, *final(regs), *final(mem), io),
{
    let rip = regs.rip;
    let ops = &instr.operands;
    if ops.len() < 2 {
        return Err(arity_error(instr.op, 2, ops.len(), rip));
    }
    assert(instr@.operands[0] == ops@[0]@ && instr@.operands[1] == ops@[1]@);
    let bits = operand_bits(&ops[0], &ops[1]);
    let dw = default_width_of(&ops[0]);
    let src = read_operand(&ops[1], regs, mem, symbols, dw)?;
    let dst = read_operand(&ops[0], regs, mem, symbols, dw)?;
    let r = alu_apply(instr.op, dst, src, bits, regs.flags.cf);
    let shifts = instr.op == Op::Shl || instr.op == Op::Shr || instr.op == Op::Sar || instr.op == Op::Rol
        || instr.op == Op::Ror;
    if !(shifts && src & 63 == 0) {
        regs.flags = r.flags;
    }
    if instr.op == Op::Cmp || instr.op == Op::Test {
        return Ok(false);
    }
    write_dst(&ops[0], r.val, regs, mem, symbols, dw)?;
    Ok(false)
}

#[verifier::spinoff_prover]
fn exec_unary(instr: &Instruction, regs: &mut Registers, mem: &mut Memory, symbols: &StringHashMap<i64>, Ghost(io): Ghost<IoV>) -> (r: Result<bool, SimError>)
    requires
        old(mem).wf(),
        instr.op == Op::Inc || instr.op == Op::Dec || instr.op == Op::Neg || instr.op == Op::Not,
    ensures
        same_layout(*old(mem), *final(mem)),
        follows(r, unary_spec(instr.op, instr@.operands, machine(*old(regs), *old(mem), io), symbols@), old(regs).rip, *final(regs), *final(mem), io),
{
    let rip = regs.rip;
    let ops = &instr.operands;
    if ops.len() < 1 {
        return Err(arity_error(instr.op, 1, ops.len(), rip));
    }
    assert(instr@.operands[0] == ops@[0]@);
    let dw = default_width_of(&ops[0]);
    let bits = alu::bits_for_width(dw);
    let val = read_operand(&ops[0], regs, mem, symbols, dw)?;
    match instr.op {
        Op::Inc => {
            let r = alu::add(val, 1, bits);
            let cf_saved = regs.flags.cf;
            regs.flags = r.flags;
            regs.flags.cf = cf_saved;
            write_dst(&ops[0], r.val, regs, mem, symbols, dw)?;
        },
        Op::Dec => {
            let r = alu::sub(val, 1, bits);
            let cf_saved = regs.flags.cf;
            regs.flags = r.flags;
            regs.flags.cf = cf_saved;
            write_dst(&ops[0], r.val, regs, mem, symbols, dw)?;
        },
        Op::Neg => {
            let r = alu::neg(val, bits);
            regs.flags = r.flags;
            write_dst(&ops[0], r.val, regs, mem, symbols, dw)?;
        },
        _ => {
            let mask = alu::mask_for(bits);
            write_dst(&ops[0], (!val) & mask, regs, mem, symbols, dw)?;
        },
    }
    Ok(false)
}

/// Cutting a 128-bit value to 64 bits keeps its residue modulo 2^64, and an arithmetic right
/// shift by 16, 32 or 64 bits divides by that power of two rounding down.
proof fn lemma_i128_halves(r: i128)
    ensures
        r as u64 == wrap64(r as int),
        (r >> 16u32) as int == r as int / 0x1_0000,
        (r >> 32u32) as int == r as int / 0x1_0000_0000,
        (r >> 64u32) as int == r as int / two64(),
{
    assert(
        r as u64 as int == (r as int) % 0x1_0000_0000_0000_0000
        && (r >> 16u32) as int == (r as int) / 0x1_0000
        && (r >> 32u32) as int == (r as int) / 0x1_0000_0000
        && (r >> 64u32) as int == (r as int) / 0x1_0000_0000_0000_0000
    ) by (bit_vector);
}

/// A value that fits 64 bits is its own residue modulo 2^64.
proof fn lemma_wrap_fits(x: int)
    requires 0 <= x < two64(),
    ensures wrap64(x) == x,
{
    vstd::arithmetic::div_mod::lemma_small_mod(x as nat, two64() as nat);
}

/// The product of two values below `m` is below `m * m`, and its quotient by `m` below `m`.
proof fn lemma_product_bounds(a: int, b: int, m: int)
    requires 0 <= a < m, 0 <= b < m,
    ensures
        0 <= a * b < m * m,
        0 <= (a * b) / m < m,
        0 <= (a * b) % m < m,
{
    assert(0 <= a * b < m * m) by (nonlinear_arith) requires 0 <= a < m, 0 <= b < m;
    vstd::arithmetic::div_mod::lemma_fundamental_div_mod(a * b, m);
    assert(0 <= (a * b) / m < m) by (nonlinear_arith)
        requires a * b == m * ((a * b) / m) + (a * b) % m, 0 <= (a * b) % m < m, 0 <= a * b < m * m, m > 0;
}

/// The register width of an access of `bits` bits.
fn reg_part_of(r: Register, bits: u32) -> (rr: RegRef)
    ensures rr == reg_part(r, bits),
{
    RegRef {
        reg: r,
        width: if bits == 8 {
            RegWidth::Byte
        } else if bits == 16 {
            RegWidth::Word
        } else if bits == 32 {
            RegWidth::Dword
        } else {
            RegWidth::Qword
        },
    }
}

/// MUL of `bits` bits by `src`.
fn mul_into(regs: &mut Registers, bits: u32, src: u64)
    requires bits == 8 || bits == 16 || bits == 32 || bits == 64,
    ensures final(regs)@ == mul_regs(old(regs)@, bits, src),
{
    let m = alu::mask_for(bits);
    let modulus: u128 = m as u128 + 1;
    let a = regs.read_named(Register::Rax) & m;
    let b = src & m;
    proof {
        alu::lemma_and_le(old(regs)@.get(Register::Rax), m);
        alu::lemma_and_le(src, m);
        alu::lemma_mask_facts_pub(bits);
        lemma_product_bounds(a as int, b as int, modulus as int);
        assert((m as int + 1) * (m as int + 1) <= two64() * two64()) by (nonlinear_arith) requires 0 <= m < two64();
    }
    let p = a as u128 * b as u128;
    let lo = (p % modulus) as u64;
    let hi = (p / modulus) as u64;
    let low64 = (p % 0x1_0000_0000_0000_0000u128) as u64;
    proof { lemma_wrap_fits(p as int / modulus as int); }
    if bits == 8 {
        regs.write(reg_part_of(Register::Rax, 16), low64);
    } else {
        regs.write(reg_part_of(Register::Rax, bits), low64);
        regs.write(reg_part_of(Register::Rdx, bits), hi);
    }
    regs.flags.cf = hi != 0;
    regs.flags.of = hi != 0;
    regs.flags.zf = lo == 0 && hi == 0;
    regs.flags.sf = (lo & alu::sign_bit_for(bits)) != 0;
}

/// One-operand IMUL of `bits` bits by `src`.
fn imul_into(regs: &mut Registers, bits: u32, src: u64)
    requires bits == 8 || bits == 16 || bits == 32 || bits == 64,
    ensures final(regs)@ == imul_regs(old(regs)@, bits, src),
{
    let sa = alu::signed_of(regs.read_named(Register::Rax), bits);
    let sb = alu::signed_of(src, bits);
    proof {
        alu::lemma_signed_range(old(regs)@.get(Register::Rax), bits);
        alu::lemma_signed_range(src, bits);
        alu::lemma_mask_facts_pub(bits);
        assert(-0x4000_0000_0000_0000_0000_0000_0000_0000 <= (sa as int) * (sb as int) <= 0x4000_0000_0000_0000_0000_0000_0000_0000) by (nonlinear_arith)
            requires -0x8000_0000_0000_0000 <= sa <= 0x8000_0000_0000_0000, -0x8000_0000_0000_0000 <= sb <= 0x8000_0000_0000_0000;
    }
    let p = sa * sb;
    proof { lemma_i128_halves(p); }
    if bits == 8 {
        regs.write(reg_part_of(Register::Rax, 16), p as u64);
    } else {
        let hi: i128 = if bits == 16 { p >> 16u32 } else if bits == 32 { p >> 32u32 } else { p >> 64u32 };
        proof {
            lemma_i128_halves(hi);
            assert(modulus(16) == 0x1_0000 && modulus(32) == 0x1_0000_0000 && modulus(64) == two64()) by {
                alu::lemma_width_constants();
            }
        }
        regs.write(reg_part_of(Register::Rax, bits), p as u64);
        regs.write(reg_part_of(Register::Rdx, bits), hi as u64);
    }
    let overflow = alu::overflows(p, bits);
    regs.flags.cf = overflow;
    regs.flags.of = overflow;
}

#[verifier::spinoff_prover]
fn exec_mul(instr: &Instruction, regs: &mut Registers, mem: &mut Memory, symbols: &StringHashMap<i64>, Ghost(io): Ghost<IoV>) -> (r: Result<bool, SimError>)
    requires
        old(mem).wf(),
        instr.op == Op::Mul || instr.op == Op::Imul,
    ensures
        same_layout(*old(mem), *final(mem)),
        follows(r, mul_spec(instr.op, instr@.operands, machine(*old(regs), *old(mem), io), symbols@), old(regs).rip, *final(regs), *final(mem), io),
{
    let rip = regs.rip;
    let ops = &instr.operands;
    if (instr.op == Op::Mul && ops.len() >= 1) || (instr.op == Op::Imul && ops.len() == 1) {
        assert(instr@.operands[0] == ops@[0]@);
        let dw = default_width_of(&ops[0]);
        let w = access_bits_of(&ops[0]);
        let src = read_operand(&ops[0], regs, mem, symbols, dw)?;
        if instr.op == Op::Mul {
            mul_into(regs, w, src);
        } else {
            imul_into(regs, w, src);
        }
        return Ok(false);
    }
    if instr.op == Op::Mul {
        return Err(arity_error(instr.op, 1, ops.len(), rip));
    }
    if ops.len() == 2 || ops.len() == 3 {
        assert(instr@.operands[0] == ops@[0]@ && instr@.operands[1] == ops@[1]@);
        let dw = default_width_of(&ops[0]);
        let w = access_bits_of(&ops[0]);
        let (a, b) = if ops.len() == 2 {
            let a = read_operand(&ops[0], regs, mem, symbols, dw)?;
            let b = read_operand(&ops[1], regs, mem, symbols, dw)?;
            (a, b)
        } else {
            assert(instr@.operands[2] == ops@[2]@);
            let a = read_operand(&ops[1], regs, mem, symbols, dw)?;
            let b = read_operand(&ops[2], regs, mem, symbols, dw)?;
            (a, b)
        };
        let x = alu::signed_of(a, w);
        let y = alu::signed_of(b, w);
        proof {
            alu::lemma_signed_range(a, w);
            alu::lemma_signed_range(b, w);
            assert(-0x4000_0000_0000_0000_0000_0000_0000_0000 <= (x as int) * (y as int) <= 0x4000_0000_0000_0000_0000_0000_0000_0000) by (nonlinear_arith)
                requires -0x8000_0000_0000_0000 <= x <= 0x8000_0000_0000_0000, -0x8000_0000_0000_0000 <= y <= 0x8000_0000_0000_0000;
        }
        let p = x * y;
        proof { lemma_i128_halves(p); }
        let overflow = alu::overflows(p, w);
        regs.flags.cf = overflow;
        regs.flags.of = overflow;
        write_dst(&ops[0], p as u64, regs, mem, symbols, dw)?;
        return Ok(false);
    }
    Err(runtime(rip, owned("imul: invalid operand count")))
}

/// DIV of `bits` bits by `src`; errors are reported at the instruction pointer.
fn div_into(regs: &mut Registers, bits: u32, src: u64) -> (r: Result<(), SimError>)
    requires bits == 8 || bits == 16 || bits == 32 || bits == 64,
    ensures
        match div_regs(old(regs)@, bits, src) {
            Ok(rv) => r is Ok && final(regs)@ == rv,
            Err(m) => agrees(r, Err::<(), Seq<char>>(m), old(regs).rip) && final(regs)@ == old(regs)@,
        },
{
    let rip = regs.rip;
    let m = alu::mask_for(bits);
    let modulus: u128 = m as u128 + 1;
    let lo = regs.read_named(Register::Rax);
    let hi = regs.read_named(Register::Rdx);
    let b = src & m;
    if b == 0 {
        return Err(runtime(rip, owned("division by zero")));
    }
    proof {
        alu::lemma_mask_facts_pub(bits);
        alu::lemma_and_le(hi, m);
        alu::lemma_and_le(lo, m);
        alu::lemma_and_le(lo, 0xFFFF);
        alu::lemma_and_le(src, m);
        assert((hi & m) as int * (m as int + 1) + (lo & m) as int <= (m as int + 1) * (m as int + 1) - 1) by (nonlinear_arith)
            requires (hi & m) <= m, (lo & m) <= m, 0 <= m;
        assert((m as int + 1) * (m as int + 1) <= two64() * two64()) by (nonlinear_arith) requires 0 <= m < two64();
    }
    let dividend: u128 = if bits == 8 { (lo & 0xFFFF) as u128 } else { (hi & m) as u128 * modulus + (lo & m) as u128 };
    let quot = dividend / b as u128;
    let rem = dividend % b as u128;
    if quot >= modulus {
        return Err(runtime(rip, owned("div overflow")));
    }
    proof {
        lemma_wrap_fits(quot as int);
        lemma_wrap_fits(rem as int);
    }
    if bits == 8 {
        regs.write(RegRef { reg: Register::Rax, width: RegWidth::Byte }, quot as u64);
        regs.write(RegRef { reg: Register::Rax, width: RegWidth::ByteHi }, rem as u64);
    } else {
        regs.write(reg_part_of(Register::Rax, bits), quot as u64);
        regs.write(reg_part_of(Register::Rdx, bits), rem as u64);
    }
    Ok(())
}

/// IDIV of `bits` bits by `src`; errors are reported at the instruction pointer.
fn idiv_into(regs: &mut Registers, bits: u32, src: u64) -> (r: Result<(), SimError>)
    requires bits == 8 || bits == 16 || bits == 32 || bits == 64,
    ensures
        match idiv_regs(old(regs)@, bits, src) {
            Ok(rv) => r is Ok && final(regs)@ == rv,
            Err(m) => agrees(r, Err::<(), Seq<char>>(m), old(regs).rip) && final(regs)@ == old(regs)@,
        },
{
    let rip = regs.rip;
    let m = alu::mask_for(bits);
    let modulus: u128 = m as u128 + 1;
    let lo = regs.read_named(Register::Rax);
    let hi = regs.read_named(Register::Rdx);
    let v = alu::signed_of(src, bits);
    if v == 0 {
        return Err(runtime(rip, owned("division by zero")));
    }
    proof {
        alu::lemma_signed_range(src, bits);
        alu::lemma_signed_range(hi, bits);
        alu::lemma_signed_range(lo, 16);
        alu::lemma_and_le(lo, m);
        alu::lemma_mask_facts_pub(bits);
    }
    let dividend: i128 = if bits == 8 {
        alu::signed_of(lo, 16)
    } else {
        let sh = alu::signed_of(hi, bits);
        assert(-0x8000_0000_0000_0000_0000_0000_0000_0000 <= (sh as int) * (modulus as int)
            && (sh as int) * (modulus as int) + ((lo & m) as int) < 0x8000_0000_0000_0000_0000_0000_0000_0000) by (nonlinear_arith)
            requires -(modulus as int) <= 2 * sh, 2 * sh < (modulus as int), 0 <= (lo & m) < modulus, 0 < modulus <= two64();
        sh * (modulus as i128) + (lo & m) as i128
    };
    if dividend == i128::MIN && v == -1 {
        // The quotient, 2^127, fits no width.
        proof {
            let d = dividend as int;
            vstd::arithmetic::div_mod::lemma_div_basics(abs(d));
            assert(trunc_div(d, v as int) == 0x8000_0000_0000_0000_0000_0000_0000_0000);
        }
        return Err(runtime(rip, owned("idiv overflow")));
    }
    let quot = dividend / v;
    let rem = dividend % v;
    proof { lemma_signed_div(dividend as int, v as int); }
    if alu::overflows(quot, bits) {
        return Err(runtime(rip, owned("idiv overflow")));
    }
    proof {
        lemma_i128_halves(quot);
        lemma_i128_halves(rem);
    }
    if bits == 8 {
        regs.write(RegRef { reg: Register::Rax, width: RegWidth::Byte }, quot as u64);
        regs.write(RegRef { reg: Register::Rax, width: RegWidth::ByteHi }, rem as u64);
    } else {
        regs.write(reg_part_of(Register::Rax, bits), quot as u64);
        regs.write(reg_part_of(Register::Rdx, bits), rem as u64);
    }
    Ok(())
}

#[verifier::spinoff_prover]
fn exec_div(instr: &Instruction, regs: &mut Registers, mem: &mut Memory, symbols: &StringHashMap<i64>, Ghost(io): Ghost<IoV>) -> (r: Result<bool, SimError>)
    requires
        old(mem).wf(),
        instr.op == Op::Div || instr.op == Op::Idiv,
    ensures
        same_layout(*old(mem), *final(mem)),
        follows(r, div_spec(instr.op, instr@.operands, machine(*old(regs), *old(mem), io), symbols@), old(regs).rip, *final(regs), *final(mem), io),
{
    let rip = regs.rip;
    let ops = &instr.operands;
    if ops.len() < 1 {
        return Err(arity_error(instr.op, 1, ops.len(), rip));
    }
    assert(instr@.operands[0] == ops@[0]@);
    let dw = default_width_of(&ops[0]);
    let w = access_bits_of(&ops[0]);
    let src = read_operand(&ops[0], regs, mem, symbols, dw)?;
    if instr.op == Op::Div {
        div_into(regs, w, src)?;
    } else {
        idiv_into(regs, w, src)?;
    }
    Ok(false)
}

proof fn lemma_neg_divisor(n: int, c: int)
    requires n >= 0, c > 0,
    ensures n / (-c) == -(n / c), n % (-c) == n % c,
{
    let q = n / c;
    let r = n % c;
    vstd::arithmetic::div_mod::lemma_fundamental_div_mod(n, c);
    assert(n == (-c) * (-q) + r) by (nonlinear_arith) requires n == c * q + r;
    assert(n / (-c) == -q && n % (-c) == r) by (nonlinear_arith) requires n == (-c) * (-q) + r, 0 <= r < c, c > 0;
}

/// Signed division and remainder, stated through Euclidean division of magnitudes, round
/// toward zero and stay within 128 bits.
proof fn lemma_signed_div(a: int, b: int)
    requires
        b != 0,
        -0x8000_0000_0000_0000_0000_0000_0000_0000 <= a < 0x8000_0000_0000_0000_0000_0000_0000_0000,
        -0x8000_0000_0000_0000_0000_0000_0000_0000 <= b < 0x8000_0000_0000_0000_0000_0000_0000_0000,
        !(a == -0x8000_0000_0000_0000_0000_0000_0000_0000 && b == -1),
    ensures ({
        let q = if a >= 0 { a / b } else { -((-a) / b) };
        let r = if a >= 0 { a % b } else { -((-a) % b) };
        &&& q == trunc_div(a, b)
        &&& r == trunc_rem(a, b)
        &&& -0x8000_0000_0000_0000_0000_0000_0000_0000 <= q < 0x8000_0000_0000_0000_0000_0000_0000_0000
        &&& -0x8000_0000_0000_0000_0000_0000_0000_0000 <= r < 0x8000_0000_0000_0000_0000_0000_0000_0000
    }),
{
    let n = abs(a);
    let c = abs(b);
    vstd::arithmetic::div_mod::lemma_fundamental_div_mod(n, c);
    vstd::arithmetic::div_mod::lemma_div_nonincreasing(n, c);
    if b < 0 {
        lemma_neg_divisor(n, c);
    }
    if c >= 2 {
        assert(n / c <= n / 2) by {
            vstd::arithmetic::div_mod::lemma_div_is_ordered_by_denominator(n, 2, c);
        }
    }
    assert(a - b * trunc_div(a, b) == (if a >= 0 { n % c } else { -(n % c) })) by (nonlinear_arith)
        requires n == c * (n / c) + n % c, n == abs(a), c == abs(b), b != 0,
            trunc_div(a, b) == (if (a < 0) != (b < 0) { -(n / c) } else { n / c });
}

fn jump_to(target: &Operand, regs: &mut Registers, symbols: &StringHashMap<i64>) -> (r: Result<(), SimError>)
    ensures
        match jump_target(target@, old(regs)@, symbols@) {
            Ok(t) => r is Ok && final(regs)@ == (RegsV { rip: t, ..old(regs)@ }),
            Err(m) => agrees(r, Err::<(), Seq<char>>(m), old(regs).rip) && final(regs)@ == old(regs)@,
        },
{
    let rip = regs.rip;
    let addr = match target {
        Operand::Label(name) => resolve_label(name, symbols, rip)?,
        Operand::Register(r) => regs.read(*r),
        Operand::Immediate(n) => *n as u64,
        op => return Err(runtime(rip, concat2("invalid jump target: ", operand_string(op).as_str()))),
    };
    regs.rip = addr;
    Ok(())
}

fn condition_holds(op: Op, f: Flags) -> (b: bool)
    ensures b == condition(op, f),
{
    match op {
        Op::Je => f.zf,
        Op::Jne => !f.zf,
        Op::Jl => f.sf != f.of,
        Op::Jle => f.zf || f.sf != f.of,
        Op::Jg => !f.zf && f.sf == f.of,
        Op::Jge => f.sf == f.of,
        Op::Js => f.sf,
        Op::Jns => !f.sf,
        Op::Jc => f.cf,
        Op::Jnc => !f.cf,
        Op::Jo => f.of,
        _ => !f.of,
    }
}

#[verifier::spinoff_prover]
fn exec_jump(instr: &Instruction, regs: &mut Registers, mem: &mut Memory, symbols: &StringHashMap<i64>, Ghost(io): Ghost<IoV>) -> (r: Result<bool, SimError>)
    requires
        old(mem).wf(),
        instr.op == Op::Jmp || instr.op == Op::Call || instr.op == Op::Ret || instr.op == Op::Loop || is_conditional(instr.op),
    ensures
        same_layout(*old(mem), *final(mem)),
        follows(r, jump_spec(instr.op, instr@.operands, machine(*old(regs), *old(mem), io), symbols@), old(regs).rip, *final(regs), *final(mem), io),
{
    let rip = regs.rip;
    let ops = &instr.operands;
    if instr.op == Op::Ret {
        let rsp = regs.read_named(Register::Rsp);
        let ret_addr = mem.read_u64(rsp, rip)?;
        proof { lemma_wrapping_add(rsp, 8); }
        regs.write_named(Register::Rsp, rsp.wrapping_add(8));
        if ops.len() >= 1 {
            assert(instr@.operands[0] == ops@[0]@);
            let extra = read_operand(&ops[0], regs, mem, symbols, RegWidth::Qword)?;
            let rsp2 = regs.read_named(Register::Rsp);
            proof { lemma_wrapping_add(rsp2, extra); }
            regs.write_named(Register::Rsp, rsp2.wrapping_add(extra));
        }
        regs.rip = ret_addr;
        return Ok(false);
    }
    if ops.len() < 1 {
        return Err(arity_error(instr.op, 1, ops.len(), rip));
    }
    assert(instr@.operands[0] == ops@[0]@);
    if instr.op == Op::Jmp {
        jump_to(&ops[0], regs, symbols)?;
    } else if instr.op == Op::Call {
        let ret_addr = regs.rip;
        let rsp = regs.read_named(Register::Rsp).wrapping_sub(8);
        proof { lemma_wrapping_sub(regs@.get(Register::Rsp), 8); }
        regs.write_named(Register::Rsp, rsp);
        mem.write_u64(rsp, ret_addr, rip)?;
        jump_to(&ops[0], regs, symbols)?;
    } else if instr.op == Op::Loop {
        let rcx = regs.read_named(Register::Rcx).wrapping_sub(1);
        proof { lemma_wrapping_sub(regs@.get(Register::Rcx), 1); }
        regs.write_named(Register::Rcx, rcx);
        if rcx != 0 {
            jump_to(&ops[0], regs, symbols)?;
        }
    } else if condition_holds(instr.op, regs.flags) {
        jump_to(&ops[0], regs, symbols)?;
    }
    Ok(false)
}

/// Executes one instruction, with the instruction pointer already past it. Returns true when
/// the program has exited.
pub fn execute(instr: &Instruction, regs: &mut Registers, mem: &mut Memory, symbols: &StringHashMap<i64>, io: &mut SyscallIo<'_>) -> (r: Result<bool, SimError>)
    requires
        old(mem).wf(),
        old(io).stdin_pos <= old(io).stdin@.len(),
    ensures
        same_layout(*old(mem), *final(mem)),
        final(io).stdin_pos <= final(io).stdin@.len(),
        final(io).stdin@ == old(io).stdin@,
        follows(r, execute_spec(instr@, machine(*old(regs), *old(mem), old(io)@), symbols@), old(regs).rip, *final(regs), *final(mem), final(io)@),
{
    let ghost io0 = io@;
    proof { reveal(execute_spec); }
    match instr.op {
        Op::Mov | Op::Movzx | Op::Movsx | Op::Lea | Op::Xchg => exec_move(instr, regs, mem, symbols, Ghost(io0)),
        Op::Push | Op::Pop => exec_stack(instr, regs, mem, symbols, Ghost(io0)),
        Op::Add | Op::Adc | Op::Sub | Op::Sbb | Op::And | Op::Or | Op::Xor | Op::Shl | Op::Shr
        | Op::Sar | Op::Rol | Op::Ror | Op::Cmp | Op::Test => exec_binary(instr, regs, mem, symbols, Ghost(io0)),
        Op::Inc | Op::Dec | Op::Neg | Op::Not => exec_unary(instr, regs, mem, symbols, Ghost(io0)),
        Op::Mul | Op::Imul => exec_mul(instr, regs, mem, symbols, Ghost(io0)),
        Op::Div | Op::Idiv => exec_div(instr, regs, mem, symbols, Ghost(io0)),
        Op::Syscall => crate::cpu::syscall::dispatch(regs, mem, io),
        Op::Equ => Ok(false),
        _ => exec_jump(instr, regs, mem, symbols, Ghost(io0)),
    }
}

} // verus!
