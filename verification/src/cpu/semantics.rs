//! What each instruction does to the machine state, stated over sequences and integers.
use vstd::prelude::*;
use crate::ast::{InstructionV, MemAddrV, Op, OperandV, RegRef, RegWidth, Register, Size, size_bytes};
use crate::cpu::alu::{add_spec, add_with_carry_spec, and_spec, neg_spec, or_spec, rol_spec, ror_spec, sar_spec, shl_spec, shr_spec, sign_bit, signed_overflow, signed_value, is_negative, modulus, size_bits, sub_spec, sub_with_borrow_spec, width_bits, width_mask, xor_spec, AluResult};
use crate::cpu::memory::{access_error, access_ok, le_bytes, le_value, splice};
use crate::show::{op_name, operand_text};
use crate::text::decimal_digits;
use crate::cpu::registers::{Flags, RegsV};

verus! {

/// The buffers that system calls read and write.
pub struct IoV {
    pub stdout: Seq<u8>,
    pub stderr: Seq<u8>,
    pub stdin: Seq<u8>,
    pub stdin_pos: usize,
    pub exit_code: i32,
}

/// Registers, memory bytes and system-call buffers.
pub struct MachineV {
    pub regs: RegsV,
    pub mem: Seq<u8>,
    pub io: IoV,
}

/// What an instruction ends in: `Ok(false)` to go on, `Ok(true)` to halt, or a runtime error
/// with its message, reported at the instruction pointer the instruction started with.
pub type Outcome = Result<bool, Seq<char>>;

/// 2^64.
pub open spec fn two64() -> int {
    0x1_0000_0000_0000_0000
}

/// `x` reduced modulo 2^64.
pub open spec fn wrap64(x: int) -> u64 {
    (x % two64()) as u64
}

/// Quotient rounded toward zero.
pub open spec fn trunc_div(a: int, b: int) -> int {
    let q = abs(a) / abs(b);
    if (a < 0) != (b < 0) { -q } else { q }
}

/// Remainder of the quotient rounded toward zero; it has the sign of `a`.
pub open spec fn trunc_rem(a: int, b: int) -> int {
    a - b * trunc_div(a, b)
}

pub open spec fn abs(a: int) -> int {
    if a < 0 { -a } else { a }
}

/// The value of a symbol, as an address.
pub open spec fn lookup(symbols: Map<Seq<char>, i64>, name: Seq<char>) -> Result<u64, Seq<char>> {
    if symbols.contains_key(name) { Ok(symbols[name] as u64) } else { Err("undefined symbol '"@ + name + "'"@) }
}

/// label + base + index * scale + displacement, modulo 2^64; an error when the label is
/// undefined.
pub open spec fn address_of(m: MemAddrV, regs: RegsV, symbols: Map<Seq<char>, i64>) -> Result<u64, Seq<char>> {
    let base = match m.base { Some(r) => regs.value(r) as int, None => 0 };
    let idx = match m.index { Some(r) => regs.value(r) as int * m.scale as int, None => 0 };
    match m.label {
        Some(name) => match lookup(symbols, name) {
            Ok(_) => Ok(wrap64(symbols[name] as int + base + idx + m.disp as int)),
            Err(e) => Err(e),
        },
        None => Ok(wrap64(base + idx + m.disp as int)),
    }
}

pub open spec fn width_size(w: RegWidth) -> Size {
    match w {
        RegWidth::Byte | RegWidth::ByteHi => Size::Byte,
        RegWidth::Word => Size::Word,
        RegWidth::Dword => Size::Dword,
        RegWidth::Qword => Size::Qword,
    }
}

/// The width an operand is accessed with when no size is written: a register's own, else 64 bits.
pub open spec fn default_width(op: OperandV) -> RegWidth {
    match op {
        OperandV::Register(r) => r.width,
        _ => RegWidth::Qword,
    }
}

/// The width in bits that an operand is accessed with: a register's own, a memory operand's
/// written size, else 64.
pub open spec fn access_bits(op: OperandV) -> u32 {
    match op {
        OperandV::Register(r) => width_bits(r.width),
        OperandV::Memory(m) => match m.size {
            Some(s) => size_bits(s),
            None => 64,
        },
        _ => 64,
    }
}

/// The width of a two-operand operation: the destination's, else the source register's, else 64.
pub open spec fn pair_bits(dst: OperandV, src: OperandV) -> u32 {
    match dst {
        OperandV::Register(r) => width_bits(r.width),
        OperandV::Memory(m) => match m.size {
            Some(s) => size_bits(s),
            None => match src {
                OperandV::Register(r) => width_bits(r.width),
                _ => 64,
            },
        },
        _ => 64,
    }
}

/// The little-endian value of the `size` bytes at `addr`, when the read is allowed.
pub open spec fn load(mem: Seq<u8>, addr: u64, size: Size) -> Result<u64, Seq<char>> {
    let n = size_bytes(size);
    match access_error(addr, n, false) {
        None => Ok(le_value(mem.subrange(addr as int, addr + n)) as u64),
        Some(e) => Err(e),
    }
}

/// Memory after storing the low `size` bytes of `val` at `addr`, when the write is allowed.
pub open spec fn store(mem: Seq<u8>, addr: u64, size: Size, val: u64) -> Result<Seq<u8>, Seq<char>> {
    let n = size_bytes(size);
    match access_error(addr, n, true) {
        None => Ok(splice(mem, addr as int, le_bytes(val, n as nat))),
        Some(e) => Err(e),
    }
}

/// The value an operand reads as, with `dw` the width of a memory access of unwritten size.
pub open spec fn read_value(op: OperandV, regs: RegsV, mem: Seq<u8>, symbols: Map<Seq<char>, i64>, dw: RegWidth) -> Result<u64, Seq<char>> {
    match op {
        OperandV::Register(r) => Ok(regs.value(r)),
        OperandV::Immediate(n) => Ok(n as u64),
        OperandV::Label(name) => lookup(symbols, name),
        OperandV::Memory(m) => match address_of(m, regs, symbols) {
            Ok(addr) => load(mem, addr, match m.size { Some(s) => s, None => width_size(dw) }),
            Err(e) => Err(e),
        },
    }
}

/// Registers and memory after writing `val` to a register or memory operand.
pub open spec fn write_value(op: OperandV, val: u64, regs: RegsV, mem: Seq<u8>, symbols: Map<Seq<char>, i64>, dw: RegWidth) -> Result<(RegsV, Seq<u8>), Seq<char>> {
    match op {
        OperandV::Register(r) => Ok((regs.written(r, val), mem)),
        OperandV::Memory(m) => match address_of(m, regs, symbols) {
            Ok(addr) => match store(mem, addr, match m.size { Some(s) => s, None => width_size(dw) }, val) {
                Ok(m2) => Ok((regs, m2)),
                Err(e) => Err(e),
            },
            Err(e) => Err(e),
        },
        _ => Err("invalid destination operand"@),
    }
}

/// A runtime error with message `msg`, the state left as it is.
pub open spec fn fault(s: MachineV, msg: Seq<char>) -> (Outcome, MachineV) {
    (Err(msg), s)
}

/// The message for an instruction given fewer operands than it needs.
pub open spec fn arity_message(op: Op, n: nat, got: nat) -> Seq<char> {
    op_name(op) + " requires "@ + decimal_digits(n) + " operand(s), got "@ + decimal_digits(got)
}

pub open spec fn with_regs(s: MachineV, regs: RegsV) -> MachineV {
    MachineV { regs, ..s }
}

pub open spec fn with_flags(s: MachineV, flags: Flags) -> MachineV {
    MachineV { regs: RegsV { flags, ..s.regs }, ..s }
}

/// Writes `val` to `op` and goes on, or faults leaving the state as it is.
pub open spec fn write_then_continue(op: OperandV, val: u64, s: MachineV, symbols: Map<Seq<char>, i64>, dw: RegWidth) -> (Outcome, MachineV) {
    match write_value(op, val, s.regs, s.mem, symbols, dw) {
        Ok((regs, mem)) => (Ok(false), MachineV { regs, mem, ..s }),
        Err(e) => fault(s, e),
    }
}

/// MOV, MOVZX, MOVSX, LEA and XCHG. MOVSX extends the sign of its source at the source's own
/// width: a register's, or a memory operand's written size.
pub open spec fn move_spec(op: Op, ops: Seq<OperandV>, s: MachineV, symbols: Map<Seq<char>, i64>) -> (Outcome, MachineV) {
    if ops.len() < 2 {
        fault(s, arity_message(op, 2, ops.len()))
    } else {
        let dw = default_width(ops[0]);
        match op {
            Op::Mov => match read_value(ops[1], s.regs, s.mem, symbols, dw) {
                Ok(v) => write_then_continue(ops[0], v, s, symbols, dw),
                Err(e) => fault(s, e),
            },
            Op::Movzx => match read_value(ops[1], s.regs, s.mem, symbols, default_width(ops[1])) {
                Ok(v) => write_then_continue(ops[0], v, s, symbols, dw),
                Err(e) => fault(s, e),
            },
            Op::Movsx => {
                let sw = default_width(ops[1]);
                let sb = access_bits(ops[1]);
                match read_value(ops[1], s.regs, s.mem, symbols, sw) {
                    Ok(v) => {
                        let ext = if v & sign_bit(sb) != 0 { v | !width_mask(sb) } else { v };
                        write_then_continue(ops[0], ext, s, symbols, dw)
                    },
                    Err(e) => fault(s, e),
                }
            },
            Op::Lea => {
                let a = match ops[1] {
                    OperandV::Memory(m) => address_of(m, s.regs, symbols),
                    OperandV::Label(name) => lookup(symbols, name),
                    _ => Err("lea requires memory operand"@),
                };
                match a {
                    Ok(addr) => write_then_continue(ops[0], addr, s, symbols, dw),
                    Err(e) => fault(s, e),
                }
            },
            _ => {
                // XCHG: both operands are read first, then written in order.
                match read_value(ops[0], s.regs, s.mem, symbols, dw) {
                    Ok(a) => match read_value(ops[1], s.regs, s.mem, symbols, dw) {
                        Ok(b) => match write_value(ops[0], b, s.regs, s.mem, symbols, dw) {
                            Ok((r1, m1)) => write_then_continue(ops[1], a, MachineV { regs: r1, mem: m1, ..s }, symbols, dw),
                            Err(e) => fault(s, e),
                        },
                        Err(e) => fault(s, e),
                    },
                    Err(e) => fault(s, e),
                }
            },
        }
    }
}

/// PUSH and POP, with a 64-bit slot and the stack growing down.
pub open spec fn stack_spec(op: Op, ops: Seq<OperandV>, s: MachineV, symbols: Map<Seq<char>, i64>) -> (Outcome, MachineV) {
    if ops.len() < 1 {
        fault(s, arity_message(op, 1, ops.len()))
    } else {
        let dw = default_width(ops[0]);
        let rsp = s.regs.get(Register::Rsp);
        if op == Op::Push {
            match read_value(ops[0], s.regs, s.mem, symbols, dw) {
                Ok(v) => {
                    let new_rsp = wrap64(rsp - 8);
                    let s1 = with_regs(s, s.regs.set(Register::Rsp, new_rsp));
                    match store(s.mem, new_rsp, Size::Qword, v) {
                        Ok(mem) => (Ok(false), MachineV { mem, ..s1 }),
                        Err(e) => fault(s1, e),
                    }
                },
                Err(e) => fault(s, e),
            }
        } else {
            match load(s.mem, rsp, Size::Qword) {
                Ok(v) => write_then_continue(ops[0], v, with_regs(s, s.regs.set(Register::Rsp, wrap64(rsp + 8))), symbols, dw),
                Err(e) => fault(s, e),
            }
        }
    }
}

/// The flag-setting operation of a two-operand instruction.
pub open spec fn alu_result(op: Op, a: u64, b: u64, bits: u32, cf: bool) -> AluResult {
    match op {
        Op::Add => add_spec(a, b, bits),
        Op::Adc => add_with_carry_spec(a, b, cf, bits),
        Op::Sub | Op::Cmp => sub_spec(a, b, bits),
        Op::Sbb => sub_with_borrow_spec(a, b, cf, bits),
        Op::And | Op::Test => and_spec(a, b, bits),
        Op::Or => or_spec(a, b, bits),
        Op::Xor => xor_spec(a, b, bits),
        Op::Shl => shl_spec(a, b, bits),
        Op::Shr => shr_spec(a, b, bits),
        Op::Sar => sar_spec(a, b, bits),
        Op::Rol => rol_spec(a, b, bits),
        _ => ror_spec(a, b, bits),
    }
}

/// Whether `op` is a shift or rotation whose count, masked to six bits, is 0: such an
/// instruction leaves the flags as they were.
pub open spec fn zero_count_shift(op: Op, count: u64) -> bool {
    (op == Op::Shl || op == Op::Shr || op == Op::Sar || op == Op::Rol || op == Op::Ror) && count & 63 == 0
}

/// Two-operand arithmetic, logic, shifts and rotations: the source is read before the
/// destination, the flags are set from the result (a shift or rotation by a count of 0 keeps
/// them), and the result goes to the destination except for CMP and TEST.
pub open spec fn binary_spec(op: Op, ops: Seq<OperandV>, s: MachineV, symbols: Map<Seq<char>, i64>) -> (Outcome, MachineV) {
    if ops.len() < 2 {
        fault(s, arity_message(op, 2, ops.len()))
    } else {
        let bits = pair_bits(ops[0], ops[1]);
        let dw = default_width(ops[0]);
        match read_value(ops[1], s.regs, s.mem, symbols, dw) {
            Ok(src) => match read_value(ops[0], s.regs, s.mem, symbols, dw) {
                Ok(dst) => {
                    let r = alu_result(op, dst, src, bits, s.regs.flags.cf);
                    let s1 = if zero_count_shift(op, src) { s } else { with_flags(s, r.flags) };
                    if op == Op::Cmp || op == Op::Test {
                        (Ok(false), s1)
                    } else {
                        write_then_continue(ops[0], r.val, s1, symbols, dw)
                    }
                },
                Err(e) => fault(s, e),
            },
            Err(e) => fault(s, e),
        }
    }
}

/// INC, DEC, NEG and NOT on one operand at its own width; INC and DEC keep the carry flag,
/// NOT changes no flag.
pub open spec fn unary_spec(op: Op, ops: Seq<OperandV>, s: MachineV, symbols: Map<Seq<char>, i64>) -> (Outcome, MachineV) {
    if ops.len() < 1 {
        fault(s, arity_message(op, 1, ops.len()))
    } else {
        let dw = default_width(ops[0]);
        let bits = width_bits(dw);
        match read_value(ops[0], s.regs, s.mem, symbols, dw) {
            Ok(v) => match op {
                Op::Inc => {
                    let r = add_spec(v, 1, bits);
                    write_then_continue(ops[0], r.val, with_flags(s, Flags { cf: s.regs.flags.cf, ..r.flags }), symbols, dw)
                },
                Op::Dec => {
                    let r = sub_spec(v, 1, bits);
                    write_then_continue(ops[0], r.val, with_flags(s, Flags { cf: s.regs.flags.cf, ..r.flags }), symbols, dw)
                },
                Op::Neg => {
                    let r = neg_spec(v, bits);
                    write_then_continue(ops[0], r.val, with_flags(s, r.flags), symbols, dw)
                },
                _ => write_then_continue(ops[0], !v & width_mask(bits), s, symbols, dw),
            },
            Err(e) => fault(s, e),
        }
    }
}

/// The part of register `r` that an access of `bits` bits names: its low byte, word,
/// double word or all of it.
pub open spec fn reg_part(r: Register, bits: u32) -> RegRef {
    RegRef {
        reg: r,
        width: if bits == 8 {
            RegWidth::Byte
        } else if bits == 16 {
            RegWidth::Word
        } else if bits == 32 {
            RegWidth::Dword
        } else {
            RegWidth::Qword
        },
    }
}

/// The registers after a one-operand multiply of `bits` bits with product `p`: AX takes it
/// for 8 bits; otherwise the low half goes to the matching part of RAX and the high half to
/// that of RDX.
pub open spec fn product_regs(regs: RegsV, bits: u32, p: int) -> RegsV {
    if bits == 8 {
        regs.written(reg_part(Register::Rax, 16), wrap64(p))
    } else {
        regs.written(reg_part(Register::Rax, bits), wrap64(p)).written(reg_part(Register::Rdx, bits), wrap64(p / modulus(bits)))
    }
}

/// The registers after a divide of `bits` bits: quotient to AL and remainder to AH for 8
/// bits; otherwise quotient to the matching part of RAX and remainder to that of RDX.
pub open spec fn quotient_regs(regs: RegsV, bits: u32, q: int, r: int) -> RegsV {
    if bits == 8 {
        regs.written(RegRef { reg: Register::Rax, width: RegWidth::Byte }, wrap64(q))
            .written(RegRef { reg: Register::Rax, width: RegWidth::ByteHi }, wrap64(r))
    } else {
        regs.written(reg_part(Register::Rax, bits), wrap64(q)).written(reg_part(Register::Rdx, bits), wrap64(r))
    }
}

/// The registers after MUL of `bits` bits by `src`: the unsigned product of the matching part
/// of RAX and the source; CF and OF tell that the high half is not zero, ZF that the product
/// is, SF is the sign of the low half.
pub open spec fn mul_regs(regs: RegsV, bits: u32, src: u64) -> RegsV {
    let p = (regs.get(Register::Rax) & width_mask(bits)) as int * (src & width_mask(bits)) as int;
    let lo = (p % modulus(bits)) as u64;
    let hi = (p / modulus(bits)) as u64;
    RegsV {
        flags: Flags { cf: hi != 0, of: hi != 0, zf: lo == 0 && hi == 0, sf: is_negative(lo, bits), ..regs.flags },
        ..product_regs(regs, bits, p)
    }
}

/// The registers after one-operand IMUL of `bits` bits by `src`: the signed product of the
/// matching part of RAX and the source; CF and OF tell that it does not fit the width.
pub open spec fn imul_regs(regs: RegsV, bits: u32, src: u64) -> RegsV {
    let p = signed_value(regs.get(Register::Rax), bits) * signed_value(src, bits);
    let overflow = signed_overflow(p, bits);
    RegsV { flags: Flags { cf: overflow, of: overflow, ..regs.flags }, ..product_regs(regs, bits, p) }
}

/// The registers after DIV of `bits` bits by `src`, or the error: AX, DX:AX, EDX:EAX or
/// RDX:RAX divided by the source; a zero divisor or a quotient that does not fit is an error.
pub open spec fn div_regs(regs: RegsV, bits: u32, src: u64) -> Result<RegsV, Seq<char>> {
    let m = width_mask(bits);
    let lo = regs.get(Register::Rax);
    let hi = regs.get(Register::Rdx);
    let b = (src & m) as int;
    let dividend = if bits == 8 { (lo & 0xFFFF) as int } else { (hi & m) as int * modulus(bits) + (lo & m) as int };
    if b == 0 {
        Err("division by zero"@)
    } else if dividend / b >= modulus(bits) {
        Err("div overflow"@)
    } else {
        Ok(quotient_regs(regs, bits, dividend / b, dividend % b))
    }
}

/// The registers after IDIV of `bits` bits by `src`, or the error: as DIV, signed, with the
/// quotient rounded toward zero.
pub open spec fn idiv_regs(regs: RegsV, bits: u32, src: u64) -> Result<RegsV, Seq<char>> {
    let lo = regs.get(Register::Rax);
    let hi = regs.get(Register::Rdx);
    let d = if bits == 8 { signed_value(lo, 16) } else { signed_value(hi, bits) * modulus(bits) + (lo & width_mask(bits)) as int };
    let v = signed_value(src, bits);
    let q = trunc_div(d, v);
    if v == 0 {
        Err("division by zero"@)
    } else if signed_overflow(q, bits) {
        Err("idiv overflow"@)
    } else {
        Ok(quotient_regs(regs, bits, q, trunc_rem(d, v)))
    }
}

/// MUL and IMUL, at the width of the first operand. MUL and one-operand IMUL multiply AL, AX,
/// EAX or RAX by the source (unsigned, resp. signed) into AX, DX:AX, EDX:EAX or RDX:RAX. The
/// two- and three-operand forms keep the product in the destination; CF and OF tell that it
/// does not fit the width.
pub open spec fn mul_spec(op: Op, ops: Seq<OperandV>, s: MachineV, symbols: Map<Seq<char>, i64>) -> (Outcome, MachineV) {
    if (op == Op::Mul && ops.len() >= 1) || (op == Op::Imul && ops.len() == 1) {
        let w = access_bits(ops[0]);
        match read_value(ops[0], s.regs, s.mem, symbols, default_width(ops[0])) {
            Ok(src) => (Ok(false), with_regs(s, if op == Op::Mul { mul_regs(s.regs, w, src) } else { imul_regs(s.regs, w, src) })),
            Err(e) => fault(s, e),
        }
    } else if op == Op::Mul {
        fault(s, arity_message(op, 1, ops.len()))
    } else if ops.len() == 2 || ops.len() == 3 {
        let dw = default_width(ops[0]);
        let w = access_bits(ops[0]);
        let (x, y) = if ops.len() == 2 { (ops[0], ops[1]) } else { (ops[1], ops[2]) };
        match read_value(x, s.regs, s.mem, symbols, dw) {
            Ok(a) => match read_value(y, s.regs, s.mem, symbols, dw) {
                Ok(b) => {
                    let p = signed_value(a, w) * signed_value(b, w);
                    let overflow = signed_overflow(p, w);
                    write_then_continue(ops[0], wrap64(p), with_flags(s, Flags { cf: overflow, of: overflow, ..s.regs.flags }), symbols, dw)
                },
                Err(e) => fault(s, e),
            },
            Err(e) => fault(s, e),
        }
    } else {
        fault(s, "imul: invalid operand count"@)
    }
}

/// DIV and IDIV at the width of the source (see `div_regs` and `idiv_regs`).
pub open spec fn div_spec(op: Op, ops: Seq<OperandV>, s: MachineV, symbols: Map<Seq<char>, i64>) -> (Outcome, MachineV) {
    if ops.len() < 1 {
        fault(s, arity_message(op, 1, ops.len()))
    } else {
        let w = access_bits(ops[0]);
        match read_value(ops[0], s.regs, s.mem, symbols, default_width(ops[0])) {
            Ok(src) => match (if op == Op::Div { div_regs(s.regs, w, src) } else { idiv_regs(s.regs, w, src) }) {
                Ok(regs) => (Ok(false), with_regs(s, regs)),
                Err(e) => fault(s, e),
            },
            Err(e) => fault(s, e),
        }
    }
}

/// Where a jump goes: a label's value, a register's value or an immediate.
pub open spec fn jump_target(op: OperandV, regs: RegsV, symbols: Map<Seq<char>, i64>) -> Result<u64, Seq<char>> {
    match op {
        OperandV::Label(name) => lookup(symbols, name),
        OperandV::Register(r) => Ok(regs.value(r)),
        OperandV::Immediate(n) => Ok(n as u64),
        _ => Err("invalid jump target: "@ + operand_text(op)),
    }
}

/// Whether a conditional jump is taken under `f`.
pub open spec fn condition(op: Op, f: Flags) -> bool {
    match op {
        Op::Je => f.zf,
        Op::Jne => !f.zf,
        Op::Jl => f.sf != f.of,
        Op::Jle => f.zf || f.sf != f.of,
        Op::Jg => !f.zf && f.sf == f.of,
        Op::Jge => f.sf == f.of,
        Op::Js => f.sf,
        Op::Jns => !f.sf,
        Op::Jc => f.cf,
        Op::Jnc => !f.cf,
        Op::Jo => f.of,
        _ => !f.of,
    }
}

pub open spec fn is_conditional(op: Op) -> bool {
    match op {
        Op::Je | Op::Jne | Op::Jl | Op::Jle | Op::Jg | Op::Jge | Op::Js | Op::Jns | Op::Jc | Op::Jnc | Op::Jo | Op::Jno => true,
        _ => false,
    }
}

/// Sets the instruction pointer to the target of `op`, or faults.
pub open spec fn jump_then_continue(op: OperandV, s: MachineV, symbols: Map<Seq<char>, i64>) -> (Outcome, MachineV) {
    match jump_target(op, s.regs, symbols) {
        Ok(t) => (Ok(false), with_regs(s, RegsV { rip: t, ..s.regs })),
        Err(e) => fault(s, e),
    }
}

/// JMP, the conditional jumps, CALL, RET and LOOP.
pub open spec fn jump_spec(op: Op, ops: Seq<OperandV>, s: MachineV, symbols: Map<Seq<char>, i64>) -> (Outcome, MachineV) {
    let rsp = s.regs.get(Register::Rsp);
    if op == Op::Ret {
        match load(s.mem, rsp, Size::Qword) {
            Ok(ret) => {
                let r1 = s.regs.set(Register::Rsp, wrap64(rsp + 8));
                if ops.len() >= 1 {
                    match read_value(ops[0], r1, s.mem, symbols, RegWidth::Qword) {
                        Ok(extra) => (Ok(false), with_regs(s, RegsV { rip: ret, ..r1.set(Register::Rsp, wrap64(r1.get(Register::Rsp) + extra)) })),
                        Err(e) => fault(with_regs(s, r1), e),
                    }
                } else {
                    (Ok(false), with_regs(s, RegsV { rip: ret, ..r1 }))
                }
            },
            Err(e) => fault(s, e),
        }
    } else if ops.len() < 1 {
        fault(s, arity_message(op, 1, ops.len()))
    } else if op == Op::Jmp {
        jump_then_continue(ops[0], s, symbols)
    } else if op == Op::Call {
        let new_rsp = wrap64(rsp - 8);
        let s1 = with_regs(s, s.regs.set(Register::Rsp, new_rsp));
        match store(s.mem, new_rsp, Size::Qword, s.regs.rip) {
            Ok(mem) => jump_then_continue(ops[0], MachineV { mem, ..s1 }, symbols),
            Err(e) => fault(s1, e),
        }
    } else if op == Op::Loop {
        let rcx = wrap64(s.regs.get(Register::Rcx) - 1);
        let s1 = with_regs(s, s.regs.set(Register::Rcx, rcx));
        if rcx != 0 { jump_then_continue(ops[0], s1, symbols) } else { (Ok(false), s1) }
    } else if condition(op, s.regs.flags) {
        jump_then_continue(ops[0], s, symbols)
    } else {
        (Ok(false), s)
    }
}

/// The Linux system calls read (0) from standard input, write (1) to standard output or
/// error, and exit (60); RAX selects the call and RDI, RSI, RDX are its arguments. Any other
/// call is an error.
pub open spec fn syscall_spec(s: MachineV) -> (Outcome, MachineV) {
    let regs = s.regs;
    let rax = regs.get(Register::Rax);
    let fd = regs.get(Register::Rdi);
    let buf = regs.get(Register::Rsi);
    let len = regs.get(Register::Rdx) as usize;
    if rax == 0 {
        if fd != 0 {
            (Ok(false), with_regs(s, regs.set(Register::Rax, u64::MAX)))
        } else {
            let pos = s.io.stdin_pos;
            let available = if s.io.stdin.len() >= pos { s.io.stdin.len() - pos } else { 0 };
            let n = if len <= available { len as int } else { available };
            let bytes = s.io.stdin.subrange(pos as int, pos + n);
            match access_error(buf, n as u64, true) {
                None => (Ok(false), MachineV {
                    regs: regs.set(Register::Rax, n as u64),
                    mem: splice(s.mem, buf as int, bytes),
                    io: IoV { stdin_pos: (pos + n) as usize, ..s.io },
                }),
                Some(e) => fault(s, e),
            }
        }
    } else if rax == 1 {
        match access_error(buf, len as u64, false) {
            Some(e) => fault(s, e),
            None => {
                let bytes = s.mem.subrange(buf as int, buf + len);
                if fd == 1 {
                    (Ok(false), MachineV { regs: regs.set(Register::Rax, len as u64), io: IoV { stdout: s.io.stdout + bytes, ..s.io }, ..s })
                } else if fd == 2 {
                    (Ok(false), MachineV { regs: regs.set(Register::Rax, len as u64), io: IoV { stderr: s.io.stderr + bytes, ..s.io }, ..s })
                } else {
                    (Ok(false), with_regs(s, regs.set(Register::Rax, u64::MAX)))
                }
            },
        }
    } else if rax == 60 {
        (Ok(true), MachineV { io: IoV { exit_code: fd as i32, ..s.io }, ..s })
    } else {
        fault(s, "unknown syscall: rax="@ + decimal_digits(rax as nat))
    }
}

/// The effect of one instruction whose operands are `instr.operands`, with the instruction
/// pointer already past it.
#[verifier::opaque]
pub open spec fn execute_spec(instr: InstructionV, s: MachineV, symbols: Map<Seq<char>, i64>) -> (Outcome, MachineV) {
    let ops = instr.operands;
    let op = instr.op;
    match op {
        Op::Mov | Op::Movzx | Op::Movsx | Op::Lea | Op::Xchg => move_spec(op, ops, s, symbols),
        Op::Push | Op::Pop => stack_spec(op, ops, s, symbols),
        Op::Add | Op::Adc | Op::Sub | Op::Sbb | Op::And | Op::Or | Op::Xor | Op::Shl | Op::Shr
        | Op::Sar | Op::Rol | Op::Ror | Op::Cmp | Op::Test => binary_spec(op, ops, s, symbols),
        Op::Inc | Op::Dec | Op::Neg | Op::Not => unary_spec(op, ops, s, symbols),
        Op::Mul | Op::Imul => mul_spec(op, ops, s, symbols),
        Op::Div | Op::Idiv => div_spec(op, ops, s, symbols),
        Op::Syscall => syscall_spec(s),
        Op::Equ => (Ok(false), s),
        _ => jump_spec(op, ops, s, symbols),
    }
}

} // verus!
