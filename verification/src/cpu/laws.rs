//! Algebraic laws of the flag-computing operations, and what a compare tells the
//! conditional jumps.
use vstd::prelude::*;
use crate::ast::{InstructionV, Op, OperandV, RegRef, RegWidth, Register, Size, size_bytes};
use crate::cpu::registers::{Flags, RegsV};
use crate::cpu::memory::{lemma_load_after_store, splice};
use crate::program::{DATA_BASE, MEM_SIZE};
use crate::cpu::alu::{
    lemma_and_le, lemma_mask_idempotent, lemma_mod_window,
    add_spec, add_with_carry_spec, is_negative, modulus, signed_overflow, neg_spec, rol_spec, ror_spec, sar_spec,
    shl_spec, shr_spec, sign_bit, signed_value, sub_spec, sub_with_borrow_spec, width_mask, xor_spec,
};
use crate::cpu::semantics::{binary_spec, condition, default_width, execute_spec, jump_spec, jump_target, load, pair_bits, read_value, stack_spec, store, syscall_spec, wrap64, IoV, MachineV};

verus! {

/// The low `bits` bits of `x` are `x` modulo 2^bits.
proof fn lemma_mask_mod(x: u64, bits: u32)
    requires 1 <= bits <= 64,
    ensures
        (x & width_mask(bits)) as int == x as int % modulus(bits),
        modulus(bits) == width_mask(bits) as int + 1,
        modulus(bits) >= 2,
        0 <= (x & width_mask(bits)) <= width_mask(bits),
{
    let m = width_mask(bits);
    assert(m >= 1) by (bit_vector)
        requires m == (if bits >= 64 { u64::MAX } else { ((1u64 << bits) - 1) as u64 }), 1 <= bits <= 64;
    lemma_and_le(x, m);
    if bits == 64 {
        assert(x & m == x) by (bit_vector) requires m == u64::MAX;
        vstd::arithmetic::div_mod::lemma_small_mod(x as nat, modulus(bits) as nat);
    } else {
        let n = bits as nat;
        vstd::bits::lemma_u64_pow2_no_overflow(n);
        vstd::bits::lemma_u64_shl_is_mul(1, bits as u64);
        assert((1u64 << bits) == (1u64 << (bits as u64))) by (bit_vector);
        assert(m as nat == vstd::bits::low_bits_mask(n));
        vstd::bits::lemma_u64_low_bits_mask_is_mod(x, n);
    }
}

/// A value below 2^bits is unchanged by the mask.
proof fn lemma_small_masked(v: u64, bits: u32)
    requires 1 <= bits <= 64, (v as int) < modulus(bits),
    ensures v & width_mask(bits) == v,
{
    lemma_mask_mod(v, bits);
    vstd::arithmetic::div_mod::lemma_small_mod(v as nat, modulus(bits) as nat);
}

/// The sign bit is half the modulus, a masked value is negative exactly when it reaches the
/// sign bit, and the signed value lies in `-2^(bits-1) .. 2^(bits-1)`.
proof fn lemma_signed(x: u64, bits: u32)
    requires 1 <= bits <= 64,
    ensures
        modulus(bits) == 2 * (sign_bit(bits) as int),
        is_negative(x & width_mask(bits), bits) == ((x & width_mask(bits)) >= sign_bit(bits)),
        signed_value(x, bits) == (if (x & width_mask(bits)) >= sign_bit(bits) {
            (x & width_mask(bits)) as int - modulus(bits)
        } else {
            (x & width_mask(bits)) as int
        }),
        -(sign_bit(bits) as int) <= signed_value(x, bits) < sign_bit(bits) as int,
{
    let m = width_mask(bits);
    let s = sign_bit(bits);
    let t = x & m;
    lemma_mask_mod(x, bits);
    assert(((t & s) != 0) == (t >= s) && m as int + 1 == 2 * (s as int)) by (bit_vector)
        requires
            m == (if bits >= 64 { u64::MAX } else { ((1u64 << bits) - 1) as u64 }),
            s == 1u64 << ((bits - 1) as u32),
            t == x & m,
            1 <= bits <= 64;
}

/// Addition does not depend on the order of its operands: value and every flag agree.
pub proof fn law_add_commutes(a: u64, b: u64, bits: u32)
    requires 1 <= bits <= 64,
    ensures add_spec(a, b, bits) == add_spec(b, a, bits),
{
}

/// Subtracting a value from itself gives zero, with ZF set and CF, SF and OF clear.
pub proof fn law_sub_self(a: u64, bits: u32)
    requires 1 <= bits <= 64,
    ensures
        sub_spec(a, a, bits).val == 0,
        sub_spec(a, a, bits).flags.zf,
        !sub_spec(a, a, bits).flags.cf,
        !sub_spec(a, a, bits).flags.sf,
        !sub_spec(a, a, bits).flags.of,
{
    let z: u64 = 0;
    assert(z & width_mask(bits) == 0 && z & sign_bit(bits) == 0) by (bit_vector) requires z == 0;
    lemma_mask_mod(a, bits);
    let d = (a & width_mask(bits)) as int - (a & width_mask(bits)) as int;
    assert(d == 0);
    vstd::arithmetic::div_mod::lemma_small_mod(0, modulus(bits) as nat);
    assert(d % modulus(bits) == 0);
}

/// XOR of a value with itself is zero, with ZF set.
pub proof fn law_xor_self(a: u64, bits: u32)
    requires 1 <= bits <= 64,
    ensures
        xor_spec(a, a, bits).val == 0,
        xor_spec(a, a, bits).flags.zf,
{
    let m = width_mask(bits);
    assert((a ^ a) & m == 0) by (bit_vector);
}

/// XOR with the same value twice gives back the low `bits` bits of the first operand.
pub proof fn law_xor_twice(a: u64, b: u64, bits: u32)
    requires 1 <= bits <= 64,
    ensures xor_spec(xor_spec(a, b, bits).val, b, bits).val == a & width_mask(bits),
{
    let m = width_mask(bits);
    assert((((a ^ b) & m) ^ b) & m == a & m) by (bit_vector);
}

/// Negating twice gives back the low `bits` bits of the operand.
pub proof fn law_neg_twice(a: u64, bits: u32)
    requires 1 <= bits <= 64,
    ensures neg_spec(neg_spec(a, bits).val, bits).val == a & width_mask(bits),
{
    let mm = modulus(bits);
    lemma_mask_mod(a, bits);
    let t = (a & width_mask(bits)) as int;
    let v = neg_spec(a, bits).val;
    lemma_mod_window(mm - t, mm);
    lemma_small_masked(v, bits);
    lemma_mod_window(mm - v as int, mm);
}

/// Subtracting what was added gives back the low `bits` bits of the first operand, and adding what was
/// subtracted does too.
pub proof fn law_add_sub_roundtrip(a: u64, b: u64, bits: u32)
    requires 1 <= bits <= 64,
    ensures
        sub_spec(add_spec(a, b, bits).val, b, bits).val == a & width_mask(bits),
        add_spec(sub_spec(a, b, bits).val, b, bits).val == a & width_mask(bits),
{
    let mm = modulus(bits);
    lemma_mask_mod(a, bits);
    lemma_mask_mod(b, bits);
    let ta = (a & width_mask(bits)) as int;
    let tb = (b & width_mask(bits)) as int;
    lemma_mod_window(ta + tb, mm);
    lemma_mod_window(ta - tb, mm);
    let s = add_spec(a, b, bits).val;
    let d = sub_spec(a, b, bits).val;
    lemma_small_masked(s, bits);
    lemma_small_masked(d, bits);
    lemma_mod_window(s as int - tb, mm);
    lemma_mod_window(d as int + tb, mm);
}

/// Add with carry is the sum of both operands and the carry modulo 2^bits, with CF set
/// exactly when that sum reaches 2^bits.
pub proof fn law_add_with_carry(a: u64, b: u64, carry: bool, bits: u32)
    requires 1 <= bits <= 64,
    ensures ({
        let sum = (a & width_mask(bits)) as int + (b & width_mask(bits)) as int + (if carry { 1int } else { 0 });
        &&& add_with_carry_spec(a, b, carry, bits).val as int == sum % modulus(bits)
        &&& add_with_carry_spec(a, b, carry, bits).flags.cf == (sum >= modulus(bits))
    }),
{
    let mm = modulus(bits);
    let c: u64 = if carry { 1 } else { 0 };
    lemma_mask_mod(a, bits);
    lemma_mask_mod(b, bits);
    lemma_mask_mod(c, bits);
    let ta = (a & width_mask(bits)) as int;
    let tb = (b & width_mask(bits)) as int;
    lemma_mod_window(ta + tb, mm);
    let s1 = add_spec(a, b, bits).val;
    lemma_small_masked(s1, bits);
    vstd::arithmetic::div_mod::lemma_small_mod(c as nat, mm as nat);
    lemma_mod_window(s1 as int + c as int, mm);
    lemma_mod_window(ta + tb + c as int, mm);
}

/// Subtract with borrow is the first operand less the second and the borrow modulo 2^bits,
/// with CF set exactly when that difference is negative.
pub proof fn law_sub_with_borrow(a: u64, b: u64, borrow: bool, bits: u32)
    requires 1 <= bits <= 64,
    ensures ({
        let diff = (a & width_mask(bits)) as int - (b & width_mask(bits)) as int - (if borrow { 1int } else { 0 });
        &&& sub_with_borrow_spec(a, b, borrow, bits).val as int == diff % modulus(bits)
        &&& sub_with_borrow_spec(a, b, borrow, bits).flags.cf == (diff < 0)
    }),
{
    let mm = modulus(bits);
    let c: u64 = if borrow { 1 } else { 0 };
    lemma_mask_mod(a, bits);
    lemma_mask_mod(b, bits);
    lemma_mask_mod(c, bits);
    let ta = (a & width_mask(bits)) as int;
    let tb = (b & width_mask(bits)) as int;
    lemma_mod_window(ta - tb, mm);
    let d1 = sub_spec(a, b, bits).val;
    lemma_small_masked(d1, bits);
    vstd::arithmetic::div_mod::lemma_small_mod(c as nat, mm as nat);
    lemma_mod_window(d1 as int - c as int, mm);
    lemma_mod_window(ta - tb - c as int, mm);
}

/// After comparing `a` with `b` (a subtraction), each conditional jump is taken exactly when
/// its relation holds between the operands: equality, unsigned order for JC/JNC, signed order
/// for JL, JLE, JG and JGE.
pub proof fn law_compare_jumps(a: u64, b: u64, bits: u32)
    requires 1 <= bits <= 64,
    ensures ({
        let f = sub_spec(a, b, bits).flags;
        let ua = a & width_mask(bits);
        let ub = b & width_mask(bits);
        let sa = signed_value(a, bits);
        let sb = signed_value(b, bits);
        &&& condition(Op::Je, f) == (ua == ub)
        &&& condition(Op::Jne, f) == (ua != ub)
        &&& condition(Op::Jc, f) == (ua < ub)
        &&& condition(Op::Jnc, f) == (ua >= ub)
        &&& condition(Op::Jl, f) == (sa < sb)
        &&& condition(Op::Jge, f) == (sa >= sb)
        &&& condition(Op::Jle, f) == (sa <= sb)
        &&& condition(Op::Jg, f) == (sa > sb)
    }),
{
    let mm = modulus(bits);
    lemma_mask_mod(a, bits);
    lemma_mask_mod(b, bits);
    let ta = (a & width_mask(bits)) as int;
    let tb = (b & width_mask(bits)) as int;
    lemma_mod_window(ta - tb, mm);
    let v = sub_spec(a, b, bits).val;
    lemma_small_masked(v, bits);
    lemma_signed(a, bits);
    lemma_signed(b, bits);
    lemma_signed(v, bits);
}

/// Rotating right by the count just rotated left by gives back the low `bits` bits of the operand.
pub proof fn law_rotate_inverse(a: u64, count: u64, bits: u32)
    requires 1 <= bits <= 64,
    ensures ror_spec(rol_spec(a, count, bits).val, count, bits).val == a & width_mask(bits),
{
    let m = width_mask(bits);
    let t = a & m;
    let c = (count & 63) % (bits as u64);
    lemma_mask_mod(a, bits);
    if c != 0 {
        let b = bits as u64;
        let d = (b - c) as u64;
        let v = ((t << c) | (t >> d)) & m;
        assert(v == rol_spec(a, count, bits).val);
        let t2 = v & m;
        assert(((t2 >> c) | (t2 << d)) & m == t)
            by (bit_vector)
            requires
                m == (if b >= 64 { u64::MAX } else { ((1u64 << b) - 1) as u64 }),
                t == a & m,
                v == ((t << c) | (t >> d)) & m,
                t2 == v & m,
                d == b - c,
                0 < c < b,
                b <= 64;
    } else {
        lemma_small_masked(t, bits);
    }
}

/// A left shift that loses no set bit is undone by the logical right shift by the same count.
pub proof fn law_shl_shr_roundtrip(a: u64, count: u64, bits: u32)
    requires
        1 <= bits <= 64,
        1 <= count < bits,
        (a & width_mask(bits)) >> ((bits - count) as u64) == 0,
    ensures
        shr_spec(shl_spec(a, count, bits).val, count, bits).val == a & width_mask(bits),
{
    let m = width_mask(bits);
    let b = bits as u64;
    let v = shl_spec(a, count, bits).val;
    assert(count & 63 == count) by (bit_vector) requires count < 64;
    assert((((a << count) & m) & m) >> count == a & m) by (bit_vector)
        requires
            m == (if b >= 64 { u64::MAX } else { ((1u64 << b) - 1) as u64 }),
            1 <= count < b,
            b <= 64,
            (a & m) >> ((b - count) as u64) == 0;
}

/// An arithmetic right shift keeps the sign of the low `bits` bits.
pub proof fn law_sar_keeps_sign(a: u64, count: u64, bits: u32)
    requires 1 <= bits <= 64,
    ensures is_negative(sar_spec(a, count, bits).val, bits) == is_negative(a & width_mask(bits), bits),
{
    let m = width_mask(bits);
    let s = sign_bit(bits);
    let c = count & 63;
    let b = bits as u64;
    lemma_and_le(count, 63);
    if c != 0 {
        if is_negative(a, bits) {
            assert((((((a | !m) as i64) >> c) as u64) & m) & s != 0 && ((a & m) & s != 0)) by (bit_vector)
                requires
                    m == (if b >= 64 { u64::MAX } else { ((1u64 << b) - 1) as u64 }),
                    s == 1u64 << ((b - 1) as u64),
                    a & s != 0,
                    1 <= b <= 64,
                    c < 64;
        } else {
            assert((((((a & m) as i64) >> c) as u64) & m) & s == 0 && ((a & m) & s == 0)) by (bit_vector)
                requires
                    m == (if b >= 64 { u64::MAX } else { ((1u64 << b) - 1) as u64 }),
                    s == 1u64 << ((b - 1) as u64),
                    a & s == 0,
                    1 <= b <= 64,
                    c < 64;
        }
    } else {
        lemma_mask_idempotent(a, bits);
    }
}

/// The register file has its sixteen registers and memory its full size.
pub open spec fn machine_wf(s: MachineV) -> bool {
    s.regs.gpr.len() == 16 && s.mem.len() == MEM_SIZE
}

/// A 64-bit register operand.
pub open spec fn qword(r: Register) -> OperandV {
    OperandV::Register(RegRef { reg: r, width: RegWidth::Qword })
}

/// A load from where a store just went gives back the stored value, cut to the access size.
pub proof fn law_load_after_store(mem: Seq<u8>, addr: u64, size: Size, v: u64)
    requires
        mem.len() == MEM_SIZE,
        store(mem, addr, size, v) is Ok,
    ensures
        load(store(mem, addr, size, v)->Ok_0, addr, size) == Ok::<u64, Seq<char>>(match size {
            Size::Byte => v & 0xFF,
            Size::Word => v & 0xFFFF,
            Size::Dword => v & 0xFFFF_FFFF,
            Size::Qword => v,
        }),
{
    let n = size_bytes(size) as nat;
    lemma_load_after_store(mem, addr as int, v, n);
}

/// Pushing a register and popping into a register moves the pushed value into the popped
/// one and leaves the stack pointer where it was (unless the stack pointer itself is popped).
pub proof fn law_push_pop(s: MachineV, symbols: Map<Seq<char>, i64>, src: Register, dst: Register)
    requires
        machine_wf(s),
        stack_spec(Op::Push, seq![qword(src)], s, symbols).0 == Ok::<bool, Seq<char>>(false),
    ensures ({
        let s1 = stack_spec(Op::Push, seq![qword(src)], s, symbols).1;
        let (o2, s2) = stack_spec(Op::Pop, seq![qword(dst)], s1, symbols);
        &&& o2 == Ok::<bool, Seq<char>>(false)
        &&& s2.regs.get(dst) == s.regs.get(src)
        &&& dst != Register::Rsp ==> s2.regs.get(Register::Rsp) == s.regs.get(Register::Rsp)
        &&& s2.mem == s1.mem
    }),
{
    let rsp = s.regs.get(Register::Rsp);
    let new_rsp = wrap64(rsp - 8);
    let v = s.regs.get(src);
    crate::ast::lemma_reg_index_injective(src, dst);
    crate::ast::lemma_reg_index_injective(dst, Register::Rsp);
    lemma_load_after_store(s.mem, new_rsp as int, v, 8);
    let s1 = stack_spec(Op::Push, seq![qword(src)], s, symbols).1;
    assert(s1.regs.get(Register::Rsp) == new_rsp);
    assert(wrap64(new_rsp + 8) == rsp) by {
        lemma_mod_window(rsp - 8, 0x1_0000_0000_0000_0000);
        lemma_mod_window(new_rsp + 8, 0x1_0000_0000_0000_0000);
    }
}

/// A return right after a call goes back to the instruction after the call, with the stack
/// pointer restored.
pub proof fn law_call_ret(s: MachineV, symbols: Map<Seq<char>, i64>, target: OperandV)
    requires
        machine_wf(s),
        jump_spec(Op::Call, seq![target], s, symbols).0 == Ok::<bool, Seq<char>>(false),
    ensures ({
        let s1 = jump_spec(Op::Call, seq![target], s, symbols).1;
        let (o2, s2) = jump_spec(Op::Ret, Seq::empty(), s1, symbols);
        &&& o2 == Ok::<bool, Seq<char>>(false)
        &&& s2.regs.rip == s.regs.rip
        &&& s2.regs.get(Register::Rsp) == s.regs.get(Register::Rsp)
    }),
{
    let rsp = s.regs.get(Register::Rsp);
    let new_rsp = wrap64(rsp - 8);
    lemma_load_after_store(s.mem, new_rsp as int, s.regs.rip, 8);
    assert(wrap64(new_rsp + 8) == rsp) by {
        lemma_mod_window(rsp - 8, 0x1_0000_0000_0000_0000);
        lemma_mod_window(new_rsp + 8, 0x1_0000_0000_0000_0000);
    }
}

/// A pop undoes a push across any instructions between them that leave the stack pointer
/// and the pushed slot as the push left them: the popped register gets the pushed value and
/// the stack pointer is back where it was (unless it is the popped register).
pub proof fn law_push_then_pop(s: MachineV, symbols: Map<Seq<char>, i64>, src: Register, t: MachineV, dst: Register)
    requires
        machine_wf(s),
        machine_wf(t),
        stack_spec(Op::Push, seq![qword(src)], s, symbols).0 == Ok::<bool, Seq<char>>(false),
        ({
            let s1 = stack_spec(Op::Push, seq![qword(src)], s, symbols).1;
            let top = s1.regs.get(Register::Rsp) as int;
            &&& t.regs.get(Register::Rsp) == s1.regs.get(Register::Rsp)
            &&& t.mem.subrange(top, top + 8) == s1.mem.subrange(top, top + 8)
        }),
    ensures ({
        let (o2, t2) = stack_spec(Op::Pop, seq![qword(dst)], t, symbols);
        &&& o2 == Ok::<bool, Seq<char>>(false)
        &&& t2.regs.get(dst) == s.regs.get(src)
        &&& dst != Register::Rsp ==> t2.regs.get(Register::Rsp) == s.regs.get(Register::Rsp)
    }),
{
    let rsp = s.regs.get(Register::Rsp);
    let new_rsp = wrap64(rsp - 8);
    let v = s.regs.get(src);
    crate::ast::lemma_reg_index_injective(src, dst);
    crate::ast::lemma_reg_index_injective(dst, Register::Rsp);
    lemma_load_after_store(s.mem, new_rsp as int, v, 8);
    let s1 = stack_spec(Op::Push, seq![qword(src)], s, symbols).1;
    assert(s1.regs.get(Register::Rsp) == new_rsp);
    assert(load(t.mem, new_rsp, Size::Qword) == load(s1.mem, new_rsp, Size::Qword));
    assert(wrap64(new_rsp + 8) == rsp) by {
        lemma_mod_window(rsp - 8, 0x1_0000_0000_0000_0000);
        lemma_mod_window(new_rsp + 8, 0x1_0000_0000_0000_0000);
    }
}

/// A return comes back from a call across any callee that leaves the stack pointer and the
/// return slot as the call left them: to the instruction after the call, with the stack
/// pointer restored.
pub proof fn law_call_then_ret(s: MachineV, symbols: Map<Seq<char>, i64>, target: OperandV, t: MachineV)
    requires
        machine_wf(s),
        machine_wf(t),
        jump_spec(Op::Call, seq![target], s, symbols).0 == Ok::<bool, Seq<char>>(false),
        ({
            let s1 = jump_spec(Op::Call, seq![target], s, symbols).1;
            let top = s1.regs.get(Register::Rsp) as int;
            &&& t.regs.get(Register::Rsp) == s1.regs.get(Register::Rsp)
            &&& t.mem.subrange(top, top + 8) == s1.mem.subrange(top, top + 8)
        }),
    ensures ({
        let (o2, t2) = jump_spec(Op::Ret, Seq::empty(), t, symbols);
        &&& o2 == Ok::<bool, Seq<char>>(false)
        &&& t2.regs.rip == s.regs.rip
        &&& t2.regs.get(Register::Rsp) == s.regs.get(Register::Rsp)
    }),
{
    let rsp = s.regs.get(Register::Rsp);
    let new_rsp = wrap64(rsp - 8);
    lemma_load_after_store(s.mem, new_rsp as int, s.regs.rip, 8);
    let s1 = jump_spec(Op::Call, seq![target], s, symbols).1;
    assert(s1.regs.get(Register::Rsp) == new_rsp);
    assert(load(t.mem, new_rsp, Size::Qword) == load(s1.mem, new_rsp, Size::Qword));
    assert(wrap64(new_rsp + 8) == rsp) by {
        lemma_mod_window(rsp - 8, 0x1_0000_0000_0000_0000);
        lemma_mod_window(new_rsp + 8, 0x1_0000_0000_0000_0000);
    }
}

/// Rotating left by the count just rotated right by gives back the low `bits` bits of the
/// operand. A left rotation's carry is its result's low bit, a right rotation's its sign bit.
pub proof fn law_rotate_inverse_right(a: u64, count: u64, bits: u32)
    requires 1 <= bits <= 64,
    ensures
        rol_spec(ror_spec(a, count, bits).val, count, bits).val == a & width_mask(bits),
        rol_spec(a, count, bits).flags.cf == (rol_spec(a, count, bits).val & 1 == 1),
        ror_spec(a, count, bits).flags.cf == is_negative(ror_spec(a, count, bits).val, bits),
{
    let m = width_mask(bits);
    let t = a & m;
    let c = (count & 63) % (bits as u64);
    lemma_mask_mod(a, bits);
    let r = rol_spec(a, count, bits).val;
    assert(((r & 1) != 0) == ((r & 1) == 1)) by (bit_vector);
    if c != 0 {
        let b = bits as u64;
        let d = (b - c) as u64;
        let v = ((t >> c) | (t << d)) & m;
        assert(v == ror_spec(a, count, bits).val);
        let t2 = v & m;
        assert(((t2 << c) | (t2 >> d)) & m == t)
            by (bit_vector)
            requires
                m == (if b >= 64 { u64::MAX } else { ((1u64 << b) - 1) as u64 }),
                t == a & m,
                v == ((t >> c) | (t << d)) & m,
                t2 == v & m,
                d == b - c,
                0 < c < b,
                b <= 64;
    } else {
        lemma_small_masked(t, bits);
    }
}

/// Negation sets CF exactly when its operand is not zero, and OF exactly when the operand is
/// the most negative value of its width.
pub proof fn law_neg_flags(a: u64, bits: u32)
    requires 1 <= bits <= 64,
    ensures
        neg_spec(a, bits).flags.cf == (a & width_mask(bits) != 0),
        neg_spec(a, bits).flags.of == (a & width_mask(bits) == sign_bit(bits)),
        neg_spec(a, bits).flags.zf == (a & width_mask(bits) == 0),
{
    let mm = modulus(bits);
    lemma_mask_mod(a, bits);
    lemma_signed(a, bits);
    let t = (a & width_mask(bits)) as int;
    lemma_mod_window(mm - t, mm);
}

/// A shift or rotation whose count, masked to six bits, is 0 leaves every flag as it was.
pub proof fn law_zero_count_keeps_flags(op: Op, ops: Seq<OperandV>, s: MachineV, symbols: Map<Seq<char>, i64>)
    requires
        op == Op::Shl || op == Op::Shr || op == Op::Sar || op == Op::Rol || op == Op::Ror,
        ops.len() >= 2,
        read_value(ops[1], s.regs, s.mem, symbols, default_width(ops[0])) matches Ok(count) && count & 63 == 0,
    ensures
        binary_spec(op, ops, s, symbols).1.regs.flags == s.regs.flags,
{
}

/// TEST and CMP only set flags: the registers other than the flags, memory and the buffers
/// stay as they were. TEST's flags are those of the AND of its operands: ZF exactly when they
/// share no set bit, CF and OF clear. CMP's are those of the subtraction: ZF exactly when the
/// operands are equal, CF exactly when the first is below the second (unsigned).
pub proof fn law_test_and_compare_set_only_flags(op: Op, ops: Seq<OperandV>, s: MachineV, symbols: Map<Seq<char>, i64>, line: usize)
    requires
        op == Op::Test || op == Op::Cmp,
        ops.len() >= 2,
        read_value(ops[0], s.regs, s.mem, symbols, default_width(ops[0])) is Ok,
        read_value(ops[1], s.regs, s.mem, symbols, default_width(ops[0])) is Ok,
    ensures ({
        let (o, s2) = execute_spec(InstructionV { op, operands: ops, line }, s, symbols);
        let a = read_value(ops[0], s.regs, s.mem, symbols, default_width(ops[0]))->Ok_0;
        let b = read_value(ops[1], s.regs, s.mem, symbols, default_width(ops[0]))->Ok_0;
        let m = width_mask(pair_bits(ops[0], ops[1]));
        &&& o == Ok::<bool, Seq<char>>(false)
        &&& s2.regs.gpr == s.regs.gpr
        &&& s2.regs.rip == s.regs.rip
        &&& s2.mem == s.mem
        &&& s2.io == s.io
        &&& op == Op::Test ==> s2.regs.flags.zf == ((a & b) & m == 0) && !s2.regs.flags.cf && !s2.regs.flags.of
        &&& op == Op::Cmp ==> s2.regs.flags.zf == (a & m == b & m) && s2.regs.flags.cf == ((a & m) < (b & m))
    }),
{
    reveal(execute_spec);
    let bits = pair_bits(ops[0], ops[1]);
    assert(1 <= bits <= 64);
    let a = read_value(ops[0], s.regs, s.mem, symbols, default_width(ops[0]))->Ok_0;
    let b = read_value(ops[1], s.regs, s.mem, symbols, default_width(ops[0]))->Ok_0;
    lemma_mask_mod(a, bits);
    lemma_mask_mod(b, bits);
    let ta = (a & width_mask(bits)) as int;
    let tb = (b & width_mask(bits)) as int;
    lemma_mod_window(ta - tb, modulus(bits));
}

/// Each conditional jump on a single flag is taken exactly when its flag is set (JO on OF,
/// JC on CF, JE on ZF, JS on SF) and its negation exactly when it is clear.
pub proof fn law_flag_conditions(f: Flags)
    ensures
        condition(Op::Jo, f) == f.of,
        condition(Op::Jno, f) == !f.of,
        condition(Op::Jc, f) == f.cf,
        condition(Op::Jnc, f) == !f.cf,
        condition(Op::Je, f) == f.zf,
        condition(Op::Jne, f) == !f.zf,
        condition(Op::Js, f) == f.sf,
        condition(Op::Jns, f) == !f.sf,
{
}

/// JO goes to its target exactly when the overflow flag is set, and JNO exactly when it is
/// clear; otherwise the instruction changes nothing.
pub proof fn law_overflow_jumps(op: Op, target: OperandV, s: MachineV, symbols: Map<Seq<char>, i64>, line: usize)
    requires
        op == Op::Jo || op == Op::Jno,
        jump_target(target, s.regs, symbols) is Ok,
    ensures ({
        let t = jump_target(target, s.regs, symbols)->Ok_0;
        let taken = if op == Op::Jo { s.regs.flags.of } else { !s.regs.flags.of };
        execute_spec(InstructionV { op, operands: seq![target], line }, s, symbols)
            == (Ok::<bool, Seq<char>>(false), if taken { MachineV { regs: RegsV { rip: t, ..s.regs }, ..s } } else { s })
    }),
{
    reveal(execute_spec);
}

/// After an addition the overflow jump is taken exactly when the signed sum of the operands
/// leaves the signed range of the width.
pub proof fn law_overflow_after_add(a: u64, b: u64, bits: u32)
    requires 1 <= bits <= 64,
    ensures
        condition(Op::Jo, add_spec(a, b, bits).flags)
            == signed_overflow(signed_value(a, bits) + signed_value(b, bits), bits),
{
    let mm = modulus(bits);
    lemma_mask_mod(a, bits);
    lemma_mask_mod(b, bits);
    let ta = (a & width_mask(bits)) as int;
    let tb = (b & width_mask(bits)) as int;
    lemma_mod_window(ta + tb, mm);
    let v = add_spec(a, b, bits).val;
    lemma_small_masked(v, bits);
    lemma_signed(a, bits);
    lemma_signed(b, bits);
    lemma_signed(v, bits);
}

/// A write (RAX = 1) to standard output (RDI = 1) or standard error (RDI = 2) of the RDX
/// bytes at RSI, all within memory, appends exactly those bytes to that stream, leaves memory,
/// the other stream and the input alone, and returns the number of bytes written, RDX, in
/// RAX.
pub proof fn law_write_returns_count(s: MachineV)
    requires
        s.regs.gpr.len() == 16,
        s.regs.get(Register::Rax) == 1,
        s.regs.get(Register::Rdi) == 1 || s.regs.get(Register::Rdi) == 2,
        s.regs.get(Register::Rsi) + s.regs.get(Register::Rdx) <= MEM_SIZE,
    ensures ({
        let (o, s2) = syscall_spec(s);
        let rsi = s.regs.get(Register::Rsi) as int;
        let n = s.regs.get(Register::Rdx);
        let bytes = s.mem.subrange(rsi, rsi + n);
        &&& o == Ok::<bool, Seq<char>>(false)
        &&& s2.regs == s.regs.set(Register::Rax, n)
        &&& s2.regs.get(Register::Rax) == n
        &&& s2.mem == s.mem
        &&& s.regs.get(Register::Rdi) == 1 ==> s2.io == IoV { stdout: s.io.stdout + bytes, ..s.io }
        &&& s.regs.get(Register::Rdi) == 2 ==> s2.io == IoV { stderr: s.io.stderr + bytes, ..s.io }
    }),
{
}

/// The exit system call (RAX = 60) halts with the low 32 bits of RDI as the exit code and
/// changes nothing else.
pub proof fn law_exit_halts(s: MachineV)
    requires s.regs.get(Register::Rax) == 60,
    ensures
        syscall_spec(s) == (Ok::<bool, Seq<char>>(true), MachineV { io: IoV { exit_code: s.regs.get(Register::Rdi) as i32, ..s.io }, ..s }),
{
}

/// A read (RAX = 0) from standard input (RDI = 0) into writable memory takes as many of the
/// unread input bytes as RDX asks for, or all that are left: it stores them at RSI, leaves
/// the rest of memory alone, moves the input position past them and returns their number
/// in RAX.
pub proof fn law_read_takes_input(s: MachineV)
    requires
        s.regs.gpr.len() == 16,
        s.mem.len() == MEM_SIZE,
        s.io.stdin_pos <= s.io.stdin.len() <= usize::MAX,
        s.regs.get(Register::Rax) == 0,
        s.regs.get(Register::Rdi) == 0,
        s.regs.get(Register::Rsi) >= DATA_BASE,
        s.regs.get(Register::Rsi) + s.regs.get(Register::Rdx) <= MEM_SIZE,
    ensures ({
        let (o, s2) = syscall_spec(s);
        let buf = s.regs.get(Register::Rsi) as int;
        let pos = s.io.stdin_pos as int;
        let left = s.io.stdin.len() - pos;
        let n: int = if s.regs.get(Register::Rdx) <= left { s.regs.get(Register::Rdx) as int } else { left };
        &&& o == Ok::<bool, Seq<char>>(false)
        &&& s2.regs.get(Register::Rax) == n
        &&& s2.io.stdin_pos == pos + n
        &&& s2.io.stdout == s.io.stdout && s2.io.stderr == s.io.stderr && s2.io.stdin == s.io.stdin
        &&& s2.mem.len() == s.mem.len()
        &&& forall|i: int| 0 <= i < n ==> #[trigger] s2.mem[buf + i] == s.io.stdin[pos + i]
        &&& forall|a: int| 0 <= a < s.mem.len() && !(buf <= a < buf + n) ==> #[trigger] s2.mem[a] == s.mem[a]
    }),
{
    let buf = s.regs.get(Register::Rsi) as int;
    let pos = s.io.stdin_pos as int;
    let left = s.io.stdin.len() - pos;
    let n: int = if s.regs.get(Register::Rdx) <= left { s.regs.get(Register::Rdx) as int } else { left };
    let s2 = syscall_spec(s).1;
    let bytes = s.io.stdin.subrange(pos, pos + n);
    assert(s2.mem == splice(s.mem, buf, bytes));
    assert forall|i: int| 0 <= i < n implies #[trigger] s2.mem[buf + i] == s.io.stdin[pos + i] by {
        assert(splice(s.mem, buf, bytes)[buf + i] == bytes[i]);
    }
    assert forall|a: int| 0 <= a < s.mem.len() && !(buf <= a < buf + n) implies #[trigger] s2.mem[a] == s.mem[a] by {
        if a < buf {
            assert(splice(s.mem, buf, bytes)[a] == s.mem.take(buf)[a]);
        } else {
            assert(splice(s.mem, buf, bytes)[a] == s.mem.skip(buf + n)[a - buf - n]);
        }
    }
}

/// MOV between 64-bit registers copies the source into the destination and changes
/// nothing else.
pub proof fn law_mov_copies(dst: Register, src: Register, s: MachineV, symbols: Map<Seq<char>, i64>, line: usize)
    ensures
        execute_spec(InstructionV { op: Op::Mov, operands: seq![qword(dst), qword(src)], line }, s, symbols)
            == (Ok::<bool, Seq<char>>(false), MachineV { regs: s.regs.set(dst, s.regs.get(src)), ..s }),
{
    reveal(execute_spec);
}

/// INC and DEC of a 64-bit register add or take one modulo 2^64, keep the carry flag, set ZF
/// exactly when the result is zero and OF exactly when the signed value steps past the
/// signed range; nothing else changes.
pub proof fn law_inc_dec(op: Op, r: Register, s: MachineV, symbols: Map<Seq<char>, i64>, line: usize)
    requires
        op == Op::Inc || op == Op::Dec,
        s.regs.gpr.len() == 16,
    ensures ({
        let v = s.regs.get(r);
        let (o, s2) = execute_spec(InstructionV { op, operands: seq![qword(r)], line }, s, symbols);
        let w = if op == Op::Inc { wrap64(v + 1) } else { wrap64(v - 1) };
        &&& o == Ok::<bool, Seq<char>>(false)
        &&& s2.regs.gpr == s.regs.set(r, w).gpr
        &&& s2.regs.rip == s.regs.rip
        &&& s2.mem == s.mem && s2.io == s.io
        &&& s2.regs.flags.cf == s.regs.flags.cf
        &&& s2.regs.flags.zf == (w == 0)
        &&& s2.regs.flags.of == (if op == Op::Inc { v == 0x7FFF_FFFF_FFFF_FFFF } else { v == 0x8000_0000_0000_0000 })
    }),
{
    reveal(execute_spec);
    let v = s.regs.get(r);
    lemma_mask_mod(v, 64);
    lemma_mask_mod(1, 64);
    lemma_mod_window(v + 1, 0x1_0000_0000_0000_0000);
    lemma_mod_window(v - 1, 0x1_0000_0000_0000_0000);
    let w = if op == Op::Inc { wrap64(v + 1) } else { wrap64(v - 1) };
    lemma_small_masked(w, 64);
    lemma_signed(v, 64);
    lemma_signed(1, 64);
    lemma_signed(w, 64);
}

/// NOT of a 64-bit register flips every bit and changes no flag.
pub proof fn law_not_flips_bits(r: Register, s: MachineV, symbols: Map<Seq<char>, i64>, line: usize)
    ensures
        execute_spec(InstructionV { op: Op::Not, operands: seq![qword(r)], line }, s, symbols)
            == (Ok::<bool, Seq<char>>(false), MachineV { regs: s.regs.set(r, !s.regs.get(r)), ..s }),
{
    reveal(execute_spec);
    let v = s.regs.get(r);
    assert(!v & 0xFFFF_FFFF_FFFF_FFFFu64 == !v) by (bit_vector);
}

/// LOOP takes one from RCX and goes to its target exactly when RCX is then not zero.
pub proof fn law_loop_counts_down(target: OperandV, s: MachineV, symbols: Map<Seq<char>, i64>, line: usize)
    requires jump_target(target, s.regs.set(Register::Rcx, wrap64(s.regs.get(Register::Rcx) - 1)), symbols) is Ok,
    ensures ({
        let rcx = wrap64(s.regs.get(Register::Rcx) - 1);
        let regs = s.regs.set(Register::Rcx, rcx);
        let t = jump_target(target, regs, symbols)->Ok_0;
        execute_spec(InstructionV { op: Op::Loop, operands: seq![target], line }, s, symbols)
            == (Ok::<bool, Seq<char>>(false), MachineV { regs: if rcx != 0 { RegsV { rip: t, ..regs } } else { regs }, ..s })
    }),
{
    reveal(execute_spec);
}

} // verus!
