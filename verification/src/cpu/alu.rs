//! Flag-computing arithmetic and logic on values of 1 to 64 bits.
use vstd::prelude::*;
use crate::ast::{RegWidth, Size};
use crate::cpu::registers::Flags;

verus! {

/// All-ones value of `bits` bits.
pub open spec fn width_mask(bits: u32) -> u64 {
    if bits >= 64 { u64::MAX } else { ((1u64 << bits) - 1) as u64 }
}

/// 2 to the power `bits`, the number of values of that width.
pub open spec fn modulus(bits: u32) -> int {
    width_mask(bits) as int + 1
}

/// The most significant bit of a `bits`-wide value.
pub open spec fn sign_bit(bits: u32) -> u64 {
    1u64 << ((bits - 1) as u32)
}

pub open spec fn is_negative(x: u64, bits: u32) -> bool {
    x & sign_bit(bits) != 0
}

/// The two's-complement value of the low `bits` bits of `x`.
pub open spec fn signed_value(x: u64, bits: u32) -> int {
    let t = x & width_mask(bits);
    if is_negative(t, bits) { t as int - modulus(bits) } else { t as int }
}

/// Bit `i` of `x` as 0 or 1.
pub open spec fn bit(x: u64, i: u64) -> u64 {
    (x >> i) & 1
}

/// True when the low byte of `v` has an even number of set bits.
pub open spec fn even_parity(v: u64) -> bool {
    (bit(v, 0) + bit(v, 1) + bit(v, 2) + bit(v, 3) + bit(v, 4) + bit(v, 5) + bit(v, 6) + bit(v, 7)) % 2 == 0
}

/// Flags of a logic result: zero, sign and parity from the value; carry and overflow clear.
pub open spec fn result_flags(val: u64, bits: u32) -> Flags {
    Flags { cf: false, zf: val == 0, sf: is_negative(val, bits), of: false, pf: even_parity(val) }
}

pub struct AluResult {
    pub val: u64,
    pub flags: Flags,
}

/// Sum of the low `bits` bits of `a` and `b`, with carry and signed overflow.
pub open spec fn add_spec(a: u64, b: u64, bits: u32) -> AluResult {
    let m = width_mask(bits);
    let sum = (a & m) as int + (b & m) as int;
    let val = (sum % modulus(bits)) as u64;
    AluResult {
        val,
        flags: Flags {
            cf: sum >= modulus(bits),
            zf: val == 0,
            sf: is_negative(val, bits),
            of: signed_value(a, bits) + signed_value(b, bits) != signed_value(val, bits),
            pf: even_parity(val),
        },
    }
}

/// Difference of the low `bits` bits of `a` and `b`, with borrow and signed overflow.
pub open spec fn sub_spec(a: u64, b: u64, bits: u32) -> AluResult {
    let m = width_mask(bits);
    let diff = (a & m) as int - (b & m) as int;
    let val = (diff % modulus(bits)) as u64;
    AluResult {
        val,
        flags: Flags {
            cf: diff < 0,
            zf: val == 0,
            sf: is_negative(val, bits),
            of: signed_value(a, bits) - signed_value(b, bits) != signed_value(val, bits),
            pf: even_parity(val),
        },
    }
}

/// Whether `x` lies outside the signed range of `bits` bits.
pub open spec fn signed_overflow(x: int, bits: u32) -> bool {
    !(-(sign_bit(bits) as int) <= x < sign_bit(bits) as int)
}

/// Sum of the low `bits` bits of `a`, `b` and the carry, with carry out and signed overflow of
/// the whole sum.
pub open spec fn add_with_carry_spec(a: u64, b: u64, carry: bool, bits: u32) -> AluResult {
    let m = width_mask(bits);
    let c: int = if carry { 1 } else { 0 };
    let sum = (a & m) as int + (b & m) as int + c;
    let val = (sum % modulus(bits)) as u64;
    AluResult {
        val,
        flags: Flags {
            cf: sum >= modulus(bits),
            zf: val == 0,
            sf: is_negative(val, bits),
            of: signed_overflow(signed_value(a, bits) + signed_value(b, bits) + c, bits),
            pf: even_parity(val),
        },
    }
}

/// Difference of the low `bits` bits of `a`, `b` and the borrow, with borrow out and signed
/// overflow of the whole difference.
pub open spec fn sub_with_borrow_spec(a: u64, b: u64, borrow: bool, bits: u32) -> AluResult {
    let m = width_mask(bits);
    let c: int = if borrow { 1 } else { 0 };
    let diff = (a & m) as int - (b & m) as int - c;
    let val = (diff % modulus(bits)) as u64;
    AluResult {
        val,
        flags: Flags {
            cf: diff < 0,
            zf: val == 0,
            sf: is_negative(val, bits),
            of: signed_overflow(signed_value(a, bits) - signed_value(b, bits) - c, bits),
            pf: even_parity(val),
        },
    }
}

pub open spec fn and_spec(a: u64, b: u64, bits: u32) -> AluResult {
    let val = (a & b) & width_mask(bits);
    AluResult { val, flags: result_flags(val, bits) }
}

pub open spec fn or_spec(a: u64, b: u64, bits: u32) -> AluResult {
    let val = (a | b) & width_mask(bits);
    AluResult { val, flags: result_flags(val, bits) }
}

pub open spec fn xor_spec(a: u64, b: u64, bits: u32) -> AluResult {
    let val = (a ^ b) & width_mask(bits);
    AluResult { val, flags: result_flags(val, bits) }
}

/// Left shift by `count & 63`: carry is the last bit shifted out, overflow (count 1) is
/// carry differing from the new sign. A count of 0 shifts nothing; the instruction then
/// keeps the flags it had (`semantics::zero_count_shift`), and the flags here are unused.
pub open spec fn shl_spec(a: u64, count: u64, bits: u32) -> AluResult {
    let c = count & 63;
    if c == 0 {
        AluResult { val: a & width_mask(bits), flags: result_flags(a & width_mask(bits), bits) }
    } else {
        let cf = c <= bits && bit(a, (bits - c) as u64) == 1;
        let val = (a << c) & width_mask(bits);
        let sf = is_negative(val, bits);
        AluResult { val, flags: Flags { cf, zf: val == 0, sf, of: c == 1 && sf != cf, pf: even_parity(val) } }
    }
}

/// Logical right shift of the low `bits` bits by `count & 63`: carry is the last bit shifted
/// out, overflow (count 1) is the sign of the operand. With a count of 0 the instruction keeps
/// its flags, as for `shl_spec`.
pub open spec fn shr_spec(a: u64, count: u64, bits: u32) -> AluResult {
    let t = a & width_mask(bits);
    let c = count & 63;
    if c == 0 {
        AluResult { val: t, flags: result_flags(t, bits) }
    } else {
        let cf = c <= bits && bit(t, (c - 1) as u64) == 1;
        let val = t >> c;
        AluResult { val, flags: Flags { cf, zf: val == 0, sf: is_negative(val, bits), of: c == 1 && is_negative(t, bits), pf: even_parity(val) } }
    }
}

/// The low `bits` bits of `a`, sign-extended to 64 bits.
pub open spec fn sign_extend(a: u64, bits: u32) -> i64 {
    if is_negative(a, bits) { (a | !width_mask(bits)) as i64 } else { (a & width_mask(bits)) as i64 }
}

/// Arithmetic right shift of the low `bits` bits by `count & 63`: the sign fills from the left,
/// carry is the last bit shifted out, overflow is clear. With a count of 0 the instruction
/// keeps its flags, as for `shl_spec`.
pub open spec fn sar_spec(a: u64, count: u64, bits: u32) -> AluResult {
    let s = sign_extend(a, bits);
    let c = count & 63;
    if c == 0 {
        AluResult { val: a & width_mask(bits), flags: result_flags(a & width_mask(bits), bits) }
    } else {
        let cf = if c <= bits { (s >> ((c - 1) as u64)) & 1 != 0 } else { s < 0 };
        let val = ((s >> c) as u64) & width_mask(bits);
        AluResult { val, flags: Flags { cf, zf: val == 0, sf: is_negative(val, bits), of: false, pf: even_parity(val) } }
    }
}

/// Rotation left of the low `bits` bits by `(count & 63) % bits`: carry is the new low bit.
/// When `count & 63` is 0 the instruction keeps its flags, as for `shl_spec`.
pub open spec fn rol_spec(a: u64, count: u64, bits: u32) -> AluResult {
    let t = a & width_mask(bits);
    let c = (count & 63) % (bits as u64);
    let val = if c == 0 { t } else { ((t << c) | (t >> ((bits - c) as u64))) & width_mask(bits) };
    let cf = val & 1 != 0;
    AluResult { val, flags: Flags { cf, zf: val == 0, sf: is_negative(val, bits), of: c == 1 && cf != is_negative(val, bits), pf: even_parity(val) } }
}

/// Rotation right of the low `bits` bits by `(count & 63) % bits`: carry is the new sign bit.
/// When `count & 63` is 0 the instruction keeps its flags, as for `shl_spec`.
pub open spec fn ror_spec(a: u64, count: u64, bits: u32) -> AluResult {
    let t = a & width_mask(bits);
    let c = (count & 63) % (bits as u64);
    let val = if c == 0 { t } else { ((t >> c) | (t << ((bits - c) as u64))) & width_mask(bits) };
    let cf = is_negative(val, bits);
    AluResult { val, flags: Flags { cf, zf: val == 0, sf: cf, of: c == 1 && (val & sign_bit(bits)) != ((val << 1u64) & sign_bit(bits)), pf: even_parity(val) } }
}

/// Two's-complement negation of the low `bits` bits.
pub open spec fn neg_spec(a: u64, bits: u32) -> AluResult {
    let val = ((modulus(bits) - (a & width_mask(bits)) as int) % modulus(bits)) as u64;
    AluResult { val, flags: Flags { cf: val != 0, zf: val == 0, sf: is_negative(val, bits), of: val == sign_bit(bits), pf: even_parity(val) } }
}

/// Taking a sum or difference of values below `m` modulo `m`.
pub(crate) proof fn lemma_mod_window(x: int, m: int)
    requires m > 0, -m <= x < 2 * m,
    ensures x % m == (if x >= m { x - m } else if x < 0 { x + m } else { x }),
{
    if x >= m {
        vstd::arithmetic::div_mod::lemma_mod_sub_multiples_vanish(x, m);
        vstd::arithmetic::div_mod::lemma_small_mod((x - m) as nat, m as nat);
    } else if x < 0 {
        vstd::arithmetic::div_mod::lemma_mod_add_multiples_vanish(x, m);
        vstd::arithmetic::div_mod::lemma_small_mod((x + m) as nat, m as nat);
    } else {
        vstd::arithmetic::div_mod::lemma_small_mod(x as nat, m as nat);
    }
}

/// `x & m` never exceeds `m`.
pub(crate) proof fn lemma_and_le(x: u64, m: u64)
    ensures x & m <= m,
{
    assert(x & m <= m) by (bit_vector);
}

pub(crate) fn mask_for(bits: u32) -> (m: u64)
    requires 1 <= bits <= 64,
    ensures m == width_mask(bits),
{
    if bits >= 64 {
        u64::MAX
    } else {
        assert(1u64 << bits >= 1) by (bit_vector) requires bits < 64;
        (1u64 << bits) - 1
    }
}

pub(crate) fn sign_bit_for(bits: u32) -> (s: u64)
    requires 1 <= bits <= 64,
    ensures s == sign_bit(bits),
{
    1u64 << (bits - 1)
}

fn parity(v: u64) -> (p: bool)
    ensures p == even_parity(v),
{
    let x = v & 0xFF;
    let y = x ^ (x >> 4u64);
    let z = y ^ (y >> 2u64);
    let w = z ^ (z >> 1u64);
    assert((w & 1 == 0) == even_parity(v)) by (bit_vector)
        requires x == v & 0xFF, y == x ^ (x >> 4u64), z == y ^ (y >> 2u64), w == z ^ (z >> 1u64);
    w & 1 == 0
}

fn flags_from_result(val: u64, bits: u32) -> (f: Flags)
    requires 1 <= bits <= 64, val == val & width_mask(bits),
    ensures f == result_flags(val, bits),
{
    let mask = mask_for(bits);
    let masked = val & mask;
    let sign_bit = sign_bit_for(bits);
    Flags { cf: val != masked, zf: masked == 0, sf: (masked & sign_bit) != 0, of: false, pf: parity(masked) }
}

proof fn lemma_mask_facts(bits: u32)
    requires 1 <= bits <= 64,
    ensures
        sign_bit(bits) & width_mask(bits) == sign_bit(bits),
        modulus(bits) == width_mask(bits) as int + 1,
{
    let m = width_mask(bits);
    let s = sign_bit(bits);
    assert(s & m == s) by (bit_vector)
        requires m == (if bits >= 64 { u64::MAX } else { ((1u64 << bits) - 1) as u64 }),
            s == 1u64 << ((bits - 1) as u32), 1 <= bits <= 64;
}

/// For a mask of the form 2^k - 1, a value changes under the mask exactly when it exceeds it.
proof fn lemma_mask_exceeds(v: u64, bits: u32)
    requires 1 <= bits <= 64,
    ensures (v & width_mask(bits) != v) == (v > width_mask(bits)),
{
    let m = width_mask(bits);
    assert((v & m != v) == (v > m)) by (bit_vector)
        requires m == (if bits >= 64 { u64::MAX } else { ((1u64 << bits) - 1) as u64 }), 1 <= bits <= 64;
}

/// The sign-bit test of an addition agrees with two's-complement overflow.
proof fn lemma_add_overflow(a: u64, b: u64, bits: u32)
    requires 1 <= bits <= 64,
    ensures ({
        let v = a.wrapping_add(b) & width_mask(bits);
        let s = sign_bit(bits);
        (((a & s) != 0) == ((b & s) != 0) && (((v & s) != 0) != ((a & s) != 0)))
            == (signed_value(a, bits) + signed_value(b, bits) != signed_value(v, bits))
    }),
{
    let m = width_mask(bits);
    let s = sign_bit(bits);
    let v = a.wrapping_add(b) & m;
    assert((((a & s) != 0) == ((b & s) != 0) && (((v & s) != 0) != ((a & s) != 0)))
        == ((if (a & m) & s != 0 { (a & m) as int - (m as int + 1) } else { (a & m) as int })
            + (if (b & m) & s != 0 { (b & m) as int - (m as int + 1) } else { (b & m) as int })
            != (if (v & m) & s != 0 { (v & m) as int - (m as int + 1) } else { (v & m) as int }))) by (bit_vector)
        requires m == (if bits >= 64 { u64::MAX } else { ((1u64 << bits) - 1) as u64 }),
            s == 1u64 << ((bits - 1) as u32), 1 <= bits <= 64, v == a.wrapping_add(b) & m;
}

pub fn add(a: u64, b: u64, bits: u32) -> (r: AluResult)
    requires 1 <= bits <= 64,
    ensures r == add_spec(a, b, bits),
{
    let mask = mask_for(bits);
    let result_masked = a.wrapping_add(b) & mask;
    let cf = match (a & mask).checked_add(b & mask) {
        Some(v) => v & mask != v,
        None => true,
    };
    let sign_bit = sign_bit_for(bits);
    let sf = (result_masked & sign_bit) != 0;
    let a_sign = (a & sign_bit) != 0;
    let b_sign = (b & sign_bit) != 0;
    let of = (a_sign == b_sign) && (sf != a_sign);
    let pf = parity(result_masked);
    proof {
        lemma_mask_facts(bits);
        let ghost sum = (a & mask) as int + (b & mask) as int;
        assert(result_masked as int == (if (a & mask) as int + (b & mask) as int > mask as int { (a & mask) as int + (b & mask) as int - (mask as int + 1) } else { (a & mask) as int + (b & mask) as int })) by (bit_vector)
            requires mask == (if bits >= 64 { u64::MAX } else { ((1u64 << bits) - 1) as u64 }), 1 <= bits <= 64,
                result_masked == a.wrapping_add(b) & mask;
        lemma_and_le(a, mask);
        lemma_and_le(b, mask);
        lemma_mod_window(sum, mask as int + 1);
        if sum <= u64::MAX {
            lemma_mask_exceeds(((a & mask) + (b & mask)) as u64, bits);
        }
        lemma_add_overflow(a, b, bits);
    }
    AluResult { val: result_masked, flags: Flags { cf, zf: result_masked == 0, sf, of, pf } }
}


/// The sign-bit test of a subtraction agrees with two's-complement overflow.
proof fn lemma_sub_overflow(a: u64, b: u64, bits: u32)
    requires 1 <= bits <= 64,
    ensures ({
        let v = a.wrapping_sub(b) & width_mask(bits);
        let s = sign_bit(bits);
        (((a & s) != 0) != ((b & s) != 0) && (((v & s) != 0) != ((a & s) != 0)))
            == (signed_value(a, bits) - signed_value(b, bits) != signed_value(v, bits))
    }),
{
    let m = width_mask(bits);
    let s = sign_bit(bits);
    let v = a.wrapping_sub(b) & m;
    assert((((a & s) != 0) != ((b & s) != 0) && (((v & s) != 0) != ((a & s) != 0)))
        == ((if (a & m) & s != 0 { (a & m) as int - (m as int + 1) } else { (a & m) as int })
            - (if (b & m) & s != 0 { (b & m) as int - (m as int + 1) } else { (b & m) as int })
            != (if (v & m) & s != 0 { (v & m) as int - (m as int + 1) } else { (v & m) as int }))) by (bit_vector)
        requires m == (if bits >= 64 { u64::MAX } else { ((1u64 << bits) - 1) as u64 }),
            s == 1u64 << ((bits - 1) as u32), 1 <= bits <= 64, v == a.wrapping_sub(b) & m;
}

/// The two's-complement value of the low `bits` bits of `x`.
pub(crate) fn signed_of(x: u64, bits: u32) -> (v: i128)
    requires 1 <= bits <= 64,
    ensures v == signed_value(x, bits),
{
    let m = mask_for(bits);
    let t = x & m;
    let s = sign_bit_for(bits);
    proof { lemma_mask_facts(bits); }
    if t & s != 0 { t as i128 - (m as i128 + 1) } else { t as i128 }
}

/// Signed values of `bits` bits lie in the signed range.
pub(crate) proof fn lemma_signed_range(x: u64, bits: u32)
    requires 1 <= bits <= 64,
    ensures -(sign_bit(bits) as int) <= signed_value(x, bits) < sign_bit(bits) as int,
        sign_bit(bits) as int * 2 == modulus(bits),
{
    let m = width_mask(bits);
    let s = sign_bit(bits);
    let t = x & m;
    assert(s as int * 2 == m as int + 1 && (t & s == 0 ==> t < s) && (t & s != 0 ==> t >= s && t <= m)) by (bit_vector)
        requires m == (if bits >= 64 { u64::MAX } else { ((1u64 << bits) - 1) as u64 }),
            s == 1u64 << ((bits - 1) as u32), 1 <= bits <= 64, t == x & m;
}

/// The sign bit lies within the mask, and the modulus is one past the mask.
pub(crate) proof fn lemma_mask_facts_pub(bits: u32)
    requires 1 <= bits <= 64,
    ensures
        sign_bit(bits) & width_mask(bits) == sign_bit(bits),
        modulus(bits) == width_mask(bits) as int + 1,
{
    lemma_mask_facts(bits);
}

/// The masks and moduli of the four operand widths.
pub(crate) proof fn lemma_width_constants()
    ensures
        width_mask(8) == 0xFF && width_mask(16) == 0xFFFF && width_mask(32) == 0xFFFF_FFFF,
        modulus(8) == 0x100 && modulus(16) == 0x1_0000 && modulus(32) == 0x1_0000_0000,
        modulus(64) == 0x1_0000_0000_0000_0000,
{
    assert(((1u64 << 8u32) - 1) as u64 == 0xFF && ((1u64 << 16u32) - 1) as u64 == 0xFFFF
        && ((1u64 << 32u32) - 1) as u64 == 0xFFFF_FFFF) by (bit_vector);
}

/// A value within the mask is unchanged by it.
pub(crate) proof fn lemma_small_masked(v: u64, bits: u32)
    requires 1 <= bits <= 64, v <= width_mask(bits),
    ensures v & width_mask(bits) == v,
{
    let m = width_mask(bits);
    assert(v & m == v) by (bit_vector)
        requires v <= m, m == (if bits >= 64 { u64::MAX } else { ((1u64 << bits) - 1) as u64 }), 1 <= bits <= 64;
}

/// Whether `x` lies outside the signed range of `bits` bits.
pub(crate) fn overflows(x: i128, bits: u32) -> (o: bool)
    requires 1 <= bits <= 64,
    ensures o == signed_overflow(x as int, bits),
{
    let s = sign_bit_for(bits) as i128;
    !(-s <= x && x < s)
}

pub fn add_with_carry(a: u64, b: u64, carry: bool, bits: u32) -> (r: AluResult)
    requires 1 <= bits <= 64,
    ensures r == add_with_carry_spec(a, b, carry, bits),
{
    let c = if carry { 1u64 } else { 0 };
    let r1 = self::add(a, b, bits);
    let r2 = self::add(r1.val, c, bits);
    let sa = signed_of(a, bits);
    let sb = signed_of(b, bits);
    proof {
        lemma_signed_range(a, bits);
        lemma_signed_range(b, bits);
        let m = width_mask(bits);
        lemma_mask_facts(bits);
        lemma_and_le(a, m);
        lemma_and_le(b, m);
        lemma_and_le(c, m);
        let s1 = (a & m) as int + (b & m) as int;
        lemma_mod_window(s1, modulus(bits));
        assert(r1.val <= m) by { lemma_mod_window(s1, modulus(bits)); }
        lemma_small_masked(r1.val, bits);
        lemma_small_masked(c, bits);
        lemma_mod_window(r1.val as int + c as int, modulus(bits));
        lemma_mod_window(s1 + c as int, modulus(bits));
    }
    let of = overflows(sa + sb + c as i128, bits);
    AluResult { val: r2.val, flags: Flags { cf: r1.flags.cf || r2.flags.cf, of, ..r2.flags } }
}

pub fn sub(a: u64, b: u64, bits: u32) -> (r: AluResult)
    requires 1 <= bits <= 64,
    ensures r == sub_spec(a, b, bits),
{
    let mask = mask_for(bits);
    let result_masked = a.wrapping_sub(b) & mask;
    let sign_bit = sign_bit_for(bits);
    let cf = (a & mask) < (b & mask);
    let sf = (result_masked & sign_bit) != 0;
    let a_sign = (a & sign_bit) != 0;
    let b_sign = (b & sign_bit) != 0;
    let of = (a_sign != b_sign) && (sf != a_sign);
    let pf = parity(result_masked);
    proof {
        lemma_mask_facts(bits);
        let ghost diff = (a & mask) as int - (b & mask) as int;
        assert(result_masked as int == (if (a & mask) < (b & mask) { (a & mask) as int - (b & mask) as int + (mask as int + 1) } else { (a & mask) as int - (b & mask) as int })) by (bit_vector)
            requires mask == (if bits >= 64 { u64::MAX } else { ((1u64 << bits) - 1) as u64 }), 1 <= bits <= 64,
                result_masked == a.wrapping_sub(b) & mask;
        lemma_and_le(a, mask);
        lemma_and_le(b, mask);
        lemma_mod_window(diff, mask as int + 1);
        lemma_sub_overflow(a, b, bits);
    }
    AluResult { val: result_masked, flags: Flags { cf, zf: result_masked == 0, sf, of, pf } }
}

pub fn sub_with_borrow(a: u64, b: u64, borrow: bool, bits: u32) -> (r: AluResult)
    requires 1 <= bits <= 64,
    ensures r == sub_with_borrow_spec(a, b, borrow, bits),
{
    let c = if borrow { 1u64 } else { 0 };
    let r1 = self::sub(a, b, bits);
    let r2 = self::sub(r1.val, c, bits);
    let sa = signed_of(a, bits);
    let sb = signed_of(b, bits);
    proof {
        lemma_signed_range(a, bits);
        lemma_signed_range(b, bits);
        let m = width_mask(bits);
        lemma_mask_facts(bits);
        lemma_and_le(a, m);
        lemma_and_le(b, m);
        let d1 = (a & m) as int - (b & m) as int;
        lemma_mod_window(d1, modulus(bits));
        assert(r1.val <= m);
        lemma_small_masked(r1.val, bits);
        lemma_small_masked(c, bits);
        lemma_mod_window(r1.val as int - c as int, modulus(bits));
        lemma_mod_window(d1 - c as int, modulus(bits));
    }
    let of = overflows(sa - sb - c as i128, bits);
    AluResult { val: r2.val, flags: Flags { cf: r1.flags.cf || r2.flags.cf, of, ..r2.flags } }
}

pub(crate) proof fn lemma_mask_idempotent(x: u64, bits: u32)
    requires 1 <= bits <= 64,
    ensures (x & width_mask(bits)) & width_mask(bits) == x & width_mask(bits),
{
    let m = width_mask(bits);
    assert((x & m) & m == x & m) by (bit_vector);
}

pub fn and(a: u64, b: u64, bits: u32) -> (r: AluResult)
    requires 1 <= bits <= 64,
    ensures r == and_spec(a, b, bits),
{
    let mask = mask_for(bits);
    let val = (a & b) & mask;
    proof { lemma_mask_idempotent(a & b, bits); }
    let mut f = flags_from_result(val, bits);
    f.cf = false;
    f.of = false;
    AluResult { val, flags: f }
}

pub fn or(a: u64, b: u64, bits: u32) -> (r: AluResult)
    requires 1 <= bits <= 64,
    ensures r == or_spec(a, b, bits),
{
    let mask = mask_for(bits);
    let val = (a | b) & mask;
    proof { lemma_mask_idempotent(a | b, bits); }
    let mut f = flags_from_result(val, bits);
    f.cf = false;
    f.of = false;
    AluResult { val, flags: f }
}

pub fn xor(a: u64, b: u64, bits: u32) -> (r: AluResult)
    requires 1 <= bits <= 64,
    ensures r == xor_spec(a, b, bits),
{
    let mask = mask_for(bits);
    let val = (a ^ b) & mask;
    proof { lemma_mask_idempotent(a ^ b, bits); }
    let mut f = flags_from_result(val, bits);
    f.cf = false;
    f.of = false;
    AluResult { val, flags: f }
}

proof fn lemma_low_bit(x: u64)
    ensures ((x & 1) != 0) == ((x & 1) == 1),
{
    assert(((x & 1) != 0) == ((x & 1) == 1)) by (bit_vector);
}

pub fn shl(a: u64, count: u64, bits: u32) -> (r: AluResult)
    requires 1 <= bits <= 64,
    ensures r == shl_spec(a, count, bits),
{
    let mask = mask_for(bits);
    let count0 = count;
    let count = count0 & 63;
    proof { lemma_and_le(count0, 63); }
    if count == 0 {
        let val = a & mask;
        proof { lemma_mask_idempotent(a, bits); }
        return AluResult { val, flags: flags_from_result(val, bits) };
    }
    let cf = if count <= bits as u64 {
        proof { lemma_low_bit(a >> (bits as u64 - count)); }
        ((a >> (bits as u64 - count)) & 1) != 0
    } else {
        false
    };
    let val = (a << count) & mask;
    let sign_bit = sign_bit_for(bits);
    let sf = (val & sign_bit) != 0;
    let of = if count == 1 { sf != cf } else { false };
    AluResult { val, flags: Flags { cf, zf: val == 0, sf, of, pf: parity(val) } }
}

pub fn shr(a: u64, count: u64, bits: u32) -> (r: AluResult)
    requires 1 <= bits <= 64,
    ensures r == shr_spec(a, count, bits),
{
    let mask = mask_for(bits);
    let a0 = a;
    let a = a0 & mask;
    let count0 = count;
    let count = count0 & 63;
    proof { lemma_and_le(count0, 63); }
    if count == 0 {
        proof { lemma_mask_idempotent(a0, bits); }
        return AluResult { val: a, flags: flags_from_result(a, bits) };
    }
    let cf = if count <= bits as u64 {
        proof { lemma_low_bit(a >> (count - 1)); }
        ((a >> (count - 1)) & 1) != 0
    } else {
        false
    };
    let val = a >> count;
    let sign_bit = sign_bit_for(bits);
    let sf = (val & sign_bit) != 0;
    let of = if count == 1 { (a & sign_bit) != 0 } else { false };
    AluResult { val, flags: Flags { cf, zf: val == 0, sf, of, pf: parity(val) } }
}

pub fn sar(a: u64, count: u64, bits: u32) -> (r: AluResult)
    requires 1 <= bits <= 64,
    ensures r == sar_spec(a, count, bits),
{
    let mask = mask_for(bits);
    let sign_bit = sign_bit_for(bits);
    let signed: i64 = if (a & sign_bit) != 0 { #[verifier::truncate] ((a | !mask) as i64) } else { #[verifier::truncate] ((a & mask) as i64) };
    let count0 = count;
    let count = count0 & 63;
    proof { lemma_and_le(count0, 63); }
    if count == 0 {
        let val = a & mask;
        proof { lemma_mask_idempotent(a, bits); }
        return AluResult { val, flags: flags_from_result(val, bits) };
    }
    let cf = if count <= bits as u64 { ((signed >> (count - 1)) & 1) != 0 } else { signed < 0 };
    let val = (#[verifier::truncate] ((signed >> count) as u64)) & mask;
    let sf = (val & sign_bit) != 0;
    AluResult { val, flags: Flags { cf, zf: val == 0, sf, of: false, pf: parity(val) } }
}

pub fn rol(a: u64, count: u64, bits: u32) -> (r: AluResult)
    requires 1 <= bits <= 64,
    ensures r == rol_spec(a, count, bits),
{
    let mask = mask_for(bits);
    let a = a & mask;
    let count = (count & 63) % bits as u64;
    let val = if count == 0 { a } else { ((a << count) | (a >> (bits as u64 - count))) & mask };
    let cf = val & 1 != 0;
    let sign_bit = sign_bit_for(bits);
    let of = if count == 1 { cf != ((val & sign_bit) != 0) } else { false };
    AluResult { val, flags: Flags { cf, zf: val == 0, sf: (val & sign_bit) != 0, of, pf: parity(val) } }
}

pub fn ror(a: u64, count: u64, bits: u32) -> (r: AluResult)
    requires 1 <= bits <= 64,
    ensures r == ror_spec(a, count, bits),
{
    let mask = mask_for(bits);
    let a = a & mask;
    let count = (count & 63) % bits as u64;
    let val = if count == 0 { a } else { ((a >> count) | (a << (bits as u64 - count))) & mask };
    let sign_bit = sign_bit_for(bits);
    let cf = (val & sign_bit) != 0;
    let of = if count == 1 { (val & sign_bit) != ((val << 1u64) & sign_bit) } else { false };
    AluResult { val, flags: Flags { cf, zf: val == 0, sf: (val & sign_bit) != 0, of, pf: parity(val) } }
}

pub fn neg(a: u64, bits: u32) -> (r: AluResult)
    requires 1 <= bits <= 64,
    ensures r == neg_spec(a, bits),
{
    let mask = mask_for(bits);
    let val = (0u64.wrapping_sub(a)) & mask;
    let sign_bit = sign_bit_for(bits);
    let cf = val != 0;
    let sf = (val & sign_bit) != 0;
    let of = val == sign_bit;
    proof {
        assert(val as int == (if a & mask == 0 { 0 } else { mask as int + 1 - (a & mask) as int })) by (bit_vector)
            requires mask == (if bits >= 64 { u64::MAX } else { ((1u64 << bits) - 1) as u64 }), 1 <= bits <= 64,
                val == 0u64.wrapping_sub(a) & mask;
        lemma_and_le(a, mask);
        lemma_mod_window(mask as int + 1 - (a & mask) as int, mask as int + 1);
    }
    AluResult { val, flags: Flags { cf, zf: val == 0, sf, of, pf: parity(val) } }
}

/// Number of bits in a register of width `w`.
pub open spec fn width_bits(w: RegWidth) -> u32 {
    match w {
        RegWidth::Qword => 64,
        RegWidth::Dword => 32,
        RegWidth::Word => 16,
        RegWidth::Byte | RegWidth::ByteHi => 8,
    }
}

/// Number of bits in a memory operand of size `s`.
pub open spec fn size_bits(s: Size) -> u32 {
    match s {
        Size::Byte => 8,
        Size::Word => 16,
        Size::Dword => 32,
        Size::Qword => 64,
    }
}

pub fn bits_for_width(w: RegWidth) -> (b: u32)
    ensures b == width_bits(w),
{
    match w {
        RegWidth::Qword => 64,
        RegWidth::Dword => 32,
        RegWidth::Word => 16,
        RegWidth::Byte | RegWidth::ByteHi => 8,
    }
}

pub fn bits_for_size(s: Size) -> (b: u32)
    ensures b == size_bits(s),
{
    match s {
        Size::Byte => 8,
        Size::Word => 16,
        Size::Dword => 32,
        Size::Qword => 64,
    }
}

} // verus!
