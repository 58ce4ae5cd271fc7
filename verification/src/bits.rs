//! Bit-field extraction and sign extension on 32-bit machine words.

use vstd::prelude::*;
use vstd::arithmetic::div_mod::{lemma_mod_bound, lemma_mod_multiples_vanish};
use vstd::arithmetic::power2::{pow2, lemma2_to64, lemma_pow2_pos};
use vstd::bits::{
    low_bits_mask, lemma_u32_low_bits_mask_is_mod, lemma_u32_pow2_no_overflow,
    lemma_u32_shl_is_mul, lemma_u32_shr_is_div,
};

verus! {

/// The unsigned value held by the `length` bits of `word` that start at bit
/// `start`, bit 0 being the least significant one.
pub open spec fn field(word: u32, start: nat, length: nat) -> nat {
    (word as nat / pow2(start)) % pow2(length)
}

/// A field of `length` bits holds a number below 2^`length`.
pub proof fn lemma_field_bound(word: u32, start: nat, length: nat)
    ensures
        field(word, start, length) < pow2(length),
{
    lemma_pow2_pos(length);
    lemma_mod_bound(word as int / pow2(start) as int, pow2(length) as int);
}

/// Shifting a word left until the field touches bit 31 and then right until
/// it touches bit 0 leaves `field(word, start, length)`.
proof fn lemma_shift_pair_is_field(word: u32, start: u32, length: u32)
    requires
        1 <= length,
        start + length <= 32,
    ensures
        (word << ((32 - (length + start)) as u32)) >> ((32 - length) as u32) == field(
            word,
            start as nat,
            length as nat,
        ),
{
    let high = (32 - (length + start)) as u32;
    let low = (32 - length) as u32;
    let shifted = word >> start;
    lemma2_to64();
    lemma_u32_shr_is_div(word, start);
    if length == 32 {
        assert((word << high) >> low == word) by (bit_vector)
            requires
                high == 0,
                low == 0,
        ;
        let one = pow2(0);
        let top = pow2(32);
        assert((word as nat / one) % top == word) by (nonlinear_arith)
            requires
                one == 1,
                top == 0x1_0000_0000,
        ;
    } else {
        lemma_u32_pow2_no_overflow(length as nat);
        lemma_pow2_pos(length as nat);
        lemma_u32_shl_is_mul(1, length);
        let mask = ((1u32 << length) - 1) as u32;
        assert((word << high) >> low == (word >> start) & mask) by (bit_vector)
            requires
                1 <= length < 32,
                start + length <= 32,
                high == 32 - (length + start),
                low == 32 - length,
                mask == (1u32 << length) - 1,
        ;
        lemma_u32_low_bits_mask_is_mod(shifted, length as nat);
    }
}

/// Extracts `length` bits of `inst` starting at bit `start`, right-justified.
pub fn get_bits(inst: u32, start: u8, length: u8) -> (r: u32)
    requires
        start + length <= 32,
    ensures
        r == field(inst, start as nat, length as nat),
{
    if length == 0 {
        proof {
            lemma2_to64();
        }
        return 0;
    }
    let high: u32 = (32 - (length + start)) as u32;
    let low: u32 = (32 - length) as u32;
    proof {
        lemma_shift_pair_is_field(inst, start as u32, length as u32);
    }
    (inst << high) >> low
}

/// The named fields of a machine word.
#[derive(Debug, Clone, Copy, PartialEq, Eq)]
pub enum Segment {
    /// Opcode, bits 26 to 31.
    Op,
    /// Source register, bits 21 to 25.
    Rs,
    /// Target register, bits 16 to 20.
    Rt,
    /// Destination register, bits 11 to 15.
    Rd,
    /// Shift amount, bits 6 to 10.
    Sh,
    /// Function code, bits 0 to 5.
    Funct,
    /// Immediate, bits 0 to 15.
    Imm,
    /// Jump target, bits 0 to 25.
    Addr,
}

impl Segment {
    /// Position of the field's least significant bit.
    pub open spec fn start(self) -> nat {
        match self {
            Segment::Op => 26,
            Segment::Rs => 21,
            Segment::Rt => 16,
            Segment::Rd => 11,
            Segment::Sh => 6,
            Segment::Funct => 0,
            Segment::Imm => 0,
            Segment::Addr => 0,
        }
    }

    /// Number of bits in the field.
    pub open spec fn width(self) -> nat {
        match self {
            Segment::Op => 6,
            Segment::Rs => 5,
            Segment::Rt => 5,
            Segment::Rd => 5,
            Segment::Sh => 5,
            Segment::Funct => 6,
            Segment::Imm => 16,
            Segment::Addr => 26,
        }
    }
}

/// The value of the named field of `word`.
pub open spec fn segment(word: u32, seg: Segment) -> nat {
    field(word, seg.start(), seg.width())
}

/// Each named field written with literal divisors.
pub proof fn lemma_segment_values(word: u32)
    ensures
        segment(word, Segment::Op) == word / 0x400_0000,
        segment(word, Segment::Rs) == (word / 0x20_0000) % 32,
        segment(word, Segment::Rt) == (word / 0x1_0000) % 32,
        segment(word, Segment::Rd) == (word / 0x800) % 32,
        segment(word, Segment::Sh) == (word / 0x40) % 32,
        segment(word, Segment::Funct) == word % 64,
        segment(word, Segment::Imm) == word % 0x1_0000,
        segment(word, Segment::Addr) == word % 0x400_0000,
{
    lemma2_to64();
    lemma_field_literal(word, 26, 6, 0x400_0000, 64);
    lemma_field_literal(word, 21, 5, 0x20_0000, 32);
    lemma_field_literal(word, 16, 5, 0x1_0000, 32);
    lemma_field_literal(word, 11, 5, 0x800, 32);
    lemma_field_literal(word, 6, 5, 0x40, 32);
    lemma_field_literal(word, 0, 6, 1, 64);
    lemma_field_literal(word, 0, 16, 1, 0x1_0000);
    lemma_field_literal(word, 0, 26, 1, 0x400_0000);
}

/// `field` computed with the two powers of two given as numbers.
proof fn lemma_field_literal(word: u32, start: nat, length: nat, divisor: nat, modulus: nat)
    requires
        pow2(start) == divisor,
        pow2(length) == modulus,
    ensures
        field(word, start, length) == (word as nat / divisor) % modulus,
{
}

/// Extracts the named field of `inst`.
pub fn get_inst_seg(inst: u32, seg_type: Segment) -> (r: u32)
    ensures
        r == segment(inst, seg_type),
{
    match seg_type {
        Segment::Op => get_bits(inst, 26, 6),
        Segment::Rs => get_bits(inst, 21, 5),
        Segment::Rt => get_bits(inst, 16, 5),
        Segment::Rd => get_bits(inst, 11, 5),
        Segment::Sh => get_bits(inst, 6, 5),
        Segment::Funct => get_bits(inst, 0, 6),
        Segment::Imm => get_bits(inst, 0, 16),
        Segment::Addr => get_bits(inst, 0, 26),
    }
}

/// The value of a 16-bit immediate read as a two's-complement number.
pub open spec fn sign_extend(imm: u32) -> int {
    if imm < 0x8000 {
        imm as int
    } else {
        imm - 0x1_0000
    }
}

/// Sign extension is the two's-complement reading of 16 bits: the result
/// lies between -2^15 and 2^15 - 1 and differs from the raw field by a
/// multiple of 2^16, namely by nothing when bit 15 is clear and by 2^16 when
/// it is set.
pub proof fn lemma_sign_extend_is_twos_complement(imm: u32)
    requires
        imm < 0x1_0000,
    ensures
        -0x8000 <= sign_extend(imm) < 0x8000,
        (imm - sign_extend(imm)) % 0x1_0000 == 0,
        sign_extend(imm) == imm - 0x1_0000 * field(imm, 15, 1),
{
    lemma2_to64();
    lemma_field_literal(imm, 15, 1, 0x8000, 2);
}

/// Sign-extends a 16-bit immediate to 32 bits.
pub fn read_imm(x: u32) -> (r: i32)
    requires
        x < 0x1_0000,
    ensures
        r == sign_extend(x),
{
    if x < 0x8000 {
        x as i32
    } else {
        (x as i32) - 0x1_0000
    }
}

/// The signed 32-bit number that `x` is congruent to modulo 2^32.
pub open spec fn wrap_i32(x: int) -> i32 {
    let m = x % 0x1_0000_0000;
    if m < 0x8000_0000 {
        m as i32
    } else {
        (m - 0x1_0000_0000) as i32
    }
}

/// The unsigned 32-bit number that `x` is congruent to modulo 2^32.
pub open spec fn wrap_u32(x: int) -> u32 {
    (x % 0x1_0000_0000) as u32
}

/// The same 32 bits read as an unsigned number.
pub fn as_unsigned(x: i32) -> (r: u32)
    ensures
        r == wrap_u32(x as int),
{
    let r = x as u32;
    assert(r == (if x < 0 { x + 0x1_0000_0000 } else { x as int })) by (bit_vector)
        requires
            r == x as u32,
    ;
    r
}

/// The same 32 bits read as a signed number.
pub fn as_signed(x: u32) -> (r: i32)
    ensures
        r == wrap_i32(x as int),
{
    let r = x as i32;
    assert(r == (if x >= 0x8000_0000 { x - 0x1_0000_0000 } else { x as int })) by (bit_vector)
        requires
            r == x as i32,
    ;
    r
}

/// The bits that are set in neither `a` nor `b`.
pub open spec fn nor(a: i32, b: i32) -> i32 {
    !(a | b)
}

/// Bitwise NOR of two words.
pub fn nor32(a: i32, b: i32) -> (r: i32)
    ensures
        r == nor(a, b),
{
    !(a | b)
}

/// `x` shifted left by `n` bits, the bits that leave the word being lost.
pub open spec fn shift_left(x: i32, n: nat) -> i32 {
    wrap_i32(x * pow2(n))
}

/// `x` shifted right by `n` bits as an unsigned number: zeros come in at the
/// top whatever the sign of `x`.
pub open spec fn shift_right(x: i32, n: nat) -> i32 {
    wrap_i32(wrap_u32(x as int) as int / pow2(n) as int)
}

/// Shifts `x` left by `n` bits.
pub fn shl32(x: i32, n: u32) -> (r: i32)
    requires
        n < 32,
    ensures
        r == shift_left(x, n as nat),
{
    let u = as_unsigned(x);
    let shifted = u << n;
    proof {
        let p = pow2(n as nat) as int;
        lemma_u32_pow2_no_overflow(n as nat);
        lemma_pow2_pos(n as nat);
        lemma_u32_shl_is_mul(1, n);
        let one_up = 1u32 << n;
        assert(shifted == (u * one_up) % 0x1_0000_0000) by (bit_vector)
            requires
                n < 32,
                shifted == u << n,
                one_up == 1u32 << n,
        ;
        let k: int = if x < 0 { 1 } else { 0 };
        assert(u * p == x * p + (k * p) * 0x1_0000_0000) by (nonlinear_arith)
            requires
                u == x + k * 0x1_0000_0000,
        ;
        lemma_mod_multiples_vanish(k * p, x * p, 0x1_0000_0000);
    }
    as_signed(shifted)
}

/// Shifts `x` right by `n` bits, filling with zeros.
pub fn shr32(x: i32, n: u32) -> (r: i32)
    requires
        n < 32,
    ensures
        r == shift_right(x, n as nat),
{
    let u = as_unsigned(x);
    proof {
        lemma_u32_shr_is_div(u, n);
    }
    as_signed(u >> n)
}

} // verus!
