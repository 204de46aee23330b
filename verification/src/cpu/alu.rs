use vstd::prelude::*;

use super::tokens::{AluOp, ShiftOp};
use super::flags::count_ones;

verus! {

// Flag bits of a flags byte
pub open spec fn fc(f: u8) -> bool { f & 0x01 == 0x01 }
pub open spec fn fn_(f: u8) -> bool { f & 0x02 == 0x02 }
pub open spec fn fp(f: u8) -> bool { f & 0x04 == 0x04 }
pub open spec fn fh(f: u8) -> bool { f & 0x10 == 0x10 }
pub open spec fn fz(f: u8) -> bool { f & 0x40 == 0x40 }
pub open spec fn fs(f: u8) -> bool { f & 0x80 == 0x80 }

/// `f` has exactly the given flags; bits 3 and 5 (X, Y) are those of `xy`
pub open spec fn flags_are(f: u8, c: bool, n: bool, p: bool, h: bool, z: bool, s: bool, xy: u8) -> bool {
    &&& fc(f) == c
    &&& fn_(f) == n
    &&& fp(f) == p
    &&& fh(f) == h
    &&& fz(f) == z
    &&& fs(f) == s
    &&& f & 0x28 == xy & 0x28
}

/// Two's complement value of a byte
pub open spec fn sx8(v: u8) -> int {
    if v < 128 { v as int } else { v as int - 256 }
}

/// Two's complement value of a word
pub open spec fn sx16(v: u16) -> int {
    if v < 0x8000 { v as int } else { v as int - 0x10000 }
}

/// The Z80 parity flag: set when the byte has an even number of set bits
pub open spec fn even_parity(v: u8) -> bool {
    count_ones(v) % 2 == 0
}

pub open spec fn b2i(b: bool) -> int {
    if b { 1 } else { 0 }
}

proof fn lemma_compose(c: bool, n: bool, p: bool, h: bool, z: bool, s: bool, xy: u8)
    by (bit_vector)
    ensures
        ({
            let f = (if c { 0x01u8 } else { 0u8 }) | (if n { 0x02u8 } else { 0u8 }) | (if p { 0x04u8 } else { 0u8 })
                | (if h { 0x10u8 } else { 0u8 }) | (if z { 0x40u8 } else { 0u8 }) | (if s { 0x80u8 } else { 0u8 })
                | (xy & 0x28);
            &&& (f & 0x01 == 0x01) == c
            &&& (f & 0x02 == 0x02) == n
            &&& (f & 0x04 == 0x04) == p
            &&& (f & 0x10 == 0x10) == h
            &&& (f & 0x40 == 0x40) == z
            &&& (f & 0x80 == 0x80) == s
            &&& f & 0x28 == xy & 0x28
        }),
{
}

/// Flags byte with the given flags
pub fn compose_flags(c: bool, n: bool, p: bool, h: bool, z: bool, s: bool, xy: u8) -> (f: u8)
    ensures
        flags_are(f, c, n, p, h, z, s, xy),
{
    proof { lemma_compose(c, n, p, h, z, s, xy); }
    (if c { 0x01u8 } else { 0u8 }) | (if n { 0x02u8 } else { 0u8 }) | (if p { 0x04u8 } else { 0u8 })
        | (if h { 0x10u8 } else { 0u8 }) | (if z { 0x40u8 } else { 0u8 }) | (if s { 0x80u8 } else { 0u8 })
        | (xy & 0x28)
}

proof fn lemma_flag_bits(f: u8)
    by (bit_vector)
    ensures
        (f & 0x01 != 0) == (f & 0x01 == 0x01),
        (f & 0x02 != 0) == (f & 0x02 == 0x02),
        (f & 0x04 != 0) == (f & 0x04 == 0x04),
        (f & 0x10 != 0) == (f & 0x10 == 0x10),
        (f & 0x40 != 0) == (f & 0x40 == 0x40),
        (f & 0x80 != 0) == (f & 0x80 == 0x80),
{
}

proof fn lemma_parity(v: u8)
    ensures
        ({
            let v1 = v ^ (v >> 4);
            let v2 = v1 ^ (v1 >> 2);
            let v3 = v2 ^ (v2 >> 1);
            (v3 & 1 == 0) == even_parity(v)
        }),
{
    super::flags::lemma_parity_fold(v);
}

fn parity_of(v: u8) -> (r: bool)
    ensures
        r == even_parity(v),
{
    let v1 = v ^ (v >> 4);
    let v2 = v1 ^ (v1 >> 2);
    let v3 = v2 ^ (v2 >> 1);
    proof { lemma_parity(v); }
    v3 & 1 == 0
}


proof fn lemma_add8(a: u8, b: u8, cin: u8)
    by (bit_vector)
    requires
        cin <= 1,
    ensures
        ({
            let r = ((a as u16 + b as u16 + cin as u16) % 256) as u8;
            &&& ((a ^ b ^ r) & 0x10 != 0) == ((a & 15) + (b & 15) + cin > 15)
            &&& ((!(a ^ b) & (a ^ r)) & 0x80 != 0) == ((a < 128 && b < 128 && r >= 128) || (a >= 128 && b >= 128 && r < 128))
        }),
{
}

proof fn lemma_sub8(a: u8, b: u8, cin: u8)
    by (bit_vector)
    requires
        cin <= 1,
    ensures
        ({
            let r = ((a as u16 + 512 - b as u16 - cin as u16) % 256) as u8;
            &&& ((a ^ b ^ r) & 0x10 != 0) == ((a & 15) < (b & 15) + cin)
            &&& (((a ^ b) & (a ^ r)) & 0x80 != 0) == ((a < 128 && b >= 128 && r >= 128) || (a >= 128 && b < 128 && r < 128))
        }),
{
}

proof fn lemma_low_nibble(a: u8)
    by (bit_vector)
    ensures
        a & 15 == a % 16,
        a & 0xf0 == a - a % 16,
{
}

pub open spec fn carry_in(op: AluOp, f: u8) -> int {
    if (op == AluOp::ADC || op == AluOp::SBC) && fc(f) { 1 } else { 0 }
}

/// Result of an 8-bit arithmetic or logic operation on the accumulator `a` and operand `b`
pub open spec fn spec_alu_result(op: AluOp, a: u8, b: u8, f: u8) -> u8 {
    match op {
        AluOp::ADD | AluOp::ADC => ((a + b + carry_in(op, f)) % 256) as u8,
        AluOp::SUB | AluOp::SBC | AluOp::CP => ((a - b - carry_in(op, f)) % 256) as u8,
        AluOp::AND => a & b,
        AluOp::XOR => a ^ b,
        AluOp::OR => a | b,
    }
}

/// Flags after an 8-bit arithmetic or logic operation: carry, signed overflow and half carry
/// of the true sums and differences; AND, XOR and OR clear C, set P on even parity, and set H
/// for AND only
pub open spec fn spec_alu_flags(op: AluOp, a: u8, b: u8, f: u8, g: u8) -> bool {
    let r = spec_alu_result(op, a, b, f);
    let cin = carry_in(op, f);
    match op {
        AluOp::ADD | AluOp::ADC => flags_are(g, a + b + cin > 255, false,
            !(-128 <= sx8(a) + sx8(b) + cin <= 127), a % 16 + b % 16 + cin > 15, r == 0, r >= 128, r),
        AluOp::SUB | AluOp::SBC | AluOp::CP => flags_are(g, a - b - cin < 0, true,
            !(-128 <= sx8(a) - sx8(b) - cin <= 127), a % 16 - b % 16 - cin < 0, r == 0, r >= 128, r),
        _ => flags_are(g, false, false, even_parity(r), op == AluOp::AND, r == 0, r >= 128, r),
    }
}

proof fn lemma_add_overflow(a: u8, b: u8, cin: int, r: u8)
    requires
        0 <= cin <= 1,
        r == (a + b + cin) % 256,
    ensures
        ((a < 128 && b < 128 && r >= 128) || (a >= 128 && b >= 128 && r < 128))
            == !(-128 <= sx8(a) + sx8(b) + cin <= 127),
        (a + b + cin > 255) == (a + b + cin - r == 256),
{
    if a + b + cin >= 256 {
        assert(r == a + b + cin - 256);
    } else {
        assert(r == a + b + cin);
    }
}

proof fn lemma_sub_overflow(a: u8, b: u8, cin: int, r: u8)
    requires
        0 <= cin <= 1,
        r == (a - b - cin) % 256,
    ensures
        ((a < 128 && b >= 128 && r >= 128) || (a >= 128 && b < 128 && r < 128))
            == !(-128 <= sx8(a) - sx8(b) - cin <= 127),
        r == (a + 512 - b - cin) % 256,
{
    if a - b - cin >= 0 {
        assert(r == a - b - cin);
        assert((a + 512 - b - cin) % 256 == a - b - cin);
    } else {
        assert(r == a - b - cin + 256);
        assert((a + 512 - b - cin) % 256 == a - b - cin + 256);
    }
}

fn add8(a: u8, b: u8, cin: u8) -> (r: (u8, u8))
    requires
        cin <= 1,
    ensures
        r.0 == (a + b + cin) % 256,
        flags_are(r.1, a + b + cin > 255, false, !(-128 <= sx8(a) + sx8(b) + cin <= 127),
            a % 16 + b % 16 + cin > 15, r.0 == 0, r.0 >= 128, r.0),
{
    proof { lemma_low_nibble(a); lemma_low_nibble(b); }
    let sum = a as u16 + b as u16 + cin as u16;
    let res = (sum % 256) as u8;
    proof { lemma_add8(a, b, cin); lemma_add_overflow(a, b, cin as int, res); }
    let h = (a ^ b ^ res) & 0x10 != 0;
    let p = (!(a ^ b) & (a ^ res)) & 0x80 != 0;
    (res, compose_flags(sum > 255, false, p, h, res == 0, res >= 0x80, res))
}

fn sub8(a: u8, b: u8, cin: u8) -> (r: (u8, u8))
    requires
        cin <= 1,
    ensures
        r.0 == (a - b - cin) % 256,
        flags_are(r.1, a - b - cin < 0, true, !(-128 <= sx8(a) - sx8(b) - cin <= 127),
            a % 16 - b % 16 - cin < 0, r.0 == 0, r.0 >= 128, r.0),
{
    proof {
        lemma_low_nibble(a); lemma_low_nibble(b);
        lemma_sub_overflow(a, b, cin as int, ((a - b - cin) % 256) as u8);
    }
    let res = ((a as u16 + 512 - b as u16 - cin as u16) % 256) as u8;
    proof { lemma_sub8(a, b, cin); }
    let h = (a ^ b ^ res) & 0x10 != 0;
    let p = ((a ^ b) & (a ^ res)) & 0x80 != 0;
    (res, compose_flags((a as u16) < b as u16 + cin as u16, true, p, h, res == 0, res >= 0x80, res))
}

/// 8-bit arithmetic and logic: result and flags
pub fn alu8(op: AluOp, a: u8, b: u8, f: u8) -> (r: (u8, u8))
    ensures
        r.0 == spec_alu_result(op, a, b, f),
        spec_alu_flags(op, a, b, f, r.1),
{
    proof { lemma_flag_bits(f); }
    let cf = f & 0x01 != 0;
    match op {
        AluOp::ADD | AluOp::ADC => {
            let cin: u8 = if op == AluOp::ADC && cf { 1 } else { 0 };
            add8(a, b, cin)
        },
        AluOp::SUB | AluOp::SBC | AluOp::CP => {
            let cin: u8 = if op == AluOp::SBC && cf { 1 } else { 0 };
            sub8(a, b, cin)
        },
        _ => {
            let res = match op {
                AluOp::AND => a & b,
                AluOp::XOR => a ^ b,
                _ => a | b,
            };
            let h = op == AluOp::AND;
            (res, compose_flags(false, false, parity_of(res), h, res == 0, res >= 0x80, res))
        },
    }
}

/// INC r: result and flags (C stays)
pub fn inc8(v: u8, f: u8) -> (r: (u8, u8))
    ensures
        r.0 == (v + 1) % 256,
        flags_are(r.1, fc(f), false, v == 0x7f, v % 16 == 15, r.0 == 0, r.0 >= 128, r.0),
{
    proof { lemma_flag_bits(f); }
    let res = if v == 0xff { 0 } else { v + 1 };
    (res, compose_flags(f & 0x01 != 0, false, v == 0x7f, v % 16 == 15, res == 0, res >= 0x80, res))
}

/// DEC r: result and flags (C stays)
pub fn dec8(v: u8, f: u8) -> (r: (u8, u8))
    ensures
        r.0 == (v - 1) % 256,
        flags_are(r.1, fc(f), true, v == 0x80, v % 16 == 0, r.0 == 0, r.0 >= 128, r.0),
{
    proof { lemma_flag_bits(f); }
    let res = if v == 0 { 0xff } else { v - 1 };
    (res, compose_flags(f & 0x01 != 0, true, v == 0x80, v % 16 == 0, res == 0, res >= 0x80, res))
}

/// Correction that DAA adds to or subtracts from the accumulator
pub open spec fn daa_correction(a: u8, f: u8) -> int {
    (if a % 16 > 9 || fh(f) { 6int } else { 0int }) + (if a >= 0xa0 || fc(f) { 0x60int } else { 0int })
}

/// DAA: result and flags (N stays, X and Y from the result)
#[verifier::rlimit(80)]
pub fn daa(a: u8, f: u8) -> (r: (u8, u8))
    ensures
        fn_(f) ==> r.0 == (a - daa_correction(a, f)) % 256,
        !fn_(f) ==> r.0 == (a + daa_correction(a, f)) % 256,
        flags_are(r.1,
            if fn_(f) { a < daa_correction(a, f) } else { a + daa_correction(a, f) > 255 },
            fn_(f),
            even_parity(r.0),
            if fn_(f) { a % 16 < daa_correction(a, f) % 16 } else { a % 16 + daa_correction(a, f) % 16 > 15 },
            r.0 == 0, r.0 >= 128, r.0),
{
    proof { lemma_flag_bits(f); }
    let hf = f & 0x10 != 0;
    let cf = f & 0x01 != 0;
    let nf = f & 0x02 != 0;
    assert((a & 0xf0 > 0x90) == (a >= 0xa0) && a & 0x0f == a % 16) by (bit_vector);
    let lo: u16 = if a & 0x0f > 0x09 || hf { 0x06 } else { 0 };
    let hi: u16 = if a & 0xf0 > 0x90 || cf { 0x60 } else { 0 };
    let correction = lo + hi;
    assert(correction % 16 == lo && correction == daa_correction(a, f));
    let (res, carry, half) = if nf {
        let res = if a as u16 >= correction { (a as u16 - correction) as u8 } else { (a as u16 + 256 - correction) as u8 };
        assert(res == (a - correction) % 256);
        (res, (a as u16) < correction, ((a % 16) as u16) < lo)
    } else {
        let res = if a as u16 + correction < 256 { (a as u16 + correction) as u8 } else { (a as u16 + correction - 256) as u8 };
        (res, a as u16 + correction > 255, (a % 16) as u16 + lo > 15)
    };
    (res, compose_flags(carry, nf, parity_of(res), half, res == 0, res >= 0x80, res))
}

/// Flags after IN r,(C): S, Z, P, X, Y from the byte read, H and N cleared, C stays
pub fn in_flags(v: u8, f: u8) -> (g: u8)
    ensures
        flags_are(g, fc(f), false, even_parity(v), false, v == 0, v >= 128, v),
{
    proof { lemma_flag_bits(f); }
    compose_flags(f & 0x01 != 0, false, parity_of(v), false, v == 0, v >= 0x80, v)
}

/// CPL: complement of the accumulator; H and N are set
pub fn cpl(a: u8, f: u8) -> (r: (u8, u8))
    ensures
        r.0 == 255 - a,
        flags_are(r.1, fc(f), true, fp(f), true, fz(f), fs(f), r.0),
{
    proof { lemma_flag_bits(f); }
    let res = 255 - a;
    (res, compose_flags(f & 0x01 != 0, true, f & 0x04 != 0, true, f & 0x40 != 0, f & 0x80 != 0, res))
}

/// NEG: two's complement negation of the accumulator
pub fn neg(a: u8) -> (r: (u8, u8))
    ensures
        r.0 == (256 - a) % 256,
        flags_are(r.1, a != 0, true, a == 0x80, a % 16 != 0, r.0 == 0, r.0 >= 128, r.0),
{
    let res = ((256 - a as u16) % 256) as u8;
    (res, compose_flags(a != 0, true, a == 0x80, a % 16 != 0, res == 0, res >= 0x80, res))
}

/// CCF: carry flag complemented, other flags stay
pub fn ccf(f: u8) -> (g: u8)
    ensures
        flags_are(g, !fc(f), fn_(f), fp(f), fh(f), fz(f), fs(f), f),
{
    proof { lemma_flag_bits(f); }
    compose_flags(f & 0x01 == 0, f & 0x02 != 0, f & 0x04 != 0, f & 0x10 != 0, f & 0x40 != 0, f & 0x80 != 0, f)
}

/// SCF: carry flag set, other flags stay
pub fn scf(f: u8) -> (g: u8)
    ensures
        flags_are(g, true, fn_(f), fp(f), fh(f), fz(f), fs(f), f),
{
    proof { lemma_flag_bits(f); }
    compose_flags(true, f & 0x02 != 0, f & 0x04 != 0, f & 0x10 != 0, f & 0x40 != 0, f & 0x80 != 0, f)
}

/// ADD rr,rr: sum, carry and half carry from bit 11; N cleared, other flags stay
pub fn add16(lhs: u16, rhs: u16, f: u8) -> (r: (u16, u8))
    ensures
        r.0 == (lhs + rhs) % 65536,
        flags_are(r.1, lhs + rhs > 65535, false, fp(f), lhs % 4096 + rhs % 4096 > 4095, fz(f), fs(f), f),
{
    proof { lemma_flag_bits(f); }
    let sum = lhs as u32 + rhs as u32;
    let res = (sum % 65536) as u16;
    (res, compose_flags(sum > 65535, false, f & 0x04 != 0, lhs % 4096 + rhs % 4096 > 4095, f & 0x40 != 0, f & 0x80 != 0, f))
}

proof fn lemma_add16_overflow(a: u16, b: u16, cin: int, r: u16)
    requires
        0 <= cin <= 1,
        r == (a + b + cin) % 65536,
    ensures
        ((a < 0x8000 && b < 0x8000 && r >= 0x8000) || (a >= 0x8000 && b >= 0x8000 && r < 0x8000))
            == !(-0x8000 <= sx16(a) + sx16(b) + cin <= 0x7fff),
{
    if a + b + cin >= 65536 {
        assert(r == a + b + cin - 65536);
    } else {
        assert(r == a + b + cin);
    }
}

proof fn lemma_sub16_overflow(a: u16, b: u16, cin: int, r: u16)
    requires
        0 <= cin <= 1,
        r == (a - b - cin) % 65536,
    ensures
        ((a < 0x8000 && b >= 0x8000 && r >= 0x8000) || (a >= 0x8000 && b < 0x8000 && r < 0x8000))
            == !(-0x8000 <= sx16(a) - sx16(b) - cin <= 0x7fff),
        r == (a + 0x20000 - b - cin) % 65536,
{
    if a - b - cin >= 0 {
        assert(r == a - b - cin);
        assert((a + 0x20000 - b - cin) % 65536 == a - b - cin);
    } else {
        assert(r == a - b - cin + 65536);
        assert((a + 0x20000 - b - cin) % 65536 == a - b - cin + 65536);
    }
}

/// ADC HL,rr: all flags are computed anew, N cleared, X and Y from the high byte of the sum
pub fn adc16(lhs: u16, rhs: u16, f: u8) -> (r: (u16, u8))
    ensures
        r.0 == (lhs + rhs + b2i(fc(f))) % 65536,
        flags_are(r.1, lhs + rhs + b2i(fc(f)) > 65535, false,
            !(-0x8000 <= sx16(lhs) + sx16(rhs) + b2i(fc(f)) <= 0x7fff),
            lhs % 4096 + rhs % 4096 + b2i(fc(f)) > 4095, r.0 == 0, r.0 >= 0x8000, (r.0 / 256) as u8),
{
    proof { lemma_flag_bits(f); }
    let cin: u32 = if f & 0x01 != 0 { 1 } else { 0 };
    let sum = lhs as u32 + rhs as u32 + cin;
    let res = (sum % 65536) as u16;
    proof { lemma_add16_overflow(lhs, rhs, cin as int, res); }
    let p = (lhs < 0x8000 && rhs < 0x8000 && res >= 0x8000) || (lhs >= 0x8000 && rhs >= 0x8000 && res < 0x8000);
    let h = lhs as u32 % 4096 + rhs as u32 % 4096 + cin > 4095;
    (res, compose_flags(sum > 65535, false, p, h, res == 0, res >= 0x8000, (res / 256) as u8))
}

/// SBC HL,rr: all flags are computed anew, N set, X and Y from the high byte of the difference
pub fn sbc16(lhs: u16, rhs: u16, f: u8) -> (r: (u16, u8))
    ensures
        r.0 == (lhs - rhs - b2i(fc(f))) % 65536,
        flags_are(r.1, lhs - rhs - b2i(fc(f)) < 0, true,
            !(-0x8000 <= sx16(lhs) - sx16(rhs) - b2i(fc(f)) <= 0x7fff),
            lhs % 4096 - rhs % 4096 - b2i(fc(f)) < 0, r.0 == 0, r.0 >= 0x8000, (r.0 / 256) as u8),
{
    proof { lemma_flag_bits(f); }
    let cin: u32 = if f & 0x01 != 0 { 1 } else { 0 };
    proof { lemma_sub16_overflow(lhs, rhs, cin as int, ((lhs - rhs - cin) % 65536) as u16); }
    let res = ((lhs as u32 + 0x20000 - rhs as u32 - cin) % 65536) as u16;
    let p = (lhs < 0x8000 && rhs >= 0x8000 && res >= 0x8000) || (lhs >= 0x8000 && rhs < 0x8000 && res < 0x8000);
    let h = (lhs as u32 % 4096) < rhs as u32 % 4096 + cin;
    (res, compose_flags((lhs as u32) < rhs as u32 + cin, true, p, h, res == 0, res >= 0x8000, (res / 256) as u8))
}

/// Result and carry of a rotate or shift of `v`, `cin` being the carry flag before it
pub open spec fn spec_shift(op: ShiftOp, v: u8, cin: bool) -> (u8, bool) {
    match op {
        ShiftOp::RLC => (((v * 2) % 256 + v / 128) as u8, v >= 128),
        ShiftOp::RRC => ((v / 2 + (v % 2) * 128) as u8, v % 2 == 1),
        ShiftOp::RL => (((v * 2) % 256 + b2i(cin)) as u8, v >= 128),
        ShiftOp::RR => ((v / 2 + b2i(cin) * 128) as u8, v % 2 == 1),
        ShiftOp::SLA => (((v * 2) % 256) as u8, v >= 128),
        ShiftOp::SRA => ((v / 2 + (v / 128) * 128) as u8, v % 2 == 1),
        ShiftOp::SLL => (((v * 2) % 256 + 1) as u8, v >= 128),
        ShiftOp::SRL => ((v / 2) as u8, v % 2 == 1),
    }
}

fn shift(op: ShiftOp, v: u8, cin: bool) -> (r: (u8, bool))
    ensures
        r == spec_shift(op, v, cin),
{
    let hi = v >= 128;
    let lo = v % 2 == 1;
    let shl = ((v as u16 * 2) % 256) as u8;
    let shr = v / 2;
    match op {
        ShiftOp::RLC => (shl + v / 128, hi),
        ShiftOp::RRC => (shr + (v % 2) * 128, lo),
        ShiftOp::RL => (shl + if cin { 1 } else { 0 }, hi),
        ShiftOp::RR => (shr + if cin { 128 } else { 0 }, lo),
        ShiftOp::SLA => (shl, hi),
        ShiftOp::SRA => (shr + if hi { 128 } else { 0 }, lo),
        ShiftOp::SLL => (shl + 1, hi),
        ShiftOp::SRL => (shr, lo),
    }
}

/// CB-prefixed rotates and shifts: result and flags (H, N cleared; P on even parity; X, Y from
/// the result)
pub fn shift_op(op: ShiftOp, v: u8, f: u8) -> (r: (u8, u8))
    ensures
        r.0 == spec_shift(op, v, fc(f)).0,
        flags_are(r.1, spec_shift(op, v, fc(f)).1, false, even_parity(r.0), false, r.0 == 0, r.0 >= 128, r.0),
{
    proof { lemma_flag_bits(f); }
    let (res, carry) = shift(op, v, f & 0x01 != 0);
    (res, compose_flags(carry, false, parity_of(res), false, res == 0, res >= 0x80, res))
}

/// RLCA, RRCA, RLA, RRA: result and flags (H, N cleared; P, Z, S, X, Y stay)
pub fn shift_acc(op: ShiftOp, v: u8, f: u8) -> (r: (u8, u8))
    ensures
        r.0 == spec_shift(op, v, fc(f)).0,
        flags_are(r.1, spec_shift(op, v, fc(f)).1, false, fp(f), false, fz(f), fs(f), f),
{
    proof { lemma_flag_bits(f); }
    let (res, carry) = shift(op, v, f & 0x01 != 0);
    (res, compose_flags(carry, false, f & 0x04 != 0, false, f & 0x40 != 0, f & 0x80 != 0, f))
}

/// RLD: new accumulator, new memory byte, flags (S, Z, P, X, Y from the new accumulator; C stays)
pub fn rld(a: u8, m: u8, f: u8) -> (r: (u8, u8, u8))
    ensures
        r.0 == a - a % 16 + m / 16,
        r.1 == (m % 16) * 16 + a % 16,
        flags_are(r.2, fc(f), false, even_parity(r.0), false, r.0 == 0, r.0 >= 128, r.0),
{
    proof { lemma_flag_bits(f); }
    let acc = a - a % 16 + m / 16;
    let mem = (m % 16) * 16 + a % 16;
    (acc, mem, compose_flags(f & 0x01 != 0, false, parity_of(acc), false, acc == 0, acc >= 0x80, acc))
}

/// RRD: new accumulator, new memory byte, flags (S, Z, P, X, Y from the new accumulator; C stays)
pub fn rrd(a: u8, m: u8, f: u8) -> (r: (u8, u8, u8))
    ensures
        r.0 == a - a % 16 + m % 16,
        r.1 == (a % 16) * 16 + m / 16,
        flags_are(r.2, fc(f), false, even_parity(r.0), false, r.0 == 0, r.0 >= 128, r.0),
{
    proof { lemma_flag_bits(f); }
    let acc = a - a % 16 + m % 16;
    let mem = (a % 16) * 16 + m / 16;
    (acc, mem, compose_flags(f & 0x01 != 0, false, parity_of(acc), false, acc == 0, acc >= 0x80, acc))
}

pub open spec fn bit_is_set(v: u8, b: u8) -> bool {
    (v >> b) & 1 == 1
}

/// BIT b,v: flags (Z and P when the bit is clear, S when bit 7 is tested and set, H set, N
/// cleared, C, X, Y stay)
pub fn bit_test(b: u8, v: u8, f: u8) -> (g: u8)
    requires
        b < 8,
    ensures
        flags_are(g, fc(f), false, !bit_is_set(v, b), true, !bit_is_set(v, b), b == 7 && bit_is_set(v, b), f),
{
    proof { lemma_flag_bits(f); }
    let zero = (v >> b) & 1 == 0;
    proof { assert(((v >> b) & 1 == 0) == !((v >> b) & 1 == 1)) by (bit_vector); }
    compose_flags(f & 0x01 != 0, false, zero, true, zero, b == 7 && !zero, f)
}

/// Bits 5 (Y) and 3 (X) taken from bits 1 and 3 of `n`, as block transfers and searches set them
pub open spec fn block_xy(n: u8) -> u8 {
    (if (n / 2) % 2 == 1 { 0x20u8 } else { 0u8 }) | (if (n / 8) % 2 == 1 { 0x08u8 } else { 0u8 })
}

fn block_xy_of(n: u8) -> (r: u8)
    ensures
        r == block_xy(n),
{
    (if (n / 2) % 2 == 1 { 0x20u8 } else { 0u8 }) | (if (n / 8) % 2 == 1 { 0x08u8 } else { 0u8 })
}

/// Flags after LDI, LDD, LDIR, LDDR, where `ctr` is the decremented counter
pub fn ldi_flags(a: u8, val: u8, ctr: u16, f: u8) -> (g: u8)
    ensures
        flags_are(g, fc(f), false, ctr != 0, false, false, false, block_xy(((a + val) % 256) as u8)),
{
    proof { lemma_flag_bits(f); }
    let n = ((a as u16 + val as u16) % 256) as u8;
    compose_flags(f & 0x01 != 0, false, ctr != 0, false, false, false, block_xy_of(n))
}

/// Flags after CPI, CPD, CPIR, CPDR, where `ctr` is the decremented counter
pub fn cpi_flags(a: u8, val: u8, ctr: u16, f: u8) -> (g: u8)
    ensures
        ({
            let n = ((a - val) % 256) as u8;
            let h = a % 16 < val % 16;
            flags_are(g, fc(f), true, ctr != 0, h, n == 0, n >= 128,
                block_xy(if h { ((n - 1) % 256) as u8 } else { n }))
        }),
{
    proof { lemma_flag_bits(f); }
    let n = if a >= val { a - val } else { (a as u16 + 256 - val as u16) as u8 };
    assert(n == (a - val) % 256);
    let h = a % 16 < val % 16;
    let m = if h { if n == 0 { 255 } else { n - 1 } } else { n };
    assert(h ==> m == (n - 1) % 256);
    compose_flags(f & 0x01 != 0, true, ctr != 0, h, n == 0, n >= 0x80, block_xy_of(m))
}

/// Flags after the block IO group, where `ctr` is the decremented B
pub fn block_io_flags(ctr: u8, f: u8) -> (g: u8)
    ensures
        flags_are(g, fc(f), true, false, false, ctr == 0, ctr >= 128, 0),
{
    proof { lemma_flag_bits(f); }
    compose_flags(f & 0x01 != 0, true, false, false, ctr == 0, ctr >= 0x80, 0)
}

/// Flags after LD A,I and LD A,R: P holds IFF2
pub fn ld_a_ir_flags(value: u8, iff2: bool, f: u8) -> (g: u8)
    ensures
        flags_are(g, fc(f), false, iff2, false, value == 0, value >= 128, value),
{
    proof { lemma_flag_bits(f); }
    compose_flags(f & 0x01 != 0, false, iff2, false, value == 0, value >= 0x80, value)
}

/// Law: the rotates and shifts move the bits of the byte by one place, as bit operations say:
/// RLC and RRC rotate (the bit that leaves comes back at the other end and goes to the carry),
/// RL and RR rotate through the carry, SLA and SRL shift in a zero, SRA keeps the sign bit, SLL
/// shifts in a one
pub proof fn lemma_shifts_move_bits(v: u8, cin: bool)
    ensures
        spec_shift(ShiftOp::RLC, v, cin) == (((v << 1u8) | (v >> 7u8)) as u8, v & 0x80 != 0),
        spec_shift(ShiftOp::RRC, v, cin) == (((v >> 1u8) | (v << 7u8)) as u8, v & 0x01 != 0),
        spec_shift(ShiftOp::RL, v, cin) == (((v << 1u8) | (if cin { 1u8 } else { 0u8 })) as u8, v & 0x80 != 0),
        spec_shift(ShiftOp::RR, v, cin) == (((v >> 1u8) | (if cin { 0x80u8 } else { 0u8 })) as u8, v & 0x01 != 0),
        spec_shift(ShiftOp::SLA, v, cin) == ((v << 1u8) as u8, v & 0x80 != 0),
        spec_shift(ShiftOp::SRA, v, cin) == (((v >> 1u8) | (v & 0x80)) as u8, v & 0x01 != 0),
        spec_shift(ShiftOp::SLL, v, cin) == (((v << 1u8) | 1u8) as u8, v & 0x80 != 0),
        spec_shift(ShiftOp::SRL, v, cin) == ((v >> 1u8) as u8, v & 0x01 != 0),
{
    let c: u8 = if cin { 1 } else { 0 };
    assert({
        &&& ((v * 2) % 256 + v / 128) as u8 == ((v << 1u8) | (v >> 7u8)) as u8
        &&& (v / 2 + (v % 2) * 128) as u8 == ((v >> 1u8) | (v << 7u8)) as u8
        &&& ((v * 2) % 256 + c) as u8 == ((v << 1u8) | c) as u8
        &&& (v / 2 + c * 128) as u8 == ((v >> 1u8) | (c * 128) as u8) as u8
        &&& ((v * 2) % 256) as u8 == (v << 1u8) as u8
        &&& (v / 2 + (v / 128) * 128) as u8 == ((v >> 1u8) | (v & 0x80)) as u8
        &&& ((v * 2) % 256 + 1) as u8 == ((v << 1u8) | 1u8) as u8
        &&& (v / 2) as u8 == (v >> 1u8) as u8
        &&& (v >= 128) == (v & 0x80 != 0)
        &&& (v % 2 == 1) == (v & 0x01 != 0)
    }) by (bit_vector)
        requires
            c <= 1;
}

/// Law: each rotate is undone by the rotate the other way: RRC after RLC, RLC after RRC, and
/// RR after RL (and RL after RR) with the carry that the first one left
pub proof fn lemma_rotates_undo(v: u8, cin: bool)
    ensures
        spec_shift(ShiftOp::RRC, spec_shift(ShiftOp::RLC, v, cin).0, cin).0 == v,
        spec_shift(ShiftOp::RLC, spec_shift(ShiftOp::RRC, v, cin).0, cin).0 == v,
        spec_shift(ShiftOp::RR, spec_shift(ShiftOp::RL, v, cin).0, spec_shift(ShiftOp::RL, v, cin).1) == (v, cin),
        spec_shift(ShiftOp::RL, spec_shift(ShiftOp::RR, v, cin).0, spec_shift(ShiftOp::RR, v, cin).1) == (v, cin),
{
    let l = spec_shift(ShiftOp::RLC, v, cin).0;
    let r = spec_shift(ShiftOp::RRC, v, cin).0;
    let (lc, co) = spec_shift(ShiftOp::RL, v, cin);
    let (rc, ci) = spec_shift(ShiftOp::RR, v, cin);
    lemma_shifts_move_bits(v, cin);
    lemma_shifts_move_bits(l, cin);
    lemma_shifts_move_bits(r, cin);
    lemma_shifts_move_bits(lc, co);
    lemma_shifts_move_bits(rc, ci);
    let c: u8 = if cin { 1 } else { 0 };
    let hb: u8 = if co { 0x80 } else { 0 };
    let lb: u8 = if ci { 1 } else { 0 };
    assert({
        &&& ((((v << 1u8) | (v >> 7u8)) >> 1u8) | (((v << 1u8) | (v >> 7u8)) << 7u8)) == v
        &&& ((((v >> 1u8) | (v << 7u8)) << 1u8) | (((v >> 1u8) | (v << 7u8)) >> 7u8)) == v
        &&& ((((v << 1u8) | c) >> 1u8) | hb) == v
        &&& (((v << 1u8) | c) & 0x01 != 0) == (c == 1)
        &&& ((((v >> 1u8) | (c * 128) as u8) << 1u8) | lb) == v
        &&& (((v >> 1u8) | (c * 128) as u8) & 0x80 != 0) == (c == 1)
    }) by (bit_vector)
        requires
            c <= 1,
            hb == (if v & 0x80 != 0 { 0x80u8 } else { 0u8 }),
            lb == (if v & 0x01 != 0 { 1u8 } else { 0u8 }),
    ;
}

/// Law: 8-bit arithmetic works on the true sums and differences. The result and the carry flag
/// make up a + b for ADD and a + b + carry for ADC, a - b for SUB and a - b - carry for SBC;
/// CP sets Z when the operands are equal and C when the accumulator is the smaller; a
/// subtraction undoes an addition; ADC
/// without carry is ADD and SBC without carry is SUB
#[verifier::spinoff_prover]
#[verifier::rlimit(100)]
pub proof fn lemma_alu_arithmetic(a: u8, b: u8, f: u8, g: u8)
    ensures
        spec_alu_flags(AluOp::ADD, a, b, f, g)
            ==> spec_alu_result(AluOp::ADD, a, b, f) + (if fc(g) { 256int } else { 0 }) == a + b,
        spec_alu_flags(AluOp::ADC, a, b, f, g)
            ==> spec_alu_result(AluOp::ADC, a, b, f) + (if fc(g) { 256int } else { 0 }) == a + b + (if fc(f) { 1int } else { 0 }),
        spec_alu_flags(AluOp::SUB, a, b, f, g)
            ==> spec_alu_result(AluOp::SUB, a, b, f) - (if fc(g) { 256int } else { 0 }) == a - b,
        spec_alu_flags(AluOp::SBC, a, b, f, g)
            ==> spec_alu_result(AluOp::SBC, a, b, f) - (if fc(g) { 256int } else { 0 }) == a - b - (if fc(f) { 1int } else { 0 }),
        spec_alu_flags(AluOp::CP, a, b, f, g) ==> fz(g) == (a == b) && fc(g) == (a < b),
        spec_alu_result(AluOp::SUB, spec_alu_result(AluOp::ADD, a, b, f), b, f) == a,
        !fc(f) ==> spec_alu_result(AluOp::ADC, a, b, f) == spec_alu_result(AluOp::ADD, a, b, f),
        !fc(f) ==> spec_alu_result(AluOp::SBC, a, b, f) == spec_alu_result(AluOp::SUB, a, b, f),
{
}

/// Law: after any 8-bit arithmetic or logic operation, Z is set exactly on a zero result and S
/// exactly on a negative one
pub proof fn lemma_alu_zero_sign(op: AluOp, a: u8, b: u8, f: u8, g: u8)
    requires
        spec_alu_flags(op, a, b, f, g),
    ensures
        fz(g) == (spec_alu_result(op, a, b, f) == 0),
        fs(g) == (spec_alu_result(op, a, b, f) >= 128),
{
}

/// Law: the logic operations act bit by bit: AND with itself and OR with zero give the operand
/// back, XOR with itself and AND with zero give zero, and each is symmetric in its operands
pub proof fn lemma_alu_logic(a: u8, b: u8, f: u8)
    ensures
        spec_alu_result(AluOp::AND, a, a, f) == a,
        spec_alu_result(AluOp::OR, a, 0, f) == a,
        spec_alu_result(AluOp::XOR, a, a, f) == 0,
        spec_alu_result(AluOp::AND, a, 0, f) == 0,
        spec_alu_result(AluOp::OR, a, 0xff, f) == 0xff,
        spec_alu_result(AluOp::AND, a, b, f) == spec_alu_result(AluOp::AND, b, a, f),
        spec_alu_result(AluOp::OR, a, b, f) == spec_alu_result(AluOp::OR, b, a, f),
        spec_alu_result(AluOp::XOR, a, b, f) == spec_alu_result(AluOp::XOR, b, a, f),
{
    assert(a & a == a && a | 0 == a && a ^ a == 0 && a & 0 == 0 && a | 0xff == 0xff
        && a & b == b & a && a | b == b | a && a ^ b == b ^ a) by (bit_vector);
}

} // verus!
