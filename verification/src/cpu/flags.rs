use vstd::prelude::*;

use super::tokens::Condition;

verus! {

/// Carry flag
pub const FLAG_C: u8 = 0x01;
/// Add / Subtract flag
pub const FLAG_N: u8 = 0x02;
/// Parity / Overflow flag
pub const FLAG_P: u8 = 0x04;
/// Bit 3 of the result
pub const FLAG_X: u8 = 0x08;
/// Half Carry flag
pub const FLAG_H: u8 = 0x10;
/// Bit 5 of the result
pub const FLAG_Y: u8 = 0x20;
/// Zero flag
pub const FLAG_Z: u8 = 0x40;
/// Sign flag
pub const FLAG_S: u8 = 0x80;
/// Bits 3 & 5 of the result
pub const FLAG_XY: u8 = 0x28;

/// Whether bit `i` of `v` is set
pub open spec fn bit(v: u8, i: nat) -> bool {
    (v as nat / pow2(i)) % 2 == 1
}

pub open spec fn pow2(i: nat) -> nat
    decreases i,
{
    if i == 0 { 1 } else { 2 * pow2((i - 1) as nat) }
}

/// Number of set bits of a byte
pub open spec fn count_ones(v: u8) -> nat {
    (v % 2 + (v / 2) % 2 + (v / 4) % 2 + (v / 8) % 2 + (v / 16) % 2 + (v / 32) % 2 + (v / 64) % 2 + (v / 128) % 2) as nat
}

/// `bits` with the bits of `mask` set to `on`
pub open spec fn with_mask(bits: u8, mask: u8, on: bool) -> u8 {
    if on { bits | mask } else { bits & !mask }
}

/// CPU flags (the F register)
#[derive(Clone, Copy, PartialEq, Eq, Debug, Structural)]
pub struct Flags {
    pub bits: u8,
}

impl Flags {

    pub fn from_bits(value: u8) -> (r: Flags)
        ensures
            r.bits == value,
    {
        Flags { bits: value }
    }

    pub fn bits(&self) -> (r: u8)
        ensures
            r == self.bits,
    {
        self.bits
    }

    /// Whether all bits of `mask` are set
    pub fn contains(&self, mask: u8) -> (r: bool)
        ensures
            r == (self.bits & mask == mask),
    {
        self.bits & mask == mask
    }

    /// Set or clear the bits of `mask`
    pub fn set(&mut self, mask: u8, on: bool)
        ensures
            final(self).bits == with_mask(old(self).bits, mask, on),
    {
        if on { self.bits = self.bits | mask } else { self.bits = self.bits & !mask }
    }

    /// Set Z when `value` is zero and S when its sign bit is set; other flags stay
    pub fn set_zs_flags_u8(&mut self, value: u8) -> (r: &mut Self)
        ensures
            *final(self) == *final(r),
            r.bits == with_mask(with_mask(old(self).bits, FLAG_Z, value == 0), FLAG_S, value >= 0x80),
    {
        self.set(FLAG_Z, value == 0);
        self.set(FLAG_S, value >= 0x80);
        self
    }

    /// Set Z when `value` is zero and S when its sign bit is set; other flags stay
    pub fn set_zs_flags_u16(&mut self, value: u16) -> (r: &mut Self)
        ensures
            *final(self) == *final(r),
            r.bits == with_mask(with_mask(old(self).bits, FLAG_Z, value == 0), FLAG_S, value >= 0x8000),
    {
        self.set(FLAG_Z, value == 0);
        self.set(FLAG_S, value >= 0x8000);
        self
    }

    /// Set P when `value` has an even number of set bits (the Z80 parity flag); other flags stay
    pub fn set_parity_flag(&mut self, value: u8) -> (r: &mut Self)
        ensures
            *final(self) == *final(r),
            r.bits == with_mask(old(self).bits, FLAG_P, count_ones(value) % 2 == 0),
    {
        let mut v = value;
        v = v ^ (v >> 4);
        v = v ^ (v >> 2);
        v = v ^ (v >> 1);
        proof { lemma_parity_fold(value); }
        self.set(FLAG_P, v & 1 == 0);
        self
    }

    /// Whether the flags satisfy a jump condition
    pub fn satisfy(&self, condition: Condition) -> (r: bool)
        ensures
            r == spec_satisfy(self.bits, condition),
    {
        match condition {
            Condition::NZ => !self.contains(FLAG_Z),
            Condition::Z => self.contains(FLAG_Z),
            Condition::NC => !self.contains(FLAG_C),
            Condition::C => self.contains(FLAG_C),
            Condition::PO => !self.contains(FLAG_P),
            Condition::PE => self.contains(FLAG_P),
            Condition::P => !self.contains(FLAG_S),
            Condition::M => self.contains(FLAG_S),
            Condition::Always => true,
        }
    }
}

/// Jump condition over the flag bits
pub open spec fn spec_satisfy(bits: u8, condition: Condition) -> bool {
    match condition {
        Condition::NZ => bits & FLAG_Z != FLAG_Z,
        Condition::Z => bits & FLAG_Z == FLAG_Z,
        Condition::NC => bits & FLAG_C != FLAG_C,
        Condition::C => bits & FLAG_C == FLAG_C,
        Condition::PO => bits & FLAG_P != FLAG_P,
        Condition::PE => bits & FLAG_P == FLAG_P,
        Condition::P => bits & FLAG_S != FLAG_S,
        Condition::M => bits & FLAG_S == FLAG_S,
        Condition::Always => true,
    }
}

pub proof fn lemma_parity_fold(value: u8)
    ensures
        ({
            let v1 = value ^ (value >> 4);
            let v2 = v1 ^ (v1 >> 2);
            let v3 = v2 ^ (v2 >> 1);
            (v3 & 1 != 0) == (count_ones(value) % 2 == 1)
        }),
{
    lemma_xor_fold_bits(value);
    lemma_bits_div(value);
}

proof fn lemma_xor_fold_bits(value: u8)
    by (bit_vector)
    ensures
        ({
            let v1 = value ^ (value >> 4);
            let v2 = v1 ^ (v1 >> 2);
            let v3 = v2 ^ (v2 >> 1);
            (v3 & 1 != 0) == (((value & 1) + ((value >> 1) & 1) + ((value >> 2) & 1) + ((value >> 3) & 1)
                + ((value >> 4) & 1) + ((value >> 5) & 1) + ((value >> 6) & 1) + ((value >> 7) & 1)) % 2 == 1)
        }),
{
}

proof fn lemma_bits_div(value: u8)
    by (bit_vector)
    ensures
        value & 1 == value % 2,
        (value >> 1) & 1 == (value / 2) % 2,
        (value >> 2) & 1 == (value / 4) % 2,
        (value >> 3) & 1 == (value / 8) % 2,
        (value >> 4) & 1 == (value / 16) % 2,
        (value >> 5) & 1 == (value / 32) % 2,
        (value >> 6) & 1 == (value / 64) % 2,
        (value >> 7) & 1 == (value / 128) % 2,
{
}

/// Law: each condition tests one flag bit of F, a pair of conditions testing it both ways: Z and
/// NZ the zero flag (bit 6), C and NC the carry (bit 0), PE and PO the parity/overflow flag
/// (bit 2), M and P the sign (bit 7); the unconditional one always holds
pub proof fn lemma_conditions_test_flag_bits(bits: u8)
    ensures
        spec_satisfy(bits, Condition::Z) == (bits & 0x40 != 0),
        spec_satisfy(bits, Condition::NZ) == (bits & 0x40 == 0),
        spec_satisfy(bits, Condition::C) == (bits & 0x01 != 0),
        spec_satisfy(bits, Condition::NC) == (bits & 0x01 == 0),
        spec_satisfy(bits, Condition::PE) == (bits & 0x04 != 0),
        spec_satisfy(bits, Condition::PO) == (bits & 0x04 == 0),
        spec_satisfy(bits, Condition::M) == (bits & 0x80 != 0),
        spec_satisfy(bits, Condition::P) == (bits & 0x80 == 0),
        spec_satisfy(bits, Condition::Always),
{
    assert({
        &&& (bits & 0x40 == 0x40) == (bits & 0x40 != 0)
        &&& (bits & 0x01 == 0x01) == (bits & 0x01 != 0)
        &&& (bits & 0x04 == 0x04) == (bits & 0x04 != 0)
        &&& (bits & 0x80 == 0x80) == (bits & 0x80 != 0)
    }) by (bit_vector);
}

/// Law: with any flag bits set to `on`, a condition on one of them holds as `on` says, whatever
/// the other bits: setting P/V makes PE hold and PO fail, clearing it the other way round
pub proof fn lemma_conditions_follow_set_flags(bits: u8, on: bool)
    ensures
        spec_satisfy(with_mask(bits, 0x04, on), Condition::PE) == on,
        spec_satisfy(with_mask(bits, 0x04, on), Condition::PO) == !on,
        spec_satisfy(with_mask(bits, 0x40, on), Condition::Z) == on,
        spec_satisfy(with_mask(bits, 0x01, on), Condition::C) == on,
        spec_satisfy(with_mask(bits, 0x80, on), Condition::M) == on,
{
    lemma_conditions_test_flag_bits(with_mask(bits, 0x04, on));
    lemma_conditions_test_flag_bits(with_mask(bits, 0x40, on));
    lemma_conditions_test_flag_bits(with_mask(bits, 0x01, on));
    lemma_conditions_test_flag_bits(with_mask(bits, 0x80, on));
    assert({
        &&& (bits | 0x04) & 0x04 != 0 && (bits & !0x04u8) & 0x04 == 0
        &&& (bits | 0x40) & 0x40 != 0 && (bits & !0x40u8) & 0x40 == 0
        &&& (bits | 0x01) & 0x01 != 0 && (bits & !0x01u8) & 0x01 == 0
        &&& (bits | 0x80) & 0x80 != 0 && (bits & !0x80u8) & 0x80 == 0
    }) by (bit_vector);
}

} // verus!
