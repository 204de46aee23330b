use vstd::prelude::*;

verus! {

/// Flash attribute bit
pub const FLASH: u8 = 0b10000000;
/// Bright attribute bit
pub const BRIGHT: u8 = 0b01000000;
/// Paper color bits
pub const PAPER_MASK: u8 = 0b00111000;
/// Ink color bits
pub const INK_MASK: u8 = 0b00000111;

/// Color, brightness and flash attributes of a character cell
#[derive(Clone, Copy, PartialEq, Eq, Debug, Structural)]
pub struct Attributes {
    pub bits: u8,
}

impl Default for Attributes {
    /// White paper, black ink
    fn default() -> (r: Attributes)
        ensures
            r.bits == PAPER_MASK,
    {
        Attributes { bits: PAPER_MASK }
    }
}

impl Attributes {

    /// Attributes with the given bits
    pub fn from_bits(bits: u8) -> (r: Attributes)
        ensures
            r.bits == bits,
    {
        Attributes { bits }
    }

    /// Whether all bits of `mask` are set
    pub fn contains(&self, mask: u8) -> (r: bool)
        ensures
            r == (self.bits & mask == mask),
    {
        self.bits & mask == mask
    }

    /// Set the bits of `mask`
    pub fn insert(&mut self, mask: u8)
        ensures
            final(self).bits == old(self).bits | mask,
    {
        self.bits = self.bits | mask;
    }

    /// Paper color index
    pub fn get_paper(&self) -> (r: u8)
        ensures
            r == (self.bits & PAPER_MASK) >> 3,
            r < 8,
    {
        let b = self.bits;
        assert((b & 0x38) >> 3 < 8) by (bit_vector);
        (self.bits & PAPER_MASK) >> 3
    }

    /// Ink color index
    pub fn get_ink(&self) -> (r: u8)
        ensures
            r == self.bits & INK_MASK,
            r < 8,
    {
        let b = self.bits;
        assert(b & 7 < 8) by (bit_vector);
        self.bits & INK_MASK
    }

    /// Set the ink color index (its lower 3 bits)
    pub fn set_ink(&mut self, ink: u8)
        ensures
            final(self).bits == (old(self).bits & !INK_MASK) | (ink & 7),
    {
        self.bits = (self.bits & !INK_MASK) | (ink & 7);
    }

    /// Set the paper color index (its lower 3 bits)
    pub fn set_paper(&mut self, paper: u8)
        ensures
            final(self).bits == (old(self).bits & !PAPER_MASK) | ((paper & 7) << 3),
    {
        self.bits = (self.bits & !PAPER_MASK) | ((paper & 7) << 3);
    }
}

/// Law: setting the ink or the paper gives it back and keeps the other attributes
pub proof fn lemma_set_get(bits: u8, v: u8)
    ensures
        ({
            let ink_set = (bits & !INK_MASK) | (v & 7);
            let paper_set = (bits & !PAPER_MASK) | ((v & 7) << 3);
            &&& ink_set & INK_MASK == v & 7
            &&& ink_set & !INK_MASK == bits & !INK_MASK
            &&& (paper_set & PAPER_MASK) >> 3 == v & 7
            &&& paper_set & !PAPER_MASK == bits & !PAPER_MASK
        }),
{
    assert({
        let ink_set = (bits & !7u8) | (v & 7);
        let paper_set = (bits & !0x38u8) | ((v & 7) << 3);
        &&& ink_set & 7 == v & 7
        &&& ink_set & !7u8 == bits & !7u8
        &&& (paper_set & 0x38) >> 3 == v & 7
        &&& paper_set & !0x38u8 == bits & !0x38u8
    }) by (bit_vector);
}

} // verus!
