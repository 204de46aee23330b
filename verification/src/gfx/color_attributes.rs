use vstd::prelude::*;

use super::attributes::{BRIGHT, INK_MASK, PAPER_MASK};
use super::color::{spec_rgb, Color};

verus! {

/// Color, brightness and flash attributes of a character cell, with colors as palette colors
#[derive(Clone, Copy, PartialEq, Eq, Debug, Structural)]
pub struct Attributes {
    pub bits: u8,
}

impl Default for Attributes {
    /// White paper, black ink
    fn default() -> (r: Attributes)
        ensures
            r.bits == PAPER_MASK,
    {
        Attributes { bits: PAPER_MASK }
    }
}

impl Attributes {

    /// Attributes with the given bits
    pub fn from_bits(bits: u8) -> (r: Attributes)
        ensures
            r.bits == bits,
    {
        Attributes { bits }
    }

    /// Whether all bits of `mask` are set
    pub fn contains(&self, mask: u8) -> (r: bool)
        ensures
            r == (self.bits & mask == mask),
    {
        self.bits & mask == mask
    }

    /// Set the bits of `mask`
    pub fn insert(&mut self, mask: u8)
        ensures
            final(self).bits == old(self).bits | mask,
    {
        self.bits = self.bits | mask;
    }

    /// Paper color
    pub fn get_paper(&self) -> (r: Color)
        ensures
            r@ == (self.bits & PAPER_MASK) >> 3,
            r.wf(),
    {
        let b = self.bits;
        assert((b & 0x38) >> 3 < 8) by (bit_vector);
        Color::new(((self.bits & PAPER_MASK) >> 3) as usize)
    }

    /// Ink color
    pub fn get_ink(&self) -> (r: Color)
        ensures
            r@ == self.bits & INK_MASK,
            r.wf(),
    {
        let b = self.bits;
        assert(b & 7 < 8) by (bit_vector);
        Color::new((self.bits & INK_MASK) as usize)
    }

    /// Set the paper color
    pub fn set_paper(&mut self, paper: Color)
        requires
            paper.wf(),
        ensures
            final(self).bits == (old(self).bits & !PAPER_MASK) | (((paper@ as u8) & 7) << 3),
    {
        self.bits = (self.bits & !PAPER_MASK) | (((paper.index() as u8) & 7) << 3);
    }

    /// Set the ink color
    pub fn set_ink(&mut self, ink: Color)
        requires
            ink.wf(),
        ensures
            final(self).bits == (old(self).bits & !INK_MASK) | ((ink@ as u8) & 7),
    {
        self.bits = (self.bits & !INK_MASK) | ((ink.index() as u8) & 7);
    }

    /// RGB of a color at the brightness of these attributes
    pub open spec fn spec_color_rgb(&self, index: usize) -> Seq<u8> {
        spec_rgb(index, if self.bits & BRIGHT == BRIGHT { 0xff } else { 0xee })
    }

    /// RGB of the paper color
    pub fn get_paper_rgb(&self) -> (r: [u8; 3])
        ensures
            r@ == self.spec_color_rgb(((self.bits & PAPER_MASK) >> 3) as usize),
    {
        self.get_rgb(self.get_paper())
    }

    /// RGB of the ink color
    pub fn get_ink_rgb(&self) -> (r: [u8; 3])
        ensures
            r@ == self.spec_color_rgb((self.bits & INK_MASK) as usize),
    {
        self.get_rgb(self.get_ink())
    }

    fn get_rgb(&self, color: Color) -> (r: [u8; 3])
        requires
            color.wf(),
        ensures
            r@ == self.spec_color_rgb(color@),
    {
        if self.contains(BRIGHT) {
            color.rgb_bright()
        } else {
            color.rgb_dim()
        }
    }
}

} // verus!
