use vstd::prelude::*;

use crate::cpu::state::{hi, lo, mkword, spword, word};

verus! {

/// High and low bytes of a word
#[derive(Clone, Copy, PartialEq, Eq, Debug, Structural)]
pub struct WordBytes {
    pub lo: u8,
    pub hi: u8,
}

/// Stores a u16 value and gives access to its high and low bytes individually
#[derive(Clone, Copy, PartialEq, Eq, Debug, Structural)]
pub struct U16Cell {
    w: u16,
}

impl View for U16Cell {
    type V = u16;

    closed spec fn view(&self) -> u16 {
        self.w
    }
}

impl Default for U16Cell {
    fn default() -> (r: U16Cell)
        ensures
            r@ == 0,
    {
        U16Cell { w: 0 }
    }
}

impl U16Cell {

    /// The whole word
    pub fn value(&self) -> (r: u16)
        ensures
            r == self@,
    {
        self.w
    }

    /// Replace the whole word
    pub fn set_value(&mut self, v: u16)
        ensures
            final(self)@ == v,
    {
        self.w = v;
    }

    /// High and low bytes of the word
    pub fn bytes(&self) -> (r: WordBytes)
        ensures
            r.hi == hi(self@),
            r.lo == lo(self@),
    {
        let (h, l) = spword(self.w);
        WordBytes { lo: l, hi: h }
    }

    /// Replace the high byte, keeping the low one
    pub fn set_hi(&mut self, b: u8)
        ensures
            final(self)@ == word(b, lo(old(self)@)),
    {
        let (_, l) = spword(self.w);
        self.w = mkword(b, l);
    }

    /// Replace the low byte, keeping the high one
    pub fn set_lo(&mut self, b: u8)
        ensures
            final(self)@ == word(hi(old(self)@), b),
    {
        let (h, _) = spword(self.w);
        self.w = mkword(h, b);
    }
}

} // verus!
