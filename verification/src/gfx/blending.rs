use vstd::prelude::*;

use super::color::Color;

verus! {

/// How a drawn pixel combines with the one it lands on
#[derive(Clone, Copy, PartialEq, Eq, Debug, Structural)]
pub enum PixelBlending {
    XOR,
    SET,
    RES,
    NOP,
}

impl Default for PixelBlending {
    fn default() -> (r: PixelBlending)
        ensures
            r == PixelBlending::XOR,
    {
        PixelBlending::XOR
    }
}

/// What drawing changes: the pixel, and optionally the ink, paper, brightness and flash
#[derive(Clone, Copy, Debug)]
pub struct BlendingMode {
    pub pixel: PixelBlending,
    pub ink: Option<Color>,
    pub paper: Option<Color>,
    pub bright: bool,
    pub flash: bool,
}

impl Default for BlendingMode {
    fn default() -> (r: BlendingMode)
        ensures
            r.pixel == PixelBlending::XOR,
            r.ink is None,
            r.paper is None,
            !r.bright,
            !r.flash,
    {
        BlendingMode { pixel: PixelBlending::XOR, ink: None, paper: None, bright: false, flash: false }
    }
}

} // verus!
