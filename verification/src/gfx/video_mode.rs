use vstd::prelude::*;

verus! {

/// ZX Spectrum video mode
#[derive(Clone, Copy, PartialEq, Eq, Debug, Structural)]
pub enum VideoMode {
    /// Standard ZX video mode
    STD8X8,
    /// Multicolor with 8x4 attr blocks
    MUL8X4,
}

} // verus!
