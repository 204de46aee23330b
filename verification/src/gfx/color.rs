use vstd::prelude::*;

verus! {

/// Number of colors of the palette
pub const PALETTE_SIZE: usize = 8;

/// Intensity of a color channel: bit `bit` of the color index turns it on
pub open spec fn channel(index: usize, bit: nat, level: u8) -> u8 {
    if (index / pow2(bit)) % 2 == 1 { level } else { 0 }
}

pub open spec fn pow2(bit: nat) -> usize {
    if bit == 0 { 1 } else if bit == 1 { 2 } else { 4 }
}

/// RGB of a color at the given intensity: index bit 1 is red, bit 2 green, bit 0 blue
pub open spec fn spec_rgb(index: usize, level: u8) -> Seq<u8> {
    seq![channel(index, 1, level), channel(index, 2, level), channel(index, 0, level)]
}

/// ZX Spectrum color
#[derive(Clone, Copy, Debug)]
pub struct Color {
    index: usize,
}

impl View for Color {
    type V = usize;

    closed spec fn view(&self) -> usize {
        self.index
    }
}

impl PartialEq for Color {
    fn eq(&self, other: &Color) -> (r: bool) {
        self.index == other.index
    }
}

impl vstd::std_specs::cmp::PartialEqSpecImpl for Color {
    open spec fn obeys_eq_spec() -> bool {
        true
    }

    open spec fn eq_spec(&self, other: &Color) -> bool {
        self@ == other@
    }
}

fn rgb(index: usize, level: u8) -> (r: [u8; 3])
    requires
        index < PALETTE_SIZE,
    ensures
        r@ == spec_rgb(index, level),
{
    let red = if (index / 2) % 2 == 1 { level } else { 0 };
    let green = if (index / 4) % 2 == 1 { level } else { 0 };
    let blue = if index % 2 == 1 { level } else { 0 };
    let r = [red, green, blue];
    assert(r@ =~= spec_rgb(index, level));
    r
}

impl Color {

    /// Valid colors are below the palette size
    pub closed spec fn wf(&self) -> bool {
        self.index < PALETTE_SIZE
    }

    /// All colors of the palette, by index
    pub fn palette() -> (r: Vec<Color>)
        ensures
            r@.len() == PALETTE_SIZE,
            forall|k: int| 0 <= k < PALETTE_SIZE ==> #[trigger] r@[k]@ == k && r@[k].wf(),
    {
        let mut r: Vec<Color> = Vec::new();
        let mut index: usize = 0;
        while index < PALETTE_SIZE
            invariant
                index <= PALETTE_SIZE,
                r@.len() == index,
                forall|k: int| 0 <= k < index ==> #[trigger] r@[k]@ == k && r@[k].wf(),
            decreases PALETTE_SIZE - index,
        {
            r.push(Color { index });
            index = index + 1;
        }
        r
    }

    /// Color of the given palette index
    pub fn new(index: usize) -> (r: Color)
        requires
            index < PALETTE_SIZE,
        ensures
            r@ == index,
            r.wf(),
    {
        Color { index }
    }

    /// Palette index of the color
    pub fn index(&self) -> (r: usize)
        ensures
            r == self@,
    {
        self.index
    }

    /// RGB of the color, normal brightness
    pub fn rgb_dim(&self) -> (r: [u8; 3])
        requires
            self.wf(),
        ensures
            r@ == spec_rgb(self@, 0xee),
    {
        rgb(self.index, 0xee)
    }

    /// RGB of the color, bright
    pub fn rgb_bright(&self) -> (r: [u8; 3])
        requires
            self.wf(),
        ensures
            r@ == spec_rgb(self@, 0xff),
    {
        rgb(self.index, 0xff)
    }
}

} // verus!
