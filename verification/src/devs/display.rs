use vstd::prelude::*;

use super::memory::{Memory, MEMORY_SIZE};

verus! {

/// Screen width in pixels
pub const SCREEN_W: usize = 256;
/// Screen height in pixels
pub const SCREEN_H: usize = 192;
/// Address of the screen bitmap
pub const BITMAP_BASE: u16 = 0x4000;
/// Address of the screen attributes
pub const ATTR_BASE: u16 = 0x5800;

/// RGB of a color of the palette: bit 0 of the index is blue, bit 1 red and bit 2 green, each at
/// 0xCD, or 0xFF when bright
pub open spec fn palette_rgb(index: u8, bright: bool) -> (u8, u8, u8) {
    let level: u8 = if bright { 0xff } else { 0xcd };
    (
        if (index / 2) % 2 == 1 { level } else { 0 },
        if (index / 4) % 2 == 1 { level } else { 0 },
        if index % 2 == 1 { level } else { 0 },
    )
}

/// Address of the bitmap byte that holds pixel `px` of line `py`: the screen is split in
/// thirds of 64 lines, and within a third the lines of a character row are 256 bytes apart
pub open spec fn bitmap_addr(py: int, px: int) -> int {
    0x4000 + (py / 64) * 2048 + (py % 8) * 256 + ((py / 8) % 8) * 32 + px / 8
}

/// Address of the attribute of the character cell of pixel `px` of line `py`
pub open spec fn attr_addr(py: int, px: int) -> int {
    0x5800 + (py / 8) * 32 + px / 8
}

/// Color of pixel `px` of line `py` of the screen in memory: ink where the bitmap bit is set
/// (the leftmost pixel being the top bit), paper elsewhere, both bright if the attribute says so
pub open spec fn screen_rgb(mem: Seq<u8>, py: int, px: int) -> (u8, u8, u8) {
    let byte = mem[bitmap_addr(py, px)];
    let attr = mem[attr_addr(py, px)];
    let set = byte & (0x80u8 >> ((px % 8) as u8)) != 0;
    palette_rgb(if set { attr & 0x07 } else { (attr >> 3u8) & 0x07 }, attr & 0x40 != 0)
}

fn palette_color(index: u8, bright: bool) -> (r: (u8, u8, u8))
    ensures
        r == palette_rgb(index, bright),
{
    let level: u8 = if bright { 0xff } else { 0xcd };
    (
        if (index / 2) % 2 == 1 { level } else { 0 },
        if (index / 4) % 2 == 1 { level } else { 0 },
        if index % 2 == 1 { level } else { 0 },
    )
}

/// The screen that the memory holds, line by line, as RGB pixels
pub fn render<M: Memory>(memory: &M) -> (r: Vec<(u8, u8, u8)>)
    requires
        memory.contents().len() == MEMORY_SIZE,
    ensures
        r@.len() == SCREEN_W * SCREEN_H,
        forall|k: int| 0 <= k < r@.len() ==> #[trigger] r@[k] == screen_rgb(memory.contents(), k / 256, k % 256),
{
    let mut r: Vec<(u8, u8, u8)> = Vec::new();
    let mut k: usize = 0;
    while k < SCREEN_W * SCREEN_H
        invariant
            memory.contents().len() == MEMORY_SIZE,
            k <= SCREEN_W * SCREEN_H,
            r@.len() == k,
            forall|j: int| 0 <= j < k ==> #[trigger] r@[j] == screen_rgb(memory.contents(), j / 256, j % 256),
        decreases SCREEN_W * SCREEN_H - k,
    {
        let py = k / 256;
        let px = k % 256;
        let byte_addr = 0x4000 + (py / 64) * 2048 + (py % 8) * 256 + ((py / 8) % 8) * 32 + px / 8;
        let attr_at = 0x5800 + (py / 8) * 32 + px / 8;
        let byte = memory.read(byte_addr as u16);
        let attr = memory.read(attr_at as u16);
        let set = byte & (0x80u8 >> ((px % 8) as u8)) != 0;
        let index = if set { attr & 0x07 } else { (attr >> 3u8) & 0x07 };
        r.push(palette_color(index, attr & 0x40 != 0));
        k = k + 1;
    }
    r
}

} // verus!
