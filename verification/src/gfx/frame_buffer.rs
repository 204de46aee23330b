use vstd::prelude::*;

use super::attributes::PAPER_MASK;
use super::color_attributes::Attributes;
use super::video_mode::VideoMode;

verus! {

/// Bytes of a ZX Spectrum screen: 6144 of pixels, then 768 of attributes
pub const SCREEN_SIZE: usize = 6912;
/// Bytes of pixels in a screen
pub const PIXELS_SIZE: usize = 6144;

/// Address in screen memory of the first byte of pixel line `line`: the screen is split in
/// thirds of 64 lines, and within a third the lines of a character row are 256 bytes apart
pub open spec fn screen_line_addr(line: int) -> int {
    (line / 64) * 2048 + (line % 8) * 256 + ((line / 8) % 8) * 32
}

/// Pixel `x` of line `line` of a screen, the leftmost pixel of a byte being its top bit
pub open spec fn screen_pixel(data: Seq<u8>, line: int, x: int) -> bool {
    (data[screen_line_addr(line) + x / 8] >> ((7 - x % 8) as u8)) & 1u8 == 1u8
}

/// ZX Spectrum frame buffer
pub struct FrameBuffer {
    /// Attribute columns
    pub cols: usize,
    /// Attribute rows
    pub rows: usize,
    /// Width in pixels
    pub width: usize,
    /// Height in pixels
    pub height: usize,
    /// Frame pixels, line by line
    pub pixels: Vec<bool>,
    /// Frame attributes, row by row
    pub attrs: Vec<Attributes>,
}

/// Dimensions of the frame buffer of a video mode: columns, rows, width, height
pub open spec fn mode_dims(mode: VideoMode) -> (usize, usize, usize, usize) {
    match mode {
        VideoMode::STD8X8 => (32, 24, 256, 192),
        VideoMode::MUL8X4 => (32, 48, 256, 192),
    }
}

impl FrameBuffer {

    /// Dimensions of one of the video modes, with pixels and attributes to match
    pub open spec fn wf(&self) -> bool {
        &&& self.cols == 32 && self.width == 256 && self.height == 192
        &&& self.rows == 24 || self.rows == 48
        &&& self.pixels@.len() == self.width * self.height
        &&& self.attrs@.len() == self.cols * self.rows
    }

    /// Creates frame buffer for given video mode: paper only, white paper and black ink
    pub fn new_for(mode: VideoMode) -> (r: FrameBuffer)
        ensures
            r.wf(),
            (r.cols, r.rows, r.width, r.height) == mode_dims(mode),
            forall|k: int| 0 <= k < r.pixels@.len() ==> !#[trigger] r.pixels@[k],
            forall|k: int| 0 <= k < r.attrs@.len() ==> (#[trigger] r.attrs@[k]).bits == PAPER_MASK,
    {
        let (cols, rows, width, height) = match mode {
            VideoMode::STD8X8 => (32usize, 24usize, 256usize, 192usize),
            VideoMode::MUL8X4 => (32usize, 48usize, 256usize, 192usize),
        };
        let mut pixels: Vec<bool> = Vec::new();
        while pixels.len() < width * height
            invariant
                width * height == 49152,
                pixels@.len() <= width * height,
                forall|k: int| 0 <= k < pixels@.len() ==> !#[trigger] pixels@[k],
            decreases width * height - pixels.len(),
        {
            pixels.push(false);
        }
        let mut attrs: Vec<Attributes> = Vec::new();
        while attrs.len() < cols * rows
            invariant
                cols * rows <= 1536,
                attrs@.len() <= cols * rows,
                forall|k: int| 0 <= k < attrs@.len() ==> (#[trigger] attrs@[k]).bits == PAPER_MASK,
            decreases cols * rows - attrs.len(),
        {
            attrs.push(Attributes::default());
        }
        FrameBuffer { cols, rows, width, height, pixels, attrs }
    }

    /// Frame buffer of a screen image (the first 6912 bytes of `data`)
    pub fn load(data: &Vec<u8>) -> (r: FrameBuffer)
        requires
            data@.len() >= SCREEN_SIZE,
        ensures
            r.wf(),
            (r.cols, r.rows, r.width, r.height) == mode_dims(VideoMode::STD8X8),
            forall|k: int| 0 <= k < r.pixels@.len() ==> #[trigger] r.pixels@[k] == screen_pixel(data@, k / 256, k % 256),
            forall|k: int| 0 <= k < r.attrs@.len() ==> (#[trigger] r.attrs@[k]).bits == data@[PIXELS_SIZE + k],
    {
        let (cols, rows, width, height) = (32usize, 24usize, 256usize, 192usize);
        let mut pixels: Vec<bool> = Vec::new();
        let mut line: usize = 0;
        while line < height
            invariant
                height == 192,
                data@.len() >= SCREEN_SIZE,
                line <= 192,
                pixels@.len() == line * 256,
                forall|k: int| 0 <= k < pixels@.len() ==> #[trigger] pixels@[k] == screen_pixel(data@, k / 256, k % 256),
            decreases 192 - line,
        {
            let line_addr = (line / 64) * 2048 + (line % 8) * 256 + ((line / 8) % 8) * 32;
            assert(line_addr + 31 < PIXELS_SIZE) by (nonlinear_arith)
                requires line < 192, line_addr == (line / 64) * 2048 + (line % 8) * 256 + ((line / 8) % 8) * 32;
            let mut x: usize = 0;
            while x < 256
                invariant
                    data@.len() >= SCREEN_SIZE,
                    line < 192,
                    line_addr == screen_line_addr(line as int),
                    line_addr + 31 < PIXELS_SIZE,
                    x <= 256,
                    pixels@.len() == line * 256 + x,
                    forall|k: int| 0 <= k < pixels@.len() ==> #[trigger] pixels@[k] == screen_pixel(data@, k / 256, k % 256),
                decreases 256 - x,
            {
                let byte = data[line_addr + x / 8];
                let bit = (byte >> ((7 - x % 8) as u8)) & 1u8 == 1u8;
                proof {
                    let k = line * 256 + x;
                    assert(k / 256 == line && k % 256 == x) by (nonlinear_arith)
                        requires k == line * 256 + x, x < 256;
                }
                pixels.push(bit);
                x = x + 1;
            }
            line = line + 1;
        }
        let mut attrs: Vec<Attributes> = Vec::new();
        let mut k: usize = 0;
        while k < cols * rows
            invariant
                cols * rows == 768,
                data@.len() >= SCREEN_SIZE,
                k <= 768,
                attrs@.len() == k,
                forall|j: int| 0 <= j < k ==> (#[trigger] attrs@[j]).bits == data@[PIXELS_SIZE + j],
            decreases 768 - k,
        {
            attrs.push(Attributes::from_bits(data[PIXELS_SIZE + k]));
            k = k + 1;
        }
        FrameBuffer { cols, rows, width, height, pixels, attrs }
    }

    /// Attribute cell that pixel (`x`, `y`) lies in
    pub open spec fn attr_index(&self, x: int, y: int) -> int {
        (y * self.rows / (self.height as int)) * self.cols + x * self.cols / (self.width as int)
    }

    /// RGB of pixel (`x`, `y`): the ink of its attributes where the pixel is set, else the paper
    pub open spec fn pixel_rgb(&self, x: int, y: int) -> Seq<u8> {
        let attr = self.attrs@[self.attr_index(x, y)];
        if self.pixels@[y * self.width + x] {
            attr.spec_color_rgb((attr.bits & 7) as usize)
        } else {
            attr.spec_color_rgb(((attr.bits & 0x38) >> 3) as usize)
        }
    }

    /// Frame buffer as an RGB pixel array, line by line
    pub fn to_rgb_image(&self) -> (r: Vec<u8>)
        requires
            self.wf(),
        ensures
            r@.len() == self.width * self.height * 3,
            forall|y: int, x: int| 0 <= y < self.height && 0 <= x < self.width ==>
                #[trigger] r@.subrange((y * self.width + x) * 3, (y * self.width + x) * 3 + 3) == self.pixel_rgb(x, y),
    {
        let mut result: Vec<u8> = Vec::new();
        let mut y: usize = 0;
        while y < self.height
            invariant
                self.wf(),
                y <= self.height,
                result@.len() == y * self.width * 3,
                forall|yy: int, xx: int| 0 <= yy < y && 0 <= xx < self.width ==>
                    #[trigger] result@.subrange((yy * self.width + xx) * 3, (yy * self.width + xx) * 3 + 3) == self.pixel_rgb(xx, yy),
            decreases self.height - y,
        {
            assert(y * self.rows < 192 * 48) by (nonlinear_arith)
                requires y < 192, self.rows <= 48;
            let row = y * self.rows / self.height;
            proof {
                let r = self.rows as int;
                assert(row < r) by (nonlinear_arith)
                    requires y < 192, r > 0, row == (y * r) / 192;
            }
            let mut x: usize = 0;
            while x < self.width
                invariant
                    self.wf(),
                    y < self.height,
                    row == y * self.rows / (self.height as int),
                    row < self.rows,
                    x <= self.width,
                    result@.len() == (y * self.width + x) * 3,
                    forall|yy: int, xx: int| 0 <= yy < y && 0 <= xx < self.width ==>
                        #[trigger] result@.subrange((yy * self.width + xx) * 3, (yy * self.width + xx) * 3 + 3) == self.pixel_rgb(xx, yy),
                    forall|xx: int| 0 <= xx < x ==>
                        #[trigger] result@.subrange((y * self.width + xx) * 3, (y * self.width + xx) * 3 + 3) == self.pixel_rgb(xx, y as int),
                decreases self.width - x,
            {
                let col = x * self.cols / self.width;
                assert(col < self.cols);
                assert(row * self.cols + col < self.attrs@.len()) by (nonlinear_arith)
                    requires row < self.rows, col < self.cols, self.attrs@.len() == self.cols * self.rows;
                assert(y * self.width + x < self.pixels@.len()) by (nonlinear_arith)
                    requires y < self.height, x < self.width, self.pixels@.len() == self.width * self.height;
                let attr = self.attrs[row * self.cols + col];
                let rgb = if self.pixels[y * self.width + x] { attr.get_ink_rgb() } else { attr.get_paper_rgb() };
                let ghost before = result@;
                result.push(rgb[0]);
                result.push(rgb[1]);
                result.push(rgb[2]);
                proof {
                    let p = (y * self.width + x) * 3;
                    assert(result@.subrange(p, p + 3) =~= rgb@);
                    assert forall|xx: int| 0 <= xx < x + 1 implies
                        #[trigger] result@.subrange((y * self.width + xx) * 3, (y * self.width + xx) * 3 + 3) == self.pixel_rgb(xx, y as int) by {
                        if xx < x {
                            let q = (y * self.width + xx) * 3;
                            assert(q + 3 <= p) by (nonlinear_arith) requires xx < x, q == (y * self.width + xx) * 3, p == (y * self.width + x) * 3;
                            assert(result@.subrange(q, q + 3) =~= before.subrange(q, q + 3));
                        }
                    }
                    assert forall|yy: int, xx: int| 0 <= yy < y && 0 <= xx < self.width implies
                        #[trigger] result@.subrange((yy * self.width + xx) * 3, (yy * self.width + xx) * 3 + 3) == self.pixel_rgb(xx, yy) by {
                        let q = (yy * self.width + xx) * 3;
                        assert(q + 3 <= p) by (nonlinear_arith)
                            requires yy < y, xx < self.width, q == (yy * self.width + xx) * 3, p == (y * self.width + x) * 3;
                        assert(result@.subrange(q, q + 3) =~= before.subrange(q, q + 3));
                    }
                    assert((y * self.width + x + 1) * 3 == p + 3) by (nonlinear_arith) requires p == (y * self.width + x) * 3;
                }
                x = x + 1;
            }
            proof {
                assert((y * self.width + self.width) * 3 == (y + 1) * self.width * 3) by (nonlinear_arith);
            }
            y = y + 1;
        }
        proof {
            assert(y * self.width * 3 == self.width * self.height * 3) by (nonlinear_arith) requires y == self.height;
        }
        result
    }
}

} // verus!
