//! 1MB VRAM: 1024x512 pixels of 16-bit BGR555.
use crate::bits::{lemma_and_le, lemma_and_le_u16};
use vstd::prelude::*;

verus! {

pub const VRAM_WIDTH: u32 = 1024;
pub const VRAM_HEIGHT: u32 = 512;
pub const VRAM_TOTAL_PIXELS: usize = 0x80000;

/// Column of buffer index `i`.
pub open spec fn col_of(i: int) -> int {
    i % 1024
}

/// Row of buffer index `i`.
pub open spec fn row_of(i: int) -> int {
    i / 1024
}

/// Buffer index of pixel (x, y); coordinates wrap around the VRAM edges.
pub open spec fn pixel_index(x: u32, y: u32) -> int {
    (y % 512) as int * 1024 + (x % 1024) as int
}

/// A pixel inside the VRAM rectangle has the index of its row and column, and an index
/// names exactly one row and column.
pub proof fn lemma_pixel_index(x: int, y: int)
    requires
        0 <= x < 1024,
        0 <= y < 512,
    ensures
        col_of(y * 1024 + x) == x,
        row_of(y * 1024 + x) == y,
        0 <= y * 1024 + x < VRAM_TOTAL_PIXELS,
{
    assert((y * 1024 + x) % 1024 == x && (y * 1024 + x) / 1024 == y) by (nonlinear_arith)
        requires
            0 <= x < 1024,
            0 <= y < 512,
    ;
}

/// An index is determined by its row and column.
pub proof fn lemma_index_split(i: int)
    requires
        0 <= i,
    ensures
        i == row_of(i) * 1024 + col_of(i),
        0 <= col_of(i) < 1024,
        0 <= row_of(i),
{
    vstd::arithmetic::div_mod::lemma_fundamental_div_mod(i, 1024);
}

#[derive(Clone)]
pub struct VRam {
    pub buffer: Vec<u16>,
}

impl View for VRam {
    type V = Seq<u16>;

    open spec fn view(&self) -> Seq<u16> {
        self.buffer@
    }
}

impl VRam {
    /// The buffer holds the whole 1024x512 frame.
    pub open spec fn wf(&self) -> bool {
        self@.len() == VRAM_TOTAL_PIXELS
    }

    /// All pixels black (0).
    pub fn new() -> (r: Self)
        ensures
            r.wf(),
            forall|i: int| 0 <= i < VRAM_TOTAL_PIXELS ==> r@[i] == 0,
    {
        VRam { buffer: vec![0u16; VRAM_TOTAL_PIXELS] }
    }

    /// The pixel at (x, y), coordinates wrapping around the edges.
    pub fn get_pixel(&self, x: u32, y: u32) -> (r: u16)
        requires
            self.wf(),
        ensures
            r == self@[pixel_index(x, y)],
    {
        let px = x % VRAM_WIDTH;
        let py = y % VRAM_HEIGHT;
        proof {
            lemma_pixel_index(px as int, py as int);
        }
        self.buffer[(py * VRAM_WIDTH + px) as usize]
    }

    /// Sets the pixel at (x, y), coordinates wrapping around the edges.
    pub fn set_pixel(&mut self, x: u32, y: u32, color: u16)
        requires
            old(self).wf(),
        ensures
            final(self).wf(),
            final(self)@ == old(self)@.update(pixel_index(x, y), color),
    {
        let px = x % VRAM_WIDTH;
        let py = y % VRAM_HEIGHT;
        proof {
            lemma_pixel_index(px as int, py as int);
        }
        self.buffer[(py * VRAM_WIDTH + px) as usize] = color;
    }
}

impl Default for VRam {
    fn default() -> (r: Self)
        ensures
            r.wf(),
            forall|i: int| 0 <= i < VRAM_TOTAL_PIXELS ==> r@[i] == 0,
    {
        Self::new()
    }
}

/// BGR555 encoding of an RGB888 colour: the top five bits of each channel, red in bits
/// 4..0, green in 9..5, blue in 14..10.
pub open spec fn bgr555(r: u8, g: u8, b: u8) -> u16 {
    (((r as u16) >> 3u16) & 0x1F) | ((((g as u16) >> 3u16) & 0x1F) << 5u16) | ((((b as u16)
        >> 3u16) & 0x1F) << 10u16)
}

pub fn rgb888_to_bgr555(r: u8, g: u8, b: u8) -> (c: u16)
    ensures
        c == bgr555(r, g, b),
{
    let r5 = ((r as u16) >> 3u16) & 0x1F;
    let g5 = ((g as u16) >> 3u16) & 0x1F;
    let b5 = ((b as u16) >> 3u16) & 0x1F;
    r5 | (g5 << 5u16) | (b5 << 10u16)
}

/// RGB888 of a BGR555 colour: each five-bit channel shifted to the top of its byte.
pub open spec fn rgb888(color: u16) -> (u8, u8, u8) {
    (
        ((color & 0x1F) << 3u16) as u8,
        (((color >> 5u16) & 0x1F) << 3u16) as u8,
        (((color >> 10u16) & 0x1F) << 3u16) as u8,
    )
}

pub fn bgr555_to_rgb888(color: u16) -> (c: (u8, u8, u8))
    ensures
        c == rgb888(color),
{
    let r = ((color & 0x1F) << 3u16) as u8;
    let g = (((color >> 5u16) & 0x1F) << 3u16) as u8;
    let b = (((color >> 10u16) & 0x1F) << 3u16) as u8;
    (r, g, b)
}

/// Converting to BGR555 and back keeps the top five bits of each channel; converting a
/// BGR555 colour to RGB888 and back gives it again without its mask bit.
pub proof fn lemma_color_round_trip(r: u8, g: u8, b: u8, c: u16)
    ensures
        rgb888(bgr555(r, g, b)) == (r & 0xF8, g & 0xF8, b & 0xF8),
        bgr555(rgb888(c).0, rgb888(c).1, rgb888(c).2) == c & 0x7FFF,
{
    let x = bgr555(r, g, b);
    let r5 = ((r as u16) >> 3u16) & 0x1F;
    let g5 = ((g as u16) >> 3u16) & 0x1F;
    let b5 = ((b as u16) >> 3u16) & 0x1F;
    assert(x == r5 | (g5 << 5u16) | (b5 << 10u16));
    lemma_and_le_u16((r as u16) >> 3u16, 0x1F);
    lemma_and_le_u16((g as u16) >> 3u16, 0x1F);
    lemma_and_le_u16((b as u16) >> 3u16, 0x1F);
    assert(((x & 0x1F) << 3u16) as u8 == r & 0xF8) by (bit_vector)
        requires
            x == r5 | (g5 << 5u16) | (b5 << 10u16),
            r5 == ((r as u16) >> 3u16) & 0x1F,
            g5 < 32,
            b5 < 32,
    ;
    assert((((x >> 5u16) & 0x1F) << 3u16) as u8 == g & 0xF8) by (bit_vector)
        requires
            x == r5 | (g5 << 5u16) | (b5 << 10u16),
            g5 == ((g as u16) >> 3u16) & 0x1F,
            r5 < 32,
            b5 < 32,
    ;
    assert((((x >> 10u16) & 0x1F) << 3u16) as u8 == b & 0xF8) by (bit_vector)
        requires
            x == r5 | (g5 << 5u16) | (b5 << 10u16),
            b5 == ((b as u16) >> 3u16) & 0x1F,
            r5 < 32,
            g5 < 32,
    ;
    let (cr, cg, cb) = rgb888(c);
    assert(((((cr as u16) >> 3u16) & 0x1F) | ((((cg as u16) >> 3u16) & 0x1F) << 5u16) | ((((
    cb as u16) >> 3u16) & 0x1F) << 10u16)) == c & 0x7FFF) by (bit_vector)
        requires
            cr == ((c & 0x1F) << 3u16) as u8,
            cg == (((c >> 5u16) & 0x1F) << 3u16) as u8,
            cb == (((c >> 10u16) & 0x1F) << 3u16) as u8,
    ;
}

} // verus!
