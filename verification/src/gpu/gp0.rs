//! GP0: the drawing command FIFO and the CPU-to-VRAM transfer state machine.
use super::rasterizer::{drawn_triangle, filled, rect_window, RectClip, Rasterizer, Vertex};
use super::vram::{bgr555, pixel_index, VRam};
use vstd::prelude::*;

verus! {

#[derive(Debug, Clone, Copy, PartialEq, Eq)]
pub enum Gp0State {
    Command,
    CpuToVram {
        dst_x: u32,
        dst_y: u32,
        width: u32,
        height: u32,
        current_x: u32,
        current_y: u32,
        words_remaining: u32,
    },
}

#[derive(Debug, Clone)]
pub struct Gp0 {
    pub state: Gp0State,
    pub cmd_buf: Vec<u32>,
    pub draw_offset_x: i32,
    pub draw_offset_y: i32,
    pub clip: RectClip,
    pub draw_mode: u32,
}

/// The GP0 registers with the command buffer as a sequence.
pub ghost struct Gp0View {
    pub state: Gp0State,
    pub cmd_buf: Seq<u32>,
    pub draw_offset_x: i32,
    pub draw_offset_y: i32,
    pub clip: RectClip,
    pub draw_mode: u32,
}

impl View for Gp0 {
    type V = Gp0View;

    open spec fn view(&self) -> Gp0View {
        Gp0View {
            state: self.state,
            cmd_buf: self.cmd_buf@,
            draw_offset_x: self.draw_offset_x,
            draw_offset_y: self.draw_offset_y,
            clip: self.clip,
            draw_mode: self.draw_mode,
        }
    }
}

/// The drawing area after reset: all of VRAM.
pub open spec fn full_clip() -> RectClip {
    RectClip { x1: 0, y1: 0, x2: 1023, y2: 511 }
}

/// The state after reset.
pub open spec fn gp0_reset_view() -> Gp0View {
    Gp0View {
        state: Gp0State::Command,
        cmd_buf: Seq::empty(),
        draw_offset_x: 0,
        draw_offset_y: 0,
        clip: full_clip(),
        draw_mode: 0,
    }
}

/// How many words the command starting with `first` takes.
pub open spec fn expected_words(first: u32) -> nat {
    let op = (first >> 24u32) & 0xFF;
    if op == 0x00 || op == 0x01 || (0xE1 <= op <= 0xE6) {
        1
    } else if op == 0x02 {
        3
    } else if 0x20 <= op <= 0x3F {
        let gouraud = op & 0x10 != 0;
        let quad = op & 0x08 != 0;
        if !gouraud && !quad {
            4
        } else if !gouraud && quad {
            5
        } else if gouraud && !quad {
            6
        } else {
            8
        }
    } else if 0x60 <= op <= 0x7F {
        if (op >> 3u32) & 3 == 0 {
            3
        } else {
            2
        }
    } else if op == 0xA0 || op == 0xC0 {
        3
    } else {
        1
    }
}

/// A 16-bit field read as a signed coordinate.
pub open spec fn s16(x: u32) -> i32 {
    if x >= 0x8000 {
        (x - 0x10000) as i32
    } else {
        x as i32
    }
}

/// An 11-bit field read as a signed drawing offset.
pub open spec fn s11(x: u32) -> i32 {
    if x >= 0x400 {
        (x - 0x800) as i32
    } else {
        x as i32
    }
}

/// The colour in the low 24 bits of a command word.
pub open spec fn color_of(w: u32) -> (u8, u8, u8) {
    ((w & 0xFF) as u8, ((w >> 8u32) & 0xFF) as u8, ((w >> 16u32) & 0xFF) as u8)
}

/// A vertex word (x in the low half, y in the high half) with its colour.
pub open spec fn vertex_of(w: u32, c: (u8, u8, u8)) -> Vertex {
    Vertex { x: s16(w & 0xFFFF), y: s16(w >> 16u32), r: c.0, g: c.1, b: c.2 }
}

/// Progress of a CPU-to-VRAM transfer: pixels written so far, row by row.
pub open spec fn progress(cx: u32, cy: u32, dx: u32, dy: u32, w: u32) -> int {
    (cy - dy) * w + (cx - dx)
}

/// The position after the one at (cx, cy) in a transfer of width `w` starting at column `dx`.
pub open spec fn advanced(cx: u32, cy: u32, dx: u32, w: u32) -> (u32, u32) {
    if cx + 1 >= dx + w {
        (dx, (cy + 1) as u32)
    } else {
        ((cx + 1) as u32, cy)
    }
}

/// Whether a transfer state is consistent: a rectangle inside the coordinate ranges, the
/// position inside it, and no more words expected than pixels are left (two per word).
pub open spec fn transfer_ok(s: Gp0State) -> bool {
    match s {
        Gp0State::Command => true,
        Gp0State::CpuToVram { dst_x, dst_y, width, height, current_x, current_y, words_remaining } => {
            &&& dst_x <= 0x3FF && width <= 0x3FF && dst_y <= 0x1FF && height <= 0x1FF
            &&& 1 <= width
            &&& dst_x <= current_x < dst_x + width
            &&& dst_y <= current_y
            &&& words_remaining >= 1
            &&& progress(current_x, current_y, dst_x, dst_y, width) + 2 * words_remaining <= width
                * height + 1
        },
    }
}

impl Gp0View {
    /// Consistency that every command keeps: a sound transfer state, drawing offsets in the
    /// 11-bit signed range, drawing area inside VRAM coordinates, and a partial command
    /// shorter than its full length.
    pub open spec fn wf(self) -> bool {
        &&& transfer_ok(self.state)
        &&& -0x400 <= self.draw_offset_x <= 0x3FF
        &&& -0x400 <= self.draw_offset_y <= 0x3FF
        &&& 0 <= self.clip.x1 <= 0x3FF && 0 <= self.clip.x2 <= 0x3FF
        &&& 0 <= self.clip.y1 <= 0x3FF && 0 <= self.clip.y2 <= 0x3FF
        &&& (self.cmd_buf.len() == 0 || self.cmd_buf.len() < expected_words(self.cmd_buf[0]))
    }

    /// VRAM after a polygon command (a triangle, or a quad as two triangles sharing an edge).
    pub open spec fn polygon_drawn(self, vram: Seq<u16>) -> Seq<u16> {
        let b = self.cmd_buf;
        let op = (b[0] >> 24u32) & 0xFF;
        let gouraud = op & 0x10 != 0;
        let quad = op & 0x08 != 0;
        let (ox, oy) = (self.draw_offset_x as int, self.draw_offset_y as int);
        if !gouraud {
            let c = color_of(b[0]);
            let v0 = vertex_of(b[1], c);
            let v1 = vertex_of(b[2], c);
            let v2 = vertex_of(b[3], c);
            let d1 = drawn_triangle(vram, v0, v1, v2, ox, oy, self.clip, false);
            if quad {
                drawn_triangle(d1, v1, v2, vertex_of(b[4], c), ox, oy, self.clip, false)
            } else {
                d1
            }
        } else {
            let v0 = vertex_of(b[1], color_of(b[0]));
            let v1 = vertex_of(b[3], color_of(b[2]));
            let v2 = vertex_of(b[5], color_of(b[4]));
            let d1 = drawn_triangle(vram, v0, v1, v2, ox, oy, self.clip, true);
            if quad {
                drawn_triangle(d1, v1, v2, vertex_of(b[7], color_of(b[6])), ox, oy, self.clip, true)
            } else {
                d1
            }
        }
    }

    /// VRAM after a rectangle primitive: variable size (from the third word), 1x1, 8x8 or
    /// 16x16 by bits 4..3 of the opcode, in the command colour.
    pub open spec fn rectangle_drawn(self, vram: Seq<u16>) -> Seq<u16> {
        let b = self.cmd_buf;
        let op = (b[0] >> 24u32) & 0xFF;
        let size = (op >> 3u32) & 3;
        let (w, h) = if size == 0 {
            ((b[2] & 0xFFFF) as int, (b[2] >> 16u32) as int)
        } else if size == 1 {
            (1int, 1int)
        } else if size == 2 {
            (8int, 8int)
        } else {
            (16int, 16int)
        };
        let (r, g, bl) = color_of(b[0]);
        let (sx, ex, sy, ey) = rect_window(
            s16(b[1] & 0xFFFF) as int,
            s16(b[1] >> 16u32) as int,
            w,
            h,
            self.draw_offset_x as int,
            self.draw_offset_y as int,
            self.clip,
        );
        filled(vram, sx, ex, sy, ey, bgr555(r, g, bl))
    }

    /// The effect of the complete command in the buffer.
    pub open spec fn executed(self, vram: Seq<u16>) -> (Gp0View, Seq<u16>) {
        let b = self.cmd_buf;
        let cmd = b[0];
        let op = (cmd >> 24u32) & 0xFF;
        if op == 0x02 {
            let (r, g, bl) = color_of(cmd);
            let (sx, ex, sy, ey) = rect_window(
                (b[1] & 0xFFFF) as int,
                ((b[1] >> 16u32) & 0xFFFF) as int,
                (b[2] & 0xFFFF) as int,
                ((b[2] >> 16u32) & 0xFFFF) as int,
                0,
                0,
                full_clip(),
            );
            (self, filled(vram, sx, ex, sy, ey, bgr555(r, g, bl)))
        } else if 0x20 <= op <= 0x3F {
            (self, self.polygon_drawn(vram))
        } else if 0x60 <= op <= 0x7F {
            (self, self.rectangle_drawn(vram))
        } else if op == 0xA0 {
            let dst_x = b[1] & 0x3FF;
            let dst_y = (b[1] >> 16u32) & 0x1FF;
            let width = b[2] & 0x3FF;
            let height = (b[2] >> 16u32) & 0x1FF;
            let words = (width * height + 1) / 2;
            if words > 0 {
                (
                    Gp0View {
                        state: Gp0State::CpuToVram {
                            dst_x,
                            dst_y,
                            width,
                            height,
                            current_x: dst_x,
                            current_y: dst_y,
                            words_remaining: words as u32,
                        },
                        ..self
                    },
                    vram,
                )
            } else {
                (self, vram)
            }
        } else if op == 0xE1 {
            (Gp0View { draw_mode: cmd & 0x00FF_FFFF, ..self }, vram)
        } else if op == 0xE3 {
            (
                Gp0View {
                    clip: RectClip {
                        x1: (cmd & 0x3FF) as i32,
                        y1: ((cmd >> 10u32) & 0x1FF) as i32,
                        ..self.clip
                    },
                    ..self
                },
                vram,
            )
        } else if op == 0xE4 {
            (
                Gp0View {
                    clip: RectClip {
                        x2: (cmd & 0x3FF) as i32,
                        y2: ((cmd >> 10u32) & 0x1FF) as i32,
                        ..self.clip
                    },
                    ..self
                },
                vram,
            )
        } else if op == 0xE5 {
            (
                Gp0View {
                    draw_offset_x: s11(cmd & 0x7FF),
                    draw_offset_y: s11((cmd >> 11u32) & 0x7FF),
                    ..self
                },
                vram,
            )
        } else {
            (self, vram)
        }
    }

    /// The effect of one word written to GP0: during a CPU-to-VRAM transfer it carries two
    /// pixels (low half first; the second is dropped when it would run past the last
    /// pixel of an odd-sized image); otherwise it is appended to the command buffer, and
    /// a complete command is executed and the buffer emptied.
    pub open spec fn word_written(self, vram: Seq<u16>, word: u32) -> (Gp0View, Seq<u16>) {
        match self.state {
            Gp0State::CpuToVram { dst_x, dst_y, width, height, current_x, current_y, words_remaining } => {
                let v1 = vram.update(pixel_index(current_x, current_y), (word & 0xFFFF) as u16);
                let (x1, y1) = advanced(current_x, current_y, dst_x, width);
                let second = words_remaining > 1 || width % 2 == 0 || x1 > dst_x;
                let v2 = if second {
                    v1.update(pixel_index(x1, y1), (word >> 16u32) as u16)
                } else {
                    v1
                };
                let (x2, y2) = if second {
                    advanced(x1, y1, dst_x, width)
                } else {
                    (x1, y1)
                };
                let left = if words_remaining > 0 {
                    (words_remaining - 1) as u32
                } else {
                    0u32
                };
                let st = if left == 0 {
                    Gp0State::Command
                } else {
                    Gp0State::CpuToVram {
                        dst_x,
                        dst_y,
                        width,
                        height,
                        current_x: x2,
                        current_y: y2,
                        words_remaining: left,
                    }
                };
                (Gp0View { state: st, ..self }, v2)
            },
            Gp0State::Command => {
                let buf = self.cmd_buf.push(word);
                if buf.len() >= expected_words(buf[0]) {
                    let (g, v) = Gp0View { cmd_buf: buf, ..self }.executed(vram);
                    (Gp0View { cmd_buf: Seq::empty(), ..g }, v)
                } else {
                    (Gp0View { cmd_buf: buf, ..self }, vram)
                }
            },
        }
    }
}

/// Stepping from the last column of a row to the start of the next advances the progress by
/// one pixel, as does stepping within a row.
proof fn lemma_advance(cx: u32, cy: u32, dx: u32, dy: u32, w: u32)
    requires
        dx <= cx < dx + w,
        dy <= cy,
        cy < 0x1000,
        dx + w < 0x1000,
    ensures
        ({
            let (nx, ny) = advanced(cx, cy, dx, w);
            &&& progress(nx, ny, dx, dy, w) == progress(cx, cy, dx, dy, w) + 1
            &&& dx <= nx < dx + w
            &&& dy <= ny <= cy + 1
        }),
{
    if cx + 1 >= dx + w {
        assert((cy + 1 - dy) * w == (cy - dy) * w + w) by (nonlinear_arith);
    }
}

/// While words are left, the current row lies inside the image.
proof fn lemma_row_inside(cx: u32, cy: u32, dx: u32, dy: u32, w: u32, h: u32, words: u32)
    requires
        dx <= cx,
        dy <= cy,
        1 <= w,
        words >= 1,
        progress(cx, cy, dx, dy, w) + 2 * words <= w * h + 1,
    ensures
        cy < dy + h,
{
    let k = cy - dy;
    assert(k * w <= progress(cx, cy, dx, dy, w));
    assert(k < h) by (nonlinear_arith)
        requires
            k * w <= w * h - 1,
            1 <= w,
            0 <= k,
    ;
}

/// Ranges of the bit fields that commands take apart.
proof fn lemma_fields(x: u32)
    by (bit_vector)
    ensures
        x & 0xFFFF <= 0xFFFF,
        x >> 16u32 <= 0xFFFF,
        (x >> 16u32) & 0xFFFF <= 0xFFFF,
        x & 0x3FF <= 0x3FF,
        (x >> 16u32) & 0x1FF <= 0x1FF,
        (x >> 10u32) & 0x1FF <= 0x1FF,
        x & 0x7FF <= 0x7FF,
        (x >> 11u32) & 0x7FF <= 0x7FF,
{
}

/// The command length of the first word of a command.
fn get_expected_cmd_words(first_word: u32) -> (r: usize)
    ensures
        r as nat == expected_words(first_word),
        1 <= r <= 8,
{
    let opcode = (first_word >> 24u32) & 0xFF;
    if opcode == 0x00 || opcode == 0x01 || (0xE1 <= opcode && opcode <= 0xE6) {
        1
    } else if opcode == 0x02 {
        3
    } else if 0x20 <= opcode && opcode <= 0x3F {
        let is_gouraud = (opcode & 0x10) != 0;
        let is_quad = (opcode & 0x08) != 0;
        if !is_gouraud && !is_quad {
            4
        } else if !is_gouraud && is_quad {
            5
        } else if is_gouraud && !is_quad {
            6
        } else {
            8
        }
    } else if 0x60 <= opcode && opcode <= 0x7F {
        if (opcode >> 3u32) & 3 == 0 {
            3
        } else {
            2
        }
    } else if opcode == 0xA0 || opcode == 0xC0 {
        3
    } else {
        1
    }
}

/// Reads a 16-bit field as a signed coordinate.
fn sign16(x: u32) -> (r: i32)
    requires
        x <= 0xFFFF,
    ensures
        r == s16(x),
{
    if x >= 0x8000 {
        x as i32 - 0x10000
    } else {
        x as i32
    }
}

/// Reads an 11-bit field as a signed offset.
fn sign11(x: u32) -> (r: i32)
    requires
        x <= 0x7FF,
    ensures
        r == s11(x),
{
    if x >= 0x400 {
        x as i32 - 0x800
    } else {
        x as i32
    }
}

fn extract_color(word: u32) -> (r: (u8, u8, u8))
    ensures
        r == color_of(word),
{
    ((word & 0xFF) as u8, ((word >> 8u32) & 0xFF) as u8, ((word >> 16u32) & 0xFF) as u8)
}

fn extract_vertex(word: u32, color: (u8, u8, u8)) -> (r: Vertex)
    ensures
        r == vertex_of(word, color),
        -0x8000 <= r.x <= 0x7FFF,
        -0x8000 <= r.y <= 0x7FFF,
{
    proof {
        lemma_fields(word);
    }
    Vertex {
        x: sign16(word & 0xFFFF),
        y: sign16(word >> 16u32),
        r: color.0,
        g: color.1,
        b: color.2,
    }
}

impl Gp0 {
    pub fn new() -> (r: Self)
        ensures
            r@ == gp0_reset_view(),
    {
        Gp0 {
            state: Gp0State::Command,
            cmd_buf: Vec::new(),
            draw_offset_x: 0,
            draw_offset_y: 0,
            clip: RectClip { x1: 0, y1: 0, x2: 1023, y2: 511 },
            draw_mode: 0,
        }
    }

    pub fn reset(&mut self)
        ensures
            final(self)@ == gp0_reset_view(),
    {
        *self = Self::new();
    }

    /// Writes one word to GP0.
    pub fn write_word(&mut self, word: u32, vram: &mut VRam)
        requires
            old(self)@.wf(),
            old(vram).wf(),
        ensures
            final(self)@.wf(),
            final(vram).wf(),
            (final(self)@, final(vram)@) == old(self)@.word_written(old(vram)@, word),
    {
        match self.state {
            Gp0State::CpuToVram {
                dst_x,
                dst_y,
                width,
                height,
                current_x,
                current_y,
                words_remaining,
            } => {
                proof {
                    lemma_row_inside(current_x, current_y, dst_x, dst_y, width, height, words_remaining);
                    lemma_advance(current_x, current_y, dst_x, dst_y, width);
                }
                let pix1 = (word & 0xFFFF) as u16;
                let pix2 = (word >> 16u32) as u16;
                let mut cx = current_x;
                let mut cy = current_y;
                vram.set_pixel(cx, cy, pix1);
                cx = cx + 1;
                if cx >= dst_x + width {
                    cx = dst_x;
                    cy = cy + 1;
                }
                if words_remaining > 1 || width % 2 == 0 || cx > dst_x {
                    proof {
                        lemma_advance(cx, cy, dst_x, dst_y, width);
                    }
                    vram.set_pixel(cx, cy, pix2);
                    cx = cx + 1;
                    if cx >= dst_x + width {
                        cx = dst_x;
                        cy = cy + 1;
                    }
                }
                let left = words_remaining.saturating_sub(1);
                if left == 0 {
                    self.state = Gp0State::Command;
                } else {
                    self.state = Gp0State::CpuToVram {
                        dst_x,
                        dst_y,
                        width,
                        height,
                        current_x: cx,
                        current_y: cy,
                        words_remaining: left,
                    };
                }
            },
            Gp0State::Command => {
                self.cmd_buf.push(word);
                let expected = get_expected_cmd_words(self.cmd_buf[0]);
                if self.cmd_buf.len() >= expected {
                    self.execute_command(vram);
                    self.cmd_buf.clear();
                }
            },
        }
    }

    /// Runs the complete command held in the buffer.
    fn execute_command(&mut self, vram: &mut VRam)
        requires
            old(self).state == Gp0State::Command,
            old(self).cmd_buf@.len() == expected_words(old(self).cmd_buf@[0]),
            transfer_ok(old(self).state),
            -0x400 <= old(self).draw_offset_x <= 0x3FF,
            -0x400 <= old(self).draw_offset_y <= 0x3FF,
            0 <= old(self).clip.x1 <= 0x3FF && 0 <= old(self).clip.x2 <= 0x3FF,
            0 <= old(self).clip.y1 <= 0x3FF && 0 <= old(self).clip.y2 <= 0x3FF,
            old(vram).wf(),
        ensures
            final(vram).wf(),
            (final(self)@, final(vram)@) == old(self)@.executed(old(vram)@),
            final(self).cmd_buf@ == old(self).cmd_buf@,
            transfer_ok(final(self).state),
            -0x400 <= final(self).draw_offset_x <= 0x3FF,
            -0x400 <= final(self).draw_offset_y <= 0x3FF,
            0 <= final(self).clip.x1 <= 0x3FF && 0 <= final(self).clip.x2 <= 0x3FF,
            0 <= final(self).clip.y1 <= 0x3FF && 0 <= final(self).clip.y2 <= 0x3FF,
    {
        let cmd = self.cmd_buf[0];
        let opcode = (cmd >> 24u32) & 0xFF;
        proof {
            lemma_fields(cmd);
            if self.cmd_buf@.len() >= 3 {
                lemma_fields(self.cmd_buf@[1]);
                lemma_fields(self.cmd_buf@[2]);
            }
        }
        if opcode == 0x02 {
            let (r, g, b) = extract_color(cmd);
            let x = (self.cmd_buf[1] & 0xFFFF) as i32;
            let y = ((self.cmd_buf[1] >> 16u32) & 0xFFFF) as i32;
            let w = (self.cmd_buf[2] & 0xFFFF) as i32;
            let h = ((self.cmd_buf[2] >> 16u32) & 0xFFFF) as i32;
            Rasterizer::draw_rect(
                vram,
                x,
                y,
                w,
                h,
                r,
                g,
                b,
                0,
                0,
                RectClip { x1: 0, y1: 0, x2: 1023, y2: 511 },
            );
        } else if 0x20 <= opcode && opcode <= 0x3F {
            self.execute_polygon(vram, opcode);
        } else if 0x60 <= opcode && opcode <= 0x7F {
            self.execute_rectangle(vram, opcode);
        } else if opcode == 0xA0 {
            let dst_x = self.cmd_buf[1] & 0x3FF;
            let dst_y = (self.cmd_buf[1] >> 16u32) & 0x1FF;
            let width = self.cmd_buf[2] & 0x3FF;
            let height = (self.cmd_buf[2] >> 16u32) & 0x1FF;
            assert(width * height <= 0x3FF * 0x1FF) by (nonlinear_arith)
                requires
                    width <= 0x3FF,
                    height <= 0x1FF,
            ;
            let total_pixels = width * height;
            let words_remaining = (total_pixels + 1) / 2;
            if words_remaining > 0 {
                proof {
                    assert(1 <= width) by (nonlinear_arith)
                        requires
                            width * height > 0,
                    ;
                    assert(progress(dst_x, dst_y, dst_x, dst_y, width) == 0);
                }
                self.state = Gp0State::CpuToVram {
                    dst_x,
                    dst_y,
                    width,
                    height,
                    current_x: dst_x,
                    current_y: dst_y,
                    words_remaining,
                };
            }
        } else if opcode == 0xE1 {
            self.draw_mode = cmd & 0x00FF_FFFF;
        } else if opcode == 0xE3 {
            self.clip.x1 = (cmd & 0x3FF) as i32;
            self.clip.y1 = ((cmd >> 10u32) & 0x1FF) as i32;
        } else if opcode == 0xE4 {
            self.clip.x2 = (cmd & 0x3FF) as i32;
            self.clip.y2 = ((cmd >> 10u32) & 0x1FF) as i32;
        } else if opcode == 0xE5 {
            self.draw_offset_x = sign11(cmd & 0x7FF);
            self.draw_offset_y = sign11((cmd >> 11u32) & 0x7FF);
        }
    }

    /// Draws a flat or Gouraud-shaded triangle or quad.
    fn execute_polygon(&mut self, vram: &mut VRam, opcode: u32)
        requires
            opcode == (old(self).cmd_buf@[0] >> 24u32) & 0xFF,
            0x20 <= opcode <= 0x3F,
            old(self).cmd_buf@.len() == expected_words(old(self).cmd_buf@[0]),
            -0x400 <= old(self).draw_offset_x <= 0x3FF,
            -0x400 <= old(self).draw_offset_y <= 0x3FF,
            old(vram).wf(),
        ensures
            *final(self) == *old(self),
            final(vram).wf(),
            final(vram)@ == old(self)@.polygon_drawn(old(vram)@),
    {
        let is_gouraud = (opcode & 0x10) != 0;
        let is_quad = (opcode & 0x08) != 0;
        let ox = self.draw_offset_x;
        let oy = self.draw_offset_y;
        if !is_gouraud {
            let color = extract_color(self.cmd_buf[0]);
            let v0 = extract_vertex(self.cmd_buf[1], color);
            let v1 = extract_vertex(self.cmd_buf[2], color);
            let v2 = extract_vertex(self.cmd_buf[3], color);
            Rasterizer::draw_triangle(vram, v0, v1, v2, ox, oy, self.clip, false);
            if is_quad {
                let v3 = extract_vertex(self.cmd_buf[4], color);
                Rasterizer::draw_triangle(vram, v1, v2, v3, ox, oy, self.clip, false);
            }
        } else {
            let c0 = extract_color(self.cmd_buf[0]);
            let v0 = extract_vertex(self.cmd_buf[1], c0);
            let c1 = extract_color(self.cmd_buf[2]);
            let v1 = extract_vertex(self.cmd_buf[3], c1);
            let c2 = extract_color(self.cmd_buf[4]);
            let v2 = extract_vertex(self.cmd_buf[5], c2);
            Rasterizer::draw_triangle(vram, v0, v1, v2, ox, oy, self.clip, true);
            if is_quad {
                let c3 = extract_color(self.cmd_buf[6]);
                let v3 = extract_vertex(self.cmd_buf[7], c3);
                Rasterizer::draw_triangle(vram, v1, v2, v3, ox, oy, self.clip, true);
            }
        }
    }

    /// Draws a rectangle primitive.
    fn execute_rectangle(&mut self, vram: &mut VRam, opcode: u32)
        requires
            opcode == (old(self).cmd_buf@[0] >> 24u32) & 0xFF,
            0x60 <= opcode <= 0x7F,
            old(self).cmd_buf@.len() == expected_words(old(self).cmd_buf@[0]),
            -0x400 <= old(self).draw_offset_x <= 0x3FF,
            -0x400 <= old(self).draw_offset_y <= 0x3FF,
            0 <= old(self).clip.x2 <= 0x3FF,
            0 <= old(self).clip.y2 <= 0x3FF,
            old(vram).wf(),
        ensures
            *final(self) == *old(self),
            final(vram).wf(),
            final(vram)@ == old(self)@.rectangle_drawn(old(vram)@),
    {
        let cmd = self.cmd_buf[0];
        let (color_r, color_g, color_b) = extract_color(cmd);
        let v = extract_vertex(self.cmd_buf[1], (color_r, color_g, color_b));
        let size_code = (opcode >> 3u32) & 3;
        proof {
            if self.cmd_buf@.len() >= 3 {
                lemma_fields(self.cmd_buf@[2]);
            }
        }
        let (w, h) = if size_code == 0 {
            ((self.cmd_buf[2] & 0xFFFF) as i32, (self.cmd_buf[2] >> 16u32) as i32)
        } else if size_code == 1 {
            (1i32, 1i32)
        } else if size_code == 2 {
            (8i32, 8i32)
        } else {
            (16i32, 16i32)
        };
        Rasterizer::draw_rect(
            vram,
            v.x,
            v.y,
            w,
            h,
            color_r,
            color_g,
            color_b,
            self.draw_offset_x,
            self.draw_offset_y,
            self.clip,
        );
    }
}

impl Default for Gp0 {
    fn default() -> (r: Self)
        ensures
            r@ == gp0_reset_view(),
    {
        Self::new()
    }
}

} // verus!
