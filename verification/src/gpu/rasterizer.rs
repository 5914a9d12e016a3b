//! Software rasterizer: filled rectangles and flat or Gouraud-shaded triangles, clipped to
//! the drawing area and the VRAM rectangle.
use super::vram::{bgr555, col_of, lemma_index_split, lemma_pixel_index, row_of, rgb888_to_bgr555, VRam};
use vstd::prelude::*;

verus! {

#[derive(Debug, Clone, Copy)]
pub struct Vertex {
    pub x: i32,
    pub y: i32,
    pub r: u8,
    pub g: u8,
    pub b: u8,
}

#[derive(Debug, Clone, Copy)]
pub struct RectClip {
    pub x1: i32,
    pub y1: i32,
    pub x2: i32,
    pub y2: i32,
}

pub struct Rasterizer;

pub open spec fn imax(a: int, b: int) -> int {
    if a >= b {
        a
    } else {
        b
    }
}

pub open spec fn imin(a: int, b: int) -> int {
    if a <= b {
        a
    } else {
        b
    }
}

pub open spec fn iabs(a: int) -> int {
    if a < 0 {
        -a
    } else {
        a
    }
}

/// The pixels in columns `sx..ex` and rows `sy..ey` set to `c`, the others kept.
pub open spec fn filled(v: Seq<u16>, sx: int, ex: int, sy: int, ey: int, c: u16) -> Seq<u16> {
    Seq::new(
        v.len(),
        |i: int|
            if sx <= col_of(i) < ex && sy <= row_of(i) < ey {
                c
            } else {
                v[i]
            },
    )
}

/// Columns and rows (half-open) that a rectangle covers after the drawing offset, clipped to
/// the drawing area (inclusive bounds) and to VRAM.
pub open spec fn rect_window(x: int, y: int, w: int, h: int, ox: int, oy: int, clip: RectClip) -> (
    int,
    int,
    int,
    int,
) {
    (
        imax(imax(x + ox, clip.x1 as int), 0),
        imin(imin(x + ox + w, clip.x2 + 1), 1024),
        imax(imax(y + oy, clip.y1 as int), 0),
        imin(imin(y + oy + h, clip.y2 + 1), 512),
    )
}

/// Whether the i32 arithmetic of a rectangle draw stays in range.
pub open spec fn rect_fits(x: i32, y: i32, w: i32, h: i32, ox: i32, oy: i32, clip: RectClip) -> bool {
    &&& i32::MIN <= x + ox + w <= i32::MAX
    &&& i32::MIN <= x + ox <= i32::MAX
    &&& i32::MIN <= y + oy + h <= i32::MAX
    &&& i32::MIN <= y + oy <= i32::MAX
    &&& clip.x2 < i32::MAX
    &&& clip.y2 < i32::MAX
}

/// The edge function of `p` against the directed edge a->b: twice the signed area of the
/// triangle (a, b, p).
pub open spec fn edge(ax: int, ay: int, bx: int, by: int, px: int, py: int) -> int {
    (px - ax) * (by - ay) - (py - ay) * (bx - ax)
}

/// Whether pixel (px, py) lies in the triangle a, b, c of nonzero area: the three edge
/// functions have the sign of the area (or are zero).
pub open spec fn covers(ax: int, ay: int, bx: int, by: int, cx: int, cy: int, px: int, py: int) -> bool {
    let area = edge(ax, ay, bx, by, cx, cy);
    let e0 = edge(bx, by, cx, cy, px, py);
    let e1 = edge(cx, cy, ax, ay, px, py);
    let e2 = edge(ax, ay, bx, by, px, py);
    &&& area != 0
    &&& if area > 0 {
        e0 >= 0 && e1 >= 0 && e2 >= 0
    } else {
        e0 <= 0 && e1 <= 0 && e2 <= 0
    }
}

/// A colour channel interpolated with barycentric weights e0/area, e1/area, e2/area,
/// computed exactly on integers, rounded down and capped at 255.
pub open spec fn shade(e0: int, e1: int, e2: int, area: int, c0: u8, c1: u8, c2: u8) -> u8 {
    let q = iabs(e0 * c0 + e1 * c1 + e2 * c2) / iabs(area);
    if q > 255 {
        255
    } else {
        q as u8
    }
}

/// The colour of pixel (px, py) of a triangle: the first vertex's colour when flat,
/// interpolated per channel when Gouraud shaded.
pub open spec fn tri_color(v0: Vertex, v1: Vertex, v2: Vertex, ox: int, oy: int, px: int, py: int, gouraud: bool) -> u16 {
    let (ax, ay, bx, by, cx, cy) = (v0.x + ox, v0.y + oy, v1.x + ox, v1.y + oy, v2.x + ox, v2.y + oy);
    if gouraud {
        let area = edge(ax, ay, bx, by, cx, cy);
        let e0 = edge(bx, by, cx, cy, px, py);
        let e1 = edge(cx, cy, ax, ay, px, py);
        let e2 = edge(ax, ay, bx, by, px, py);
        bgr555(
            shade(e0, e1, e2, area, v0.r, v1.r, v2.r),
            shade(e0, e1, e2, area, v0.g, v1.g, v2.g),
            shade(e0, e1, e2, area, v0.b, v1.b, v2.b),
        )
    } else {
        bgr555(v0.r, v0.g, v0.b)
    }
}

/// Inclusive bounds of the pixels a triangle is tested on: its bounding box after the
/// offset, clipped to the drawing area and VRAM.
pub open spec fn tri_window(v0: Vertex, v1: Vertex, v2: Vertex, ox: int, oy: int, clip: RectClip) -> (
    int,
    int,
    int,
    int,
) {
    (
        imax(imax(imin(imin(v0.x + ox, v1.x + ox), v2.x + ox), clip.x1 as int), 0),
        imin(imin(imax(imax(v0.x + ox, v1.x + ox), v2.x + ox), clip.x2 as int), 1023),
        imax(imax(imin(imin(v0.y + oy, v1.y + oy), v2.y + oy), clip.y1 as int), 0),
        imin(imin(imax(imax(v0.y + oy, v1.y + oy), v2.y + oy), clip.y2 as int), 511),
    )
}

/// Whether the triangle draw sets pixel (px, py).
pub open spec fn tri_paints(v0: Vertex, v1: Vertex, v2: Vertex, ox: int, oy: int, clip: RectClip, px: int, py: int) -> bool {
    let (x0, x1, y0, y1) = tri_window(v0, v1, v2, ox, oy, clip);
    &&& x0 <= px <= x1
    &&& y0 <= py <= y1
    &&& covers(v0.x + ox, v0.y + oy, v1.x + ox, v1.y + oy, v2.x + ox, v2.y + oy, px, py)
}

/// VRAM after a triangle draw.
pub open spec fn drawn_triangle(v: Seq<u16>, v0: Vertex, v1: Vertex, v2: Vertex, ox: int, oy: int, clip: RectClip, gouraud: bool) -> Seq<u16> {
    Seq::new(
        v.len(),
        |i: int|
            if tri_paints(v0, v1, v2, ox, oy, clip, col_of(i), row_of(i)) {
                tri_color(v0, v1, v2, ox, oy, col_of(i), row_of(i), gouraud)
            } else {
                v[i]
            },
    )
}

/// Whether adding the drawing offset to each vertex stays inside `i32`.
pub open spec fn tri_fits(v0: Vertex, v1: Vertex, v2: Vertex, ox: i32, oy: i32) -> bool {
    &&& i32::MIN <= v0.x + ox <= i32::MAX
    &&& i32::MIN <= v0.y + oy <= i32::MAX
    &&& i32::MIN <= v1.x + ox <= i32::MAX
    &&& i32::MIN <= v1.y + oy <= i32::MAX
    &&& i32::MIN <= v2.x + ox <= i32::MAX
    &&& i32::MIN <= v2.y + oy <= i32::MAX
}

/// The edge function, computed without overflow for `i32` coordinates.
fn edge_fn(ax: i32, ay: i32, bx: i32, by: i32, px: i32, py: i32) -> (r: i128)
    ensures
        r as int == edge(ax as int, ay as int, bx as int, by as int, px as int, py as int),
        -0x4_0000_0000_0000_0000 < r < 0x4_0000_0000_0000_0000,
{
    let dx = px as i128 - ax as i128;
    let dy = by as i128 - ay as i128;
    let ex = py as i128 - ay as i128;
    let ey = bx as i128 - ax as i128;
    assert(-0x1_0000_0000_0000_0000 <= dx * dy <= 0x1_0000_0000_0000_0000) by (nonlinear_arith)
        requires
            -0x1_0000_0000 <= dx <= 0x1_0000_0000,
            -0x1_0000_0000 <= dy <= 0x1_0000_0000,
    ;
    assert(-0x1_0000_0000_0000_0000 <= ex * ey <= 0x1_0000_0000_0000_0000) by (nonlinear_arith)
        requires
            -0x1_0000_0000 <= ex <= 0x1_0000_0000,
            -0x1_0000_0000 <= ey <= 0x1_0000_0000,
    ;
    dx * dy - ex * ey
}

/// One colour channel of a Gouraud-shaded pixel.
fn shade_fn(e0: i128, e1: i128, e2: i128, area: i128, c0: u8, c1: u8, c2: u8) -> (r: u8)
    requires
        -0x4_0000_0000_0000_0000 < e0 < 0x4_0000_0000_0000_0000,
        -0x4_0000_0000_0000_0000 < e1 < 0x4_0000_0000_0000_0000,
        -0x4_0000_0000_0000_0000 < e2 < 0x4_0000_0000_0000_0000,
        area != 0,
        -0x4_0000_0000_0000_0000 < area < 0x4_0000_0000_0000_0000,
    ensures
        r == shade(e0 as int, e1 as int, e2 as int, area as int, c0, c1, c2),
{
    assert(-0x400_0000_0000_0000_0000 < e0 * c0 < 0x400_0000_0000_0000_0000) by (nonlinear_arith)
        requires
            -0x4_0000_0000_0000_0000 < e0 < 0x4_0000_0000_0000_0000,
            0 <= c0 <= 255,
    ;
    assert(-0x400_0000_0000_0000_0000 < e1 * c1 < 0x400_0000_0000_0000_0000) by (nonlinear_arith)
        requires
            -0x4_0000_0000_0000_0000 < e1 < 0x4_0000_0000_0000_0000,
            0 <= c1 <= 255,
    ;
    assert(-0x400_0000_0000_0000_0000 < e2 * c2 < 0x400_0000_0000_0000_0000) by (nonlinear_arith)
        requires
            -0x4_0000_0000_0000_0000 < e2 < 0x4_0000_0000_0000_0000,
            0 <= c2 <= 255,
    ;
    let n = e0 * (c0 as i128) + e1 * (c1 as i128) + e2 * (c2 as i128);
    let na: u128 = if n < 0 {
        (-n) as u128
    } else {
        n as u128
    };
    let aa: u128 = if area < 0 {
        (-area) as u128
    } else {
        area as u128
    };
    let q = na / aa;
    if q > 255 {
        255
    } else {
        q as u8
    }
}

impl Rasterizer {
    /// Draws a triangle after the drawing offset, clipped to `clip` and VRAM; flat with the
    /// first vertex's colour or Gouraud shaded. A triangle of zero area draws nothing.
    pub fn draw_triangle(
        vram: &mut VRam,
        v0: Vertex,
        v1: Vertex,
        v2: Vertex,
        offset_x: i32,
        offset_y: i32,
        clip: RectClip,
        gouraud: bool,
    )
        requires
            old(vram).wf(),
            tri_fits(v0, v1, v2, offset_x, offset_y),
        ensures
            final(vram).wf(),
            final(vram)@ == drawn_triangle(
                old(vram)@,
                v0,
                v1,
                v2,
                offset_x as int,
                offset_y as int,
                clip,
                gouraud,
            ),
    {
        let ghost old_v = vram@;
        let ax = v0.x + offset_x;
        let ay = v0.y + offset_y;
        let bx = v1.x + offset_x;
        let by = v1.y + offset_y;
        let cx = v2.x + offset_x;
        let cy = v2.y + offset_y;
        let lo_x = if ax <= bx { ax } else { bx };
        let lo_x = if lo_x <= cx { lo_x } else { cx };
        let hi_x = if ax >= bx { ax } else { bx };
        let hi_x = if hi_x >= cx { hi_x } else { cx };
        let lo_y = if ay <= by { ay } else { by };
        let lo_y = if lo_y <= cy { lo_y } else { cy };
        let hi_y = if ay >= by { ay } else { by };
        let hi_y = if hi_y >= cy { hi_y } else { cy };
        let min_x = if lo_x >= clip.x1 { lo_x } else { clip.x1 };
        let min_x = if min_x >= 0 { min_x } else { 0 };
        let max_x = if hi_x <= clip.x2 { hi_x } else { clip.x2 };
        let max_x = if max_x <= 1023 { max_x } else { 1023 };
        let min_y = if lo_y >= clip.y1 { lo_y } else { clip.y1 };
        let min_y = if min_y >= 0 { min_y } else { 0 };
        let max_y = if hi_y <= clip.y2 { hi_y } else { clip.y2 };
        let max_y = if max_y <= 511 { max_y } else { 511 };
        assert((min_x as int, max_x as int, min_y as int, max_y as int) == tri_window(
            v0,
            v1,
            v2,
            offset_x as int,
            offset_y as int,
            clip,
        ));
        if min_x > max_x || min_y > max_y {
            assert(vram@ =~= drawn_triangle(old_v, v0, v1, v2, offset_x as int, offset_y as int, clip, gouraud));
            return;
        }
        let area = edge_fn(ax, ay, bx, by, cx, cy);
        if area == 0 {
            assert(vram@ =~= drawn_triangle(old_v, v0, v1, v2, offset_x as int, offset_y as int, clip, gouraud));
            return;
        }
        let flat = rgb888_to_bgr555(v0.r, v0.g, v0.b);
        let mut y = min_y;
        while y <= max_y
            invariant
                vram.wf(),
                old_v.len() == 0x80000,
                min_x <= max_x,
                0 <= min_x,
                max_x <= 1023,
                0 <= min_y <= y,
                y <= max_y + 1,
                max_y <= 511,
                area as int == edge(ax as int, ay as int, bx as int, by as int, cx as int, cy as int),
                area != 0,
                -0x4_0000_0000_0000_0000 < area < 0x4_0000_0000_0000_0000,
                flat == bgr555(v0.r, v0.g, v0.b),
                ax == v0.x + offset_x,
                ay == v0.y + offset_y,
                bx == v1.x + offset_x,
                by == v1.y + offset_y,
                cx == v2.x + offset_x,
                cy == v2.y + offset_y,
                (min_x as int, max_x as int, min_y as int, max_y as int) == tri_window(
                    v0,
                    v1,
                    v2,
                    offset_x as int,
                    offset_y as int,
                    clip,
                ),
                forall|i: int|
                    0 <= i < 0x80000 ==> #[trigger] vram@[i] == if row_of(i) < y && tri_paints(
                        v0,
                        v1,
                        v2,
                        offset_x as int,
                        offset_y as int,
                        clip,
                        col_of(i),
                        row_of(i),
                    ) {
                        tri_color(v0, v1, v2, offset_x as int, offset_y as int, col_of(i), row_of(i), gouraud)
                    } else {
                        old_v[i]
                    },
            decreases max_y + 1 - y,
        {
            let mut x = min_x;
            while x <= max_x
                invariant
                    vram.wf(),
                    old_v.len() == 0x80000,
                    min_x <= x <= max_x + 1,
                    0 <= min_x,
                    max_x <= 1023,
                    0 <= min_y <= y <= max_y,
                    max_y <= 511,
                    area as int == edge(ax as int, ay as int, bx as int, by as int, cx as int, cy as int),
                    area != 0,
                    -0x4_0000_0000_0000_0000 < area < 0x4_0000_0000_0000_0000,
                    flat == bgr555(v0.r, v0.g, v0.b),
                    ax == v0.x + offset_x,
                    ay == v0.y + offset_y,
                    bx == v1.x + offset_x,
                    by == v1.y + offset_y,
                    cx == v2.x + offset_x,
                    cy == v2.y + offset_y,
                    (min_x as int, max_x as int, min_y as int, max_y as int) == tri_window(
                        v0,
                        v1,
                        v2,
                        offset_x as int,
                        offset_y as int,
                        clip,
                    ),
                    forall|i: int|
                        0 <= i < 0x80000 ==> #[trigger] vram@[i] == if (row_of(i) < y || (row_of(i)
                            == y && col_of(i) < x)) && tri_paints(
                            v0,
                            v1,
                            v2,
                            offset_x as int,
                            offset_y as int,
                            clip,
                            col_of(i),
                            row_of(i),
                        ) {
                            tri_color(v0, v1, v2, offset_x as int, offset_y as int, col_of(i), row_of(i), gouraud)
                        } else {
                            old_v[i]
                        },
                decreases max_x + 1 - x,
            {
                let e0 = edge_fn(bx, by, cx, cy, x, y);
                let e1 = edge_fn(cx, cy, ax, ay, x, y);
                let e2 = edge_fn(ax, ay, bx, by, x, y);
                let is_inside = if area > 0 {
                    e0 >= 0 && e1 >= 0 && e2 >= 0
                } else {
                    e0 <= 0 && e1 <= 0 && e2 <= 0
                };
                if is_inside {
                    let color = if gouraud {
                        let r = shade_fn(e0, e1, e2, area, v0.r, v1.r, v2.r);
                        let g = shade_fn(e0, e1, e2, area, v0.g, v1.g, v2.g);
                        let b = shade_fn(e0, e1, e2, area, v0.b, v1.b, v2.b);
                        rgb888_to_bgr555(r, g, b)
                    } else {
                        flat
                    };
                    let ghost before = vram@;
                    vram.set_pixel(x as u32, y as u32, color);
                    proof {
                        lemma_pixel_index(x as int, y as int);
                        assert forall|i: int| 0 <= i < 0x80000 implies #[trigger] vram@[i] == if (
                        row_of(i) < y || (row_of(i) == y && col_of(i) < x + 1)) && tri_paints(
                            v0,
                            v1,
                            v2,
                            offset_x as int,
                            offset_y as int,
                            clip,
                            col_of(i),
                            row_of(i),
                        ) {
                            tri_color(v0, v1, v2, offset_x as int, offset_y as int, col_of(i), row_of(i), gouraud)
                        } else {
                            old_v[i]
                        } by {
                            lemma_index_split(i);
                            if i != y * 1024 + x {
                                assert(vram@[i] == before[i]);
                            }
                        }
                    }
                } else {
                    proof {
                        assert forall|i: int| 0 <= i < 0x80000 implies #[trigger] vram@[i] == if (
                        row_of(i) < y || (row_of(i) == y && col_of(i) < x + 1)) && tri_paints(
                            v0,
                            v1,
                            v2,
                            offset_x as int,
                            offset_y as int,
                            clip,
                            col_of(i),
                            row_of(i),
                        ) {
                            tri_color(v0, v1, v2, offset_x as int, offset_y as int, col_of(i), row_of(i), gouraud)
                        } else {
                            old_v[i]
                        } by {
                            lemma_index_split(i);
                        }
                    }
                }
                x = x + 1;
            }
            y = y + 1;
        }
        assert(vram@ =~= drawn_triangle(old_v, v0, v1, v2, offset_x as int, offset_y as int, clip, gouraud));
    }

    /// Fills a rectangle of `w` x `h` pixels at (x, y) after the drawing offset, clipped to
    /// `clip` and VRAM.
    pub fn draw_rect(
        vram: &mut VRam,
        x: i32,
        y: i32,
        w: i32,
        h: i32,
        color_r: u8,
        color_g: u8,
        color_b: u8,
        offset_x: i32,
        offset_y: i32,
        clip: RectClip,
    )
        requires
            old(vram).wf(),
            rect_fits(x, y, w, h, offset_x, offset_y, clip),
        ensures
            final(vram).wf(),
            ({
                let (sx, ex, sy, ey) = rect_window(
                    x as int,
                    y as int,
                    w as int,
                    h as int,
                    offset_x as int,
                    offset_y as int,
                    clip,
                );
                final(vram)@ == filled(old(vram)@, sx, ex, sy, ey, bgr555(color_r, color_g, color_b))
            }),
    {
        let ghost old_v = vram@;
        let ghost win = rect_window(x as int, y as int, w as int, h as int, offset_x as int, offset_y as int, clip);
        let c555 = rgb888_to_bgr555(color_r, color_g, color_b);
        let sx0 = x + offset_x;
        let sx1 = if sx0 >= clip.x1 { sx0 } else { clip.x1 };
        let start_x = if sx1 >= 0 { sx1 } else { 0 };
        let ex0 = x + offset_x + w;
        let ex1 = if ex0 <= clip.x2 + 1 { ex0 } else { clip.x2 + 1 };
        let end_x = if ex1 <= 1024 { ex1 } else { 1024 };
        let sy0 = y + offset_y;
        let sy1 = if sy0 >= clip.y1 { sy0 } else { clip.y1 };
        let start_y = if sy1 >= 0 { sy1 } else { 0 };
        let ey0 = y + offset_y + h;
        let ey1 = if ey0 <= clip.y2 + 1 { ey0 } else { clip.y2 + 1 };
        let end_y = if ey1 <= 512 { ey1 } else { 512 };
        assert(win == (start_x as int, end_x as int, start_y as int, end_y as int));
        if start_x >= end_x || start_y >= end_y {
            assert(vram@ =~= filled(old_v, win.0, win.1, win.2, win.3, c555));
            return;
        }
        let mut py = start_y;
        while py < end_y
            invariant
                vram.wf(),
                old_v.len() == 0x80000,
                0 <= start_x < end_x <= 1024,
                0 <= start_y <= py <= end_y,
                end_y <= 512,
                forall|i: int|
                    0 <= i < 0x80000 ==> #[trigger] vram@[i] == if start_x <= col_of(i) < end_x
                        && start_y <= row_of(i) < py {
                        c555
                    } else {
                        old_v[i]
                    },
            decreases end_y - py,
        {
            let mut px = start_x;
            while px < end_x
                invariant
                    vram.wf(),
                    old_v.len() == 0x80000,
                    0 <= start_x <= px <= end_x,
                    end_x <= 1024,
                    0 <= start_y <= py < end_y,
                    end_y <= 512,
                    forall|i: int|
                        0 <= i < 0x80000 ==> #[trigger] vram@[i] == if start_x <= col_of(i) < end_x
                            && (start_y <= row_of(i) < py || (row_of(i) == py && col_of(i) < px)) {
                            c555
                        } else {
                            old_v[i]
                        },
                decreases end_x - px,
            {
                let ghost before = vram@;
                vram.set_pixel(px as u32, py as u32, c555);
                proof {
                    lemma_pixel_index(px as int, py as int);
                    assert forall|i: int| 0 <= i < 0x80000 implies #[trigger] vram@[i] == if start_x
                        <= col_of(i) < end_x && (start_y <= row_of(i) < py || (row_of(i) == py
                        && col_of(i) < px + 1)) {
                        c555
                    } else {
                        old_v[i]
                    } by {
                        lemma_index_split(i);
                        if i != py * 1024 + px {
                            assert(vram@[i] == before[i]);
                        }
                    }
                }
                px = px + 1;
            }
            py = py + 1;
        }
        assert(vram@ =~= filled(old_v, win.0, win.1, win.2, win.3, c555));
    }
}

/// The product of two differences, multiplied out.
proof fn lemma_expand(a: int, b: int, c: int, d: int)
    ensures
        (a - b) * (c - d) == a * c - a * d - b * c + b * d,
{
    assert((a - b) * (c - d) == a * c - a * d - b * c + b * d) by (nonlinear_arith);
}

/// The edge functions of a point against the three edges add up to the triangle's own,
/// and a vertex lies on both edges that meet at it.
proof fn lemma_edge_sum(ax: int, ay: int, bx: int, by: int, cx: int, cy: int, px: int, py: int)
    ensures
        edge(bx, by, cx, cy, px, py) + edge(cx, cy, ax, ay, px, py) + edge(ax, ay, bx, by, px, py)
            == edge(ax, ay, bx, by, cx, cy),
        edge(cx, cy, ax, ay, ax, ay) == 0,
        edge(ax, ay, bx, by, ax, ay) == 0,
        edge(ax, ay, bx, by, bx, by) == 0,
        edge(bx, by, cx, cy, bx, by) == 0,
        edge(bx, by, cx, cy, cx, cy) == 0,
        edge(cx, cy, ax, ay, cx, cy) == 0,
{
    lemma_expand(px, bx, cy, by);
    lemma_expand(py, by, cx, bx);
    lemma_expand(px, cx, ay, cy);
    lemma_expand(py, cy, ax, cx);
    lemma_expand(px, ax, by, ay);
    lemma_expand(py, ay, bx, ax);
    lemma_expand(cx, ax, by, ay);
    lemma_expand(cy, ay, bx, ax);
    assert((ax - cx) * (ay - cy) - (ay - cy) * (ax - cx) == 0) by (nonlinear_arith);
    assert((bx - ax) * (by - ay) - (by - ay) * (bx - ax) == 0) by (nonlinear_arith);
    assert((cx - bx) * (cy - by) - (cy - by) * (cx - bx) == 0) by (nonlinear_arith);
}

/// Scaling a channel by a nonzero integer and dividing back gives the channel.
proof fn lemma_scale_back(a: int, c: u8)
    requires
        a != 0,
    ensures
        iabs(a * c) / iabs(a) == c,
{
    assert(iabs(a * c) == iabs(a) * c) by (nonlinear_arith)
        requires
            c >= 0,
    ;
    assert((iabs(a) * c) / iabs(a) == c) by (nonlinear_arith)
        requires
            iabs(a) > 0,
    ;
}

/// Gouraud shading is exact at the corners: the pixel on a vertex takes that vertex's own
/// colour, so each vertex's colour weighs by its own barycentric coordinate.
pub proof fn lemma_gouraud_vertex_colours(v0: Vertex, v1: Vertex, v2: Vertex, ox: int, oy: int)
    requires
        edge(v0.x + ox, v0.y + oy, v1.x + ox, v1.y + oy, v2.x + ox, v2.y + oy) != 0,
    ensures
        tri_color(v0, v1, v2, ox, oy, v0.x + ox, v0.y + oy, true) == bgr555(v0.r, v0.g, v0.b),
        tri_color(v0, v1, v2, ox, oy, v1.x + ox, v1.y + oy, true) == bgr555(v1.r, v1.g, v1.b),
        tri_color(v0, v1, v2, ox, oy, v2.x + ox, v2.y + oy, true) == bgr555(v2.r, v2.g, v2.b),
{
    let (ax, ay, bx, by, cx, cy) = (v0.x + ox, v0.y + oy, v1.x + ox, v1.y + oy, v2.x + ox, v2.y + oy);
    let area = edge(ax, ay, bx, by, cx, cy);
    lemma_edge_sum(ax, ay, bx, by, cx, cy, ax, ay);
    lemma_edge_sum(ax, ay, bx, by, cx, cy, bx, by);
    lemma_edge_sum(ax, ay, bx, by, cx, cy, cx, cy);
    lemma_scale_back(area, v0.r);
    lemma_scale_back(area, v0.g);
    lemma_scale_back(area, v0.b);
    lemma_scale_back(area, v1.r);
    lemma_scale_back(area, v1.g);
    lemma_scale_back(area, v1.b);
    lemma_scale_back(area, v2.r);
    lemma_scale_back(area, v2.g);
    lemma_scale_back(area, v2.b);
}

/// Weights that add up to `area`, all applied to one channel, give `area` times it.
proof fn lemma_weights_sum(e0: int, e1: int, e2: int, area: int, c: u8)
    requires
        e0 + e1 + e2 == area,
    ensures
        e0 * c + e1 * c + e2 * c == area * c,
{
    assert(e0 * c + e1 * c + e2 * c == (e0 + e1 + e2) * c) by (nonlinear_arith);
}

/// The three barycentric weights of any pixel add up to the whole: a triangle whose
/// vertices share one colour is shaded in that colour everywhere.
pub proof fn lemma_gouraud_constant_colour(v0: Vertex, v1: Vertex, v2: Vertex, ox: int, oy: int, px: int, py: int)
    requires
        edge(v0.x + ox, v0.y + oy, v1.x + ox, v1.y + oy, v2.x + ox, v2.y + oy) != 0,
        v1.r == v0.r && v1.g == v0.g && v1.b == v0.b,
        v2.r == v0.r && v2.g == v0.g && v2.b == v0.b,
    ensures
        tri_color(v0, v1, v2, ox, oy, px, py, true) == bgr555(v0.r, v0.g, v0.b),
{
    let (ax, ay, bx, by, cx, cy) = (v0.x + ox, v0.y + oy, v1.x + ox, v1.y + oy, v2.x + ox, v2.y + oy);
    let area = edge(ax, ay, bx, by, cx, cy);
    let e0 = edge(bx, by, cx, cy, px, py);
    let e1 = edge(cx, cy, ax, ay, px, py);
    let e2 = edge(ax, ay, bx, by, px, py);
    lemma_edge_sum(ax, ay, bx, by, cx, cy, px, py);
    lemma_weights_sum(e0, e1, e2, area, v0.r);
    lemma_weights_sum(e0, e1, e2, area, v0.g);
    lemma_weights_sum(e0, e1, e2, area, v0.b);
    lemma_scale_back(area, v0.r);
    lemma_scale_back(area, v0.g);
    lemma_scale_back(area, v0.b);
}

} // verus!
