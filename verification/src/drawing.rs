//! Rasterizer: an in-memory indexed-color framebuffer with tolerant
//! (self-clamping) pixel writes, the integer digital-line walk shared by line
//! drawing and triangle filling, and the two drawing routines themselves.

use vstd::prelude::*;
use crate::fixed::{fx_trunc, mag, sign_of};
use crate::geometry::{Triangle2D, Vector2D};

verus! {

/// Horizontal pixel count of the display.
pub const SCREEN_WIDTH: usize = 240;

/// Vertical pixel count of the display.
pub const SCREEN_HEIGHT: usize = 160;

/// Is (x, y) a pixel of the display?
pub open spec fn pix_in_bounds(x: int, y: int) -> bool {
    0 <= x < 240 && 0 <= y < 160
}

/// Row-major index of pixel (x, y) in the framebuffer.
pub open spec fn pix_index(x: int, y: int) -> int {
    y * 240 + x
}

/// An indexed-color framebuffer, plus the row-boundary cache that triangle
/// filling uses.  Owning the cache makes the "at most one in-flight triangle
/// fill" rule a fact of the borrow checker instead of a calling convention.
pub struct Bitmap {
    /// One palette index per pixel, row-major.
    pub pixels: Vec<u8>,
    /// For each display row, the x-coordinate most recently reached by a
    /// short-edge walk; always clamped to the display width.
    pub x_bounds: Vec<i32>,
}

impl Bitmap {
    /// Structural invariant: full-screen pixel buffer, one boundary slot per
    /// row, every cached boundary inside the display width.
    pub open spec fn wf(&self) -> bool {
        &&& self.pixels@.len() == 240 * 160
        &&& self.x_bounds@.len() == 160
        &&& forall|i: int| 0 <= i < 160 ==> 0 <= #[trigger] self.x_bounds@[i] < 240
    }

    /// A black (color 0) framebuffer.
    pub fn new() -> (b: Bitmap)
        ensures
            b.wf(),
            forall|i: int| 0 <= i < 240 * 160 ==> b.pixels@[i] == 0,
    {
        Bitmap { pixels: vec![0u8; SCREEN_WIDTH * SCREEN_HEIGHT], x_bounds: vec![0i32; SCREEN_HEIGHT] }
    }

    /// Reads one pixel.
    pub fn pixel_at(&self, x: usize, y: usize) -> (c: u8)
        requires
            self.wf(),
            x < 240,
            y < 160,
        ensures
            c == self.pixels@[pix_index(x as int, y as int)],
    {
        self.pixels[y * 240 + x]
    }

    /// Fills the whole framebuffer with one color.
    pub fn clear(&mut self, color: u8)
        requires
            old(self).wf(),
        ensures
            final(self).wf(),
            forall|i: int| 0 <= i < 240 * 160 ==> final(self).pixels@[i] == color,
            final(self).x_bounds@ == old(self).x_bounds@,
    {
        let mut i: usize = 0;
        while i < 240 * 160
            invariant
                old(self).wf(),
                self.wf(),
                i <= 240 * 160,
                forall|j: int| 0 <= j < i ==> self.pixels@[j] == color,
                self.x_bounds@ == old(self).x_bounds@,
            decreases 240 * 160 - i,
        {
            self.pixels[i] = color;
            i = i + 1;
        }
    }

    /// Writes one pixel if it is on the display, and ignores the write
    /// otherwise; callers never need to pre-clamp.
    pub fn draw_point(&mut self, x: i32, y: i32, color: u8)
        requires
            old(self).wf(),
        ensures
            final(self).wf(),
            pix_in_bounds(x as int, y as int) ==> final(self).pixels@ == old(self).pixels@.update(
                pix_index(x as int, y as int),
                color,
            ),
            !pix_in_bounds(x as int, y as int) ==> final(self).pixels@ == old(self).pixels@,
            final(self).x_bounds@ == old(self).x_bounds@,
    {
        if 0 <= x && x < 240 && 0 <= y && y < 160 {
            let idx: usize = (y as usize) * 240 + (x as usize);
            self.pixels[idx] = color;
        }
    }

    /// Paints two horizontally adjacent pixels at once, each clamped the same
    /// way `draw_point` clamps.
    pub fn draw_wide_point(&mut self, x: i32, y: i32, color: u8)
        requires
            old(self).wf(),
            x < 0x7fff_ffff,
        ensures
            final(self).wf(),
            final(self).pixels@.len() == old(self).pixels@.len(),
            forall|i: int|
                0 <= i < 240 * 160 ==> final(self).pixels@[i] == old(self).pixels@[i] || final(self).pixels@[i] == color,
            forall|i: int|
                0 <= i < 240 * 160 && !(y * 240 <= i < y * 240 + 240) ==> final(self).pixels@[i]
                    == old(self).pixels@[i],
            pix_in_bounds(x as int, y as int) ==> final(self).pixels@[pix_index(x as int, y as int)]
                == color,
            pix_in_bounds(x as int + 1, y as int) ==> final(self).pixels@[pix_index(
                x as int + 1,
                y as int,
            )] == color,
            forall|i: int|
                0 <= i < 240 * 160 && i != pix_index(x as int, y as int) && i != pix_index(
                    x as int + 1,
                    y as int,
                ) ==> final(self).pixels@[i] == old(self).pixels@[i],
            final(self).x_bounds@ == old(self).x_bounds@,
    {
        self.draw_point(x, y, color);
        self.draw_point(x + 1, y, color);
    }
}

/// Chebyshev distance between two points: the larger per-axis magnitude.
pub open spec fn cheb(ax: int, ay: int, bx: int, by: int) -> int {
    if mag(bx - ax) >= mag(by - ay) {
        mag(bx - ax)
    } else {
        mag(by - ay)
    }
}

/// Number of pixels the digital line from a to b visits, both endpoints
/// included.
pub open spec fn line_pixel_count(ax: int, ay: int, bx: int, by: int) -> int {
    cheb(ax, ay, bx, by) + 1
}

/// Is `v` inside the closed interval spanned by `p` and `q` (in either
/// order)?
pub open spec fn in_seg(v: int, p: int, q: int) -> bool {
    (p <= v <= q) || (q <= v <= p)
}

/// `base` moved `n` unit steps in the direction of `delta`.
pub open spec fn shift_by(base: int, n: int, delta: int) -> int {
    if delta > 0 {
        base + n
    } else if delta < 0 {
        base - n
    } else {
        base
    }
}

/// The point the digital line walk from `(ax, ay)` to `(bx, by)` reaches
/// after `k` steps, in closed form: the long axis advances every step, and
/// the short axis has advanced as often as the error accumulator — seeded
/// with half the long length and fed the short length each step — has
/// absorbed a whole long length.
pub open spec fn line_point_at(ax: int, ay: int, bx: int, by: int, k: int) -> (int, int) {
    let w = bx - ax;
    let h = by - ay;
    let long = cheb(ax, ay, bx, by);
    let short = if mag(w) >= mag(h) {
        mag(h)
    } else {
        mag(w)
    };
    let diag = if long == 0 {
        0
    } else {
        (long / 2 + k * short) / long
    };
    if mag(w) >= mag(h) {
        (ax + k * sign_of(w), ay + diag * sign_of(h))
    } else {
        (ax + diag * sign_of(w), ay + k * sign_of(h))
    }
}

/// A column clamped into the display width, as the row-boundary cache
/// stores it.
pub open spec fn clamp_col(x: int) -> int {
    if x < 0 {
        0
    } else if x > 239 {
        239
    } else {
        x
    }
}

/// A walk whose rows move by single steps of `d` passes through every row
/// between its first and last point (a discrete intermediate-value fact).
proof fn lemma_walk_hits_rows(s: Seq<(i32, i32)>, d: int, row: int)
    requires
        s.len() >= 1,
        d == -1 || d == 0 || d == 1,
        forall|k: int|
            0 <= k < s.len() - 1 ==> (#[trigger] s[k + 1]).1 == s[k].1 || s[k + 1].1 as int == s[
                k
            ].1 + d,
        in_seg(row, s[0].1 as int, s[s.len() - 1].1 as int),
    ensures
        exists|k: int| 0 <= k < s.len() && (#[trigger] s[k]).1 == row,
    decreases s.len(),
{
    if s[s.len() - 1].1 == row {
        assert(s[s.len() - 1].1 == row);
    } else {
        assert(s.len() >= 2);
        let s2 = s.subrange(0, s.len() - 1);
        assert forall|k: int| 0 <= k < s2.len() - 1 implies (#[trigger] s2[k + 1]).1 == s2[k].1
            || s2[k + 1].1 as int == s2[k].1 + d by {
            assert(s2[k] == s[k] && s2[k + 1] == s[k + 1]);
        }
        assert(s2[s2.len() - 1] == s[s.len() - 2]);
        assert(s[s.len() - 2 + 1].1 == s[s.len() - 2].1 || s[s.len() - 2 + 1].1 as int == s[s.len()
            - 2].1 + d);
        assert(in_seg(row, s2[0].1 as int, s2[s2.len() - 1].1 as int));
        lemma_walk_hits_rows(s2, d, row);
        let k = choose|k: int| 0 <= k < s2.len() && (#[trigger] s2[k]).1 == row;
        assert(s[k].1 == row);
    }
}

/// Drawing a line in either direction visits the same number of pixels:
/// the Chebyshev distance is symmetric.
pub proof fn lemma_line_count_symmetric(ax: int, ay: int, bx: int, by: int)
    ensures
        line_pixel_count(ax, ay, bx, by) == line_pixel_count(bx, by, ax, ay),
{
}

/// The digital line from `a` to `b`: the generalized integer line walk, one
/// point per step.  Visits `max(|dx|, |dy|) + 1` points including both
/// endpoints; every point stays in the bounding box, and consecutive points
/// differ by at most one unit per axis, each axis moving only toward `b`.
#[verifier::rlimit(100)]
pub fn line_points(a: (i32, i32), b: (i32, i32)) -> (pts: Vec<(i32, i32)>)
    requires
        -0x0400_0000 <= a.0 <= 0x0400_0000,
        -0x0400_0000 <= a.1 <= 0x0400_0000,
        -0x0400_0000 <= b.0 <= 0x0400_0000,
        -0x0400_0000 <= b.1 <= 0x0400_0000,
    ensures
        pts@.len() == line_pixel_count(a.0 as int, a.1 as int, b.0 as int, b.1 as int),
        pts@[0] == a,
        pts@[pts@.len() - 1] == b,
        forall|k: int|
            0 <= k < pts@.len() ==> in_seg((#[trigger] pts@[k]).0 as int, a.0 as int, b.0 as int)
                && in_seg(pts@[k].1 as int, a.1 as int, b.1 as int),
        forall|k: int|
            0 <= k < pts@.len() - 1 ==> ((#[trigger] pts@[k + 1]).0 == pts@[k].0 || pts@[k + 1].0
                as int == pts@[k].0 + sign_of(b.0 - a.0)) && (pts@[k + 1].1 == pts@[k].1 || pts@[k
                + 1].1 as int == pts@[k].1 + sign_of(b.1 - a.1)),
        forall|k: int|
            0 <= k < pts@.len() ==> (#[trigger] pts@[k]).0 as int == line_point_at(
                a.0 as int,
                a.1 as int,
                b.0 as int,
                b.1 as int,
                k,
            ).0 && pts@[k].1 as int == line_point_at(
                a.0 as int,
                a.1 as int,
                b.0 as int,
                b.1 as int,
                k,
            ).1,
{
    let w: i32 = b.0 - a.0;
    let h: i32 = b.1 - a.1;
    let dx1: i32 = if w < 0 {
        -1
    } else if w > 0 {
        1
    } else {
        0
    };
    let dy1: i32 = if h < 0 {
        -1
    } else if h > 0 {
        1
    } else {
        0
    };
    let aw: i32 = if w < 0 {
        -w
    } else {
        w
    };
    let ah: i32 = if h < 0 {
        -h
    } else {
        h
    };
    let xlong: bool = aw > ah;
    let longest: i32 = if xlong {
        aw
    } else {
        ah
    };
    let shortest: i32 = if xlong {
        ah
    } else {
        aw
    };
    let dx2: i32 = if xlong {
        dx1
    } else {
        0
    };
    let dy2: i32 = if xlong {
        0
    } else {
        dy1
    };
    let mut num: i32 = ((longest as u32) / 2u32) as i32;
    let ghost h0: int = num as int;
    let mut x: i32 = a.0;
    let mut y: i32 = a.1;
    let mut pts: Vec<(i32, i32)> = Vec::new();
    pts.push((x, y));
    let mut i: i32 = 0;
    let ghost mut steps: int = 0;
    proof {
        if longest > 0 {
            vstd::arithmetic::div_mod::lemma_fundamental_div_mod_converse(
                h0,
                longest as int,
                0,
                h0,
            );
        }
        assert(line_point_at(a.0 as int, a.1 as int, b.0 as int, b.1 as int, 0) == (
        a.0 as int,
        a.1 as int,
        ));
    }
    while i < longest
        invariant
            -0x0400_0000 <= a.0 <= 0x0400_0000,
            -0x0400_0000 <= a.1 <= 0x0400_0000,
            -0x0400_0000 <= b.0 <= 0x0400_0000,
            -0x0400_0000 <= b.1 <= 0x0400_0000,
            dx1 as int == sign_of(b.0 - a.0),
            dy1 as int == sign_of(b.1 - a.1),
            xlong ==> longest as int == mag(b.0 - a.0) && shortest as int == mag(b.1 - a.1),
            !xlong ==> longest as int == mag(b.1 - a.1) && shortest as int == mag(b.0 - a.0),
            longest as int == cheb(a.0 as int, a.1 as int, b.0 as int, b.1 as int),
            xlong ==> dx2 == dx1 && dy2 == 0,
            !xlong ==> dx2 == 0 && dy2 == dy1,
            0 <= shortest <= longest <= 0x0800_0000,
            h0 == (longest as int) / 2,
            0 <= i <= longest,
            0 <= steps <= shortest,
            pts@.len() == i + 1,
            pts@[0] == a,
            pts@[i as int] == (x, y),
            x as int == shift_by(a.0 as int, if xlong { i as int } else { steps }, dx1 as int),
            y as int == shift_by(a.1 as int, if xlong { steps } else { i as int }, dy1 as int),
            num as int == h0 + (i as int) * (shortest as int) - steps * (longest as int),
            longest > 0 ==> 0 <= num < longest,
            forall|k: int|
                0 <= k < pts@.len() ==> in_seg((#[trigger] pts@[k]).0 as int, a.0 as int, b.0 as int)
                    && in_seg(pts@[k].1 as int, a.1 as int, b.1 as int),
            forall|k: int|
                0 <= k < pts@.len() - 1 ==> ((#[trigger] pts@[k + 1]).0 == pts@[k].0 || pts@[k
                    + 1].0 as int == pts@[k].0 + sign_of(b.0 - a.0)) && (pts@[k + 1].1 == pts@[k].1
                    || pts@[k + 1].1 as int == pts@[k].1 + sign_of(b.1 - a.1)),
            forall|k: int|
                0 <= k <= i ==> (#[trigger] pts@[k]).0 as int == line_point_at(
                    a.0 as int,
                    a.1 as int,
                    b.0 as int,
                    b.1 as int,
                    k,
                ).0 && pts@[k].1 as int == line_point_at(
                    a.0 as int,
                    a.1 as int,
                    b.0 as int,
                    b.1 as int,
                    k,
                ).1,
        decreases longest - i,
    {
        num = num + shortest;
        if num >= longest {
            num = num - longest;
            proof {
                assert(steps + 1 <= shortest as int && (i as int + 1) * (shortest as int) == (
                i as int) * (shortest as int) + shortest as int && (steps + 1) * (longest as int)
                    == steps * (longest as int) + longest as int) by (nonlinear_arith)
                    requires
                        0 <= h0 < longest as int,
                        0 <= i < longest as int,
                        0 <= steps <= shortest as int,
                        shortest as int <= longest as int,
                        h0 + (i as int) * (shortest as int) - steps * (longest as int) + (
                        shortest as int) >= longest as int,
                        h0 + (i as int) * (shortest as int) - steps * (longest as int)
                            < longest as int,
                ;
                steps = steps + 1;
            }
            x = x + dx1;
            y = y + dy1;
        } else {
            proof {
                assert((i as int + 1) * (shortest as int) == (i as int) * (shortest as int)
                    + shortest as int) by (nonlinear_arith);
            }
            x = x + dx2;
            y = y + dy2;
        }
        i = i + 1;
        pts.push((x, y));
        proof {
            let n = i as int;
            vstd::arithmetic::div_mod::lemma_fundamental_div_mod_converse(
                h0 + n * (shortest as int),
                longest as int,
                steps,
                num as int,
            );
            assert(steps == (h0 + n * (shortest as int)) / (longest as int));
            assert(pts@[n].0 as int == line_point_at(
                a.0 as int,
                a.1 as int,
                b.0 as int,
                b.1 as int,
                n,
            ).0 && pts@[n].1 as int == line_point_at(
                a.0 as int,
                a.1 as int,
                b.0 as int,
                b.1 as int,
                n,
            ).1);
        }
    }
    proof {
        if longest > 0 {
            assert(steps == shortest as int) by (nonlinear_arith)
                requires
                    0 <= h0 < longest as int,
                    0 <= steps <= shortest as int,
                    shortest as int <= longest as int,
                    h0 + (longest as int) * (shortest as int) - steps * (longest as int)
                        < longest as int,
                    h0 + (longest as int) * (shortest as int) - steps * (longest as int) >= 0,
            ;
        }
        assert(pts@[pts@.len() - 1] == b);
    }
    pts
}

/// Truncated x-coordinate of a projected vertex, in pixels.
pub open spec fn tpt_x(v: Vector2D) -> int {
    fx_trunc(v.x.raw as int)
}

/// Truncated y-coordinate of a projected vertex, in pixels.
pub open spec fn tpt_y(v: Vector2D) -> int {
    fx_trunc(v.y.raw as int)
}

/// All three pixel-truncated vertices of the triangle lie on the display.
pub open spec fn tri_trunc_in_bounds(t: Triangle2D) -> bool {
    &&& pix_in_bounds(tpt_x(t[0]), tpt_y(t[0]))
    &&& pix_in_bounds(tpt_x(t[1]), tpt_y(t[1]))
    &&& pix_in_bounds(tpt_x(t[2]), tpt_y(t[2]))
}

/// Lowest pixel row the truncated triangle touches.
pub open spec fn tri_min_y(t: Triangle2D) -> int {
    let y0 = tpt_y(t[0]);
    let y1 = tpt_y(t[1]);
    let y2 = tpt_y(t[2]);
    if y0 <= y1 && y0 <= y2 {
        y0
    } else if y1 <= y2 {
        y1
    } else {
        y2
    }
}

/// Highest pixel row the truncated triangle touches.
pub open spec fn tri_max_y(t: Triangle2D) -> int {
    let y0 = tpt_y(t[0]);
    let y1 = tpt_y(t[1]);
    let y2 = tpt_y(t[2]);
    if y0 >= y1 && y0 >= y2 {
        y0
    } else if y1 >= y2 {
        y1
    } else {
        y2
    }
}

/// Index (0, 1 or 2) of the value lying between the other two, as the fill
/// routine's nested comparisons select it.
pub open spec fn mid3(y0: int, y1: int, y2: int) -> int {
    if y0 > y1 {
        if y1 > y2 {
            1
        } else if y0 > y2 {
            2
        } else {
            0
        }
    } else {
        if y0 > y2 {
            0
        } else if y1 > y2 {
            2
        } else {
            1
        }
    }
}

/// Some pixel of display row `row` holds `color`.
pub open spec fn row_has_color(pix: Seq<u8>, row: int, color: u8) -> bool {
    exists|col: int| 0 <= col < 240 && pix[pix_index(col, row)] == color
}

/// Index of the vertex whose row lies between the other two vertices' rows.
fn middle_index(y0: i32, y1: i32, y2: i32) -> (m: usize)
    ensures
        m < 3,
        m as int == mid3(y0 as int, y1 as int, y2 as int),
        m == 0 ==> in_seg(y0 as int, y1 as int, y2 as int),
        m == 1 ==> in_seg(y1 as int, y0 as int, y2 as int),
        m == 2 ==> in_seg(y2 as int, y0 as int, y1 as int),
{
    if y0 > y1 {
        if y1 > y2 {
            1
        } else if y0 > y2 {
            2
        } else {
            0
        }
    } else {
        if y0 > y2 {
            0
        } else if y1 > y2 {
            2
        } else {
            1
        }
    }
}

impl Bitmap {
    /// Draws the digital line between two pixel-truncated endpoints.  Writes
    /// only the line color; both endpoints are painted whenever they are on
    /// the display.  No pre-clipping is required of the caller.
    pub fn draw_line(&mut self, a: Vector2D, b: Vector2D, color: u8)
        requires
            old(self).wf(),
        ensures
            final(self).wf(),
            final(self).pixels@.len() == old(self).pixels@.len(),
            forall|i: int|
                0 <= i < 240 * 160 ==> final(self).pixels@[i] == old(self).pixels@[i]
                    || final(self).pixels@[i] == color,
            final(self).x_bounds@ == old(self).x_bounds@,
            pix_in_bounds(tpt_x(a), tpt_y(a)) ==> final(self).pixels@[pix_index(
                tpt_x(a),
                tpt_y(a),
            )] == color,
            pix_in_bounds(tpt_x(b), tpt_y(b)) ==> final(self).pixels@[pix_index(
                tpt_x(b),
                tpt_y(b),
            )] == color,
            forall|col: int, row: int|
                pix_in_bounds(col, row) && final(self).pixels@[#[trigger] pix_index(col, row)]
                    != old(self).pixels@[pix_index(col, row)] ==> in_seg(col, tpt_x(a), tpt_x(b))
                    && in_seg(row, tpt_y(a), tpt_y(b)),
            forall|k: int|
                0 <= k < line_pixel_count(tpt_x(a), tpt_y(a), tpt_x(b), tpt_y(b)) ==> {
                    let p = #[trigger] line_point_at(tpt_x(a), tpt_y(a), tpt_x(b), tpt_y(b), k);
                    pix_in_bounds(p.0, p.1) ==> final(self).pixels@[pix_index(p.0, p.1)] == color
                },
    {
        let ta = (a.x.trunc(), a.y.trunc());
        let tb = (b.x.trunc(), b.y.trunc());
        let pts = line_points(ta, tb);
        let mut j: usize = 0;
        while j < pts.len()
            invariant
                self.wf(),
                j <= pts@.len(),
                pts@.len() >= 1,
                self.pixels@.len() == old(self).pixels@.len(),
                ta.0 as int == tpt_x(a) && ta.1 as int == tpt_y(a),
                tb.0 as int == tpt_x(b) && tb.1 as int == tpt_y(b),
                pts@.len() == line_pixel_count(ta.0 as int, ta.1 as int, tb.0 as int, tb.1 as int),
                forall|k: int|
                    0 <= k < pts@.len() ==> (#[trigger] pts@[k]).0 as int == line_point_at(
                        ta.0 as int,
                        ta.1 as int,
                        tb.0 as int,
                        tb.1 as int,
                        k,
                    ).0 && pts@[k].1 as int == line_point_at(
                        ta.0 as int,
                        ta.1 as int,
                        tb.0 as int,
                        tb.1 as int,
                        k,
                    ).1,
                forall|k: int|
                    0 <= k < pts@.len() ==> in_seg(
                        (#[trigger] pts@[k]).0 as int,
                        ta.0 as int,
                        tb.0 as int,
                    ) && in_seg(pts@[k].1 as int, ta.1 as int, tb.1 as int),
                forall|i: int|
                    0 <= i < 240 * 160 ==> self.pixels@[i] == old(self).pixels@[i]
                        || self.pixels@[i] == color,
                self.x_bounds@ == old(self).x_bounds@,
                forall|k: int|
                    0 <= k < j && pix_in_bounds((#[trigger] pts@[k]).0 as int, pts@[k].1 as int)
                        ==> self.pixels@[pix_index(pts@[k].0 as int, pts@[k].1 as int)] == color,
                forall|col: int, row: int|
                    pix_in_bounds(col, row) && self.pixels@[#[trigger] pix_index(col, row)] != old(
                        self,
                    ).pixels@[pix_index(col, row)] ==> in_seg(col, ta.0 as int, tb.0 as int)
                        && in_seg(row, ta.1 as int, tb.1 as int),
            decreases pts@.len() - j,
        {
            let ghost pix_before = self.pixels@;
            let p = pts[j];
            self.draw_point(p.0, p.1, color);
            proof {
                if pix_in_bounds(p.0 as int, p.1 as int) {
                    assert forall|col: int, row: int|
                        pix_in_bounds(col, row) && self.pixels@[#[trigger] pix_index(col, row)]
                            != pix_before[pix_index(col, row)] implies col == p.0 as int && row
                        == p.1 as int by {
                        assert(pix_index(col, row) == pix_index(p.0 as int, p.1 as int));
                        assert((row - p.1 as int) * 240 == p.0 as int - col) by (nonlinear_arith)
                            requires
                                row * 240 + col == (p.1 as int) * 240 + p.0 as int,
                        ;
                    }
                }
            }
            j = j + 1;
        }
        proof {
            assert forall|k: int|
                0 <= k < line_pixel_count(tpt_x(a), tpt_y(a), tpt_x(b), tpt_y(b)) implies {
                let p = #[trigger] line_point_at(tpt_x(a), tpt_y(a), tpt_x(b), tpt_y(b), k);
                pix_in_bounds(p.0, p.1) ==> self.pixels@[pix_index(p.0, p.1)] == color
            } by {
                assert(pts@[k].0 as int == line_point_at(
                    ta.0 as int,
                    ta.1 as int,
                    tb.0 as int,
                    tb.1 as int,
                    k,
                ).0 && pts@[k].1 as int == line_point_at(
                    ta.0 as int,
                    ta.1 as int,
                    tb.0 as int,
                    tb.1 as int,
                    k,
                ).1);
            }
        }
    }

    /// Walks one short edge and records the clamped x-coordinate it reaches
    /// on every display row it visits; the framebuffer itself is untouched.
    fn record_bounds(&mut self, p: (i32, i32), q: (i32, i32))
        requires
            old(self).wf(),
            -0x0400_0000 <= p.0 <= 0x0400_0000,
            -0x0400_0000 <= p.1 <= 0x0400_0000,
            -0x0400_0000 <= q.0 <= 0x0400_0000,
            -0x0400_0000 <= q.1 <= 0x0400_0000,
        ensures
            final(self).wf(),
            final(self).pixels@ == old(self).pixels@,
            forall|row: int|
                0 <= row < 160 && !(#[trigger] in_seg(row, p.1 as int, q.1 as int))
                    ==> final(self).x_bounds@[row] == old(self).x_bounds@[row],
            forall|row: int|
                0 <= row < 160 && #[trigger] in_seg(row, p.1 as int, q.1 as int)
                    ==> exists|k: int|
                    0 <= k < line_pixel_count(p.0 as int, p.1 as int, q.0 as int, q.1 as int) && (
                    #[trigger] line_point_at(p.0 as int, p.1 as int, q.0 as int, q.1 as int, k)).1
                        == row && final(self).x_bounds@[row] == clamp_col(
                        line_point_at(p.0 as int, p.1 as int, q.0 as int, q.1 as int, k).0,
                    ),
    {
        let pts = line_points(p, q);
        let ghost d: int = sign_of(q.1 - p.1);
        let mut j: usize = 0;
        while j < pts.len()
            invariant
                self.wf(),
                j <= pts@.len(),
                pts@.len() >= 1,
                pts@[0] == p,
                pts@[pts@.len() - 1] == q,
                d == sign_of(q.1 - p.1),
                self.pixels@ == old(self).pixels@,
                forall|k: int|
                    0 <= k < pts@.len() ==> in_seg(
                        (#[trigger] pts@[k]).1 as int,
                        p.1 as int,
                        q.1 as int,
                    ),
                forall|k: int|
                    0 <= k < pts@.len() - 1 ==> ((#[trigger] pts@[k + 1]).1 == pts@[k].1 || pts@[k
                        + 1].1 as int == pts@[k].1 + d),
                forall|k: int|
                    0 <= k < pts@.len() ==> (#[trigger] pts@[k]).0 as int == line_point_at(
                        p.0 as int,
                        p.1 as int,
                        q.0 as int,
                        q.1 as int,
                        k,
                    ).0 && pts@[k].1 as int == line_point_at(
                        p.0 as int,
                        p.1 as int,
                        q.0 as int,
                        q.1 as int,
                        k,
                    ).1,
                pts@.len() == line_pixel_count(p.0 as int, p.1 as int, q.0 as int, q.1 as int),
                forall|row: int|
                    0 <= row < 160 && !(#[trigger] in_seg(row, p.1 as int, q.1 as int))
                        ==> self.x_bounds@[row] == old(self).x_bounds@[row],
                forall|row: int| #![trigger self.x_bounds@[row]]
                    0 <= row < 160 && (exists|k: int|
                        0 <= k < j && (#[trigger] pts@[k]).1 == row) ==> exists|k2: int|
                        0 <= k2 < pts@.len() && (#[trigger] pts@[k2]).1 == row
                            && self.x_bounds@[row] == clamp_col(pts@[k2].0 as int),
            decreases pts@.len() - j,
        {
            let ghost xb_before = self.x_bounds@;
            let (x, y) = pts[j];
            if 0 <= y && y < 160 {
                let xb: i32 = if x < 0 {
                    0
                } else if x > 239 {
                    239
                } else {
                    x
                };
                self.x_bounds[y as usize] = xb;
            }
            proof {
                assert forall|row: int| #![trigger self.x_bounds@[row]]
                    0 <= row < 160 && (exists|k: int|
                        0 <= k < j + 1 && (#[trigger] pts@[k]).1 == row) implies exists|k2: int|
                    0 <= k2 < pts@.len() && (#[trigger] pts@[k2]).1 == row && self.x_bounds@[row]
                        == clamp_col(pts@[k2].0 as int) by {
                    if row == y as int && 0 <= y < 160 {
                        assert(pts@[j as int].1 == row && self.x_bounds@[row] == clamp_col(
                            pts@[j as int].0 as int,
                        ));
                    } else {
                        let k = choose|k: int| 0 <= k < j + 1 && (#[trigger] pts@[k]).1 == row;
                        assert(k < j);
                        assert(self.x_bounds@[row] == xb_before[row]);
                        let k2 = choose|k2: int|
                            0 <= k2 < pts@.len() && (#[trigger] pts@[k2]).1 == row && xb_before[row]
                                == clamp_col(pts@[k2].0 as int);
                        assert(pts@[k2].1 == row && self.x_bounds@[row] == clamp_col(
                            pts@[k2].0 as int,
                        ));
                    }
                }
            }
            j = j + 1;
        }
        proof {
            assert forall|row: int| 0 <= row < 160 && #[trigger] in_seg(row, p.1 as int, q.1 as int)
                implies exists|k: int|
                0 <= k < line_pixel_count(p.0 as int, p.1 as int, q.0 as int, q.1 as int) && (
                #[trigger] line_point_at(p.0 as int, p.1 as int, q.0 as int, q.1 as int, k)).1
                    == row && self.x_bounds@[row] == clamp_col(
                    line_point_at(p.0 as int, p.1 as int, q.0 as int, q.1 as int, k).0,
                ) by {
                lemma_walk_hits_rows(pts@, d, row);
                let k2 = choose|k2: int|
                    0 <= k2 < pts@.len() && (#[trigger] pts@[k2]).1 == row && self.x_bounds@[row]
                        == clamp_col(pts@[k2].0 as int);
                assert(pts@[k2].0 as int == line_point_at(
                    p.0 as int,
                    p.1 as int,
                    q.0 as int,
                    q.1 as int,
                    k2,
                ).0 && pts@[k2].1 as int == line_point_at(
                    p.0 as int,
                    p.1 as int,
                    q.0 as int,
                    q.1 as int,
                    k2,
                ).1);
            }
        }
    }

    /// Fills one horizontal span of row `y` between the long edge's current
    /// x-coordinate and the cached opposite boundary: the two boundary pixels
    /// individually, then double-wide writes over the even interior columns.
    /// Touches row `y` only, writes only the fill color, and, when `(x, y)`
    /// is on the display, leaves at least the nearer boundary pixel painted.
    fn draw_span(&mut self, x: i32, xb: i32, y: i32, color: u8)
        requires
            old(self).wf(),
            0 <= xb < 240,
            -0x0400_0000 <= x <= 0x0400_0000,
        ensures
            final(self).wf(),
            final(self).pixels@.len() == old(self).pixels@.len(),
            forall|i: int|
                0 <= i < 240 * 160 ==> final(self).pixels@[i] == old(self).pixels@[i]
                    || final(self).pixels@[i] == color,
            forall|i: int|
                0 <= i < 240 * 160 && !(y * 240 <= i < y * 240 + 240) ==> final(self).pixels@[i]
                    == old(self).pixels@[i],
            final(self).x_bounds@ == old(self).x_bounds@,
            (0 <= y < 160 && 0 <= x < 240) ==> row_has_color(final(self).pixels@, y as int, color),
            0 <= y < 160 ==> forall|col: int|
                in_seg(col, x as int, xb as int) && 0 <= col < 240 ==> final(self).pixels@[
                    #[trigger] pix_index(col, y as int)] == color,
    {
        let (start, end) = if x > xb {
            (xb, x)
        } else {
            (x, xb)
        };
        self.draw_point(start, y, color);
        let ghost anchor: int = start as int;
        proof {
            if 0 <= y < 160 && 0 <= x < 240 {
                assert(0 <= anchor < 240);
                assert(self.pixels@[pix_index(anchor, y as int)] == color);
            }
        }
        let mut cx: i32 = start;
        while cx < end
            invariant
                self.wf(),
                old(self).wf(),
                0 <= xb < 240,
                start <= cx <= end,
                anchor == start as int,
                (start == x && end == xb) || (start == xb && end == x),
                start <= xb <= end,
                (0 <= y < 160 && 0 <= x < 240) ==> 0 <= anchor < 240,
                self.pixels@.len() == old(self).pixels@.len(),
                forall|i: int|
                    0 <= i < 240 * 160 ==> self.pixels@[i] == old(self).pixels@[i]
                        || self.pixels@[i] == color,
                forall|i: int|
                    0 <= i < 240 * 160 && !(y * 240 <= i < y * 240 + 240) ==> self.pixels@[i]
                        == old(self).pixels@[i],
                self.x_bounds@ == old(self).x_bounds@,
                (0 <= y < 160 && 0 <= x < 240) ==> self.pixels@[pix_index(anchor, y as int)]
                    == color,
                (0 <= y < 160 && 0 <= start < 240) ==> self.pixels@[pix_index(start as int, y as int)]
                    == color,
                0 <= y < 160 ==> forall|col: int|
                    start <= col < cx && 0 <= col < 240 ==> self.pixels@[
                        #[trigger] pix_index(col, y as int)] == color,
                (0 <= y < 160 && start < cx && 0 <= cx <= 239 && cx % 2 == 1) ==> self.pixels@[
                    pix_index(cx as int, y as int)] == color,
            decreases end - cx,
        {
            let even: bool = cx.checked_rem_euclid(2).unwrap() == 0;
            if even && 0 <= cx && cx <= 239 {
                self.draw_wide_point(cx, y, color);
            }
            cx = cx + 1;
        }
        self.draw_point(end, y, color);
        proof {
            if 0 <= y < 160 && 0 <= x < 240 {
                assert(self.pixels@[pix_index(anchor, y as int)] == color);
            }
            if 0 <= y < 160 {
                assert forall|col: int| in_seg(col, x as int, xb as int) && 0 <= col < 240
                    implies self.pixels@[#[trigger] pix_index(col, y as int)] == color by {
                    assert(start <= col <= end);
                }
            }
        }
    }

    /// Filled-triangle scan conversion via dual short-edge tracking: record
    /// the x reached by the two short edges on every row, then walk the long
    /// edge and fill one horizontal span per row.  Writes only the fill
    /// color, touches only the rows the triangle covers, clamps every write
    /// to the display, and, for a triangle whose truncated vertices all lie
    /// on the display, paints at least one pixel on every covered row.
    #[verifier::rlimit(100)]
    pub fn draw_tri(&mut self, tri: &Triangle2D, color: u8)
        requires
            old(self).wf(),
        ensures
            final(self).wf(),
            final(self).pixels@.len() == old(self).pixels@.len(),
            forall|i: int|
                0 <= i < 240 * 160 ==> final(self).pixels@[i] == old(self).pixels@[i]
                    || final(self).pixels@[i] == color,
            tri_trunc_in_bounds(*tri) ==> forall|row: int|
                tri_min_y(*tri) <= row <= tri_max_y(*tri) ==> #[trigger] row_has_color(
                    final(self).pixels@,
                    row,
                    color,
                ),
            forall|col: int, row: int|
                pix_in_bounds(col, row) && !(tri_min_y(*tri) <= row <= tri_max_y(*tri))
                    ==> final(self).pixels@[#[trigger] pix_index(col, row)] == old(self).pixels@[
                    pix_index(col, row)],
    {
        let t0 = (tri[0].x.trunc(), tri[0].y.trunc());
        let t1 = (tri[1].x.trunc(), tri[1].y.trunc());
        let t2 = (tri[2].x.trunc(), tri[2].y.trunc());
        let m = middle_index(t0.1, t1.1, t2.1);
        let (pm, po0, po1) = if m == 0 {
            (t0, t1, t2)
        } else if m == 1 {
            (t1, t0, t2)
        } else {
            (t2, t0, t1)
        };
        proof {
            assert(in_seg(pm.1 as int, po0.1 as int, po1.1 as int));
            assert(tri_min_y(*tri) == if po0.1 <= po1.1 {
                po0.1 as int
            } else {
                po1.1 as int
            });
            assert(tri_max_y(*tri) == if po0.1 >= po1.1 {
                po0.1 as int
            } else {
                po1.1 as int
            });
        }
        self.record_bounds(pm, po0);
        self.record_bounds(pm, po1);
        let pts = line_points(po0, po1);
        let ghost d: int = sign_of(po1.1 - po0.1);
        let mut prev_y: i32 = -1;
        let mut j: usize = 0;
        while j < pts.len()
            invariant
                self.wf(),
                self.pixels@.len() == old(self).pixels@.len(),
                j <= pts@.len(),
                pts@.len() >= 1,
                pts@[0] == po0,
                pts@[pts@.len() - 1] == po1,
                d == sign_of(po1.1 - po0.1),
                -524288 <= po0.0 <= 524288,
                -524288 <= po0.1 <= 524288,
                -524288 <= po1.0 <= 524288,
                -524288 <= po1.1 <= 524288,
                tri_min_y(*tri) == if po0.1 <= po1.1 {
                    po0.1 as int
                } else {
                    po1.1 as int
                },
                tri_max_y(*tri) == if po0.1 >= po1.1 {
                    po0.1 as int
                } else {
                    po1.1 as int
                },
                forall|k: int|
                    0 <= k < pts@.len() ==> in_seg(
                        (#[trigger] pts@[k]).0 as int,
                        po0.0 as int,
                        po1.0 as int,
                    ) && in_seg(pts@[k].1 as int, po0.1 as int, po1.1 as int),
                forall|k: int|
                    0 <= k < pts@.len() - 1 ==> ((#[trigger] pts@[k + 1]).1 == pts@[k].1 || pts@[k
                        + 1].1 as int == pts@[k].1 + d),
                forall|i: int|
                    0 <= i < 240 * 160 ==> self.pixels@[i] == old(self).pixels@[i]
                        || self.pixels@[i] == color,
                forall|col: int, row: int|
                    pix_in_bounds(col, row) && !in_seg(row, po0.1 as int, po1.1 as int)
                        ==> self.pixels@[#[trigger] pix_index(col, row)] == old(self).pixels@[
                        pix_index(col, row)],
                tri_trunc_in_bounds(*tri) ==> pix_in_bounds(po0.0 as int, po0.1 as int)
                    && pix_in_bounds(po1.0 as int, po1.1 as int),
                j == 0 ==> prev_y == -1,
                tri_trunc_in_bounds(*tri) && j > 0 ==> prev_y as int == pts@[j - 1].1,
                tri_trunc_in_bounds(*tri) && j > 0 ==> forall|row: int|
                    in_seg(row, po0.1 as int, pts@[j - 1].1 as int) ==> #[trigger] row_has_color(
                        self.pixels@,
                        row,
                        color,
                    ),
            decreases pts@.len() - j,
        {
            let ghost pix_before = self.pixels@;
            let (x, yy) = pts[j];
            let mut drew: bool = false;
            if prev_y != yy && 0 <= yy && yy < 160 {
                let xb = self.x_bounds[yy as usize];
                self.draw_span(x, xb, yy, color);
                prev_y = yy;
                drew = true;
            }
            proof {
                if tri_trunc_in_bounds(*tri) {
                    assert(0 <= x < 240 && 0 <= yy < 160);
                    if j == 0 {
                        assert(yy as int == po0.1 as int);
                        assert(drew);
                        assert forall|row: int| in_seg(row, po0.1 as int, pts@[j as int].1 as int)
                            implies #[trigger] row_has_color(self.pixels@, row, color) by {
                            assert(row == yy as int);
                            assert(exists|col: int|
                                0 <= col < 240 && self.pixels@[pix_index(col, row)] == color);
                        }
                    } else {
                        if drew {
                            assert forall|row: int|
                                in_seg(row, po0.1 as int, pts@[j as int].1 as int)
                                implies #[trigger] row_has_color(self.pixels@, row, color) by {
                                if row == yy as int {
                                    assert(exists|col: int|
                                        0 <= col < 240 && self.pixels@[pix_index(col, row)]
                                            == color);
                                } else {
                                    assert(pts@[j - 1 + 1].1 == pts@[j - 1].1 || pts@[j - 1
                                        + 1].1 as int == pts@[j - 1].1 + d);
                                    assert(in_seg(
                                        pts@[j as int].1 as int,
                                        po0.1 as int,
                                        po1.1 as int,
                                    ));
                                    assert(in_seg(
                                        pts@[j - 1].1 as int,
                                        po0.1 as int,
                                        po1.1 as int,
                                    ));
                                    assert(in_seg(row, po0.1 as int, pts@[j - 1].1 as int));
                                    assert(row_has_color(pix_before, row, color));
                                    let w = choose|col: int|
                                        0 <= col < 240 && pix_before[pix_index(col, row)] == color;
                                    assert(pix_index(w, row) != pix_index(w, yy as int));
                                    assert(0 <= pix_index(w, row) < 240 * 160);
                                    assert(!(yy * 240 <= pix_index(w, row) < yy * 240 + 240));
                                    assert(self.pixels@[pix_index(w, row)] == color);
                                }
                            }
                        } else {
                            assert(yy == prev_y);
                            assert(pts@[j as int].1 == pts@[j - 1].1);
                        }
                    }
                }
            }
            j = j + 1;
        }
        proof {
            if tri_trunc_in_bounds(*tri) {
                assert(pts@[pts@.len() - 1].1 == po1.1);
            }
        }
    }
}

impl View for Bitmap {
    type V = Bitmap;

    open spec fn view(&self) -> Bitmap {
        *self
    }
}

/// The two rasterization routines, as an interface over a drawable surface.
pub trait Draw: View<V = Bitmap> {
    /// Draws the digital line between two pixel-truncated endpoints,
    /// painting only the line color; both endpoints are painted whenever
    /// they are on the display.
    fn draw_line(&mut self, a: Vector2D, b: Vector2D, color: u8)
        requires
            old(self)@.wf(),
        ensures
            final(self)@.wf(),
            final(self)@.pixels@.len() == old(self)@.pixels@.len(),
            forall|i: int|
                0 <= i < 240 * 160 ==> final(self)@.pixels@[i] == old(self)@.pixels@[i]
                    || final(self)@.pixels@[i] == color,
            pix_in_bounds(tpt_x(a), tpt_y(a)) ==> final(self)@.pixels@[pix_index(
                tpt_x(a),
                tpt_y(a),
            )] == color,
            pix_in_bounds(tpt_x(b), tpt_y(b)) ==> final(self)@.pixels@[pix_index(
                tpt_x(b),
                tpt_y(b),
            )] == color,
    ;

    /// Scan-fills a triangle, painting only the fill color; for a triangle
    /// whose truncated vertices all lie on the display, every row between
    /// its lowest and highest row gets at least one filled pixel.
    fn draw_tri(&mut self, tri: &Triangle2D, color: u8)
        requires
            old(self)@.wf(),
        ensures
            final(self)@.wf(),
            final(self)@.pixels@.len() == old(self)@.pixels@.len(),
            forall|i: int|
                0 <= i < 240 * 160 ==> final(self)@.pixels@[i] == old(self)@.pixels@[i]
                    || final(self)@.pixels@[i] == color,
            tri_trunc_in_bounds(*tri) ==> forall|row: int|
                tri_min_y(*tri) <= row <= tri_max_y(*tri) ==> #[trigger] row_has_color(
                    final(self)@.pixels@,
                    row,
                    color,
                ),
    ;
}

impl Draw for Bitmap {
    fn draw_line(&mut self, a: Vector2D, b: Vector2D, color: u8) {
        Bitmap::draw_line(self, a, b, color)
    }

    fn draw_tri(&mut self, tri: &Triangle2D, color: u8) {
        Bitmap::draw_tri(self, tri, color)
    }
}

} // verus!
