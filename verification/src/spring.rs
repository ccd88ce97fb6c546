//! Hooke-law springs between two bodies: symmetric force application,
//! extension-dependent display color, and a thick-line rasterization.

use vstd::prelude::*;
use vstd::math::abs;
use crate::arith::{SCALE, LIM, tdiv, cl, clamp64, div_trunc, lemma_mul_bound, lemma_tdiv_range, lemma_tdiv_abs_bound, lemma_tdiv_neg};
use crate::vector::{Vector, sub_s, neg_s, mag_s, norm2, divf_s, scale_s};
use crate::body::{BoxBody, Body, forced_s};
use crate::buffer::PixelBuffer;

verus! {

/// Largest admissible spring constant.
pub const PARAM_MAX: i64 = 0x10_0000;

/// Distance between two positions, in fixed point (rounded down).
pub open spec fn dist_s(pa: Vector, pb: Vector) -> int {
    mag_s(sub_s(pb, pa))
}

/// The Hooke-law force a spring applies to its second endpoint: zero at
/// zero distance (the guarded degenerate case), otherwise
/// `direction * (-k * (distance - rest))`. The first endpoint receives the
/// exact negation.
pub open spec fn spring_force_s(pa: Vector, pb: Vector, rest: int, k: int) -> Vector {
    let disp = sub_s(pb, pa);
    let d = mag_s(disp);
    if d == 0 {
        Vector { x: 0, y: 0 }
    } else {
        let dir = divf_s(disp, d);
        let fm = cl(tdiv(-k * (d - rest), SCALE as int));
        scale_s(dir, fm as int)
    }
}

/// Display color for a spring of extension `d - rest`: red shading toward
/// green as the extension grows, the green channel clamped to one byte.
pub open spec fn spring_color_s(d: int, rest: int) -> u32 {
    let g = tdiv(255 * (d - rest), 100 * SCALE as int);
    let gc = if g < 0 {
        0
    } else if g > 255 {
        255
    } else {
        g
    };
    (0xFF0000 + gc * 0x100) as u32
}

/// The pixel row drawn at column `px` for an x-major line from `(x1, y1)`
/// with deltas `(dx, dy)`.
pub open spec fn xmaj_y(x1: int, y1: int, dx: int, dy: int, px: int) -> int {
    y1 + tdiv(dy * (px - x1), dx)
}

/// The pixel column drawn at row `py` for a y-major line from `(sx, sy)`
/// with deltas `(dx, dy)`.
pub open spec fn ymaj_x(sx: int, sy: int, dx: int, dy: int, py: int) -> int {
    sx + tdiv(dx * (py - sy), dy)
}

/// Whether pixel `(px, py)` belongs to the 3-pixel-thick line between the
/// truncated pixel positions of `pa` and `pb`: step along the major axis,
/// interpolate the minor coordinate by integer-scaled division, and thicken
/// by one pixel on each side across the minor axis. A degenerate segment
/// (both deltas zero) is a single point.
pub open spec fn line_covers(pa: Vector, pb: Vector, px: int, py: int) -> bool {
    let ox1 = tdiv(pa.x as int, SCALE as int);
    let oy1 = tdiv(pa.y as int, SCALE as int);
    let ox2 = tdiv(pb.x as int, SCALE as int);
    let oy2 = tdiv(pb.y as int, SCALE as int);
    let x1 = if ox1 > ox2 { ox2 } else { ox1 };
    let y1 = if ox1 > ox2 { oy2 } else { oy1 };
    let x2 = if ox1 > ox2 { ox1 } else { ox2 };
    let y2 = if ox1 > ox2 { oy1 } else { oy2 };
    let dx = x2 - x1;
    let dy = y2 - y1;
    if dx == 0 && dy == 0 {
        px == x1 && py == y1
    } else if dx >= abs(dy) {
        &&& x1 <= px <= x2
        &&& xmaj_y(x1, y1, dx, dy, px) - 1 <= py <= xmaj_y(x1, y1, dx, dy, px) + 1
    } else {
        let sx = if y1 > y2 { x2 } else { x1 };
        let sy = if y1 > y2 { y2 } else { y1 };
        let ey = if y1 > y2 { y1 } else { y2 };
        &&& sy <= py <= ey
        &&& ymaj_x(sx, sy, dx, dy, py) - 1 <= px <= ymaj_x(sx, sy, dx, dy, py) + 1
    }
}

/// A spring together with the indices of its two endpoint bodies in the
/// orchestrator's body collection (springs do not own their bodies).
#[derive(Clone, Copy, Debug, PartialEq, Eq)]
pub struct SpringLink {
    pub spring: Spring,
    pub body_a: usize,
    pub body_b: usize,
}

/// At rest length the spring force vanishes: whenever the distance between
/// the endpoints equals the rest length, no force is applied to either body.
pub proof fn lemma_spring_force_at_rest(pa: Vector, pb: Vector, rest: int, k: int)
    requires
        dist_s(pa, pb) == rest,
    ensures
        spring_force_s(pa, pb, rest, k) == (Vector { x: 0i64, y: 0i64 }),
{
    let disp = sub_s(pb, pa);
    let d = mag_s(disp);
    if d != 0 {
        assert(-k * (d - rest) == 0) by (nonlinear_arith)
            requires d == rest;
        assert(tdiv(0, SCALE as int) == 0);
        let dir = divf_s(disp, d);
        assert(dir.x * 0 == 0);
        assert(dir.y * 0 == 0);
        assert(cl(0) == 0);
    }
}

/// Newton's third law for the spring: swapping the two endpoints negates
/// the force exactly, so what one body receives is the exact negation of
/// what the other receives.
pub proof fn lemma_spring_force_antisymmetric(pa: Vector, pb: Vector, rest: int, k: int)
    requires
        pa.wf(),
        pb.wf(),
    ensures
        spring_force_s(pb, pa, rest, k) == neg_s(spring_force_s(pa, pb, rest, k)),
{
    let disp = sub_s(pb, pa);
    let rdisp = sub_s(pa, pb);
    assert(rdisp == neg_s(disp));
    assert((-disp.x) * (-disp.x) == disp.x * disp.x && (-disp.y) * (-disp.y) == disp.y * disp.y)
        by (nonlinear_arith);
    assert(norm2(rdisp) == norm2(disp));
    let d = mag_s(disp);
    if d != 0 {
        let fm = cl(tdiv(-k * (d - rest), SCALE as int));
        assert((-disp.x) * SCALE == -(disp.x * SCALE) && (-disp.y) * SCALE == -(disp.y * SCALE))
            by (nonlinear_arith);
        lemma_tdiv_neg(disp.x * SCALE, d);
        lemma_tdiv_neg(disp.y * SCALE, d);
        let dir = divf_s(disp, d);
        let rdir = divf_s(rdisp, d);
        assert(rdir == neg_s(dir));
        assert((-dir.x) * fm == -(dir.x * fm) && (-dir.y) * fm == -(dir.y * fm))
            by (nonlinear_arith);
        lemma_tdiv_neg(dir.x * fm, SCALE as int);
        lemma_tdiv_neg(dir.y * fm, SCALE as int);
        assert(scale_s(rdir, fm as int) == neg_s(scale_s(dir, fm as int)));
    }
}

/// An idealized spring connecting two bodies it does not own.
#[derive(Clone, Copy, Debug, PartialEq, Eq)]
pub struct Spring {
    pub rest_length: i64,
    pub spring_constant: i64,
    pub color: u32,
}

impl Spring {
    /// Rest length is nonnegative and the spring constant positive and
    /// bounded.
    pub open spec fn wf(&self) -> bool {
        &&& 0 <= self.rest_length <= LIM
        &&& 1 <= self.spring_constant <= PARAM_MAX
    }

    pub fn new(rest_length: i64, spring_constant: i64, color: u32) -> (s: Spring)
        requires
            0 <= rest_length <= LIM,
            1 <= spring_constant <= PARAM_MAX,
        ensures
            s == (Spring { rest_length, spring_constant, color }),
            s.wf(),
    {
        Spring { rest_length, spring_constant, color }
    }

    /// Apply the spring force to both endpoints, equal and opposite: `body2`
    /// receives the Hooke force, `body1` its exact negation. At zero
    /// distance no force is applied to either body.
    pub fn apply_force(&self, body1: &mut BoxBody, body2: &mut BoxBody)
        requires
            self.wf(),
            old(body1).wf(),
            old(body2).wf(),
        ensures
            *final(body1) == forced_s(
                *old(body1),
                neg_s(
                    spring_force_s(
                        old(body1).position,
                        old(body2).position,
                        self.rest_length as int,
                        self.spring_constant as int,
                    ),
                ),
            ),
            *final(body2) == forced_s(
                *old(body2),
                spring_force_s(
                    old(body1).position,
                    old(body2).position,
                    self.rest_length as int,
                    self.spring_constant as int,
                ),
            ),
            final(body1).wf(),
            final(body2).wf(),
    {
        let displacement = body2.get_position().sub(body1.get_position());
        let distance = displacement.magnitude();
        if distance != 0 {
            let direction = displacement.div(distance);
            let ext: i64 = distance - self.rest_length;
            proof {
                lemma_mul_bound(self.spring_constant as int, ext as int, PARAM_MAX as int,
                    0x1_4000_0000);
            }
            let force_magnitude: i64 = clamp64(div_trunc(-(self.spring_constant * ext), SCALE));
            let force = direction.mul(force_magnitude);
            proof {
                let d = mag_s(sub_s(old(body2).position, old(body1).position));
                assert((-(self.spring_constant * ext)) as int == -self.spring_constant * (d
                    - self.rest_length)) by (nonlinear_arith)
                    requires
                        ext == d - self.rest_length,
                        -0x14_0000_0000_0000 <= self.spring_constant * ext <= 0x14_0000_0000_0000,
                ;
            }
            body1.apply_force(force.neg());
            body2.apply_force(force);
        } else {
            proof {
                let f = spring_force_s(old(body1).position, old(body2).position,
                    self.rest_length as int, self.spring_constant as int);
                assert(f == (Vector { x: 0i64, y: 0i64 }));
                if !old(body1).is_static {
                    assert(tdiv(0 * SCALE, old(body1).mass as int) == 0);
                }
                if !old(body2).is_static {
                    assert(tdiv(0 * SCALE, old(body2).mass as int) == 0);
                }
                assert(*old(body1) == forced_s(*old(body1), neg_s(f)));
                assert(*old(body2) == forced_s(*old(body2), f));
            }
        }
    }

    /// Apply the spring force, then refresh the display color from the
    /// current extension.
    pub fn update(&mut self, dt: i64, body1: &mut BoxBody, body2: &mut BoxBody)
        requires
            old(self).wf(),
            old(body1).wf(),
            old(body2).wf(),
            0 <= dt,
        ensures
            *final(body1) == forced_s(
                *old(body1),
                neg_s(
                    spring_force_s(
                        old(body1).position,
                        old(body2).position,
                        old(self).rest_length as int,
                        old(self).spring_constant as int,
                    ),
                ),
            ),
            *final(body2) == forced_s(
                *old(body2),
                spring_force_s(
                    old(body1).position,
                    old(body2).position,
                    old(self).rest_length as int,
                    old(self).spring_constant as int,
                ),
            ),
            final(body1).wf(),
            final(body2).wf(),
            final(self).rest_length == old(self).rest_length,
            final(self).spring_constant == old(self).spring_constant,
            final(self).wf(),
            final(self).color == spring_color_s(
                dist_s(old(body1).position, old(body2).position),
                old(self).rest_length as int,
            ),
    {
        self.apply_force(body1, body2);
        let displacement = body2.get_position().sub(body1.get_position());
        let distance = displacement.magnitude();
        let ext: i64 = distance - self.rest_length;
        proof {
            lemma_mul_bound(255, ext as int, 255, 0x1_4000_0000);
        }
        let g: i64 = div_trunc(255 * ext, 100 * SCALE);
        let gc: i64 = if g < 0 {
            0
        } else if g > 255 {
            255
        } else {
            g
        };
        self.color = 0xFF0000u32 + (gc as u32) * 0x100;
    }

    /// Draw the spring as a 3-pixel-thick line between the truncated pixel
    /// positions of its endpoints; every write is bounds-checked and
    /// out-of-bounds pixels are skipped.
    pub fn render(&self, buffer: &mut PixelBuffer, body1: &BoxBody, body2: &BoxBody)
        requires
            body1.wf(),
            body2.wf(),
            old(buffer).wf(),
        ensures
            final(buffer).wf(),
            final(buffer).w() == old(buffer).w(),
            final(buffer).h() == old(buffer).h(),
            forall|px: int, py: int|
                0 <= px < old(buffer).w() && 0 <= py < old(buffer).h()
                    ==> #[trigger] final(buffer).pix(px, py) == (if line_covers(
                        body1.position,
                        body2.position,
                        px,
                        py,
                    ) {
                        self.color
                    } else {
                        old(buffer).pix(px, py)
                    }),
    {
        let p1 = body1.get_position();
        let p2 = body2.get_position();
        proof {
            lemma_tdiv_range(p1.x as int, SCALE as int, LIM as int);
            lemma_tdiv_range(p1.y as int, SCALE as int, LIM as int);
            lemma_tdiv_range(p2.x as int, SCALE as int, LIM as int);
            lemma_tdiv_range(p2.y as int, SCALE as int, LIM as int);
        }
        let x1: i64 = div_trunc(p1.x, SCALE);
        let y1: i64 = div_trunc(p1.y, SCALE);
        let x2: i64 = div_trunc(p2.x, SCALE);
        let y2: i64 = div_trunc(p2.y, SCALE);
        let ax: i64 = if x1 > x2 { x2 } else { x1 };
        let ay: i64 = if x1 > x2 { y2 } else { y1 };
        let bx: i64 = if x1 > x2 { x1 } else { x2 };
        let byv: i64 = if x1 > x2 { y1 } else { y2 };
        let dx: i64 = bx - ax;
        let dy: i64 = byv - ay;
        let ady: i64 = if dy < 0 { -dy } else { dy };
        if dx == 0 && dy == 0 {
            buffer.set_pixel(ax, ay, self.color);
        } else if dx >= ady {
            let mut i: i64 = ax;
            while i <= bx
                invariant
                    buffer.wf(),
                    buffer.w() == old(buffer).w(),
                    buffer.h() == old(buffer).h(),
                    ax <= i <= bx + 1,
                    dx == bx - ax,
                    dy == byv - ay,
                    1 <= dx,
                    -dx <= dy <= dx,
                    -0x21_0000 <= ax <= 0x21_0000,
                    -0x21_0000 <= ay <= 0x21_0000,
                    -0x21_0000 <= bx <= 0x21_0000,
                    forall|px: int, py: int|
                        0 <= px < old(buffer).w() && 0 <= py < old(buffer).h()
                            ==> #[trigger] buffer.pix(px, py) == (if ax <= px < i && xmaj_y(
                                ax as int,
                                ay as int,
                                dx as int,
                                dy as int,
                                px,
                            ) - 1 <= py <= xmaj_y(ax as int, ay as int, dx as int, dy as int, px)
                                + 1 {
                                self.color
                            } else {
                                old(buffer).pix(px, py)
                            }),
                decreases bx + 1 - i,
            {
                proof {
                    lemma_mul_bound(dy as int, i - ax, 0x42_0000, 0x42_0000);
                    lemma_tdiv_range(dy as int * (i - ax), dx as int, 0x1104_0400_0000);
                }
                let jc: i64 = ay + div_trunc(dy * (i - ax), dx);
                buffer.set_pixel(i, jc, self.color);
                buffer.set_pixel(i, jc + 1, self.color);
                buffer.set_pixel(i, jc - 1, self.color);
                i = i + 1;
            }
        } else {
            let sx: i64 = if ay > byv { bx } else { ax };
            let sy: i64 = if ay > byv { byv } else { ay };
            let ey: i64 = if ay > byv { ay } else { byv };
            let mut j: i64 = sy;
            while j <= ey
                invariant
                    buffer.wf(),
                    buffer.w() == old(buffer).w(),
                    buffer.h() == old(buffer).h(),
                    sy <= j <= ey + 1,
                    ey - sy == (if dy < 0 { -dy as int } else { dy as int }),
                    dy != 0,
                    0 <= dx,
                    -0x21_0000 <= sx <= 0x21_0000,
                    -0x21_0000 <= sy <= 0x21_0000,
                    -0x21_0000 <= ey <= 0x21_0000,
                    -0x21_0000 <= dy <= 0x21_0000 * 2,
                    -0x21_0000 * 2 <= dy,
                    dx <= 0x21_0000 * 2,
                    forall|px: int, py: int|
                        0 <= px < old(buffer).w() && 0 <= py < old(buffer).h()
                            ==> #[trigger] buffer.pix(px, py) == (if sy <= py < j && ymaj_x(
                                sx as int,
                                sy as int,
                                dx as int,
                                dy as int,
                                py,
                            ) - 1 <= px <= ymaj_x(sx as int, sy as int, dx as int, dy as int, py)
                                + 1 {
                                self.color
                            } else {
                                old(buffer).pix(px, py)
                            }),
                decreases ey + 1 - j,
            {
                proof {
                    lemma_mul_bound(dx as int, j - sy, 0x42_0000, 0x42_0000);
                    lemma_tdiv_abs_bound(dx as int * (j - sy), dy as int, 0x1104_0400_0000);
                }
                let ic: i64 = sx + div_trunc(dx * (j - sy), dy);
                buffer.set_pixel(ic, j, self.color);
                buffer.set_pixel(ic + 1, j, self.color);
                buffer.set_pixel(ic - 1, j, self.color);
                j = j + 1;
            }
        }
    }
}

} // verus!
