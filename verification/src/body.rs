//! Rigid bodies: force accumulation, explicit Euler integration, and
//! axis-aligned rectangle rasterization.

use vstd::prelude::*;
use crate::arith::{SCALE, LIM, tdiv, div_trunc, lemma_tdiv_abs_bound};
use crate::vector::{Vector, add_s, scale_s, divf_s};
use crate::buffer::PixelBuffer;
use crate::renderable::Renderable;

verus! {

/// An axis-aligned rectangular rigid body.
#[derive(Clone, Copy, Debug, PartialEq, Eq)]
pub struct BoxBody {
    pub position: Vector,
    pub velocity: Vector,
    pub acceleration: Vector,
    pub render_box: (i64, i64),
    pub color: u32,
    pub mass: i64,
    pub is_static: bool,
}

/// The body after a force is applied: a static body ignores it; a dynamic
/// body accumulates `force / mass` into its acceleration.
pub open spec fn forced_s(b: BoxBody, force: Vector) -> BoxBody {
    if b.is_static {
        b
    } else {
        BoxBody { acceleration: add_s(b.acceleration, divf_s(force, b.mass as int)), ..b }
    }
}

/// The body after one explicit Euler step: velocity first, then position
/// with the new velocity.
pub open spec fn stepped_s(b: BoxBody, dt: int) -> BoxBody {
    let v2 = add_s(b.velocity, scale_s(b.acceleration, dt));
    BoxBody { velocity: v2, position: add_s(b.position, scale_s(v2, dt)), ..b }
}

/// Leftmost pixel column of the body's rectangle (inclusive).
pub open spec fn rect_lx(b: BoxBody) -> int {
    tdiv(b.position.x - tdiv(b.render_box.0 as int, 2), SCALE as int)
}

/// Rightmost pixel column of the body's rectangle (exclusive).
pub open spec fn rect_rx(b: BoxBody) -> int {
    tdiv(b.position.x + tdiv(b.render_box.0 as int, 2), SCALE as int)
}

/// Topmost pixel row of the body's rectangle (inclusive).
pub open spec fn rect_ty(b: BoxBody) -> int {
    tdiv(b.position.y - tdiv(b.render_box.1 as int, 2), SCALE as int)
}

/// Bottommost pixel row of the body's rectangle (exclusive).
pub open spec fn rect_by(b: BoxBody) -> int {
    tdiv(b.position.y + tdiv(b.render_box.1 as int, 2), SCALE as int)
}

impl BoxBody {
    /// Kinematic state is in range; a dynamic body has positive mass.
    pub open spec fn wf(&self) -> bool {
        &&& self.position.wf()
        &&& self.velocity.wf()
        &&& self.acceleration.wf()
        &&& 0 <= self.render_box.0 <= LIM
        &&& 0 <= self.render_box.1 <= LIM
        &&& (self.is_static || 1 <= self.mass <= LIM)
    }

    /// A dynamic body, initially at rest.
    pub fn new(position: Vector, render_box: (i64, i64), color: u32, mass: i64) -> (b: BoxBody)
        requires
            position.wf(),
            0 <= render_box.0 <= LIM,
            0 <= render_box.1 <= LIM,
            1 <= mass <= LIM,
        ensures
            b == (BoxBody {
                position,
                velocity: Vector { x: 0, y: 0 },
                acceleration: Vector { x: 0, y: 0 },
                render_box,
                color,
                mass,
                is_static: false,
            }),
            b.wf(),
    {
        BoxBody {
            position,
            velocity: Vector::new(0, 0),
            acceleration: Vector::new(0, 0),
            render_box,
            color,
            mass,
            is_static: false,
        }
    }

    /// A static body: forces never move it, but a constant velocity assigned
    /// here still advances it each step (a moving anchor).
    pub fn new_static(position: Vector, render_box: (i64, i64), color: u32, velocity: Vector) -> (b:
        BoxBody)
        requires
            position.wf(),
            velocity.wf(),
            0 <= render_box.0 <= LIM,
            0 <= render_box.1 <= LIM,
        ensures
            b == (BoxBody {
                position,
                velocity,
                acceleration: Vector { x: 0, y: 0 },
                render_box,
                color,
                mass: 0,
                is_static: true,
            }),
            b.wf(),
    {
        BoxBody {
            position,
            velocity,
            acceleration: Vector::new(0, 0),
            render_box,
            color,
            mass: 0,
            is_static: true,
        }
    }

    pub fn get_acceleration(&self) -> (a: Vector)
        ensures
            a == self.acceleration,
    {
        self.acceleration
    }

    pub fn set_acceleration(&mut self, acceleration: Vector)
        ensures
            *final(self) == (BoxBody { acceleration, ..*old(self) }),
    {
        self.acceleration = acceleration;
    }

    pub fn get_velocity(&self) -> (v: Vector)
        ensures
            v == self.velocity,
    {
        self.velocity
    }

    pub fn set_velocity(&mut self, velocity: Vector)
        ensures
            *final(self) == (BoxBody { velocity, ..*old(self) }),
    {
        self.velocity = velocity;
    }
}

impl Renderable for BoxBody {
    open spec fn rd_wf(&self) -> bool {
        self.wf()
    }

    /// Fill every pixel of the axis-aligned box
    /// `[x - w/2, x + w/2) x [y - h/2, y + h/2)`, in pixel coordinates
    /// truncated from fixed point; out-of-bounds pixels are skipped.
    fn render(&self, buffer: &mut PixelBuffer)
        ensures
            forall|px: int, py: int|
                0 <= px < old(buffer).w() && 0 <= py < old(buffer).h()
                    ==> #[trigger] final(buffer).pix(px, py) == (if rect_lx(*self) <= px
                        < rect_rx(*self) && rect_ty(*self) <= py < rect_by(*self) {
                        self.color
                    } else {
                        old(buffer).pix(px, py)
                    }),
    {
        let half_w: i64 = div_trunc(self.render_box.0, 2);
        let half_h: i64 = div_trunc(self.render_box.1, 2);
        let lx: i64 = div_trunc(self.position.x - half_w, SCALE);
        let rx: i64 = div_trunc(self.position.x + half_w, SCALE);
        let ty: i64 = div_trunc(self.position.y - half_h, SCALE);
        let by: i64 = div_trunc(self.position.y + half_h, SCALE);
        let mut i: i64 = lx;
        while i < rx
            invariant
                buffer.wf(),
                buffer.w() == old(buffer).w(),
                buffer.h() == old(buffer).h(),
                lx <= i,
                i <= rx || i == lx,
                lx == rect_lx(*self),
                rx == rect_rx(*self),
                ty == rect_ty(*self),
                by == rect_by(*self),
                forall|px: int, py: int|
                    0 <= px < old(buffer).w() && 0 <= py < old(buffer).h()
                        ==> #[trigger] buffer.pix(px, py) == (if lx <= px < i && ty <= py < by {
                            self.color
                        } else {
                            old(buffer).pix(px, py)
                        }),
            decreases rx - i,
        {
            let mut j: i64 = ty;
            while j < by
                invariant
                    buffer.wf(),
                    buffer.w() == old(buffer).w(),
                    buffer.h() == old(buffer).h(),
                    lx <= i < rx,
                    ty <= j,
                    j <= by || j == ty,
                    forall|px: int, py: int|
                        0 <= px < old(buffer).w() && 0 <= py < old(buffer).h()
                            ==> #[trigger] buffer.pix(px, py) == (if (lx <= px < i && ty <= py < by)
                                || (px == i && ty <= py < j) {
                                self.color
                            } else {
                                old(buffer).pix(px, py)
                            }),
                decreases by - j,
            {
                buffer.set_pixel(i, j, self.color);
                j = j + 1;
            }
            i = i + 1;
        }
    }

    /// Explicit (forward) Euler: `velocity += acceleration * dt;
    /// position += velocity * dt`, exactly, saturating at the world bound.
    fn update(&mut self, dt: i64)
        ensures
            *final(self) == stepped_s(*old(self), dt as int),
    {
        self.velocity = self.velocity.add(self.acceleration.mul(dt));
        self.position = self.position.add(self.velocity.mul(dt));
    }
}

/// A static body is entirely unaffected by force application, however large
/// the force.
pub proof fn lemma_static_ignores_force(b: BoxBody, force: Vector)
    requires
        b.is_static,
    ensures
        forced_s(b, force) == b,
{
}

/// A static body still advances under integration when it carries a nonzero
/// velocity: with zero acceleration and a timestep large enough that the
/// displacement does not truncate to zero (and no saturation), the position
/// changes.
pub proof fn lemma_update_moves(b: BoxBody, dt: int)
    requires
        b.wf(),
        0 <= dt <= LIM,
        b.acceleration == (Vector { x: 0i64, y: 0i64 }),
        tdiv(b.velocity.x * dt, SCALE as int) != 0,
        -LIM < b.position.x + tdiv(b.velocity.x * dt, SCALE as int) < LIM,
    ensures
        stepped_s(b, dt).position.x != b.position.x,
        stepped_s(b, dt).velocity == b.velocity,
{
    assert(0 * dt == 0);
    assert(tdiv(0, SCALE as int) == 0);
    let v2 = add_s(b.velocity, scale_s(b.acceleration, dt));
    assert(v2 == b.velocity);
    lemma_tdiv_abs_bound(b.velocity.x * dt, SCALE as int, 0x1000_0000_0000_0000);
}

/// Explicit Euler integration is exact in fixed point: away from the
/// saturation bound, one step yields precisely `v' = v + a * dt` and
/// `p' = p + v' * dt` with truncating fixed-point products.
pub proof fn lemma_euler_exact(b: BoxBody, dt: int)
    requires
        b.wf(),
        0 <= dt <= LIM,
        -LIM <= b.velocity.x + tdiv(b.acceleration.x * dt, SCALE as int) <= LIM,
        -LIM <= b.velocity.y + tdiv(b.acceleration.y * dt, SCALE as int) <= LIM,
        -LIM <= tdiv(b.acceleration.x * dt, SCALE as int) <= LIM,
        -LIM <= tdiv(b.acceleration.y * dt, SCALE as int) <= LIM,
        -LIM <= b.position.x + tdiv(
            (b.velocity.x + tdiv(b.acceleration.x * dt, SCALE as int)) * dt,
            SCALE as int,
        ) <= LIM,
        -LIM <= b.position.y + tdiv(
            (b.velocity.y + tdiv(b.acceleration.y * dt, SCALE as int)) * dt,
            SCALE as int,
        ) <= LIM,
        -LIM <= tdiv(
            (b.velocity.x + tdiv(b.acceleration.x * dt, SCALE as int)) * dt,
            SCALE as int,
        ) <= LIM,
        -LIM <= tdiv(
            (b.velocity.y + tdiv(b.acceleration.y * dt, SCALE as int)) * dt,
            SCALE as int,
        ) <= LIM,
    ensures
        stepped_s(b, dt).velocity.x == b.velocity.x + tdiv(b.acceleration.x * dt, SCALE as int),
        stepped_s(b, dt).velocity.y == b.velocity.y + tdiv(b.acceleration.y * dt, SCALE as int),
        stepped_s(b, dt).position.x == b.position.x + tdiv(
            stepped_s(b, dt).velocity.x * dt,
            SCALE as int,
        ),
        stepped_s(b, dt).position.y == b.position.y + tdiv(
            stepped_s(b, dt).velocity.y * dt,
            SCALE as int,
        ),
{
}

/// The force-bearing capability of a body.
pub trait Body {
    /// The body's own well-formedness invariant.
    spec fn body_wf(&self) -> bool;

    /// The body's current position.
    spec fn pos_spec(&self) -> Vector;

    /// Receive a force; a body's position is never changed by force
    /// application.
    fn apply_force(&mut self, force: Vector)
        requires
            old(self).body_wf(),
            force.wf(),
        ensures
            final(self).body_wf(),
            final(self).pos_spec() == old(self).pos_spec(),
    ;

    /// The current position.
    fn get_position(&self) -> (p: Vector)
        requires
            self.body_wf(),
        ensures
            p == self.pos_spec(),
            p.wf(),
    ;
}

impl Body for BoxBody {
    open spec fn body_wf(&self) -> bool {
        self.wf()
    }

    open spec fn pos_spec(&self) -> Vector {
        self.position
    }

    /// A static body ignores forces entirely; a dynamic one accumulates
    /// `force / mass` into its acceleration. Velocity and position are
    /// untouched either way.
    fn apply_force(&mut self, force: Vector)
        ensures
            *final(self) == forced_s(*old(self), force),
    {
        if self.is_static {
            return ;
        }
        self.acceleration = self.acceleration.add(force.div(self.mass));
    }

    fn get_position(&self) -> (p: Vector)
    {
        self.position
    }
}

} // verus!
