//! The frame orchestrator: owns the bodies, springs, pixel buffer and
//! trajectory trail, and runs one simulation step as
//! clear forces -> spring forces -> gravity -> integration -> rasterization
//! -> trail recording.

use vstd::prelude::*;
use crate::arith::{SCALE, LIM, tdiv, div_trunc, lemma_tdiv_range};
use crate::vector::{Vector, neg_s};
use crate::body::{BoxBody, Body, forced_s, stepped_s, rect_lx, rect_rx, rect_ty, rect_by};
use crate::renderable::Renderable;
use crate::spring::{Spring, SpringLink, spring_force_s, spring_color_s, dist_s, line_covers};
use crate::buffer::{PixelBuffer, MAX_DIM};
use crate::trail::{Trail, trail_push_s};

verus! {

/// Color of a recorded trail point.
pub const TRAIL_COLOR: u32 = 0xFFFFFF;

/// All dynamic bodies with their accelerations cleared.
pub open spec fn clear_map(bs: Seq<BoxBody>) -> Seq<BoxBody> {
    Seq::new(bs.len(), |i: int| cleared_s(bs[i]))
}

/// One body with its acceleration cleared; static bodies are untouched.
pub open spec fn cleared_s(b: BoxBody) -> BoxBody {
    if b.is_static {
        b
    } else {
        BoxBody { acceleration: Vector { x: 0, y: 0 }, ..b }
    }
}

/// One spring's symmetric force applied to its two endpoint bodies.
pub open spec fn apply_link_s(bs: Seq<BoxBody>, l: SpringLink) -> Seq<BoxBody>
    recommends
        l.body_a < bs.len(),
        l.body_b < bs.len(),
        l.body_a != l.body_b,
{
    let f = spring_force_s(
        bs[l.body_a as int].position,
        bs[l.body_b as int].position,
        l.spring.rest_length as int,
        l.spring.spring_constant as int,
    );
    bs.update(l.body_a as int, forced_s(bs[l.body_a as int], neg_s(f))).update(
        l.body_b as int,
        forced_s(bs[l.body_b as int], f),
    )
}

/// The first `n` springs' forces applied in declared order.
pub open spec fn apply_springs_s(bs: Seq<BoxBody>, ls: Seq<SpringLink>, n: int) -> Seq<BoxBody>
    decreases n,
{
    if n <= 0 {
        bs
    } else {
        apply_link_s(apply_springs_s(bs, ls, n - 1), ls[n - 1])
    }
}

/// Applying springs never changes how many bodies there are.
pub proof fn lemma_apply_springs_len(bs: Seq<BoxBody>, ls: Seq<SpringLink>, n: int)
    requires
        n <= ls.len(),
        forall|k: int|
            0 <= k < n ==> (#[trigger] ls[k]).body_a < bs.len() && ls[k].body_b < bs.len(),
    ensures
        apply_springs_s(bs, ls, n).len() == bs.len(),
    decreases n,
{
    if n > 0 {
        lemma_apply_springs_len(bs, ls, n - 1);
    }
}

/// One spring with its color refreshed from the current distance of its
/// endpoints.
pub open spec fn link_colored_s(bs: Seq<BoxBody>, l: SpringLink) -> SpringLink {
    SpringLink {
        spring: Spring {
            color: spring_color_s(
                dist_s(bs[l.body_a as int].position, bs[l.body_b as int].position),
                l.spring.rest_length as int,
            ),
            ..l.spring
        },
        ..l
    }
}

/// All springs with their colors refreshed against the given body state.
pub open spec fn color_map(bs: Seq<BoxBody>, ls: Seq<SpringLink>) -> Seq<SpringLink> {
    Seq::new(ls.len(), |i: int| link_colored_s(bs, ls[i]))
}

/// The constant gravity force applied to every body (static bodies ignore
/// it).
pub open spec fn gravity_map(bs: Seq<BoxBody>, g: Vector) -> Seq<BoxBody> {
    Seq::new(bs.len(), |i: int| forced_s(bs[i], g))
}

/// Every body advanced by one explicit Euler step.
pub open spec fn integrate_map(bs: Seq<BoxBody>, dt: int) -> Seq<BoxBody> {
    Seq::new(bs.len(), |i: int| stepped_s(bs[i], dt))
}

/// The physics pipeline of one frame: clear forces, apply springs in order,
/// apply gravity, integrate.
pub open spec fn step_bodies_s(bs: Seq<BoxBody>, ls: Seq<SpringLink>, g: Vector, dt: int) -> Seq<
    BoxBody,
> {
    integrate_map(gravity_map(apply_springs_s(clear_map(bs), ls, ls.len() as int), g), dt)
}

/// The trail after recording the positions of the first `n` bodies that are
/// dynamic, in index order.
pub open spec fn record_trail_s(tr: Seq<Vector>, cap: int, bs: Seq<BoxBody>, n: int) -> Seq<Vector>
    decreases n,
{
    if n <= 0 {
        tr
    } else {
        let prev = record_trail_s(tr, cap, bs, n - 1);
        if bs[n - 1].is_static {
            prev
        } else {
            trail_push_s(prev, cap, bs[n - 1].position)
        }
    }
}

/// The color of pixel `(px, py)` after the first `n` springs are drawn over
/// a frame cleared to `bg`; a later spring overdraws an earlier one.
pub open spec fn springs_pix(
    bs: Seq<BoxBody>,
    ls: Seq<SpringLink>,
    bg: u32,
    n: int,
    px: int,
    py: int,
) -> u32
    decreases n,
{
    if n <= 0 {
        bg
    } else if line_covers(
        bs[ls[n - 1].body_a as int].position,
        bs[ls[n - 1].body_b as int].position,
        px,
        py,
    ) {
        ls[n - 1].spring.color
    } else {
        springs_pix(bs, ls, bg, n - 1, px, py)
    }
}

/// The color of pixel `(px, py)` after the first `m` bodies are drawn on top
/// of the springs layer.
pub open spec fn bodies_pix(
    bs: Seq<BoxBody>,
    ls: Seq<SpringLink>,
    bg: u32,
    m: int,
    px: int,
    py: int,
) -> u32
    decreases m,
{
    if m <= 0 {
        springs_pix(bs, ls, bg, ls.len() as int, px, py)
    } else if rect_lx(bs[m - 1]) <= px < rect_rx(bs[m - 1]) && rect_ty(bs[m - 1]) <= py < rect_by(
        bs[m - 1],
    ) {
        bs[m - 1].color
    } else {
        bodies_pix(bs, ls, bg, m - 1, px, py)
    }
}

/// The color of pixel `(px, py)` in the finished frame: background, springs,
/// bodies, then the first `t` trail points as single pixels on top.
pub open spec fn frame_pix(
    bs: Seq<BoxBody>,
    ls: Seq<SpringLink>,
    tr: Seq<Vector>,
    bg: u32,
    t: int,
    px: int,
    py: int,
) -> u32
    decreases t,
{
    if t <= 0 {
        bodies_pix(bs, ls, bg, bs.len() as int, px, py)
    } else if px == tdiv(tr[t - 1].x as int, SCALE as int) && py == tdiv(
        tr[t - 1].y as int,
        SCALE as int,
    ) {
        TRAIL_COLOR
    } else {
        frame_pix(bs, ls, tr, bg, t - 1, px, py)
    }
}

/// The simulation: bodies, springs connecting them by index, the external
/// gravity field, the pixel buffer and the trajectory trail.
pub struct World {
    pub bodies: Vec<BoxBody>,
    pub springs: Vec<SpringLink>,
    pub gravity: Vector,
    pub dt: i64,
    pub bg: u32,
    pub buffer: PixelBuffer,
    pub trail: Trail,
}

impl World {
    /// Every body and spring is well-formed and every spring connects two
    /// distinct existing bodies.
    pub open spec fn wf(&self) -> bool {
        &&& forall|i: int| 0 <= i < self.bodies@.len() ==> (#[trigger] self.bodies@[i]).wf()
        &&& forall|s: int|
            0 <= s < self.springs@.len() ==> {
                let l = #[trigger] self.springs@[s];
                &&& l.spring.wf()
                &&& l.body_a < self.bodies@.len()
                &&& l.body_b < self.bodies@.len()
                &&& l.body_a != l.body_b
            }
        &&& self.gravity.wf()
        &&& 0 <= self.dt <= LIM
        &&& self.buffer.wf()
        &&& self.trail.wf()
    }

    /// An empty world with the given constants.
    pub fn new(gravity: Vector, dt: i64, bg: u32, width: usize, height: usize, trail_cap: usize)
        -> (w: World)
        requires
            gravity.wf(),
            0 <= dt <= LIM,
            width <= MAX_DIM,
            height <= MAX_DIM,
            1 <= trail_cap,
        ensures
            w.wf(),
            w.bodies@ == Seq::<BoxBody>::empty(),
            w.springs@ == Seq::<SpringLink>::empty(),
            w.gravity == gravity,
            w.dt == dt,
            w.bg == bg,
            w.buffer.w() == width,
            w.buffer.h() == height,
            w.trail.points_s() == Seq::<Vector>::empty(),
            w.trail.cap_s() == trail_cap,
    {
        World {
            bodies: Vec::new(),
            springs: Vec::new(),
            gravity,
            dt,
            bg,
            buffer: PixelBuffer::new(width, height, bg),
            trail: Trail::new(trail_cap),
        }
    }

    /// Add a body, returning its index.
    pub fn add_body(&mut self, b: BoxBody) -> (idx: usize)
        requires
            old(self).wf(),
            b.wf(),
        ensures
            final(self).wf(),
            final(self).bodies@ == old(self).bodies@.push(b),
            idx as int == old(self).bodies@.len(),
            final(self).springs@ == old(self).springs@,
            final(self).gravity == old(self).gravity,
            final(self).dt == old(self).dt,
            final(self).bg == old(self).bg,
            final(self).buffer == old(self).buffer,
            final(self).trail == old(self).trail,
    {
        let idx = self.bodies.len();
        self.bodies.push(b);
        idx
    }

    /// Connect two distinct bodies by a spring.
    pub fn add_spring(&mut self, spring: Spring, body_a: usize, body_b: usize)
        requires
            old(self).wf(),
            spring.wf(),
            body_a < old(self).bodies@.len(),
            body_b < old(self).bodies@.len(),
            body_a != body_b,
        ensures
            final(self).wf(),
            final(self).springs@ == old(self).springs@.push(
                SpringLink { spring, body_a, body_b },
            ),
            final(self).bodies@ == old(self).bodies@,
            final(self).gravity == old(self).gravity,
            final(self).dt == old(self).dt,
            final(self).bg == old(self).bg,
            final(self).buffer == old(self).buffer,
            final(self).trail == old(self).trail,
    {
        self.springs.push(SpringLink { spring, body_a, body_b });
    }

    /// Zero the acceleration of every dynamic body.
    fn clear_forces(&mut self)
        requires
            old(self).wf(),
        ensures
            final(self).wf(),
            final(self).bodies@ == clear_map(old(self).bodies@),
            final(self).springs@ == old(self).springs@,
            final(self).gravity == old(self).gravity,
            final(self).dt == old(self).dt,
            final(self).bg == old(self).bg,
            final(self).buffer == old(self).buffer,
            final(self).trail == old(self).trail,
    {
        let n = self.bodies.len();
        let mut i: usize = 0;
        while i < n
            invariant
                i <= n,
                n == old(self).bodies@.len(),
                self.bodies@.len() == n,
                forall|k: int| 0 <= k < n ==> (#[trigger] old(self).bodies@[k]).wf(),
                forall|k: int| 0 <= k < i ==> self.bodies@[k] == cleared_s(old(self).bodies@[k]),
                forall|k: int| i <= k < n ==> self.bodies@[k] == old(self).bodies@[k],
                self.springs@ == old(self).springs@,
                self.gravity == old(self).gravity,
                self.dt == old(self).dt,
                self.bg == old(self).bg,
                self.buffer == old(self).buffer,
                self.trail == old(self).trail,
            decreases n - i,
        {
            if !self.bodies[i].is_static {
                let mut b = self.bodies[i];
                b.set_acceleration(Vector::new(0, 0));
                self.bodies[i] = b;
            }
            i = i + 1;
        }
        proof {
            assert(self.bodies@ =~= clear_map(old(self).bodies@));
            assert(forall|k: int|
                0 <= k < n ==> (#[trigger] self.bodies@[k]) == cleared_s(old(self).bodies@[k]));
            assert(forall|k: int| 0 <= k < n ==> (#[trigger] self.bodies@[k]).wf());
        }
    }

    /// Run every spring's update in declared order: forces accumulate on the
    /// endpoint bodies and each spring's color is refreshed. Positions and
    /// velocities are untouched.
    fn apply_spring_forces(&mut self)
        requires
            old(self).wf(),
        ensures
            final(self).wf(),
            final(self).bodies@ == apply_springs_s(
                old(self).bodies@,
                old(self).springs@,
                old(self).springs@.len() as int,
            ),
            final(self).springs@ == color_map(old(self).bodies@, old(self).springs@),
            final(self).gravity == old(self).gravity,
            final(self).dt == old(self).dt,
            final(self).bg == old(self).bg,
            final(self).buffer == old(self).buffer,
            final(self).trail == old(self).trail,
    {
        let n = self.springs.len();
        let mut s: usize = 0;
        while s < n
            invariant
                s <= n,
                n == old(self).springs@.len(),
                self.springs@.len() == n,
                self.bodies@.len() == old(self).bodies@.len(),
                old(self).wf(),
                self.bodies@ == apply_springs_s(old(self).bodies@, old(self).springs@, s as int),
                forall|k: int| 0 <= k < self.bodies@.len() ==> (#[trigger] self.bodies@[k]).wf(),
                forall|k: int|
                    0 <= k < self.bodies@.len() ==> (#[trigger] self.bodies@[k]).position
                        == old(self).bodies@[k].position,
                forall|k: int|
                    0 <= k < s ==> self.springs@[k] == link_colored_s(
                        old(self).bodies@,
                        old(self).springs@[k],
                    ),
                forall|k: int| s <= k < n ==> self.springs@[k] == old(self).springs@[k],
                self.gravity == old(self).gravity,
                self.dt == old(self).dt,
                self.bg == old(self).bg,
                self.buffer == old(self).buffer,
                self.trail == old(self).trail,
            decreases n - s,
        {
            let l = self.springs[s];
            let mut sp = l.spring;
            let mut ba = self.bodies[l.body_a];
            let mut bb = self.bodies[l.body_b];
            sp.update(self.dt, &mut ba, &mut bb);
            self.bodies[l.body_a] = ba;
            self.bodies[l.body_b] = bb;
            self.springs[s] = SpringLink { spring: sp, ..l };
            proof {
                assert(self.bodies@ =~= apply_link_s(
                    apply_springs_s(old(self).bodies@, old(self).springs@, s as int),
                    old(self).springs@[s as int],
                ));
                assert(self.bodies@ == apply_springs_s(
                    old(self).bodies@,
                    old(self).springs@,
                    s + 1,
                ));
            }
            s = s + 1;
        }
        proof {
            assert(self.springs@ =~= color_map(old(self).bodies@, old(self).springs@));
        }
    }

    /// Apply the constant gravity force to every body; static bodies ignore
    /// it.
    fn apply_gravity(&mut self)
        requires
            old(self).wf(),
        ensures
            final(self).wf(),
            final(self).bodies@ == gravity_map(old(self).bodies@, old(self).gravity),
            final(self).springs@ == old(self).springs@,
            final(self).gravity == old(self).gravity,
            final(self).dt == old(self).dt,
            final(self).bg == old(self).bg,
            final(self).buffer == old(self).buffer,
            final(self).trail == old(self).trail,
    {
        let n = self.bodies.len();
        let mut i: usize = 0;
        while i < n
            invariant
                i <= n,
                n == old(self).bodies@.len(),
                self.bodies@.len() == n,
                self.gravity == old(self).gravity,
                self.gravity.wf(),
                forall|k: int| 0 <= k < n ==> (#[trigger] old(self).bodies@[k]).wf(),
                forall|k: int| 0 <= k < i ==> self.bodies@[k] == forced_s(old(self).bodies@[k], old(self).gravity),
                forall|k: int| 0 <= k < i ==> (#[trigger] self.bodies@[k]).wf(),
                forall|k: int| i <= k < n ==> self.bodies@[k] == old(self).bodies@[k],
                self.springs@ == old(self).springs@,
                self.dt == old(self).dt,
                self.bg == old(self).bg,
                self.buffer == old(self).buffer,
                self.trail == old(self).trail,
            decreases n - i,
        {
            let mut b = self.bodies[i];
            let g = self.gravity;
            b.apply_force(g);
            self.bodies[i] = b;
            i = i + 1;
        }
        proof {
            assert(self.bodies@ =~= gravity_map(old(self).bodies@, old(self).gravity));
        }
    }

    /// Advance every body by one explicit Euler step.
    fn integrate(&mut self)
        requires
            old(self).wf(),
        ensures
            final(self).wf(),
            final(self).bodies@ == integrate_map(old(self).bodies@, old(self).dt as int),
            final(self).springs@ == old(self).springs@,
            final(self).gravity == old(self).gravity,
            final(self).dt == old(self).dt,
            final(self).bg == old(self).bg,
            final(self).buffer == old(self).buffer,
            final(self).trail == old(self).trail,
    {
        let n = self.bodies.len();
        let mut i: usize = 0;
        while i < n
            invariant
                i <= n,
                n == old(self).bodies@.len(),
                self.bodies@.len() == n,
                self.dt == old(self).dt,
                0 <= self.dt <= LIM,
                forall|k: int| 0 <= k < n ==> (#[trigger] old(self).bodies@[k]).wf(),
                forall|k: int| 0 <= k < i ==> self.bodies@[k] == stepped_s(old(self).bodies@[k], old(self).dt as int),
                forall|k: int| 0 <= k < i ==> (#[trigger] self.bodies@[k]).wf(),
                forall|k: int| i <= k < n ==> self.bodies@[k] == old(self).bodies@[k],
                self.springs@ == old(self).springs@,
                self.gravity == old(self).gravity,
                self.bg == old(self).bg,
                self.buffer == old(self).buffer,
                self.trail == old(self).trail,
            decreases n - i,
        {
            let mut b = self.bodies[i];
            let dt = self.dt;
            b.update(dt);
            self.bodies[i] = b;
            i = i + 1;
        }
        proof {
            assert(self.bodies@ =~= integrate_map(old(self).bodies@, old(self).dt as int));
        }
    }

    /// Clear the buffer and draw the frame: springs first, then bodies on
    /// top, then the recorded trail points.
    fn render_frame(&mut self)
        requires
            old(self).wf(),
        ensures
            final(self).wf(),
            final(self).bodies@ == old(self).bodies@,
            final(self).springs@ == old(self).springs@,
            final(self).gravity == old(self).gravity,
            final(self).dt == old(self).dt,
            final(self).bg == old(self).bg,
            final(self).buffer.w() == old(self).buffer.w(),
            final(self).buffer.h() == old(self).buffer.h(),
            final(self).trail == old(self).trail,
            forall|px: int, py: int|
                0 <= px < old(self).buffer.w() && 0 <= py < old(self).buffer.h()
                    ==> #[trigger] final(self).buffer.pix(px, py) == frame_pix(
                        old(self).bodies@,
                        old(self).springs@,
                        old(self).trail.points_s(),
                        old(self).bg,
                        old(self).trail.points_s().len() as int,
                        px,
                        py,
                    ),
    {
        self.buffer.clear(self.bg);
        let n = self.springs.len();
        let mut s: usize = 0;
        while s < n
            invariant
                s <= n,
                self.bodies@ == old(self).bodies@,
                self.springs@ == old(self).springs@,
                self.gravity == old(self).gravity,
                self.dt == old(self).dt,
                self.bg == old(self).bg,
                self.trail == old(self).trail,
                old(self).wf(),
                self.buffer.wf(),
                self.buffer.w() == old(self).buffer.w(),
                self.buffer.h() == old(self).buffer.h(),
                n == self.springs@.len(),
                forall|px: int, py: int|
                    0 <= px < old(self).buffer.w() && 0 <= py < old(self).buffer.h()
                        ==> #[trigger] self.buffer.pix(px, py) == springs_pix(
                            old(self).bodies@,
                            old(self).springs@,
                            old(self).bg,
                            s as int,
                            px,
                            py,
                        ),
            decreases n - s,
        {
            let l = self.springs[s];
            let sp = l.spring;
            let ba = self.bodies[l.body_a];
            let bb = self.bodies[l.body_b];
            sp.render(&mut self.buffer, &ba, &bb);
            s = s + 1;
        }
        let m = self.bodies.len();
        let mut i: usize = 0;
        while i < m
            invariant
                i <= m,
                self.bodies@ == old(self).bodies@,
                self.springs@ == old(self).springs@,
                self.gravity == old(self).gravity,
                self.dt == old(self).dt,
                self.bg == old(self).bg,
                self.trail == old(self).trail,
                old(self).wf(),
                self.buffer.wf(),
                self.buffer.w() == old(self).buffer.w(),
                self.buffer.h() == old(self).buffer.h(),
                m == self.bodies@.len(),
                forall|px: int, py: int|
                    0 <= px < old(self).buffer.w() && 0 <= py < old(self).buffer.h()
                        ==> #[trigger] self.buffer.pix(px, py) == bodies_pix(
                            old(self).bodies@,
                            old(self).springs@,
                            old(self).bg,
                            i as int,
                            px,
                            py,
                        ),
            decreases m - i,
        {
            let b = self.bodies[i];
            b.render(&mut self.buffer);
            i = i + 1;
        }
        let t = self.trail.len();
        let mut k: usize = 0;
        while k < t
            invariant
                k <= t,
                self.bodies@ == old(self).bodies@,
                self.springs@ == old(self).springs@,
                self.gravity == old(self).gravity,
                self.dt == old(self).dt,
                self.bg == old(self).bg,
                self.trail == old(self).trail,
                old(self).wf(),
                self.buffer.wf(),
                self.buffer.w() == old(self).buffer.w(),
                self.buffer.h() == old(self).buffer.h(),
                t == self.trail.points_s().len(),
                forall|px: int, py: int|
                    0 <= px < old(self).buffer.w() && 0 <= py < old(self).buffer.h()
                        ==> #[trigger] self.buffer.pix(px, py) == frame_pix(
                            old(self).bodies@,
                            old(self).springs@,
                            old(self).trail.points_s(),
                            old(self).bg,
                            k as int,
                            px,
                            py,
                        ),
            decreases t - k,
        {
            let p = self.trail.get(k);
            proof {
                lemma_tdiv_range(p.x as int, SCALE as int, LIM as int);
                lemma_tdiv_range(p.y as int, SCALE as int, LIM as int);
            }
            let px = div_trunc(p.x, SCALE);
            let py = div_trunc(p.y, SCALE);
            self.buffer.set_pixel(px, py, TRAIL_COLOR);
            k = k + 1;
        }
    }

    /// Record the position of every dynamic body into the trail, in index
    /// order, evicting the oldest entries beyond the cap.
    fn record_trail(&mut self)
        requires
            old(self).wf(),
        ensures
            final(self).wf(),
            final(self).bodies@ == old(self).bodies@,
            final(self).springs@ == old(self).springs@,
            final(self).gravity == old(self).gravity,
            final(self).dt == old(self).dt,
            final(self).bg == old(self).bg,
            final(self).buffer == old(self).buffer,
            final(self).trail.cap_s() == old(self).trail.cap_s(),
            final(self).trail.points_s() == record_trail_s(
                old(self).trail.points_s(),
                old(self).trail.cap_s(),
                old(self).bodies@,
                old(self).bodies@.len() as int,
            ),
    {
        let n = self.bodies.len();
        let mut i: usize = 0;
        while i < n
            invariant
                i <= n,
                n == old(self).bodies@.len(),
                self.bodies@ == old(self).bodies@,
                forall|k: int| 0 <= k < n ==> (#[trigger] old(self).bodies@[k]).wf(),
                self.trail.wf(),
                self.trail.cap_s() == old(self).trail.cap_s(),
                self.trail.points_s() == record_trail_s(
                    old(self).trail.points_s(),
                    old(self).trail.cap_s(),
                    old(self).bodies@,
                    i as int,
                ),
                self.springs@ == old(self).springs@,
                self.gravity == old(self).gravity,
                self.dt == old(self).dt,
                self.bg == old(self).bg,
                self.buffer == old(self).buffer,
            decreases n - i,
        {
            let b = self.bodies[i];
            if !b.is_static {
                let p = b.get_position();
                self.trail.push(p);
            }
            i = i + 1;
        }
    }

    /// One full simulation step: reset forces, apply every spring, apply
    /// gravity, integrate, rasterize the frame, record and draw the trail.
    pub fn step(&mut self)
        requires
            old(self).wf(),
        ensures
            final(self).wf(),
            final(self).bodies@ == step_bodies_s(
                old(self).bodies@,
                old(self).springs@,
                old(self).gravity,
                old(self).dt as int,
            ),
            final(self).springs@ == color_map(clear_map(old(self).bodies@), old(self).springs@),
            final(self).gravity == old(self).gravity,
            final(self).dt == old(self).dt,
            final(self).bg == old(self).bg,
            final(self).buffer.w() == old(self).buffer.w(),
            final(self).buffer.h() == old(self).buffer.h(),
            final(self).trail.cap_s() == old(self).trail.cap_s(),
            final(self).trail.points_s() == record_trail_s(
                old(self).trail.points_s(),
                old(self).trail.cap_s(),
                step_bodies_s(
                    old(self).bodies@,
                    old(self).springs@,
                    old(self).gravity,
                    old(self).dt as int,
                ),
                old(self).bodies@.len() as int,
            ),
            forall|px: int, py: int|
                0 <= px < old(self).buffer.w() && 0 <= py < old(self).buffer.h()
                    ==> #[trigger] final(self).buffer.pix(px, py) == frame_pix(
                        final(self).bodies@,
                        final(self).springs@,
                        final(self).trail.points_s(),
                        old(self).bg,
                        final(self).trail.points_s().len() as int,
                        px,
                        py,
                    ),
    {
        self.clear_forces();
        self.apply_spring_forces();
        self.apply_gravity();
        self.integrate();
        proof {
            lemma_apply_springs_len(
                clear_map(old(self).bodies@),
                old(self).springs@,
                old(self).springs@.len() as int,
            );
        }
        self.record_trail();
        self.render_frame();
    }

    /// Resize the pixel buffer to a changed display surface; contents reset
    /// to the background color.
    pub fn resize_buffer(&mut self, width: usize, height: usize)
        requires
            old(self).wf(),
            width <= MAX_DIM,
            height <= MAX_DIM,
        ensures
            final(self).wf(),
            final(self).buffer.w() == width,
            final(self).buffer.h() == height,
            final(self).bodies@ == old(self).bodies@,
            final(self).springs@ == old(self).springs@,
            final(self).trail == old(self).trail,
    {
        let bg = self.bg;
        self.buffer.resize(width, height, bg);
    }
}

} // verus!
