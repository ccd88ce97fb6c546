//! A bounded trajectory trail: an ordered history of recorded positions,
//! capped at a fixed count, evicting the oldest entry first.

use vstd::prelude::*;
use crate::vector::Vector;

verus! {

/// What one recorded point does to the trail: appended, with the oldest
/// point evicted first once the cap is reached.
pub open spec fn trail_push_s(tr: Seq<Vector>, cap: int, p: Vector) -> Seq<Vector> {
    if tr.len() < cap {
        tr.push(p)
    } else {
        tr.subrange(1, tr.len() as int).push(p)
    }
}

/// A FIFO-bounded sequence of recorded positions.
pub struct Trail {
    points: Vec<Vector>,
    cap: usize,
}

impl Trail {
    /// The recorded points, oldest first.
    pub closed spec fn points_s(&self) -> Seq<Vector> {
        self.points@
    }

    /// The configured cap.
    pub closed spec fn cap_s(&self) -> int {
        self.cap as int
    }

    /// The trail never exceeds its cap, and holds only world-range points.
    pub open spec fn wf(&self) -> bool {
        &&& 1 <= self.cap_s()
        &&& self.points_s().len() <= self.cap_s()
        &&& forall|i: int| 0 <= i < self.points_s().len() ==> (#[trigger] self.points_s()[i]).wf()
    }

    /// An empty trail with the given cap.
    pub fn new(cap: usize) -> (t: Trail)
        requires
            1 <= cap,
        ensures
            t.wf(),
            t.cap_s() == cap,
            t.points_s() == Seq::<Vector>::empty(),
    {
        Trail { points: Vec::new(), cap }
    }

    /// Record one point; once the trail is full the oldest point leaves
    /// first, so at most `cap` points remain, in insertion order.
    pub fn push(&mut self, p: Vector)
        requires
            old(self).wf(),
            p.wf(),
        ensures
            final(self).wf(),
            final(self).cap_s() == old(self).cap_s(),
            final(self).points_s() == trail_push_s(old(self).points_s(), old(self).cap_s(), p),
            final(self).points_s().len() <= old(self).cap_s(),
    {
        if self.points.len() == self.cap {
            self.points.remove(0);
            proof {
                assert(self.points@ =~= old(self).points@.subrange(1, old(self).points@.len() as int));
            }
        }
        self.points.push(p);
    }

    /// Number of recorded points.
    pub fn len(&self) -> (n: usize)
        ensures
            n == self.points_s().len(),
    {
        self.points.len()
    }

    /// The `i`-th recorded point, oldest first.
    pub fn get(&self, i: usize) -> (p: Vector)
        requires
            i < self.points_s().len(),
        ensures
            p == self.points_s()[i as int],
    {
        self.points[i]
    }

    /// The configured cap.
    pub fn capacity(&self) -> (c: usize)
        ensures
            c == self.cap_s(),
    {
        self.cap
    }
}

} // verus!
