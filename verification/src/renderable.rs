//! The capability contract of anything that can be drawn into the pixel
//! buffer and advanced in time.

use vstd::prelude::*;
use crate::arith::LIM;
use crate::buffer::PixelBuffer;

verus! {

/// An entity that can be rasterized and advanced by one timestep.
pub trait Renderable {
    /// The entity's own well-formedness invariant.
    spec fn rd_wf(&self) -> bool;

    /// Draw the entity; only in-bounds pixels are written and the buffer
    /// keeps its dimensions.
    fn render(&self, buffer: &mut PixelBuffer)
        requires
            self.rd_wf(),
            old(buffer).wf(),
        ensures
            final(buffer).wf(),
            final(buffer).w() == old(buffer).w(),
            final(buffer).h() == old(buffer).h(),
    ;

    /// Advance the entity by the fixed-point timestep `dt`.
    fn update(&mut self, dt: i64)
        requires
            old(self).rd_wf(),
            0 <= dt <= LIM,
        ensures
            final(self).rd_wf(),
    ;
}

} // verus!
