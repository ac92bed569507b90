//! What the producer of rings and the display agree on: the window of
//! rings to render, whether new data waits to be drawn, and whether to
//! stop.

use vstd::prelude::*;
use crate::render::Status;

verus! {

/// The state shared between the producer and the display.
#[derive(Clone, Copy, Debug)]
pub struct Shared {
    /// One past the last ring to render.
    pub zmax: usize,
    /// The first ring to render.
    pub zmin: usize,
    /// Whether the cache holds data that the display has not drawn.
    pub redraw: bool,
    /// Whether the producer is to stop.
    pub done: bool,
}

impl Shared {
    /// The state at start: an empty window, a first drawing due, not done.
    pub fn new() -> (s: Self)
        ensures
            s.redraw,
            !s.done,
            s.zmin == 0,
            s.zmax == 0,
    {
        Shared { redraw: true, done: false, zmin: 0, zmax: 0 }
    }

    /// Sets the window of rings to render to `zmin..zmax`.
    pub fn set_zoom(&mut self, zmin: usize, zmax: usize)
        ensures
            final(self).zmin == zmin,
            final(self).zmax == zmax,
            final(self).redraw == old(self).redraw,
            final(self).done == old(self).done,
    {
        self.zmin = zmin;
        self.zmax = zmax;
    }

    /// The producer's bookkeeping after a rendering step: a step that
    /// completed a ring leaves data to draw, and the producer is to park
    /// unless the step timed out with rings still to render.
    pub fn after_render(&mut self, status: Status) -> (park: bool)
        ensures
            final(self).redraw == (old(self).redraw || status != Status::Idle),
            park == (status != Status::Timeout),
            final(self).zmin == old(self).zmin,
            final(self).zmax == old(self).zmax,
            final(self).done == old(self).done,
    {
        match status {
            Status::Timeout => {
                self.redraw = true;
                false
            },
            Status::Done => {
                self.redraw = true;
                true
            },
            Status::Idle => true,
        }
    }

    /// The display's bookkeeping after a drawing pass: a pass that
    /// completed the frame has drawn all there is.
    pub fn after_draw(&mut self, complete: bool)
        ensures
            final(self).redraw == (old(self).redraw && !complete),
            final(self).zmin == old(self).zmin,
            final(self).zmax == old(self).zmax,
            final(self).done == old(self).done,
    {
        if complete {
            self.redraw = false;
        }
    }
}

} // verus!
