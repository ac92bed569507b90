//! A fixed-size grid of samples: rings of `RING_SIZE` points, each ring
//! tagged with the depth it was computed at.

use vstd::prelude::*;

verus! {

/// The number of points in every ring of a canvas.
pub const RING_SIZE: usize = 256;

/// One sample of a canvas.
#[derive(Clone, Copy, Debug)]
pub struct Point {
    pub depth: u64,
}

impl Point {
    /// A sample of depth `0`.
    pub fn new() -> (p: Self)
        ensures
            p.depth == 0,
    {
        Point { depth: 0 }
    }
}

/// One ring of a canvas.
#[derive(Clone, Debug)]
pub struct Ring {
    pub depth: u64,
    pub points: Vec<Point>,
}

impl Ring {
    /// A ring at the given depth, with `RING_SIZE` samples of depth `0`.
    pub fn new(depth: u64) -> (r: Self)
        ensures
            r.depth == depth,
            r.points@.len() == RING_SIZE,
            forall|k: int| 0 <= k < RING_SIZE ==> (#[trigger] r.points@[k]).depth == 0,
    {
        let mut points: Vec<Point> = Vec::new();
        let mut k: usize = 0;
        while k < RING_SIZE
            invariant
                k <= RING_SIZE,
                points@.len() == k,
                forall|j: int| 0 <= j < k ==> (#[trigger] points@[j]).depth == 0,
            decreases RING_SIZE - k,
        {
            points.push(Point::new());
            k += 1;
        }
        Ring { depth: depth, points: points }
    }
}

/// The rings computed so far, from the depth `start` on.
#[derive(Debug)]
pub struct Canvas {
    pub start: u64,
    pub rings: Vec<Ring>,
}

impl Canvas {
    /// A canvas that starts at the given depth and holds no ring yet.
    pub fn new(start: u64) -> (c: Self)
        ensures
            c.start == start,
            c.rings@.len() == 0,
    {
        Canvas { start: start, rings: Vec::<Ring>::new() }
    }
}

} // verus!
