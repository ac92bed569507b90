//! Colour policies: how an escape depth becomes the four bytes of a pixel.

use vstd::prelude::*;

verus! {

/// The half period of the triangle wave, and the depth at which it peaks.
pub const RAMP: usize = 16;

/// A way of turning a depth into a pixel.
#[derive(Clone, Copy, Debug, PartialEq, Eq, Structural)]
pub enum Shading {
    /// Grey bands: the depth folded into a triangle wave that rises from
    /// black to white over `RAMP` depths and falls back over the next.
    TriangleWave,
    /// Eight flat colours: the three low bits of the depth, one to a
    /// channel.
    BitPattern,
}

/// The depth folded into `0..=RAMP`: up over one half period, down over
/// the other.
pub open spec fn fold(depth: usize) -> int {
    let n = depth as int % (2 * RAMP as int);
    if n > RAMP {
        2 * RAMP - n
    } else {
        n
    }
}

/// The grey level of a depth under the triangle wave, `255 · fold / RAMP`
/// rounded down.
pub open spec fn grey(depth: usize) -> int {
    255 * fold(depth) / (RAMP as int)
}

/// The bit of weight `weight` in the depth, as a channel that is fully on
/// or fully off.
pub open spec fn channel(depth: usize, weight: int) -> int {
    255 * ((depth as int / weight) % 2)
}

impl Shading {
    /// The four bytes of a pixel of the given depth, in buffer order; the
    /// last is the opaque alpha.
    pub open spec fn color_spec(self, depth: usize) -> Seq<u8> {
        match self {
            Shading::TriangleWave => seq![
                grey(depth) as u8,
                grey(depth) as u8,
                grey(depth) as u8,
                255u8,
            ],
            Shading::BitPattern => seq![
                channel(depth, 4) as u8,
                channel(depth, 2) as u8,
                channel(depth, 1) as u8,
                255u8,
            ],
        }
    }

    /// The four bytes of a pixel of the given depth.
    pub fn color(self, depth: usize) -> (c: [u8; 4])
        ensures
            c@ == self.color_spec(depth),
    {
        match self {
            Shading::TriangleWave => {
                let m: usize = depth % (2 * RAMP);
                let n: usize = if m > RAMP {
                    2 * RAMP - m
                } else {
                    m
                };
                let v: u8 = (255 * n / RAMP) as u8;
                let c = [v, v, v, 255u8];
                assert(c@ =~= self.color_spec(depth));
                c
            },
            Shading::BitPattern => {
                let b2: u8 = (255 * ((depth / 4) % 2)) as u8;
                let b1: u8 = (255 * ((depth / 2) % 2)) as u8;
                let b0: u8 = (255 * (depth % 2)) as u8;
                let c = [b2, b1, b0, 255u8];
                assert(c@ =~= self.color_spec(depth));
                c
            },
        }
    }
}

} // verus!
