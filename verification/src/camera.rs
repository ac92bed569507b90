//! The camera: a fixed window on the plane that paints the whole frame at
//! once, in the eight flat colours of the bit pattern.

use vstd::prelude::*;
use crate::complex::Complex;
use crate::frame::{byte_in_rect, frame_fits, pixel_shows, show_rect};
use crate::mapper::{pixel_offset, pixel_to_world};
use crate::render::Tube;
use crate::shade::Shading;

verus! {

/// A window on the plane, centred on `pos`, whose half height spans
/// `zoom`.
pub struct Camera<T> {
    pub pos: Complex<T>,
    pub zoom: Complex<T>,
}

impl<T: num::Float + num::traits::FloatConst> Camera<T> {
    /// The world offset of the centre of pixel `(x, y)` from the centre of
    /// a frame of `w` by `h` pixels, as the mapper's `pixel_offset` gives
    /// it for this camera: `zoom · ((2x − w + 1) / h, (2y − h + 1) / h)`.
    pub fn pix_dev(&self, x: u32, y: u32, w: u32, h: u32) -> (offset: Complex<T>)
        ensures
            call_ensures(pixel_offset::<T>, (x, y, w, h, self.zoom), offset),
    {
        pixel_offset(x, y, w, h, self.zoom)
    }

    /// The world position of the centre of pixel `(x, y)`, as the mapper's
    /// `pixel_to_world` gives it for this camera: `pos` plus the pixel's
    /// offset.
    pub fn pix_pos(&self, x: u32, y: u32, w: u32, h: u32) -> (world: Complex<T>)
        ensures
            call_ensures(pixel_to_world::<T>, (x, y, w, h, self.pos, self.zoom), world),
    {
        pixel_to_world(x, y, w, h, self.pos, self.zoom)
    }

    /// Paints the whole frame: each pixel gets the bit-pattern colour of
    /// the depth that the cache gives where the pixel's centre falls.
    /// Bytes between the rows and after the frame stay as they are.
    pub fn draw(&self, tube: &Tube<T>, pixels: &mut [u8], pitch: usize, width: u32, height: u32)
        requires
            frame_fits(old(pixels)@.len(), pitch, width, height),
        ensures
            final(pixels)@.len() == old(pixels)@.len(),
            forall|px: int, py: int|
                0 <= px < width && 0 <= py < height ==> #[trigger] pixel_shows(
                    final(pixels)@,
                    pitch,
                    width,
                    height,
                    px,
                    py,
                    self.pos,
                    self.zoom,
                    *tube,
                    Shading::BitPattern,
                ),
            forall|b: int|
                0 <= b < old(pixels)@.len() && !byte_in_rect(
                    b,
                    pitch,
                    0,
                    0,
                    width as int,
                    height as int,
                ) ==> #[trigger] final(pixels)@[b] == old(pixels)@[b],
    {
        show_rect(
            tube,
            pixels,
            pitch,
            width,
            height,
            0,
            0,
            width,
            height,
            self.pos,
            self.zoom,
            Shading::BitPattern,
        );
    }
}

} // verus!
