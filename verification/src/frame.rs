//! Pixel buffers: frames of four-byte pixels in rows a fixed number of
//! bytes apart.

use vstd::prelude::*;
use vstd::arithmetic::div_mod::lemma_fundamental_div_mod_converse;
use crate::complex::Complex;
use crate::mapper::{pixel_maps, pixel_to_world};
use crate::render::Tube;
use crate::shade::Shading;

verus! {

/// Whether a buffer of `len` bytes holds a frame of `width` by `height`
/// pixels of four bytes each, in rows `pitch` bytes apart.
pub open spec fn frame_fits(len: nat, pitch: usize, width: u32, height: u32) -> bool {
    &&& 4 * width <= pitch
    &&& pitch * height <= len
}

/// Tests whether a buffer of `len` bytes holds a frame of `width` by
/// `height` pixels in rows `pitch` bytes apart.
pub fn fits(len: usize, pitch: usize, width: u32, height: u32) -> (ok: bool)
    ensures
        ok == frame_fits(len as nat, pitch, width, height),
{
    if (pitch as u64) < 4 * (width as u64) {
        return false;
    }
    if height == 0 || pitch == 0 {
        assert(pitch * height == 0) by (nonlinear_arith)
            requires
                height == 0 || pitch == 0,
        ;
        return true;
    }
    let rows: usize = len / pitch;
    proof {
        vstd::arithmetic::div_mod::lemma_fundamental_div_mod(len as int, pitch as int);
        vstd::arithmetic::div_mod::lemma_mod_bound(len as int, pitch as int);
        if height <= rows {
            assert(pitch * height <= pitch * rows) by (nonlinear_arith)
                requires
                    height <= rows,
                    0 <= pitch,
            ;
        } else {
            assert(pitch * (rows + 1) <= pitch * height) by (nonlinear_arith)
                requires
                    rows + 1 <= height,
                    0 <= pitch,
            ;
            assert(pitch * (rows + 1) == pitch * rows + pitch) by (nonlinear_arith);
        }
    }
    height as usize <= rows
}

/// Whether byte `b` of the buffer belongs to a pixel of the rectangle of
/// `w` by `h` pixels whose corner is the pixel `(x, y)`.
pub open spec fn byte_in_rect(b: int, pitch: usize, x: int, y: int, w: int, h: int) -> bool {
    &&& pitch > 0
    &&& y <= b / (pitch as int) < y + h
    &&& 4 * x <= b % (pitch as int) < 4 * (x + w)
}

/// Whether the pixel `(px, py)` of the buffer holds the four bytes
/// `color`.
pub open spec fn pixel_is(pixels: Seq<u8>, pitch: usize, px: int, py: int, color: Seq<u8>) -> bool {
    let at = pitch * py + 4 * px;
    &&& 0 <= at
    &&& at + 4 <= pixels.len()
    &&& pixels.subrange(at, at + 4) == color
}

/// Whether the pixel `(px, py)` of a frame of `width` by `height` pixels
/// shows what the cache holds where the pixel's centre falls: the colour,
/// under `shading`, of the depth that `tube` gives at cache coordinates to
/// which the mapper takes the pixel, seen through a view at `origin` with
/// the scale `scale`.
pub open spec fn pixel_shows<T: num::Float + num::traits::FloatConst>(
    pixels: Seq<u8>,
    pitch: usize,
    width: u32,
    height: u32,
    px: int,
    py: int,
    origin: Complex<T>,
    scale: Complex<T>,
    tube: Tube<T>,
    shading: Shading,
) -> bool {
    exists|at: (usize, usize)|
        {
            &&& #[trigger] pixel_maps(
                px as u32,
                py as u32,
                width,
                height,
                origin,
                scale,
                tube.pos,
                tube.rad,
                tube.step,
                tube.seg,
                at,
            )
            &&& pixel_is(pixels, pitch, px, py, shading.color_spec(tube.get_spec(at.0, at.1)))
        }
}

/// Byte `c` of the pixel `(px, py)` lies in row `py` of the buffer, at
/// column `4·px + c` of that row.
pub(crate) proof fn lemma_byte_of_pixel(pitch: usize, width: u32, px: int, py: int, c: int)
    requires
        4 * width <= pitch,
        0 <= px < width,
        0 <= py,
        0 <= c < 4,
    ensures
        (pitch * py + 4 * px + c) / (pitch as int) == py,
        (pitch * py + 4 * px + c) % (pitch as int) == 4 * px + c,
        0 <= pitch * py,
{
    assert(pitch * py == py * pitch) by (nonlinear_arith);
    assert(0 <= pitch * py) by (nonlinear_arith)
        requires
            0 <= py,
            0 <= pitch,
    ;
    lemma_fundamental_div_mod_converse(pitch * py + 4 * px + c, pitch as int, py, 4 * px + c);
}

/// The last byte of a pixel of the frame lies inside a buffer that the
/// frame fits.
pub(crate) proof fn lemma_pixel_in_buffer(len: nat, pitch: usize, width: u32, height: u32, px: int, py: int)
    requires
        frame_fits(len, pitch, width, height),
        0 <= px < width,
        0 <= py < height,
    ensures
        0 <= pitch * py,
        pitch * py + 4 * px + 4 <= len,
{
    assert(pitch * py + pitch <= pitch * height) by (nonlinear_arith)
        requires
            0 <= py < height,
            0 <= pitch,
    ;
    assert(0 <= pitch * py) by (nonlinear_arith)
        requires
            0 <= py,
            0 <= pitch,
    ;
}

/// A pixel outside a rectangle keeps showing what it showed when the
/// buffer changes only within the rectangle.
pub(crate) proof fn lemma_shown_outside<T: num::Float + num::traits::FloatConst>(
    before: Seq<u8>,
    after: Seq<u8>,
    pitch: usize,
    width: u32,
    height: u32,
    x: int,
    y: int,
    w: int,
    h: int,
    qx: int,
    qy: int,
    origin: Complex<T>,
    scale: Complex<T>,
    tube: Tube<T>,
    shading: Shading,
)
    requires
        4 * width <= pitch,
        0 <= qx < width,
        0 <= qy,
        !(x <= qx < x + w && y <= qy < y + h),
        before.len() == after.len(),
        forall|b: int|
            0 <= b < before.len() && !byte_in_rect(b, pitch, x, y, w, h) ==> #[trigger] after[b]
                == before[b],
        pixel_shows(before, pitch, width, height, qx, qy, origin, scale, tube, shading),
    ensures
        pixel_shows(after, pitch, width, height, qx, qy, origin, scale, tube, shading),
{
    let at = choose|at: (usize, usize)|
        {
            &&& #[trigger] pixel_maps(
                qx as u32,
                qy as u32,
                width,
                height,
                origin,
                scale,
                tube.pos,
                tube.rad,
                tube.step,
                tube.seg,
                at,
            )
            &&& pixel_is(before, pitch, qx, qy, shading.color_spec(tube.get_spec(at.0, at.1)))
        };
    let from = pitch * qy + 4 * qx;
    lemma_byte_of_pixel(pitch, width, qx, qy, 0);
    lemma_byte_of_pixel(pitch, width, qx, qy, 1);
    lemma_byte_of_pixel(pitch, width, qx, qy, 2);
    lemma_byte_of_pixel(pitch, width, qx, qy, 3);
    assert(after[from] == before[from]);
    assert(after[from + 1] == before[from + 1]);
    assert(after[from + 2] == before[from + 2]);
    assert(after[from + 3] == before[from + 3]);
    assert(after.subrange(from, from + 4) =~= before.subrange(from, from + 4));
}

/// Writes the four bytes `color` into the pixel `(px, py)` and leaves
/// every other byte of the buffer as it is.
pub fn paint(
    pixels: &mut [u8],
    pitch: usize,
    width: u32,
    height: u32,
    px: u32,
    py: u32,
    color: [u8; 4],
)
    requires
        frame_fits(old(pixels)@.len(), pitch, width, height),
        px < width,
        py < height,
    ensures
        final(pixels)@.len() == old(pixels)@.len(),
        pixel_is(final(pixels)@, pitch, px as int, py as int, color@),
        forall|b: int|
            0 <= b < old(pixels)@.len() && !byte_in_rect(b, pitch, px as int, py as int, 1, 1)
                ==> #[trigger] final(pixels)@[b] == old(pixels)@[b],
{
    proof {
        assert(pixels@.len() == pixels.len());
        lemma_pixel_in_buffer(old(pixels)@.len(), pitch, width, height, px as int, py as int);
        lemma_byte_of_pixel(pitch, width, px as int, py as int, 0);
        lemma_byte_of_pixel(pitch, width, px as int, py as int, 1);
        lemma_byte_of_pixel(pitch, width, px as int, py as int, 2);
        lemma_byte_of_pixel(pitch, width, px as int, py as int, 3);
    }
    let offset: usize = pitch * (py as usize) + 4 * (px as usize);
    pixels[offset] = color[0];
    pixels[offset + 1] = color[1];
    pixels[offset + 2] = color[2];
    pixels[offset + 3] = color[3];
    proof {
        let at = pitch * py + 4 * px;
        assert(pixels@.subrange(at, at + 4) =~= color@);
        assert forall|b: int|
            0 <= b < old(pixels)@.len() && !byte_in_rect(
                b,
                pitch,
                px as int,
                py as int,
                1,
                1,
            ) implies #[trigger] pixels@[b] == old(pixels)@[b] by {
            assert(b != at && b != at + 1 && b != at + 2 && b != at + 3);
        }
    }
}

/// Paints the pixel `(x, y)` with the colour, under `shading`, of the depth
/// that `tube` gives where the pixel's centre falls, seen through a view
/// at `origin` with the scale `scale`. Every other byte of the buffer is
/// as it was, so every other pixel shows what it showed.
pub fn show_pixel<T: num::Float + num::traits::FloatConst>(
    tube: &Tube<T>,
    pixels: &mut [u8],
    pitch: usize,
    width: u32,
    height: u32,
    x: u32,
    y: u32,
    origin: Complex<T>,
    scale: Complex<T>,
    shading: Shading,
)
    requires
        frame_fits(old(pixels)@.len(), pitch, width, height),
        x < width,
        y < height,
    ensures
        final(pixels)@.len() == old(pixels)@.len(),
        pixel_shows(final(pixels)@, pitch, width, height, x as int, y as int, origin, scale, *tube, shading),
        forall|b: int|
            0 <= b < old(pixels)@.len() && !byte_in_rect(b, pitch, x as int, y as int, 1, 1)
                ==> #[trigger] final(pixels)@[b] == old(pixels)@[b],
        forall|qx: int, qy: int|
            0 <= qx < width && 0 <= qy && (qx != x || qy != y) && pixel_shows(
                old(pixels)@,
                pitch,
                width,
                height,
                qx,
                qy,
                origin,
                scale,
                *tube,
                shading,
            ) ==> #[trigger] pixel_shows(
                final(pixels)@,
                pitch,
                width,
                height,
                qx,
                qy,
                origin,
                scale,
                *tube,
                shading,
            ),
{
    let at = tube.rad_pos(pixel_to_world(x, y, width, height, origin, scale));
    let color = shading.color(tube.get(at.0, at.1));
    let ghost before = pixels@;
    paint(pixels, pitch, width, height, x, y, color);
    proof {
        let after = pixels@;
        assert(pixel_maps(
            (x as int) as u32,
            (y as int) as u32,
            width,
            height,
            origin,
            scale,
            tube.pos,
            tube.rad,
            tube.step,
            tube.seg,
            at,
        ));
        assert forall|qx: int, qy: int|
            0 <= qx < width && 0 <= qy && (qx != x || qy != y) && pixel_shows(
                before,
                pitch,
                width,
                height,
                qx,
                qy,
                origin,
                scale,
                *tube,
                shading,
            ) implies #[trigger] pixel_shows(
            after,
            pitch,
            width,
            height,
            qx,
            qy,
            origin,
            scale,
            *tube,
            shading,
        ) by {
            lemma_shown_outside(
                before,
                after,
                pitch,
                width,
                height,
                x as int,
                y as int,
                1,
                1,
                qx,
                qy,
                origin,
                scale,
                *tube,
                shading,
            );
        }
    }
}

/// Paints the rectangle of `w` by `h` pixels whose corner is the pixel
/// `(x, y)`, row by row: each pixel gets the colour, under `shading`, of
/// the depth that `tube` gives where the pixel's centre falls. Every byte
/// outside the rectangle is as it was.
pub fn show_rect<T: num::Float + num::traits::FloatConst>(
    tube: &Tube<T>,
    pixels: &mut [u8],
    pitch: usize,
    width: u32,
    height: u32,
    x: u32,
    y: u32,
    w: u32,
    h: u32,
    origin: Complex<T>,
    scale: Complex<T>,
    shading: Shading,
)
    requires
        frame_fits(old(pixels)@.len(), pitch, width, height),
        x + w <= width,
        y + h <= height,
    ensures
        final(pixels)@.len() == old(pixels)@.len(),
        forall|px: int, py: int|
            x <= px < x + w && y <= py < y + h ==> #[trigger] pixel_shows(
                final(pixels)@,
                pitch,
                width,
                height,
                px,
                py,
                origin,
                scale,
                *tube,
                shading,
            ),
        forall|b: int|
            0 <= b < old(pixels)@.len() && !byte_in_rect(
                b,
                pitch,
                x as int,
                y as int,
                w as int,
                h as int,
            ) ==> #[trigger] final(pixels)@[b] == old(pixels)@[b],
{
    let mut iy: u32 = 0;
    while iy < h
        invariant
            iy <= h,
            x + w <= width,
            y + h <= height,
            frame_fits(old(pixels)@.len(), pitch, width, height),
            pixels@.len() == old(pixels)@.len(),
            forall|px: int, py: int|
                x <= px < x + w && y <= py < y + iy ==> #[trigger] pixel_shows(
                    pixels@,
                    pitch,
                    width,
                    height,
                    px,
                    py,
                    origin,
                    scale,
                    *tube,
                    shading,
                ),
            forall|b: int|
                0 <= b < pixels@.len() && !byte_in_rect(
                    b,
                    pitch,
                    x as int,
                    y as int,
                    w as int,
                    iy as int,
                ) ==> #[trigger] pixels@[b] == old(pixels)@[b],
        decreases h - iy,
    {
        let mut ix: u32 = 0;
        while ix < w
            invariant
                ix <= w,
                iy < h,
                x + w <= width,
                y + h <= height,
                frame_fits(old(pixels)@.len(), pitch, width, height),
                pixels@.len() == old(pixels)@.len(),
                forall|px: int, py: int|
                    (x <= px < x + w && y <= py < y + iy) || (x <= px < x + ix && py == y + iy)
                        ==> #[trigger] pixel_shows(
                        pixels@,
                        pitch,
                        width,
                        height,
                        px,
                        py,
                        origin,
                        scale,
                        *tube,
                        shading,
                    ),
                forall|b: int|
                    0 <= b < pixels@.len() && !byte_in_rect(
                        b,
                        pitch,
                        x as int,
                        y as int,
                        w as int,
                        iy as int,
                    ) && !byte_in_rect(b, pitch, x as int, y + iy, ix as int, 1)
                        ==> #[trigger] pixels@[b] == old(pixels)@[b],
            decreases w - ix,
        {
            show_pixel(tube, pixels, pitch, width, height, x + ix, y + iy, origin, scale, shading);
            ix += 1;
        }
        iy += 1;
    }
}

/// Where the operations of the scalar are functions, what a pixel shows
/// is a function of the view, the cache and the shading: two buffers that
/// show the same cache through the same view hold the same four bytes at
/// the pixel.
pub proof fn law_pixel_is_a_function<T: num::Float + num::traits::FloatConst>(
    one: Seq<u8>,
    two: Seq<u8>,
    pitch: usize,
    width: u32,
    height: u32,
    px: int,
    py: int,
    origin: Complex<T>,
    scale: Complex<T>,
    tube: Tube<T>,
    shading: Shading,
)
    requires
        crate::scalar::functional::<T>(),
        crate::scalar::functional_turn::<T>(),
        pixel_shows(one, pitch, width, height, px, py, origin, scale, tube, shading),
        pixel_shows(two, pitch, width, height, px, py, origin, scale, tube, shading),
    ensures
        one.subrange(pitch * py + 4 * px, pitch * py + 4 * px + 4) == two.subrange(
            pitch * py + 4 * px,
            pitch * py + 4 * px + 4,
        ),
{
    crate::mapper::lemma_mapper_functional::<T>();
    let at = choose|at: (usize, usize)|
        {
            &&& #[trigger] pixel_maps(
                px as u32,
                py as u32,
                width,
                height,
                origin,
                scale,
                tube.pos,
                tube.rad,
                tube.step,
                tube.seg,
                at,
            )
            &&& pixel_is(one, pitch, px, py, shading.color_spec(tube.get_spec(at.0, at.1)))
        };
    let other = choose|at: (usize, usize)|
        {
            &&& #[trigger] pixel_maps(
                px as u32,
                py as u32,
                width,
                height,
                origin,
                scale,
                tube.pos,
                tube.rad,
                tube.step,
                tube.seg,
                at,
            )
            &&& pixel_is(two, pitch, px, py, shading.color_spec(tube.get_spec(at.0, at.1)))
        };
    assert(at == other);
}

} // verus!
