//! The viewer: a pan-and-zoom window on the plane that paints the cache
//! into a pixel buffer, block by block, under a time budget.

use vstd::prelude::*;
use vstd::view::View as _;
use std::time::Duration;
use crate::clock;
use crate::complex::Complex;
use crate::frame::{byte_in_rect, frame_fits, lemma_shown_outside, pixel_shows, show_rect};
use crate::mapper::pixel_to_world;
use crate::render::Tube;
use crate::scalar;
use crate::scalar::{is_integer, is_product, is_quotient};
use crate::shade::Shading;

verus! {

/// The block, by column and row, that holds the pixel `(px, py)`.
pub open spec fn block_of(px: int, py: int, block: u32) -> (int, int) {
    (px / (block as int), py / (block as int))
}

/// Whether block `a` is painted before block `b`: blocks go row by row,
/// and left to right within a row.
pub open spec fn part_before(a: (int, int), b: (int, int)) -> bool {
    a.1 < b.1 || (a.1 == b.1 && a.0 < b.0)
}

/// Whether the pixel `(px, py)` lies in a block that a pass paints which
/// starts with the cursor on block `from` and leaves it on block `to`.
pub open spec fn in_pass(px: int, py: int, from: (int, int), to: (int, int), block: u32) -> bool {
    &&& !part_before(block_of(px, py, block), from)
    &&& part_before(block_of(px, py, block), to)
}

/// The pixels of block `at` along one axis are those from `at · block` up
/// to the next multiple of `block`.
proof fn lemma_block_of(p: int, at: int, block: int)
    requires
        block > 0,
        0 <= p,
    ensures
        (at * block <= p < at * block + block) <==> p / block == at,
{
    vstd::arithmetic::div_mod::lemma_fundamental_div_mod(p, block);
    vstd::arithmetic::div_mod::lemma_mod_bound(p, block);
    let q = p / block;
    assert(block * q == q * block) by (nonlinear_arith);
    if q < at {
        assert(q * block + block <= at * block) by (nonlinear_arith)
            requires
                q + 1 <= at,
                block > 0,
        ;
    }
    if q > at {
        assert(at * block + block <= q * block) by (nonlinear_arith)
            requires
                at + 1 <= q,
                block > 0,
        ;
    }
}

/// A pixel at `p` lies in a block whose index is not negative, and below
/// `count` where `count` blocks reach beyond `p`.
proof fn lemma_block_in_range(p: int, block: int, count: int)
    requires
        block > 0,
        0 <= p,
    ensures
        0 <= p / block,
        p < count * block ==> p / block < count,
{
    let q = p / block;
    lemma_block_of(p, q, block);
    if q < 0 {
        assert(q * block + block <= 0) by (nonlinear_arith)
            requires
                q + 1 <= 0,
                block > 0,
        ;
    }
    if q >= count {
        assert(count * block <= q * block) by (nonlinear_arith)
            requires
                count <= q,
                block > 0,
        ;
    }
}

/// The product of two 32-bit numbers fits in 64 bits.
proof fn lemma_product_fits(a: u32, b: u32)
    ensures
        0 <= a * b <= u64::MAX,
{
    assert(0 <= a * b <= 0xffff_ffff * 0xffff_ffff) by (nonlinear_arith)
        requires
            0 <= a <= 0xffff_ffff,
            0 <= b <= 0xffff_ffff,
    ;
}

/// A cursor coordinate inside the frame can be advanced by one block
/// without leaving the range of its type.
proof fn lemma_cursor_bounds(at: u32, block: u32, extent: u32)
    requires
        block > 0,
        at * block < extent,
    ensures
        at < extent,
        at + 1 <= u32::MAX,
        (at + 1) * block <= u64::MAX,
        0 <= (at + 1) * block,
{
    assert(at <= at * block) by (nonlinear_arith)
        requires
            block >= 1,
            at >= 0,
    ;
    assert((at + 1) * block == at * block + block) by (nonlinear_arith);
}

/// The block that follows the block `part` in a frame `width` pixels wide
/// cut into blocks of `block` pixels: the next in the row, or the first of
/// the next row.
pub open spec fn next_part(part: (u32, u32), block: u32, width: u32) -> (int, int) {
    if (part.0 + 1) * block >= width {
        (0, part.1 + 1)
    } else {
        (part.0 + 1, part.1 as int)
    }
}

/// Whether `r` is a result of `2p / h`, computed in the scalar from the
/// scalars of `2`, `p` and `h`.
pub open spec fn is_dragged<T: num::Float>(p: i32, h: u32, r: T) -> bool {
    exists|two: T, fp: T, twice: T, fh: T|
        {
            &&& #[trigger] is_integer::<T>(2, two)
            &&& #[trigger] is_integer::<T>(p as i128, fp)
            &&& #[trigger] is_product(two, fp, twice)
            &&& #[trigger] is_integer::<T>(h as i128, fh)
            &&& is_quotient(twice, fh, r)
        }
}

/// A distance of `p` pixels along one axis in units of half the height
/// `h` of the frame: `2p / h`.
pub fn dragged<T: num::Float>(p: i32, h: u32) -> (r: T)
    ensures
        is_dragged(p, h, r),
{
    let two: T = scalar::from_integer(2);
    let fp: T = scalar::from_integer(p as i128);
    let fh: T = scalar::from_integer(h as i128);
    scalar::quotient(scalar::product(two, fp), fh)
}

/// What the answers of the clock have to do with a drawing pass that took
/// the cursor from `from` to `to`. `said_late` and `said_in_time` say
/// whether the clock has answered yes, and no, to whether the budget is
/// spent. The pass gives up only on a yes, and it paints a second block
/// only after a no. So a clock that never says yes completes the frame,
/// and one that never says no paints one block to the call.
pub open spec fn pass_paced(
    from: (u32, u32),
    block: u32,
    width: u32,
    complete: bool,
    to: (u32, u32),
    said_late: bool,
    said_in_time: bool,
) -> bool {
    &&& !complete ==> said_late
    &&& (to.0 as int, to.1 as int) != next_part(from, block, width) ==> said_in_time
}

/// A window on the plane, centred on `pos`, whose half height spans `mag`,
/// and the cursor `part` of the block that is painted next.
pub struct View<T> {
    pub pos: Complex<T>,
    pub mag: Complex<T>,
    pub part: (u32, u32),
    pub block: u32,
    pub shading: Shading,
}

impl<T: num::Float + num::traits::FloatConst> View<T> {
    /// Whether the cursor points at a block inside a frame of the given
    /// size.
    pub open spec fn in_frame(&self, width: u32, height: u32) -> bool {
        &&& self.block > 0
        &&& self.part.0 * self.block < width
        &&& self.part.1 * self.block < height
    }

    /// The rectangle `(x, y, w, h)` of the block under the cursor, cut off
    /// at the frame's right and bottom edges.
    pub open spec fn rect_spec(&self, width: u32, height: u32) -> (int, int, int, int) {
        let x = self.part.0 * self.block;
        let y = self.part.1 * self.block;
        (
            x,
            y,
            if width - x < self.block { width - x } else { self.block as int },
            if height - y < self.block { height - y } else { self.block as int },
        )
    }

    /// A view at `pos` with magnification `mag`, the cursor on the first
    /// block, blocks of 16 pixels, shaded by the triangle wave.
    pub fn new(pos: Complex<T>, mag: Complex<T>) -> (view: Self)
        ensures
            view.pos == pos,
            view.mag == mag,
            view.part == (0u32, 0u32),
            view.block == 16,
            view.shading == Shading::TriangleWave,
    {
        View { pos: pos, mag: mag, part: (0, 0), block: 16, shading: Shading::TriangleWave }
    }

    /// Moves the view to `pos` and restarts the frame.
    pub fn put(&mut self, pos: Complex<T>)
        ensures
            final(self).pos == pos,
            final(self).part == (0u32, 0u32),
            final(self).mag == old(self).mag,
            final(self).block == old(self).block,
            final(self).shading == old(self).shading,
    {
        self.pos = pos;
        self.part = (0, 0);
    }

    /// Sets the magnification to `mag` and restarts the frame.
    pub fn zoom(&mut self, mag: Complex<T>)
        ensures
            final(self).mag == mag,
            final(self).part == (0u32, 0u32),
            final(self).pos == old(self).pos,
            final(self).block == old(self).block,
            final(self).shading == old(self).shading,
    {
        self.mag = mag;
        self.part = (0, 0);
    }

    /// The world offset of a drag by `(x, y)` pixels in a frame `h` pixels
    /// high: `mag · (2x / h, 2y / h)`.
    pub fn pix_dev(&self, x: i32, y: i32, w: u32, h: u32) -> (offset: Complex<T>)
        ensures
            exists|re: T, im: T|
                {
                    &&& #[trigger] is_dragged(x, h, re)
                    &&& #[trigger] is_dragged(y, h, im)
                    &&& call_ensures(Complex::<T>::mul, (self.mag, Complex { re, im }), offset)
                },
    {
        let re: T = dragged(x, h);
        let im: T = dragged(y, h);
        self.mag.mul(Complex::new(re, im))
    }

    /// The world position of the centre of pixel `(x, y)` in a frame of
    /// `w` by `h` pixels, as the mapper's `pixel_to_world` gives it for
    /// this view: `pos + mag · ((2x − w + 1) / h, (2y − h + 1) / h)`.
    pub fn pix_pos(&self, x: u32, y: u32, w: u32, h: u32) -> (world: Complex<T>)
        ensures
            call_ensures(pixel_to_world::<T>, (x, y, w, h, self.pos, self.mag), world),
    {
        pixel_to_world(x, y, w, h, self.pos, self.mag)
    }

    /// Tests whether the cursor points at a block inside a frame of the
    /// given size.
    pub fn cursor_in_frame(&self, width: u32, height: u32) -> (ok: bool)
        ensures
            ok == self.in_frame(width, height),
    {
        proof {
            lemma_product_fits(self.part.0, self.block);
            lemma_product_fits(self.part.1, self.block);
        }
        let x: u64 = (self.part.0 as u64) * (self.block as u64);
        let y: u64 = (self.part.1 as u64) * (self.block as u64);
        self.block > 0 && x < width as u64 && y < height as u64
    }

    /// The rectangle `(x, y, w, h)` of the block under the cursor.
    pub fn block_rect(&self, width: u32, height: u32) -> (rect: (u32, u32, u32, u32))
        requires
            self.in_frame(width, height),
        ensures
            (rect.0 as int, rect.1 as int, rect.2 as int, rect.3 as int) == self.rect_spec(
                width,
                height,
            ),
            rect.0 + rect.2 <= width,
            rect.1 + rect.3 <= height,
            rect.2 > 0,
            rect.3 > 0,
    {
        let x = self.part.0 * self.block;
        let y = self.part.1 * self.block;
        let w = if width - x < self.block {
            width - x
        } else {
            self.block
        };
        let h = if height - y < self.block {
            height - y
        } else {
            self.block
        };
        (x, y, w, h)
    }

    /// Paints the block under the cursor and moves the cursor to the next
    /// block. Each pixel of the block gets the colour, under the view's
    /// shading, of the depth that the cache gives where the pixel's centre
    /// falls. Returns whether that was the last block of the frame.
    pub fn draw_block(
        &mut self,
        tube: &Tube<T>,
        pixels: &mut [u8],
        pitch: usize,
        width: u32,
        height: u32,
    ) -> (complete: bool)
        requires
            old(self).in_frame(width, height),
            frame_fits(old(pixels)@.len(), pitch, width, height),
        ensures
            final(pixels)@.len() == old(pixels)@.len(),
            ({
                let (x, y, w, h) = old(self).rect_spec(width, height);
                &&& forall|px: int, py: int|
                    x <= px < x + w && y <= py < y + h ==> #[trigger] pixel_shows(
                        final(pixels)@,
                        pitch,
                        width,
                        height,
                        px,
                        py,
                        old(self).pos,
                        old(self).mag,
                        *tube,
                        old(self).shading,
                    )
                &&& forall|b: int|
                    0 <= b < old(pixels)@.len() && !byte_in_rect(b, pitch, x, y, w, h)
                        ==> #[trigger] final(pixels)@[b] == old(pixels)@[b]
            }),
            (final(self).part.0 as int, final(self).part.1 as int) == next_part(
                old(self).part,
                old(self).block,
                width,
            ),
            complete <==> final(self).part.1 * final(self).block >= height,
            !complete ==> final(self).in_frame(width, height),
            final(self).pos == old(self).pos,
            final(self).mag == old(self).mag,
            final(self).block == old(self).block,
            final(self).shading == old(self).shading,
    {
        let (x, y, w, h) = self.block_rect(width, height);
        show_rect(tube, pixels, pitch, width, height, x, y, w, h, self.pos, self.mag, self.shading);
        proof {
            lemma_cursor_bounds(self.part.0, self.block, width);
            lemma_cursor_bounds(self.part.1, self.block, height);
        }
        self.part.0 += 1;
        if (self.part.0 as u64) * (self.block as u64) >= width as u64 {
            self.part.0 = 0;
            self.part.1 += 1;
        }
        (self.part.1 as u64) * (self.block as u64) >= height as u64
    }

    /// What a drawing pass that moved the cursor from block `from` to
    /// block `to` has done to the buffer: every pixel of the blocks in
    /// between shows what the cache holds there, and every other byte is
    /// as it was.
    pub open spec fn pass_drawn(
        &self,
        before: Seq<u8>,
        after: Seq<u8>,
        tube: Tube<T>,
        pitch: usize,
        width: u32,
        height: u32,
        from: (int, int),
        to: (int, int),
    ) -> bool {
        &&& after.len() == before.len()
        &&& forall|px: int, py: int|
            0 <= px < width && 0 <= py < height && in_pass(px, py, from, to, self.block)
                ==> #[trigger] pixel_shows(
                after,
                pitch,
                width,
                height,
                px,
                py,
                self.pos,
                self.mag,
                tube,
                self.shading,
            )
        &&& forall|b: int|
            0 <= b < before.len() && !({
                &&& pitch > 0
                &&& b / (pitch as int) < height
                &&& (b % (pitch as int)) / 4 < width
                &&& in_pass((b % (pitch as int)) / 4, b / (pitch as int), from, to, self.block)
            }) ==> #[trigger] after[b] == before[b]
    }

    /// Paints block after block, from the cursor on, and asks `late` after
    /// each block that did not complete the frame whether the time budget
    /// is spent: the pass ends on the first yes. Returns whether the frame
    /// is complete; if not, the cursor is on the block with which the next
    /// call goes on. See `pass_drawn` and `pass_paced`.
    pub fn draw_paced<F: Fn() -> bool>(
        &mut self,
        tube: &Tube<T>,
        pixels: &mut [u8],
        pitch: usize,
        width: u32,
        height: u32,
        late: F,
    ) -> (complete: bool)
        requires
            old(self).in_frame(width, height),
            frame_fits(old(pixels)@.len(), pitch, width, height),
            call_requires(late, ()),
        ensures
            old(self).pass_drawn(
                old(pixels)@,
                final(pixels)@,
                *tube,
                pitch,
                width,
                height,
                (old(self).part.0 as int, old(self).part.1 as int),
                (final(self).part.0 as int, final(self).part.1 as int),
            ),
            pass_paced(
                old(self).part,
                old(self).block,
                width,
                complete,
                final(self).part,
                call_ensures(late, (), true),
                call_ensures(late, (), false),
            ),
            part_before(
                (old(self).part.0 as int, old(self).part.1 as int),
                (final(self).part.0 as int, final(self).part.1 as int),
            ),
            complete <==> final(self).part.1 * final(self).block >= height,
            !complete ==> final(self).in_frame(width, height),
            final(self).pos == old(self).pos,
            final(self).mag == old(self).mag,
            final(self).block == old(self).block,
            final(self).shading == old(self).shading,
    {
        let ghost from = (old(self).part.0 as int, old(self).part.1 as int);
        loop
            invariant
                self.in_frame(width, height),
                frame_fits(old(pixels)@.len(), pitch, width, height),
                call_requires(late, ()),
                from == (old(self).part.0 as int, old(self).part.1 as int),
                self.pos == old(self).pos,
                self.mag == old(self).mag,
                self.block == old(self).block,
                self.shading == old(self).shading,
                old(self).pass_drawn(
                    old(pixels)@,
                    pixels@,
                    *tube,
                    pitch,
                    width,
                    height,
                    from,
                    (self.part.0 as int, self.part.1 as int),
                ),
                !part_before((self.part.0 as int, self.part.1 as int), from),
                self.part != old(self).part ==> call_ensures(late, (), false),
            decreases height - self.part.1 * self.block, width - self.part.0 * self.block,
        {
            let ghost cur = (self.part.0 as int, self.part.1 as int);
            let ghost before = pixels@;
            let ghost here = *self;
            let complete = self.draw_block(tube, pixels, pitch, width, height);
            proof {
                let next = (self.part.0 as int, self.part.1 as int);
                let after = pixels@;
                let (x, y, w, h) = here.rect_spec(width, height);
                let block = self.block;
                assert(cur.0 * block + block == (cur.0 + 1) * block) by (nonlinear_arith);
                assert(cur.1 * block + block == (cur.1 + 1) * block) by (nonlinear_arith);
                assert forall|px: int, py: int|
                    0 <= px < width && 0 <= py < height implies ((x <= px < x + w && y <= py < y
                        + h) <==> #[trigger] block_of(px, py, block) == cur) by {
                    lemma_block_of(px, cur.0, block as int);
                    lemma_block_of(py, cur.1, block as int);
                }
                assert forall|px: int, py: int|
                    0 <= px < width && 0 <= py < height implies (#[trigger] in_pass(
                        px,
                        py,
                        from,
                        next,
                        block,
                    ) <==> in_pass(px, py, from, cur, block) || block_of(px, py, block) == cur) by {
                    lemma_block_in_range(px, block as int, cur.0 + 1);
                }
                assert forall|px: int, py: int|
                    0 <= px < width && 0 <= py < height && in_pass(
                        px,
                        py,
                        from,
                        next,
                        block,
                    ) implies #[trigger] pixel_shows(
                    after,
                    pitch,
                    width,
                    height,
                    px,
                    py,
                    self.pos,
                    self.mag,
                    *tube,
                    self.shading,
                ) by {
                    if block_of(px, py, block) == cur {
                        assert(x <= px < x + w && y <= py < y + h);
                    } else {
                        assert(in_pass(px, py, from, cur, block));
                        assert(pixel_shows(
                            before,
                            pitch,
                            width,
                            height,
                            px,
                            py,
                            self.pos,
                            self.mag,
                            *tube,
                            self.shading,
                        ));
                        lemma_shown_outside(
                            before,
                            after,
                            pitch,
                            width,
                            height,
                            x,
                            y,
                            w,
                            h,
                            px,
                            py,
                            self.pos,
                            self.mag,
                            *tube,
                            self.shading,
                        );
                    }
                }
                assert forall|b: int|
                    0 <= b < before.len() && !({
                        &&& pitch > 0
                        &&& b / (pitch as int) < height
                        &&& (b % (pitch as int)) / 4 < width
                        &&& in_pass((b % (pitch as int)) / 4, b / (pitch as int), from, next, block)
                    }) implies #[trigger] after[b] == old(pixels)@[b] by {
                    if byte_in_rect(b, pitch, x, y, w, h) {
                        let row = b / (pitch as int);
                        let col = (b % (pitch as int)) / 4;
                        assert(x <= col < x + w);
                        assert(block_of(col, row, block) == cur);
                        assert(in_pass(col, row, from, next, block));
                    }
                }
            }
            if complete {
                return true;
            }
            if late() {
                return false;
            }
        }
    }

    /// Paints block after block, from the cursor on, until the frame is
    /// complete or more than `timeout` has gone by, since the call began,
    /// after a block. Returns whether the frame is complete, and gives up
    /// only on a clock that said the budget was spent; if the frame is not
    /// complete, the cursor is on the block with which the next call goes
    /// on. See `pass_drawn` and `pass_paced`.
    pub fn draw(
        &mut self,
        tube: &Tube<T>,
        pixels: &mut [u8],
        pitch: usize,
        width: u32,
        height: u32,
        timeout: Duration,
    ) -> (complete: bool)
        requires
            old(self).in_frame(width, height),
            frame_fits(old(pixels)@.len(), pitch, width, height),
        ensures
            old(self).pass_drawn(
                old(pixels)@,
                final(pixels)@,
                *tube,
                pitch,
                width,
                height,
                (old(self).part.0 as int, old(self).part.1 as int),
                (final(self).part.0 as int, final(self).part.1 as int),
            ),
            pass_paced(
                old(self).part,
                old(self).block,
                width,
                complete,
                final(self).part,
                clock::said(timeout, true),
                clock::said(timeout, false),
            ),
            part_before(
                (old(self).part.0 as int, old(self).part.1 as int),
                (final(self).part.0 as int, final(self).part.1 as int),
            ),
            complete <==> final(self).part.1 * final(self).block >= height,
            !complete ==> final(self).in_frame(width, height),
            final(self).pos == old(self).pos,
            final(self).mag == old(self).mag,
            final(self).block == old(self).block,
            final(self).shading == old(self).shading,
    {
        let time = clock::now();
        let late = || -> (late: bool)
            ensures
                clock::is_expired(&time, timeout, late),
            { clock::expired(&time, timeout) };
        let complete = self.draw_paced(tube, pixels, pitch, width, height, late);
        proof {
            if call_ensures(late, (), true) {
                assert(clock::is_expired(&time, timeout, true));
            }
            if call_ensures(late, (), false) {
                assert(clock::is_expired(&time, timeout, false));
            }
        }
        complete
    }
}

/// A pass that started on the first block and completed the frame has
/// painted every pixel of the frame.
pub proof fn law_complete_pass_covers_frame<T: num::Float + num::traits::FloatConst>(
    view: View<T>,
    before: Seq<u8>,
    after: Seq<u8>,
    tube: Tube<T>,
    pitch: usize,
    width: u32,
    height: u32,
    to: (int, int),
)
    requires
        view.block > 0,
        view.pass_drawn(before, after, tube, pitch, width, height, (0, 0), to),
        to.1 * view.block >= height,
    ensures
        forall|px: int, py: int|
            0 <= px < width && 0 <= py < height ==> #[trigger] pixel_shows(
                after,
                pitch,
                width,
                height,
                px,
                py,
                view.pos,
                view.mag,
                tube,
                view.shading,
            ),
{
    let block = view.block;
    assert forall|px: int, py: int| 0 <= px < width && 0 <= py < height implies in_pass(
        px,
        py,
        (0, 0),
        to,
        block,
    ) by {
        lemma_block_in_range(px, block as int, 0);
        lemma_block_in_range(py, block as int, to.1);
    }
}

} // verus!
