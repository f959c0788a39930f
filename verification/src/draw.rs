//! Stamping antialiased primitives onto a frame.
//!
//! A rasterized primitive reaches the frame as a batch of [`Stamp`]s, one per
//! pixel of its inflated bounding box: the red intensity byte obtained from
//! the distance falloff, and whether that intensity is full. [`draw`] applies
//! a batch in order under the renderer's compositing policy, and
//! [`fade_frame`] applies the between-frames fade. The policy is deliberate:
//! a full-intensity stamp always overwrites, while a partial (fringe) stamp
//! paints only pixels that are still black, so the fringes of later strokes
//! never dim strokes that are already on the frame.

use crate::frame::black;
use crate::frame::full_red;
use crate::frame::Frame;
use crate::frame::Rgb;
use vstd::prelude::*;

verus! {

/// One pixel of a rasterized primitive: which pixel it touches, the red
/// intensity byte, and whether the stamp is at full intensity.
#[derive(Clone, Copy, PartialEq, Eq, Structural, Debug)]
pub struct Stamp {
    pub x: usize,
    pub y: usize,
    pub red: u8,
    pub full: bool,
}

/// The color a stamp paints when it is allowed to paint: opaque stamps paint
/// the full stroke color, partial ones their faded red intensity.
pub open spec fn stamp_color(s: Stamp) -> Rgb {
    if s.full {
        full_red()
    } else {
        Rgb { r: s.red, g: 0, b: 0 }
    }
}

/// The compositing policy for one stamp over the current pixel color: a
/// partial stamp leaves an already-painted (non-black) pixel alone; in every
/// other case the stamp's color is written.
pub open spec fn composite(cur: Rgb, s: Stamp) -> Rgb {
    if !s.full && cur != black() {
        cur
    } else {
        stamp_color(s)
    }
}

/// The color pixel `(x, y)` holds after a batch of stamps has been applied in
/// order to a pixel that started at `init`.
pub open spec fn pixel_after(stamps: Seq<Stamp>, x: int, y: int, init: Rgb) -> Rgb
    decreases stamps.len(),
{
    if stamps.len() == 0 {
        init
    } else {
        let prev = pixel_after(stamps.drop_last(), x, y, init);
        if stamps.last().x == x && stamps.last().y == y {
            composite(prev, stamps.last())
        } else {
            prev
        }
    }
}

/// Applies a batch of stamps to the frame, in order, under the compositing
/// policy: afterwards every pixel holds exactly the fold of the stamps that
/// touch it over its previous color.
pub fn draw(frame: &mut Frame, stamps: &Vec<Stamp>)
    requires
        old(frame).wf(),
        forall|k: int|
            0 <= k < stamps.len() ==> stamps[k].x < old(frame).width && stamps[k].y < old(
                frame,
            ).height,
    ensures
        final(frame).wf(),
        final(frame).width == old(frame).width,
        final(frame).height == old(frame).height,
        forall|x: int, y: int|
            final(frame).in_bounds(x, y) ==> final(frame).pixel(x, y) == pixel_after(
                stamps@,
                x,
                y,
                old(frame).pixel(x, y),
            ),
{
    let ghost init = *frame;
    let mut k: usize = 0;
    while k < stamps.len()
        invariant
            frame.wf(),
            frame.width == init.width,
            frame.height == init.height,
            init.wf(),
            k <= stamps.len(),
            forall|kk: int|
                0 <= kk < stamps.len() ==> stamps[kk].x < init.width && stamps[kk].y < init.height,
            forall|x: int, y: int|
                frame.in_bounds(x, y) ==> frame.pixel(x, y) == pixel_after(
                    stamps@.take(k as int),
                    x,
                    y,
                    init.pixel(x, y),
                ),
        decreases stamps.len() - k,
    {
        let s = stamps[k];
        let ghost before = *frame;
        let cur = frame.get(s.x, s.y);
        if s.full {
            frame.set(s.x, s.y, Rgb { r: 255, g: 0, b: 0 });
        } else if cur.r == 0 && cur.g == 0 && cur.b == 0 {
            frame.set(s.x, s.y, Rgb { r: s.red, g: 0, b: 0 });
        }
        proof {
            assert(stamps@.take(k + 1).drop_last() =~= stamps@.take(k as int));
            assert(stamps@.take(k + 1).last() == stamps@[k as int]);
            assert(frame.pixel(s.x as int, s.y as int) == composite(cur, s));
            assert forall|x: int, y: int| frame.in_bounds(x, y) implies frame.pixel(x, y)
                == pixel_after(stamps@.take(k + 1), x, y, init.pixel(x, y)) by {
                if x == s.x as int && y == s.y as int {
                } else {
                    assert(frame.pixel(x, y) == before.pixel(x, y));
                }
            }
        }
        k = k + 1;
    }
    proof {
        assert(stamps@.take(stamps@.len() as int) =~= stamps@);
    }
}

/// No-dimming law: a pixel already at the full stroke color is left at the
/// full stroke color by any batch of stamps, however later primitives
/// overlap it.
pub proof fn lemma_no_dimming(stamps: Seq<Stamp>, x: int, y: int, init: Rgb)
    requires
        init == full_red(),
    ensures
        pixel_after(stamps, x, y, init) == full_red(),
    decreases stamps.len(),
{
    if stamps.len() > 0 {
        lemma_no_dimming(stamps.drop_last(), x, y, init);
    }
}

/// Stamping is monotone in the red channel: however a batch of stamps
/// overlaps a pixel, its red intensity never drops below what it held before.
pub proof fn lemma_stamping_never_dims_red(stamps: Seq<Stamp>, x: int, y: int, init: Rgb)
    ensures
        pixel_after(stamps, x, y, init).r >= init.r,
    decreases stamps.len(),
{
    if stamps.len() > 0 {
        lemma_stamping_never_dims_red(stamps.drop_last(), x, y, init);
    }
}

/// Stamping is confined to the stamped pixels: a pixel that no stamp in the
/// batch touches keeps its color, so a primitive only ever paints inside its
/// inflated bounding box.
pub proof fn lemma_untouched_pixel_unchanged(stamps: Seq<Stamp>, x: int, y: int, init: Rgb)
    requires
        forall|k: int| 0 <= k < stamps.len() ==> !(stamps[k].x == x && stamps[k].y == y),
    ensures
        pixel_after(stamps, x, y, init) == init,
    decreases stamps.len(),
{
    if stamps.len() > 0 {
        lemma_untouched_pixel_unchanged(stamps.drop_last(), x, y, init);
    }
}

/// One step of the between-frames fade on a single color: a lit red channel
/// loses one step of intensity, an unlit one stays unlit; the other channels
/// are untouched.
pub open spec fn faded(c: Rgb) -> Rgb {
    if c.r == 0 {
        c
    } else {
        Rgb { r: (c.r - 1) as u8, g: c.g, b: c.b }
    }
}

/// Fades the whole frame by one step: every pixel's red channel is reduced by
/// one, except pixels already at zero, which stay as they are.
pub fn fade_frame(frame: &mut Frame)
    requires
        old(frame).wf(),
    ensures
        final(frame).wf(),
        final(frame).width == old(frame).width,
        final(frame).height == old(frame).height,
        forall|x: int, y: int|
            final(frame).in_bounds(x, y) ==> final(frame).pixel(x, y) == faded(
                old(frame).pixel(x, y),
            ),
{
    let ghost init = *frame;
    let mut px: usize = 0;
    while px < frame.width
        invariant
            frame.wf(),
            frame.width == init.width,
            frame.height == init.height,
            init.wf(),
            px <= frame.width,
            forall|i: int, j: int|
                frame.in_bounds(i, j) && i < px ==> frame.pixel(i, j) == faded(init.pixel(i, j)),
            forall|i: int, j: int|
                frame.in_bounds(i, j) && i >= px ==> frame.pixel(i, j) == init.pixel(i, j),
        decreases frame.width - px,
    {
        let mut py: usize = 0;
        while py < frame.height
            invariant
                frame.wf(),
                frame.width == init.width,
                frame.height == init.height,
                init.wf(),
                px < frame.width,
                py <= frame.height,
                forall|i: int, j: int|
                    frame.in_bounds(i, j) && (i < px || (i == px && j < py)) ==> frame.pixel(i, j)
                        == faded(init.pixel(i, j)),
                forall|i: int, j: int|
                    frame.in_bounds(i, j) && (i > px || (i == px && j >= py)) ==> frame.pixel(i, j)
                        == init.pixel(i, j),
            decreases frame.height - py,
        {
            let c = frame.get(px, py);
            if c.r != 0 {
                frame.set(px, py, Rgb { r: c.r - 1, g: c.g, b: c.b });
            }
            proof {
                assert(frame.pixel(px as int, py as int) == faded(init.pixel(px as int, py as int)));
            }
            py = py + 1;
        }
        px = px + 1;
    }
}

} // verus!
