//! Discrete raster geometry: the integer side of the grid's
//! coordinate-to-pixel mapping.
//!
//! A [`Raster`] records the pixel resolution of the output image. It
//! classifies signed pixel positions as on- or off-screen, clamps them onto
//! the screen, and inflates inclusive pixel bounding boxes while keeping them
//! inside the screen.

use vstd::prelude::*;

verus! {

/// Orders a pair of pixel indices into an inclusive range `(lo, hi)`.
pub fn rangify(a: usize, b: usize) -> (r: (usize, usize))
    ensures
        r.0 == if a <= b { a as int } else { b as int },
        r.1 == if a <= b { b as int } else { a as int },
        r.0 <= a <= r.1,
        r.0 <= b <= r.1,
{
    if a <= b {
        (a, b)
    } else {
        (b, a)
    }
}

/// Component-wise clamp of a signed pixel position onto `[0, len)`.
pub open spec fn clamp_index(v: int, len: int) -> int {
    if v < 0 {
        0
    } else if v >= len {
        len - 1
    } else {
        v
    }
}

/// The pixel resolution of the output raster.
#[derive(Clone, Copy, Debug)]
pub struct Raster {
    pub width: usize,
    pub height: usize,
}

impl Raster {
    /// Both axes hold at least one pixel, and each fits in an `i32` so that
    /// signed pixel positions can be compared against the resolution.
    pub open spec fn wf(self) -> bool {
        &&& 1 <= self.width <= i32::MAX
        &&& 1 <= self.height <= i32::MAX
    }

    pub fn new(width: usize, height: usize) -> (r: Raster)
        requires
            1 <= width <= i32::MAX,
            1 <= height <= i32::MAX,
        ensures
            r.wf(),
            r.width == width,
            r.height == height,
    {
        Raster { width, height }
    }

    /// Decides whether a signed pixel position lies on the raster: returns the
    /// unsigned pixel index when it does, and hands the signed position back
    /// unchanged when it does not.
    pub fn classify_pixel(&self, x: i32, y: i32) -> (r: Result<(usize, usize), (i32, i32)>)
        requires
            self.wf(),
        ensures
            r is Ok <==> (0 <= x < self.width && 0 <= y < self.height),
            r is Ok ==> r->Ok_0 == (x as usize, y as usize),
            r is Err ==> r->Err_0 == (x, y),
    {
        if x < 0 || x >= self.width as i32 || y < 0 || y >= self.height as i32 {
            Err((x, y))
        } else {
            Ok((x as usize, y as usize))
        }
    }

    /// Clamps a signed pixel position onto the raster, component-wise; the
    /// result is always a valid pixel index.
    pub fn clamp_pixel(&self, x: i32, y: i32) -> (r: (usize, usize))
        requires
            self.wf(),
        ensures
            r.0 == clamp_index(x as int, self.width as int),
            r.1 == clamp_index(y as int, self.height as int),
            r.0 < self.width,
            r.1 < self.height,
            (0 <= x < self.width && 0 <= y < self.height) ==> r == (x as usize, y as usize),
    {
        match self.classify_pixel(x, y) {
            Ok(p) => p,
            Err((ex, ey)) => {
                let cx: i32 = if ex < 0 {
                    0
                } else if ex > self.width as i32 - 1 {
                    self.width as i32 - 1
                } else {
                    ex
                };
                let cy: i32 = if ey < 0 {
                    0
                } else if ey > self.height as i32 - 1 {
                    self.height as i32 - 1
                } else {
                    ey
                };
                (cx as usize, cy as usize)
            },
        }
    }

    /// Grows an inclusive pixel bounding box by `margin` pixels on every side,
    /// saturating at zero below and clamping to the last pixel above, so the
    /// grown box still lies on the raster whenever its lower bounds do.
    pub fn inflate_bounding_box(
        &self,
        xrange: (usize, usize),
        yrange: (usize, usize),
        margin: usize,
    ) -> (r: ((usize, usize), (usize, usize)))
        requires
            self.wf(),
        ensures
            r.0.0 == if xrange.0 >= margin { xrange.0 - margin } else { 0 },
            r.1.0 == if yrange.0 >= margin { yrange.0 - margin } else { 0 },
            r.0.1 == vstd::math::min(xrange.1 + margin, self.width - 1),
            r.1.1 == vstd::math::min(yrange.1 + margin, self.height - 1),
    {
        let xmin: usize = if xrange.0 >= margin { xrange.0 - margin } else { 0 };
        let ymin: usize = if yrange.0 >= margin { yrange.0 - margin } else { 0 };

        let xsum: usize = if xrange.1 <= usize::MAX - margin { xrange.1 + margin } else { usize::MAX };
        let ysum: usize = if yrange.1 <= usize::MAX - margin { yrange.1 + margin } else { usize::MAX };

        let xmax: usize = if xsum < self.width - 1 { xsum } else { self.width - 1 };
        let ymax: usize = if ysum < self.height - 1 { ysum } else { self.height - 1 };

        ((xmin, xmax), (ymin, ymax))
    }
}

/// Clamping always lands on the raster: for any signed position, the clamped
/// index lies in `[0, len)`, and positions already on the raster are kept.
pub proof fn lemma_clamp_in_range(v: int, len: int)
    requires
        len >= 1,
    ensures
        0 <= clamp_index(v, len) < len,
        0 <= v < len ==> clamp_index(v, len) == v,
{
}

} // verus!
