//! A verified RGB frame buffer and the compositing rules of the renderer.
//!
//! The buffer is addressed by pixel `(x, y)` with `(0, 0)` at the top-left
//! corner, row by row. Antialiased primitives reach it as a batch of
//! [`Stamp`]s, one per touched pixel; [`Frame::draw`] applies a batch under
//! the renderer's compositing policy: an opaque stamp always overwrites, a
//! partial (antialiasing fringe) stamp paints only pixels that are still
//! black, so fringes never dim strokes that were already drawn.

use vstd::prelude::*;

verus! {

/// One pixel's color, as a red/green/blue byte triple.
#[derive(Clone, Copy, PartialEq, Eq, Structural, Debug)]
pub struct Rgb {
    pub r: u8,
    pub g: u8,
    pub b: u8,
}

/// The unlit color every frame starts from.
pub open spec fn black() -> Rgb {
    Rgb { r: 0, g: 0, b: 0 }
}

/// The color of a stroke drawn at full intensity.
pub open spec fn full_red() -> Rgb {
    Rgb { r: 255, g: 0, b: 0 }
}

/// A frame buffer of `width * height` pixels, stored row by row.
pub struct Frame {
    pub width: usize,
    pub height: usize,
    pub data: Vec<Rgb>,
}

impl Frame {
    pub open spec fn wf(self) -> bool {
        self.data.len() == self.width * self.height
    }

    /// The color stored for pixel `(x, y)`.
    pub open spec fn pixel(self, x: int, y: int) -> Rgb {
        self.data[y * self.width + x]
    }

    pub open spec fn in_bounds(self, x: int, y: int) -> bool {
        0 <= x < self.width && 0 <= y < self.height
    }

    /// A fresh, all-black frame.
    pub fn new(width: usize, height: usize) -> (r: Frame)
        requires
            width * height <= usize::MAX,
        ensures
            r.wf(),
            r.width == width,
            r.height == height,
            forall|x: int, y: int| r.in_bounds(x, y) ==> r.pixel(x, y) == black(),
    {
        let n: usize = width * height;
        let mut data: Vec<Rgb> = Vec::new();
        let mut i: usize = 0;
        while i < n
            invariant
                i <= n,
                data.len() == i,
                forall|k: int| 0 <= k < i ==> data[k] == black(),
            decreases n - i,
        {
            data.push(Rgb { r: 0, g: 0, b: 0 });
            i = i + 1;
        }
        let frame = Frame { width, height, data };
        proof {
            assert forall|x: int, y: int| frame.in_bounds(x, y) implies frame.pixel(x, y)
                == black() by {
                lemma_row_major_index(x, y, width as int, height as int);
            }
        }
        frame
    }

    /// Reads the color of pixel `(x, y)`.
    pub fn get(&self, x: usize, y: usize) -> (r: Rgb)
        requires
            self.wf(),
            x < self.width,
            y < self.height,
        ensures
            r == self.pixel(x as int, y as int),
    {
        proof {
            lemma_row_major_index(x as int, y as int, self.width as int, self.height as int);
        }
        self.data[y * self.width + x]
    }

    /// Writes color `c` to pixel `(x, y)`, leaving every other pixel as it was.
    pub fn set(&mut self, x: usize, y: usize, c: Rgb)
        requires
            old(self).wf(),
            x < old(self).width,
            y < old(self).height,
        ensures
            final(self).wf(),
            final(self).width == old(self).width,
            final(self).height == old(self).height,
            final(self).pixel(x as int, y as int) == c,
            forall|i: int, j: int|
                final(self).in_bounds(i, j) && (i, j) != (x as int, y as int) ==> final(self).pixel(
                    i,
                    j,
                ) == old(self).pixel(i, j),
    {
        proof {
            lemma_row_major_index(x as int, y as int, self.width as int, self.height as int);
        }
        let idx: usize = y * self.width + x;
        self.data.set(idx, c);
        proof {
            assert forall|i: int, j: int|
                self.in_bounds(i, j) && (i, j) != (x as int, y as int) implies self.pixel(i, j)
                == old(self).pixel(i, j) by {
                lemma_row_major_index(i, j, self.width as int, self.height as int);
                lemma_row_major_distinct(i, j, x as int, y as int, self.width as int);
            }
        }
    }
}

/// Row-major indexing stays inside a `width * height` buffer.
proof fn lemma_row_major_index(x: int, y: int, width: int, height: int) by (nonlinear_arith)
    requires
        0 <= x < width,
        0 <= y < height,
    ensures
        0 <= y * width + x < width * height,
{
}

/// Distinct pixel coordinates give distinct row-major indices.
proof fn lemma_row_major_distinct(x0: int, y0: int, x1: int, y1: int, width: int) by (nonlinear_arith)
    requires
        0 <= x0 < width,
        0 <= x1 < width,
        0 <= y0,
        0 <= y1,
        (x0, y0) != (x1, y1),
    ensures
        y0 * width + x0 != y1 * width + x1,
{
}

} // verus!
