//! A plain ARGB pixel buffer the renderer fills from the grid state.

use vstd::prelude::*;

verus! {

/// The packed ARGB color of a dead cell (opaque black).
pub const DEAD: u32 = 0xFF000000;

/// The packed ARGB color of a live cell (opaque white).
pub const ALIVE: u32 = 0xFFFFFFFF;

/// A row-major `0xAARRGGBB` pixel buffer of fixed width and height.
pub struct Framebuffer {
    w: usize,
    h: usize,
    buf: Vec<u32>,
}

impl Framebuffer {
    /// Internal well-formedness: the buffer holds exactly `width * height`
    /// pixels.
    pub closed spec fn wf(&self) -> bool {
        &&& self.w * self.h <= usize::MAX
        &&& self.buf@.len() == self.w * self.h
    }

    /// Number of pixel columns.
    pub closed spec fn width(&self) -> int {
        self.w as int
    }

    /// Number of pixel rows.
    pub closed spec fn height(&self) -> int {
        self.h as int
    }

    /// Whether `(x, y)` is a pixel of the buffer.
    pub open spec fn in_bounds(&self, x: int, y: int) -> bool {
        0 <= x < self.width() && 0 <= y < self.height()
    }

    /// The color of the in-bounds pixel `(x, y)`.
    pub closed spec fn pixel(&self, x: int, y: int) -> u32 {
        self.buf@[y * self.width() + x]
    }

    /// Creates a buffer of the given size with every pixel set to `DEAD`.
    pub fn new(w: usize, h: usize) -> (r: Framebuffer)
        requires
            w * h <= usize::MAX,
        ensures
            r.wf(),
            r.width() == w,
            r.height() == h,
            forall|x: int, y: int| r.in_bounds(x, y) ==> r.pixel(x, y) == DEAD,
    {
        let n = w * h;
        let mut buf: Vec<u32> = Vec::new();
        while buf.len() < n
            invariant
                buf@.len() <= n,
                forall|i: int| 0 <= i < buf@.len() ==> buf@[i] == DEAD,
            decreases n - buf@.len(),
        {
            buf.push(DEAD);
        }
        let r = Framebuffer { w, h, buf };
        proof {
            assert forall|x: int, y: int| r.in_bounds(x, y) implies r.pixel(x, y) == DEAD by {
                crate::life::lemma_grid_index(w as int, h as int, x, y);
            }
        }
        r
    }

    /// Row-major index of the in-bounds pixel `(x, y)`.
    pub fn idx(&self, x: usize, y: usize) -> (i: usize)
        requires
            self.wf(),
            self.in_bounds(x as int, y as int),
        ensures
            i == y * self.width() + x,
            i < self.width() * self.height(),
    {
        proof {
            crate::life::lemma_grid_index(self.width(), self.height(), x as int, y as int);
        }
        y * self.w + x
    }

    /// Draws one pixel; coordinates outside the buffer are silently ignored.
    pub fn point(&mut self, x: usize, y: usize, color: u32)
        requires
            old(self).wf(),
        ensures
            final(self).wf(),
            final(self).width() == old(self).width(),
            final(self).height() == old(self).height(),
            forall|a: int, b: int|
                old(self).in_bounds(a, b) ==> final(self).pixel(a, b) == (if a == x as int && b == y
                    as int {
                    color
                } else {
                    old(self).pixel(a, b)
                }),
    {
        if x < self.w && y < self.h {
            let i = self.idx(x, y);
            self.buf[i] = color;
            proof {
                assert forall|a: int, b: int| old(self).in_bounds(a, b) implies final(self).pixel(
                    a,
                    b,
                ) == (if a == x as int && b == y as int {
                    color
                } else {
                    old(self).pixel(a, b)
                }) by {
                    crate::life::lemma_grid_index(self.width(), self.height(), a, b);
                    crate::life::lemma_grid_index_injective(self.width(), a, b, x as int, y as int);
                }
            }
        }
    }

    /// Reads the color of pixel `(x, y)`; coordinates outside the buffer
    /// read as `DEAD`.
    pub fn get_color(&self, x: usize, y: usize) -> (r: u32)
        requires
            self.wf(),
        ensures
            r == (if self.in_bounds(x as int, y as int) {
                self.pixel(x as int, y as int)
            } else {
                DEAD
            }),
    {
        if x < self.w && y < self.h {
            let i = self.idx(x, y);
            self.buf[i]
        } else {
            DEAD
        }
    }

    /// Fills every pixel with `color`.
    pub fn clear(&mut self, color: u32)
        requires
            old(self).wf(),
        ensures
            final(self).wf(),
            final(self).width() == old(self).width(),
            final(self).height() == old(self).height(),
            forall|a: int, b: int|
                final(self).in_bounds(a, b) ==> final(self).pixel(a, b) == color,
    {
        let n = self.buf.len();
        let mut i: usize = 0;
        while i < n
            invariant
                i <= n,
                self.buf@.len() == n,
                self.w == old(self).w,
                self.h == old(self).h,
                old(self).wf(),
                forall|j: int| 0 <= j < i ==> self.buf@[j] == color,
            decreases n - i,
        {
            self.buf[i] = color;
            i += 1;
        }
        proof {
            assert forall|a: int, b: int| final(self).in_bounds(a, b) implies final(self).pixel(
                a,
                b,
            ) == color by {
                crate::life::lemma_grid_index(self.width(), self.height(), a, b);
            }
        }
    }

    /// The buffer's width and height, in pixels.
    pub fn dims(&self) -> (r: (usize, usize))
        ensures
            r.0 == self.width(),
            r.1 == self.height(),
    {
        (self.w, self.h)
    }

    /// Read-only view of the whole pixel buffer in row-major order, for
    /// handing to a display surface.
    pub fn buffer(&self) -> (r: &Vec<u32>)
        requires
            self.wf(),
        ensures
            r@.len() == self.width() * self.height(),
            forall|x: int, y: int|
                self.in_bounds(x, y) ==> r@[y * self.width() + x] == self.pixel(x, y),
    {
        &self.buf
    }
}

} // verus!
