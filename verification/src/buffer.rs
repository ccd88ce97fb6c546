//! A resizable row-major pixel buffer of packed 32-bit colors. Every write
//! is bounds-checked against the current dimensions; out-of-bounds writes
//! are silently dropped, never an error.

use vstd::prelude::*;

verus! {

/// Largest width or height of a pixel buffer, in pixels.
pub const MAX_DIM: usize = 32768;

/// Row-major indices are unique per pixel and in range.
proof fn lemma_rowmajor(w: int, h: int, x: int, y: int)
    requires
        0 <= x < w,
        0 <= y < h,
    ensures
        0 <= y * w + x < w * h,
{
    assert(0 <= y * w + x < w * h) by (nonlinear_arith)
        requires
            0 <= x < w,
            0 <= y < h,
    ;
}

/// Distinct pixels have distinct row-major indices.
proof fn lemma_rowmajor_injective(w: int, x1: int, y1: int, x2: int, y2: int)
    requires
        0 <= x1 < w,
        0 <= x2 < w,
        0 <= y1,
        0 <= y2,
        y1 * w + x1 == y2 * w + x2,
    ensures
        x1 == x2 && y1 == y2,
{
    assert(x1 == x2 && y1 == y2) by (nonlinear_arith)
        requires
            0 <= x1 < w,
            0 <= x2 < w,
            0 <= y1,
            0 <= y2,
            y1 * w + x1 == y2 * w + x2,
    ;
}

/// A 2D grid of packed colors, stored row-major.
pub struct PixelBuffer {
    data: Vec<u32>,
    width: usize,
    height: usize,
}

impl PixelBuffer {
    /// The storage matches the current dimensions.
    pub closed spec fn wf(&self) -> bool {
        &&& self.width <= MAX_DIM
        &&& self.height <= MAX_DIM
        &&& self.data@.len() == self.width * self.height
    }

    /// Current width, in pixels.
    pub closed spec fn w(&self) -> int {
        self.width as int
    }

    /// Current height, in pixels.
    pub closed spec fn h(&self) -> int {
        self.height as int
    }

    /// The color at column `x`, row `y`.
    pub closed spec fn pix(&self, x: int, y: int) -> u32
        recommends
            0 <= x < self.w(),
            0 <= y < self.h(),
    {
        self.data@[y * self.w() + x]
    }

    /// A fresh buffer with every pixel set to `color`.
    pub fn new(width: usize, height: usize, color: u32) -> (buf: PixelBuffer)
        requires
            width <= MAX_DIM,
            height <= MAX_DIM,
        ensures
            buf.wf(),
            buf.w() == width,
            buf.h() == height,
            forall|px: int, py: int|
                0 <= px < width && 0 <= py < height ==> #[trigger] buf.pix(px, py) == color,
    {
        proof {
            if width > 0 && height > 0 {
                lemma_rowmajor(width as int, height as int, width - 1, height - 1);
            }
            assert(width * height <= MAX_DIM * MAX_DIM) by (nonlinear_arith)
                requires width <= MAX_DIM && height <= MAX_DIM;
        }
        let n: usize = width * height;
        let mut data: Vec<u32> = Vec::new();
        let mut i: usize = 0;
        while i < n
            invariant
                i <= n,
                data@.len() == i,
                forall|k: int| 0 <= k < i ==> data@[k] == color,
            decreases n - i,
        {
            data.push(color);
            i = i + 1;
        }
        let buf = PixelBuffer { data, width, height };
        proof {
            assert forall|px: int, py: int|
                0 <= px < width && 0 <= py < height implies #[trigger] buf.pix(px, py) == color by {
                lemma_rowmajor(width as int, height as int, px, py);
            }
        }
        buf
    }

    /// Replace the buffer with one of the given dimensions, all pixels set to
    /// `color`; previous contents are not preserved.
    pub fn resize(&mut self, width: usize, height: usize, color: u32)
        requires
            width <= MAX_DIM,
            height <= MAX_DIM,
        ensures
            final(self).wf(),
            final(self).w() == width,
            final(self).h() == height,
            forall|px: int, py: int|
                0 <= px < width && 0 <= py < height ==> #[trigger] final(self).pix(px, py) == color,
    {
        let fresh = PixelBuffer::new(width, height, color);
        *self = fresh;
    }

    /// Overwrite every pixel with `color`, keeping the dimensions.
    pub fn clear(&mut self, color: u32)
        requires
            old(self).wf(),
        ensures
            final(self).wf(),
            final(self).w() == old(self).w(),
            final(self).h() == old(self).h(),
            forall|px: int, py: int|
                0 <= px < old(self).w() && 0 <= py < old(self).h()
                    ==> #[trigger] final(self).pix(px, py) == color,
    {
        let n: usize = self.data.len();
        let mut i: usize = 0;
        while i < n
            invariant
                i <= n,
                self.data@.len() == n,
                self.width == old(self).width,
                self.height == old(self).height,
                forall|k: int| 0 <= k < i ==> self.data@[k] == color,
            decreases n - i,
        {
            self.data[i] = color;
            i = i + 1;
        }
        proof {
            assert forall|px: int, py: int|
                0 <= px < old(self).w() && 0 <= py < old(self).h()
                    implies #[trigger] self.pix(px, py) == color by {
                lemma_rowmajor(self.w(), self.h(), px, py);
            }
        }
    }

    /// Write one pixel, silently dropping the write when `(x, y)` lies
    /// outside the current dimensions.
    pub fn set_pixel(&mut self, x: i64, y: i64, color: u32)
        requires
            old(self).wf(),
        ensures
            final(self).wf(),
            final(self).w() == old(self).w(),
            final(self).h() == old(self).h(),
            forall|px: int, py: int|
                0 <= px < old(self).w() && 0 <= py < old(self).h()
                    ==> #[trigger] final(self).pix(px, py) == (if px == x as int && py == y as int {
                        color
                    } else {
                        old(self).pix(px, py)
                    }),
    {
        if x >= 0 && y >= 0 && x < self.width as i64 && y < self.height as i64 {
            let xi: usize = x as usize;
            let yi: usize = y as usize;
            proof {
                lemma_rowmajor(self.w(), self.h(), xi as int, yi as int);
                assert(yi * self.width + xi < MAX_DIM * MAX_DIM) by (nonlinear_arith)
                    requires
                        yi * self.width as int + xi < self.width * self.height,
                        self.width <= MAX_DIM,
                        self.height <= MAX_DIM,
                ;
            }
            let idx: usize = yi * self.width + xi;
            self.data[idx] = color;
            proof {
                assert forall|px: int, py: int|
                    0 <= px < old(self).w() && 0 <= py < old(self).h()
                        implies #[trigger] self.pix(px, py) == (if px == x as int && py == y as int {
                            color
                        } else {
                            old(self).pix(px, py)
                        }) by {
                    lemma_rowmajor(self.w(), self.h(), px, py);
                    if !(px == x as int && py == y as int) {
                        if py * self.w() + px == yi as int * self.w() + xi as int {
                            lemma_rowmajor_injective(self.w(), px, py, xi as int, yi as int);
                            assert(false);
                        }
                    }
                }
            }
        }
    }

    /// Current width, in pixels.
    pub fn width(&self) -> (w: usize)
        ensures
            w == self.w(),
    {
        self.width
    }

    /// Current height, in pixels.
    pub fn height(&self) -> (h: usize)
        ensures
            h == self.h(),
    {
        self.height
    }

    /// Read one pixel.
    pub fn pixel(&self, x: usize, y: usize) -> (c: u32)
        requires
            self.wf(),
            x < self.w(),
            y < self.h(),
        ensures
            c == self.pix(x as int, y as int),
    {
        proof {
            lemma_rowmajor(self.w(), self.h(), x as int, y as int);
            assert(y * self.width + x < MAX_DIM * MAX_DIM) by (nonlinear_arith)
                requires
                    y * self.width as int + x < self.width * self.height,
                    self.width <= MAX_DIM,
                    self.height <= MAX_DIM,
            ;
        }
        let idx: usize = y * self.width + x;
        self.data[idx]
    }

    /// The raw row-major pixel array, for handing a frame to a display sink.
    pub fn raw(&self) -> (d: &Vec<u32>)
        requires
            self.wf(),
        ensures
            d@.len() == self.w() * self.h(),
    {
        &self.data
    }
}

} // verus!
