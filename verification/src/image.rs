//! A YCbCr 4:2:2 image: pairs of horizontal pixels share their chroma.
//!
//! The buffer stores one `YCbCr422` element per pixel pair, row-major;
//! `width_422` counts pairs per row, so the image is `2 * width_422`
//! pixels wide. Single-pixel reads expand a pair into a full-chroma
//! `YCbCr444` sample.

use vstd::prelude::*;

verus! {

/// Two horizontal luma samples sharing one pair of chroma samples.
#[derive(Clone, Copy, Debug, PartialEq, Eq, Structural)]
pub struct YCbCr422 {
    pub y1: u8,
    pub cb: u8,
    pub y2: u8,
    pub cr: u8,
}

impl Default for YCbCr422 {
    /// All samples zero.
    fn default() -> (r: Self)
        ensures
            r == (YCbCr422 { y1: 0, cb: 0, y2: 0, cr: 0 }),
    {
        YCbCr422 { y1: 0, cb: 0, y2: 0, cr: 0 }
    }
}

/// One pixel with its own luma and chroma samples.
#[derive(Clone, Copy, Debug, PartialEq, Eq, Structural)]
pub struct YCbCr444 {
    pub y: u8,
    pub cb: u8,
    pub cr: u8,
}

impl Default for YCbCr444 {
    /// All samples zero.
    fn default() -> (r: Self)
        ensures
            r == (YCbCr444 { y: 0, cb: 0, cr: 0 }),
    {
        YCbCr444 { y: 0, cb: 0, cr: 0 }
    }
}

/// A row-major 4:2:2 image of `width_422` pixel pairs per row.
#[derive(Clone, Debug)]
pub struct Image {
    buffer: Vec<YCbCr422>,
    width_422: u32,
    height: u32,
}

impl Image {
    /// The stored pixel pairs, row-major.
    pub closed spec fn buffer_spec(&self) -> Seq<YCbCr422> {
        self.buffer@
    }

    /// Pixel pairs per row.
    pub closed spec fn width_422_spec(&self) -> u32 {
        self.width_422
    }

    /// Rows.
    pub closed spec fn height_spec(&self) -> u32 {
        self.height
    }

    /// Well-formedness: one buffer element per pair, and a width whose
    /// doubling stays a `u32`.
    pub open spec fn wf(&self) -> bool {
        &&& self.buffer_spec().len() == self.width_422_spec() * self.height_spec()
        &&& 2 * self.width_422_spec() <= u32::MAX
    }

    /// The pixel at column `x`, row `y`: the left or right half of the
    /// pair at `x / 2`, with the pair's chroma.
    pub open spec fn pixel_at(&self, x: u32, y: u32) -> YCbCr444 {
        let pair = self.buffer_spec()[y * self.width_422_spec() + x / 2];
        YCbCr444 {
            y: if x % 2 == 0 {
                pair.y1
            } else {
                pair.y2
            },
            cb: pair.cb,
            cr: pair.cr,
        }
    }

    /// An all-zero image of the given even width and height.
    pub fn zero(width: u32, height: u32) -> (r: Self)
        requires
            width % 2 == 0,
            (width / 2) * height <= usize::MAX,
        ensures
            r.wf(),
            r.width_422_spec() == width / 2,
            r.height_spec() == height,
            forall|i: int| 0 <= i < r.buffer_spec().len() ==> r.buffer_spec()[i] == (YCbCr422 {
                y1: 0,
                cb: 0,
                y2: 0,
                cr: 0,
            }),
    {
        let width_422 = width / 2;
        let total = (width_422 as usize) * (height as usize);
        let mut buffer: Vec<YCbCr422> = Vec::new();
        let mut i: usize = 0;
        while i < total
            invariant
                i <= total,
                buffer@.len() == i,
                forall|j: int| 0 <= j < i ==> buffer@[j] == (YCbCr422 {
                    y1: 0,
                    cb: 0,
                    y2: 0,
                    cr: 0,
                }),
            decreases total - i,
        {
            buffer.push(YCbCr422::default());
            i = i + 1;
        }
        Image { buffer, width_422, height }
    }

    /// Wraps an existing pair buffer with its dimensions.
    pub fn from_ycbcr_buffer(buffer: Vec<YCbCr422>, width_422: u32, height: u32) -> (r: Self)
        ensures
            r.buffer_spec() == buffer@,
            r.width_422_spec() == width_422,
            r.height_spec() == height,
            buffer@.len() == width_422 * height && 2 * width_422 <= u32::MAX ==> r.wf(),
    {
        Image { buffer, width_422, height }
    }

    /// Reinterprets a raw byte buffer as pixel pairs: each group of four
    /// bytes becomes `y1`, `cb`, `y2`, `cr`, in that order.
    #[verifier::rlimit(30)]
    pub fn from_raw_buffer(buffer: Vec<u8>, width_422: u32, height: u32) -> (r: Self)
        requires
            buffer@.len() % 4 == 0,
        ensures
            r.buffer_spec().len() == buffer@.len() / 4,
            forall|i: int| 0 <= i < r.buffer_spec().len() ==> r.buffer_spec()[i] == (YCbCr422 {
                y1: buffer@[4 * i],
                cb: buffer@[4 * i + 1],
                y2: buffer@[4 * i + 2],
                cr: buffer@[4 * i + 3],
            }),
            r.width_422_spec() == width_422,
            r.height_spec() == height,
    {
        let len = buffer.len();
        let total = len / 4;
        let mut pairs: Vec<YCbCr422> = Vec::new();
        let mut i: usize = 0;
        while i < total
            invariant
                i <= total,
                len == buffer@.len(),
                total == buffer@.len() / 4,
                buffer@.len() % 4 == 0,
                pairs@.len() == i,
                forall|j: int| 0 <= j < i ==> pairs@[j] == (YCbCr422 {
                    y1: buffer@[4 * j],
                    cb: buffer@[4 * j + 1],
                    y2: buffer@[4 * j + 2],
                    cr: buffer@[4 * j + 3],
                }),
            decreases total - i,
        {
            proof {
                assert(buffer@.len() == 4 * (buffer@.len() / 4));
                assert(4 * (i as int) + 3 < buffer@.len());
            }
            let base = 4 * i;
            let pair = YCbCr422 {
                y1: buffer[base],
                cb: buffer[base + 1],
                y2: buffer[base + 2],
                cr: buffer[base + 3],
            };
            pairs.push(pair);
            i = i + 1;
        }
        Image { buffer: pairs, width_422, height }
    }

    /// The width in pixels: two per stored pair.
    pub fn width(&self) -> (r: u32)
        requires
            self.wf(),
        ensures
            r == 2 * self.width_422_spec(),
    {
        self.width_422 * 2
    }

    /// The height in rows.
    pub fn height(&self) -> (r: u32)
        ensures
            r == self.height_spec(),
    {
        self.height
    }

    /// The buffer index of the pair holding column `x` of row `y`.
    fn coordinates_to_buffer_index(&self, x: u32, y: u32) -> (r: usize)
        requires
            self.wf(),
            x < 2 * self.width_422_spec(),
            y < self.height_spec(),
        ensures
            r == y * self.width_422_spec() + x / 2,
            r < self.buffer_spec().len(),
    {
        let x_422 = x / 2;
        let n = self.buffer.len();
        proof {
            let w = self.width_422_spec() as int;
            let h = self.height_spec() as int;
            assert((y as int) * w + x_422 < w * h) by (nonlinear_arith)
                requires
                    0 <= (y as int) < h,
                    0 <= x_422 < w,
            ;
            assert(w * h == n);
        }
        (y as usize) * (self.width_422 as usize) + (x_422 as usize)
    }

    /// The pixel at column `x`, row `y`. The coordinates must lie inside
    /// the image.
    pub fn at(&self, x: u32, y: u32) -> (r: YCbCr444)
        requires
            self.wf(),
            x < 2 * self.width_422_spec(),
            y < self.height_spec(),
        ensures
            r == self.pixel_at(x, y),
    {
        let pixel = self.buffer[self.coordinates_to_buffer_index(x, y)];
        let is_left_pixel = x % 2 == 0;
        YCbCr444 {
            y: if is_left_pixel {
                pixel.y1
            } else {
                pixel.y2
            },
            cb: pixel.cb,
            cr: pixel.cr,
        }
    }

    /// The pixel at column `x`, row `y`, absent when the coordinates lie
    /// outside the image.
    pub fn try_at(&self, x: u32, y: u32) -> (r: Option<YCbCr444>)
        requires
            self.wf(),
        ensures
            x < 2 * self.width_422_spec() && y < self.height_spec() ==> r == Some(
                self.pixel_at(x, y),
            ),
            !(x < 2 * self.width_422_spec() && y < self.height_spec()) ==> r is None,
    {
        if x >= self.width() || y >= self.height() {
            return None;
        }
        Some(self.at(x, y))
    }

    /// The stored pair at pair-column `x`, row `y`.
    pub fn at_422(&self, x: usize, y: usize) -> (r: YCbCr422)
        requires
            self.wf(),
            x < self.width_422_spec(),
            y < self.height_spec(),
        ensures
            r == self.buffer_spec()[y * self.width_422_spec() + x],
    {
        let n = self.buffer.len();
        proof {
            let w = self.width_422_spec() as int;
            let h = self.height_spec() as int;
            assert((y as int) * w + x < w * h) by (nonlinear_arith)
                requires
                    0 <= (y as int) < h,
                    0 <= (x as int) < w,
            ;
            assert(w * h == n);
        }
        self.buffer[y * (self.width_422 as usize) + x]
    }

    /// The underlying pair buffer.
    pub fn buffer(&self) -> (r: &Vec<YCbCr422>)
        ensures
            r@ == self.buffer_spec(),
    {
        &self.buffer
    }
}

} // verus!
