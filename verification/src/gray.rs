//! An 8-bit grayscale image held row by row, and the pixel operations the
//! page pipeline applies to it: cropping, quarter turns, halving spreads,
//! tone curves, autocontrast, brightness and centring on a device canvas.

use vstd::prelude::*;

verus! {

/// Row-major index of pixel (x, y) lies inside a `w` x `h` buffer.
pub proof fn lemma_index_in_bounds(x: int, y: int, w: int, h: int)
    by (nonlinear_arith)
    requires
        0 <= x < w,
        0 <= y < h,
    ensures
        0 <= y * w + x < w * h,
        y * w + x + 1 <= w * h,
{
}

/// Distinct pixels have distinct row-major indices.
pub proof fn lemma_index_injective(x1: int, y1: int, x2: int, y2: int, w: int)
    by (nonlinear_arith)
    requires
        0 <= x1 < w,
        0 <= x2 < w,
        0 <= y1,
        0 <= y2,
        y1 * w + x1 == y2 * w + x2,
    ensures
        x1 == x2,
        y1 == y2,
{
}

proof fn lemma_mul_mono(a: int, b: int, c: int, d: int)
    by (nonlinear_arith)
    requires
        0 <= a <= c,
        0 <= b <= d,
    ensures
        a * b <= c * d,
{
}

proof fn lemma_mul_comm(a: int, b: int)
    by (nonlinear_arith)
    ensures
        a * b == b * a,
{
}

/// A grayscale image: `width` x `height` pixels, one byte each, row by row.
#[derive(Debug)]
pub struct GrayImage {
    width: u32,
    height: u32,
    data: Vec<u8>,
}

impl Clone for GrayImage {
    fn clone(&self) -> (r: Self)
        ensures
            r.wf() == self.wf(),
            r.w() == self.w(),
            r.h() == self.h(),
            r.raw() == self.raw(),
    {
        let data = self.data.clone();
        assert(data@ =~= self.data@);
        GrayImage { width: self.width, height: self.height, data }
    }
}

impl GrayImage {
    /// Well-formedness: the buffer holds exactly one byte per pixel.
    pub closed spec fn wf(&self) -> bool {
        &&& self.data@.len() == self.width as int * self.height as int
        &&& self.width as int * self.height as int <= usize::MAX
    }

    /// Width in pixels.
    pub closed spec fn w(&self) -> int {
        self.width as int
    }

    /// Height in pixels.
    pub closed spec fn h(&self) -> int {
        self.height as int
    }

    /// The value of pixel (x, y); meaningful for 0 <= x < w, 0 <= y < h.
    pub closed spec fn px(&self, x: int, y: int) -> u8 {
        self.data@[y * self.width + x]
    }

    /// The pixels row by row.
    pub closed spec fn raw(&self) -> Seq<u8> {
        self.data@
    }

    /// Whether (x, y) lies in the image.
    pub open spec fn contains(&self, x: int, y: int) -> bool {
        0 <= x < self.w() && 0 <= y < self.h()
    }

    /// The image's facts every caller may use: the buffer holds exactly one
    /// byte per pixel, row by row.
    pub proof fn lemma_shape(&self)
        requires
            self.wf(),
        ensures
            self.raw().len() == self.w() * self.h(),
            0 <= self.w() <= u32::MAX,
            0 <= self.h() <= u32::MAX,
            self.w() * self.h() <= usize::MAX,
            forall|x: int, y: int|
                #![trigger self.px(x, y)]
                self.contains(x, y) ==> self.px(x, y) == self.raw()[y * self.w() + x],
    {
    }

    /// An image of the given size whose every pixel is `value`.
    pub fn from_pixel(width: u32, height: u32, value: u8) -> (r: Self)
        requires
            width as int * height as int <= usize::MAX,
        ensures
            r.wf(),
            r.w() == width,
            r.h() == height,
            forall|x: int, y: int| #![trigger r.px(x, y)] r.contains(x, y) ==> r.px(x, y) == value,
    {
        let n: usize = (width as usize) * (height as usize);
        let data: Vec<u8> = vec![value; n];
        let r = GrayImage { width, height, data };
        proof {
            assert forall|x: int, y: int| #![trigger r.px(x, y)] r.contains(x, y) implies r.px(
                x,
                y,
            ) == value by {
                lemma_index_in_bounds(x, y, width as int, height as int);
            }
        }
        r
    }

    /// A black image of the given size.
    pub fn new(width: u32, height: u32) -> (r: Self)
        requires
            width as int * height as int <= usize::MAX,
        ensures
            r.wf(),
            r.w() == width,
            r.h() == height,
            forall|x: int, y: int| #![trigger r.px(x, y)] r.contains(x, y) ==> r.px(x, y) == 0,
    {
        Self::from_pixel(width, height, 0)
    }

    /// An image over a row-major buffer, or `None` when the buffer does not
    /// hold exactly `width * height` bytes.
    pub fn from_raw(width: u32, height: u32, data: Vec<u8>) -> (r: Option<Self>)
        ensures
            r is Some <==> data@.len() == width as int * height as int,
            r matches Some(img) ==> img.wf() && img.w() == width && img.h() == height && img.raw()
                == data@,
    {
        proof {
            lemma_mul_mono(width as int, height as int, u32::MAX as int, u32::MAX as int);
        }
        let n: u64 = (width as u64) * (height as u64);
        if (data.len() as u64) == n {
            assert(data@.len() <= usize::MAX);
            Some(GrayImage { width, height, data })
        } else {
            None
        }
    }

    /// An image over a row-major buffer that holds exactly one byte per pixel.
    pub fn from_raw_parts(width: u32, height: u32, data: Vec<u8>) -> (r: Self)
        requires
            data@.len() == width as int * height as int,
            width as int * height as int <= usize::MAX,
        ensures
            r.wf(),
            r.w() == width,
            r.h() == height,
            r.raw() == data@,
    {
        GrayImage { width, height, data }
    }

    /// The pixels row by row.
    pub fn as_raw(&self) -> (r: &Vec<u8>)
        ensures
            r@ == self.raw(),
    {
        &self.data
    }

    /// Gives up the image, keeping its pixels row by row.
    pub fn into_raw(self) -> (r: Vec<u8>)
        ensures
            r@ == self.raw(),
    {
        self.data
    }

    /// Width in pixels.
    pub fn width(&self) -> (r: u32)
        ensures
            r == self.w(),
    {
        self.width
    }

    /// Height in pixels.
    pub fn height(&self) -> (r: u32)
        ensures
            r == self.h(),
    {
        self.height
    }

    /// (width, height).
    pub fn dimensions(&self) -> (r: (u32, u32))
        ensures
            r.0 == self.w(),
            r.1 == self.h(),
    {
        (self.width, self.height)
    }

    /// The value of pixel (x, y).
    pub fn get_pixel(&self, x: u32, y: u32) -> (r: u8)
        requires
            self.wf(),
            self.contains(x as int, y as int),
        ensures
            r == self.px(x as int, y as int),
    {
        proof {
            lemma_index_in_bounds(x as int, y as int, self.w(), self.h());
        }
        self.data[(y as usize) * (self.width as usize) + (x as usize)]
    }

    /// Sets pixel (x, y) to `value`, leaving every other pixel as it was.
    pub fn put_pixel(&mut self, x: u32, y: u32, value: u8)
        requires
            old(self).wf(),
            old(self).contains(x as int, y as int),
        ensures
            final(self).wf(),
            final(self).w() == old(self).w(),
            final(self).h() == old(self).h(),
            final(self).px(x as int, y as int) == value,
            forall|i: int, j: int|
                #![trigger final(self).px(i, j)]
                final(self).contains(i, j) && (i != x || j != y) ==> final(self).px(i, j) == old(
                    self,
                ).px(i, j),
    {
        proof {
            lemma_index_in_bounds(x as int, y as int, self.w(), self.h());
        }
        let idx: usize = (y as usize) * (self.width as usize) + (x as usize);
        self.data.set(idx, value);
        proof {
            assert forall|i: int, j: int|
                #![trigger self.px(i, j)]
                self.contains(i, j) && (i != x || j != y) implies self.px(i, j) == old(self).px(
                i,
                j,
            ) by {
                lemma_index_in_bounds(i, j, self.w(), self.h());
                if i * 0 == 0 && j * self.w() + i == idx {
                    lemma_index_injective(i, j, x as int, y as int, self.w());
                }
            }
        }
    }
}

/// The start of a crop along one axis: `at`, moved back inside the image.
pub open spec fn crop_start(size: int, at: int) -> int {
    if at < size { at } else { size }
}

/// The length of a crop along one axis: `len`, cut at the image's edge.
pub open spec fn crop_len(size: int, at: int, len: int) -> int {
    let start = crop_start(size, at);
    if len < size - start { len } else { size - start }
}

/// Where pixel (x, y) of an image `w` wide and `h` high lands after a
/// quarter turn: clockwise it goes to (h - 1 - y, x), counter-clockwise to
/// (y, w - 1 - x). This spec gives, for a pixel (i, j) of the turned image,
/// the source pixel it shows.
pub open spec fn turned_source(w: int, h: int, clockwise: bool, i: int, j: int) -> (int, int) {
    if clockwise {
        (j, h - 1 - i)
    } else {
        (w - 1 - j, i)
    }
}

/// `r` is `img` turned a quarter (clockwise when `clockwise`).
pub open spec fn is_turn_of(r: GrayImage, img: GrayImage, clockwise: bool) -> bool {
    &&& r.w() == img.h()
    &&& r.h() == img.w()
    &&& forall|i: int, j: int|
        #![trigger r.px(i, j)]
        r.contains(i, j) ==> {
            let (sx, sy) = turned_source(img.w(), img.h(), clockwise, i, j);
            r.px(i, j) == img.px(sx, sy)
        }
}

/// Two images of the same size showing the same pixels.
pub open spec fn same_pixels(a: GrayImage, b: GrayImage) -> bool {
    &&& a.w() == b.w()
    &&& a.h() == b.h()
    &&& forall|i: int, j: int| #![trigger a.px(i, j)] a.contains(i, j) ==> a.px(i, j) == b.px(i, j)
}

impl GrayImage {
    /// The part of the image starting at (x, y) and `width` x `height` large,
    /// cut at the image's edges (as `imageops::crop_imm` cuts it).
    pub fn crop(&self, x: u32, y: u32, width: u32, height: u32) -> (r: Self)
        requires
            self.wf(),
        ensures
            r.wf(),
            r.w() == crop_len(self.w(), x as int, width as int),
            r.h() == crop_len(self.h(), y as int, height as int),
            forall|i: int, j: int|
                #![trigger r.px(i, j)]
                r.contains(i, j) ==> r.px(i, j) == self.px(
                    crop_start(self.w(), x as int) + i,
                    crop_start(self.h(), y as int) + j,
                ),
    {
        let cx: u32 = if x < self.width { x } else { self.width };
        let cy: u32 = if y < self.height { y } else { self.height };
        let cw: u32 = if width < self.width - cx { width } else { self.width - cx };
        let ch: u32 = if height < self.height - cy { height } else { self.height - cy };
        proof {
            lemma_mul_mono(cw as int, ch as int, self.w(), self.h());
        }
        let mut out = GrayImage::new(cw, ch);
        let mut j: u32 = 0;
        while j < ch
            invariant
                self.wf(),
                out.wf(),
                out.w() == cw,
                out.h() == ch,
                j <= ch,
                cx + cw <= self.w(),
                cy + ch <= self.h(),
                forall|i2: int, j2: int|
                    #![trigger out.px(i2, j2)]
                    0 <= i2 < cw && 0 <= j2 < j ==> out.px(i2, j2) == self.px(cx + i2, cy + j2),
            decreases ch - j,
        {
            let mut i: u32 = 0;
            while i < cw
                invariant
                    self.wf(),
                    out.wf(),
                    out.w() == cw,
                    out.h() == ch,
                    i <= cw,
                    j < ch,
                    cx + cw <= self.w(),
                    cy + ch <= self.h(),
                    forall|i2: int, j2: int|
                        #![trigger out.px(i2, j2)]
                        0 <= i2 < cw && 0 <= j2 < j ==> out.px(i2, j2) == self.px(
                            cx + i2,
                            cy + j2,
                        ),
                    forall|i2: int|
                        #![trigger out.px(i2, j as int)]
                        0 <= i2 < i ==> out.px(i2, j as int) == self.px(cx + i2, cy + j),
                decreases cw - i,
            {
                let v = self.get_pixel(cx + i, cy + j);
                out.put_pixel(i, j, v);
                i += 1;
            }
            j += 1;
        }
        out
    }

    /// The image turned a quarter: clockwise when `clockwise`, otherwise
    /// counter-clockwise. The result is `height` wide and `width` high.
    pub fn rotate_90(&self, clockwise: bool) -> (r: Self)
        requires
            self.wf(),
        ensures
            r.wf(),
            is_turn_of(r, *self, clockwise),
    {
        let w = self.width;
        let h = self.height;
        proof {
            lemma_mul_comm(w as int, h as int);
        }
        let mut out = GrayImage::new(h, w);
        let mut j: u32 = 0;
        while j < w
            invariant
                self.wf(),
                out.wf(),
                self.w() == w,
                self.h() == h,
                out.w() == h,
                out.h() == w,
                j <= w,
                forall|i2: int, j2: int|
                    #![trigger out.px(i2, j2)]
                    0 <= i2 < h && 0 <= j2 < j ==> {
                        let (sx, sy) = turned_source(w as int, h as int, clockwise, i2, j2);
                        out.px(i2, j2) == self.px(sx, sy)
                    },
            decreases w - j,
        {
            let mut i: u32 = 0;
            while i < h
                invariant
                    self.wf(),
                    out.wf(),
                    self.w() == w,
                    self.h() == h,
                    out.w() == h,
                    out.h() == w,
                    i <= h,
                    j < w,
                    forall|i2: int, j2: int|
                        #![trigger out.px(i2, j2)]
                        0 <= i2 < h && 0 <= j2 < j ==> {
                            let (sx, sy) = turned_source(w as int, h as int, clockwise, i2, j2);
                            out.px(i2, j2) == self.px(sx, sy)
                        },
                    forall|i2: int|
                        #![trigger out.px(i2, j as int)]
                        0 <= i2 < i ==> {
                            let (sx, sy) = turned_source(
                                w as int,
                                h as int,
                                clockwise,
                                i2,
                                j as int,
                            );
                            out.px(i2, j as int) == self.px(sx, sy)
                        },
                decreases h - i,
            {
                let v = if clockwise {
                    self.get_pixel(j, h - 1 - i)
                } else {
                    self.get_pixel(w - 1 - j, i)
                };
                out.put_pixel(i, j, v);
                i += 1;
            }
            j += 1;
        }
        out
    }

    /// The left and right halves of a spread, each `width / 2` wide (an odd
    /// last column belongs to neither).
    pub fn split_halves(&self) -> (r: (Self, Self))
        requires
            self.wf(),
        ensures
            r.0.wf(),
            r.1.wf(),
            r.0.w() == self.w() / 2,
            r.1.w() == self.w() / 2,
            r.0.h() == self.h(),
            r.1.h() == self.h(),
            forall|i: int, j: int| #![trigger r.0.px(i, j)] r.0.contains(i, j) ==> r.0.px(i, j) == self.px(i, j),
            forall|i: int, j: int|
                #![trigger r.1.px(i, j)]
                r.1.contains(i, j) ==> r.1.px(i, j) == self.px(self.w() / 2 + i, j),
    {
        let half = self.width / 2;
        let left = self.crop(0, 0, half, self.height);
        let right = self.crop(half, 0, half, self.height);
        (left, right)
    }
}

/// Turning a page clockwise and then counter-clockwise gives back the
/// page, and so does the opposite order.
pub proof fn turn_back_restores(img: GrayImage, a: GrayImage, b: GrayImage, clockwise: bool)
    requires
        is_turn_of(a, img, clockwise),
        is_turn_of(b, a, !clockwise),
    ensures
        same_pixels(b, img),
{
    assert forall|i: int, j: int| #![trigger b.px(i, j)] b.contains(i, j) implies b.px(i, j)
        == img.px(i, j) by {
        let (ax, ay) = turned_source(a.w(), a.h(), !clockwise, i, j);
        assert(a.contains(ax, ay));
        assert(b.px(i, j) == a.px(ax, ay));
    }
}

/// Four clockwise quarter turns give back the page.
pub proof fn four_turns_restore(
    img: GrayImage,
    a: GrayImage,
    b: GrayImage,
    c: GrayImage,
    d: GrayImage,
)
    requires
        is_turn_of(a, img, true),
        is_turn_of(b, a, true),
        is_turn_of(c, b, true),
        is_turn_of(d, c, true),
    ensures
        same_pixels(d, img),
{
    assert forall|i: int, j: int| #![trigger d.px(i, j)] d.contains(i, j) implies d.px(i, j)
        == img.px(i, j) by {
        let (cx, cy) = turned_source(c.w(), c.h(), true, i, j);
        assert(c.contains(cx, cy));
        let (bx, by) = turned_source(b.w(), b.h(), true, cx, cy);
        assert(b.contains(bx, by));
        let (ax, ay) = turned_source(a.w(), a.h(), true, bx, by);
        assert(a.contains(ax, ay));
        assert(c.px(cx, cy) == b.px(bx, by));
        assert(b.px(bx, by) == a.px(ax, ay));
    }
}

} // verus!
