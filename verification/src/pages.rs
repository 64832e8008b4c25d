//! Which device pages a scanned page becomes, and how a resized page is
//! laid on the device screen.

use vstd::prelude::*;
use crate::autocrop::{auto_crop, crop_rect};
use crate::gray::{GrayImage, is_turn_of};
use crate::settings::{ComicConfig, SplitStrategy, gamma_is_applied};
use crate::tone::{transform, transformed};

verus! {

/// One device page cut out of a scanned page.
#[derive(Debug, Clone, Copy, PartialEq, Eq, Structural)]
pub enum PagePiece {
    /// The page as it is.
    Whole,
    /// The page turned a quarter (clockwise when `clockwise`).
    Turned { clockwise: bool },
    /// The left half of a spread.
    LeftHalf,
    /// The right half of a spread.
    RightHalf,
}

/// A page wider than tall is a double-page spread.
pub open spec fn is_spread(width: int, height: int) -> bool {
    width > height
}

/// The two halves of a spread in reading order: right half first when
/// reading right to left.
pub open spec fn halves_in_order(right_to_left: bool) -> Seq<PagePiece> {
    if right_to_left {
        seq![PagePiece::RightHalf, PagePiece::LeftHalf]
    } else {
        seq![PagePiece::LeftHalf, PagePiece::RightHalf]
    }
}

/// The device pages of a `width` x `height` page: single pages stay whole;
/// a spread is split into its halves, turned (clockwise for right-to-left
/// reading), or shown turned and then as its halves, as the strategy says.
pub open spec fn page_plan(
    width: int,
    height: int,
    split: SplitStrategy,
    right_to_left: bool,
) -> Seq<PagePiece> {
    if !is_spread(width, height) {
        seq![PagePiece::Whole]
    } else {
        match split {
            SplitStrategy::Keep => seq![PagePiece::Whole],
            SplitStrategy::Split => halves_in_order(right_to_left),
            SplitStrategy::Rotate => seq![PagePiece::Turned { clockwise: right_to_left }],
            SplitStrategy::RotateAndSplit => seq![PagePiece::Turned { clockwise: right_to_left }]
                + halves_in_order(right_to_left),
        }
    }
}

/// The device pages of a `width` x `height` page, in reading order.
pub fn plan_pages(width: u32, height: u32, split: SplitStrategy, right_to_left: bool) -> (r: Vec<
    PagePiece,
>)
    ensures
        r@ == page_plan(width as int, height as int, split, right_to_left),
        width > height && split == SplitStrategy::Rotate ==> r@ == seq![
            PagePiece::Turned { clockwise: right_to_left },
        ],
{
    let mut r: Vec<PagePiece> = Vec::new();
    if width <= height {
        r.push(PagePiece::Whole);
        proof {
            assert(r@ =~= page_plan(width as int, height as int, split, right_to_left));
        }
        return r;
    }
    let (first, second) = if right_to_left {
        (PagePiece::RightHalf, PagePiece::LeftHalf)
    } else {
        (PagePiece::LeftHalf, PagePiece::RightHalf)
    };
    match split {
        SplitStrategy::Keep => {
            r.push(PagePiece::Whole);
        },
        SplitStrategy::Split => {
            r.push(first);
            r.push(second);
        },
        SplitStrategy::Rotate => {
            r.push(PagePiece::Turned { clockwise: right_to_left });
        },
        SplitStrategy::RotateAndSplit => {
            r.push(PagePiece::Turned { clockwise: right_to_left });
            r.push(first);
            r.push(second);
        },
    }
    proof {
        assert(r@ =~= page_plan(width as int, height as int, split, right_to_left));
    }
    r
}

/// `r` is the piece `piece` of `img`.
pub open spec fn is_piece_of(r: GrayImage, img: GrayImage, piece: PagePiece) -> bool {
    match piece {
        PagePiece::Whole => r.w() == img.w() && r.h() == img.h() && r.raw() == img.raw(),
        PagePiece::Turned { clockwise } => is_turn_of(r, img, clockwise),
        PagePiece::LeftHalf => {
            &&& r.w() == img.w() / 2
            &&& r.h() == img.h()
            &&& forall|i: int, j: int|
                #![trigger r.px(i, j)]
                r.contains(i, j) ==> r.px(i, j) == img.px(i, j)
        },
        PagePiece::RightHalf => {
            &&& r.w() == img.w() / 2
            &&& r.h() == img.h()
            &&& forall|i: int, j: int|
                #![trigger r.px(i, j)]
                r.contains(i, j) ==> r.px(i, j) == img.px(img.w() / 2 + i, j)
        },
    }
}

/// The piece `piece` cut out of (or turned from) `img`.
pub fn extract_piece(img: &GrayImage, piece: PagePiece) -> (r: GrayImage)
    requires
        img.wf(),
    ensures
        r.wf(),
        is_piece_of(r, *img, piece),
{
    match piece {
        PagePiece::Whole => img.clone(),
        PagePiece::Turned { clockwise } => img.rotate_90(clockwise),
        PagePiece::LeftHalf => {
            let (left, _right) = img.split_halves();
            left
        },
        PagePiece::RightHalf => {
            let (_left, right) = img.split_halves();
            right
        },
    }
}

/// The device pages of a scanned page before resizing, in reading order,
/// as the split strategy and reading direction decide.
pub fn split_pages(img: &GrayImage, split: SplitStrategy, right_to_left: bool) -> (r: Vec<
    GrayImage,
>)
    requires
        img.wf(),
    ensures
        r@.len() == page_plan(img.w(), img.h(), split, right_to_left).len(),
        forall|k: int|
            0 <= k < r@.len() ==> #[trigger] r@[k].wf() && is_piece_of(
                r@[k],
                *img,
                page_plan(img.w(), img.h(), split, right_to_left)[k],
            ),
{
    let (w, h) = img.dimensions();
    let plan = plan_pages(w, h, split, right_to_left);
    let mut out: Vec<GrayImage> = Vec::new();
    let mut k: usize = 0;
    while k < plan.len()
        invariant
            img.wf(),
            plan@ == page_plan(img.w(), img.h(), split, right_to_left),
            k <= plan@.len(),
            out@.len() == k,
            forall|m: int|
                0 <= m < k ==> #[trigger] out@[m].wf() && is_piece_of(out@[m], *img, plan@[m]),
        decreases plan@.len() - k,
    {
        let piece = extract_piece(img, plan[k]);
        out.push(piece);
        k += 1;
    }
    out
}

/// Where a `size`-long page starts when centred on a `target`-long screen.
pub open spec fn centre_offset(target: int, size: int) -> int {
    (target - size) / 2
}

/// `r` is `page` centred on a `tw` x `th` screen filled with `margin`.
pub open spec fn is_centred_on(r: GrayImage, page: GrayImage, tw: int, th: int, margin: u8) -> bool {
    let xo = centre_offset(tw, page.w());
    let yo = centre_offset(th, page.h());
    &&& r.w() == tw
    &&& r.h() == th
    &&& forall|i: int, j: int|
        #![trigger r.px(i, j)]
        r.contains(i, j) ==> r.px(i, j) == if xo <= i < xo + page.w() && yo <= j < yo + page.h() {
            page.px(i - xo, j - yo)
        } else {
            margin
        }
}

/// The page centred on a `target` screen whose uncovered area shows
/// `margin` (as `imageops::overlay` places it).
pub fn centre_on_canvas(page: &GrayImage, target: (u32, u32), margin: u8) -> (r: GrayImage)
    requires
        page.wf(),
        page.w() <= target.0,
        page.h() <= target.1,
        target.0 as int * target.1 as int <= usize::MAX,
    ensures
        r.wf(),
        is_centred_on(r, *page, target.0 as int, target.1 as int, margin),
{
    let (tw, th) = target;
    let (pw, ph) = page.dimensions();
    let xo: u32 = (tw - pw) / 2;
    let yo: u32 = (th - ph) / 2;
    let mut out = GrayImage::from_pixel(tw, th, margin);
    let mut j: u32 = 0;
    while j < ph
        invariant
            page.wf(),
            out.wf(),
            out.w() == tw,
            out.h() == th,
            page.w() == pw,
            page.h() == ph,
            pw <= tw,
            ph <= th,
            xo == centre_offset(tw as int, pw as int),
            yo == centre_offset(th as int, ph as int),
            j <= ph,
            forall|i2: int, j2: int|
                #![trigger out.px(i2, j2)]
                out.contains(i2, j2) ==> out.px(i2, j2) == if xo <= i2 < xo + pw && yo <= j2 < yo
                    + j {
                    page.px(i2 - xo, j2 - yo)
                } else {
                    margin
                },
        decreases ph - j,
    {
        let mut i: u32 = 0;
        while i < pw
            invariant
                page.wf(),
                out.wf(),
                out.w() == tw,
                out.h() == th,
                page.w() == pw,
                page.h() == ph,
                pw <= tw,
                ph <= th,
                xo == centre_offset(tw as int, pw as int),
                yo == centre_offset(th as int, ph as int),
                j < ph,
                i <= pw,
                forall|i2: int, j2: int|
                    #![trigger out.px(i2, j2)]
                    out.contains(i2, j2) ==> out.px(i2, j2) == if xo <= i2 < xo + pw && yo <= j2
                        < yo + j {
                        page.px(i2 - xo, j2 - yo)
                    } else if xo <= i2 < xo + i && j2 == yo + j {
                        page.px(i2 - xo, j2 - yo)
                    } else {
                        margin
                    },
            decreases pw - i,
        {
            let v = page.get_pixel(i, j);
            out.put_pixel(xo + i, yo + j, v);
            i += 1;
        }
        j += 1;
    }
    out
}

/// The resampling filter of a resize.
#[derive(Debug, Clone, Copy, PartialEq, Eq, Structural)]
pub enum ResizeFilter {
    /// Lanczos3 keeps detail when shrinking.
    Lanczos3,
    /// Catmull-Rom gives smooth results when enlarging manga.
    CatmullRom,
}

/// A page is shrunk with Lanczos3 when it is larger than the screen along
/// either axis, and enlarged with Catmull-Rom otherwise.
pub open spec fn filter_for(width: int, height: int, tw: int, th: int) -> ResizeFilter {
    if width > tw || height > th {
        ResizeFilter::Lanczos3
    } else {
        ResizeFilter::CatmullRom
    }
}

/// The filter for resizing a `size` page onto a `target` screen.
pub fn filter_for_size(size: (u32, u32), target: (u32, u32)) -> (r: ResizeFilter)
    ensures
        r == filter_for(size.0 as int, size.1 as int, target.0 as int, target.1 as int),
{
    if size.0 > target.0 || size.1 > target.1 {
        ResizeFilter::Lanczos3
    } else {
        ResizeFilter::CatmullRom
    }
}

/// The pixels (row by row) of a `src_w` x `src_h` grayscale image with
/// these pixels resampled by `fast_image_resize` to `dst_w` x `dst_h` with
/// a convolution of `filter`. One-byte pixels are convolved in fixed-point
/// integers; the crate's tests hold every SIMD path to the same results.
pub uninterp spec fn resized(
    src_w: u32,
    src_h: u32,
    pixels: Seq<u8>,
    dst_w: u32,
    dst_h: u32,
    filter: ResizeFilter,
) -> Seq<u8>;

/// `Resizer::resize` of a one-byte-per-pixel image to `dst_w` x `dst_h`
/// with a convolution of the given filter: the `resized` pixels, one byte
/// per pixel of the new size; a resize to the same size copies the image.
#[verifier::external_body]
fn resize_raw(
    src_w: u32,
    src_h: u32,
    data: Vec<u8>,
    dst_w: u32,
    dst_h: u32,
    filter: ResizeFilter,
) -> (r: Vec<u8>)
    requires
        data@.len() == src_w as int * src_h as int,
        dst_w as int * dst_h as int <= usize::MAX,
    ensures
        r@ == resized(src_w, src_h, data@, dst_w, dst_h, filter),
        r@.len() == dst_w as int * dst_h as int,
        dst_w == src_w && dst_h == src_h ==> r@ == data@,
{
    let f = match filter {
        ResizeFilter::Lanczos3 => fast_image_resize::FilterType::Lanczos3,
        ResizeFilter::CatmullRom => fast_image_resize::FilterType::CatmullRom,
    };
    let src = fast_image_resize::images::Image::from_vec_u8(src_w, src_h, data, fast_image_resize::PixelType::U8).unwrap();
    let mut dst = fast_image_resize::images::Image::new(dst_w, dst_h, fast_image_resize::PixelType::U8);
    let options = fast_image_resize::ResizeOptions::new().resize_alg(fast_image_resize::ResizeAlg::Convolution(f));
    fast_image_resize::Resizer::new().resize(&src, &mut dst, Some(&options)).unwrap();
    dst.into_vec()
}

/// `r` is a `pw` x `ph` page with these pixels (row by row) centred on a
/// `tw` x `th` screen filled with `margin`.
pub open spec fn shows_centred(
    r: GrayImage,
    pw: int,
    ph: int,
    pixels: Seq<u8>,
    tw: int,
    th: int,
    margin: u8,
) -> bool {
    let xo = centre_offset(tw, pw);
    let yo = centre_offset(th, ph);
    &&& r.w() == tw
    &&& r.h() == th
    &&& forall|i: int, j: int|
        #![trigger r.px(i, j)]
        r.contains(i, j) ==> r.px(i, j) == if xo <= i < xo + pw && yo <= j < yo + ph {
            pixels[(j - yo) * pw + (i - xo)]
        } else {
            margin
        }
}

/// `r` is `img` made into a device page: resized to `fitted` with the
/// filter that `filter_for` picks for the `target` screen, then, when a
/// margin colour is given and the fitted size is not the screen's, centred
/// on a screen filled with that colour.
pub open spec fn is_device_page(
    r: GrayImage,
    img: GrayImage,
    fitted: (u32, u32),
    target: (u32, u32),
    margin: Option<u8>,
) -> bool {
    let pixels = resized(
        img.w() as u32,
        img.h() as u32,
        img.raw(),
        fitted.0,
        fitted.1,
        filter_for(img.w(), img.h(), target.0 as int, target.1 as int),
    );
    if margin is Some && fitted != target {
        shows_centred(
            r,
            fitted.0 as int,
            fitted.1 as int,
            pixels,
            target.0 as int,
            target.1 as int,
            margin->0,
        )
    } else {
        r.w() == fitted.0 && r.h() == fitted.1 && r.raw() == pixels
    }
}

/// A page resized to `new_size` for a `target` screen. When the new size is
/// not the screen size and a margin colour is given, the resized page is
/// centred on a screen-sized canvas of that colour; otherwise it is returned
/// at its new size.
///
/// `new_size` is the aspect-preserving fit of the page into the screen,
/// computed by the caller in floating point.
pub fn resize_to_device(
    img: &GrayImage,
    new_size: (u32, u32),
    target: (u32, u32),
    margin: Option<u8>,
) -> (r: GrayImage)
    requires
        img.wf(),
        new_size.0 as int * new_size.1 as int <= usize::MAX,
        target.0 as int * target.1 as int <= usize::MAX,
        margin is Some && new_size != target ==> new_size.0 <= target.0 && new_size.1
            <= target.1,
    ensures
        r.wf(),
        is_device_page(r, *img, new_size, target, margin),
        (r.w(), r.h()) == resized_size(new_size, target, margin),
{
    let (w, h) = img.dimensions();
    let filter = filter_for_size((w, h), target);
    proof {
        img.lemma_shape();
    }
    let data = resize_raw(w, h, img.as_raw().clone(), new_size.0, new_size.1, filter);
    let ghost pixels = data@;
    let resized_page = GrayImage::from_raw_parts(new_size.0, new_size.1, data);
    if new_size.0 == target.0 && new_size.1 == target.1 {
        return resized_page;
    }
    match margin {
        Some(m) => {
            let r = centre_on_canvas(&resized_page, target, m);
            proof {
                resized_page.lemma_shape();
                let xo = centre_offset(target.0 as int, new_size.0 as int);
                let yo = centre_offset(target.1 as int, new_size.1 as int);
                assert forall|i: int, j: int| #[trigger] r.contains(i, j) && xo <= i < xo
                    + new_size.0 && yo <= j < yo + new_size.1 implies r.px(i, j) == pixels[(j
                    - yo) * new_size.0 + (i - xo)] by {
                    assert(resized_page.contains(i - xo, j - yo));
                }
            }
            r
        },
        None => resized_page,
    }
}

/// A spread becomes two pages when split, one when turned, three when turned
/// and split, and a single page always stays one page; when split, the
/// halves follow the reading direction. A turned spread is turned a quarter
/// clockwise exactly when reading right to left, the same turn whether it is
/// only turned or turned and then split.
pub proof fn plan_follows_reading_order(width: int, height: int, split: SplitStrategy, rtl: bool)
    ensures
        !is_spread(width, height) ==> page_plan(width, height, split, rtl) == seq![
            PagePiece::Whole,
        ],
        is_spread(width, height) ==> page_plan(width, height, split, rtl).len() == match split {
            SplitStrategy::Keep => 1int,
            SplitStrategy::Split => 2int,
            SplitStrategy::Rotate => 1int,
            SplitStrategy::RotateAndSplit => 3int,
        },
        is_spread(width, height) && split == SplitStrategy::Rotate ==> page_plan(
            width,
            height,
            split,
            rtl,
        ) == seq![PagePiece::Turned { clockwise: rtl }],
        is_spread(width, height) ==> page_plan(width, height, SplitStrategy::Rotate, rtl)[0]
            == page_plan(width, height, SplitStrategy::RotateAndSplit, rtl)[0],
        is_spread(width, height) ==> (page_plan(width, height, SplitStrategy::Rotate, rtl)[0]
            == PagePiece::Turned { clockwise: true } <==> rtl),
        is_spread(width, height) && split == SplitStrategy::Split ==> page_plan(
            width,
            height,
            split,
            rtl,
        )[0] == if rtl {
            PagePiece::RightHalf
        } else {
            PagePiece::LeftHalf
        },
        is_spread(width, height) && split == SplitStrategy::RotateAndSplit ==> page_plan(
            width,
            height,
            split,
            rtl,
        ) == seq![PagePiece::Turned { clockwise: rtl }] + page_plan(
            width,
            height,
            SplitStrategy::Split,
            rtl,
        ),
{
}

/// The two halves of a spread hold every pixel of it but the middle
/// column of an odd-width spread: pixel (x, y) is pixel x of the left half
/// when x < width / 2, and pixel x - width / 2 of the right half when
/// width / 2 <= x < 2 * (width / 2).
pub proof fn halves_cover_spread(img: GrayImage, left: GrayImage, right: GrayImage, x: int, y: int)
    requires
        is_piece_of(left, img, PagePiece::LeftHalf),
        is_piece_of(right, img, PagePiece::RightHalf),
        0 <= x < 2 * (img.w() / 2),
        0 <= y < img.h(),
    ensures
        x < img.w() / 2 ==> left.px(x, y) == img.px(x, y),
        x >= img.w() / 2 ==> right.px(x - img.w() / 2, y) == img.px(x, y),
{
    if x < img.w() / 2 {
        assert(left.contains(x, y));
    } else {
        assert(right.contains(x - img.w() / 2, y));
    }
}

/// `r` is what page preparation makes of `t`, the page after its tone
/// adjustments: `t` with its white margins cut away when auto-crop is on
/// and finds margins to cut, else `t` itself.
pub open spec fn is_prepared_from(r: GrayImage, t: GrayImage, auto_crop: bool) -> bool {
    if auto_crop && crop_rect(t) is Some {
        let (x, y, w, h) = crop_rect(t)->0;
        &&& r.w() == w
        &&& r.h() == h
        &&& forall|i: int, j: int|
            #![trigger r.px(i, j)]
            r.contains(i, j) ==> r.px(i, j) == t.px(x + i, y + j)
    } else {
        r.w() == t.w() && r.h() == t.h() && r.raw() == t.raw()
    }
}

/// A decoded page made ready for splitting and resizing: gamma (through
/// `gamma_lut`), autocontrast and brightness, then auto-crop when the
/// settings ask for it.
pub fn prepare_page(img: GrayImage, config: &ComicConfig, gamma_lut: &[u8; 256]) -> (r: GrayImage)
    requires
        img.wf(),
        config.brightness <= i32::MAX - 255,
        config.auto_crop ==> img.w() >= 1 && img.h() >= 1,
    ensures
        r.wf(),
        exists|t: GrayImage|
            {
                &&& t.w() == img.w()
                &&& t.h() == img.h()
                &&& t.raw() == transformed(
                    img.raw(),
                    gamma_lut@,
                    gamma_is_applied(config.gamma as int),
                    config.brightness as int,
                )
                &&& is_prepared_from(r, t, config.auto_crop)
            },
{
    let t = transform(img, config.brightness, config.gamma, gamma_lut);
    if config.auto_crop {
        match auto_crop(&t) {
            Some(cropped) => cropped,
            None => t,
        }
    } else {
        t
    }
}

/// The size of a piece of a `width` x `height` page, before resizing.
pub open spec fn piece_size(width: int, height: int, piece: PagePiece) -> (int, int) {
    match piece {
        PagePiece::Whole => (width, height),
        PagePiece::Turned { .. } => (height, width),
        PagePiece::LeftHalf => (width / 2, height),
        PagePiece::RightHalf => (width / 2, height),
    }
}

/// The sizes of the device pages of a `width` x `height` page before
/// resizing, in reading order: what the caller fits onto the screen.
pub fn piece_sizes(width: u32, height: u32, split: SplitStrategy, right_to_left: bool) -> (r: Vec<
    (u32, u32),
>)
    ensures
        r@.len() == page_plan(width as int, height as int, split, right_to_left).len(),
        forall|k: int|
            0 <= k < r@.len() ==> (#[trigger] r@[k].0 as int, r@[k].1 as int) == piece_size(
                width as int,
                height as int,
                page_plan(width as int, height as int, split, right_to_left)[k],
            ),
{
    let plan = plan_pages(width, height, split, right_to_left);
    let mut r: Vec<(u32, u32)> = Vec::new();
    let mut k: usize = 0;
    while k < plan.len()
        invariant
            plan@ == page_plan(width as int, height as int, split, right_to_left),
            k <= plan@.len(),
            r@.len() == k,
            forall|m: int|
                0 <= m < k ==> (#[trigger] r@[m].0 as int, r@[m].1 as int) == piece_size(
                    width as int,
                    height as int,
                    plan@[m],
                ),
        decreases plan@.len() - k,
    {
        let size = match plan[k] {
            PagePiece::Whole => (width, height),
            PagePiece::Turned { .. } => (height, width),
            PagePiece::LeftHalf => (width / 2, height),
            PagePiece::RightHalf => (width / 2, height),
        };
        r.push(size);
        k += 1;
    }
    r
}

/// The size of a page resized to `fitted` for a `target` screen: the
/// screen's when a margin colour lays it on the screen, else `fitted`.
pub open spec fn resized_size(fitted: (u32, u32), target: (u32, u32), margin: Option<u8>) -> (int, int) {
    if margin is Some && fitted != target {
        (target.0 as int, target.1 as int)
    } else {
        (fitted.0 as int, fitted.1 as int)
    }
}

/// `r` is the piece `piece` of `img` made into a device page.
pub open spec fn is_device_page_of_piece(
    r: GrayImage,
    img: GrayImage,
    piece: PagePiece,
    fitted: (u32, u32),
    target: (u32, u32),
    margin: Option<u8>,
) -> bool {
    exists|p: GrayImage|
        #[trigger] is_piece_of(p, img, piece) && p.wf() && is_device_page(r, p, fitted, target, margin)
}

/// The device pages of a prepared page: each piece that the split strategy
/// and reading direction make of it, in reading order, resized to its
/// fitted size (`fitted[k]` is the aspect-preserving fit of piece `k` into
/// the screen, which the caller computes in floating point from
/// `piece_sizes`) and laid on the screen when a margin colour is set.
pub fn process_image_view(img: &GrayImage, config: &ComicConfig, fitted: &Vec<(u32, u32)>) -> (r: Vec<
    GrayImage,
>)
    requires
        img.wf(),
        fitted@.len() == page_plan(img.w(), img.h(), config.split, config.right_to_left).len(),
        config.device.dimensions.0 as int * config.device.dimensions.1 as int <= usize::MAX,
        forall|k: int|
            0 <= k < fitted@.len() ==> #[trigger] fitted@[k].0 as int * fitted@[k].1 as int
                <= usize::MAX,
        forall|k: int|
            0 <= k < fitted@.len() && config.margin_color is Some && #[trigger] fitted@[k]
                != config.device.dimensions ==> fitted@[k].0 <= config.device.dimensions.0
                && fitted@[k].1 <= config.device.dimensions.1,
    ensures
        r@.len() == fitted@.len(),
        forall|k: int|
            0 <= k < r@.len() ==> #[trigger] r@[k].wf() && (r@[k].w(), r@[k].h()) == resized_size(
                fitted@[k],
                config.device.dimensions,
                config.margin_color,
            ),
        forall|k: int|
            0 <= k < r@.len() ==> #[trigger] is_device_page_of_piece(
                r@[k],
                *img,
                page_plan(img.w(), img.h(), config.split, config.right_to_left)[k],
                fitted@[k],
                config.device.dimensions,
                config.margin_color,
            ),
{
    let target = config.device_dimensions();
    let pieces = split_pages(img, config.split, config.right_to_left);
    proof {
        assert forall|m: int| 0 <= m < pieces@.len() implies #[trigger] pieces@[m].wf()
            && is_piece_of(
            pieces@[m],
            *img,
            page_plan(img.w(), img.h(), config.split, config.right_to_left)[m],
        ) by {
            assert(pieces@[m].wf());
        }
    }
    let mut r: Vec<GrayImage> = Vec::new();
    let mut k: usize = 0;
    while k < pieces.len()
        invariant
            pieces@.len() == fitted@.len(),
            forall|m: int|
                0 <= m < pieces@.len() ==> #[trigger] pieces@[m].wf() && is_piece_of(
                    pieces@[m],
                    *img,
                    page_plan(img.w(), img.h(), config.split, config.right_to_left)[m],
                ),
            target == config.device.dimensions,
            target.0 as int * target.1 as int <= usize::MAX,
            forall|m: int|
                0 <= m < fitted@.len() ==> #[trigger] fitted@[m].0 as int * fitted@[m].1 as int
                    <= usize::MAX,
            forall|m: int|
                0 <= m < fitted@.len() && config.margin_color is Some && #[trigger] fitted@[m]
                    != target ==> fitted@[m].0 <= target.0 && fitted@[m].1 <= target.1,
            k <= pieces@.len(),
            r@.len() == k,
            forall|m: int|
                0 <= m < k ==> #[trigger] r@[m].wf() && (r@[m].w(), r@[m].h()) == resized_size(
                    fitted@[m],
                    target,
                    config.margin_color,
                ) && is_device_page(r@[m], pieces@[m], fitted@[m], target, config.margin_color),
        decreases pieces@.len() - k,
    {
        let size = fitted[k];
        proof {
            assert(fitted@[k as int] == size);
        }
        let page = resize_to_device(&pieces[k], size, target, config.margin_color);
        r.push(page);
        k += 1;
    }
    proof {
        assert forall|k: int| 0 <= k < r@.len() implies #[trigger] is_device_page_of_piece(
            r@[k],
            *img,
            page_plan(img.w(), img.h(), config.split, config.right_to_left)[k],
            fitted@[k],
            config.device.dimensions,
            config.margin_color,
        ) by {
            assert(pieces@[k].wf());
            assert(r@[k].wf());
        }
    }
    r
}

} // verus!
