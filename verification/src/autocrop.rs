//! Automatic removal of white page margins.
//!
//! A pixel is *content* when it is darker than the white threshold and at
//! least three of its neighbours within four pixels are dark too; isolated
//! specks in the margins are noise. The crop keeps every content pixel plus
//! a small safety margin, and happens only when a margin is wide enough.

use vstd::prelude::*;
use crate::gray::{GrayImage, crop_start, crop_len};

verus! {

/// Pixel values at or above this count as white.
pub const WHITE_THRESHOLD: u8 = 230;

/// A margin must be at least this wide for the page to be cropped.
pub const MIN_MARGIN_WIDTH: u32 = 10;

/// Pixels kept around the content so that nothing is cut.
pub const SAFETY_MARGIN: u32 = 2;

/// How far around a pixel dark neighbours are looked for.
pub const NOISE_DISTANCE: i64 = 4;

/// How many dark neighbours make a dark pixel content rather than noise.
pub const REQUIRED_NEIGHBORS: u32 = 3;

/// Pixel (x, y) is inside the image and darker than the white threshold.
pub open spec fn is_dark(img: GrayImage, x: int, y: int) -> bool {
    img.contains(x, y) && img.px(x, y) < WHITE_THRESHOLD
}

/// The neighbour of (x, y) at offset (dx, dy) is dark (the pixel itself is
/// not its own neighbour).
pub open spec fn neighbour_dark(img: GrayImage, x: int, y: int, dx: int, dy: int) -> bool {
    !(dx == 0 && dy == 0) && is_dark(img, x + dx, y + dy)
}

/// Dark neighbours of (x, y) in row offset `dy`, among column offsets
/// -4 .. -4 + k.
pub open spec fn row_dark(img: GrayImage, x: int, y: int, dy: int, k: int) -> int
    decreases k,
{
    if k <= 0 {
        0
    } else {
        row_dark(img, x, y, dy, k - 1) + if neighbour_dark(img, x, y, -4 + k - 1, dy) {
            1int
        } else {
            0int
        }
    }
}

/// Dark neighbours of (x, y) in the first `rows` rows of its 9 x 9 window.
pub open spec fn window_dark(img: GrayImage, x: int, y: int, rows: int) -> int
    decreases rows,
{
    if rows <= 0 {
        0
    } else {
        window_dark(img, x, y, rows - 1) + row_dark(img, x, y, -4 + rows - 1, 9)
    }
}

/// The number of dark pixels among the 80 neighbours of (x, y) within
/// distance 4 (in both directions).
pub open spec fn dark_neighbours(img: GrayImage, x: int, y: int) -> int {
    window_dark(img, x, y, 9)
}

/// Pixel (x, y) is page content: dark, with at least three dark neighbours.
pub open spec fn is_content(img: GrayImage, x: int, y: int) -> bool {
    is_dark(img, x, y) && dark_neighbours(img, x, y) >= REQUIRED_NEIGHBORS
}

/// Column x holds content.
pub open spec fn column_has_content(img: GrayImage, x: int) -> bool {
    exists|y: int| 0 <= y < img.h() && #[trigger] is_content(img, x, y)
}

/// Row y holds content.
pub open spec fn row_has_content(img: GrayImage, y: int) -> bool {
    exists|x: int| 0 <= x < img.w() && #[trigger] is_content(img, x, y)
}

/// The first column from x rightwards that holds content (0 if none does).
pub open spec fn first_column_from(img: GrayImage, x: int) -> int
    decreases img.w() - x,
{
    if x >= img.w() || x < 0 {
        0
    } else if column_has_content(img, x) {
        x
    } else {
        first_column_from(img, x + 1)
    }
}

/// The last column from x leftwards that holds content (w - 1 if none does).
pub open spec fn last_column_from(img: GrayImage, x: int) -> int
    decreases x + 1,
{
    if x < 0 || x >= img.w() {
        img.w() - 1
    } else if column_has_content(img, x) {
        x
    } else {
        last_column_from(img, x - 1)
    }
}

/// The first row from y downwards that holds content (0 if none does).
pub open spec fn first_row_from(img: GrayImage, y: int) -> int
    decreases img.h() - y,
{
    if y >= img.h() || y < 0 {
        0
    } else if row_has_content(img, y) {
        y
    } else {
        first_row_from(img, y + 1)
    }
}

/// The last row from y upwards that holds content (h - 1 if none does).
pub open spec fn last_row_from(img: GrayImage, y: int) -> int
    decreases y + 1,
{
    if y < 0 || y >= img.h() {
        img.h() - 1
    } else if row_has_content(img, y) {
        y
    } else {
        last_row_from(img, y - 1)
    }
}

/// The leftmost content column (0 when there is no content).
pub open spec fn content_left(img: GrayImage) -> int {
    first_column_from(img, 0)
}

/// The rightmost content column (w - 1 when there is no content).
pub open spec fn content_right(img: GrayImage) -> int {
    last_column_from(img, img.w() - 1)
}

/// The topmost content row (0 when there is no content).
pub open spec fn content_top(img: GrayImage) -> int {
    first_row_from(img, 0)
}

/// The bottommost content row (h - 1 when there is no content).
pub open spec fn content_bottom(img: GrayImage) -> int {
    last_row_from(img, img.h() - 1)
}

/// `lo` moved outwards by the safety margin, not past 0.
pub open spec fn widen_low(lo: int) -> int {
    if lo >= SAFETY_MARGIN { lo - SAFETY_MARGIN } else { 0 }
}

/// `hi` moved outwards by the safety margin, not past `last`.
pub open spec fn widen_high(hi: int, last: int) -> int {
    if hi + SAFETY_MARGIN < last { hi + SAFETY_MARGIN } else { last }
}

/// The rectangle (x, y, width, height) that auto-crop cuts out, if it cuts.
///
/// No cut when the content does not span more than one column and more than
/// one row. Otherwise the content box widened by the safety margin is cut
/// when, along one axis, it is smaller than the page and one of the two
/// margins left out is at least `MIN_MARGIN_WIDTH` wide.
pub open spec fn crop_rect(img: GrayImage) -> Option<(int, int, int, int)> {
    let left = content_left(img);
    let right = content_right(img);
    let top = content_top(img);
    let bottom = content_bottom(img);
    if left >= right || top >= bottom {
        None
    } else {
        let l = widen_low(left);
        let r = widen_high(right, img.w() - 1);
        let t = widen_low(top);
        let b = widen_high(bottom, img.h() - 1);
        let cw = r - l + 1;
        let ch = b - t + 1;
        let horizontal = (l >= MIN_MARGIN_WIDTH || img.w() - r - 1 >= MIN_MARGIN_WIDTH) && cw
            < img.w();
        let vertical = (t >= MIN_MARGIN_WIDTH || img.h() - b - 1 >= MIN_MARGIN_WIDTH) && ch
            < img.h();
        if horizontal || vertical {
            Some((l, t, cw, ch))
        } else {
            None
        }
    }
}

proof fn lemma_row_dark_bounds(img: GrayImage, x: int, y: int, dy: int, k1: int, k2: int)
    requires
        0 <= k1 <= k2,
    ensures
        0 <= row_dark(img, x, y, dy, k1) <= row_dark(img, x, y, dy, k2),
    decreases k2,
{
    if k2 > k1 {
        lemma_row_dark_bounds(img, x, y, dy, k1, k2 - 1);
    } else if k1 > 0 {
        lemma_row_dark_bounds(img, x, y, dy, k1 - 1, k1 - 1);
    }
}

proof fn lemma_window_dark_mono(img: GrayImage, x: int, y: int, r1: int, r2: int)
    requires
        0 <= r1 <= r2,
    ensures
        0 <= window_dark(img, x, y, r1) <= window_dark(img, x, y, r2),
    decreases r2,
{
    if r2 > r1 {
        lemma_window_dark_mono(img, x, y, r1, r2 - 1);
        lemma_row_dark_bounds(img, x, y, -4 + r2 - 1, 0, 9);
    } else if r1 > 0 {
        lemma_window_dark_mono(img, x, y, r1 - 1, r1 - 1);
        lemma_row_dark_bounds(img, x, y, -4 + r1 - 1, 0, 9);
    }
}

/// Whether the dark pixel (x, y) has at least three dark neighbours within
/// distance 4, i.e. is content rather than noise.
pub fn is_not_noise(img: &GrayImage, x: u32, y: u32) -> (r: bool)
    requires
        img.wf(),
    ensures
        r == (dark_neighbours(*img, x as int, y as int) >= REQUIRED_NEIGHBORS),
{
    let (width, height) = img.dimensions();
    let mut dark: u32 = 0;
    let mut dy: i64 = -NOISE_DISTANCE;
    while dy <= NOISE_DISTANCE
        invariant
            img.wf(),
            width == img.w(),
            height == img.h(),
            -4 <= dy <= 5,
            dark == window_dark(*img, x as int, y as int, dy + 4),
            dark < REQUIRED_NEIGHBORS,
        decreases 5 - dy,
    {
        let mut dx: i64 = -NOISE_DISTANCE;
        while dx <= NOISE_DISTANCE
            invariant
                img.wf(),
                width == img.w(),
                height == img.h(),
                -4 <= dy <= 4,
                -4 <= dx <= 5,
                dark == window_dark(*img, x as int, y as int, dy + 4) + row_dark(
                    *img,
                    x as int,
                    y as int,
                    dy as int,
                    dx + 4,
                ),
                dark < REQUIRED_NEIGHBORS,
            decreases 5 - dx,
        {
            if !(dx == 0 && dy == 0) {
                let nx: i64 = x as i64 + dx;
                let ny: i64 = y as i64 + dy;
                if nx >= 0 && ny >= 0 && nx < width as i64 && ny < height as i64
                    && img.get_pixel(nx as u32, ny as u32) < WHITE_THRESHOLD {
                    dark = dark + 1;
                    if dark >= REQUIRED_NEIGHBORS {
                        proof {
                            lemma_row_dark_bounds(
                                *img,
                                x as int,
                                y as int,
                                dy as int,
                                dx + 5,
                                9,
                            );
                            lemma_window_dark_mono(*img, x as int, y as int, dy + 5, 9);
                        }
                        return true;
                    }
                }
            }
            dx = dx + 1;
        }
        dy = dy + 1;
    }
    false
}

/// Whether pixel (x, y) is content.
fn pixel_is_content(img: &GrayImage, x: u32, y: u32) -> (r: bool)
    requires
        img.wf(),
        img.contains(x as int, y as int),
    ensures
        r == is_content(*img, x as int, y as int),
{
    img.get_pixel(x, y) < WHITE_THRESHOLD && is_not_noise(img, x, y)
}

/// Whether column x holds content.
fn column_content(img: &GrayImage, x: u32) -> (r: bool)
    requires
        img.wf(),
        0 <= x < img.w(),
    ensures
        r == column_has_content(*img, x as int),
{
    let height = img.height();
    let mut y: u32 = 0;
    while y < height
        invariant
            img.wf(),
            0 <= x < img.w(),
            height == img.h(),
            y <= height,
            forall|y2: int| 0 <= y2 < y ==> !#[trigger] is_content(*img, x as int, y2),
        decreases height - y,
    {
        if pixel_is_content(img, x, y) {
            return true;
        }
        y += 1;
    }
    false
}

/// Whether row y holds content.
fn row_content(img: &GrayImage, y: u32) -> (r: bool)
    requires
        img.wf(),
        0 <= y < img.h(),
    ensures
        r == row_has_content(*img, y as int),
{
    let width = img.width();
    let mut x: u32 = 0;
    while x < width
        invariant
            img.wf(),
            0 <= y < img.h(),
            width == img.w(),
            x <= width,
            forall|x2: int| 0 <= x2 < x ==> !#[trigger] is_content(*img, x2, y as int),
        decreases width - x,
    {
        if pixel_is_content(img, x, y) {
            return true;
        }
        x += 1;
    }
    false
}

/// The leftmost content column, scanning from the left (0 when none).
fn find_left(img: &GrayImage) -> (r: u32)
    requires
        img.wf(),
    ensures
        r == content_left(*img),
{
    let width = img.width();
    let mut x: u32 = 0;
    while x < width
        invariant
            img.wf(),
            width == img.w(),
            x <= width,
            first_column_from(*img, 0) == first_column_from(*img, x as int),
        decreases width - x,
    {
        if column_content(img, x) {
            return x;
        }
        x += 1;
    }
    0
}

/// The rightmost content column, scanning from the right (width - 1 when none).
fn find_right(img: &GrayImage) -> (r: u32)
    requires
        img.wf(),
        img.w() >= 1,
    ensures
        r == content_right(*img),
{
    let width = img.width();
    let mut x: u32 = width;
    while x > 0
        invariant
            img.wf(),
            width == img.w(),
            x <= width,
            last_column_from(*img, width - 1) == last_column_from(*img, x - 1),
        decreases x,
    {
        if column_content(img, x - 1) {
            return x - 1;
        }
        x -= 1;
    }
    width - 1
}

/// The topmost content row, scanning from the top (0 when none).
fn find_top(img: &GrayImage) -> (r: u32)
    requires
        img.wf(),
    ensures
        r == content_top(*img),
{
    let height = img.height();
    let mut y: u32 = 0;
    while y < height
        invariant
            img.wf(),
            height == img.h(),
            y <= height,
            first_row_from(*img, 0) == first_row_from(*img, y as int),
        decreases height - y,
    {
        if row_content(img, y) {
            return y;
        }
        y += 1;
    }
    0
}

/// The bottommost content row, scanning from the bottom (height - 1 when none).
fn find_bottom(img: &GrayImage) -> (r: u32)
    requires
        img.wf(),
        img.h() >= 1,
    ensures
        r == content_bottom(*img),
{
    let height = img.height();
    let mut y: u32 = height;
    while y > 0
        invariant
            img.wf(),
            height == img.h(),
            y <= height,
            last_row_from(*img, height - 1) == last_row_from(*img, y - 1),
        decreases y,
    {
        if row_content(img, y - 1) {
            return y - 1;
        }
        y -= 1;
    }
    height - 1
}

/// The rectangle (x, y, width, height) auto-crop would cut out of the page,
/// or `None` when the page keeps its size.
pub fn crop_bounds(img: &GrayImage) -> (r: Option<(u32, u32, u32, u32)>)
    requires
        img.wf(),
        img.w() >= 1,
        img.h() >= 1,
    ensures
        match r {
            Some((x, y, w, h)) => crop_rect(*img) == Some((x as int, y as int, w as int, h as int)),
            None => crop_rect(*img) is None,
        },
{
    let (width, height) = img.dimensions();
    let left = find_left(img);
    let right = find_right(img);
    let top = find_top(img);
    let bottom = find_bottom(img);
    proof {
        lemma_scans_in_range(*img);
    }
    if left >= right || top >= bottom {
        return None;
    }
    let l: u32 = if left >= SAFETY_MARGIN { left - SAFETY_MARGIN } else { 0 };
    let r: u32 = if (right as u64) + (SAFETY_MARGIN as u64) < (width as u64) - 1 {
        right + SAFETY_MARGIN
    } else {
        width - 1
    };
    let t: u32 = if top >= SAFETY_MARGIN { top - SAFETY_MARGIN } else { 0 };
    let b: u32 = if (bottom as u64) + (SAFETY_MARGIN as u64) < (height as u64) - 1 {
        bottom + SAFETY_MARGIN
    } else {
        height - 1
    };
    let cw: u64 = (r - l) as u64 + 1;
    let ch: u64 = (b - t) as u64 + 1;
    let horizontal = (l >= MIN_MARGIN_WIDTH || width - r - 1 >= MIN_MARGIN_WIDTH) && cw
        < width as u64;
    let vertical = (t >= MIN_MARGIN_WIDTH || height - b - 1 >= MIN_MARGIN_WIDTH) && ch
        < height as u64;
    if horizontal || vertical {
        Some((l, t, cw as u32, ch as u32))
    } else {
        None
    }
}

/// The page with its white margins cut away, or `None` when it keeps its
/// size (no content, content too thin, or no margin wide enough).
pub fn auto_crop(img: &GrayImage) -> (r: Option<GrayImage>)
    requires
        img.wf(),
        img.w() >= 1,
        img.h() >= 1,
    ensures
        crop_rect(*img) is None <==> r is None,
        r matches Some(c) ==> {
            let (x, y, w, h) = crop_rect(*img)->0;
            &&& c.wf()
            &&& c.w() == w
            &&& c.h() == h
            &&& forall|i: int, j: int|
                #![trigger c.px(i, j)]
                c.contains(i, j) ==> c.px(i, j) == img.px(x + i, y + j)
        },
{
    match crop_bounds(img) {
        Some((x, y, w, h)) => {
            proof {
                lemma_crop_rect_inside(*img);
            }
            Some(img.crop(x, y, w, h))
        },
        None => None,
    }
}

proof fn lemma_scans_in_range(img: GrayImage)
    requires
        img.w() >= 1,
        img.h() >= 1,
    ensures
        0 <= content_left(img) < img.w(),
        0 <= content_right(img) < img.w(),
        0 <= content_top(img) < img.h(),
        0 <= content_bottom(img) < img.h(),
{
    lemma_first_column_range(img, 0);
    lemma_last_column_range(img, img.w() - 1);
    lemma_first_row_range(img, 0);
    lemma_last_row_range(img, img.h() - 1);
}

proof fn lemma_first_column_range(img: GrayImage, x: int)
    requires
        img.w() >= 1,
    ensures
        0 <= first_column_from(img, x) < img.w(),
    decreases img.w() - x,
{
    if 0 <= x < img.w() && !column_has_content(img, x) {
        lemma_first_column_range(img, x + 1);
    }
}

proof fn lemma_last_column_range(img: GrayImage, x: int)
    requires
        img.w() >= 1,
    ensures
        0 <= last_column_from(img, x) < img.w(),
    decreases x + 1,
{
    if 0 <= x < img.w() && !column_has_content(img, x) {
        lemma_last_column_range(img, x - 1);
    }
}

proof fn lemma_first_row_range(img: GrayImage, y: int)
    requires
        img.h() >= 1,
    ensures
        0 <= first_row_from(img, y) < img.h(),
    decreases img.h() - y,
{
    if 0 <= y < img.h() && !row_has_content(img, y) {
        lemma_first_row_range(img, y + 1);
    }
}

proof fn lemma_last_row_range(img: GrayImage, y: int)
    requires
        img.h() >= 1,
    ensures
        0 <= last_row_from(img, y) < img.h(),
    decreases y + 1,
{
    if 0 <= y < img.h() && !row_has_content(img, y) {
        lemma_last_row_range(img, y - 1);
    }
}

/// The crop rectangle lies within the page.
proof fn lemma_crop_rect_inside(img: GrayImage)
    requires
        img.w() >= 1,
        img.h() >= 1,
        crop_rect(img) is Some,
    ensures
        ({
            let (x, y, w, h) = crop_rect(img)->0;
            &&& 0 <= x
            &&& 0 <= y
            &&& 1 <= w
            &&& 1 <= h
            &&& x + w <= img.w()
            &&& y + h <= img.h()
            &&& crop_start(img.w(), x) == x
            &&& crop_start(img.h(), y) == y
            &&& crop_len(img.w(), x, w) == w
            &&& crop_len(img.h(), y, h) == h
        }),
{
    lemma_scans_in_range(img);
}

proof fn lemma_first_column_le(img: GrayImage, x0: int, i: int)
    requires
        0 <= x0 <= i < img.w(),
        column_has_content(img, i),
    ensures
        first_column_from(img, x0) <= i,
    decreases i - x0,
{
    if !column_has_content(img, x0) {
        lemma_first_column_le(img, x0 + 1, i);
    }
}

proof fn lemma_last_column_ge(img: GrayImage, x0: int, i: int)
    requires
        0 <= i <= x0 < img.w(),
        column_has_content(img, i),
    ensures
        last_column_from(img, x0) >= i,
    decreases x0 - i,
{
    if !column_has_content(img, x0) {
        lemma_last_column_ge(img, x0 - 1, i);
    }
}

proof fn lemma_first_row_le(img: GrayImage, y0: int, j: int)
    requires
        0 <= y0 <= j < img.h(),
        row_has_content(img, j),
    ensures
        first_row_from(img, y0) <= j,
    decreases j - y0,
{
    if !row_has_content(img, y0) {
        lemma_first_row_le(img, y0 + 1, j);
    }
}

proof fn lemma_last_row_ge(img: GrayImage, y0: int, j: int)
    requires
        0 <= j <= y0 < img.h(),
        row_has_content(img, j),
    ensures
        last_row_from(img, y0) >= j,
    decreases y0 - j,
{
    if !row_has_content(img, y0) {
        lemma_last_row_ge(img, y0 - 1, j);
    }
}

proof fn lemma_no_content_scans(img: GrayImage)
    requires
        img.w() >= 1,
        img.h() >= 1,
        forall|i: int, j: int| !#[trigger] is_content(img, i, j),
    ensures
        content_left(img) == 0,
        content_right(img) == img.w() - 1,
        content_top(img) == 0,
        content_bottom(img) == img.h() - 1,
{
    lemma_blank_first_column(img, 0);
    lemma_blank_last_column(img, img.w() - 1);
    lemma_blank_first_row(img, 0);
    lemma_blank_last_row(img, img.h() - 1);
}

proof fn lemma_blank_first_column(img: GrayImage, x: int)
    requires
        forall|i: int, j: int| !#[trigger] is_content(img, i, j),
    ensures
        first_column_from(img, x) == 0,
    decreases img.w() - x,
{
    if 0 <= x < img.w() {
        lemma_blank_first_column(img, x + 1);
    }
}

proof fn lemma_blank_last_column(img: GrayImage, x: int)
    requires
        forall|i: int, j: int| !#[trigger] is_content(img, i, j),
    ensures
        last_column_from(img, x) == img.w() - 1,
    decreases x + 1,
{
    if 0 <= x < img.w() {
        lemma_blank_last_column(img, x - 1);
    }
}

proof fn lemma_blank_first_row(img: GrayImage, y: int)
    requires
        forall|i: int, j: int| !#[trigger] is_content(img, i, j),
    ensures
        first_row_from(img, y) == 0,
    decreases img.h() - y,
{
    if 0 <= y < img.h() {
        lemma_blank_first_row(img, y + 1);
    }
}

proof fn lemma_blank_last_row(img: GrayImage, y: int)
    requires
        forall|i: int, j: int| !#[trigger] is_content(img, i, j),
    ensures
        last_row_from(img, y) == img.h() - 1,
    decreases y + 1,
{
    if 0 <= y < img.h() {
        lemma_blank_last_row(img, y - 1);
    }
}

/// Auto-crop never cuts content: every content pixel of the page lies in
/// the cropped rectangle, with the safety margin kept around it wherever the
/// page edge allows; the rectangle lies within the page and is smaller than
/// it along at least one axis.
pub proof fn auto_crop_keeps_content(img: GrayImage, i: int, j: int)
    requires
        img.w() >= 1,
        img.h() >= 1,
        crop_rect(img) is Some,
        is_content(img, i, j),
    ensures
        ({
            let (x, y, w, h) = crop_rect(img)->0;
            &&& x <= i < x + w
            &&& y <= j < y + h
            &&& (i - x >= SAFETY_MARGIN || x == 0)
            &&& (x + w - 1 - i >= SAFETY_MARGIN || x + w == img.w())
            &&& (j - y >= SAFETY_MARGIN || y == 0)
            &&& (y + h - 1 - j >= SAFETY_MARGIN || y + h == img.h())
            &&& 0 <= x && x + w <= img.w()
            &&& 0 <= y && y + h <= img.h()
            &&& (w < img.w() || h < img.h())
        }),
{
    lemma_scans_in_range(img);
    assert(img.contains(i, j));
    assert(column_has_content(img, i));
    assert(row_has_content(img, j));
    lemma_first_column_le(img, 0, i);
    lemma_last_column_ge(img, img.w() - 1, i);
    lemma_first_row_le(img, 0, j);
    lemma_last_row_ge(img, img.h() - 1, j);
}

/// A page without any content (all white, or only isolated specks) keeps
/// its size.
pub proof fn blank_page_is_not_cropped(img: GrayImage)
    requires
        img.w() >= 1,
        img.h() >= 1,
        forall|i: int, j: int| !#[trigger] is_content(img, i, j),
    ensures
        crop_rect(img) is None,
{
    lemma_no_content_scans(img);
}

proof fn lemma_first_column_has_content(img: GrayImage, x0: int, i: int)
    requires
        0 <= x0 <= i < img.w(),
        column_has_content(img, i),
    ensures
        column_has_content(img, first_column_from(img, x0)),
    decreases i - x0,
{
    if !column_has_content(img, x0) {
        lemma_first_column_has_content(img, x0 + 1, i);
    }
}

proof fn lemma_last_column_has_content(img: GrayImage, x0: int, i: int)
    requires
        0 <= i <= x0 < img.w(),
        column_has_content(img, i),
    ensures
        column_has_content(img, last_column_from(img, x0)),
    decreases x0 - i,
{
    if !column_has_content(img, x0) {
        lemma_last_column_has_content(img, x0 - 1, i);
    }
}

proof fn lemma_first_row_has_content(img: GrayImage, y0: int, j: int)
    requires
        0 <= y0 <= j < img.h(),
        row_has_content(img, j),
    ensures
        row_has_content(img, first_row_from(img, y0)),
    decreases j - y0,
{
    if !row_has_content(img, y0) {
        lemma_first_row_has_content(img, y0 + 1, j);
    }
}

proof fn lemma_last_row_has_content(img: GrayImage, y0: int, j: int)
    requires
        0 <= j <= y0 < img.h(),
        row_has_content(img, j),
    ensures
        row_has_content(img, last_row_from(img, y0)),
    decreases y0 - j,
{
    if !row_has_content(img, y0) {
        lemma_last_row_has_content(img, y0 - 1, j);
    }
}

/// A white margin at least `MIN_MARGIN_WIDTH` wide beyond the safety margin,
/// on any one side, is cut away, whatever the other margins are. Take a page
/// whose content spans more than one column and more than one row (content
/// at (i1, j1) and at (i2, j2) with i1 < i2 and j1 < j2). If all content lies
/// in the columns up to `edge` and at least `MIN_MARGIN_WIDTH` columns remain
/// right of `edge` plus the safety margin, the page is cropped, and the crop
/// ends before those columns; likewise for content from column `edge` on with
/// a wide left margin, and for the top and bottom margins.
pub proof fn wide_margin_is_cut(img: GrayImage, i1: int, j1: int, i2: int, j2: int, edge: int)
    requires
        is_content(img, i1, j1),
        is_content(img, i2, j2),
        i1 < i2,
        j1 < j2,
    ensures
        (forall|i: int, j: int| #[trigger] is_content(img, i, j) ==> i <= edge) && img.w() - 1 - (
        edge + SAFETY_MARGIN) >= MIN_MARGIN_WIDTH ==> (crop_rect(img) matches Some((x, y, w, h))
            && x + w <= edge + SAFETY_MARGIN + 1),
        (forall|i: int, j: int| #[trigger] is_content(img, i, j) ==> i >= edge) && edge
            - SAFETY_MARGIN >= MIN_MARGIN_WIDTH ==> (crop_rect(img) matches Some((x, y, w, h)) && x
            >= edge - SAFETY_MARGIN),
        (forall|i: int, j: int| #[trigger] is_content(img, i, j) ==> j <= edge) && img.h() - 1 - (
        edge + SAFETY_MARGIN) >= MIN_MARGIN_WIDTH ==> (crop_rect(img) matches Some((x, y, w, h))
            && y + h <= edge + SAFETY_MARGIN + 1),
        (forall|i: int, j: int| #[trigger] is_content(img, i, j) ==> j >= edge) && edge
            - SAFETY_MARGIN >= MIN_MARGIN_WIDTH ==> (crop_rect(img) matches Some((x, y, w, h)) && y
            >= edge - SAFETY_MARGIN),
{
    assert(img.contains(i1, j1) && img.contains(i2, j2));
    assert(column_has_content(img, i1) && column_has_content(img, i2));
    assert(row_has_content(img, j1) && row_has_content(img, j2));
    lemma_scans_in_range(img);
    lemma_first_column_le(img, 0, i1);
    lemma_last_column_ge(img, img.w() - 1, i2);
    lemma_first_row_le(img, 0, j1);
    lemma_last_row_ge(img, img.h() - 1, j2);
    lemma_first_column_has_content(img, 0, i1);
    lemma_last_column_has_content(img, img.w() - 1, i2);
    lemma_first_row_has_content(img, 0, j1);
    lemma_last_row_has_content(img, img.h() - 1, j2);
    let left = content_left(img);
    let right = content_right(img);
    let top = content_top(img);
    let bottom = content_bottom(img);
    let yr = choose|y: int| 0 <= y < img.h() && #[trigger] is_content(img, right, y);
    let yl = choose|y: int| 0 <= y < img.h() && #[trigger] is_content(img, left, y);
    let xb = choose|x: int| 0 <= x < img.w() && #[trigger] is_content(img, x, bottom);
    let xt = choose|x: int| 0 <= x < img.w() && #[trigger] is_content(img, x, top);
    assert(is_content(img, right, yr) && is_content(img, left, yl));
    assert(is_content(img, xb, bottom) && is_content(img, xt, top));
}

} // verus!
