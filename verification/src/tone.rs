//! Tone adjustments applied to every page: the gamma curve (as a lookup
//! table), autocontrast and brightness.

use vstd::prelude::*;
use crate::gray::GrayImage;
use crate::settings::gamma_is_applied;

verus! {

/// The darkest value of a sequence of pixels (0 when there is none).
pub open spec fn darkest(s: Seq<u8>) -> int
    decreases s.len(),
{
    if s.len() == 0 {
        0
    } else if s.len() == 1 {
        s[0] as int
    } else {
        let d = darkest(s.drop_last());
        if (s.last() as int) < d { s.last() as int } else { d }
    }
}

/// The brightest value of a sequence of pixels (255 when there is none).
pub open spec fn brightest(s: Seq<u8>) -> int
    decreases s.len(),
{
    if s.len() == 0 {
        255
    } else if s.len() == 1 {
        s[0] as int
    } else {
        let b = brightest(s.drop_last());
        if (s.last() as int) > b { s.last() as int } else { b }
    }
}

/// `darkest` and `brightest` are the least and greatest values present.
pub proof fn lemma_extremes(s: Seq<u8>)
    requires
        s.len() > 0,
    ensures
        forall|k: int| 0 <= k < s.len() ==> darkest(s) <= #[trigger] s[k] as int <= brightest(s),
        exists|k: int| 0 <= k < s.len() && s[k] as int == darkest(s),
        exists|k: int| 0 <= k < s.len() && s[k] as int == brightest(s),
    decreases s.len(),
{
    if s.len() > 1 {
        lemma_extremes(s.drop_last());
        let t = s.drop_last();
        assert forall|k: int| 0 <= k < s.len() implies darkest(s) <= #[trigger] s[k] as int <= brightest(s) by {
            if k < s.len() - 1 {
                assert(s[k] == t[k]);
            }
        }
        let kd = choose|k: int| 0 <= k < t.len() && t[k] as int == darkest(t);
        let kb = choose|k: int| 0 <= k < t.len() && t[k] as int == brightest(t);
        assert(s[kd] == t[kd]);
        assert(s[kb] == t[kb]);
        if (s.last() as int) < darkest(t) {
            assert(s[s.len() - 1] as int == darkest(s));
        } else {
            assert(s[kd] as int == darkest(s));
        }
        if (s.last() as int) > brightest(t) {
            assert(s[s.len() - 1] as int == brightest(s));
        } else {
            assert(s[kb] as int == brightest(s));
        }
    } else {
        assert(s[0] as int == darkest(s));
    }
}

/// Linear contrast stretch of one value: `lo` and below become 0, `hi` and
/// above 255, values between are scaled (rounding down).
pub open spec fn stretched(p: int, lo: int, hi: int) -> int {
    if p <= lo {
        0
    } else if p >= hi {
        255
    } else {
        (p - lo) * 255 / (hi - lo)
    }
}

/// One value brightened by `b`, kept within 0..=255.
pub open spec fn brightened(p: int, b: int) -> int {
    if p + b < 0 {
        0
    } else if p + b > 255 {
        255
    } else {
        p + b
    }
}

/// The pixels after the gamma lookup table (when `apply`).
pub open spec fn toned(s: Seq<u8>, lut: Seq<u8>, apply: bool) -> Seq<u8> {
    if apply {
        Seq::new(s.len(), |k: int| lut[s[k] as int])
    } else {
        s
    }
}

/// The pixels after gamma, autocontrast over the darkest..brightest range
/// (when that range is not a single value) and brightness.
pub open spec fn transformed(s: Seq<u8>, lut: Seq<u8>, apply: bool, b: int) -> Seq<u8> {
    let g = toned(s, lut, apply);
    let lo = darkest(g);
    let hi = brightest(g);
    Seq::new(
        g.len(),
        |k: int|
            {
                let c = if hi > lo { stretched(g[k] as int, lo, hi) } else { g[k] as int };
                brightened(c, b) as u8
            },
    )
}

/// `imageproc::contrast::stretch_contrast` with output range 0..=255: each
/// value in `lo..=hi` is mapped linearly onto 0..=255, values outside
/// saturate (as its source computes it, in `u16`).
#[verifier::external_body]
fn stretch_contrast_raw(width: u32, height: u32, data: Vec<u8>, lo: u8, hi: u8) -> (r: Vec<u8>)
    requires
        data@.len() == width as int * height as int,
        lo < hi,
    ensures
        r@.len() == data@.len(),
        forall|k: int|
            0 <= k < data@.len() ==> r@[k] as int == stretched(data@[k] as int, lo as int, hi as int),
{
    let img = imageproc::image::GrayImage::from_raw(width, height, data).unwrap();
    imageproc::contrast::stretch_contrast(&img, lo, hi, 0, 255).into_raw()
}

/// `image::imageops::colorops::brighten_in_place`: adds `value` to every
/// pixel, clamping the sum to 0..=255.
#[verifier::external_body]
fn brighten_raw(width: u32, height: u32, data: Vec<u8>, value: i32) -> (r: Vec<u8>)
    requires
        data@.len() == width as int * height as int,
        value <= i32::MAX - 255,
    ensures
        r@.len() == data@.len(),
        forall|k: int|
            0 <= k < data@.len() ==> r@[k] as int == brightened(data@[k] as int, value as int),
{
    let mut img = imageproc::image::GrayImage::from_raw(width, height, data).unwrap();
    imageproc::image::imageops::colorops::brighten_in_place(&mut img, value);
    img.into_raw()
}

/// Every pixel replaced by its entry in the lookup table.
pub fn apply_lut(img: &GrayImage, lut: &[u8; 256]) -> (r: GrayImage)
    requires
        img.wf(),
    ensures
        r.wf(),
        r.w() == img.w(),
        r.h() == img.h(),
        r.raw() == toned(img.raw(), lut@, true),
{
    let src = img.as_raw();
    let mut out: Vec<u8> = Vec::new();
    let mut k: usize = 0;
    while k < src.len()
        invariant
            k <= src@.len(),
            out@.len() == k,
            lut@.len() == 256,
            forall|m: int| 0 <= m < k ==> out@[m] == lut@[src@[m] as int],
        decreases src@.len() - k,
    {
        out.push(lut[src[k] as usize]);
        k += 1;
    }
    proof {
        img.lemma_shape();
        assert(out@ =~= toned(img.raw(), lut@, true));
        img.lemma_shape();
    }
    GrayImage::from_raw_parts(img.width(), img.height(), out)
}

/// The darkest and brightest pixel values, or `None` for an empty image.
pub fn pixel_range(img: &GrayImage) -> (r: Option<(u8, u8)>)
    requires
        img.wf(),
    ensures
        r is None <==> img.raw().len() == 0,
        r matches Some((lo, hi)) ==> lo == darkest(img.raw()) && hi == brightest(img.raw()),
{
    let src = img.as_raw();
    if src.len() == 0 {
        return None;
    }
    let mut lo: u8 = src[0];
    let mut hi: u8 = src[0];
    let mut k: usize = 1;
    proof {
        assert(src@.take(1).drop_last() =~= Seq::<u8>::empty());
    }
    while k < src.len()
        invariant
            1 <= k <= src@.len(),
            lo == darkest(src@.take(k as int)),
            hi == brightest(src@.take(k as int)),
        decreases src@.len() - k,
    {
        proof {
            assert(src@.take(k + 1).drop_last() =~= src@.take(k as int));
        }
        let v = src[k];
        if v < lo {
            lo = v;
        }
        if v > hi {
            hi = v;
        }
        k += 1;
    }
    proof {
        assert(src@.take(k as int) =~= src@);
    }
    Some((lo, hi))
}

/// Gamma (through `gamma_lut`, when the setting `gamma` is not 1.0),
/// autocontrast and brightness, as every page gets them.
///
/// `gamma_lut` maps each value v to round(255 * (v / 255) ^ gamma); it is
/// computed in floating point by the caller.
pub fn transform(img: GrayImage, brightness: i32, gamma: u16, gamma_lut: &[u8; 256]) -> (r:
    GrayImage)
    requires
        img.wf(),
        brightness <= i32::MAX - 255,
    ensures
        r.wf(),
        r.w() == img.w(),
        r.h() == img.h(),
        r.raw() == transformed(
            img.raw(),
            gamma_lut@,
            gamma_is_applied(gamma as int),
            brightness as int,
        ),
{
    let g_eff: u16 = if gamma < 10 { 10 } else if gamma > 300 { 300 } else { gamma };
    let apply = g_eff < 99 || g_eff > 101;
    let toned_img = if apply { apply_lut(&img, gamma_lut) } else { img };
    let ghost g = toned_img.raw();
    proof {
        assert(g =~= toned(img.raw(), gamma_lut@, apply));
        toned_img.lemma_shape();
    }
    let (w, h) = toned_img.dimensions();
    let range = pixel_range(&toned_img);
    let data = toned_img.into_raw();
    let stretched_data = match range {
        Some((lo, hi)) => {
            if hi > lo {
                stretch_contrast_raw(w, h, data, lo, hi)
            } else {
                data
            }
        },
        None => data,
    };
    let ghost st = stretched_data@;
    let out = if brightness != 0 {
        brighten_raw(w, h, stretched_data, brightness)
    } else {
        stretched_data
    };
    proof {
        let lo = darkest(g);
        let hi = brightest(g);
        assert forall|k: int| 0 <= k < g.len() implies out@[k] == transformed(
            img.raw(),
            gamma_lut@,
            apply,
            brightness as int,
        )[k] by {
            let c = if hi > lo { stretched(g[k] as int, lo, hi) } else { g[k] as int };
            assert(st[k] as int == c);
            assert(0 <= c <= 255);
        }
        assert(out@ =~= transformed(img.raw(), gamma_lut@, apply, brightness as int));
    }
    GrayImage::from_raw_parts(w, h, out)
}

/// Autocontrast spreads a page over the full range: where the toned page
/// has more than one value, its darkest pixels become 0 and its brightest
/// 255 (before brightness moves them).
pub proof fn autocontrast_uses_full_range(s: Seq<u8>, lut: Seq<u8>, apply: bool)
    requires
        s.len() > 0,
        darkest(toned(s, lut, apply)) < brightest(toned(s, lut, apply)),
    ensures
        exists|k: int| 0 <= k < s.len() && transformed(s, lut, apply, 0)[k] == 0,
        exists|k: int| 0 <= k < s.len() && transformed(s, lut, apply, 0)[k] == 255,
{
    let g = toned(s, lut, apply);
    lemma_extremes(g);
    let kd = choose|k: int| 0 <= k < g.len() && g[k] as int == darkest(g);
    let kb = choose|k: int| 0 <= k < g.len() && g[k] as int == brightest(g);
    assert(transformed(s, lut, apply, 0)[kd] == 0);
    assert(transformed(s, lut, apply, 0)[kb] == 255);
}

} // verus!
