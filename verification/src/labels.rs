//! What the settings screen writes for each setting, and the page line of
//! the preview.

use vstd::prelude::*;
use crate::settings::{OutputFormat, SplitStrategy};
use crate::text::{decimal, decimal_chars, push_chars, push_decimal, push_str, zero_padded, zero_padded_chars};

verus! {

/// The reading direction as the settings screen names it.
pub open spec fn direction_text(right_to_left: bool) -> Seq<char> {
    if right_to_left {
        "right to left (manga)"@
    } else {
        "left to right"@
    }
}

/// The label of the reading direction button.
pub fn direction_label(right_to_left: bool) -> (r: &'static str)
    ensures
        r@ == direction_text(right_to_left),
{
    if right_to_left {
        "right to left (manga)"
    } else {
        "left to right"
    }
}

/// The split strategy as the settings screen names it.
pub open spec fn split_text(split: SplitStrategy) -> Seq<char> {
    match split {
        SplitStrategy::Keep => "none"@,
        SplitStrategy::Split => "split"@,
        SplitStrategy::Rotate => "rotate"@,
        SplitStrategy::RotateAndSplit => "split & rotate"@,
    }
}

/// The label of the spread splitter button.
pub fn split_label(split: SplitStrategy) -> (r: &'static str)
    ensures
        r@ == split_text(split),
{
    match split {
        SplitStrategy::Keep => "none",
        SplitStrategy::Split => "split",
        SplitStrategy::Rotate => "rotate",
        SplitStrategy::RotateAndSplit => "split & rotate",
    }
}

/// The label of the auto crop button.
pub fn yes_no(on: bool) -> (r: &'static str)
    ensures
        r@ == (if on {
            "yes"@
        } else {
            "no"@
        }),
{
    if on {
        "yes"
    } else {
        "no"
    }
}

/// The output format as the settings screen names it.
pub open spec fn output_text(format: OutputFormat) -> Seq<char> {
    match format {
        OutputFormat::Mobi => "AZW3/MOBI"@,
        OutputFormat::Epub => "EPUB"@,
        OutputFormat::Cbz => "CBZ"@,
    }
}

/// The label of the output format button.
pub fn output_label(format: OutputFormat) -> (r: &'static str)
    ensures
        r@ == output_text(format),
{
    match format {
        OutputFormat::Mobi => "AZW3/MOBI",
        OutputFormat::Epub => "EPUB",
        OutputFormat::Cbz => "CBZ",
    }
}

/// `text` right-aligned in `width` columns: spaces before it when it is
/// shorter.
pub open spec fn right_aligned(text: Seq<char>, width: nat) -> Seq<char> {
    if text.len() < width {
        Seq::new((width - text.len()) as nat, |i: int| ' ') + text
    } else {
        text
    }
}

fn right_align(cs: Vec<char>, width: usize) -> (r: String)
    ensures
        r@ == right_aligned(cs@, width as nat),
{
    let mut s = String::new();
    if cs.len() < width {
        let pad: usize = width - cs.len();
        let mut k: usize = 0;
        while k < pad
            invariant
                k <= pad,
                s@ =~= Seq::new(k as nat, |i: int| ' '),
            decreases pad - k,
        {
            crate::text::push_char(&mut s, ' ');
            k += 1;
        }
    }
    let ghost before = s@;
    push_chars(&mut s, &cs);
    proof {
        if cs@.len() >= width {
            assert(before =~= Seq::<char>::empty());
            assert(s@ =~= cs@);
        }
    }
    s
}

/// The quality value as shown: right-aligned in 3 columns.
pub fn quality_text(quality: u8) -> (r: String)
    ensures
        r@ == right_aligned(decimal(quality as nat), 3),
{
    right_align(decimal_chars(quality as u64), 3)
}

/// An integer in decimal, with a '-' when negative.
pub open spec fn signed_decimal(n: int) -> Seq<char> {
    if n < 0 {
        "-"@ + decimal((-n) as nat)
    } else {
        decimal(n as nat)
    }
}

/// The brightness value as shown: right-aligned in 4 columns.
pub fn brightness_text(brightness: i32) -> (r: String)
    ensures
        r@ == right_aligned(signed_decimal(brightness as int), 4),
{
    let mut cs: Vec<char> = Vec::new();
    let magnitude: u64;
    if brightness < 0 {
        cs.push('-');
        magnitude = (0i64 - brightness as i64) as u64;
    } else {
        magnitude = brightness as u64;
    }
    let digits = decimal_chars(magnitude);
    let mut k: usize = 0;
    let ghost head = cs@;
    while k < digits.len()
        invariant
            k <= digits@.len(),
            cs@ == head + digits@.take(k as int),
        decreases digits@.len() - k,
    {
        proof {
            assert(digits@.take(k + 1) =~= digits@.take(k as int).push(digits@[k as int]));
        }
        cs.push(digits[k]);
        k += 1;
    }
    proof {
        reveal_strlit("-");
        assert(digits@.take(k as int) =~= digits@);
        assert(cs@ =~= signed_decimal(brightness as int));
    }
    right_align(cs, 4)
}

/// A gamma in hundredths as shown: the whole part, a point and two
/// decimals ("1.80" for 180).
pub open spec fn gamma_display(hundredths: nat) -> Seq<char> {
    decimal(hundredths / 100) + "."@ + zero_padded(hundredths % 100, 2)
}

/// The gamma value as shown.
pub fn gamma_text(hundredths: u16) -> (r: String)
    ensures
        r@ == gamma_display(hundredths as nat),
{
    let mut s = String::new();
    push_decimal(&mut s, (hundredths / 100) as u64);
    push_str(&mut s, ".");
    let frac = zero_padded_chars((hundredths % 100) as u64, 2);
    push_chars(&mut s, &frac);
    proof {
        assert(s@ =~= gamma_display(hundredths as nat));
    }
    s
}

/// The preview's page line: "page n of total", counting from 1.
pub open spec fn page_line(index: nat, total: nat) -> Seq<char> {
    "page "@ + decimal(index + 1) + " of "@ + decimal(total)
}

/// The page line of the preview showing page `index` (from 0) of `total`.
pub fn page_info(index: usize, total: usize) -> (r: String)
    requires
        index < usize::MAX,
    ensures
        r@ == page_line(index as nat, total as nat),
{
    let mut s = "page ".to_owned();
    push_decimal(&mut s, index as u64 + 1);
    push_str(&mut s, " of ");
    push_decimal(&mut s, total as u64);
    s
}

} // verus!
