//! Conversion settings: formats, split strategies, devices and the user
//! adjustable values, with the rules by which the settings screen changes them.

use vstd::prelude::*;

verus! {

/// What to do with a double-page spread (an image wider than tall).
#[derive(Debug, Clone, Copy, PartialEq, Eq, Structural)]
pub enum SplitStrategy {
    Keep,
    Split,
    Rotate,
    RotateAndSplit,
}

/// The packaged output of a comic.
#[derive(Debug, Clone, Copy, PartialEq, Eq, Structural)]
pub enum OutputFormat {
    Mobi,
    Epub,
    Cbz,
}

/// PNG compression effort.
#[derive(Debug, Clone, Copy, PartialEq, Eq, Structural)]
pub enum PngCompression {
    Fast,
    Default,
    Best,
}

/// The encoding of every processed page.
#[derive(Debug, Clone, Copy, PartialEq, Eq, Structural)]
pub enum ImageFormat {
    Jpeg { quality: u8 },
    Png { compression: PngCompression },
    WebP { quality: u8 },
}

/// The numeric value the settings screen can adjust.
#[derive(Debug, Clone, Copy, PartialEq, Eq, Structural)]
pub enum SelectedField {
    Quality,
    Brightness,
    Gamma,
}

/// Step of a quality/brightness adjustment: 1 when fine, 5 otherwise.
pub open spec fn step_of(fine: bool) -> int {
    if fine { 1 } else { 5 }
}

/// Step of a gamma adjustment in hundredths: 0.05 when fine, 0.1 otherwise.
pub open spec fn gamma_step_of(fine: bool) -> int {
    if fine { 5 } else { 10 }
}

/// A quality after one adjustment: raised and capped at 100, or lowered and
/// floored at 0.
pub open spec fn adjusted_quality(q: int, increase: bool, fine: bool) -> int {
    if increase {
        if q + step_of(fine) < 100 { q + step_of(fine) } else { 100 }
    } else {
        if q - step_of(fine) > 0 { q - step_of(fine) } else { 0 }
    }
}

/// PNG compression one notch up (`increase`) or down, saturating at the ends.
pub open spec fn adjusted_compression(c: PngCompression, increase: bool) -> PngCompression {
    if increase {
        match c {
            PngCompression::Fast => PngCompression::Default,
            _ => PngCompression::Best,
        }
    } else {
        match c {
            PngCompression::Best => PngCompression::Default,
            _ => PngCompression::Fast,
        }
    }
}

/// What `ImageFormat::adjust_quality` makes of a format.
pub open spec fn adjusted_format(f: ImageFormat, increase: bool, fine: bool) -> ImageFormat {
    match f {
        ImageFormat::Jpeg { quality } => ImageFormat::Jpeg {
            quality: adjusted_quality(quality as int, increase, fine) as u8,
        },
        ImageFormat::WebP { quality } => ImageFormat::WebP {
            quality: adjusted_quality(quality as int, increase, fine) as u8,
        },
        ImageFormat::Png { compression } => ImageFormat::Png {
            compression: adjusted_compression(compression, increase),
        },
    }
}

/// The format that follows `f` when cycling: JPEG, PNG, WebP, JPEG, ...
pub open spec fn cycled_format(f: ImageFormat) -> ImageFormat {
    match f {
        ImageFormat::Jpeg { .. } => ImageFormat::Png { compression: PngCompression::Default },
        ImageFormat::Png { .. } => ImageFormat::WebP { quality: 85 },
        ImageFormat::WebP { .. } => ImageFormat::Jpeg { quality: 85 },
    }
}

/// The file extension of a format.
pub open spec fn format_extension(f: ImageFormat) -> Seq<char> {
    match f {
        ImageFormat::Jpeg { .. } => seq!['j', 'p', 'g'],
        ImageFormat::Png { .. } => seq!['p', 'n', 'g'],
        ImageFormat::WebP { .. } => seq!['w', 'e', 'b', 'p'],
    }
}

/// The quality of a lossy format (0 for PNG).
pub open spec fn format_quality(f: ImageFormat) -> int {
    match f {
        ImageFormat::Jpeg { quality } => quality as int,
        ImageFormat::WebP { quality } => quality as int,
        ImageFormat::Png { .. } => 0,
    }
}

/// One quality adjustment of a lossy format's quality value.
fn adjust_quality_value(quality: u8, increase: bool, fine: bool) -> (r: u8)
    requires
        increase ==> quality + step_of(fine) <= 255,
    ensures
        r == adjusted_quality(quality as int, increase, fine),
{
    let step: u8 = if fine { 1 } else { 5 };
    if increase {
        let raised: u8 = quality + step;
        if raised < 100 { raised } else { 100 }
    } else {
        if quality > step { quality - step } else { 0 }
    }
}

impl ImageFormat {
    /// The next format in the JPEG, PNG, WebP cycle, with its default setting.
    pub fn cycle(&self) -> (r: Self)
        ensures
            r == cycled_format(*self),
    {
        match self {
            ImageFormat::Jpeg { .. } => ImageFormat::Png { compression: PngCompression::Default },
            ImageFormat::Png { .. } => ImageFormat::WebP { quality: 85 },
            ImageFormat::WebP { .. } => ImageFormat::Jpeg { quality: 85 },
        }
    }

    /// The file extension for images of this format.
    pub fn extension(&self) -> (r: &'static str)
        ensures
            r@ == format_extension(*self),
    {
        let r = match self {
            ImageFormat::Jpeg { .. } => "jpg",
            ImageFormat::Png { .. } => "png",
            ImageFormat::WebP { .. } => "webp",
        };
        proof {
            reveal_strlit("jpg");
            reveal_strlit("png");
            reveal_strlit("webp");
        }
        r
    }

    /// Raises or lowers the quality (by 1 when `fine`, else by 5, within
    /// 0..=100) of a lossy format, or moves the PNG compression one notch.
    pub fn adjust_quality(&mut self, increase: bool, fine: bool)
        requires
            increase ==> format_quality(*old(self)) + step_of(fine) <= 255,
        ensures
            *final(self) == adjusted_format(*old(self), increase, fine),
    {
        match self {
            ImageFormat::Jpeg { quality } => {
                *quality = adjust_quality_value(*quality, increase, fine);
            },
            ImageFormat::WebP { quality } => {
                *quality = adjust_quality_value(*quality, increase, fine);
            },
            ImageFormat::Png { compression } => {
                *compression = if increase {
                    match compression {
                        PngCompression::Fast => PngCompression::Default,
                        PngCompression::Default => PngCompression::Best,
                        PngCompression::Best => PngCompression::Best,
                    }
                } else {
                    match compression {
                        PngCompression::Fast => PngCompression::Fast,
                        PngCompression::Default => PngCompression::Fast,
                        PngCompression::Best => PngCompression::Default,
                    }
                };
            },
        }
    }
}

/// The compression that follows `c` when cycling: Fast, Default, Best, Fast, ...
pub open spec fn cycled_compression(c: PngCompression) -> PngCompression {
    match c {
        PngCompression::Fast => PngCompression::Default,
        PngCompression::Default => PngCompression::Best,
        PngCompression::Best => PngCompression::Fast,
    }
}

impl PngCompression {
    /// The next compression level, wrapping from Best back to Fast.
    pub fn cycle(&self) -> (r: Self)
        ensures
            r == cycled_compression(*self),
    {
        match self {
            PngCompression::Fast => PngCompression::Default,
            PngCompression::Default => PngCompression::Best,
            PngCompression::Best => PngCompression::Fast,
        }
    }
}

/// The strategy that follows `s` on the settings screen: keep, split,
/// rotate, rotate & split, keep, ...
pub open spec fn next_split(s: SplitStrategy) -> SplitStrategy {
    match s {
        SplitStrategy::Keep => SplitStrategy::Split,
        SplitStrategy::Split => SplitStrategy::Rotate,
        SplitStrategy::Rotate => SplitStrategy::RotateAndSplit,
        SplitStrategy::RotateAndSplit => SplitStrategy::Keep,
    }
}

impl SplitStrategy {
    /// The next strategy in the settings cycle.
    pub fn next(&self) -> (r: Self)
        ensures
            r == next_split(*self),
    {
        match self {
            SplitStrategy::Keep => SplitStrategy::Split,
            SplitStrategy::Split => SplitStrategy::Rotate,
            SplitStrategy::Rotate => SplitStrategy::RotateAndSplit,
            SplitStrategy::RotateAndSplit => SplitStrategy::Keep,
        }
    }
}

/// The output format that follows `f` on the settings screen: MOBI, EPUB,
/// CBZ, MOBI, ...
pub open spec fn next_output(f: OutputFormat) -> OutputFormat {
    match f {
        OutputFormat::Mobi => OutputFormat::Epub,
        OutputFormat::Epub => OutputFormat::Cbz,
        OutputFormat::Cbz => OutputFormat::Mobi,
    }
}

/// The file extension of an output file.
pub open spec fn output_extension(f: OutputFormat) -> Seq<char> {
    match f {
        OutputFormat::Mobi => seq!['m', 'o', 'b', 'i'],
        OutputFormat::Epub => seq!['e', 'p', 'u', 'b'],
        OutputFormat::Cbz => seq!['c', 'b', 'z'],
    }
}

impl OutputFormat {
    /// The next output format in the settings cycle.
    pub fn next(&self) -> (r: Self)
        ensures
            r == next_output(*self),
    {
        match self {
            OutputFormat::Mobi => OutputFormat::Epub,
            OutputFormat::Epub => OutputFormat::Cbz,
            OutputFormat::Cbz => OutputFormat::Mobi,
        }
    }

    /// The extension of the file written in this format.
    pub fn extension(&self) -> (r: &'static str)
        ensures
            r@ == output_extension(*self),
    {
        let r = match self {
            OutputFormat::Mobi => "mobi",
            OutputFormat::Epub => "epub",
            OutputFormat::Cbz => "cbz",
        };
        proof {
            reveal_strlit("mobi");
            reveal_strlit("epub");
            reveal_strlit("cbz");
        }
        r
    }
}

/// A target e-reader: its name and its screen size in pixels (width, height).
#[derive(Debug)]
pub struct DevicePreset {
    pub name: String,
    pub dimensions: (u32, u32),
}

impl Clone for DevicePreset {
    fn clone(&self) -> (r: Self)
        ensures
            r == *self,
    {
        DevicePreset { name: self.name.clone(), dimensions: self.dimensions }
    }
}

/// Everything that decides how a comic is converted.
///
/// `gamma` is held in hundredths (180 stands for a gamma of 1.8); the
/// settings screen moves it in steps of 0.05 and 0.1 between 0.1 and 3.0,
/// which hundredths hold exactly.
#[derive(Debug)]
pub struct ComicConfig {
    pub device: DevicePreset,
    pub right_to_left: bool,
    pub split: SplitStrategy,
    pub auto_crop: bool,
    pub compression_quality: u8,
    pub brightness: i32,
    pub gamma: u16,
    pub output_format: OutputFormat,
    pub margin_color: Option<u8>,
    pub image_format: ImageFormat,
}

impl Clone for ComicConfig {
    fn clone(&self) -> (r: Self)
        ensures
            r == *self,
    {
        ComicConfig {
            device: self.device.clone(),
            right_to_left: self.right_to_left,
            split: self.split,
            auto_crop: self.auto_crop,
            compression_quality: self.compression_quality,
            brightness: self.brightness,
            gamma: self.gamma,
            output_format: self.output_format,
            margin_color: self.margin_color,
            image_format: self.image_format,
        }
    }
}

/// The settings a first run starts from.
pub open spec fn is_default_config(c: ComicConfig) -> bool {
    &&& c.device.name@ == "Kindle PW 11"@
    &&& c.device.dimensions == (1236u32, 1648u32)
    &&& c.right_to_left
    &&& c.split == SplitStrategy::RotateAndSplit
    &&& c.auto_crop
    &&& c.compression_quality == 85
    &&& c.brightness == -10
    &&& c.gamma == 180
    &&& c.output_format == OutputFormat::Mobi
    &&& c.margin_color is None
    &&& c.image_format == (ImageFormat::Jpeg { quality: 85 })
}

impl Default for ComicConfig {
    fn default() -> (r: Self)
        ensures
            is_default_config(r),
    {
        ComicConfig {
            device: DevicePreset { name: "Kindle PW 11".to_owned(), dimensions: (1236, 1648) },
            right_to_left: true,
            split: SplitStrategy::RotateAndSplit,
            auto_crop: true,
            compression_quality: 85,
            brightness: -10,
            gamma: 180,
            output_format: OutputFormat::Mobi,
            margin_color: None,
            image_format: ImageFormat::Jpeg { quality: 85 },
        }
    }
}

/// The gamma actually used: the setting clamped to 0.1..=3.0 (in hundredths).
pub open spec fn effective_gamma(g: int) -> int {
    if g < 10 { 10 } else if g > 300 { 300 } else { g }
}

/// Gamma correction is skipped when the clamped gamma is within 0.01 of 1.0.
pub open spec fn gamma_is_applied(g: int) -> bool {
    let e = effective_gamma(g);
    e < 99 || e > 101
}

impl ComicConfig {
    /// The size of the target screen (width, height).
    pub fn device_dimensions(&self) -> (r: (u32, u32))
        ensures
            r == self.device.dimensions,
    {
        self.device.dimensions
    }

    /// The gamma that processing uses, clamped to 0.1..=3.0, in hundredths.
    pub fn effective_gamma(&self) -> (r: u16)
        ensures
            r == effective_gamma(self.gamma as int),
    {
        if self.gamma < 10 { 10 } else if self.gamma > 300 { 300 } else { self.gamma }
    }

    /// Whether processing applies gamma correction at all.
    pub fn gamma_is_applied(&self) -> (r: bool)
        ensures
            r == gamma_is_applied(self.gamma as int),
    {
        let g = self.effective_gamma();
        g < 99 || g > 101
    }
}

/// A brightness after one adjustment: moved by the step and kept within
/// -100..=100 on the side it moved to.
pub open spec fn adjusted_brightness(b: int, increase: bool, fine: bool) -> int {
    if increase {
        if b + step_of(fine) < 100 { b + step_of(fine) } else { 100 }
    } else {
        if b - step_of(fine) > -100 { b - step_of(fine) } else { -100 }
    }
}

/// A gamma (hundredths) after one adjustment: moved by 0.05 or 0.1 and kept
/// at most 3.0 when raised, at least 0.1 when lowered.
pub open spec fn adjusted_gamma(g: int, increase: bool, fine: bool) -> int {
    if increase {
        if g + gamma_step_of(fine) < 300 { g + gamma_step_of(fine) } else { 300 }
    } else {
        if g - gamma_step_of(fine) > 10 { g - gamma_step_of(fine) } else { 10 }
    }
}

/// The configuration after adjusting `field` once; every other setting stays.
pub open spec fn adjusted_config(
    c: ComicConfig,
    field: SelectedField,
    increase: bool,
    fine: bool,
) -> ComicConfig {
    match field {
        SelectedField::Quality => ComicConfig {
            compression_quality: adjusted_quality(c.compression_quality as int, increase, fine) as u8,
            ..c
        },
        SelectedField::Brightness => ComicConfig {
            brightness: adjusted_brightness(c.brightness as int, increase, fine) as i32,
            ..c
        },
        SelectedField::Gamma => ComicConfig {
            gamma: adjusted_gamma(c.gamma as int, increase, fine) as u16,
            ..c
        },
    }
}

/// A brightness step from `b` stays within `i32`: the step is taken before
/// the result is brought back into -100..=100.
pub open spec fn brightness_step_fits(b: i32, increase: bool, fine: bool) -> bool {
    if increase {
        b + step_of(fine) <= i32::MAX
    } else {
        b - step_of(fine) >= i32::MIN
    }
}

impl ComicConfig {
    /// Moves one adjustable setting a step up or down (a fine step when
    /// `fine`): quality within 0..=100, brightness towards -100..=100,
    /// gamma towards 0.1..=3.0.
    pub fn adjust_setting(&mut self, field: SelectedField, increase: bool, fine: bool)
        requires
            field == SelectedField::Brightness ==> brightness_step_fits(
                old(self).brightness,
                increase,
                fine,
            ),
        ensures
            *final(self) == adjusted_config(*old(self), field, increase, fine),
    {
        match field {
            SelectedField::Quality => {
                let step: u8 = if fine { 1 } else { 5 };
                let q = self.compression_quality;
                self.compression_quality = if increase {
                    if q < 100 - step { q + step } else { 100 }
                } else {
                    if q > step { q - step } else { 0 }
                };
            },
            SelectedField::Brightness => {
                let step: i32 = if fine { 1 } else { 5 };
                let b = self.brightness;
                self.brightness = if increase {
                    if b + step < 100 { b + step } else { 100 }
                } else {
                    if b - step > -100 { b - step } else { -100 }
                };
            },
            SelectedField::Gamma => {
                let step: u16 = if fine { 5 } else { 10 };
                let g = self.gamma;
                self.gamma = if increase {
                    if g < 300 - step { g + step } else { 300 }
                } else {
                    if g > 10 + step { g - step } else { 10 }
                };
            },
        }
    }
}

/// Cycling the image format three times comes back to the same kind of
/// format (with that format's default setting).
pub proof fn format_cycle_has_period_three(f: ImageFormat)
    ensures
        format_extension(cycled_format(cycled_format(cycled_format(f)))) == format_extension(f),
        cycled_format(cycled_format(cycled_format(cycled_format(f)))) == cycled_format(f),
{
}

/// Cycling the PNG compression three times gives back the starting level.
pub proof fn compression_cycle_has_period_three(c: PngCompression)
    ensures
        cycled_compression(cycled_compression(cycled_compression(c))) == c,
{
}

/// Four presses of the split key, or three of the output-format key, give
/// back the starting setting.
pub proof fn settings_cycles_return(s: SplitStrategy, f: OutputFormat)
    ensures
        next_split(next_split(next_split(next_split(s)))) == s,
        next_output(next_output(next_output(f))) == f,
{
}

/// Adjusting a lossy format's quality never takes it above 100 when it
/// started at most 100.
pub proof fn adjust_quality_stays_in_range(f: ImageFormat, increase: bool, fine: bool)
    requires
        format_quality(f) <= 100,
    ensures
        format_quality(adjusted_format(f, increase, fine)) <= 100,
        format_extension(adjusted_format(f, increase, fine)) == format_extension(f),
{
}

/// Lowering undoes raising when raising was not cut off at the top: the
/// quality of a lossy format, and the compression of PNG below Best.
pub proof fn lower_undoes_raise(f: ImageFormat, fine: bool)
    requires
        format_quality(f) + step_of(fine) <= 100,
        f matches ImageFormat::Png { compression } ==> compression != PngCompression::Best,
    ensures
        adjusted_format(adjusted_format(f, true, fine), false, fine) == f,
{
}

/// Adjusting a setting keeps quality within 0..=100 and gamma within
/// 0.1..=3.0 when they started there, moves brightness towards
/// -100..=100, and leaves every other setting alone.
pub proof fn adjust_setting_keeps_ranges(
    c: ComicConfig,
    field: SelectedField,
    increase: bool,
    fine: bool,
)
    requires
        c.compression_quality <= 100,
        10 <= c.gamma <= 300,
        -100 <= c.brightness <= 100,
    ensures
        ({
            let r = adjusted_config(c, field, increase, fine);
            &&& r.compression_quality <= 100
            &&& 10 <= r.gamma <= 300
            &&& -100 <= r.brightness <= 100
            &&& r.device == c.device
            &&& r.right_to_left == c.right_to_left
            &&& r.split == c.split
            &&& r.auto_crop == c.auto_crop
            &&& r.output_format == c.output_format
            &&& r.margin_color == c.margin_color
            &&& r.image_format == c.image_format
        }),
{
}

/// Within the ranges, a step down undoes a step up of the same size.
pub proof fn adjust_setting_lower_undoes_raise(c: ComicConfig, field: SelectedField, fine: bool)
    requires
        c.compression_quality + step_of(fine) <= 100,
        -100 <= c.brightness,
        c.brightness + step_of(fine) <= 100,
        10 <= c.gamma,
        c.gamma + gamma_step_of(fine) <= 300,
    ensures
        adjusted_config(adjusted_config(c, field, true, fine), field, false, fine) == c,
{
}

/// Two configurations hold the same settings.
pub open spec fn same_settings(a: ComicConfig, b: ComicConfig) -> bool {
    &&& a.device.name@ == b.device.name@
    &&& a.device.dimensions == b.device.dimensions
    &&& a.right_to_left == b.right_to_left
    &&& a.split == b.split
    &&& a.auto_crop == b.auto_crop
    &&& a.compression_quality == b.compression_quality
    &&& a.brightness == b.brightness
    &&& a.gamma == b.gamma
    &&& a.output_format == b.output_format
    &&& a.margin_color == b.margin_color
    &&& a.image_format == b.image_format
}

impl ComicConfig {
    /// Whether `other` holds the same settings.
    pub fn same_as(&self, other: &ComicConfig) -> (r: bool)
        ensures
            r == same_settings(*self, *other),
    {
        self.device.name == other.device.name && self.device.dimensions.0 == other.device.dimensions.0
            && self.device.dimensions.1 == other.device.dimensions.1
            && self.right_to_left == other.right_to_left && self.split == other.split
            && self.auto_crop == other.auto_crop && self.compression_quality
            == other.compression_quality && self.brightness == other.brightness && self.gamma
            == other.gamma && self.output_format == other.output_format && self.margin_color
            == other.margin_color && self.image_format == other.image_format
    }
}

} // verus!
