use comically::labels::{
    brightness_text, direction_label, gamma_text, output_label, page_info, quality_text,
    split_label, yes_no,
};
use comically::settings::{
    ComicConfig, DevicePreset, ImageFormat, OutputFormat, PngCompression, SelectedField,
    SplitStrategy,
};

#[test]
fn default_config_matches_first_run() {
    let c = ComicConfig::default();
    assert_eq!(c.device.name, "Kindle PW 11");
    assert_eq!(c.device_dimensions(), (1236, 1648));
    assert!(c.right_to_left);
    assert_eq!(c.split, SplitStrategy::RotateAndSplit);
    assert!(c.auto_crop);
    assert_eq!(c.compression_quality, 85);
    assert_eq!(c.brightness, -10);
    assert_eq!(c.gamma, 180);
    assert_eq!(c.output_format, OutputFormat::Mobi);
    assert_eq!(c.margin_color, None);
    assert_eq!(c.image_format, ImageFormat::Jpeg { quality: 85 });
}

#[test]
fn image_format_cycles_through_three() {
    let j = ImageFormat::Jpeg { quality: 40 };
    let p = j.cycle();
    assert_eq!(p, ImageFormat::Png { compression: PngCompression::Default });
    let w = p.cycle();
    assert_eq!(w, ImageFormat::WebP { quality: 85 });
    assert_eq!(w.cycle(), ImageFormat::Jpeg { quality: 85 });
    assert_eq!(j.extension(), "jpg");
    assert_eq!(p.extension(), "png");
    assert_eq!(w.extension(), "webp");
}

#[test]
fn png_compression_cycles_through_three() {
    assert_eq!(PngCompression::Fast.cycle(), PngCompression::Default);
    assert_eq!(PngCompression::Default.cycle(), PngCompression::Best);
    assert_eq!(PngCompression::Best.cycle(), PngCompression::Fast);
}

#[test]
fn split_and_output_cycles() {
    assert_eq!(SplitStrategy::Keep.next(), SplitStrategy::Split);
    assert_eq!(SplitStrategy::Split.next(), SplitStrategy::Rotate);
    assert_eq!(SplitStrategy::Rotate.next(), SplitStrategy::RotateAndSplit);
    assert_eq!(SplitStrategy::RotateAndSplit.next(), SplitStrategy::Keep);
    assert_eq!(OutputFormat::Mobi.next(), OutputFormat::Epub);
    assert_eq!(OutputFormat::Epub.next(), OutputFormat::Cbz);
    assert_eq!(OutputFormat::Cbz.next(), OutputFormat::Mobi);
    assert_eq!(OutputFormat::Mobi.extension(), "mobi");
    assert_eq!(OutputFormat::Epub.extension(), "epub");
    assert_eq!(OutputFormat::Cbz.extension(), "cbz");
}

#[test]
fn quality_adjusts_in_steps_and_saturates() {
    let mut f = ImageFormat::Jpeg { quality: 98 };
    f.adjust_quality(true, false);
    assert_eq!(f, ImageFormat::Jpeg { quality: 100 });
    f.adjust_quality(false, true);
    assert_eq!(f, ImageFormat::Jpeg { quality: 99 });
    let mut w = ImageFormat::WebP { quality: 3 };
    w.adjust_quality(false, false);
    assert_eq!(w, ImageFormat::WebP { quality: 0 });
    let mut p = ImageFormat::Png { compression: PngCompression::Default };
    p.adjust_quality(true, false);
    assert_eq!(p, ImageFormat::Png { compression: PngCompression::Best });
    p.adjust_quality(true, false);
    assert_eq!(p, ImageFormat::Png { compression: PngCompression::Best });
    p.adjust_quality(false, true);
    assert_eq!(p, ImageFormat::Png { compression: PngCompression::Default });
}

#[test]
fn lowering_undoes_raising_quality() {
    let mut f = ImageFormat::Jpeg { quality: 50 };
    f.adjust_quality(true, false);
    f.adjust_quality(false, false);
    assert_eq!(f, ImageFormat::Jpeg { quality: 50 });
}

#[test]
fn settings_adjust_within_their_ranges() {
    let mut c = ComicConfig::default();
    c.adjust_setting(SelectedField::Quality, true, false);
    assert_eq!(c.compression_quality, 90);
    c.adjust_setting(SelectedField::Brightness, false, true);
    assert_eq!(c.brightness, -11);
    c.adjust_setting(SelectedField::Gamma, true, false);
    assert_eq!(c.gamma, 190);
    c.gamma = 295;
    c.adjust_setting(SelectedField::Gamma, true, false);
    assert_eq!(c.gamma, 300);
    c.gamma = 12;
    c.adjust_setting(SelectedField::Gamma, false, true);
    assert_eq!(c.gamma, 10);
    c.brightness = 98;
    c.adjust_setting(SelectedField::Brightness, true, false);
    assert_eq!(c.brightness, 100);
    c.brightness = -97;
    c.adjust_setting(SelectedField::Brightness, false, false);
    assert_eq!(c.brightness, -100);
    assert_eq!(c.output_format, OutputFormat::Mobi);
}

#[test]
fn gamma_is_clamped_and_skipped_near_one() {
    let mut c = ComicConfig::default();
    c.gamma = 5;
    assert_eq!(c.effective_gamma(), 10);
    c.gamma = 400;
    assert_eq!(c.effective_gamma(), 300);
    c.gamma = 101;
    assert!(!c.gamma_is_applied());
    c.gamma = 102;
    assert!(c.gamma_is_applied());
    c.gamma = 98;
    assert!(c.gamma_is_applied());
}

#[test]
fn same_settings_compares_every_field() {
    let a = ComicConfig::default();
    let mut b = a.clone();
    assert!(a.same_as(&b));
    b.device = DevicePreset { name: "Kobo Libra 2".to_string(), dimensions: (1264, 1680) };
    assert!(!a.same_as(&b));
    let mut c = a.clone();
    c.margin_color = Some(255);
    assert!(!a.same_as(&c));
}

#[test]
fn settings_labels() {
    assert_eq!(direction_label(true), "right to left (manga)");
    assert_eq!(direction_label(false), "left to right");
    assert_eq!(split_label(SplitStrategy::Keep), "none");
    assert_eq!(split_label(SplitStrategy::RotateAndSplit), "split & rotate");
    assert_eq!(yes_no(true), "yes");
    assert_eq!(yes_no(false), "no");
    assert_eq!(output_label(OutputFormat::Mobi), "AZW3/MOBI");
    assert_eq!(output_label(OutputFormat::Cbz), "CBZ");
}

#[test]
fn setting_values_are_formatted_like_format_macro() {
    assert_eq!(quality_text(85), format!("{:3}", 85));
    assert_eq!(quality_text(5), "  5");
    assert_eq!(quality_text(100), "100");
    assert_eq!(brightness_text(-10), format!("{:4}", -10));
    assert_eq!(brightness_text(-100), "-100");
    assert_eq!(brightness_text(7), "   7");
    assert_eq!(gamma_text(180), format!("{:3.2}", 1.8f32));
    assert_eq!(gamma_text(10), "0.10");
    assert_eq!(gamma_text(305), "3.05");
    assert_eq!(page_info(0, 12), "page 1 of 12");
}
