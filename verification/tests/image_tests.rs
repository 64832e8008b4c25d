use comically::codec::{compress_to_jpeg, compress_to_png, decode_gray, CodecError};
use comically::gray::GrayImage;
use comically::pages::{
    centre_on_canvas, extract_piece, filter_for_size, piece_sizes, plan_pages, prepare_page,
    process_image_view, resize_to_device, split_pages, PagePiece, ResizeFilter,
};
use comically::settings::{ComicConfig, PngCompression, SplitStrategy};
use comically::tone::{apply_lut, pixel_range, transform};

fn ramp(width: u32, height: u32) -> GrayImage {
    let mut img = GrayImage::new(width, height);
    for y in 0..height {
        for x in 0..width {
            img.put_pixel(x, y, ((x + 3 * y) % 256) as u8);
        }
    }
    img
}

fn identity_lut() -> [u8; 256] {
    let mut lut = [0u8; 256];
    for (i, v) in lut.iter_mut().enumerate() {
        *v = i as u8;
    }
    lut
}

#[test]
fn gray_image_basics() {
    let img = GrayImage::from_pixel(3, 2, 7);
    assert_eq!(img.dimensions(), (3, 2));
    assert_eq!(img.as_raw(), &vec![7u8; 6]);
    assert!(GrayImage::from_raw(2, 2, vec![1, 2, 3]).is_none());
    let g = GrayImage::from_raw(2, 2, vec![1, 2, 3, 4]).unwrap();
    assert_eq!(g.get_pixel(1, 0), 2);
    assert_eq!(g.get_pixel(0, 1), 3);
    assert_eq!(g.into_raw(), vec![1, 2, 3, 4]);
}

#[test]
fn rotation_turns_a_quarter() {
    let g = GrayImage::from_raw(3, 2, vec![1, 2, 3, 4, 5, 6]).unwrap();
    let cw = g.rotate_90(true);
    assert_eq!(cw.dimensions(), (2, 3));
    assert_eq!(cw.as_raw(), &vec![4, 1, 5, 2, 6, 3]);
    let ccw = g.rotate_90(false);
    assert_eq!(ccw.as_raw(), &vec![3, 6, 2, 5, 1, 4]);
    let back = cw.rotate_90(false);
    assert_eq!(back.as_raw(), g.as_raw());
    let four = g.rotate_90(true).rotate_90(true).rotate_90(true).rotate_90(true);
    assert_eq!(four.as_raw(), g.as_raw());
}

#[test]
fn crop_is_clipped_to_the_image() {
    let g = ramp(10, 4);
    let c = g.crop(8, 1, 5, 2);
    assert_eq!(c.dimensions(), (2, 2));
    assert_eq!(c.get_pixel(0, 0), g.get_pixel(8, 1));
    assert_eq!(c.get_pixel(1, 1), g.get_pixel(9, 2));
    let empty = g.crop(20, 0, 3, 3);
    assert_eq!(empty.dimensions(), (0, 3));
}

#[test]
fn split_halves_cover_the_spread() {
    let g = ramp(5, 2);
    let (left, right) = g.split_halves();
    assert_eq!(left.dimensions(), (2, 2));
    assert_eq!(right.dimensions(), (2, 2));
    assert_eq!(left.get_pixel(1, 1), g.get_pixel(1, 1));
    assert_eq!(right.get_pixel(0, 1), g.get_pixel(2, 1));
}

#[test]
fn page_plans() {
    assert_eq!(plan_pages(100, 200, SplitStrategy::Split, true), vec![PagePiece::Whole]);
    assert_eq!(plan_pages(200, 100, SplitStrategy::Keep, true), vec![PagePiece::Whole]);
    assert_eq!(
        plan_pages(200, 100, SplitStrategy::Split, true),
        vec![PagePiece::RightHalf, PagePiece::LeftHalf]
    );
    assert_eq!(
        plan_pages(200, 100, SplitStrategy::Split, false),
        vec![PagePiece::LeftHalf, PagePiece::RightHalf]
    );
    assert_eq!(
        plan_pages(200, 100, SplitStrategy::Rotate, false),
        vec![PagePiece::Turned { clockwise: false }]
    );
    assert_eq!(
        plan_pages(200, 100, SplitStrategy::RotateAndSplit, true),
        vec![PagePiece::Turned { clockwise: true }, PagePiece::RightHalf, PagePiece::LeftHalf]
    );
}

#[test]
fn split_pages_follow_the_plan() {
    let g = ramp(6, 4);
    let pages = split_pages(&g, SplitStrategy::RotateAndSplit, true);
    assert_eq!(pages.len(), 3);
    assert_eq!(pages[0].dimensions(), (4, 6));
    assert_eq!(pages[1].get_pixel(0, 0), g.get_pixel(3, 0));
    assert_eq!(pages[2].get_pixel(0, 0), g.get_pixel(0, 0));
    let tall = ramp(4, 6);
    assert_eq!(split_pages(&tall, SplitStrategy::Split, true).len(), 1);
    let right = extract_piece(&g, PagePiece::RightHalf);
    assert_eq!(right.dimensions(), (3, 4));
}

#[test]
fn centring_fills_the_margin() {
    let page = GrayImage::from_pixel(2, 2, 0);
    let out = centre_on_canvas(&page, (4, 6), 255);
    assert_eq!(out.dimensions(), (4, 6));
    assert_eq!(out.get_pixel(0, 0), 255);
    assert_eq!(out.get_pixel(1, 2), 0);
    assert_eq!(out.get_pixel(2, 3), 0);
    assert_eq!(out.get_pixel(3, 5), 255);
}

#[test]
fn resize_filters_and_sizes() {
    assert_eq!(filter_for_size((2000, 1000), (1236, 1648)), ResizeFilter::Lanczos3);
    assert_eq!(filter_for_size((600, 800), (1236, 1648)), ResizeFilter::CatmullRom);
    let g = ramp(40, 20);
    let r = resize_to_device(&g, (20, 10), (20, 30), None);
    assert_eq!(r.dimensions(), (20, 10));
    let c = resize_to_device(&g, (20, 10), (20, 30), Some(200));
    assert_eq!(c.dimensions(), (20, 30));
    assert_eq!(c.get_pixel(0, 0), 200);
    assert_eq!(c.get_pixel(19, 29), 200);
    let exact = resize_to_device(&g, (20, 30), (20, 30), Some(200));
    assert_eq!(exact.dimensions(), (20, 30));
}

#[test]
fn lookup_table_and_range() {
    let g = GrayImage::from_raw(2, 1, vec![10, 200]).unwrap();
    let mut lut = [0u8; 256];
    lut[10] = 1;
    lut[200] = 2;
    assert_eq!(apply_lut(&g, &lut).into_raw(), vec![1, 2]);
    assert_eq!(pixel_range(&g), Some((10, 200)));
    assert_eq!(pixel_range(&GrayImage::new(0, 0)), None);
}

#[test]
fn transform_stretches_then_brightens() {
    let g = GrayImage::from_raw(3, 1, vec![50, 100, 150]).unwrap();
    let out = transform(g, 0, 100, &identity_lut());
    assert_eq!(out.into_raw(), vec![0, 127, 255]);
    let g = GrayImage::from_raw(3, 1, vec![50, 100, 150]).unwrap();
    let out = transform(g, -10, 100, &identity_lut());
    assert_eq!(out.into_raw(), vec![0, 117, 245]);
    let flat = GrayImage::from_raw(2, 1, vec![90, 90]).unwrap();
    assert_eq!(transform(flat, 5, 100, &identity_lut()).into_raw(), vec![95, 95]);
}

#[test]
fn transform_applies_gamma_lut_only_away_from_one() {
    let mut lut = [0u8; 256];
    lut[100] = 10;
    lut[200] = 20;
    let g = GrayImage::from_raw(2, 1, vec![100, 200]).unwrap();
    // gamma 1.0: the table is not used; the range 100..200 is stretched.
    assert_eq!(transform(g, 0, 100, &lut).into_raw(), vec![0, 255]);
    let g = GrayImage::from_raw(3, 1, vec![100, 200, 100]).unwrap();
    // gamma 1.8: 100 -> 10 and 200 -> 20, then stretched.
    assert_eq!(transform(g, 0, 180, &lut).into_raw(), vec![0, 255, 0]);
}

#[test]
fn prepare_page_crops_white_margins() {
    let mut g = GrayImage::from_pixel(100, 50, 255);
    for y in 0..50 {
        for x in 25..75 {
            g.put_pixel(x, y, 0);
        }
    }
    let mut config = ComicConfig::default();
    config.brightness = 0;
    config.gamma = 100;
    let out = prepare_page(g.clone(), &config, &identity_lut());
    assert!(out.width() < 100);
    config.auto_crop = false;
    let kept = prepare_page(g, &config, &identity_lut());
    assert_eq!(kept.dimensions(), (100, 50));
}

#[test]
fn png_round_trip_keeps_pixels() {
    let g = ramp(7, 5);
    let bytes = compress_to_png(&g, PngCompression::Default).unwrap();
    let back = decode_gray(&bytes).unwrap();
    assert_eq!(back.dimensions(), (7, 5));
    assert_eq!(back.as_raw(), g.as_raw());
}

#[test]
fn jpeg_encodes_and_decodes_to_same_size() {
    let g = ramp(16, 8);
    let bytes = compress_to_jpeg(&g, 85).unwrap();
    assert_eq!(&bytes[0..2], &[0xFF, 0xD8]);
    let back = decode_gray(&bytes).unwrap();
    assert_eq!(back.dimensions(), (16, 8));
}

#[test]
fn garbage_does_not_decode() {
    assert_eq!(decode_gray(&[1, 2, 3, 4]).err(), Some(CodecError::Decode));
}

#[test]
fn piece_sizes_follow_the_plan() {
    assert_eq!(piece_sizes(300, 200, SplitStrategy::RotateAndSplit, true), vec![(200, 300), (150, 200), (150, 200)]);
    assert_eq!(piece_sizes(301, 200, SplitStrategy::Split, false), vec![(150, 200), (150, 200)]);
    assert_eq!(piece_sizes(200, 300, SplitStrategy::RotateAndSplit, true), vec![(200, 300)]);
}

#[test]
fn process_image_view_resizes_each_piece() {
    let g = ramp(60, 40);
    let mut config = ComicConfig::default();
    config.device.dimensions = (30, 40);
    config.split = SplitStrategy::RotateAndSplit;
    config.margin_color = None;
    let fitted = vec![(27, 40), (30, 40), (30, 40)];
    let pages = process_image_view(&g, &config, &fitted);
    assert_eq!(pages.len(), 3);
    assert_eq!(pages[0].dimensions(), (27, 40));
    assert_eq!(pages[1].dimensions(), (30, 40));
    config.margin_color = Some(255);
    let pages = process_image_view(&g, &config, &fitted);
    assert_eq!(pages[0].dimensions(), (30, 40));
    assert_eq!(pages[0].get_pixel(0, 0), 255);
}

#[test]
fn png_begins_with_its_header() {
    let g = ramp(300, 2);
    let bytes = compress_to_png(&g, PngCompression::Fast).unwrap();
    assert_eq!(&bytes[0..8], &[137, 80, 78, 71, 13, 10, 26, 10]);
    assert_eq!(&bytes[8..16], &[0, 0, 0, 13, 73, 72, 68, 82]);
    assert_eq!(&bytes[16..24], &[0, 0, 1, 44, 0, 0, 0, 2]);
    assert_eq!(&bytes[24..29], &[8, 0, 0, 0, 0]);
}

#[test]
fn empty_pages_are_not_encoded() {
    let empty = GrayImage::new(0, 5);
    assert_eq!(compress_to_png(&empty, PngCompression::Default).err(), Some(CodecError::Encode));
    assert_eq!(compress_to_jpeg(&empty, 85).err(), Some(CodecError::Encode));
    let wide = GrayImage::new(65536, 1);
    assert_eq!(compress_to_jpeg(&wide, 85).err(), Some(CodecError::Encode));
    assert!(compress_to_png(&wide, PngCompression::Fast).is_ok());
}

#[test]
fn jpeg_depends_only_on_the_pixels() {
    let a = compress_to_jpeg(&ramp(16, 8), 70).unwrap();
    let b = compress_to_jpeg(&ramp(16, 8), 70).unwrap();
    assert_eq!(a, b);
    assert_ne!(a, compress_to_jpeg(&ramp(16, 8), 20).unwrap());
}

#[test]
fn png_depends_only_on_pixels_and_effort() {
    let a = compress_to_png(&ramp(40, 30), PngCompression::Best).unwrap();
    let b = compress_to_png(&ramp(40, 30), PngCompression::Best).unwrap();
    assert_eq!(a, b);
    let fast = compress_to_png(&ramp(40, 30), PngCompression::Fast).unwrap();
    assert_eq!(decode_gray(&fast).unwrap().as_raw(), ramp(40, 30).as_raw());
}

#[test]
fn decoding_depends_only_on_the_bytes() {
    let bytes = compress_to_jpeg(&ramp(24, 16), 90).unwrap();
    let a = decode_gray(&bytes).unwrap();
    let b = decode_gray(&bytes).unwrap();
    assert_eq!(a.as_raw(), b.as_raw());
    assert_eq!(a.dimensions(), (24, 16));
}

#[test]
fn resizing_to_the_same_size_keeps_the_pixels() {
    let g = ramp(20, 10);
    let r = resize_to_device(&g, (20, 10), (40, 40), None);
    assert_eq!(r.as_raw(), g.as_raw());
    let centred = resize_to_device(&g, (20, 10), (40, 40), Some(9));
    assert_eq!(centred.dimensions(), (40, 40));
    assert_eq!(centred.get_pixel(10, 15), g.get_pixel(0, 0));
    assert_eq!(centred.get_pixel(29, 24), g.get_pixel(19, 9));
    assert_eq!(centred.get_pixel(9, 15), 9);
    assert_eq!(centred.get_pixel(10, 25), 9);
}

#[test]
fn resizing_changes_the_pixels_and_repeats_exactly() {
    let g = ramp(64, 48);
    let a = resize_to_device(&g, (32, 24), (32, 24), None);
    let b = resize_to_device(&g, (32, 24), (32, 24), None);
    assert_eq!(a.dimensions(), (32, 24));
    assert_eq!(a.as_raw(), b.as_raw());
    assert_ne!(a.get_pixel(31, 23), g.get_pixel(31, 23));
}

#[test]
fn split_pages_come_in_reading_order() {
    let mut spread = GrayImage::from_pixel(40, 20, 0);
    for y in 0..20 {
        for x in 20..40 {
            spread.put_pixel(x, y, 255);
        }
    }
    let mut config = ComicConfig::default();
    config.device.dimensions = (20, 20);
    config.split = SplitStrategy::Split;
    config.margin_color = None;
    config.right_to_left = true;
    let fitted = vec![(20, 20), (20, 20)];
    let pages = process_image_view(&spread, &config, &fitted);
    assert_eq!(pages[0].get_pixel(5, 5), 255);
    assert_eq!(pages[1].get_pixel(5, 5), 0);
    config.right_to_left = false;
    let pages = process_image_view(&spread, &config, &fitted);
    assert_eq!(pages[0].get_pixel(5, 5), 0);
    assert_eq!(pages[1].get_pixel(5, 5), 255);
}
