use comically::autocrop::{auto_crop, crop_bounds, is_not_noise, SAFETY_MARGIN};
use comically::gray::GrayImage;

/// Create a test image with known margins and content
fn create_test_image(
    width: u32,
    height: u32,
    left_margin: u32,
    right_margin: u32,
    noise_positions: &[(u32, u32)],
) -> GrayImage {
    let mut img = GrayImage::new(width, height);

    // Fill with white
    for y in 0..height {
        for x in 0..width {
            img.put_pixel(x, y, 255);
        }
    }

    // Add content (black area) in the middle
    for y in 0..height {
        let right_boundary = width.saturating_sub(right_margin);
        for x in left_margin..right_boundary {
            img.put_pixel(x, y, 0);
        }
    }

    // Add noise pixels
    for &(x, y) in noise_positions {
        img.put_pixel(x, y, 0);
    }

    img
}

// Helper function for creating test images with top and bottom margins
fn create_test_image_with_vertical(
    width: u32,
    height: u32,
    left_margin: u32,
    right_margin: u32,
    top_margin: u32,
    bottom_margin: u32,
    noise_positions: &[(u32, u32)],
) -> GrayImage {
    let mut img = GrayImage::new(width, height);

    for y in 0..height {
        for x in 0..width {
            img.put_pixel(x, y, 255);
        }
    }

    let right_boundary = width.saturating_sub(right_margin);
    let bottom_boundary = height.saturating_sub(bottom_margin);

    for y in top_margin..bottom_boundary {
        for x in left_margin..right_boundary {
            img.put_pixel(x, y, 0);
        }
    }

    for &(x, y) in noise_positions {
        if x < width && y < height {
            img.put_pixel(x, y, 0);
        }
    }

    img
}

fn find_topmost_content(img: &GrayImage) -> u32 {
    let (width, height) = img.dimensions();
    for y in 0..height {
        for x in 0..width {
            if img.get_pixel(x, y) < 230 {
                return y;
            }
        }
    }
    0
}

fn find_bottommost_content(img: &GrayImage) -> u32 {
    let (width, height) = img.dimensions();
    for y in (0..height).rev() {
        for x in 0..width {
            if img.get_pixel(x, y) < 230 {
                return y;
            }
        }
    }
    height - 1
}

#[test]
fn test_basic_cropping() {
    // Create a 100x50 image with 25px left margin and 35px right margin
    let test_img = create_test_image(100, 50, 25, 35, &[]);

    let result = auto_crop(&test_img);
    assert!(result.is_some(), "Cropping should have succeeded");

    let cropped = result.unwrap();
    let (cropped_width, cropped_height) = cropped.dimensions();

    assert_eq!(cropped_height, 50);
    assert_eq!(
        cropped_width,
        100 - 60 + 2 * SAFETY_MARGIN,
        "cropped width should be 60"
    );
}

#[test]
fn test_noise_resilience() {
    // Create an image with proper margins and noise in those margins
    let test_img = create_test_image(
        100,
        50,
        20,
        20,
        &[
            // left
            (5, 1),
            (5, 2),
            (5, 3),
            // right
            (95, 1),
            (95, 2),
            (95, 3),
        ],
    );

    let result = auto_crop(&test_img);

    let cropped = result.expect("Cropping should have succeeded");
    let (cropped_width, _) = cropped.dimensions();

    assert_eq!(cropped_width, 100 - 40 + 2 * SAFETY_MARGIN,);
}

#[test]
fn test_no_margins() {
    let test_img = create_test_image(100, 50, 0, 0, &[]);

    let cropped_option = auto_crop(&test_img);

    assert!(
        cropped_option.is_none(),
        "Expected None for image without margins"
    );
}

#[test]
fn test_large_margin() {
    let test_img = create_test_image(100, 50, 30, 5, &[]);

    let result = auto_crop(&test_img);
    assert!(
        result.is_some(),
        "Expected cropping to succeed with one large margin"
    );

    let (width, height) = result.unwrap().dimensions();
    assert_eq!(width, 100 - 35 + 2 * SAFETY_MARGIN);
    assert_eq!(height, 50);
}

#[test]
fn test_complex_image() {
    // The shape has a 40px margin on both sides
    let mut img = GrayImage::new(200, 100);

    for y in 0..100 {
        for x in 0..200 {
            img.put_pixel(x, y, 255);
        }
    }

    for y in 20..80 {
        for x in 40..160 {
            img.put_pixel(x, y, 0);
        }
    }

    // Apply cropping
    let result = auto_crop(&img);

    let cropped = result.expect("Cropping should have succeeded");
    let (cropped_width, _) = cropped.dimensions();

    assert_eq!(
        cropped_width,
        200 - 80 + 2 * SAFETY_MARGIN,
        "invalid cropped width"
    );
}

#[test]
fn test_vertical_cropping() {
    // Create a 100x100 image with 20px top margin and 30px bottom margin
    let test_img = create_test_image_with_vertical(100, 100, 0, 0, 20, 30, &[]);

    let top = find_topmost_content(&test_img);
    let bottom = find_bottommost_content(&test_img);

    assert_eq!(top, 20, "Top content should start at y=20");
    assert_eq!(bottom, 69, "Bottom content should end at y=69");

    let result = auto_crop(&test_img);
    assert!(result.is_some(), "Cropping should have succeeded");

    let cropped = result.unwrap();
    let (_, cropped_height) = cropped.dimensions();

    assert_eq!(
        cropped_height,
        100 - 50 + 2 * SAFETY_MARGIN,
        "Cropped height {} is outside expected range [45-55]",
        cropped_height
    );
}

#[test]
fn test_all_margins_cropping() {
    // Create a 200x200 image with margins on all sides
    let test_img = create_test_image_with_vertical(200, 200, 30, 40, 25, 35, &[]);

    let result = auto_crop(&test_img);
    assert!(result.is_some(), "Cropping should have succeeded");

    let cropped = result.unwrap();
    let (cropped_width, cropped_height) = cropped.dimensions();

    assert_eq!(
        cropped_width,
        200 - 70 + 2 * SAFETY_MARGIN,
        "Cropped width {} is outside expected range [125-135]",
        cropped_width
    );
    assert_eq!(
        cropped_height,
        200 - 60 + 2 * SAFETY_MARGIN,
        "Cropped height {} is outside expected range [135-145]",
        cropped_height
    );
}

#[test]
fn crop_keeps_content_and_safety_margin() {
    // content occupies columns 25..65 and rows 10..40 of a 100x50 page
    let img = create_test_image_with_vertical(100, 50, 25, 35, 10, 10, &[]);
    let (x, y, w, h) = crop_bounds(&img).expect("page should be cropped");
    assert_eq!((x, y, w, h), (23, 8, 44, 34));
    let cropped = auto_crop(&img).unwrap();
    // the first content pixel sits SAFETY_MARGIN pixels inside the crop
    assert_eq!(cropped.get_pixel(2, 2), 0);
    assert_eq!(cropped.get_pixel(1, 1), 255);
}

#[test]
fn blank_page_is_not_cropped() {
    let img = create_test_image(60, 40, 60, 0, &[]);
    assert!(auto_crop(&img).is_none());
    // isolated specks are noise, not content
    let specks = create_test_image(60, 40, 60, 0, &[(5, 5), (50, 30)]);
    assert!(auto_crop(&specks).is_none());
}

#[test]
fn noise_needs_three_dark_neighbours() {
    let mut img = GrayImage::from_pixel(20, 20, 255);
    img.put_pixel(10, 10, 0);
    img.put_pixel(12, 10, 0);
    assert!(!is_not_noise(&img, 10, 10));
    img.put_pixel(14, 14, 0);
    assert!(!is_not_noise(&img, 10, 10));
    img.put_pixel(6, 6, 0);
    assert!(is_not_noise(&img, 10, 10));
    // neighbours farther than 4 pixels do not count
    let mut far = GrayImage::from_pixel(20, 20, 255);
    far.put_pixel(10, 10, 0);
    far.put_pixel(15, 10, 0);
    far.put_pixel(10, 15, 0);
    far.put_pixel(5, 5, 0);
    assert!(!is_not_noise(&far, 10, 10));
}
