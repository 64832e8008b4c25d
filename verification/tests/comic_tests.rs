use std::path::PathBuf;

use tempfile::TempDir;

use comically::comic::{full_title, page_name_for, sort_and_dedup, Comic, ProcessedImage};
use comically::settings::{ComicConfig, ImageFormat, OutputFormat, PngCompression};

#[test]
fn output_path_with_dots() {
    let temp_dir = TempDir::new().unwrap();
    let output_dir = temp_dir.path().join("output");

    let comic = Comic::new(
        "Dr. STONE v01 (2018) (Digital) (1r0n).cbz".to_string(),
        output_dir.to_str().unwrap().to_string(),
    );

    let output_path = PathBuf::from(comic.output_path(OutputFormat::Cbz));
    assert_eq!(
        output_path,
        output_dir.join("Dr. STONE v01 (2018) (Digital) (1r0n).cbz")
    );

    assert_eq!(
        output_path.file_name().unwrap().to_str().unwrap(),
        "Dr. STONE v01 (2018) (Digital) (1r0n).cbz",
        "filename is preserved"
    );
}

#[test]
fn comic_output_path_with_dots() {
    let temp_dir = TempDir::new().unwrap();
    let output_dir = temp_dir.path().join("output");

    let mut config = ComicConfig::default();
    config.output_format = OutputFormat::Cbz;

    let comic = Comic::try_new(
        "Dr. STONE v01 (2018) (Digital) (1r0n).cbz".to_string(),
        output_dir.to_str().unwrap().to_string(),
    )
    .unwrap();
    assert_eq!(comic.title, "Dr. STONE v01 (2018) (Digital) (1r0n)");

    let output_path = PathBuf::from(comic.output_path(config.output_format));
    assert_eq!(
        output_path,
        output_dir.join("Dr. STONE v01 (2018) (Digital) (1r0n).cbz")
    );

    assert_eq!(
        output_path.file_name().unwrap().to_str().unwrap(),
        "Dr. STONE v01 (2018) (Digital) (1r0n).cbz",
        "filename is preserved"
    );
}

#[test]
fn output_path_replaces_only_last_extension() {
    let comic = Comic::new("/in/One.Piece.v01.cbr".to_string(), "/out".to_string());
    assert_eq!(comic.title, "One.Piece.v01");
    assert_eq!(comic.output_path(OutputFormat::Epub), "/out/One.Piece.v01.epub");
    assert_eq!(comic.output_path(OutputFormat::Mobi), "/out/One.Piece.v01.mobi");
}

#[test]
fn comic_without_file_name_is_refused() {
    assert!(Comic::try_new("..".to_string(), "/out".to_string()).is_none());
    assert!(Comic::try_new("/".to_string(), "/out".to_string()).is_none());
}

#[test]
fn page_names_number_from_one() {
    let jpeg = ImageFormat::Jpeg { quality: 85 };
    assert_eq!(page_name_for("page_007.png", 0, jpeg), "page_007_1.jpg");
    assert_eq!(page_name_for("cover.jpeg", 2, ImageFormat::WebP { quality: 80 }), "cover_3.webp");
    assert_eq!(
        page_name_for("a.b.c.jpg", 9, ImageFormat::Png { compression: PngCompression::Best }),
        "a.b.c_10.png"
    );
}

fn image(name: &str, byte: u8) -> ProcessedImage {
    ProcessedImage {
        file_name: name.to_string(),
        data: vec![byte],
        dimensions: (1, 1),
        format: ImageFormat::Jpeg { quality: 85 },
    }
}

#[test]
fn sort_and_dedup_orders_by_name_and_drops_repeats() {
    let images = vec![image("b_1.jpg", 1), image("a_2.jpg", 2), image("b_1.jpg", 3), image("a_1.jpg", 4)];
    let out = sort_and_dedup(images);
    let names: Vec<&str> = out.iter().map(|i| i.file_name.as_str()).collect();
    assert_eq!(names, vec!["a_1.jpg", "a_2.jpg", "b_1.jpg"]);
}

#[test]
fn sort_and_dedup_of_nothing_is_nothing() {
    assert!(sort_and_dedup(Vec::new()).is_empty());
}

#[test]
fn titles_take_a_trimmed_prefix() {
    assert_eq!(full_title(Some("  Shonen  "), "Vol 1"), "Shonen Vol 1");
    assert_eq!(full_title(Some("   "), "Vol 1"), "Vol 1");
    assert_eq!(full_title(None, "Vol 1"), "Vol 1");
}
