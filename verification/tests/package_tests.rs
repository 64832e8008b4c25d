use std::io::{Cursor, Read};

use comically::cbz;
use comically::comic::{sort_and_dedup, Comic, ProcessedImage};
use comically::epub::{
    build_epub, content_opf, cover_page, epub_entries, page_html, toc_ncx, EpubError,
};
use comically::package::{write_archive, ArchiveEntry, Compression, PackError};
use comically::settings::{ComicConfig, ImageFormat, PngCompression};

fn page(name: &str, data: &[u8], format: ImageFormat) -> ProcessedImage {
    ProcessedImage {
        file_name: name.to_string(),
        data: data.to_vec(),
        dimensions: (600, 800),
        format,
    }
}

fn read_zip(bytes: Vec<u8>) -> Vec<(String, Vec<u8>, bool)> {
    let mut archive = zip::ZipArchive::new(Cursor::new(bytes)).unwrap();
    let mut out = Vec::new();
    for i in 0..archive.len() {
        let mut f = archive.by_index(i).unwrap();
        let stored = f.compression() == zip::CompressionMethod::Stored;
        let name = f.name().to_string();
        let mut data = Vec::new();
        f.read_to_end(&mut data).unwrap();
        out.push((name, data, stored));
    }
    out
}

#[test]
fn cbz_holds_pages_in_order_stored() {
    let comic = Comic::new("/in/Vol 1.cbz".to_string(), "/out".to_string());
    let jpeg = ImageFormat::Jpeg { quality: 85 };
    let images = vec![page("001_1.jpg", &[1, 2, 3], jpeg), page("002_1.jpg", &[4, 5], jpeg)];
    let bytes = cbz::build(&comic, &images).unwrap();
    let files = read_zip(bytes);
    assert_eq!(
        files,
        vec![
            ("001_1.jpg".to_string(), vec![1, 2, 3], true),
            ("002_1.jpg".to_string(), vec![4, 5], true),
        ]
    );
}

#[test]
fn cbz_build_into_replaces_buffer() {
    let comic = Comic::new("/in/Vol 1.cbz".to_string(), "/out".to_string());
    let images = vec![page("a.jpg", &[9], ImageFormat::Jpeg { quality: 85 })];
    let mut buffer = vec![7u8; 10];
    cbz::build_into(&comic, &images, &mut buffer).unwrap();
    assert_eq!(buffer, cbz::build(&comic, &images).unwrap());
    assert_eq!(read_zip(buffer).len(), 1);
}

#[test]
fn cbz_with_two_pages_of_one_name_fails() {
    let comic = Comic::new("/in/Vol 1.cbz".to_string(), "/out".to_string());
    let jpeg = ImageFormat::Jpeg { quality: 85 };
    let images = vec![page("a.jpg", &[1], jpeg), page("a.jpg", &[2], jpeg)];
    assert_eq!(cbz::build(&comic, &images), Err(PackError::Zip));
}

#[test]
fn archive_keeps_compression_choice() {
    let entries = vec![
        ArchiveEntry { name: "s".to_string(), data: vec![1; 100], compression: Compression::Stored },
        ArchiveEntry { name: "d".to_string(), data: vec![2; 100], compression: Compression::Deflated },
    ];
    let files = read_zip(write_archive(&entries).unwrap());
    assert_eq!(files[0], ("s".to_string(), vec![1; 100], true));
    assert_eq!(files[1], ("d".to_string(), vec![2; 100], false));
}

#[test]
fn cover_and_page_documents() {
    let cover = cover_page("Images/image001.jpg");
    assert!(cover.contains("<title>Cover</title>"));
    assert!(cover.contains("<img src=\"Images/image001.jpg\" alt=\"Cover\"/>"));
    let p = page_html(3, "Images/image003.jpg", 1236, 1648);
    assert!(p.starts_with("<?xml version=\"1.0\" encoding=\"UTF-8\"?>\n<!DOCTYPE html>"));
    assert!(p.contains("<title>Page 3</title>"));
    assert!(p.contains("content=\"width=1236, height=1648, initial-scale=1.0"));
    assert!(p.ends_with("<img src=\"Images/image003.jpg\"/>\n  </div>\n</body>\n</html>"));
}

#[test]
fn navigation_lists_cover_then_pages() {
    let toc = toc_ncx("My Book", "uuid-1", 2);
    assert!(toc.contains("<meta name=\"dtb:uid\" content=\"uuid-1\"/>"));
    assert!(toc.contains("<docTitle><text>My Book</text></docTitle>"));
    let cover = toc.find("navpoint-cover").unwrap();
    let first = toc.find("<navPoint id=\"navpoint-2\" playOrder=\"2\">\n      <navLabel><text>Page 1</text></navLabel>\n      <content src=\"page001.html\"/>").unwrap();
    let second = toc.find("<navPoint id=\"navpoint-3\" playOrder=\"3\">\n      <navLabel><text>Page 2</text></navLabel>\n      <content src=\"page002.html\"/>").unwrap();
    assert!(cover < first && first < second);
    assert!(toc.ends_with("  </navMap>\n</ncx>"));
}

#[test]
fn package_document_spreads_alternate() {
    let jpeg = ImageFormat::Jpeg { quality: 85 };
    let png = ImageFormat::Png { compression: PngCompression::Default };
    let images = vec![page("1.jpg", &[1], jpeg), page("2.png", &[2], png), page("3.jpg", &[3], jpeg)];
    let opf = content_opf("T", "u", (1236, 1648), true, &images);
    assert!(opf.contains("<dc:title>T</dc:title>"));
    assert!(opf.contains("urn:uuid:u</dc:identifier>"));
    assert!(opf.contains("<meta name=\"original-resolution\" content=\"1236x1648\"/>"));
    assert!(opf.contains("<meta name=\"primary-writing-mode\" content=\"horizontal-rl\"/>"));
    assert!(opf.contains("<item id=\"cover-image\" href=\"Images/image001.jpg\" media-type=\"image/jpeg\" properties=\"cover-image\"/>"));
    assert!(opf.contains("<item id=\"image1\" href=\"Images/image002.jpg\" media-type=\"image/png\"/>"));
    assert!(opf.contains("<item id=\"page3\" href=\"page003.html\" media-type=\"application/xhtml+xml\"/>"));
    assert!(opf.contains("page-progression-direction=\"rtl\""));
    assert!(opf.contains("<itemref idref=\"cover-html\" properties=\"page-spread-center\"/>\n    <itemref idref=\"page2\" properties=\"page-spread-right\"/>\n    <itemref idref=\"page3\" properties=\"page-spread-left\"/>\n</spine>"));
    let ltr = content_opf("T", "u", (1236, 1648), false, &images);
    assert!(ltr.contains("<itemref idref=\"page2\" properties=\"page-spread-left\"/>"));
    assert!(ltr.contains("page-progression-direction=\"ltr\""));
    assert!(ltr.contains("content=\"horizontal-lr\""));
}

#[test]
fn epub_entries_order_and_compression() {
    let jpeg = ImageFormat::Jpeg { quality: 85 };
    let images = vec![page("a.jpg", &[1, 1], jpeg), page("b.jpg", &[2], jpeg)];
    let entries = epub_entries("T", "t-uuid", "o-uuid", (10, 20), false, &images);
    let names: Vec<&str> = entries.iter().map(|e| e.name.as_str()).collect();
    assert_eq!(
        names,
        vec![
            "mimetype",
            "META-INF/container.xml",
            "OEBPS/content.opf",
            "OEBPS/cover.html",
            "OEBPS/page001.html",
            "OEBPS/page002.html",
            "OEBPS/toc.ncx",
            "OEBPS/Images/image001.jpg",
            "OEBPS/Images/image002.jpg",
        ]
    );
    assert_eq!(entries[0].data, b"application/epub+zip".to_vec());
    assert_eq!(entries[0].compression, Compression::Stored);
    assert_eq!(entries[1].compression, Compression::Deflated);
    assert_eq!(entries[8].data, vec![2]);
    assert_eq!(entries[8].compression, Compression::Stored);
}

#[test]
fn epub_archive_reads_back() {
    let comic = Comic::new("/in/Vol 1.cbz".to_string(), "/out".to_string());
    let config = ComicConfig::default();
    let jpeg = ImageFormat::Jpeg { quality: 85 };
    let images = vec![page("a.jpg", &[1, 1], jpeg)];
    let files = read_zip(build_epub(&comic, &config, &images).unwrap());
    assert_eq!(files[0], ("mimetype".to_string(), b"application/epub+zip".to_vec(), true));
    assert_eq!(files.len(), 7);
    let opf = String::from_utf8(files[2].1.clone()).unwrap();
    assert!(opf.contains("<dc:title>Vol 1</dc:title>"));
    assert_eq!(files[6], ("OEBPS/Images/image001.jpg".to_string(), vec![1, 1], true));
}

#[test]
fn epub_needs_a_cover() {
    let comic = Comic::new("/in/Vol 1.cbz".to_string(), "/out".to_string());
    let config = ComicConfig::default();
    assert_eq!(build_epub(&comic, &config, &[]), Err(EpubError::NoImages));
}

#[test]
fn deduplicated_pages_always_pack() {
    let comic = Comic::new("/in/Vol 1.cbz".to_string(), "/out".to_string());
    let jpeg = ImageFormat::Jpeg { quality: 85 };
    let images = sort_and_dedup(vec![page("b.jpg", &[1], jpeg), page("a.jpg", &[2], jpeg), page("b.jpg", &[3], jpeg)]);
    let files = read_zip(cbz::build(&comic, &images).unwrap());
    let names: Vec<&str> = files.iter().map(|f| f.0.as_str()).collect();
    assert_eq!(names, vec!["a.jpg", "b.jpg"]);
}

#[test]
fn epub_paths_are_distinct_for_many_pages() {
    let jpeg = ImageFormat::Jpeg { quality: 85 };
    let images: Vec<ProcessedImage> = (0..1005).map(|i| page(&format!("{i}.jpg"), &[1], jpeg)).collect();
    let entries = epub_entries("T", "a", "b", (10, 20), true, &images);
    let mut names: Vec<&str> = entries.iter().map(|e| e.name.as_str()).collect();
    assert!(names.contains(&"OEBPS/page1000.html"));
    assert!(names.contains(&"OEBPS/Images/image999.jpg"));
    let total = names.len();
    names.sort();
    names.dedup();
    assert_eq!(names.len(), total);
}

#[test]
fn stored_archive_with_distinct_names_is_made() {
    let entries = vec![
        ArchiveEntry { name: "a".to_string(), data: vec![], compression: Compression::Stored },
        ArchiveEntry { name: "b/c".to_string(), data: vec![5; 3], compression: Compression::Stored },
    ];
    let files = read_zip(write_archive(&entries).unwrap());
    assert_eq!(files, vec![("a".to_string(), vec![], true), ("b/c".to_string(), vec![5; 3], true)]);
}

#[test]
fn deflated_archive_depends_only_on_its_entries() {
    let text = "<html>".repeat(200).into_bytes();
    let entries = vec![
        ArchiveEntry { name: "mimetype".to_string(), data: b"x".to_vec(), compression: Compression::Stored },
        ArchiveEntry { name: "a.html".to_string(), data: text.clone(), compression: Compression::Deflated },
    ];
    let a = write_archive(&entries).unwrap();
    let b = write_archive(&entries).unwrap();
    assert_eq!(a, b);
    assert!(a.len() < text.len());
    let files = read_zip(a);
    assert_eq!(files[1], ("a.html".to_string(), text, false));
}

#[test]
fn epub_bytes_are_the_archive_of_its_files() {
    let comic = Comic::new("/in/Vol 2.cbz".to_string(), "/out".to_string());
    let config = ComicConfig::default();
    let jpeg = ImageFormat::Jpeg { quality: 85 };
    let images = vec![page("a.jpg", &[1, 2], jpeg), page("b.jpg", &[3], jpeg)];
    let bytes = build_epub(&comic, &config, &images).unwrap();
    assert_eq!(&bytes[0..4], b"PK\x03\x04");
    assert_eq!(&bytes[30..38], b"mimetype");
    let files = read_zip(bytes);
    let opf = String::from_utf8(files[2].1.clone()).unwrap();
    let start = opf.find("urn:uuid:").unwrap() + 9;
    let opf_uuid = opf[start..start + 36].to_string();
    let toc = String::from_utf8(files[6].1.clone()).unwrap();
    let start = toc.find("dtb:uid\" content=\"").unwrap() + 18;
    let toc_uuid = toc[start..start + 36].to_string();
    let entries = epub_entries("Vol 2", &toc_uuid, &opf_uuid, config.device_dimensions(), config.right_to_left, &images);
    let expected: Vec<(String, Vec<u8>, bool)> = entries
        .iter()
        .map(|e| (e.name.clone(), e.data.clone(), e.compression == Compression::Stored))
        .collect();
    assert_eq!(files, expected);
}

#[test]
fn first_page_of_each_name_is_kept() {
    let jpeg = ImageFormat::Jpeg { quality: 85 };
    let kept = sort_and_dedup(vec![
        page("b.jpg", &[1], jpeg),
        page("a.jpg", &[2], jpeg),
        page("b.jpg", &[3], jpeg),
        page("a.jpg", &[4], jpeg),
    ]);
    assert_eq!(kept.len(), 2);
    assert_eq!(kept[0].file_name, "a.jpg");
    assert_eq!(kept[0].data, vec![2]);
    assert_eq!(kept[1].file_name, "b.jpg");
    assert_eq!(kept[1].data, vec![1]);
}
