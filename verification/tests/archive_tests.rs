use comically::archive::{
    archive_kind, entry_file_name, extension, file_stem, get_file_name, has_image_extension,
    is_comic_file, should_skip_file, ArchiveFile, ArchiveIter, ArchiveKind, ArchiveReader,
};

#[test]
fn hidden_and_system_files_are_skipped() {
    assert!(should_skip_file(".hidden.jpg"));
    assert!(should_skip_file("__MACOSX"));
    assert!(should_skip_file("x__MACOSXy.png"));
    assert!(should_skip_file("thumbs.db"));
    assert!(should_skip_file("a.DS_Store"));
    assert!(!should_skip_file("page01.jpg"));
    assert!(!should_skip_file("Thumbs.db"));
}

#[test]
fn image_extensions_in_any_case() {
    assert!(has_image_extension("ch1/PAGE.JPG"));
    assert!(has_image_extension("a.jpeg"));
    assert!(has_image_extension("a.Png"));
    assert!(!has_image_extension("a.gif"));
    assert!(!has_image_extension("jpg"));
    assert!(!has_image_extension(".png"));
}

#[test]
fn page_file_names_of_entries() {
    assert_eq!(get_file_name("vol1/ch1/001.jpg"), Some("001.jpg".to_string()));
    assert_eq!(get_file_name("__MACOSX/._001.jpg"), None);
    assert_eq!(get_file_name("vol1/notes.txt"), None);
    assert_eq!(get_file_name("vol1/.cover.png"), None);
    assert_eq!(entry_file_name(true, Some("dir.png")), None);
    assert_eq!(entry_file_name(false, None), None);
    assert_eq!(entry_file_name(false, Some("a/b/c.PNG")), Some("c.PNG".to_string()));
}

#[test]
fn extensions_and_stems_follow_path() {
    assert_eq!(extension("a/b.tar.gz"), Some("gz".to_string()));
    assert_eq!(extension("a/.bashrc"), None);
    assert_eq!(extension("a/noext"), None);
    assert_eq!(file_stem("a/b.tar.gz"), Some("b.tar".to_string()));
    assert_eq!(file_stem("a/.bashrc"), Some(".bashrc".to_string()));
    assert_eq!(file_stem(".."), None);
}

#[test]
fn archive_kinds() {
    assert_eq!(archive_kind("x/Book.CBZ"), Ok(ArchiveKind::Zip));
    assert_eq!(archive_kind("x/book.zip"), Ok(ArchiveKind::Zip));
    assert_eq!(archive_kind("x/book.cbr"), Ok(ArchiveKind::Rar));
    assert_eq!(archive_kind("x/book.RAR"), Ok(ArchiveKind::Rar));
    assert_eq!(archive_kind("x/book.PDF"), Err("pdf".to_string()));
    assert_eq!(archive_kind("x/book"), Err(String::new()));
}

#[test]
fn comic_files_by_exact_extension() {
    assert!(is_comic_file("a/b.cbz"));
    assert!(is_comic_file("a/b.rar"));
    assert!(!is_comic_file("a/b.CBZ"));
    assert!(!is_comic_file("a/b.epub"));
}

struct Scripted {
    answers: Vec<Result<Option<ArchiveFile>, String>>,
}

impl ArchiveReader for Scripted {
    fn next_file(&mut self) -> Result<Option<ArchiveFile>, String> {
        if self.answers.is_empty() {
            Ok(None)
        } else {
            self.answers.remove(0)
        }
    }
}

#[test]
fn archive_iter_passes_reader_answers_on() {
    let reader = Scripted {
        answers: vec![
            Ok(Some(ArchiveFile { file_name: "1.jpg".to_string(), data: vec![1, 2] })),
            Err("broken".to_string()),
            Ok(None),
        ],
    };
    let mut it = ArchiveIter::new(reader);
    match it.next() {
        Some(Ok(f)) => {
            assert_eq!(f.file_name, "1.jpg");
            assert_eq!(f.data, vec![1, 2]);
        }
        _ => panic!("expected a page"),
    }
    match it.next() {
        Some(Err(e)) => assert_eq!(e, "broken"),
        _ => panic!("expected the error"),
    }
    assert!(it.next().is_none());
}
