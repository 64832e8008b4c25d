//! Which archive entries are comic pages, and which files are comic
//! archives, decided from their names.

use vstd::prelude::*;
use crate::text::{chars_of, string_of, contains_chars, matches_at, contains_seq, starts_with_seq};

verus! {

/// `std::path::Path::file_name` of a path, as text: the last component of
/// the path, absent when the path ends in `..` or has no components.
pub uninterp spec fn path_file_name(path: Seq<char>) -> Option<Seq<char>>;

/// `str::to_lowercase`: the Unicode lowercase mapping of a string.
pub uninterp spec fn lowercase(s: Seq<char>) -> Seq<char>;

/// `Path::new(path).file_name()`, converted to a `String` (the path is
/// UTF-8, so the conversion loses nothing).
#[verifier::external_body]
fn file_name_of(path: &str) -> (r: Option<String>)
    ensures
        match r {
            Some(n) => path_file_name(path@) == Some(n@),
            None => path_file_name(path@) is None,
        },
{
    match std::path::Path::new(path).file_name() {
        Some(f) => Some(f.to_string_lossy().into_owned()),
        None => None,
    }
}

/// `str::to_lowercase`.
#[verifier::external_body]
fn to_lowercase(s: &str) -> (r: String)
    ensures
        r@ == lowercase(s@),
{
    s.to_lowercase()
}

/// The position of the last '.' in `s`, or -1 when there is none.
pub open spec fn last_dot(s: Seq<char>) -> int
    decreases s.len(),
{
    if s.len() == 0 {
        -1
    } else if s.last() == '.' {
        s.len() - 1
    } else {
        last_dot(s.drop_last())
    }
}

/// The extension of a file name, as `Path::extension` documents it: none
/// when the name has no '.', or its only '.' is the first character;
/// otherwise what follows the last '.'.
pub open spec fn extension_of(name: Seq<char>) -> Option<Seq<char>> {
    let k = last_dot(name);
    if k <= 0 {
        None
    } else {
        Some(name.subrange(k + 1, name.len() as int))
    }
}

/// The stem of a file name, as `Path::file_stem` documents it: the whole
/// name when it has no '.', or its only '.' is the first character;
/// otherwise what precedes the last '.'.
pub open spec fn stem_of(name: Seq<char>) -> Seq<char> {
    let k = last_dot(name);
    if k <= 0 {
        name
    } else {
        name.subrange(0, k)
    }
}

/// `Path::extension` of a path.
pub open spec fn path_extension(path: Seq<char>) -> Option<Seq<char>> {
    match path_file_name(path) {
        Some(n) => extension_of(n),
        None => None,
    }
}

/// `Path::file_stem` of a path.
pub open spec fn path_stem(path: Seq<char>) -> Option<Seq<char>> {
    match path_file_name(path) {
        Some(n) => Some(stem_of(n)),
        None => None,
    }
}

proof fn lemma_last_dot(s: Seq<char>)
    ensures
        -1 <= last_dot(s) < s.len(),
        last_dot(s) >= 0 ==> s[last_dot(s)] == '.',
        forall|k: int| last_dot(s) < k < s.len() ==> s[k] != '.',
    decreases s.len(),
{
    if s.len() > 0 && s.last() != '.' {
        lemma_last_dot(s.drop_last());
        assert forall|k: int| last_dot(s) < k < s.len() implies s[k] != '.' by {
            if k < s.len() - 1 {
                assert(s[k] == s.drop_last()[k]);
            }
        }
    }
}

/// Appending text without a '.' leaves the last '.' where it was.
proof fn lemma_last_dot_append(a: Seq<char>, b: Seq<char>)
    requires
        forall|k: int| 0 <= k < b.len() ==> b[k] != '.',
    ensures
        last_dot(a + b) == last_dot(a),
    decreases b.len(),
{
    if b.len() > 0 {
        assert((a + b).drop_last() =~= a + b.drop_last());
        assert((a + b).last() == b.last());
        lemma_last_dot_append(a, b.drop_last());
    } else {
        assert(a + b =~= a);
    }
}

/// A file name splits at its extension: the stem, a '.', and the
/// extension, which holds no '.'.
pub proof fn name_splits_at_extension(name: Seq<char>)
    requires
        extension_of(name) is Some,
    ensures
        stem_of(name) + "."@ + extension_of(name)->0 == name,
        forall|k: int|
            0 <= k < extension_of(name)->0.len() ==> #[trigger] extension_of(name)->0[k] != '.',
{
    reveal_strlit(".");
    lemma_last_dot(name);
    let k = last_dot(name);
    assert(stem_of(name) + "."@ + extension_of(name)->0 =~= name);
    assert forall|j: int| 0 <= j < extension_of(name)->0.len() implies #[trigger] extension_of(
        name,
    )->0[j] != '.' by {
        assert(extension_of(name)->0[j] == name[k + 1 + j]);
    }
}

/// A non-empty stem joined by a '.' to an extension without a '.' gives a
/// name with exactly that stem and extension.
pub proof fn joined_name_splits_back(stem: Seq<char>, ext: Seq<char>)
    requires
        stem.len() > 0,
        forall|k: int| 0 <= k < ext.len() ==> ext[k] != '.',
    ensures
        stem_of(stem + "."@ + ext) == stem,
        extension_of(stem + "."@ + ext) == Some(ext),
{
    reveal_strlit(".");
    let name = stem + "."@ + ext;
    lemma_last_dot_append(stem + "."@, ext);
    assert((stem + "."@).last() == '.');
    assert(last_dot(stem + "."@) == stem.len());
    assert(name.subrange(0, stem.len() as int) =~= stem);
    assert(name.subrange(stem.len() + 1int, name.len() as int) =~= ext);
}

/// The position of the last '.' in the characters, or `None`.
fn find_last_dot(cs: &Vec<char>) -> (r: Option<usize>)
    ensures
        match r {
            Some(k) => last_dot(cs@) == k && k < cs@.len(),
            None => last_dot(cs@) == -1,
        },
{
    let mut k: usize = cs.len();
    proof {
        assert(cs@.take(k as int) =~= cs@);
    }
    while k > 0
        invariant
            k <= cs@.len(),
            last_dot(cs@) == last_dot(cs@.take(k as int)),
        decreases k,
    {
        proof {
            assert(cs@.take(k as int).drop_last() =~= cs@.take(k - 1));
        }
        if cs[k - 1] == '.' {
            return Some(k - 1);
        }
        k -= 1;
    }
    None
}

/// The characters of `cs` from `start` to `end`.
fn slice_chars(cs: &Vec<char>, start: usize, end: usize) -> (r: Vec<char>)
    requires
        start <= end <= cs@.len(),
    ensures
        r@ == cs@.subrange(start as int, end as int),
{
    let mut r: Vec<char> = Vec::new();
    let mut k: usize = start;
    while k < end
        invariant
            start <= k <= end <= cs@.len(),
            r@ == cs@.subrange(start as int, k as int),
        decreases end - k,
    {
        proof {
            assert(cs@.subrange(start as int, k + 1) =~= cs@.subrange(start as int, k as int).push(
                cs@[k as int],
            ));
        }
        r.push(cs[k]);
        k += 1;
    }
    r
}

/// The extension of a file name (`Path::extension` of a bare name).
pub fn name_extension(name: &str) -> (r: Option<String>)
    ensures
        match r {
            Some(e) => extension_of(name@) == Some(e@),
            None => extension_of(name@) is None,
        },
{
    let cs = chars_of(name);
    match find_last_dot(&cs) {
        Some(k) => {
            if k == 0 {
                None
            } else {
                let n = cs.len();
                let e = slice_chars(&cs, k + 1, n);
                Some(string_of(&e))
            }
        },
        None => None,
    }
}

/// The stem of a file name (`Path::file_stem` of a bare name).
pub fn name_stem(name: &str) -> (r: String)
    ensures
        r@ == stem_of(name@),
{
    let cs = chars_of(name);
    match find_last_dot(&cs) {
        Some(k) => {
            if k == 0 {
                string_of(&cs)
            } else {
                let st = slice_chars(&cs, 0, k);
                string_of(&st)
            }
        },
        None => string_of(&cs),
    }
}

/// `Path::extension` of a path.
pub fn extension(path: &str) -> (r: Option<String>)
    ensures
        match r {
            Some(e) => path_extension(path@) == Some(e@),
            None => path_extension(path@) is None,
        },
{
    match file_name_of(path) {
        Some(n) => name_extension(n.as_str()),
        None => None,
    }
}

/// `Path::file_stem` of a path.
pub fn file_stem(path: &str) -> (r: Option<String>)
    ensures
        match r {
            Some(s) => path_stem(path@) == Some(s@),
            None => path_stem(path@) is None,
        },
{
    match file_name_of(path) {
        Some(n) => Some(name_stem(n.as_str())),
        None => None,
    }
}

/// Entries that are not pages: hidden files, macOS resource folders,
/// thumbnail caches and Finder metadata.
pub open spec fn is_skipped_name(name: Seq<char>) -> bool {
    ||| starts_with_seq(name, "."@)
    ||| contains_seq(name, "__MACOSX"@)
    ||| contains_seq(name, "thumbs.db"@)
    ||| contains_seq(name, ".DS_Store"@)
}

/// Whether an entry named `file_name` is to be skipped (hidden file,
/// `__MACOSX`, `thumbs.db`, `.DS_Store`).
pub fn should_skip_file(file_name: &str) -> (r: bool)
    ensures
        r == is_skipped_name(file_name@),
{
    let cs = chars_of(file_name);
    let dot = chars_of(".");
    let macosx = chars_of("__MACOSX");
    let thumbs = chars_of("thumbs.db");
    let ds_store = chars_of(".DS_Store");
    matches_at(&cs, &dot, 0) || contains_chars(&cs, &macosx) || contains_chars(&cs, &thumbs)
        || contains_chars(&cs, &ds_store)
}

/// An extension (already lowercased) of a page image: jpg, jpeg or png.
pub open spec fn is_image_ext(lower: Seq<char>) -> bool {
    lower == "jpg"@ || lower == "jpeg"@ || lower == "png"@
}

/// The path's extension, lowercased, is jpg, jpeg or png.
pub open spec fn has_image_ext(path: Seq<char>) -> bool {
    match path_extension(path) {
        Some(e) => is_image_ext(lowercase(e)),
        None => false,
    }
}

/// Whether the path names a page image (jpg, jpeg or png, in any case).
pub fn has_image_extension(path: &str) -> (r: bool)
    ensures
        r == has_image_ext(path@),
{
    match extension(path) {
        Some(e) => {
            let lower = to_lowercase(e.as_str());
            lower == "jpg".to_owned() || lower == "jpeg".to_owned() || lower == "png".to_owned()
        },
        None => false,
    }
}

/// The name under which an archive entry at `path` becomes a page: its
/// file name, when that is not a skipped name and the path has an image
/// extension.
pub open spec fn page_name(path: Seq<char>) -> Option<Seq<char>> {
    match path_file_name(path) {
        Some(n) => if !is_skipped_name(n) && has_image_ext(path) {
            Some(n)
        } else {
            None
        },
        None => None,
    }
}

/// The file name of the archive entry at `path` if it is a page, else `None`.
pub fn get_file_name(path: &str) -> (r: Option<String>)
    ensures
        match r {
            Some(n) => page_name(path@) == Some(n@),
            None => page_name(path@) is None,
        },
{
    match file_name_of(path) {
        Some(n) => {
            if !should_skip_file(n.as_str()) && has_image_extension(path) {
                Some(n)
            } else {
                None
            }
        },
        None => None,
    }
}

/// An archive entry that is a page: its file name and its bytes.
#[derive(Debug)]
pub struct ArchiveFile {
    pub file_name: String,
    pub data: Vec<u8>,
}

/// What the archive readers keep of an entry: nothing for a directory or an
/// entry without a safe path, else its page name if it is a page.
pub open spec fn entry_page_name(is_dir: bool, path: Option<Seq<char>>) -> Option<Seq<char>> {
    if is_dir {
        None
    } else {
        match path {
            Some(p) => page_name(p),
            None => None,
        }
    }
}

/// The page name of an archive entry, given whether it is a directory and
/// its (safe) path inside the archive, or `None` when it is skipped.
pub fn entry_file_name(is_dir: bool, path: Option<&str>) -> (r: Option<String>)
    ensures
        match r {
            Some(n) => entry_page_name(is_dir, match path {
                Some(p) => Some(p@),
                None => None,
            }) == Some(n@),
            None => entry_page_name(is_dir, match path {
                Some(p) => Some(p@),
                None => None,
            }) is None,
        },
{
    if is_dir {
        return None;
    }
    match path {
        Some(p) => get_file_name(p),
        None => None,
    }
}

/// The kind of comic archive.
#[derive(Debug, Clone, Copy, PartialEq, Eq, Structural)]
pub enum ArchiveKind {
    /// `.cbz` / `.zip`
    Zip,
    /// `.cbr` / `.rar`
    Rar,
}

/// The kind of archive a path's lowercased extension names, if any.
pub open spec fn kind_of_ext(lower: Seq<char>) -> Option<ArchiveKind> {
    if lower == "cbz"@ || lower == "zip"@ {
        Some(ArchiveKind::Zip)
    } else if lower == "cbr"@ || lower == "rar"@ {
        Some(ArchiveKind::Rar)
    } else {
        None
    }
}

/// The path's extension lowercased; empty when it has none.
pub open spec fn lower_extension(path: Seq<char>) -> Seq<char> {
    match path_extension(path) {
        Some(e) => lowercase(e),
        None => Seq::empty(),
    }
}

/// The archive kind of a comic file (by its extension in any case), or the
/// lowercased extension that is not supported.
pub fn archive_kind(path: &str) -> (r: Result<ArchiveKind, String>)
    ensures
        match r {
            Ok(k) => kind_of_ext(lower_extension(path@)) == Some(k),
            Err(e) => kind_of_ext(lower_extension(path@)) is None && e@ == lower_extension(path@),
        },
{
    let lower = match extension(path) {
        Some(e) => to_lowercase(e.as_str()),
        None => String::new(),
    };
    if lower == "cbz".to_owned() || lower == "zip".to_owned() {
        Ok(ArchiveKind::Zip)
    } else if lower == "cbr".to_owned() || lower == "rar".to_owned() {
        Ok(ArchiveKind::Rar)
    } else {
        Err(lower)
    }
}

/// A file the program picks up as a comic: extension cbz, zip, cbr or rar
/// (exactly, in lower case).
pub open spec fn is_comic_path(path: Seq<char>) -> bool {
    match path_extension(path) {
        Some(e) => e == "cbz"@ || e == "zip"@ || e == "cbr"@ || e == "rar"@,
        None => false,
    }
}

/// The comic files are exactly the files whose extension, as written,
/// names an archive that can be read: `.cbz` and `.zip` files are read as
/// zip archives, `.cbr` and `.rar` files as rar archives, and each of the
/// four is picked up as a comic.
pub proof fn comic_files_are_readable_archives(path: Seq<char>)
    ensures
        is_comic_path(path) <==> (path_extension(path) matches Some(e) && kind_of_ext(e) is Some),
        path_extension(path) == Some("cbz"@) ==> is_comic_path(path) && kind_of_ext("cbz"@)
            == Some(ArchiveKind::Zip),
        path_extension(path) == Some("zip"@) ==> is_comic_path(path) && kind_of_ext("zip"@)
            == Some(ArchiveKind::Zip),
        path_extension(path) == Some("cbr"@) ==> is_comic_path(path) && kind_of_ext("cbr"@)
            == Some(ArchiveKind::Rar),
        path_extension(path) == Some("rar"@) ==> is_comic_path(path) && kind_of_ext("rar"@)
            == Some(ArchiveKind::Rar),
{
    reveal_strlit("cbz");
    reveal_strlit("zip");
    reveal_strlit("cbr");
    reveal_strlit("rar");
    assert("cbr"@[2] != "cbz"@[2] && "cbr"@[0] != "zip"@[0]);
    assert("rar"@[0] != "cbz"@[0] && "rar"@[0] != "zip"@[0]);
}

/// Whether the file at `path` is taken as a comic archive.
pub fn is_comic_file(path: &str) -> (r: bool)
    ensures
        r == is_comic_path(path@),
{
    match extension(path) {
        Some(e) => e == "cbz".to_owned() || e == "zip".to_owned() || e == "cbr".to_owned() || e
            == "rar".to_owned(),
        None => false,
    }
}

/// A source of an archive's pages, read one at a time.
pub trait ArchiveReader: Send {
    /// The next page, `None` once there is none left, or why reading failed.
    fn next_file(&mut self) -> Result<Option<ArchiveFile>, String>;
}

/// What the page iterator yields for one answer of its reader: the page,
/// nothing at the end, or the error.
pub open spec fn item_for(answer: Result<Option<ArchiveFile>, String>) -> Option<Result<ArchiveFile, String>> {
    match answer {
        Ok(Some(f)) => Some(Ok(f)),
        Ok(None) => None,
        Err(e) => Some(Err(e)),
    }
}

/// The iterator's item for a reader's answer.
pub fn item_of(answer: Result<Option<ArchiveFile>, String>) -> (r: Option<Result<ArchiveFile, String>>)
    ensures
        r == item_for(answer),
{
    match answer {
        Ok(Some(f)) => Some(Ok(f)),
        Ok(None) => None,
        Err(e) => Some(Err(e)),
    }
}

/// The pages of an archive, in the order its reader gives them.
pub struct ArchiveIter<R: ArchiveReader> {
    reader: R,
}

impl<R: ArchiveReader> ArchiveIter<R> {
    /// The reader the pages come from.
    pub closed spec fn source(self) -> R {
        self.reader
    }

    /// The pages that `reader` gives.
    pub fn new(reader: R) -> (r: Self)
        ensures
            r.source() == reader,
    {
        ArchiveIter { reader }
    }

    /// The next page, `None` at the end, or the reader's error: the
    /// reader's answer passed on as `item_of` maps it. What the reader
    /// answers is up to its implementation, so nothing is stated of it here.
    pub fn next(&mut self) -> (r: Option<Result<ArchiveFile, String>>) {
        let answer = self.reader.next_file();
        item_of(answer)
    }
}

} // verus!
