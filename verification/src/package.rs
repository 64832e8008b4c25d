//! Writing a zip archive in memory: the container of both CBZ and EPUB.

use vstd::prelude::*;
use std::io::Cursor;
use zip::result::ZipError;
use zip::ZipWriter;
use vstd::utf8::encode_utf8;

verus! {

#[verifier::external_type_specification]
#[verifier::external_body]
pub struct ExZipError(zip::result::ZipError);

#[verifier::external_type_specification]
#[verifier::external_body]
pub struct ExIoError(std::io::Error);

/// How an entry's bytes are kept in the archive.
#[derive(Debug, Clone, Copy, PartialEq, Eq)]
pub enum Compression {
    /// As they are.
    Stored,
    /// Deflate-compressed.
    Deflated,
}

/// One file of an archive: its path inside the archive, its bytes and how
/// they are kept.
#[derive(Debug, Clone)]
pub struct ArchiveEntry {
    pub name: String,
    pub data: Vec<u8>,
    pub compression: Compression,
}

/// An entry as plain values: (path, bytes, stored uncompressed).
pub open spec fn entry_view(e: ArchiveEntry) -> (Seq<char>, Seq<u8>, bool) {
    (e.name@, e.data@, e.compression == Compression::Stored)
}

/// The entries of a list, as plain values.
pub open spec fn entries_view(es: Seq<ArchiveEntry>) -> Seq<(Seq<char>, Seq<u8>, bool)> {
    es.map_values(|e: ArchiveEntry| entry_view(e))
}

/// A zip writer over an in-memory buffer. (Verus does not accept the
/// writer's type itself, whose parameter is bounded by `std::io` traits, so
/// it is held here, out of Verus's sight.)
#[verifier::external_body]
pub struct ZipBuffer {
    writer: ZipWriter<Cursor<Vec<u8>>>,
}

/// The files that a zip writer over memory holds so far, in the order they
/// were started: (path, bytes written into it, stored uncompressed).
pub uninterp spec fn zip_entries(w: ZipBuffer) -> Seq<(Seq<char>, Seq<u8>, bool)>;

/// No call on the writer has failed, so what it has written is exactly its
/// entries.
pub uninterp spec fn zip_intact(w: ZipBuffer) -> bool;

/// The bytes of the zip archive that `zip` writes for these entries, with
/// its default options: stored entries as they are, deflated ones through
/// `flate2` over `miniz_oxide` at level 6, a plain Rust compressor with no
/// code path chosen by the machine; and no timestamps (the crate is built
/// without its `time` feature, so every entry carries 1980-01-01).
pub uninterp spec fn zip_archive_bytes(entries: Seq<(Seq<char>, Seq<u8>, bool)>) -> Seq<u8>;

/// The most bytes a deflated entry may hold for the writer to be sure to
/// take it: 2^30. Deflate never spends more than two bytes per input byte
/// (no code is longer than 15 bits, a match of at least three bytes costs
/// at most 48 bits), plus a block header of a few hundred bytes per block
/// of many kilobytes, so the compressed entry stays below `u32::MAX`, the
/// most an entry holds without the zip64 extension.
pub open spec fn deflate_limit() -> nat {
    0x4000_0000
}

/// An entry that the writer is sure to finish: a stored one of at most
/// `u32::MAX` bytes, a deflated one of at most `deflate_limit()` bytes.
pub open spec fn entry_fits(e: (Seq<char>, Seq<u8>, bool)) -> bool {
    if e.2 {
        e.1.len() <= u32::MAX
    } else {
        e.1.len() <= deflate_limit()
    }
}

/// `ZipWriter::new` over an empty in-memory buffer: a writer with no
/// entries.
#[verifier::external_body]
fn zip_new() -> (w: ZipBuffer)
    ensures
        zip_entries(w) == Seq::<(Seq<char>, Seq<u8>, bool)>::empty(),
        zip_intact(w),
{
    ZipBuffer { writer: ZipWriter::new(Cursor::new(Vec::new())) }
}

/// The entry started last, if any, fits (`entry_fits`).
pub open spec fn last_fits(es: Seq<(Seq<char>, Seq<u8>, bool)>) -> bool {
    es.len() > 0 ==> entry_fits(es[es.len() - 1])
}

/// No entry has the path `name`.
pub open spec fn name_is_new(es: Seq<(Seq<char>, Seq<u8>, bool)>, name: Seq<char>) -> bool {
    forall|i: int| 0 <= i < es.len() ==> #[trigger] es[i].0 != name
}

/// `ZipWriter::start_file` with default options and the given compression:
/// on success a new, empty entry named `name` follows the others. A path of
/// more than 65535 bytes makes the writer panic, so it is not allowed.
/// Starting a file first finishes the one before, which fails when that one
/// no longer fits without zip64; so the call succeeds when nothing failed
/// before, the last entry fits (`last_fits`) and no entry has this path yet
/// (a repeated path is refused as a duplicate).
#[verifier::external_body]
fn zip_start_file(w: &mut ZipBuffer, name: &str, compression: Compression) -> (r: Result<(), ZipError>)
    requires
        encode_utf8(name@).len() <= 65535,
    ensures
        r is Ok && zip_intact(*old(w)) ==> zip_intact(*final(w)) && zip_entries(*final(w))
            == zip_entries(*old(w)).push((name@, Seq::<u8>::empty(), compression == Compression::Stored)),
        zip_intact(*old(w)) && last_fits(zip_entries(*old(w))) && name_is_new(
            zip_entries(*old(w)),
            name@,
        ) ==> r is Ok,
{
    let method = match compression {
        Compression::Stored => zip::CompressionMethod::Stored,
        Compression::Deflated => zip::CompressionMethod::Deflated,
    };
    w.writer.start_file(name, zip::write::SimpleFileOptions::default().compression_method(method))
}

/// `std::io::Write::write_all` on the writer: on success `data` is appended
/// to the entry started last. It succeeds when nothing failed before and
/// the entry stays within `u32::MAX` bytes (beyond that the writer refuses,
/// as the zip64 option is off); writing into memory, or into a compressor
/// over memory, cannot fail otherwise.
#[verifier::external_body]
fn zip_write_all(w: &mut ZipBuffer, data: &[u8]) -> (r: Result<(), std::io::Error>)
    ensures
        ({
            let es = zip_entries(*old(w));
            zip_intact(*old(w)) && es.len() > 0 && es[es.len() - 1].1.len() + data@.len()
                <= u32::MAX ==> r is Ok
        }),
        r is Ok && zip_intact(*old(w)) && zip_entries(*old(w)).len() > 0 ==> {
            let es = zip_entries(*old(w));
            let last = es[es.len() - 1];
            &&& zip_intact(*final(w))
            &&& zip_entries(*final(w)) == es.update(es.len() - 1, (last.0, last.1 + data@, last.2))
        },
{
    std::io::Write::write_all(&mut w.writer, data)
}

/// `ZipWriter::finish`, taking the buffer out of its cursor. When nothing
/// failed before, the bytes are the archive of the entries. Finishing
/// succeeds when nothing failed before and the last entry fits (writing the
/// directory into memory cannot fail).
#[verifier::external_body]
fn zip_finish(w: ZipBuffer) -> (r: Result<Vec<u8>, ZipError>)
    ensures
        zip_intact(w) && last_fits(zip_entries(w)) ==> r is Ok,
        r matches Ok(b) ==> (zip_intact(w) ==> b@ == zip_archive_bytes(zip_entries(w))),
{
    w.writer.finish().map(|c| c.into_inner())
}

/// Why an archive could not be written.
#[derive(Debug, Clone, Copy, PartialEq, Eq)]
pub enum PackError {
    /// The zip writer refused an entry or could not finish.
    Zip,
    /// Writing an entry's bytes failed.
    Write,
}

/// Every entry's path is at most 65535 bytes long in UTF-8, the most a zip
/// entry's name holds.
pub open spec fn names_fit(es: Seq<ArchiveEntry>) -> bool {
    forall|i: int| 0 <= i < es.len() ==> encode_utf8(#[trigger] es[i].name@).len() <= 65535
}

/// Entries that the writer always takes: each fits (`entry_fits`), and no
/// path comes twice.
pub open spec fn packable(es: Seq<(Seq<char>, Seq<u8>, bool)>) -> bool {
    &&& forall|i: int| 0 <= i < es.len() ==> #[trigger] entry_fits(es[i])
    &&& forall|i: int, j: int| 0 <= i < j < es.len() ==> #[trigger] es[i].0 != #[trigger] es[j].0
}

/// The zip archive holding `entries`, in order: when made, it is the archive
/// of exactly these entries, and it is always made when every entry fits and
/// no path repeats.
pub fn write_archive(entries: &Vec<ArchiveEntry>) -> (r: Result<Vec<u8>, PackError>)
    requires
        names_fit(entries@),
    ensures
        packable(entries_view(entries@)) ==> r is Ok,
        r matches Ok(b) ==> b@ == zip_archive_bytes(entries_view(entries@)),
{
    let mut w = zip_new();
    let mut k: usize = 0;
    while k < entries.len()
        invariant
            k <= entries@.len(),
            names_fit(entries@),
            zip_intact(w),
            zip_entries(w) == entries_view(entries@.take(k as int)),
            packable(entries_view(entries@)) ==> last_fits(zip_entries(w)),
        decreases entries@.len() - k,
    {
        let e = &entries[k];
        let ghost view = entries_view(entries@);
        proof {
            assert(encode_utf8(entries@[k as int].name@).len() <= 65535);
            if packable(view) {
                assert forall|i: int| 0 <= i < zip_entries(w).len() implies #[trigger] zip_entries(
                    w,
                )[i].0 != e.name@ by {
                    assert(zip_entries(w)[i] == view[i]);
                    assert(view[k as int].0 == e.name@);
                }
            }
        }
        match zip_start_file(&mut w, e.name.as_str(), e.compression) {
            Ok(()) => {},
            Err(_) => {
                return Err(PackError::Zip);
            },
        }
        proof {
            if packable(view) {
                assert(entry_fits(view[k as int]));
                assert(e.data@.len() == view[k as int].1.len());
            }
        }
        match zip_write_all(&mut w, e.data.as_slice()) {
            Ok(()) => {},
            Err(_) => {
                return Err(PackError::Write);
            },
        }
        proof {
            assert(entries@.take(k + 1) =~= entries@.take(k as int).push(entries@[k as int]));
            assert(Seq::<u8>::empty() + e.data@ =~= e.data@);
            assert(zip_entries(w) =~= entries_view(entries@.take(k + 1)));
            if packable(view) {
                assert(entry_fits(view[k as int]));
                assert(zip_entries(w)[k as int] == view[k as int]);
            }
        }
        k += 1;
    }
    proof {
        assert(entries@.take(k as int) =~= entries@);
    }
    match zip_finish(w) {
        Ok(b) => Ok(b),
        Err(_) => Err(PackError::Zip),
    }
}

} // verus!
