//! Packaging processed pages as a CBZ: a zip of the page images, stored
//! uncompressed, in page order.

use vstd::prelude::*;
use crate::comic::{lemma_name_lt_total, name_lt, strictly_sorted, Comic, ProcessedImage};
use vstd::utf8::encode_utf8;
use crate::package::{
    packable, entries_view, entry_view, write_archive, zip_archive_bytes, ArchiveEntry, Compression,
    PackError,
};

verus! {

/// The CBZ's files: one per page, named by the page and holding its bytes,
/// stored as they are.
pub open spec fn cbz_files(images: Seq<ProcessedImage>) -> Seq<(Seq<char>, Seq<u8>, bool)> {
    images.map_values(|im: ProcessedImage| (im.file_name@, im.data@, true))
}

/// The entries of the CBZ for `images`, in order.
pub fn cbz_entries(images: &[ProcessedImage]) -> (r: Vec<ArchiveEntry>)
    ensures
        entries_view(r@) == cbz_files(images@),
{
    let mut r: Vec<ArchiveEntry> = Vec::new();
    let mut k: usize = 0;
    while k < images.len()
        invariant
            k <= images@.len(),
            entries_view(r@) == cbz_files(images@.take(k as int)),
        decreases images@.len() - k,
    {
        let im = &images[k];
        let data = im.data.clone();
        proof {
            assert(data@ =~= im.data@);
        }
        let e = ArchiveEntry { name: im.file_name.clone(), data, compression: Compression::Stored };
        let ghost old_r = r@;
        r.push(e);
        proof {
            assert(r@ =~= old_r.push(e));
            assert(entry_view(e) == (images@[k as int].file_name@, images@[k as int].data@, true));
            assert(entries_view(r@) =~= entries_view(old_r).push(entry_view(e)));
            assert(images@.take(k + 1) =~= images@.take(k as int).push(images@[k as int]));
            assert(entries_view(r@) =~= cbz_files(images@.take(k + 1)));
        }
        k += 1;
    }
    proof {
        assert(images@.take(k as int) =~= images@);
    }
    r
}

/// Every page's name is at most 65535 bytes long in UTF-8 (the zip writer
/// panics on longer names).
pub open spec fn page_names_fit(images: Seq<ProcessedImage>) -> bool {
    forall|i: int| 0 <= i < images.len() ==> encode_utf8(#[trigger] images[i].file_name@).len() <= 65535
}

/// The bytes of the CBZ holding `images`: the zip archive of their names and
/// bytes, in order, stored uncompressed. It is always made when no two pages
/// share a name and none holds more than `u32::MAX` bytes.
pub fn build(comic: &Comic, images: &[ProcessedImage]) -> (r: Result<Vec<u8>, PackError>)
    requires
        page_names_fit(images@),
    ensures
        packable(cbz_files(images@)) ==> r is Ok,
        r matches Ok(b) ==> b@ == zip_archive_bytes(cbz_files(images@)),
{
    let entries = cbz_entries(images);
    proof {
        assert(entries_view(entries@).len() == entries@.len());
        assert(cbz_files(images@).len() == images@.len());
        assert forall|i: int| 0 <= i < entries@.len() implies encode_utf8(
            #[trigger] entries@[i].name@,
        ).len() <= 65535 by {
            assert(entries_view(entries@)[i] == entry_view(entries@[i]));
            assert(cbz_files(images@)[i].0 == images@[i].file_name@);
            assert(encode_utf8(images@[i].file_name@).len() <= 65535);
        }
    }
    write_archive(&entries)
}

/// `build`, writing the bytes into `buffer` (whose old contents are
/// dropped). On failure the buffer is left empty.
pub fn build_into(comic: &Comic, images: &[ProcessedImage], buffer: &mut Vec<u8>) -> (r: Result<(), PackError>)
    requires
        page_names_fit(images@),
    ensures
        packable(cbz_files(images@)) ==> r is Ok,
        r is Ok ==> final(buffer)@ == zip_archive_bytes(cbz_files(images@)),
        r is Err ==> final(buffer)@.len() == 0,
{
    buffer.clear();
    match build(comic, images) {
        Ok(b) => {
            *buffer = b;
            Ok(())
        },
        Err(e) => Err(e),
    }
}

/// Pages as `sort_and_dedup` leaves them (strictly ordered by name) give a
/// CBZ whose files all have different names, in the pages' order.
pub proof fn sorted_pages_make_distinct_files(images: Seq<ProcessedImage>)
    requires
        strictly_sorted(images),
    ensures
        forall|i: int, j: int|
            0 <= i < j < images.len() ==> #[trigger] cbz_files(images)[i].0 != #[trigger] cbz_files(
                images,
            )[j].0,
{
    assert forall|i: int, j: int| 0 <= i < j < images.len() implies #[trigger] cbz_files(
        images,
    )[i].0 != #[trigger] cbz_files(images)[j].0 by {
        assert(name_lt(images[i].file_name@, images[j].file_name@));
        lemma_name_lt_total(images[i].file_name@, images[i].file_name@);
    }
}

} // verus!
