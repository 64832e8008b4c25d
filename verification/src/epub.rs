//! Packaging processed pages as a fixed-layout EPUB: the package's text
//! files (container, cover and page documents, navigation, package document)
//! and the order of the files in the zip.

use vstd::prelude::*;
use crate::comic::{Comic, ProcessedImage};
use crate::package::{
    deflate_limit, entries_view, entry_fits, entry_view, packable, write_archive, zip_archive_bytes,
    ArchiveEntry, Compression, PackError,
};
use vstd::slice::slice_to_vec;
use vstd::utf8::encode_utf8;
use crate::settings::{ComicConfig, ImageFormat, PngCompression};
use crate::text::{decimal, push_decimal, push_padded, push_str, zero_padded, zero_padded_reads_back};

verus! {

/// The contents of the `mimetype` file.
pub const MIMETYPE: &'static str = "application/epub+zip";

/// `META-INF/container.xml`: where the package document is.
pub const CONTAINER_XML: &'static str = "<?xml version=\"1.0\" encoding=\"UTF-8\"?>\n<container xmlns=\"urn:oasis:names:tc:opendocument:xmlns:container\" version=\"1.0\">\n  <rootfiles>\n    <rootfile full-path=\"OEBPS/content.opf\" media-type=\"application/oebps-package+xml\"/>\n  </rootfiles>\n</container>";

/// The cover page, up to its image's source.
pub const COVER_HEAD: &'static str = "<?xml version=\"1.0\" encoding=\"UTF-8\"?>\n<!DOCTYPE html>\n<html xmlns=\"http://www.w3.org/1999/xhtml\" xmlns:epub=\"http://www.idpf.org/2007/ops\">\n<head>\n  <title>Cover</title>\n  <meta name=\"viewport\" content=\"width=device-width, height=device-height, initial-scale=1.0, maximum-scale=1.0, user-scalable=no\"/>\n</head>\n<body>\n  <div class=\"cover\">\n    <img src=\"";

/// The cover page after its image's source.
pub const COVER_TAIL: &'static str = "\" alt=\"Cover\"/>\n  </div>\n</body>\n</html>";

/// A page, up to its number.
pub const PAGE_HEAD: &'static str = "<?xml version=\"1.0\" encoding=\"UTF-8\"?>\n<!DOCTYPE html>\n<html xmlns=\"http://www.w3.org/1999/xhtml\" xmlns:epub=\"http://www.idpf.org/2007/ops\">\n<head>\n  <title>Page ";

/// A page, from its number to its width.
pub const PAGE_WIDTH: &'static str = "</title>\n  <meta name=\"viewport\" content=\"width=";

/// A page, between its width and height.
pub const PAGE_HEIGHT: &'static str = ", height=";

/// A page, from its height to its image's source.
pub const PAGE_IMAGE: &'static str = ", initial-scale=1.0, maximum-scale=1.0, user-scalable=no\"/>\n</head>\n<body>\n  <div class=\"image\">\n    <img src=\"";

/// A page after its image's source.
pub const PAGE_TAIL: &'static str = "\"/>\n  </div>\n</body>\n</html>";

/// The navigation file, up to its identifier.
pub const TOC_HEAD: &'static str = "<?xml version=\"1.0\" encoding=\"UTF-8\"?>\n<ncx xmlns=\"http://www.daisy.org/z3986/2005/ncx/\" version=\"2005-1\">\n  <head>\n    <meta name=\"dtb:uid\" content=\"";

/// The navigation file, from its identifier to its title.
pub const TOC_TITLE: &'static str = "\"/>\n    <meta name=\"dtb:depth\" content=\"1\"/>\n    <meta name=\"dtb:totalPageCount\" content=\"0\"/>\n    <meta name=\"dtb:maxPageNumber\" content=\"0\"/>\n  </head>\n  <docTitle><text>";

/// The navigation file, from its title to its navigation points.
pub const TOC_NAV: &'static str = "</text></docTitle>\n  <navMap>\n";

/// The navigation file after its navigation points.
pub const TOC_TAIL: &'static str = "  </navMap>\n</ncx>";

/// The package document, up to its title.
pub const OPF_HEAD: &'static str = "<?xml version=\"1.0\" encoding=\"UTF-8\"?>\n        <package version=\"3.0\" unique-identifier=\"BookID\" xmlns=\"http://www.idpf.org/2007/opf\">\n          <metadata xmlns:opf=\"http://www.idpf.org/2007/opf\" xmlns:dc=\"http://purl.org/dc/elements/1.1/\">\n            <dc:title>";

/// From the title to the identifier.
pub const OPF_IDENTIFIER: &'static str = "</dc:title>\n            <dc:language>en-US</dc:language>\n            <dc:identifier id=\"BookID\">urn:uuid:";

/// From the identifier to the screen width.
pub const OPF_RESOLUTION: &'static str = "</dc:identifier>\n            <dc:creator>comically</dc:creator>\n            <meta name=\"cover\" content=\"cover-image\"/>\n            <meta name=\"fixed-layout\" content=\"true\"/>\n            <meta name=\"original-resolution\" content=\"";

/// Between the screen width and height.
pub const OPF_BY: &'static str = "x";

/// From the screen height to the writing mode.
pub const OPF_WRITING_MODE: &'static str = "\"/>\n            <meta name=\"book-type\" content=\"comic\"/>\n            <meta name=\"primary-writing-mode\" content=\"";

/// From the writing mode to the manifest.
pub const OPF_MANIFEST: &'static str = "\"/>\n            <meta name=\"zero-gutter\" content=\"true\"/>\n            <meta name=\"zero-margin\" content=\"true\"/>\n            <meta name=\"ke-border-color\" content=\"#FFFFFF\"/>\n            <meta name=\"ke-border-width\" content=\"0\"/>\n            <meta name=\"orientation-lock\" content=\"none\"/>\n            <meta name=\"region-mag\" content=\"true\"/>\n            <meta property=\"rendition:spread\">landscape</meta>\n            <meta property=\"rendition:layout\">pre-paginated</meta>\n          </metadata>\n          <manifest>";

/// From the manifest to the page progression direction.
pub const OPF_SPINE: &'static str = "</manifest>\n          <spine toc=\"ncx\" page-progression-direction=\"";

/// From the page progression direction to the spine's items.
pub const OPF_SPINE_ITEMS: &'static str = "\">";

/// The package document after the spine.
pub const OPF_TAIL: &'static str = "</spine>\n        </package>";

/// The navigation point of the cover.
pub const NAV_COVER: &'static str = "    <navPoint id=\"navpoint-cover\" playOrder=\"1\">\n      <navLabel><text>Cover</text></navLabel>\n      <content src=\"cover.html\"/>\n    </navPoint>\n";

/// A page's navigation point, up to its id number.
pub const NAV_ID: &'static str = "    <navPoint id=\"navpoint-";

/// From the id number to the play order.
pub const NAV_ORDER: &'static str = "\" playOrder=\"";

/// From the play order to the page number.
pub const NAV_LABEL: &'static str = "\">\n      <navLabel><text>Page ";

/// From the page number to the page's file.
pub const NAV_SRC: &'static str = "</text></navLabel>\n      <content src=\"";

/// The end of a page's navigation point.
pub const NAV_END: &'static str = "\"/>\n    </navPoint>\n";

/// The manifest item of the navigation file.
pub const MANIFEST_NCX: &'static str = "    <item id=\"ncx\" href=\"toc.ncx\" media-type=\"application/x-dtbncx+xml\"/>\n";

/// The manifest item of the cover page.
pub const MANIFEST_COVER: &'static str = "    <item id=\"cover-html\" href=\"cover.html\" media-type=\"application/xhtml+xml\"/>\n";

/// A page's manifest item, up to its number.
pub const ITEM_PAGE: &'static str = "    <item id=\"page";

/// From an item's id to its file.
pub const ITEM_HREF: &'static str = "\" href=\"";

/// The end of a page's manifest item.
pub const ITEM_XHTML: &'static str = "\" media-type=\"application/xhtml+xml\"/>\n";

/// The cover image's manifest item, up to its file.
pub const ITEM_COVER_IMAGE: &'static str = "    <item id=\"cover-image\" href=\"";

/// From an image item's file to its media type.
pub const ITEM_MEDIA: &'static str = "\" media-type=\"";

/// The end of the cover image's manifest item.
pub const ITEM_COVER_END: &'static str = "\" properties=\"cover-image\"/>\n";

/// Another image's manifest item, up to its number.
pub const ITEM_IMAGE: &'static str = "    <item id=\"image";

/// The end of an image item or a spine item.
pub const TAG_END: &'static str = "\"/>\n";

/// The spine item of the cover page.
pub const SPINE_COVER: &'static str = "    <itemref idref=\"cover-html\" properties=\"page-spread-center\"/>\n";

/// A page's spine item, up to its number.
pub const SPINE_PAGE: &'static str = "    <itemref idref=\"page";

/// From a spine item's page number to its spread.
pub const SPINE_PROPS: &'static str = "\" properties=\"";

/// The name of page `n`'s document (from 1): "page001.html".
pub open spec fn page_file(n: nat) -> Seq<char> {
    "page"@ + zero_padded(n, 3) + ".html"@
}

/// Where image `n` (from 1) lies, relative to the package document:
/// "Images/image001.jpg".
pub open spec fn image_href(n: nat) -> Seq<char> {
    "Images/image"@ + zero_padded(n, 3) + ".jpg"@
}

fn push_page_file(s: &mut String, n: u64)
    ensures
        final(s)@ == old(s)@ + page_file(n as nat),
{
    push_str(s, "page");
    push_padded(s, n, 3);
    push_str(s, ".html");
    proof {
        assert(final(s)@ =~= old(s)@ + page_file(n as nat));
    }
}

fn push_image_href(s: &mut String, n: u64)
    ensures
        final(s)@ == old(s)@ + image_href(n as nat),
{
    push_str(s, "Images/image");
    push_padded(s, n, 3);
    push_str(s, ".jpg");
    proof {
        assert(final(s)@ =~= old(s)@ + image_href(n as nat));
    }
}

/// The cover document, showing the image at `src`.
pub open spec fn cover_page_text(src: Seq<char>) -> Seq<char> {
    COVER_HEAD@ + src + COVER_TAIL@
}

/// The cover document showing the image at `image_src`.
pub fn cover_page(image_src: &str) -> (r: String)
    ensures
        r@ == cover_page_text(image_src@),
{
    let mut s = COVER_HEAD.to_owned();
    push_str(&mut s, image_src);
    push_str(&mut s, COVER_TAIL);
    s
}

/// The document of page `n`, showing the image at `src` on a viewport of
/// the image's size.
pub open spec fn page_text(n: nat, src: Seq<char>, width: nat, height: nat) -> Seq<char> {
    PAGE_HEAD@ + decimal(n) + PAGE_WIDTH@ + decimal(width) + PAGE_HEIGHT@ + decimal(height)
        + PAGE_IMAGE@ + src + PAGE_TAIL@
}

/// The document of page `number`, showing the image at `image_src`, whose
/// size is `width` x `height`.
pub fn page_html(number: u64, image_src: &str, width: u32, height: u32) -> (r: String)
    ensures
        r@ == page_text(number as nat, image_src@, width as nat, height as nat),
{
    let mut s = PAGE_HEAD.to_owned();
    push_decimal(&mut s, number);
    push_str(&mut s, PAGE_WIDTH);
    push_decimal(&mut s, width as u64);
    push_str(&mut s, PAGE_HEIGHT);
    push_decimal(&mut s, height as u64);
    push_str(&mut s, PAGE_IMAGE);
    push_str(&mut s, image_src);
    push_str(&mut s, PAGE_TAIL);
    s
}

/// The navigation point of the page at index `i` (from 0): its play order
/// is `i + 2`, after the cover's.
pub open spec fn nav_point(i: nat) -> Seq<char> {
    NAV_ID@ + decimal(i + 2) + NAV_ORDER@ + decimal(i + 2) + NAV_LABEL@ + decimal(i + 1) + NAV_SRC@
        + page_file(i + 1) + NAV_END@
}

/// The navigation points of the cover and the first `n` pages.
pub open spec fn nav_points(n: nat) -> Seq<char>
    decreases n,
{
    if n == 0 {
        NAV_COVER@
    } else {
        nav_points((n - 1) as nat) + nav_point((n - 1) as nat)
    }
}

/// The navigation file of a book of `pages` pages.
pub open spec fn toc_text(title: Seq<char>, uuid: Seq<char>, pages: nat) -> Seq<char> {
    TOC_HEAD@ + uuid + TOC_TITLE@ + title + TOC_NAV@ + nav_points(pages) + TOC_TAIL@
}

fn nav_points_string(pages: usize) -> (r: String)
    requires
        pages < usize::MAX,
    ensures
        r@ == nav_points(pages as nat),
{
    let mut s = NAV_COVER.to_owned();
    let mut i: usize = 0;
    while i < pages
        invariant
            i <= pages < usize::MAX,
            s@ == nav_points(i as nat),
        decreases pages - i,
    {
        let ghost before = s@;
        push_str(&mut s, NAV_ID);
        push_decimal(&mut s, i as u64 + 2);
        push_str(&mut s, NAV_ORDER);
        push_decimal(&mut s, i as u64 + 2);
        push_str(&mut s, NAV_LABEL);
        push_decimal(&mut s, i as u64 + 1);
        push_str(&mut s, NAV_SRC);
        push_page_file(&mut s, i as u64 + 1);
        push_str(&mut s, NAV_END);
        proof {
            assert(s@ =~= before + nav_point(i as nat));
        }
        i += 1;
    }
    s
}

/// `toc.ncx`, the navigation file of a book titled `title` with `pages`
/// pages: the cover, then each page.
pub fn toc_ncx(title: &str, uuid: &str, pages: usize) -> (r: String)
    requires
        pages < usize::MAX,
    ensures
        r@ == toc_text(title@, uuid@, pages as nat),
{
    let nav = nav_points_string(pages);
    let mut s = TOC_HEAD.to_owned();
    push_str(&mut s, uuid);
    push_str(&mut s, TOC_TITLE);
    push_str(&mut s, title);
    push_str(&mut s, TOC_NAV);
    push_str(&mut s, nav.as_str());
    push_str(&mut s, TOC_TAIL);
    s
}

/// The media type that the package declares for an image: PNG as PNG,
/// anything else as JPEG.
pub open spec fn media_type(f: ImageFormat) -> Seq<char> {
    if f is Png {
        "image/png"@
    } else {
        "image/jpeg"@
    }
}

fn media_type_of(f: ImageFormat) -> (r: &'static str)
    ensures
        r@ == media_type(f),
{
    match f {
        ImageFormat::Png { .. } => "image/png",
        _ => "image/jpeg",
    }
}

/// The manifest item of the page at index `i` (from 0).
pub open spec fn page_item(i: nat) -> Seq<char> {
    ITEM_PAGE@ + decimal(i + 1) + ITEM_HREF@ + page_file(i + 1) + ITEM_XHTML@
}

/// The manifest items of the first `n` pages.
pub open spec fn page_items(n: nat) -> Seq<char>
    decreases n,
{
    if n == 0 {
        Seq::empty()
    } else {
        page_items((n - 1) as nat) + page_item((n - 1) as nat)
    }
}

/// The manifest item of the image at index `i` (from 0), encoded as `f`; the
/// first one is marked as the cover image.
pub open spec fn image_item(i: nat, f: ImageFormat) -> Seq<char> {
    if i == 0 {
        ITEM_COVER_IMAGE@ + image_href(1) + ITEM_MEDIA@ + media_type(f) + ITEM_COVER_END@
    } else {
        ITEM_IMAGE@ + decimal(i) + ITEM_HREF@ + image_href(i + 1) + ITEM_MEDIA@ + media_type(f)
            + TAG_END@
    }
}

/// The manifest items of images encoded as `fs`, in order.
pub open spec fn image_items(fs: Seq<ImageFormat>) -> Seq<char>
    decreases fs.len(),
{
    if fs.len() == 0 {
        Seq::empty()
    } else {
        image_items(fs.drop_last()) + image_item((fs.len() - 1) as nat, fs.last())
    }
}

/// How each page is encoded.
pub open spec fn formats_of(images: Seq<ProcessedImage>) -> Seq<ImageFormat> {
    images.map_values(|im: ProcessedImage| im.format)
}

/// The manifest: the navigation file, the cover document, each page's
/// document, each image.
pub open spec fn manifest_text(fs: Seq<ImageFormat>) -> Seq<char> {
    MANIFEST_NCX@ + MANIFEST_COVER@ + page_items(fs.len()) + image_items(fs)
}

fn manifest_string(images: &[ProcessedImage]) -> (r: String)
    requires
        images@.len() < usize::MAX,
    ensures
        r@ == manifest_text(formats_of(images@)),
{
    let ghost fs = formats_of(images@);
    let n = images.len();
    let mut s = MANIFEST_NCX.to_owned();
    push_str(&mut s, MANIFEST_COVER);
    let ghost head = s@;
    let mut i: usize = 0;
    while i < n
        invariant
            n == images@.len() < usize::MAX,
            i <= n,
            s@ == head + page_items(i as nat),
        decreases n - i,
    {
        let ghost before = s@;
        push_str(&mut s, ITEM_PAGE);
        push_decimal(&mut s, i as u64 + 1);
        push_str(&mut s, ITEM_HREF);
        push_page_file(&mut s, i as u64 + 1);
        push_str(&mut s, ITEM_XHTML);
        proof {
            assert(s@ =~= before + page_item(i as nat));
        }
        i += 1;
    }
    let ghost pages = s@;
    let mut k: usize = 0;
    while k < n
        invariant
            n == images@.len() < usize::MAX,
            fs == formats_of(images@),
            k <= n,
            s@ == pages + image_items(fs.take(k as int)),
        decreases n - k,
    {
        let ghost before = s@;
        let mt = media_type_of(images[k].format);
        if k == 0 {
            push_str(&mut s, ITEM_COVER_IMAGE);
            push_image_href(&mut s, 1);
            push_str(&mut s, ITEM_MEDIA);
            push_str(&mut s, mt);
            push_str(&mut s, ITEM_COVER_END);
        } else {
            push_str(&mut s, ITEM_IMAGE);
            push_decimal(&mut s, k as u64);
            push_str(&mut s, ITEM_HREF);
            push_image_href(&mut s, k as u64 + 1);
            push_str(&mut s, ITEM_MEDIA);
            push_str(&mut s, mt);
            push_str(&mut s, TAG_END);
        }
        proof {
            assert(fs.take(k + 1).drop_last() =~= fs.take(k as int));
            assert(s@ =~= before + image_item(k as nat, fs[k as int]));
        }
        k += 1;
    }
    proof {
        assert(fs.take(n as int) =~= fs);
        assert(s@ =~= manifest_text(fs));
    }
    s
}

/// Which side of a spread the spine item of page index `i` (from 1) takes:
/// the first goes right in right-to-left books and left otherwise, and the
/// sides alternate from there.
pub open spec fn spread(right_to_left: bool, i: nat) -> Seq<char> {
    if (i % 2 == 1) == right_to_left {
        "page-spread-right"@
    } else {
        "page-spread-left"@
    }
}

/// The spine item of the page at index `i` (from 1).
pub open spec fn spine_item(right_to_left: bool, i: nat) -> Seq<char> {
    SPINE_PAGE@ + decimal(i + 1) + SPINE_PROPS@ + spread(right_to_left, i) + TAG_END@
}

/// The spine items of the pages at indices `1..n`: the first page is shown
/// by the cover, which comes first.
pub open spec fn spine_items(right_to_left: bool, n: nat) -> Seq<char>
    decreases n,
{
    if n <= 1 {
        Seq::empty()
    } else {
        spine_items(right_to_left, (n - 1) as nat) + spine_item(right_to_left, (n - 1) as nat)
    }
}

/// The spine: the cover in the center, then the pages.
pub open spec fn spine_text(right_to_left: bool, n: nat) -> Seq<char> {
    SPINE_COVER@ + spine_items(right_to_left, n)
}

fn spine_string(right_to_left: bool, n: usize) -> (r: String)
    requires
        n < usize::MAX,
    ensures
        r@ == spine_text(right_to_left, n as nat),
{
    let mut s = SPINE_COVER.to_owned();
    let ghost head = s@;
    let mut right = right_to_left;
    let mut i: usize = 1;
    while i < n
        invariant
            n < usize::MAX,
            1 <= i,
            i <= n || i == 1,
            right == ((i % 2 == 1) == right_to_left),
            s@ == head + spine_items(right_to_left, i as nat),
        decreases n - i,
    {
        let ghost before = s@;
        let side = if right { "page-spread-right" } else { "page-spread-left" };
        push_str(&mut s, SPINE_PAGE);
        push_decimal(&mut s, i as u64 + 1);
        push_str(&mut s, SPINE_PROPS);
        push_str(&mut s, side);
        push_str(&mut s, TAG_END);
        proof {
            assert(s@ =~= before + spine_item(right_to_left, i as nat));
            assert(spine_items(right_to_left, (i + 1) as nat) == spine_items(right_to_left, i as nat)
                + spine_item(right_to_left, i as nat));
        }
        right = !right;
        i += 1;
    }
    proof {
        if n <= 1 {
            assert(spine_items(right_to_left, n as nat) =~= Seq::<char>::empty());
            assert(spine_items(right_to_left, 1) =~= Seq::<char>::empty());
        }
    }
    s
}

/// How text runs: right to left or left to right.
pub open spec fn writing_mode(right_to_left: bool) -> Seq<char> {
    if right_to_left {
        "horizontal-rl"@
    } else {
        "horizontal-lr"@
    }
}

/// Which way pages turn.
pub open spec fn progression(right_to_left: bool) -> Seq<char> {
    if right_to_left {
        "rtl"@
    } else {
        "ltr"@
    }
}

/// The package document of a book titled `title` for a screen of
/// `width` x `height`, whose images are encoded as `fs`.
pub open spec fn opf_text(
    title: Seq<char>,
    uuid: Seq<char>,
    width: nat,
    height: nat,
    right_to_left: bool,
    fs: Seq<ImageFormat>,
) -> Seq<char> {
    OPF_HEAD@ + title + OPF_IDENTIFIER@ + uuid + OPF_RESOLUTION@ + decimal(width) + OPF_BY@
        + decimal(height) + OPF_WRITING_MODE@ + writing_mode(right_to_left) + OPF_MANIFEST@
        + manifest_text(fs) + OPF_SPINE@ + progression(right_to_left) + OPF_SPINE_ITEMS@
        + spine_text(right_to_left, fs.len()) + OPF_TAIL@
}

/// `content.opf`, the package document: metadata for a fixed-layout comic
/// on a screen of `dimensions`, the manifest of every file, and the spine
/// with alternating page spreads.
pub fn content_opf(
    title: &str,
    uuid: &str,
    dimensions: (u32, u32),
    right_to_left: bool,
    images: &[ProcessedImage],
) -> (r: String)
    requires
        images@.len() < usize::MAX,
    ensures
        r@ == opf_text(
            title@,
            uuid@,
            dimensions.0 as nat,
            dimensions.1 as nat,
            right_to_left,
            formats_of(images@),
        ),
{
    let manifest = manifest_string(images);
    let spine = spine_string(right_to_left, images.len());
    let mut s = OPF_HEAD.to_owned();
    push_str(&mut s, title);
    push_str(&mut s, OPF_IDENTIFIER);
    push_str(&mut s, uuid);
    push_str(&mut s, OPF_RESOLUTION);
    push_decimal(&mut s, dimensions.0 as u64);
    push_str(&mut s, OPF_BY);
    push_decimal(&mut s, dimensions.1 as u64);
    push_str(&mut s, OPF_WRITING_MODE);
    push_str(&mut s, if right_to_left { "horizontal-rl" } else { "horizontal-lr" });
    push_str(&mut s, OPF_MANIFEST);
    push_str(&mut s, manifest.as_str());
    push_str(&mut s, OPF_SPINE);
    push_str(&mut s, if right_to_left { "rtl" } else { "ltr" });
    push_str(&mut s, OPF_SPINE_ITEMS);
    push_str(&mut s, spine.as_str());
    push_str(&mut s, OPF_TAIL);
    proof {
        assert(formats_of(images@).len() == images@.len());
    }
    s
}

/// Text as `Uuid`'s `Display` writes it: 36 characters, hyphens at 8, 13,
/// 18 and 23, lowercase hexadecimal digits elsewhere.
pub open spec fn is_uuid_text(s: Seq<char>) -> bool {
    &&& s.len() == 36
    &&& forall|i: int|
        0 <= i < 36 ==> if i == 8 || i == 13 || i == 18 || i == 23 {
            #[trigger] s[i] == '-'
        } else {
            ('0' as int <= s[i] as int <= '9' as int) || ('a' as int <= s[i] as int <= 'f' as int)
        }
}

/// A fresh random identifier (`uuid::Uuid::new_v4`, written with
/// `to_string`). Which one comes out is chance; its form is fixed.
#[verifier::external_body]
fn new_uuid() -> (r: String)
    ensures
        is_uuid_text(r@),
{
    uuid::Uuid::new_v4().to_string()
}

/// A text file of the package, compressed.
pub open spec fn text_file(name: Seq<char>, text: Seq<char>) -> (Seq<char>, Seq<u8>, bool) {
    (name, encode_utf8(text), false)
}

/// The document of each page, showing its image at the image's size.
pub open spec fn page_documents(images: Seq<ProcessedImage>) -> Seq<(Seq<char>, Seq<u8>, bool)> {
    Seq::new(
        images.len(),
        |i: int|
            text_file(
                "OEBPS/"@ + page_file((i + 1) as nat),
                page_text(
                    (i + 1) as nat,
                    image_href((i + 1) as nat),
                    images[i].dimensions.0 as nat,
                    images[i].dimensions.1 as nat,
                ),
            ),
    )
}

/// Each image, stored as it is under `OEBPS/Images/`.
pub open spec fn image_files(images: Seq<ProcessedImage>) -> Seq<(Seq<char>, Seq<u8>, bool)> {
    Seq::new(
        images.len(),
        |i: int| ("OEBPS/"@ + image_href((i + 1) as nat), images[i].data@, true),
    )
}

/// The first files of the EPUB: `mimetype` first and stored (as the format
/// demands), then the container, the package document and the cover.
pub open spec fn leading_files(
    title: Seq<char>,
    opf_uuid: Seq<char>,
    width: nat,
    height: nat,
    right_to_left: bool,
    images: Seq<ProcessedImage>,
) -> Seq<(Seq<char>, Seq<u8>, bool)> {
    seq![
        ("mimetype"@, encode_utf8(MIMETYPE@), true),
        text_file("META-INF/container.xml"@, CONTAINER_XML@),
        text_file(
            "OEBPS/content.opf"@,
            opf_text(title, opf_uuid, width, height, right_to_left, formats_of(images)),
        ),
        text_file("OEBPS/cover.html"@, cover_page_text(image_href(1))),
    ]
}

/// The files of the EPUB, in order: the leading files, the pages, the
/// navigation file, then the images, stored.
pub open spec fn epub_files(
    title: Seq<char>,
    toc_uuid: Seq<char>,
    opf_uuid: Seq<char>,
    width: nat,
    height: nat,
    right_to_left: bool,
    images: Seq<ProcessedImage>,
) -> Seq<(Seq<char>, Seq<u8>, bool)> {
    leading_files(title, opf_uuid, width, height, right_to_left, images) + page_documents(images)
        + seq![text_file("OEBPS/toc.ncx"@, toc_text(title, toc_uuid, images.len()))]
        + image_files(images)
}

fn text_entry(name: String, text: &str) -> (r: ArchiveEntry)
    ensures
        entry_view(r) == text_file(name@, text@),
{
    let data = slice_to_vec(text.as_bytes());
    ArchiveEntry { name, data, compression: Compression::Deflated }
}

fn oebps_path(name: &String) -> (r: String)
    ensures
        r@ == "OEBPS/"@ + name@,
{
    let mut s = "OEBPS/".to_owned();
    push_str(&mut s, name.as_str());
    s
}

/// The files of the EPUB of `images` for a book titled `title`, shown on a
/// screen of `dimensions`; `toc_uuid` and `opf_uuid` identify the book in
/// its navigation file and its package document.
pub fn epub_entries(
    title: &str,
    toc_uuid: &str,
    opf_uuid: &str,
    dimensions: (u32, u32),
    right_to_left: bool,
    images: &[ProcessedImage],
) -> (r: Vec<ArchiveEntry>)
    requires
        images@.len() < usize::MAX,
    ensures
        entries_view(r@) == epub_files(
            title@,
            toc_uuid@,
            opf_uuid@,
            dimensions.0 as nat,
            dimensions.1 as nat,
            right_to_left,
            images@,
        ),
{
    let n = images.len();
    let mut r: Vec<ArchiveEntry> = Vec::new();
    r.push(ArchiveEntry {
        name: "mimetype".to_owned(),
        data: slice_to_vec(MIMETYPE.as_bytes()),
        compression: Compression::Stored,
    });
    r.push(text_entry("META-INF/container.xml".to_owned(), CONTAINER_XML));
    let opf = content_opf(title, opf_uuid, dimensions, right_to_left, images);
    r.push(text_entry("OEBPS/content.opf".to_owned(), opf.as_str()));
    let mut cover_src = String::new();
    push_image_href(&mut cover_src, 1);
    let cover = cover_page(cover_src.as_str());
    r.push(text_entry("OEBPS/cover.html".to_owned(), cover.as_str()));
    let ghost head = entries_view(r@);
    proof {
        assert(head =~= leading_files(
            title@,
            opf_uuid@,
            dimensions.0 as nat,
            dimensions.1 as nat,
            right_to_left,
            images@,
        ));
    }
    let mut i: usize = 0;
    while i < n
        invariant
            n == images@.len() < usize::MAX,
            i <= n,
            entries_view(r@) == head + page_documents(images@).take(i as int),
        decreases n - i,
    {
        let ghost before = r@;
        let mut name = String::new();
        push_page_file(&mut name, i as u64 + 1);
        let mut src = String::new();
        push_image_href(&mut src, i as u64 + 1);
        let dims = images[i].dimensions;
        let page = page_html(i as u64 + 1, src.as_str(), dims.0, dims.1);
        let e = text_entry(oebps_path(&name), page.as_str());
        r.push(e);
        proof {
            assert(r@ =~= before.push(e));
            assert(entries_view(r@) =~= entries_view(before).push(entry_view(e)));
            assert(page_documents(images@).take(i + 1) =~= page_documents(images@).take(
                i as int,
            ).push(page_documents(images@)[i as int]));
        }
        i += 1;
    }
    let toc = toc_ncx(title, toc_uuid, n);
    let ghost before_toc = r@;
    let toc_entry = text_entry("OEBPS/toc.ncx".to_owned(), toc.as_str());
    r.push(toc_entry);
    let ghost middle = entries_view(r@);
    proof {
        assert(page_documents(images@).take(n as int) =~= page_documents(images@));
        assert(r@ =~= before_toc.push(toc_entry));
        assert(middle =~= head + page_documents(images@) + seq![
            text_file("OEBPS/toc.ncx"@, toc_text(title@, toc_uuid@, n as nat)),
        ]);
    }
    let mut k: usize = 0;
    while k < n
        invariant
            n == images@.len() < usize::MAX,
            k <= n,
            entries_view(r@) == middle + image_files(images@).take(k as int),
        decreases n - k,
    {
        let ghost before = r@;
        let mut href = String::new();
        push_image_href(&mut href, k as u64 + 1);
        let data = images[k].data.clone();
        proof {
            assert(data@ =~= images@[k as int].data@);
        }
        let e = ArchiveEntry { name: oebps_path(&href), data, compression: Compression::Stored };
        r.push(e);
        proof {
            assert(r@ =~= before.push(e));
            assert(entries_view(r@) =~= entries_view(before).push(entry_view(e)));
            assert(image_files(images@).take(k + 1) =~= image_files(images@).take(k as int).push(
                image_files(images@)[k as int],
            ));
        }
        k += 1;
    }
    proof {
        assert(image_files(images@).take(n as int) =~= image_files(images@));
        assert(entries_view(r@) =~= epub_files(
            title@,
            toc_uuid@,
            opf_uuid@,
            dimensions.0 as nat,
            dimensions.1 as nat,
            right_to_left,
            images@,
        ));
    }
    r
}

/// Why an EPUB could not be built.
#[derive(Debug, Clone, Copy, PartialEq, Eq)]
pub enum EpubError {
    /// There is no page to make a cover of.
    NoImages,
    /// The zip archive could not be written.
    Pack(PackError),
}

/// Each text file of the EPUB of these pages (every file but `mimetype`
/// and the images, which are stored) holds at most `deflate_limit()` bytes,
/// whatever identifiers the book gets.
pub open spec fn epub_texts_fit(
    title: Seq<char>,
    width: nat,
    height: nat,
    right_to_left: bool,
    images: Seq<ProcessedImage>,
) -> bool {
    forall|toc_uuid: Seq<char>, opf_uuid: Seq<char>, k: int|
        #![trigger epub_files(title, toc_uuid, opf_uuid, width, height, right_to_left, images)[k]]
        is_uuid_text(toc_uuid) && is_uuid_text(opf_uuid) && 0 <= k < epub_files(
            title,
            toc_uuid,
            opf_uuid,
            width,
            height,
            right_to_left,
            images,
        ).len() && !epub_files(title, toc_uuid, opf_uuid, width, height, right_to_left, images)[k].2
            ==> epub_files(title, toc_uuid, opf_uuid, width, height, right_to_left, images)[k].1.len()
            <= deflate_limit()
}

/// Every page holds at most `u32::MAX` bytes, the most a stored zip entry
/// holds.
pub open spec fn pages_fit(images: Seq<ProcessedImage>) -> bool {
    forall|i: int| 0 <= i < images.len() ==> #[trigger] images[i].data@.len() <= u32::MAX
}

/// When the pages and the text files fit, the zip writer takes every file
/// of the EPUB.
pub proof fn epub_files_are_packable(
    title: Seq<char>,
    toc_uuid: Seq<char>,
    opf_uuid: Seq<char>,
    width: nat,
    height: nat,
    right_to_left: bool,
    images: Seq<ProcessedImage>,
)
    requires
        is_uuid_text(toc_uuid),
        is_uuid_text(opf_uuid),
        pages_fit(images),
        epub_texts_fit(title, width, height, right_to_left, images),
    ensures
        packable(epub_files(title, toc_uuid, opf_uuid, width, height, right_to_left, images)),
{
    let files = epub_files(title, toc_uuid, opf_uuid, width, height, right_to_left, images);
    let lead = leading_files(title, opf_uuid, width, height, right_to_left, images);
    let n = images.len() as int;
    let toc = seq![text_file("OEBPS/toc.ncx"@, toc_text(title, toc_uuid, images.len()))];
    epub_file_names_are_distinct(title, toc_uuid, opf_uuid, width, height, right_to_left, images);
    assert(files == lead + page_documents(images) + toc + image_files(images));
    assert forall|k: int| 0 <= k < files.len() implies #[trigger] entry_fits(files[k]) by {
        if k == 0 {
            reveal_strlit("application/epub+zip");
            lemma_utf8_len(MIMETYPE@);
        } else if 5 + n <= k {
            assert(files[k] == image_files(images)[k - 5 - n]);
            assert(images[k - 5 - n].data@.len() <= u32::MAX);
        } else {
            if 4 <= k < 4 + n {
                assert(files[k] == page_documents(images)[k - 4]);
            } else if k == 4 + n {
                assert(files[k] == toc[0]);
            } else {
                assert(files[k] == lead[k]);
            }
            assert(!files[k].2);
            assert(files[k].1.len() <= deflate_limit());
        }
    }
}

/// The lengths of the fixed texts the EPUB's files are made of.
proof fn lemma_text_lengths()
    ensures
        CONTAINER_XML@.len() == 251,
        COVER_HEAD@.len() == 355,
        COVER_TAIL@.len() == 40,
        PAGE_HEAD@.len() == 162,
        PAGE_WIDTH@.len() == 48,
        PAGE_HEIGHT@.len() == 9,
        PAGE_IMAGE@.len() == 111,
        PAGE_TAIL@.len() == 28,
        TOC_HEAD@.len() == 150,
        TOC_TITLE@.len() == 172,
        TOC_NAV@.len() == 30,
        TOC_TAIL@.len() == 18,
        OPF_HEAD@.len() == 263,
        OPF_IDENTIFIER@.len() == 105,
        OPF_RESOLUTION@.len() == 228,
        OPF_BY@.len() == 1,
        OPF_WRITING_MODE@.len() == 112,
        OPF_MANIFEST@.len() == 512,
        OPF_SPINE@.len() == 67,
        OPF_SPINE_ITEMS@.len() == 2,
        OPF_TAIL@.len() == 27,
        NAV_COVER@.len() == 145,
        NAV_ID@.len() == 27,
        NAV_ORDER@.len() == 13,
        NAV_LABEL@.len() == 30,
        NAV_SRC@.len() == 39,
        NAV_END@.len() == 20,
        MANIFEST_NCX@.len() == 74,
        MANIFEST_COVER@.len() == 81,
        ITEM_PAGE@.len() == 18,
        ITEM_HREF@.len() == 8,
        ITEM_XHTML@.len() == 39,
        ITEM_COVER_IMAGE@.len() == 33,
        ITEM_MEDIA@.len() == 14,
        ITEM_COVER_END@.len() == 29,
        ITEM_IMAGE@.len() == 19,
        TAG_END@.len() == 4,
        SPINE_COVER@.len() == 66,
        SPINE_PAGE@.len() == 24,
        SPINE_PROPS@.len() == 14,
        "page"@.len() == 4,
        ".html"@.len() == 5,
        "Images/image"@.len() == 12,
        ".jpg"@.len() == 4,
        "image/png"@.len() == 9,
        "image/jpeg"@.len() == 10,
        "page-spread-right"@.len() == 17,
        "page-spread-left"@.len() == 16,
        "horizontal-rl"@.len() == 13,
        "horizontal-lr"@.len() == 13,
        "rtl"@.len() == 3,
        "ltr"@.len() == 3,
{
    reveal_strlit("<?xml version=\"1.0\" encoding=\"UTF-8\"?>\n<container xmlns=\"urn:oasis:names:tc:opendocument:xmlns:container\" version=\"1.0\">\n  <rootfiles>\n    <rootfile full-path=\"OEBPS/content.opf\" media-type=\"application/oebps-package+xml\"/>\n  </rootfiles>\n</container>");
    reveal_strlit("<?xml version=\"1.0\" encoding=\"UTF-8\"?>\n<!DOCTYPE html>\n<html xmlns=\"http://www.w3.org/1999/xhtml\" xmlns:epub=\"http://www.idpf.org/2007/ops\">\n<head>\n  <title>Cover</title>\n  <meta name=\"viewport\" content=\"width=device-width, height=device-height, initial-scale=1.0, maximum-scale=1.0, user-scalable=no\"/>\n</head>\n<body>\n  <div class=\"cover\">\n    <img src=\"");
    reveal_strlit("\" alt=\"Cover\"/>\n  </div>\n</body>\n</html>");
    reveal_strlit("<?xml version=\"1.0\" encoding=\"UTF-8\"?>\n<!DOCTYPE html>\n<html xmlns=\"http://www.w3.org/1999/xhtml\" xmlns:epub=\"http://www.idpf.org/2007/ops\">\n<head>\n  <title>Page ");
    reveal_strlit("</title>\n  <meta name=\"viewport\" content=\"width=");
    reveal_strlit(", height=");
    reveal_strlit(", initial-scale=1.0, maximum-scale=1.0, user-scalable=no\"/>\n</head>\n<body>\n  <div class=\"image\">\n    <img src=\"");
    reveal_strlit("\"/>\n  </div>\n</body>\n</html>");
    reveal_strlit("<?xml version=\"1.0\" encoding=\"UTF-8\"?>\n<ncx xmlns=\"http://www.daisy.org/z3986/2005/ncx/\" version=\"2005-1\">\n  <head>\n    <meta name=\"dtb:uid\" content=\"");
    reveal_strlit("\"/>\n    <meta name=\"dtb:depth\" content=\"1\"/>\n    <meta name=\"dtb:totalPageCount\" content=\"0\"/>\n    <meta name=\"dtb:maxPageNumber\" content=\"0\"/>\n  </head>\n  <docTitle><text>");
    reveal_strlit("</text></docTitle>\n  <navMap>\n");
    reveal_strlit("  </navMap>\n</ncx>");
    reveal_strlit("<?xml version=\"1.0\" encoding=\"UTF-8\"?>\n        <package version=\"3.0\" unique-identifier=\"BookID\" xmlns=\"http://www.idpf.org/2007/opf\">\n          <metadata xmlns:opf=\"http://www.idpf.org/2007/opf\" xmlns:dc=\"http://purl.org/dc/elements/1.1/\">\n            <dc:title>");
    reveal_strlit("</dc:title>\n            <dc:language>en-US</dc:language>\n            <dc:identifier id=\"BookID\">urn:uuid:");
    reveal_strlit("</dc:identifier>\n            <dc:creator>comically</dc:creator>\n            <meta name=\"cover\" content=\"cover-image\"/>\n            <meta name=\"fixed-layout\" content=\"true\"/>\n            <meta name=\"original-resolution\" content=\"");
    reveal_strlit("x");
    reveal_strlit("\"/>\n            <meta name=\"book-type\" content=\"comic\"/>\n            <meta name=\"primary-writing-mode\" content=\"");
    reveal_strlit("\"/>\n            <meta name=\"zero-gutter\" content=\"true\"/>\n            <meta name=\"zero-margin\" content=\"true\"/>\n            <meta name=\"ke-border-color\" content=\"#FFFFFF\"/>\n            <meta name=\"ke-border-width\" content=\"0\"/>\n            <meta name=\"orientation-lock\" content=\"none\"/>\n            <meta name=\"region-mag\" content=\"true\"/>\n            <meta property=\"rendition:spread\">landscape</meta>\n            <meta property=\"rendition:layout\">pre-paginated</meta>\n          </metadata>\n          <manifest>");
    reveal_strlit("</manifest>\n          <spine toc=\"ncx\" page-progression-direction=\"");
    reveal_strlit("\">");
    reveal_strlit("</spine>\n        </package>");
    reveal_strlit("    <navPoint id=\"navpoint-cover\" playOrder=\"1\">\n      <navLabel><text>Cover</text></navLabel>\n      <content src=\"cover.html\"/>\n    </navPoint>\n");
    reveal_strlit("    <navPoint id=\"navpoint-");
    reveal_strlit("\" playOrder=\"");
    reveal_strlit("\">\n      <navLabel><text>Page ");
    reveal_strlit("</text></navLabel>\n      <content src=\"");
    reveal_strlit("\"/>\n    </navPoint>\n");
    reveal_strlit("    <item id=\"ncx\" href=\"toc.ncx\" media-type=\"application/x-dtbncx+xml\"/>\n");
    reveal_strlit("    <item id=\"cover-html\" href=\"cover.html\" media-type=\"application/xhtml+xml\"/>\n");
    reveal_strlit("    <item id=\"page");
    reveal_strlit("\" href=\"");
    reveal_strlit("\" media-type=\"application/xhtml+xml\"/>\n");
    reveal_strlit("    <item id=\"cover-image\" href=\"");
    reveal_strlit("\" media-type=\"");
    reveal_strlit("\" properties=\"cover-image\"/>\n");
    reveal_strlit("    <item id=\"image");
    reveal_strlit("\"/>\n");
    reveal_strlit("    <itemref idref=\"cover-html\" properties=\"page-spread-center\"/>\n");
    reveal_strlit("    <itemref idref=\"page");
    reveal_strlit("\" properties=\"");
    reveal_strlit("page");
    reveal_strlit(".html");
    reveal_strlit("Images/image");
    reveal_strlit(".jpg");
    reveal_strlit("image/png");
    reveal_strlit("image/jpeg");
    reveal_strlit("page-spread-right");
    reveal_strlit("page-spread-left");
    reveal_strlit("horizontal-rl");
    reveal_strlit("horizontal-lr");
    reveal_strlit("rtl");
    reveal_strlit("ltr");
}

/// A number below 10^20 takes at most 20 digits, padded or not.
proof fn lemma_short_number(x: nat)
    requires
        x < 100000000000000000000nat,
    ensures
        decimal(x).len() <= 20,
        zero_padded(x, 3).len() <= 20,
{
    assert(pow10(20) == 100000000000000000000nat) by {
        reveal_with_fuel(pow10, 21);
    }
    lemma_decimal_len(x, 20);
}

/// The texts about one page stay short.
proof fn lemma_item_lengths(i: nat, f: ImageFormat, right_to_left: bool)
    requires
        i + 2 < 100000000000000000000nat,
    ensures
        page_file(i + 1).len() <= 29,
        image_href(i + 1).len() <= 36,
        nav_point(i).len() <= 250,
        page_item(i).len() <= 120,
        image_item(i, f).len() <= 130,
        spine_item(right_to_left, i).len() <= 80,
{
    lemma_text_lengths();
    lemma_short_number(i);
    lemma_short_number(i + 1);
    lemma_short_number(i + 2);
}

/// The navigation points of `n` pages take at most 250 characters each,
/// after the cover's.
proof fn lemma_nav_points_length(n: nat)
    requires
        n + 2 < 100000000000000000000nat,
    ensures
        nav_points(n).len() <= 145 + 250 * n,
    decreases n,
{
    lemma_text_lengths();
    if n > 0 {
        lemma_nav_points_length((n - 1) as nat);
        lemma_item_lengths((n - 1) as nat, ImageFormat::Png { compression: PngCompression::Fast }, false);
    }
}

/// The manifest items of `n` pages take at most 120 characters each.
proof fn lemma_page_items_length(n: nat)
    requires
        n + 2 < 100000000000000000000nat,
    ensures
        page_items(n).len() <= 120 * n,
    decreases n,
{
    if n > 0 {
        lemma_page_items_length((n - 1) as nat);
        lemma_item_lengths((n - 1) as nat, ImageFormat::Png { compression: PngCompression::Fast }, false);
    }
}

/// The manifest items of the images take at most 130 characters each.
proof fn lemma_image_items_length(fs: Seq<ImageFormat>)
    requires
        fs.len() + 2 < 100000000000000000000nat,
    ensures
        image_items(fs).len() <= 130 * fs.len(),
    decreases fs.len(),
{
    if fs.len() > 0 {
        lemma_image_items_length(fs.drop_last());
        lemma_item_lengths((fs.len() - 1) as nat, fs.last(), false);
    }
}

/// The spine items of `n` pages take at most 80 characters each.
proof fn lemma_spine_items_length(right_to_left: bool, n: nat)
    requires
        n + 2 < 100000000000000000000nat,
    ensures
        spine_items(right_to_left, n).len() <= 80 * n,
    decreases n,
{
    if n > 1 {
        lemma_spine_items_length(right_to_left, (n - 1) as nat);
        lemma_item_lengths((n - 1) as nat, ImageFormat::Png { compression: PngCompression::Fast }, right_to_left);
    }
}

/// Every text file of a book of at most 2^18 pages whose title has at most
/// 2^20 characters fits the compressor's bound: so such a book, with every
/// page at most `u32::MAX` bytes, is always written.
pub proof fn small_books_fit(
    title: Seq<char>,
    width: u32,
    height: u32,
    right_to_left: bool,
    images: Seq<ProcessedImage>,
)
    requires
        title.len() <= 0x10_0000,
        images.len() <= 0x4_0000,
    ensures
        epub_texts_fit(title, width as nat, height as nat, right_to_left, images),
{
    let n = images.len();
    lemma_text_lengths();
    lemma_short_number(width as nat);
    lemma_short_number(height as nat);
    lemma_nav_points_length(n);
    lemma_page_items_length(n);
    lemma_image_items_length(formats_of(images));
    lemma_spine_items_length(right_to_left, n);
    lemma_item_lengths(0, ImageFormat::Png { compression: PngCompression::Fast }, false);
    assert forall|toc_uuid: Seq<char>, opf_uuid: Seq<char>, k: int|
        is_uuid_text(toc_uuid) && is_uuid_text(opf_uuid) && 0 <= k < epub_files(
            title,
            toc_uuid,
            opf_uuid,
            width as nat,
            height as nat,
            right_to_left,
            images,
        ).len() && !epub_files(title, toc_uuid, opf_uuid, width as nat, height as nat, right_to_left, images)[k].2
        implies #[trigger] epub_files(title, toc_uuid, opf_uuid, width as nat, height as nat, right_to_left, images)[k].1.len()
        <= deflate_limit() by {
        let files = epub_files(title, toc_uuid, opf_uuid, width as nat, height as nat, right_to_left, images);
        let lead = leading_files(title, opf_uuid, width as nat, height as nat, right_to_left, images);
        let toc = seq![text_file("OEBPS/toc.ncx"@, toc_text(title, toc_uuid, n))];
        assert(files == lead + page_documents(images) + toc + image_files(images));
        assert(formats_of(images).len() == n);
        let text: Seq<char> = if k == 1 {
            CONTAINER_XML@
        } else if k == 2 {
            opf_text(title, opf_uuid, width as nat, height as nat, right_to_left, formats_of(images))
        } else if k == 3 {
            cover_page_text(image_href(1))
        } else if 4 <= k < 4 + n {
            page_text(
                (k - 3) as nat,
                image_href((k - 3) as nat),
                images[k - 4].dimensions.0 as nat,
                images[k - 4].dimensions.1 as nat,
            )
        } else {
            toc_text(title, toc_uuid, n)
        };
        if k == 0 {
            assert(files[k] == lead[k]);
        } else if k < 4 {
            assert(files[k] == lead[k]);
            assert(files[k].1 == encode_utf8(text));
        } else if k < 4 + n {
            assert(files[k] == page_documents(images)[k - 4]);
            lemma_item_lengths((k - 4) as nat, ImageFormat::Png { compression: PngCompression::Fast }, false);
            lemma_short_number(images[k - 4].dimensions.0 as nat);
            lemma_short_number(images[k - 4].dimensions.1 as nat);
            lemma_short_number((k - 3) as nat);
            assert(files[k].1 == encode_utf8(text));
        } else if k == 4 + n {
            assert(files[k] == toc[0]);
            assert(files[k].1 == encode_utf8(text));
        } else {
            assert(files[k] == image_files(images)[k - 5 - n]);
        }
        if 1 <= k <= 4 + n {
            assert(text.len() <= 0x1000_0000);
            lemma_utf8_len(text);
        }
    }
}

/// The EPUB of `images` for `comic`, laid out for the configured device
/// and reading direction. Fails with `NoImages` exactly when there are no
/// pages (the first page is the cover). Otherwise the book gets two fresh
/// identifiers, and the bytes are the zip archive of `epub_files` of the
/// comic's title and those identifiers; they are always made when every page
/// fits a zip entry and every text file fits the compressor's bound, which
/// holds of every book of at most 2^18 pages whose title has at most 2^20
/// characters (`small_books_fit`).
pub fn build_epub(comic: &Comic, config: &ComicConfig, images: &[ProcessedImage]) -> (r: Result<
    Vec<u8>,
    EpubError,
>)
    requires
        images@.len() < usize::MAX,
    ensures
        r == Err::<Vec<u8>, EpubError>(EpubError::NoImages) <==> images@.len() == 0,
        images@.len() > 0 && pages_fit(images@) && epub_texts_fit(
            comic.title@,
            config.device.dimensions.0 as nat,
            config.device.dimensions.1 as nat,
            config.right_to_left,
            images@,
        ) ==> r is Ok,
        0 < images@.len() <= 0x4_0000 && comic.title@.len() <= 0x10_0000 && pages_fit(images@)
            ==> r is Ok,
        r matches Ok(b) ==> exists|toc_uuid: Seq<char>, opf_uuid: Seq<char>|
            #![trigger epub_files(comic.title@, toc_uuid, opf_uuid, config.device.dimensions.0 as nat, config.device.dimensions.1 as nat, config.right_to_left, images@)]
            is_uuid_text(toc_uuid) && is_uuid_text(opf_uuid) && b@ == zip_archive_bytes(
                epub_files(
                    comic.title@,
                    toc_uuid,
                    opf_uuid,
                    config.device.dimensions.0 as nat,
                    config.device.dimensions.1 as nat,
                    config.right_to_left,
                    images@,
                ),
            ),
{
    if images.len() == 0 {
        return Err(EpubError::NoImages);
    }
    let toc_uuid = new_uuid();
    let opf_uuid = new_uuid();
    let entries = epub_entries(
        comic.title.as_str(),
        toc_uuid.as_str(),
        opf_uuid.as_str(),
        config.device_dimensions(),
        config.right_to_left,
        images,
    );
    proof {
        let files = epub_files(
            comic.title@,
            toc_uuid@,
            opf_uuid@,
            config.device.dimensions.0 as nat,
            config.device.dimensions.1 as nat,
            config.right_to_left,
            images@,
        );
        lemma_epub_names(
            comic.title@,
            toc_uuid@,
            opf_uuid@,
            config.device.dimensions.0 as nat,
            config.device.dimensions.1 as nat,
            config.right_to_left,
            images@,
            0,
        );
        assert(entries_view(entries@).len() == entries@.len());
        assert forall|i: int| 0 <= i < entries@.len() implies encode_utf8(
            #[trigger] entries@[i].name@,
        ).len() <= 65535 by {
            assert(entries_view(entries@)[i] == entry_view(entries@[i]));
            lemma_epub_names_fit(
                comic.title@,
                toc_uuid@,
                opf_uuid@,
                config.device.dimensions.0 as nat,
                config.device.dimensions.1 as nat,
                config.right_to_left,
                images@,
                i,
            );
        }
    }
    proof {
        if images@.len() <= 0x4_0000 && comic.title@.len() <= 0x10_0000 {
            small_books_fit(
                comic.title@,
                config.device.dimensions.0,
                config.device.dimensions.1,
                config.right_to_left,
                images@,
            );
        }
        if pages_fit(images@) && epub_texts_fit(
            comic.title@,
            config.device.dimensions.0 as nat,
            config.device.dimensions.1 as nat,
            config.right_to_left,
            images@,
        ) {
            epub_files_are_packable(
                comic.title@,
                toc_uuid@,
                opf_uuid@,
                config.device.dimensions.0 as nat,
                config.device.dimensions.1 as nat,
                config.right_to_left,
                images@,
            );
        }
    }
    match write_archive(&entries) {
        Ok(b) => {
            proof {
                let files = epub_files(
                    comic.title@,
                    toc_uuid@,
                    opf_uuid@,
                    config.device.dimensions.0 as nat,
                    config.device.dimensions.1 as nat,
                    config.right_to_left,
                    images@,
                );
                assert(b@ == zip_archive_bytes(files));
            }
            Ok(b)
        },
        Err(e) => Err(EpubError::Pack(e)),
    }
}

/// The EPUB's first file is `mimetype`, stored uncompressed, as readers
/// require.
pub proof fn epub_begins_with_stored_mimetype(
    title: Seq<char>,
    toc_uuid: Seq<char>,
    opf_uuid: Seq<char>,
    width: nat,
    height: nat,
    right_to_left: bool,
    images: Seq<ProcessedImage>,
)
    ensures
        epub_files(title, toc_uuid, opf_uuid, width, height, right_to_left, images)[0] == (
            "mimetype"@,
            encode_utf8(MIMETYPE@),
            true,
        ),
{
}

/// Each page's document shows an image that the EPUB holds: page `i + 1`
/// refers to `image_href(i + 1)`, which is where image `i` lies.
pub proof fn pages_show_packaged_images(images: Seq<ProcessedImage>, i: int)
    requires
        0 <= i < images.len(),
    ensures
        page_documents(images)[i].1 == encode_utf8(
            page_text(
                (i + 1) as nat,
                image_href((i + 1) as nat),
                images[i].dimensions.0 as nat,
                images[i].dimensions.1 as nat,
            ),
        ),
        image_files(images)[i].0 == "OEBPS/"@ + image_href((i + 1) as nat),
        image_files(images)[i].1 == images[i].data@,
{
}

/// Page spreads alternate along the spine, and the first page after the
/// cover sits on the right exactly in right-to-left books.
pub proof fn spreads_alternate(right_to_left: bool, i: nat)
    requires
        i >= 1,
    ensures
        spread(right_to_left, i) != spread(right_to_left, i + 1),
        (spread(right_to_left, 1) == "page-spread-right"@) <==> right_to_left,
{
    reveal_strlit("page-spread-right");
    reveal_strlit("page-spread-left");
    assert("page-spread-right"@.len() != "page-spread-left"@.len());
}

/// Two different numbers, zero-padded between the same text, give
/// different names.
proof fn lemma_numbered_names_differ(pre: Seq<char>, suf: Seq<char>, a: nat, b: nat)
    requires
        a != b,
    ensures
        pre + zero_padded(a, 3) + suf != pre + zero_padded(b, 3) + suf,
{
    zero_padded_reads_back(a, 3);
    zero_padded_reads_back(b, 3);
    let x = pre + zero_padded(a, 3) + suf;
    let y = pre + zero_padded(b, 3) + suf;
    if x == y {
        assert(x.len() == pre.len() + zero_padded(a, 3).len() + suf.len());
        assert(y.len() == pre.len() + zero_padded(b, 3).len() + suf.len());
        assert(zero_padded(a, 3).len() == zero_padded(b, 3).len());
        let lo = pre.len() as int;
        let hi = lo + zero_padded(a, 3).len();
        assert(x.subrange(lo, hi) =~= zero_padded(a, 3));
        assert(y.subrange(lo, hi) =~= zero_padded(b, 3));
    }
}

/// The path inside the EPUB of page `n`'s document.
pub open spec fn page_path(n: nat) -> Seq<char> {
    "OEBPS/"@ + page_file(n)
}

/// The path inside the EPUB of image `n`.
pub open spec fn image_path(n: nat) -> Seq<char> {
    "OEBPS/"@ + image_href(n)
}

proof fn lemma_paths(n: nat)
    ensures
        page_path(n) == "OEBPS/page"@ + zero_padded(n, 3) + ".html"@,
        image_path(n) == "OEBPS/Images/image"@ + zero_padded(n, 3) + ".jpg"@,
        page_path(n)[0] == 'O' && page_path(n)[6] == 'p',
        image_path(n)[0] == 'O' && image_path(n)[6] == 'I',
{
    reveal_strlit("OEBPS/");
    reveal_strlit("page");
    reveal_strlit("OEBPS/page");
    reveal_strlit("Images/image");
    reveal_strlit("OEBPS/Images/image");
    assert(page_path(n) =~= "OEBPS/page"@ + zero_padded(n, 3) + ".html"@);
    assert(image_path(n) =~= "OEBPS/Images/image"@ + zero_padded(n, 3) + ".jpg"@);
}

/// Where each file lies in the EPUB, by its position.
proof fn lemma_epub_names(
    title: Seq<char>,
    toc_uuid: Seq<char>,
    opf_uuid: Seq<char>,
    width: nat,
    height: nat,
    right_to_left: bool,
    images: Seq<ProcessedImage>,
    k: int,
)
    requires
        0 <= k < images.len() * 2 + 5,
    ensures
        ({
            let files = epub_files(title, toc_uuid, opf_uuid, width, height, right_to_left, images);
            let n = images.len() as int;
            &&& files.len() == n * 2 + 5
            &&& k == 0 ==> files[k].0 == "mimetype"@
            &&& k == 1 ==> files[k].0 == "META-INF/container.xml"@
            &&& k == 2 ==> files[k].0 == "OEBPS/content.opf"@
            &&& k == 3 ==> files[k].0 == "OEBPS/cover.html"@
            &&& 4 <= k < 4 + n ==> files[k].0 == page_path((k - 3) as nat)
            &&& k == 4 + n ==> files[k].0 == "OEBPS/toc.ncx"@
            &&& 5 + n <= k ==> files[k].0 == image_path((k - 4 - n) as nat)
        }),
{
    let files = epub_files(title, toc_uuid, opf_uuid, width, height, right_to_left, images);
    let lead = leading_files(title, opf_uuid, width, height, right_to_left, images);
    let n = images.len() as int;
    let toc = seq![text_file("OEBPS/toc.ncx"@, toc_text(title, toc_uuid, images.len()))];
    assert(files == lead + page_documents(images) + toc + image_files(images));
    if 4 <= k < 4 + n {
        assert(files[k] == page_documents(images)[k - 4]);
    } else if k == 4 + n {
        assert(files[k] == toc[0]);
    } else if 5 + n <= k {
        assert(files[k] == image_files(images)[k - 5 - n]);
    } else {
        assert(files[k] == lead[k]);
    }
}

/// No two files of the EPUB have the same path, so the zip writer never
/// refuses one of them as a duplicate.
pub proof fn epub_file_names_are_distinct(
    title: Seq<char>,
    toc_uuid: Seq<char>,
    opf_uuid: Seq<char>,
    width: nat,
    height: nat,
    right_to_left: bool,
    images: Seq<ProcessedImage>,
)
    ensures
        ({
            let files = epub_files(title, toc_uuid, opf_uuid, width, height, right_to_left, images);
            forall|i: int, j: int|
                0 <= i < j < files.len() ==> #[trigger] files[i].0 != #[trigger] files[j].0
        }),
{
    let files = epub_files(title, toc_uuid, opf_uuid, width, height, right_to_left, images);
    let n = images.len() as int;
    reveal_strlit("mimetype");
    reveal_strlit("META-INF/container.xml");
    reveal_strlit("OEBPS/content.opf");
    reveal_strlit("OEBPS/cover.html");
    reveal_strlit("OEBPS/toc.ncx");
    assert(files.len() == n * 2 + 5) by {
        lemma_epub_names(title, toc_uuid, opf_uuid, width, height, right_to_left, images, 0);
    }
    assert forall|i: int, j: int| 0 <= i < j < files.len() implies #[trigger] files[i].0
        != #[trigger] files[j].0 by {
        lemma_epub_names(title, toc_uuid, opf_uuid, width, height, right_to_left, images, i);
        lemma_epub_names(title, toc_uuid, opf_uuid, width, height, right_to_left, images, j);
        lemma_paths((i - 3) as nat);
        lemma_paths((j - 3) as nat);
        lemma_paths((i - 4 - n) as nat);
        lemma_paths((j - 4 - n) as nat);
        if 4 <= i < 4 + n && 4 <= j < 4 + n {
            lemma_numbered_names_differ("OEBPS/page"@, ".html"@, (i - 3) as nat, (j - 3) as nat);
        } else if 5 + n <= i {
            lemma_numbered_names_differ(
                "OEBPS/Images/image"@,
                ".jpg"@,
                (i - 4 - n) as nat,
                (j - 4 - n) as nat,
            );
        } else if i <= 1 {
            assert(files[i].0[0] != files[j].0[0]);
        } else if i == 2 && j == 3 {
            assert(files[i].0[8] != files[j].0[8]);
        } else {
            assert(files[i].0[6] != files[j].0[6]);
        }
    }
}

/// Ten to the power `k`.
pub open spec fn pow10(k: nat) -> nat
    decreases k,
{
    if k == 0 {
        1
    } else {
        10 * pow10((k - 1) as nat)
    }
}

/// A number below `10^k` has at most `k` digits.
proof fn lemma_decimal_len(n: nat, k: nat)
    requires
        k >= 1,
        n < pow10(k),
    ensures
        decimal(n).len() <= k,
    decreases k,
{
    if n >= 10 {
        assert(k >= 2) by {
            if k == 1 {
                assert(pow10(1) == 10 * pow10(0));
            }
        }
        assert(pow10(k) == 10 * pow10((k - 1) as nat));
        lemma_decimal_len(n / 10, (k - 1) as nat);
    }
}

/// UTF-8 takes at most four bytes per character.
proof fn lemma_utf8_len(s: Seq<char>)
    ensures
        encode_utf8(s).len() <= 4 * s.len(),
    decreases s.len(),
{
    if s.len() > 0 {
        lemma_utf8_len(s.drop_first());
    }
}

/// Every path in the EPUB fits a zip entry's name: at most 42 characters,
/// so at most 168 bytes.
proof fn lemma_epub_names_fit(
    title: Seq<char>,
    toc_uuid: Seq<char>,
    opf_uuid: Seq<char>,
    width: nat,
    height: nat,
    right_to_left: bool,
    images: Seq<ProcessedImage>,
    k: int,
)
    requires
        images.len() < usize::MAX,
        0 <= k < images.len() * 2 + 5,
    ensures
        encode_utf8(
            epub_files(title, toc_uuid, opf_uuid, width, height, right_to_left, images)[k].0,
        ).len() <= 65535,
{
    let files = epub_files(title, toc_uuid, opf_uuid, width, height, right_to_left, images);
    let n = images.len() as int;
    lemma_epub_names(title, toc_uuid, opf_uuid, width, height, right_to_left, images, k);
    reveal_strlit("mimetype");
    reveal_strlit("META-INF/container.xml");
    reveal_strlit("OEBPS/content.opf");
    reveal_strlit("OEBPS/cover.html");
    reveal_strlit("OEBPS/toc.ncx");
    reveal_strlit("OEBPS/page");
    reveal_strlit(".html");
    reveal_strlit("OEBPS/Images/image");
    reveal_strlit(".jpg");
    assert(pow10(20) == 100000000000000000000nat) by {
        reveal_with_fuel(pow10, 21);
    }
    let m: nat = if 4 <= k < 4 + n {
        (k - 3) as nat
    } else if 5 + n <= k {
        (k - 4 - n) as nat
    } else {
        0
    };
    assert(m < pow10(20));
    lemma_decimal_len(m, 20);
    lemma_paths(m);
    assert(zero_padded(m, 3).len() <= 20);
    assert(files[k].0.len() <= 42);
    lemma_utf8_len(files[k].0);
}

} // verus!
