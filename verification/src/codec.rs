//! Decoding pages from archive bytes and encoding processed pages, through
//! the `image` codecs that `imageproc` re-exports.

use vstd::prelude::*;
use crate::gray::GrayImage;
use crate::settings::PngCompression;
use imageproc::image::ImageEncoder;

verus! {

/// `image::ImageError`, the error of decoding and encoding.
#[verifier::external_type_specification]
#[verifier::external_body]
pub struct ExImageError(imageproc::image::ImageError);

/// Why a page could not be decoded or encoded.
#[derive(Debug, Clone, Copy, PartialEq, Eq, Structural)]
pub enum CodecError {
    /// The bytes are not an image the codecs read.
    Decode,
    /// The encoder failed.
    Encode,
}

/// The image that these file bytes hold, converted to 8-bit grayscale, as
/// (width, height, pixels row by row); `None` when no decoder of `image`
/// reads them. Decoding is integer arithmetic on the bytes alone: where the
/// JPEG decoder takes a SIMD path (inverse DCT, upsampling, colour
/// conversion), it computes the same integer formulas as the scalar path,
/// and the decoder's tests compare the two.
pub uninterp spec fn decoded_luma(bytes: Seq<u8>) -> Option<(u32, u32, Seq<u8>)>;

/// `image::load_from_memory` followed by `into_luma8`: it fails exactly when
/// `decoded_luma` has no image for the bytes, and otherwise gives that
/// image, one byte per pixel.
#[verifier::external_body]
fn load_luma8(bytes: &[u8]) -> (r: Result<(u32, u32, Vec<u8>), imageproc::image::ImageError>)
    ensures
        r is Ok <==> decoded_luma(bytes@) is Some,
        r matches Ok((w, h, data)) ==> (w, h, data@) == decoded_luma(bytes@)->0,
        r matches Ok((w, h, data)) ==> data@.len() == w as int * h as int && w as int * h as int
            <= usize::MAX,
{
    let img = imageproc::image::load_from_memory(bytes)?.into_luma8();
    let (w, h) = img.dimensions();
    Ok((w, h, img.into_raw()))
}

/// The JPEG file that `image`'s encoder writes for a `width` x `height`
/// grayscale image with these pixels (row by row) at this quality. The
/// encoder is plain Rust with no code path chosen by the machine, so the bytes
/// depend on these values alone.
pub uninterp spec fn jpeg_encoding(width: u32, height: u32, pixels: Seq<u8>, quality: u8) -> Seq<u8>;

/// `JpegEncoder::new_with_quality(..).encode_image(..)` on a grayscale
/// image, writing into memory: it succeeds exactly when both sides are
/// between 1 and 65535 pixels (larger or empty images are refused as
/// `InvalidSize`; writing into a `Vec` cannot fail), and gives the
/// `jpeg_encoding` of the image. The encoder clamps the quality to 1..=100.
#[verifier::external_body]
fn encode_jpeg(width: u32, height: u32, data: Vec<u8>, quality: u8) -> (r: Result<
    Vec<u8>,
    imageproc::image::ImageError,
>)
    requires
        data@.len() == width as int * height as int,
    ensures
        r is Ok <==> (1 <= width <= 65535 && 1 <= height <= 65535),
        r matches Ok(b) ==> b@ == jpeg_encoding(width, height, data@, quality),
{
    let img = imageproc::image::GrayImage::from_raw(width, height, data).unwrap();
    let mut out: Vec<u8> = Vec::new();
    let mut encoder = imageproc::image::codecs::jpeg::JpegEncoder::new_with_quality(
        &mut out,
        quality,
    );
    encoder.encode_image(&img)?;
    Ok(out)
}

/// A 32-bit number as four big-endian bytes.
pub open spec fn be32(x: u32) -> Seq<u8> {
    seq![
        (x / 16777216) as u8,
        ((x / 65536) % 256) as u8,
        ((x / 256) % 256) as u8,
        (x % 256) as u8,
    ]
}

/// How every PNG file of an 8-bit grayscale `width` x `height` image
/// begins: the PNG signature, then the IHDR chunk's length (13), its type,
/// the width and height, bit depth 8, colour type 0 (grayscale), and
/// compression, filter and interlace methods 0.
pub open spec fn png_header(width: u32, height: u32) -> Seq<u8> {
    seq![137u8, 80, 78, 71, 13, 10, 26, 10, 0, 0, 0, 13, 73, 72, 68, 82] + be32(width) + be32(
        height,
    ) + seq![8u8, 0, 0, 0, 0]
}

/// The PNG file that `image`'s encoder writes for a `width` x `height`
/// grayscale image with these pixels (row by row), with adaptive filtering
/// and this compression effort. The filters and the deflate compressors
/// (`fdeflate`, and `flate2` over `miniz_oxide`) are plain Rust with no code
/// path chosen by the machine, so the bytes depend on these values alone.
pub uninterp spec fn png_encoding(width: u32, height: u32, pixels: Seq<u8>, compression: PngCompression) -> Seq<u8>;

/// `PngEncoder::new_with_quality(.., compression, FilterType::Adaptive)`
/// writing a grayscale image into memory: it succeeds exactly when neither
/// side is 0 (the `png` crate refuses a zero width or height; writing into a
/// `Vec` cannot fail), gives the `png_encoding` of the image, and the file
/// begins with the `png_header` of the image's size.
#[verifier::external_body]
fn encode_png(width: u32, height: u32, data: &[u8], compression: PngCompression) -> (r: Result<
    Vec<u8>,
    imageproc::image::ImageError,
>)
    requires
        data@.len() == width as int * height as int,
    ensures
        r is Ok <==> (width >= 1 && height >= 1),
        r matches Ok(b) ==> b@ == png_encoding(width, height, data@, compression),
        r matches Ok(b) ==> b@.len() >= 29 && b@.subrange(0, 29) == png_header(width, height),
{
    let level = match compression {
        PngCompression::Fast => imageproc::image::codecs::png::CompressionType::Fast,
        PngCompression::Default => imageproc::image::codecs::png::CompressionType::Default,
        PngCompression::Best => imageproc::image::codecs::png::CompressionType::Best,
    };
    let mut out: Vec<u8> = Vec::new();
    let encoder = imageproc::image::codecs::png::PngEncoder::new_with_quality(
        &mut out,
        level,
        imageproc::image::codecs::png::FilterType::Adaptive,
    );
    encoder.write_image(data, width, height, imageproc::image::ExtendedColorType::L8)?;
    Ok(out)
}

/// The page an archive entry's bytes hold, in grayscale: the image that
/// `decoded_luma` finds in the bytes, and `Decode` when there is none.
pub fn decode_gray(bytes: &[u8]) -> (r: Result<GrayImage, CodecError>)
    ensures
        r is Ok <==> decoded_luma(bytes@) is Some,
        r matches Ok(img) ==> img.wf() && (img.w() as u32, img.h() as u32, img.raw())
            == decoded_luma(bytes@)->0,
        r matches Err(e) ==> e == CodecError::Decode,
{
    match load_luma8(bytes) {
        Ok((w, h, data)) => {
            Ok(GrayImage::from_raw_parts(w, h, data))
        },
        Err(_) => Err(CodecError::Decode),
    }
}

/// The page encoded as JPEG of the given quality: the `jpeg_encoding` of
/// its pixels, which succeeds exactly when both sides are between 1 and
/// 65535 pixels.
pub fn compress_to_jpeg(img: &GrayImage, quality: u8) -> (r: Result<Vec<u8>, CodecError>)
    requires
        img.wf(),
    ensures
        r is Ok <==> (1 <= img.w() <= 65535 && 1 <= img.h() <= 65535),
        r matches Ok(b) ==> b@ == jpeg_encoding(img.w() as u32, img.h() as u32, img.raw(), quality),
        r matches Err(e) ==> e == CodecError::Encode,
{
    proof {
        img.lemma_shape();
    }
    match encode_jpeg(img.width(), img.height(), img.as_raw().clone(), quality) {
        Ok(bytes) => Ok(bytes),
        Err(_) => Err(CodecError::Encode),
    }
}

/// The page encoded as PNG with the given compression effort: the
/// `png_encoding` of its pixels, which begins with the `png_header` of the
/// page's size and is made exactly when neither side is 0.
pub fn compress_to_png(img: &GrayImage, compression: PngCompression) -> (r: Result<
    Vec<u8>,
    CodecError,
>)
    requires
        img.wf(),
    ensures
        r is Ok <==> (img.w() >= 1 && img.h() >= 1),
        r matches Ok(b) ==> b@ == png_encoding(img.w() as u32, img.h() as u32, img.raw(), compression),
        r matches Ok(b) ==> b@.len() >= 29 && b@.subrange(0, 29) == png_header(
            img.w() as u32,
            img.h() as u32,
        ),
        r matches Err(e) ==> e == CodecError::Encode,
{
    proof {
        img.lemma_shape();
    }
    match encode_png(img.width(), img.height(), img.as_raw().as_slice(), compression) {
        Ok(bytes) => Ok(bytes),
        Err(_) => Err(CodecError::Encode),
    }
}

} // verus!
