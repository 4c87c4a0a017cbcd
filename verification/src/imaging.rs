//! Image work done by the `image` crate: decoding to RGBA pixels,
//! resampling, and PNG encoding. Each result is named by the contract of
//! the item that computes it; the library's own pixel logic builds on them.

use image::ImageEncoder;
use vstd::prelude::*;

verus! {

/// Width, height and RGBA pixels (row by row, four bytes each) of the PNG
/// image in `bytes`, or `None` when it cannot be decoded.
pub uninterp spec fn png_rgba(bytes: Seq<u8>) -> Option<(u32, u32, Seq<u8>)>;

/// The PNG file the image crate's encoder writes for an RGBA image, or
/// `None` when encoding fails.
pub uninterp spec fn png_encoded(width: u32, height: u32, raw: Seq<u8>) -> Option<Seq<u8>>;

/// `image::load_from_memory_with_format(.., Png)` then `to_rgba8`: the
/// decoded image as width, height and raw RGBA bytes. The contract names
/// the result (a function of the bytes alone); an RGBA buffer holds four
/// bytes per pixel.
#[verifier::external_body]
pub(crate) fn decode_png_rgba(bytes: &[u8]) -> (r: Result<(u32, u32, Vec<u8>), image::ImageError>)
    ensures
        match r {
            Ok(t) => png_rgba(bytes@) == Some((t.0, t.1, t.2@)) && t.2@.len() == 4 * t.0 * t.1,
            Err(_) => png_rgba(bytes@) is None,
        },
{
    let rgba = image::load_from_memory_with_format(bytes, image::ImageFormat::Png)?.to_rgba8();
    Ok((rgba.width(), rgba.height(), rgba.into_raw()))
}

/// `PngEncoder::write_image` of an RGBA image; an error comes back as its
/// message. The contract names the file written (a function of the image
/// alone). The encoder panics unless the buffer holds four bytes per pixel.
#[verifier::external_body]
pub(crate) fn encode_png_rgba(width: u32, height: u32, raw: &[u8]) -> (r: Result<Vec<u8>, String>)
    requires
        raw@.len() == 4 * width * height,
    ensures
        match r {
            Ok(v) => png_encoded(width, height, raw@) == Some(v@),
            Err(_) => png_encoded(width, height, raw@) is None,
        },
{
    let mut encoded = Vec::new();
    image::codecs::png::PngEncoder::new(&mut encoded)
        .write_image(raw, width, height, image::ExtendedColorType::Rgba8)
        .map_err(|e| e.to_string())?;
    Ok(encoded)
}

/// The RGBA pixels of the image in `bytes` (any supported format), or
/// `None` when it cannot be decoded.
pub uninterp spec fn image_rgba(bytes: Seq<u8>) -> Option<(u32, u32, Seq<u8>)>;

/// `image::load_from_memory` then `to_rgba8`, guessing the format from the
/// bytes. The contract names the result (a function of the bytes alone).
#[verifier::external_body]
pub(crate) fn decode_image_rgba(bytes: &[u8]) -> (r: Option<(u32, u32, Vec<u8>)>)
    ensures
        match r {
            Some(t) => image_rgba(bytes@) == Some((t.0, t.1, t.2@)) && t.2@.len() == 4 * t.0 * t.1,
            None => image_rgba(bytes@) is None,
        },
{
    let rgba = image::load_from_memory(bytes).ok()?.to_rgba8();
    Some((rgba.width(), rgba.height(), rgba.into_raw()))
}

/// The RGBA pixels of an image resampled to 256 by 256 with the Lanczos3
/// filter.
pub uninterp spec fn lanczos_256(width: u32, height: u32, raw: Seq<u8>) -> Seq<u8>;

/// `image::imageops::resize` to 256 by 256 with `FilterType::Lanczos3`. The
/// contract names the pixels (a function of the image alone); the result
/// holds four bytes for each of its pixels. The buffer always fits the
/// stated size, so building the image from it succeeds.
#[verifier::external_body]
pub(crate) fn resize_rgba_256(width: u32, height: u32, raw: Vec<u8>) -> (r: Vec<u8>)
    requires
        raw@.len() == 4 * width * height,
    ensures
        r@ == lanczos_256(width, height, raw@),
        r@.len() == 4 * 256 * 256,
{
    let image = image::RgbaImage::from_raw(width, height, raw).unwrap_or_default();
    image::imageops::resize(&image, 256, 256, image::imageops::FilterType::Lanczos3).into_raw()
}

} // verus!
