//! Thumbnail derivation: the source image decoded, cover-cropped to the
//! configured size with a high-quality filter, and re-encoded as JPEG.
//! Failures here are surfaced to the worker, which treats the whole step as
//! best-effort.

use vstd::prelude::*;
use vstd::string::*;

verus! {

#[verifier::external_type_specification]
#[verifier::external_body]
pub struct ExDynamicImage(image::DynamicImage);

/// Why no thumbnail was produced.
#[derive(Debug)]
pub enum ThumbnailError {
    /// The source bytes are not a decodable image.
    Decode(String),
    /// The resized image could not be encoded as JPEG.
    Encode(String),
}

impl ThumbnailError {
    /// The error text: what failed, and the codec's own words.
    pub fn message(&self) -> (r: String)
        ensures
            (self matches ThumbnailError::Decode(m) ==> r@ == "thumbnail decode failed: "@ + m@),
            (self matches ThumbnailError::Encode(m) ==> r@ == "thumbnail encode failed: "@ + m@),
    {
        match self {
            ThumbnailError::Decode(m) => {
                let mut s = String::from_str("thumbnail decode failed: ");
                s.append(m.as_str());
                s
            },
            ThumbnailError::Encode(m) => {
                let mut s = String::from_str("thumbnail encode failed: ");
                s.append(m.as_str());
                s
            },
        }
    }
}

/// Whether the byte sequence decodes as an image under the supported
/// formats; a function of the bytes alone.
pub uninterp spec fn decodes_as_image(bytes: Seq<u8>) -> bool;

/// Relies on `image::load_from_memory`: decodes the bytes with a guessed
/// format, deterministically in the bytes, or reports why it cannot.
#[verifier::external_body]
fn decode_image(bytes: &[u8]) -> (r: Result<image::DynamicImage, String>)
    ensures
        r is Ok <==> decodes_as_image(bytes@),
{
    image::load_from_memory(bytes).map_err(|e| e.to_string())
}

/// Relies on `image::DynamicImage::resize_to_fill`: a cover crop of the
/// requested size, using the Lanczos3 filter.
#[verifier::external_body]
fn resize_cover(img: &image::DynamicImage, width: u32, height: u32) -> (r: image::DynamicImage) {
    img.resize_to_fill(width, height, image::imageops::FilterType::Lanczos3)
}

/// Relies on `image::DynamicImage::write_to`: encodes the image as JPEG
/// into a fresh buffer.
#[verifier::external_body]
fn encode_jpeg(img: &image::DynamicImage) -> (r: Result<Vec<u8>, String>) {
    let mut buffer = std::io::Cursor::new(Vec::new());
    match img.write_to(&mut buffer, image::ImageFormat::Jpeg) {
        Ok(()) => Ok(buffer.into_inner()),
        Err(e) => Err(e.to_string()),
    }
}

/// Derives the thumbnail bytes for one capture: decode, cover-crop to
/// `width` by `height`, re-encode as JPEG.  A decode failure comes exactly
/// on bytes that are no image; an encode failure can only follow a
/// successful decode.  What the JPEG encoder emits on a given image is the
/// codec's own work and stays unstated.
pub fn generate_thumbnail(bytes: &[u8], width: u32, height: u32) -> (r: Result<
    Vec<u8>,
    ThumbnailError,
>)
    ensures
        (r matches Err(e) && e matches ThumbnailError::Decode(_)) <==> !decodes_as_image(bytes@),
        (r matches Err(e) && e matches ThumbnailError::Encode(_)) ==> decodes_as_image(bytes@),
        r is Ok ==> decodes_as_image(bytes@),
{
    let img = match decode_image(bytes) {
        Ok(i) => i,
        Err(m) => { return Err(ThumbnailError::Decode(m)) },
    };
    let thumb = resize_cover(&img, width, height);
    match encode_jpeg(&thumb) {
        Ok(b) => Ok(b),
        Err(m) => Err(ThumbnailError::Encode(m)),
    }
}

} // verus!
