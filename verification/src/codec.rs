//! Decoding image bytes into a raw RGBA8 pixel buffer.
//!
//! The decode itself is done by the `image` crate; its result is named by
//! the uninterpreted function [`decoded_rgba`], since spelling out every
//! supported image format here would restate the codec.

use vstd::prelude::*;

verus! {

/// A decoded image: `width * height` pixels, row-major, four bytes
/// (red, green, blue, alpha) per pixel.
pub struct DecodedImage {
    pub width: u32,
    pub height: u32,
    pub pixels: Vec<u8>,
}

/// Why an asset could not be turned into a texture.
#[derive(Debug, PartialEq, Eq, Structural)]
pub enum AssetError {
    /// The fetched bytes are not a supported image.
    DecodeFailed,
}

/// What the image codec yields on a given byte stream: `None` where the
/// bytes are not an image the codec accepts, otherwise the width, the
/// height and the RGBA8 pixel buffer of the decoded image.
pub uninterp spec fn decoded_rgba(bytes: Seq<u8>) -> Option<(u32, u32, Seq<u8>)>;

/// Relies on `image::load_from_memory` and `image::DynamicImage::to_rgba8`:
/// decoding is a function of the input bytes alone, and the raw buffer of a
/// `width` by `height` RGBA8 image holds exactly `4 * width * height` bytes.
#[verifier::external_body]
pub(crate) fn decode_rgba(bytes: &Vec<u8>) -> (r: Result<DecodedImage, AssetError>)
    ensures
        r is Ok <==> decoded_rgba(bytes@) is Some,
        (r matches Ok(img) ==> decoded_rgba(bytes@) == Some((img.width, img.height, img.pixels@))
            && img.pixels@.len() == 4 * (img.width as nat) * (img.height as nat)),
{
    match image::load_from_memory(bytes.as_slice()) {
        Ok(decoded) => {
            let rgba = decoded.to_rgba8();
            let (width, height) = rgba.dimensions();
            Ok(DecodedImage { width, height, pixels: rgba.into_raw() })
        },
        Err(_) => Err(AssetError::DecodeFailed),
    }
}

} // verus!
