//! Turning a captured screencast payload (base64 of a PNG) into a frame.
use vstd::prelude::*;
use crate::frame::{valid_frame, Frame};

verus! {

/// Why a captured payload gives no frame.
#[derive(Clone, Copy, Debug, PartialEq, Eq, Structural)]
pub enum CaptureError {
    /// The payload is not standard base64.
    InvalidBase64,
    /// The decoded bytes are not a PNG image.
    InvalidImage,
    /// The image is empty, larger than a frame can be, or of the wrong size.
    UnsupportedSize,
}

/// The bytes that standard base64 text decodes to, if it is valid.
pub uninterp spec fn base64_decoded(text: Seq<char>) -> Option<Seq<u8>>;

/// Width, height and RGBA pixels of a PNG file, if it decodes.
pub uninterp spec fn png_rgba(data: Seq<u8>) -> Option<(u32, u32, Seq<u8>)>;

/// Relies on `base64::Engine::decode` with the standard engine.
#[verifier::external_body]
fn decode_base64(text: &str) -> (r: Option<Vec<u8>>)
    ensures
        r is Some <==> base64_decoded(text@) is Some,
        r matches Some(v) ==> base64_decoded(text@) == Some(v@),
{
    base64::Engine::decode(&base64::engine::general_purpose::STANDARD, text).ok()
}

/// Relies on `image::load_from_memory_with_format` as PNG, then
/// `DynamicImage::to_rgba8` and `ImageBuffer::into_raw`.
#[verifier::external_body]
fn decode_png(data: &[u8]) -> (r: Option<(u32, u32, Vec<u8>)>)
    ensures
        r is Some <==> png_rgba(data@) is Some,
        r matches Some((w, h, px)) ==> png_rgba(data@) == Some((w, h, px@)),
{
    match image::load_from_memory_with_format(data, image::ImageFormat::Png) {
        Ok(img) => {
            let rgba = img.to_rgba8();
            Some((rgba.width(), rgba.height(), rgba.into_raw()))
        },
        Err(_) => None,
    }
}

/// The frame that decoded image data make, given as width, height and RGBA
/// pixels.
pub fn frame_from_rgba(width: u32, height: u32, pixels: Vec<u8>) -> (r: Result<Frame, CaptureError>)
    ensures
        valid_frame(width, height, pixels@.len() as int) ==> (r matches Ok(f) && f.width == width
            && f.height == height && f.pixels@ == pixels@),
        !valid_frame(width, height, pixels@.len() as int) ==> r == Err::<Frame, CaptureError>(
            CaptureError::UnsupportedSize,
        ),
{
    match Frame::new(width, height, pixels) {
        Some(f) => Ok(f),
        None => Err(CaptureError::UnsupportedSize),
    }
}

/// The frame of a screencast payload: base64 text of a PNG image.
pub fn decode_capture(payload: &str) -> (r: Result<Frame, CaptureError>)
    ensures
        base64_decoded(payload@) is None ==> r == Err::<Frame, CaptureError>(
            CaptureError::InvalidBase64,
        ),
        base64_decoded(payload@) matches Some(bytes) ==> match png_rgba(bytes) {
            None => r == Err::<Frame, CaptureError>(CaptureError::InvalidImage),
            Some((w, h, px)) => if valid_frame(w, h, px.len() as int) {
                (r matches Ok(f) && f.width == w && f.height == h && f.pixels@ == px)
            } else {
                r == Err::<Frame, CaptureError>(CaptureError::UnsupportedSize)
            },
        },
{
    let bytes = match decode_base64(payload) {
        Some(b) => b,
        None => return Err(CaptureError::InvalidBase64),
    };
    match decode_png(bytes.as_slice()) {
        Some((w, h, px)) => frame_from_rgba(w, h, px),
        None => Err(CaptureError::InvalidImage),
    }
}

} // verus!
