//! The closed set of supported image formats and the content-based signature
//! detector that classifies a byte buffer as one of them or rejects it.
//!
//! Detection inspects fixed byte positions of the buffer only; client-supplied
//! labels such as content-type headers are never consulted. A buffer shorter
//! than the longest signature window (12 bytes) is always rejected.

use vstd::prelude::*;

use crate::error::AppError;

verus! {

/// A supported image format, carrying a canonical media type and filename
/// extension. JPEG recognition is limited to the baseline JFIF marker; this
/// is a documented limitation, EXIF-prefixed JPEGs are not recognized.
#[derive(Clone, Copy, Debug, PartialEq, Eq, Structural)]
pub enum ImageType {
    Jpeg,
    Png,
    Webp,
}

/// The canonical media-type string of a format.
pub open spec fn spec_mime(t: ImageType) -> Seq<char> {
    match t {
        ImageType::Jpeg => "image/jpeg"@,
        ImageType::Png => "image/png"@,
        ImageType::Webp => "image/webp"@,
    }
}

/// The canonical filename extension of a format.
pub open spec fn spec_extension(t: ImageType) -> Seq<char> {
    match t {
        ImageType::Jpeg => "jpg"@,
        ImageType::Png => "png"@,
        ImageType::Webp => "webp"@,
    }
}

impl ImageType {
    pub fn to_mime(&self) -> (r: &'static str)
        ensures
            r@ == spec_mime(*self),
    {
        match self {
            ImageType::Jpeg => "image/jpeg",
            ImageType::Png => "image/png",
            ImageType::Webp => "image/webp",
        }
    }

    pub fn extension(&self) -> (r: &'static str)
        ensures
            r@ == spec_extension(*self),
    {
        match self {
            ImageType::Jpeg => "jpg",
            ImageType::Png => "png",
            ImageType::Webp => "webp",
        }
    }
}

/// The number of leading bytes the detector inspects; buffers shorter than
/// this are rejected outright.
pub const SIGNATURE_LEN: usize = 12;

/// PNG: the buffer opens with `89 50 4E 47`.
pub open spec fn is_png_sig(b: Seq<u8>) -> bool {
    b.len() >= 4 && b[0] == 0x89u8 && b[1] == 0x50u8 && b[2] == 0x4eu8 && b[3] == 0x47u8
}

/// JPEG (baseline JFIF only): the buffer opens with `FF D8 FF E0`.
pub open spec fn is_jpeg_sig(b: Seq<u8>) -> bool {
    b.len() >= 4 && b[0] == 0xffu8 && b[1] == 0xd8u8 && b[2] == 0xffu8 && b[3] == 0xe0u8
}

/// WEBP: the buffer opens with `52 49 46 46` ("RIFF") and carries
/// `57 45 42 50` ("WEBP") at bytes 8 through 11.
pub open spec fn is_webp_sig(b: Seq<u8>) -> bool {
    b.len() >= 12 && b[0] == 0x52u8 && b[1] == 0x49u8 && b[2] == 0x46u8 && b[3] == 0x46u8
        && b[8] == 0x57u8 && b[9] == 0x45u8 && b[10] == 0x42u8 && b[11] == 0x50u8
}

/// What the signature detector yields on a buffer: exactly one format, or
/// nothing. A buffer shorter than the 12-byte signature window is never a
/// match.
pub open spec fn spec_detect(b: Seq<u8>) -> Option<ImageType> {
    if b.len() < SIGNATURE_LEN { Option::None }
    else if is_png_sig(b) { Option::Some(ImageType::Png) }
    else if is_jpeg_sig(b) { Option::Some(ImageType::Jpeg) }
    else if is_webp_sig(b) { Option::Some(ImageType::Webp) }
    else { Option::None }
}

/// Classify a byte buffer by its content signature. Pure: no byte outside the
/// fixed signature positions is inspected, and the buffer is not consumed.
/// Unmatched or too-short input is a validation error, never a panic.
pub fn find_imagetype(bytes: &[u8]) -> (r: Result<ImageType, AppError>)
    ensures
        match r {
            Ok(t) => spec_detect(bytes@) == Option::Some(t),
            Err(e) => spec_detect(bytes@) is None && e == AppError::Validation,
        },
{
    if bytes.len() < SIGNATURE_LEN {
        return Err(AppError::Validation);
    }
    if bytes[0] == 0x89 && bytes[1] == 0x50 && bytes[2] == 0x4e && bytes[3] == 0x47 {
        Ok(ImageType::Png)
    } else if bytes[0] == 0xff && bytes[1] == 0xd8 && bytes[2] == 0xff && bytes[3] == 0xe0 {
        Ok(ImageType::Jpeg)
    } else if bytes[0] == 0x52 && bytes[1] == 0x49 && bytes[2] == 0x46 && bytes[3] == 0x46
        && bytes[8] == 0x57 && bytes[9] == 0x45 && bytes[10] == 0x42 && bytes[11] == 0x50 {
        Ok(ImageType::Webp)
    } else {
        Err(AppError::Validation)
    }
}

} // verus!
