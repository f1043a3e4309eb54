use image_vault::error::AppError;
use image_vault::image_type::{find_imagetype, ImageType};

fn png_buffer() -> Vec<u8> {
    vec![0x89, 0x50, 0x4e, 0x47, 0x0d, 0x0a, 0x1a, 0x0a, 0x00, 0x00, 0x00, 0x0d]
}

fn jpeg_buffer() -> Vec<u8> {
    vec![0xff, 0xd8, 0xff, 0xe0, 0x00, 0x10, 0x4a, 0x46, 0x49, 0x46, 0x00, 0x01]
}

fn webp_buffer() -> Vec<u8> {
    vec![0x52, 0x49, 0x46, 0x46, 0x24, 0x00, 0x00, 0x00, 0x57, 0x45, 0x42, 0x50]
}

#[test]
fn png_signature_detected() {
    assert_eq!(find_imagetype(&png_buffer()), Ok(ImageType::Png));
}

#[test]
fn jpeg_jfif_signature_detected() {
    assert_eq!(find_imagetype(&jpeg_buffer()), Ok(ImageType::Jpeg));
}

#[test]
fn webp_signature_detected() {
    assert_eq!(find_imagetype(&webp_buffer()), Ok(ImageType::Webp));
}

#[test]
fn riff_without_webp_marker_rejected() {
    let mut buf = webp_buffer();
    buf[8] = 0x41;
    assert_eq!(find_imagetype(&buf), Err(AppError::Validation));
}

#[test]
fn all_zero_buffer_rejected() {
    assert_eq!(find_imagetype(&[0u8; 12]), Err(AppError::Validation));
}

#[test]
fn truncated_buffer_rejected_even_with_valid_prefix() {
    let buf = vec![0x89, 0x50, 0x4e, 0x47];
    assert_eq!(find_imagetype(&buf), Err(AppError::Validation));
}

#[test]
fn empty_buffer_rejected() {
    assert_eq!(find_imagetype(&[]), Err(AppError::Validation));
}

#[test]
fn eleven_bytes_rejected_twelve_accepted() {
    let buf = png_buffer();
    assert_eq!(find_imagetype(&buf[..11]), Err(AppError::Validation));
    assert_eq!(find_imagetype(&buf[..12]), Ok(ImageType::Png));
}

#[test]
fn exif_prefixed_jpeg_not_recognized() {
    // Documented limitation: only the baseline JFIF marker is recognized.
    let buf = vec![0xff, 0xd8, 0xff, 0xe1, 0x00, 0x10, 0x45, 0x78, 0x69, 0x66, 0x00, 0x00];
    assert_eq!(find_imagetype(&buf), Err(AppError::Validation));
}

#[test]
fn mime_and_extension_per_format() {
    assert_eq!(ImageType::Png.to_mime(), "image/png");
    assert_eq!(ImageType::Jpeg.to_mime(), "image/jpeg");
    assert_eq!(ImageType::Webp.to_mime(), "image/webp");
    assert_eq!(ImageType::Png.extension(), "png");
    assert_eq!(ImageType::Jpeg.extension(), "jpg");
    assert_eq!(ImageType::Webp.extension(), "webp");
}
