use base64::Engine;
use roblox_browser::capture::{decode_capture, frame_from_rgba, CaptureError};

fn png_base64(width: u32, height: u32) -> String {
    let mut img = image::RgbaImage::new(width, height);
    img.put_pixel(width - 1, 0, image::Rgba([10, 20, 30, 40]));
    let mut bytes = std::io::Cursor::new(Vec::new());
    img.write_to(&mut bytes, image::ImageFormat::Png).unwrap();
    base64::engine::general_purpose::STANDARD.encode(bytes.into_inner())
}

#[test]
fn capture_decodes_to_rgba_frame() {
    let f = decode_capture(&png_base64(3, 2)).unwrap();
    assert_eq!((f.width, f.height), (3, 2));
    assert_eq!(f.pixels.len(), 3 * 2 * 4);
    assert_eq!(&f.pixels[8..12], &[10, 20, 30, 40]);
}

#[test]
fn capture_rejects_bad_base64() {
    assert_eq!(decode_capture("not base64!").err(), Some(CaptureError::InvalidBase64));
}

#[test]
fn capture_rejects_non_png() {
    assert_eq!(decode_capture("AAECAw==").err(), Some(CaptureError::InvalidImage));
}

#[test]
fn oversized_image_is_rejected() {
    assert_eq!(
        frame_from_rgba(40000, 1, vec![0; 40000 * 4]).err(),
        Some(CaptureError::UnsupportedSize)
    );
}
