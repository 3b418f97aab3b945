use vmui::capture::{bgra_pixels_to_rgba, capture_artifact, encode_capture_artifact, rgba_pixels_to_rgb};
use vmui::protocol::CaptureFormat;

fn two_by_one_bgra() -> Vec<u8> {
    vec![10, 20, 30, 0, 40, 50, 60, 7]
}

#[test]
fn bgra_pixels_become_opaque_rgba() {
    assert_eq!(bgra_pixels_to_rgba(&two_by_one_bgra()), vec![30, 20, 10, 255, 60, 50, 40, 255]);
}

#[test]
fn trailing_partial_pixel_is_dropped() {
    assert_eq!(bgra_pixels_to_rgba(&vec![1, 2, 3, 4, 5, 6]), vec![3, 2, 1, 255]);
    assert_eq!(rgba_pixels_to_rgb(&vec![1, 2, 3, 4, 5]), vec![1, 2, 3]);
}

#[test]
fn rgba_pixels_lose_alpha() {
    assert_eq!(rgba_pixels_to_rgb(&vec![30, 20, 10, 255, 60, 50, 40, 255]), vec![30, 20, 10, 60, 50, 40]);
}

#[test]
fn png_capture_is_a_png_artifact() {
    let artifact = encode_capture_artifact(2, 1, &two_by_one_bgra(), CaptureFormat::Png).unwrap();
    assert_eq!(artifact.kind, "screenshot-png");
    assert_eq!(artifact.mime_type, "image/png");
    assert_eq!(&artifact.bytes[..8], &[137, 80, 78, 71, 13, 10, 26, 10]);
}

#[test]
fn jpeg_capture_is_a_jpeg_artifact() {
    let artifact = encode_capture_artifact(2, 1, &two_by_one_bgra(), CaptureFormat::Jpeg).unwrap();
    assert_eq!(artifact.kind, "screenshot-jpeg");
    assert_eq!(artifact.mime_type, "image/jpeg");
    assert_eq!(&artifact.bytes[..2], &[0xFF, 0xD8]);
}

#[test]
fn jpeg_refuses_oversized_capture() {
    let pixels = vec![0u8; 70_000 * 4];
    let err = encode_capture_artifact(70_000, 1, &pixels, CaptureFormat::Jpeg).unwrap_err();
    assert_eq!(err, "failed to encode JPEG screenshot");
}

#[test]
fn refused_encodings_name_their_format() {
    assert_eq!(capture_artifact(CaptureFormat::Png, None).unwrap_err(), "failed to encode PNG screenshot");
    assert_eq!(capture_artifact(CaptureFormat::Jpeg, None).unwrap_err(), "failed to encode JPEG screenshot");
    let ok = capture_artifact(CaptureFormat::Png, Some(vec![1, 2])).unwrap();
    assert_eq!(ok.bytes, vec![1, 2]);
}
