use elleven::{render_thumbnail, thumbnail_size, CodecError};

fn png_bytes(width: u32, height: u32) -> Vec<u8> {
    let img = image::RgbaImage::from_pixel(width, height, image::Rgba([200, 40, 90, 255]));
    let mut out = std::io::Cursor::new(Vec::new());
    img.write_to(&mut out, image::ImageFormat::Png).unwrap();
    out.into_inner()
}

#[test]
fn landscape_scales_to_width() {
    assert_eq!(thumbnail_size(4000, 2000, 256), Ok((256, 128)));
}

#[test]
fn portrait_scales_to_height() {
    assert_eq!(thumbnail_size(2000, 4000, 256), Ok((128, 256)));
}

#[test]
fn square_scales_to_target() {
    assert_eq!(thumbnail_size(1000, 1000, 256), Ok((256, 256)));
}

#[test]
fn short_side_rounds_to_nearest() {
    // 3 * 2 / 4 = 1.5 rounds up to 2
    assert_eq!(thumbnail_size(4, 2, 3), Ok((3, 2)));
    // 256 * 3 / 1000 = 0.768 rounds to 1
    assert_eq!(thumbnail_size(1000, 3, 256), Ok((256, 1)));
    // 256 * 333 / 1000 = 85.248 rounds to 85
    assert_eq!(thumbnail_size(1000, 333, 256), Ok((256, 85)));
}

#[test]
fn short_side_is_at_least_one() {
    assert_eq!(thumbnail_size(1000, 1, 256), Ok((256, 1)));
    assert_eq!(thumbnail_size(1, 100000, 64), Ok((1, 64)));
}

#[test]
fn upscaling_keeps_longer_side_at_target() {
    assert_eq!(thumbnail_size(10, 5, 256), Ok((256, 128)));
}

#[test]
fn largest_sides() {
    assert_eq!(thumbnail_size(u32::MAX, u32::MAX, u32::MAX), Ok((u32::MAX, u32::MAX)));
    assert_eq!(thumbnail_size(u32::MAX, 1, 256), Ok((256, 1)));
}

#[test]
fn degenerate_geometry_is_resize_error() {
    assert!(matches!(thumbnail_size(0, 100, 256), Err(CodecError::Resize(_))));
    assert!(matches!(thumbnail_size(100, 0, 256), Err(CodecError::Resize(_))));
    assert!(matches!(thumbnail_size(100, 100, 0), Err(CodecError::Resize(_))));
}

#[test]
fn render_produces_webp_of_scaled_size() {
    let t = render_thumbnail(&png_bytes(40, 20), 16).unwrap();
    assert_eq!((t.width, t.height), (16, 8));
    assert!(!t.bytes.is_empty());
    let back = image::load_from_memory(&t.bytes).unwrap();
    assert_eq!((back.width(), back.height()), (16, 8));
    assert_eq!(image::guess_format(&t.bytes).unwrap(), image::ImageFormat::WebP);
}

#[test]
fn render_portrait_source() {
    let t = render_thumbnail(&png_bytes(20, 40), 16).unwrap();
    assert_eq!((t.width, t.height), (8, 16));
}

#[test]
fn render_corrupt_source_is_decode_error() {
    let r = render_thumbnail(b"definitely not an image", 16);
    assert!(matches!(r, Err(CodecError::Decode(_))));
}

#[test]
fn render_zero_target_is_resize_error() {
    let r = render_thumbnail(&png_bytes(4, 4), 0);
    assert!(matches!(r, Err(CodecError::Resize(_))));
}

#[test]
fn error_descriptions_are_not_empty() {
    assert_eq!(CodecError::Decode(String::new()).describe(), "decode error: ");
    assert_eq!(CodecError::Encode("disk full".to_string()).describe(), "encode error: disk full");
    assert_eq!(CodecError::Resize("x".to_string()).describe(), "resize error: x");
}

#[test]
fn render_single_pixel_source_succeeds() {
    let t = render_thumbnail(&png_bytes(1, 1), 3).unwrap();
    assert_eq!((t.width, t.height), (3, 3));
    assert!(!t.bytes.is_empty());
    let back = image::load_from_memory(&t.bytes).unwrap();
    assert_eq!((back.width(), back.height()), (3, 3));
}
