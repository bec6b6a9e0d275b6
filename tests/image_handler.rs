use std::path::Path;

use collector::capture::LocalDateTime;
use collector::image_handler::{
    build_markdown_link, check_dropped_file, compress_image, decode_dropped_bytes,
    generate_filename, image_filename_at, is_png_target, is_supported_extension,
    is_supported_image, is_supported_image_path, keep_jpeg_attempt, processed_image, EncodedFormat,
};
use collector::settings::Settings;

#[test]
fn test_generate_filename() {
    let filename = generate_filename("screenshot-YYYY-MM-DD-HHmmss");
    assert!(filename.contains("-"));
    assert!(filename.ends_with(".jpg"));
}

#[test]
fn test_is_supported_image() {
    assert!(is_supported_image(Path::new("test.png")));
    assert!(is_supported_image(Path::new("test.jpg")));
    assert!(is_supported_image(Path::new("test.JPEG")));
    assert!(!is_supported_image(Path::new("test.pdf")));
    assert!(!is_supported_image(Path::new("test.txt")));
}

#[test]
fn extensions_and_dropped_files() {
    assert!(is_supported_extension("WebP"));
    assert!(is_supported_extension("gif"));
    assert!(!is_supported_extension("tiff"));
    assert!(!is_supported_image(Path::new("noext")));
    assert!(is_supported_image_path("dir.v2/shot.GIF"));
    assert!(!is_supported_image_path("dir.png/shot"));
    assert!(!is_supported_image_path(".png"));
    assert!(check_dropped_file("/tmp/a.Png").is_ok());
    assert_eq!(
        check_dropped_file("/tmp/a.doc").unwrap_err(),
        "Unsupported file type. Supported: PNG, JPG, JPEG, WebP, GIF"
    );
    assert!(is_png_target(Path::new("x/y.PNG")));
    assert!(!is_png_target(Path::new("x/y.jpg")));
}

#[test]
fn image_filename_exact() {
    let d = LocalDateTime { year: 2024, month: 12, day: 31, hour: 23, minute: 59, second: 1 };
    assert_eq!(image_filename_at("shot-YYYY-MM-DD-HHmmss", &d), "shot-2024-12-31-235901.jpg");
    assert_eq!(image_filename_at("shot.png", &d), "shot.png");
}

#[test]
fn markdown_links() {
    let mut settings = Settings::default();
    assert_eq!(build_markdown_link("a.jpg", &settings), "![[a.jpg|600]]");
    settings.default_image_width = "  ".to_string();
    assert_eq!(build_markdown_link("a.jpg", &settings), "![[a.jpg]]");
    let p = processed_image("b.jpg".to_string(), "/s/b.jpg".to_string(), &settings);
    assert_eq!(p.markdown, "![[b.jpg]]");
    assert_eq!(p.saved_path, "/s/b.jpg");
    assert_eq!(p.filename, "b.jpg");
}

#[test]
fn base64_bytes_are_decoded() {
    assert_eq!(decode_dropped_bytes("aGVsbG8=").unwrap(), b"hello".to_vec());
    let err = decode_dropped_bytes("@@@").unwrap_err();
    assert!(err.starts_with("Failed to decode base64: "));
}

#[test]
fn jpeg_attempt_rule() {
    assert!(keep_jpeg_attempt(100, 100, 85));
    assert!(!keep_jpeg_attempt(101, 100, 85));
    assert!(!keep_jpeg_attempt(101, 100, 30));
    assert!(keep_jpeg_attempt(101, 100, 25));
}

#[test]
fn compression_fits_budget() {
    let img = image::DynamicImage::new_rgb8(64, 64);
    let png = compress_image(&img, true, 200).unwrap();
    assert_eq!(png.format, EncodedFormat::Png);
    assert!(png.bytes.len() <= 200 * 1024);
    assert_eq!(png.png_size, Some(png.bytes.len()));
    assert!(png.jpeg_sizes.is_empty());
    let jpg = compress_image(&img, false, 200).unwrap();
    assert_eq!(jpg.format, EncodedFormat::Jpeg);
    assert_eq!(jpg.quality, 85);
    assert_eq!(jpg.jpeg_sizes, vec![jpg.bytes.len()]);
    assert_eq!(jpg.png_size, None);
    assert_eq!(&jpg.bytes[0..2], &[0xFF, 0xD8]);
}

#[test]
fn compression_steps_quality_down_until_kept() {
    let mut img = image::RgbImage::new(256, 256);
    for (x, y, p) in img.enumerate_pixels_mut() {
        let v = ((x * 7919 + y * 104729) ^ (x * y)) as u8;
        *p = image::Rgb([v, v.wrapping_mul(3), v.wrapping_add(x as u8)]);
    }
    let img = image::DynamicImage::ImageRgb8(img);
    let e = compress_image(&img, true, 0).unwrap();
    assert_eq!(e.format, EncodedFormat::Jpeg);
    assert_eq!(e.quality, 25);
    assert_eq!(e.jpeg_sizes.len(), 13);
    assert!(e.png_size.unwrap() > 0);
}
