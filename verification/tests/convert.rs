use png2icns::{build_icns, get_preset_sizes, ConvertError, QualityPreset};

fn sample_image(side: u32) -> image::DynamicImage {
    let mut buf = image::RgbaImage::new(side, side);
    for (x, y, pixel) in buf.enumerate_pixels_mut() {
        *pixel = image::Rgba([(x % 256) as u8, (y % 256) as u8, ((x + y) % 256) as u8, 255]);
    }
    image::DynamicImage::ImageRgba8(buf)
}

#[test]
fn test_standard_preset_produces_six_entries() {
    let img = sample_image(100);
    let sizes = get_preset_sizes(&QualityPreset::Standard);
    let bytes = build_icns(&img, &sizes).unwrap();
    assert!(bytes.len() > 0);

    let family = icns::IconFamily::read(std::io::Cursor::new(&bytes[..])).unwrap();
    let icons = family.available_icons();
    assert_eq!(icons.len(), 6);
    assert!(family.has_icon_with_type(icns::IconType::RGB24_16x16));
    assert!(family.has_icon_with_type(icns::IconType::RGB24_32x32));
    assert!(family.has_icon_with_type(icns::IconType::RGBA32_64x64));
    assert!(family.has_icon_with_type(icns::IconType::RGB24_128x128));
    assert!(family.has_icon_with_type(icns::IconType::RGBA32_256x256));
    assert!(family.has_icon_with_type(icns::IconType::RGBA32_512x512));
}

#[test]
fn test_resample_reaches_requested_dimensions() {
    let img = sample_image(2);
    let bytes = build_icns(&img, &vec![64]).unwrap();
    let family = icns::IconFamily::read(std::io::Cursor::new(&bytes[..])).unwrap();
    let icon = family.get_icon_with_type(icns::IconType::RGBA32_64x64).unwrap();
    assert_eq!(icon.width(), 64);
    assert_eq!(icon.height(), 64);
}

#[test]
fn test_only_unsupported_sizes_is_fatal() {
    let img = sample_image(100);
    let result = build_icns(&img, &vec![999, 1000]);
    assert_eq!(result.unwrap_err(), ConvertError::NoIcons);
}

#[test]
fn test_unsupported_sizes_are_skipped() {
    let img = sample_image(100);
    let bytes = build_icns(&img, &vec![999, 32, 1000]).unwrap();
    let family = icns::IconFamily::read(std::io::Cursor::new(&bytes[..])).unwrap();
    assert_eq!(family.available_icons().len(), 1);
    assert!(family.has_icon_with_type(icns::IconType::RGB24_32x32));
}

#[test]
fn test_repeated_sizes_yield_one_entry() {
    let img = sample_image(100);
    let bytes = build_icns(&img, &vec![16, 16, 32]).unwrap();
    let family = icns::IconFamily::read(std::io::Cursor::new(&bytes[..])).unwrap();
    assert_eq!(family.available_icons().len(), 2);
}

#[test]
fn test_conversion_is_idempotent() {
    let img = sample_image(100);
    let sizes = get_preset_sizes(&QualityPreset::Standard);
    let first = build_icns(&img, &sizes).unwrap();
    let second = build_icns(&img, &sizes).unwrap();
    assert_eq!(first, second);
}
