use png2icns::{size_to_icon_type, IconType};

#[test]
fn test_size_to_icon_type() {
    assert_eq!(size_to_icon_type(16), Some(IconType::RGB24_16x16));
    assert_eq!(size_to_icon_type(32), Some(IconType::RGB24_32x32));
    assert_eq!(size_to_icon_type(64), Some(IconType::RGBA32_64x64));
    assert_eq!(size_to_icon_type(999), None);
}

#[test]
fn test_size_to_icon_type_full_table() {
    assert_eq!(size_to_icon_type(128), Some(IconType::RGB24_128x128));
    assert_eq!(size_to_icon_type(256), Some(IconType::RGBA32_256x256));
    assert_eq!(size_to_icon_type(512), Some(IconType::RGBA32_512x512));
    assert_eq!(size_to_icon_type(0), None);
    assert_eq!(size_to_icon_type(48), None);
    assert_eq!(size_to_icon_type(1024), None);
}
