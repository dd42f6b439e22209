use png2icns::{get_preset_sizes, parse_custom_sizes, QualityPreset};

#[test]
fn test_parse_custom_sizes() {
    let result = parse_custom_sizes("16,32,64").unwrap();
    assert_eq!(result, vec![16, 32, 64]);
}

#[test]
fn test_preset_sizes() {
    let basic = get_preset_sizes(&QualityPreset::Basic);
    assert!(basic.contains(&16));
    assert!(basic.contains(&512));

    let standard = get_preset_sizes(&QualityPreset::Standard);
    assert!(standard.contains(&512));
    assert!(!standard.contains(&1024)); // 1024 is no longer supported
}

#[test]
fn test_preset_sizes_exact() {
    assert_eq!(get_preset_sizes(&QualityPreset::Basic), vec![16, 32, 128, 256, 512]);
    assert_eq!(get_preset_sizes(&QualityPreset::Standard), vec![16, 32, 64, 128, 256, 512]);
    assert_eq!(
        get_preset_sizes(&QualityPreset::Full),
        get_preset_sizes(&QualityPreset::Standard)
    );
}

#[test]
fn test_parse_tolerates_whitespace() {
    assert_eq!(parse_custom_sizes("16, 32").unwrap(), vec![16, 32]);
    assert_eq!(parse_custom_sizes("  99 ,\t100 ").unwrap(), vec![99, 100]);
    // the full Unicode White_Space set is trimmed, as str::trim does
    assert_eq!(parse_custom_sizes("16,\u{000B}32").unwrap(), vec![16, 32]);
    assert_eq!(parse_custom_sizes("\u{00A0}16\u{3000},\u{2009}32\u{0085}").unwrap(), vec![16, 32]);
}

#[test]
fn test_parse_plus_sign_and_extremes() {
    assert_eq!(parse_custom_sizes("+16").unwrap(), vec![16]);
    assert_eq!(parse_custom_sizes("4294967295").unwrap(), vec![4294967295]);
}

#[test]
fn test_parse_rejects_bad_token() {
    let err = parse_custom_sizes("16,x,64").unwrap_err();
    assert_eq!(err.token, "x");
}

#[test]
fn test_parse_rejects_empty_and_overflow() {
    assert_eq!(parse_custom_sizes("").unwrap_err().token, "");
    assert_eq!(parse_custom_sizes("16,,64").unwrap_err().token, "");
    assert_eq!(parse_custom_sizes("4294967296").unwrap_err().token, "4294967296");
    assert_eq!(parse_custom_sizes("16, -3").unwrap_err().token, " -3");
}
