use ummerse::color_code::html_color_code;

/// The channels of a packed `0xRRGGBBAA` code as fractions of 255.
fn channels(code: u32) -> (f32, f32, f32, f32) {
    (
        ((code >> 24) & 0xFF) as f32 / 255.0,
        ((code >> 16) & 0xFF) as f32 / 255.0,
        ((code >> 8) & 0xFF) as f32 / 255.0,
        (code & 0xFF) as f32 / 255.0,
    )
}

#[test]
fn test_from_html_6() {
    let (r, g, b, a) = channels(html_color_code("#FF8800").unwrap());
    assert!((r - 1.0).abs() < 1e-3);
    assert!((g - 0.533).abs() < 0.01);
    assert!((b - 0.0).abs() < 1e-3);
    assert_eq!(a, 1.0);
}

#[test]
fn test_from_html_3() {
    let (r, _, _, _) = channels(html_color_code("#F80").unwrap());
    assert!((r - 1.0).abs() < 1e-3);
}

#[test]
fn html_color_code_lengths() {
    assert_eq!(html_color_code("#FF8800"), Some(0xFF8800FF));
    assert_eq!(html_color_code("#F80"), Some(0xFF8800FF));
    assert_eq!(html_color_code("#12345678"), Some(0x12345678));
    assert_eq!(html_color_code("abc"), Some(0xAABBCCFF));
    assert_eq!(html_color_code("##abc"), Some(0xAABBCCFF));
    assert_eq!(html_color_code("#12345"), None);
    assert_eq!(html_color_code(""), None);
    assert_eq!(html_color_code("#"), None);
}

#[test]
fn html_color_code_rejects_non_digits() {
    assert_eq!(html_color_code("#GGGGGG"), None);
    assert_eq!(html_color_code("#F8Z"), None);
    assert_eq!(html_color_code("#é1234"), None);
    assert_eq!(html_color_code("#éé"), None);
}

#[test]
fn html_color_code_sign_as_std_reads_it() {
    // `u32::from_str_radix` takes a leading `+`.
    assert_eq!(html_color_code("+FFFFF"), Some(0x0FFFFFFF));
    assert_eq!(html_color_code("+FFFFFFF"), Some(0x0FFFFFFF));
    assert_eq!(html_color_code("#-FFFFF"), None);
    assert_eq!(html_color_code("++F"), None);
}

#[test]
fn html_color_code_three_bytes_non_ascii_is_none() {
    assert_eq!(html_color_code("#€"), None);
    assert_eq!(html_color_code("é1"), None);
}
