use oklabby::{parse_color, parse_colors, ColorError, ColorSpec, OklabText, Rgb8};

fn rgb(r: u8, g: u8, b: u8) -> Result<ColorSpec, ColorError> {
    Ok(ColorSpec::Srgb(Rgb8 { r, g, b }))
}

fn oklab(l: &str, a: &str, b: &str) -> Result<ColorSpec, ColorError> {
    Ok(ColorSpec::Oklab(OklabText { l: l.to_string(), a: a.to_string(), b: b.to_string() }))
}

#[test]
fn short_hex_equals_long_hex() {
    assert_eq!(parse_color("#abc"), parse_color("#aabbcc"));
    assert_eq!(parse_color("#abc"), rgb(0xaa, 0xbb, 0xcc));
}

#[test]
fn long_hex_decodes_each_pair() {
    assert_eq!(parse_color("#0080ff"), rgb(0, 128, 255));
    assert_eq!(parse_color("#000000"), rgb(0, 0, 0));
    assert_eq!(parse_color("#ffffff"), rgb(255, 255, 255));
}

#[test]
fn hash_is_optional_and_case_is_ignored() {
    assert_eq!(parse_color("12AbEf"), rgb(0x12, 0xab, 0xef));
    assert_eq!(parse_color("F0a"), rgb(0xff, 0x00, 0xaa));
}

#[test]
fn wrong_digit_counts_are_rejected() {
    assert_eq!(parse_color("#12"), Err(ColorError::InvalidColorFormat));
    assert_eq!(parse_color("#1234"), Err(ColorError::InvalidColorFormat));
    assert_eq!(parse_color("#1234567"), Err(ColorError::InvalidColorFormat));
    assert_eq!(parse_color(""), Err(ColorError::InvalidColorFormat));
    assert_eq!(parse_color("#"), Err(ColorError::InvalidColorFormat));
}

#[test]
fn non_hex_characters_are_rejected() {
    assert_eq!(parse_color("#ggg"), Err(ColorError::InvalidColorFormat));
    assert_eq!(parse_color("#12345z"), Err(ColorError::InvalidColorFormat));
    assert_eq!(parse_color("##abc"), Err(ColorError::InvalidColorFormat));
    assert_eq!(parse_color("#ab\u{e9}"), Err(ColorError::InvalidColorFormat));
}

#[test]
fn bracketed_triplet_keeps_the_trimmed_numbers() {
    assert_eq!(parse_color("[0.0, 0.5, 1.0]"), oklab("0.0", "0.5", "1.0"));
    assert_eq!(parse_color("[ -0.25 ,1,\t2.5 ]"), oklab("-0.25", "1", "2.5"));
    assert_eq!(parse_color("[1,2,3]"), oklab("1", "2", "3"));
}

#[test]
fn bracketed_with_wrong_element_count_is_rejected() {
    assert_eq!(parse_color("[1,2]"), Err(ColorError::InvalidColorFormat));
    assert_eq!(parse_color("[1,2,3,4]"), Err(ColorError::InvalidColorFormat));
    assert_eq!(parse_color("[]"), Err(ColorError::InvalidColorFormat));
    assert_eq!(parse_color("[,,]"), Err(ColorError::InvalidColorFormat));
}

#[test]
fn bracketed_with_malformed_number_is_rejected() {
    assert_eq!(parse_color("[1.,2,3]"), Err(ColorError::InvalidColorFormat));
    assert_eq!(parse_color("[.5,2,3]"), Err(ColorError::InvalidColorFormat));
    assert_eq!(parse_color("[1,2,x]"), Err(ColorError::InvalidColorFormat));
    assert_eq!(parse_color("[1,- 2,3]"), Err(ColorError::InvalidColorFormat));
    assert_eq!(parse_color("[1,2 3,4]"), Err(ColorError::InvalidColorFormat));
    assert_eq!(parse_color("[1,2,3"), Err(ColorError::InvalidColorFormat));
}

#[test]
fn list_parses_in_order() {
    let inputs = vec!["#000".to_string(), "[0.5, 0, 0]".to_string()];
    assert_eq!(
        parse_colors(&inputs),
        Ok(vec![
            ColorSpec::Srgb(Rgb8 { r: 0, g: 0, b: 0 }),
            ColorSpec::Oklab(OklabText { l: "0.5".to_string(), a: "0".to_string(), b: "0".to_string() }),
        ])
    );
}

#[test]
fn list_with_a_malformed_entry_fails() {
    let inputs = vec!["#000".to_string(), "#12".to_string(), "#fff".to_string()];
    assert_eq!(parse_colors(&inputs), Err(ColorError::InvalidColorFormat));
    assert_eq!(parse_colors(&Vec::new()), Ok(Vec::new()));
}
