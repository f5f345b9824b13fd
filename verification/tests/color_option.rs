use screen_flash::parse_flash_color;
use screen_flash::FlashColor;

const FORMAT: &str = "color must be in RRGGBB or r,g,b format";
const RANGE: &str = "each r,g,b value must be between 0 and 255";

#[test]
fn parses_hex_color() {
    assert_eq!(
        parse_flash_color("112233").unwrap(),
        FlashColor {
            red: 0x11,
            green: 0x22,
            blue: 0x33,
        }
    );
}

#[test]
fn parses_rgb_color() {
    assert_eq!(
        parse_flash_color("12, 34, 56").unwrap(),
        FlashColor {
            red: 12,
            green: 34,
            blue: 56,
        }
    );
}

#[test]
fn color_rejects_invalid_color() {
    assert!(parse_flash_color("fff").is_err());
    assert!(parse_flash_color("#aabbcc").is_err());
    assert!(parse_flash_color("#zzzzzz").is_err());
    assert!(parse_flash_color("1,2").is_err());
    assert!(parse_flash_color("256,0,0").is_err());
}

#[test]
fn readme_hex_and_decimal_forms_agree() {
    let hex = parse_flash_color("ff6600").unwrap();
    let rgb = parse_flash_color("255,102,0").unwrap();
    assert_eq!(hex, FlashColor { red: 255, green: 102, blue: 0 });
    assert_eq!(hex, rgb);
}

#[test]
fn hex_digits_in_either_case() {
    assert_eq!(parse_flash_color("ABCDEF"), parse_flash_color("abcdef"));
    assert_eq!(
        parse_flash_color("AbCdEf").unwrap(),
        FlashColor { red: 0xab, green: 0xcd, blue: 0xef }
    );
}

#[test]
fn hex_channels_take_no_sign() {
    assert_eq!(parse_flash_color("+1+2+3"), Err(FORMAT.to_string()));
    assert_eq!(parse_flash_color("-1-2-3"), Err(FORMAT.to_string()));
    assert_eq!(parse_flash_color("+f0000"), Err(FORMAT.to_string()));
    assert_eq!(parse_flash_color("00+f00"), Err(FORMAT.to_string()));
}

#[test]
fn decimal_fields_accept_plus_sign_and_leading_zeros() {
    assert_eq!(
        parse_flash_color("+12,007,0255").unwrap(),
        FlashColor { red: 12, green: 7, blue: 255 }
    );
}

#[test]
fn decimal_fields_are_trimmed_of_unicode_whitespace() {
    assert_eq!(
        parse_flash_color("\t1 ,\u{3000}2\u{a0}, 3\n").unwrap(),
        FlashColor { red: 1, green: 2, blue: 3 }
    );
}

#[test]
fn errors_name_the_format_or_the_range() {
    assert_eq!(parse_flash_color("fff"), Err(FORMAT.to_string()));
    assert_eq!(parse_flash_color("1,2"), Err(FORMAT.to_string()));
    assert_eq!(parse_flash_color("1,2,3,4"), Err(FORMAT.to_string()));
    assert_eq!(parse_flash_color("256,0,0"), Err(RANGE.to_string()));
    assert_eq!(parse_flash_color("1,,3"), Err(RANGE.to_string()));
    assert_eq!(parse_flash_color("1,-2,3"), Err(RANGE.to_string()));
    assert_eq!(parse_flash_color("1 2,3,4"), Err(RANGE.to_string()));
    assert_eq!(parse_flash_color("+,1,2"), Err(RANGE.to_string()));
    assert_eq!(parse_flash_color("gg0000"), Err(FORMAT.to_string()));
    assert_eq!(parse_flash_color(""), Err(FORMAT.to_string()));
}

#[test]
fn six_bytes_with_a_two_byte_character_are_refused() {
    // "é" takes two bytes, so the slices fall on character boundaries.
    assert_eq!(parse_flash_color("é1234"), Err(FORMAT.to_string()));
    // Six characters but more than six bytes.
    assert_eq!(parse_flash_color("é12345"), Err(FORMAT.to_string()));
}

#[test]
fn every_channel_value_reads_back_in_both_forms() {
    for v in 0..=255u8 {
        let color = FlashColor { red: v, green: 255 - v, blue: v / 3 };
        let lower = format!("{:02x}{:02x}{:02x}", color.red, color.green, color.blue);
        let upper = format!("{:02X}{:02X}{:02X}", color.red, color.green, color.blue);
        let decimal = format!("{},{},{}", color.red, color.green, color.blue);
        assert_eq!(parse_flash_color(&lower), Ok(color));
        assert_eq!(parse_flash_color(&upper), Ok(color));
        assert_eq!(parse_flash_color(&decimal), Ok(color));
    }
}

#[test]
fn hash_prefix_is_refused_by_the_option() {
    assert_eq!(parse_flash_color("#12345"), Err(FORMAT.to_string()));
    assert_eq!(parse_flash_color("#1,2,3"), Err(RANGE.to_string()));
    assert_eq!(parse_flash_color("  #1,2,3"), Err(RANGE.to_string()));
}

#[test]
fn case_of_letters_changes_nothing() {
    for text in ["aBcDeF", "gg0000", "12, 34, 56", "1,x,3", "ff6600", "Fff", "1,2", "#aabbcc"] {
        let answer = parse_flash_color(text);
        assert_eq!(parse_flash_color(&text.to_ascii_uppercase()), answer);
        assert_eq!(parse_flash_color(&text.to_ascii_lowercase()), answer);
    }
}

#[test]
fn texts_with_a_split_character_after_a_bad_first_pair_are_answered() {
    // "zzaé1": bytes 7A 7A 61 C3 A9 31; byte 4 lies inside "é", but the first
    // pair is refused before the second is cut.
    assert!(screen_flash::flash_color_cuts_safe("zzaé1"));
    assert_eq!(parse_flash_color("zzaé1"), Err(FORMAT.to_string()));
    // "aé123": byte 2 lies inside "é".
    assert!(!screen_flash::flash_color_cuts_safe("aé123"));
    // "12aé1": the first pair is hexadecimal and byte 4 lies inside "é".
    assert!(!screen_flash::flash_color_cuts_safe("12aé1"));
    assert!(screen_flash::flash_color_cuts_safe("1,é,3"));
    assert!(screen_flash::flash_color_cuts_safe("ff6600"));
}
