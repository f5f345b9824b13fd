use screen_flash::{parse_color, CliError, FlashColor};

#[test]
fn parses_hash_prefixed_hex_color() {
    assert_eq!(
        parse_color("#0C2238").unwrap(),
        FlashColor {
            red: 12,
            green: 34,
            blue: 56,
        }
    );
}

#[test]
fn parses_plain_hex_color() {
    assert_eq!(
        parse_color("0c2238").unwrap(),
        FlashColor {
            red: 12,
            green: 34,
            blue: 56,
        }
    );
}

#[test]
fn parses_rgb_triplet_color() {
    assert_eq!(
        parse_color("12, 34, 56").unwrap(),
        FlashColor {
            red: 12,
            green: 34,
            blue: 56,
        }
    );
}

#[test]
fn main_rejects_invalid_color() {
    assert!(matches!(
        parse_color("oops"),
        Err(CliError::InvalidColor(_))
    ));
}

fn refused_text(input: &str) -> String {
    match parse_color(input) {
        Err(CliError::InvalidColor(text)) => text,
        Ok(color) => panic!("unexpectedly accepted {input:?} as {color:?}"),
    }
}

#[test]
fn hex_refusal_names_the_text_after_the_hash() {
    assert_eq!(refused_text("#12345"), "12345");
    assert_eq!(refused_text("#zz0000"), "zz0000");
    assert_eq!(refused_text("oops"), "oops");
}

#[test]
fn rgb_refusal_names_the_whole_argument() {
    assert_eq!(refused_text("1,2"), "1,2");
    assert_eq!(refused_text("1, 2, 300"), "1, 2, 300");
}

#[test]
fn hash_prefix_is_optional_for_hex() {
    assert_eq!(parse_color("#ff6600"), ok_color(255, 102, 0));
    assert_eq!(parse_color("ff6600"), ok_color(255, 102, 0));
    assert_eq!(refused_text("#ff66"), refused_text("ff66"));
}

fn ok_color(red: u8, green: u8, blue: u8) -> Result<FlashColor, CliError> {
    Ok(FlashColor { red, green, blue })
}

#[test]
fn argument_hex_channels_take_no_sign() {
    assert_eq!(refused_text("#+1+2+3"), "+1+2+3");
    assert_eq!(refused_text("+1+2+3"), "+1+2+3");
}

#[test]
fn hash_prefix_is_not_read_as_rgb() {
    assert_eq!(refused_text("#1,2,3"), "1,2,3");
}

#[test]
fn both_parsers_accept_the_same_colours() {
    for text in ["0c2238", "12, 34, 56", "+1+2+3", "+1,+2,+3", "255,255,255", "000000", "0C2238"] {
        assert_eq!(
            parse_color(text).ok(),
            screen_flash::parse_flash_color(text).ok()
        );
    }
}

#[test]
fn error_message_names_the_refused_text() {
    let error = parse_color("oops").unwrap_err();
    assert_eq!(
        error.message(),
        "invalid color `oops`; expected #RRGGBB, RRGGBB, or r,g,b"
    );
}

#[test]
fn every_channel_value_reads_back_in_every_form() {
    for v in 0..=255u8 {
        let color = FlashColor { red: 255 - v, green: v, blue: v / 5 };
        let hex = format!("{:02x}{:02X}{:02x}", color.red, color.green, color.blue);
        let decimal = format!("{},{},{}", color.red, color.green, color.blue);
        assert_eq!(parse_color(&hex), Ok(color));
        assert_eq!(parse_color(&format!("#{hex}")), Ok(color));
        assert_eq!(parse_color(&decimal), Ok(color));
    }
}

#[test]
fn hash_before_a_comma_text_is_refused_with_the_rest() {
    assert_eq!(refused_text("#12,34,56"), "12,34,56");
    assert_eq!(refused_text("#1,2,3"), "1,2,3");
    assert_eq!(refused_text("#a,b,cd"), "a,b,cd");
}

#[test]
fn argument_case_of_letters_changes_only_the_refused_text() {
    for text in ["#aBcDeF", "0c2238", "12, 34, 56", "oops", "#zz0000"] {
        let upper = text.to_ascii_uppercase();
        match (parse_color(text), parse_color(&upper)) {
            (Ok(a), Ok(b)) => assert_eq!(a, b),
            (Err(CliError::InvalidColor(x)), Err(CliError::InvalidColor(y))) => {
                assert_eq!(x.to_ascii_uppercase(), y)
            }
            other => panic!("case changed the answer for {text:?}: {other:?}"),
        }
    }
}

#[test]
fn argument_with_a_split_character_after_a_bad_first_pair_is_refused() {
    assert!(screen_flash::color_arg_cuts_safely("zzaé1"));
    assert!(screen_flash::color_arg_cuts_safely("#zzaé1"));
    assert_eq!(refused_text("zzaé1"), "zzaé1");
    assert_eq!(refused_text("#zzaé1"), "zzaé1");
    assert!(!screen_flash::color_arg_cuts_safely("#aé123"));
    assert!(!screen_flash::color_arg_cuts_safely("12aé1"));
}
