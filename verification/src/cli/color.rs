//! The parser behind the `--color` option: `RRGGBB` or `r,g,b`.

use vstd::prelude::*;

use crate::color::{
    decimal_field, decimal_text, hex_pair, hex_text_cuts_safe, hex_cuts_on_boundaries, hex_text, hex_triplet,
    lemma_ascii_hex_cuts_on_boundaries, lemma_decimal_text_round_trip,
    lemma_hex_text_round_trip, rgb_field_texts, rgb_fields, rgb_triplet, FlashColor,
};
use crate::color::{lemma_padded_decimal_text_round_trip, padded_decimal_text};
use crate::color::{
    decimal_channel, hex_channel, hex_digit_value, lemma_hex_triplet_ascii_case,
    lemma_rgb_ascii_case,
};
use crate::text::{
    all_whitespace, ascii_lowercase, ascii_uppercase, char_digit, contains_char, lemma_ascii_case_changes,
    lemma_ascii_case_commas, same_but_ascii_case, lemma_split_on_first, lemma_split_on_nonempty,
    lemma_trim_end_keeps_first, split_on, str_chars, trim, trim_start, views,
};

verus! {

/// The message for a text in neither colour format.
pub open spec fn format_message() -> Seq<char> {
    "color must be in RRGGBB or r,g,b format"@
}

/// The message for an `r,g,b` field that is no number from 0 to 255.
pub open spec fn range_message() -> Seq<char> {
    "each r,g,b value must be between 0 and 255"@
}

/// What `parse_flash_color` answers for a text, its error as the message's characters.
pub open spec fn flash_color_outcome(s: Seq<char>) -> Result<FlashColor, Seq<char>> {
    if s.contains(',') {
        rgb_color_outcome(s)
    } else {
        hex_color_outcome(s)
    }
}

/// What `parse_hex_color` answers: exactly six bytes, read as `RRGGBB`.
pub open spec fn hex_color_outcome(s: Seq<char>) -> Result<FlashColor, Seq<char>> {
    let b = vstd::utf8::encode_utf8(s);
    if b.len() != 6 {
        Err(format_message())
    } else {
        match hex_triplet(b) {
            Some(color) => Ok(color),
            None => Err(format_message()),
        }
    }
}

/// What `parse_rgb_color` answers: exactly three fields, each a number from 0 to 255.
pub open spec fn rgb_color_outcome(s: Seq<char>) -> Result<FlashColor, Seq<char>> {
    let fields = rgb_fields(s);
    if fields.len() != 3 {
        Err(format_message())
    } else {
        match rgb_triplet(fields) {
            Some(color) => Ok(color),
            None => Err(range_message()),
        }
    }
}

/// A parse result with its error message as characters.
pub open spec fn outcome_of(r: Result<FlashColor, String>) -> Result<FlashColor, Seq<char>> {
    match r {
        Ok(color) => Ok(color),
        Err(message) => Err(message@),
    }
}

/// Both forms of `--color` read back the colour they write: six hexadecimal
/// digits, in either case, and three decimal fields. Neither text makes the
/// parser panic.
pub proof fn lemma_flash_color_round_trip(color: FlashColor, upper: bool)
    ensures
        flash_color_outcome(hex_text(color, upper)) == Ok::<FlashColor, Seq<char>>(color),
        flash_color_outcome(decimal_text(color)) == Ok::<FlashColor, Seq<char>>(color),
        hex_cuts_on_boundaries(vstd::utf8::encode_utf8(hex_text(color, upper))),
{
    lemma_hex_text_round_trip(color, upper);
    lemma_ascii_hex_cuts_on_boundaries(hex_text(color, upper));
    lemma_decimal_text_round_trip(color);
}

/// `--color` takes no `#` prefix: a text that starts with `#` is always refused.
pub proof fn lemma_flash_color_refuses_hash(s: Seq<char>)
    requires
        s.len() > 0,
        s[0] == '#',
    ensures
        flash_color_outcome(s) is Err,
{
    if s.contains(',') {
        let pieces = split_on(s, ',');
        lemma_split_on_nonempty(s, ',');
        lemma_split_on_first(s, ',');
        let first = pieces[0];
        assert(trim_start(first) == first);
        lemma_trim_end_keeps_first(first);
        let field = trim(first);
        assert(field[0] == '#');
        assert(char_digit(field[0]) == 36);
        assert(rgb_fields(s)[0] == field);
        assert(decimal_channel(field) is None);
    } else {
        let b = vstd::utf8::encode_utf8(s);
        if b.len() == 6 {
            let c = s[0] as u32;
            assert(c == 0x23);
            assert(vstd::utf8::leading_byte_width_1(c) == 0x23) by (bit_vector)
                requires
                    c == 0x23,
            ;
            assert(b[0] == 0x23);
            assert(hex_digit_value(b[0]) == 36);
            assert(b.subrange(0, 2)[0] == b[0]);
            assert(hex_channel(b.subrange(0, 2)) is None);
        }
    }
}

/// What `--color` answers on the texts it refuses: a text without a comma
/// that is not exactly six bytes, or whose six bytes are not three hexadecimal
/// pairs, and a text with a comma that is not three fields, get the format
/// message; three fields of which one is no number from 0 to 255 get the
/// range message. No other message is given.
pub proof fn lemma_flash_color_messages(s: Seq<char>)
    ensures
        !s.contains(',') && vstd::utf8::encode_utf8(s).len() != 6 ==> flash_color_outcome(s)
            == Err::<FlashColor, Seq<char>>("color must be in RRGGBB or r,g,b format"@),
        !s.contains(',') && vstd::utf8::encode_utf8(s).len() == 6 && hex_triplet(
            vstd::utf8::encode_utf8(s),
        ) is None ==> flash_color_outcome(s) == Err::<FlashColor, Seq<char>>(
            "color must be in RRGGBB or r,g,b format"@,
        ),
        s.contains(',') && rgb_fields(s).len() != 3 ==> flash_color_outcome(s) == Err::<
            FlashColor,
            Seq<char>,
        >("color must be in RRGGBB or r,g,b format"@),
        s.contains(',') && rgb_fields(s).len() == 3 && rgb_triplet(rgb_fields(s)) is None
            ==> flash_color_outcome(s) == Err::<FlashColor, Seq<char>>(
            "each r,g,b value must be between 0 and 255"@,
        ),
        flash_color_outcome(s) matches Err(m) ==> (m == "color must be in RRGGBB or r,g,b format"@
            || m == "each r,g,b value must be between 0 and 255"@),
{
}

/// `r,g,b` fields are trimmed of all the whitespace around them: three
/// decimal fields, each padded with any whitespace on either side, are read
/// back as the colour they were written from, and reading them never panics.
pub proof fn lemma_flash_color_padded_fields(color: FlashColor, w: Seq<Seq<char>>)
    requires
        w.len() == 6,
        forall|k: int| 0 <= k < 6 ==> all_whitespace(#[trigger] w[k]),
    ensures
        flash_color_outcome(padded_decimal_text(color, w)) == Ok::<FlashColor, Seq<char>>(color),
        padded_decimal_text(color, w).contains(','),
{
    lemma_padded_decimal_text_round_trip(color, w);
}

/// `--color` does not care about the case of ASCII letters: texts that differ
/// only there get the same colour, or the same message.
pub proof fn lemma_flash_color_ignores_ascii_case(s: Seq<char>, t: Seq<char>)
    requires
        same_but_ascii_case(s, t),
    ensures
        flash_color_outcome(s) == flash_color_outcome(t),
{
    lemma_ascii_case_commas(s, t);
    lemma_hex_triplet_ascii_case(s, t);
    lemma_rgb_ascii_case(s, t);
}

/// Upper- or lower-casing a `--color` text changes neither the colour nor the message.
pub proof fn lemma_flash_color_case_changes(s: Seq<char>)
    ensures
        flash_color_outcome(ascii_uppercase(s)) == flash_color_outcome(s),
        flash_color_outcome(ascii_lowercase(s)) == flash_color_outcome(s),
{
    lemma_ascii_case_changes(s);
    lemma_flash_color_ignores_ascii_case(s, ascii_uppercase(s));
    lemma_flash_color_ignores_ascii_case(s, ascii_lowercase(s));
}

fn format_error() -> (message: String)
    ensures
        message@ == format_message(),
{
    "color must be in RRGGBB or r,g,b format".to_owned()
}

fn range_error() -> (message: String)
    ensures
        message@ == range_message(),
{
    "each r,g,b value must be between 0 and 255".to_owned()
}

/// Parses a colour given as `RRGGBB` (hexadecimal) or `r,g,b` (decimal, each
/// field trimmed); a text with a comma is read as `r,g,b`.
///
/// Whether `parse_flash_color` may be given `value`: reading it makes no cut
/// off a character boundary.
pub fn flash_color_cuts_safe(value: &str) -> (safe: bool)
    ensures
        safe == (value@.contains(',') || hex_cuts_on_boundaries(vstd::utf8::encode_utf8(value@))),
{
    let chars = str_chars(value);
    if contains_char(&chars, ',') {
        return true;
    }
    hex_text_cuts_safe(value)
}

/// The red channel is cut out of a six-byte text as bytes `[0..2]`, and only
/// when it is hexadecimal the green one as `[2..4]`; a cut that is not on a
/// character boundary panics, as `str` slicing does, and such texts are left
/// out by `requires`.
pub fn parse_flash_color(value: &str) -> (r: Result<FlashColor, String>)
    requires
        value@.contains(',') || hex_cuts_on_boundaries(vstd::utf8::encode_utf8(value@)),
    ensures
        outcome_of(r) == flash_color_outcome(value@),
{
    let chars = str_chars(value);
    if contains_char(&chars, ',') {
        return parse_rgb_color(&chars);
    }
    parse_hex_color(value)
}

/// Parses six hexadecimal digits `RRGGBB`.
fn parse_hex_color(value: &str) -> (r: Result<FlashColor, String>)
    ensures
        outcome_of(r) == hex_color_outcome(value@),
{
    let bytes = value.as_bytes();
    if bytes.len() != 6 {
        return Err(format_error());
    }
    let red = match hex_pair(bytes, 0) {
        Some(v) => v,
        None => return Err(format_error()),
    };
    let green = match hex_pair(bytes, 2) {
        Some(v) => v,
        None => return Err(format_error()),
    };
    let blue = match hex_pair(bytes, 4) {
        Some(v) => v,
        None => return Err(format_error()),
    };
    Ok(FlashColor { red, green, blue })
}

/// Parses three comma-separated decimal fields `r,g,b`.
fn parse_rgb_color(chars: &Vec<char>) -> (r: Result<FlashColor, String>)
    ensures
        outcome_of(r) == rgb_color_outcome(chars@),
{
    let parts = rgb_field_texts(chars);
    if parts.len() != 3 {
        return Err(format_error());
    }
    assert(views(parts@)[0] == parts@[0]@);
    assert(views(parts@)[1] == parts@[1]@);
    assert(views(parts@)[2] == parts@[2]@);
    let red = match decimal_field(&parts[0]) {
        Some(v) => v,
        None => return Err(range_error()),
    };
    let green = match decimal_field(&parts[1]) {
        Some(v) => v,
        None => return Err(range_error()),
    };
    let blue = match decimal_field(&parts[2]) {
        Some(v) => v,
        None => return Err(range_error()),
    };
    Ok(FlashColor { red, green, blue })
}

} // verus!
