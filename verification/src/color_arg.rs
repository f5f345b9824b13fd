//! The positional colour argument of the flash command: `#RRGGBB`, `RRGGBB`
//! or `r,g,b`. A refused argument is answered with the text that was refused.

use vstd::prelude::*;
use vstd::string::StrSliceExecFns;
use vstd::string::StringExecFns;

use crate::cli::color::flash_color_outcome;
use crate::color::{
    decimal_channel, decimal_field, decimal_text, hex_channel, hex_pair, hex_text_cuts_safe,
    hex_cuts_on_boundaries, hex_text, hex_triplet, lemma_ascii_hex_cuts_on_boundaries,
    lemma_decimal_text_round_trip, lemma_hex_text_round_trip, rgb_field_texts, rgb_fields,
    rgb_triplet, FlashColor,
};
use crate::color::{lemma_padded_decimal_text_round_trip, padded_decimal_text};
use crate::color::{lemma_hex_triplet_ascii_case, lemma_hex_triplet_has_no_comma, lemma_rgb_ascii_case};
use crate::text::{
    all_whitespace, ascii_lowercase, ascii_uppercase, contains_char, lemma_ascii_case_changes,
    lemma_ascii_case_char, lemma_ascii_case_commas, lemma_ascii_case_drop_first,
    same_but_ascii_case, str_chars, views,
};

verus! {

/// Why a colour argument was refused.
#[derive(Clone, Debug, PartialEq, Eq)]
pub enum CliError {
    /// The argument, or its hexadecimal part after `#`, in none of the accepted forms.
    InvalidColor(String),
}

/// What a parse answers, the refused text standing for the error.
pub open spec fn arg_outcome(r: Result<FlashColor, CliError>) -> Result<FlashColor, Seq<char>> {
    match r {
        Ok(color) => Ok(color),
        Err(CliError::InvalidColor(text)) => Err(text@),
    }
}

/// What `parse_color` answers for an argument.
pub open spec fn color_arg_outcome(s: Seq<char>) -> Result<FlashColor, Seq<char>> {
    if s.len() > 0 && s[0] == '#' {
        hex_arg_outcome(s.drop_first())
    } else if s.contains(',') {
        rgb_arg_outcome(s)
    } else {
        hex_arg_outcome(s)
    }
}

/// What `parse_hex_color` answers: exactly six bytes, read as `RRGGBB`.
pub open spec fn hex_arg_outcome(s: Seq<char>) -> Result<FlashColor, Seq<char>> {
    let b = vstd::utf8::encode_utf8(s);
    if b.len() != 6 {
        Err(s)
    } else {
        match hex_triplet(b) {
            Some(color) => Ok(color),
            None => Err(s),
        }
    }
}

/// What `parse_rgb_triplet` answers: exactly three fields, each a number from 0 to 255.
pub open spec fn rgb_arg_outcome(s: Seq<char>) -> Result<FlashColor, Seq<char>> {
    let fields = rgb_fields(s);
    if fields.len() != 3 {
        Err(s)
    } else {
        match rgb_triplet(fields) {
            Some(color) => Ok(color),
            None => Err(s),
        }
    }
}

/// The arguments on which reading the hexadecimal text makes only cuts on
/// character boundaries: `[0..2]`, then `[2..4]` once the first pair is
/// hexadecimal. Any other cut panics, as `str` slicing does.
pub open spec fn color_arg_cuts_safe(s: Seq<char>) -> bool {
    if s.len() > 0 && s[0] == '#' {
        hex_cuts_on_boundaries(vstd::utf8::encode_utf8(s.drop_first()))
    } else {
        s.contains(',') || hex_cuts_on_boundaries(vstd::utf8::encode_utf8(s))
    }
}

/// The text of the error message for a refused argument.
pub open spec fn invalid_color_message(text: Seq<char>) -> Seq<char> {
    "invalid color `"@ + text + "`; expected #RRGGBB, RRGGBB, or r,g,b"@
}

/// Every form of the argument reads back the colour it writes: `RRGGBB` and
/// `#RRGGBB` in either case of the letters, and `r,g,b`. None of these texts
/// makes the parser panic.
pub proof fn lemma_color_arg_round_trip(color: FlashColor, upper: bool)
    ensures
        color_arg_outcome(hex_text(color, upper)) == Ok::<FlashColor, Seq<char>>(color),
        color_arg_outcome(seq!['#'] + hex_text(color, upper)) == Ok::<FlashColor, Seq<char>>(
            color,
        ),
        color_arg_outcome(decimal_text(color)) == Ok::<FlashColor, Seq<char>>(color),
        color_arg_cuts_safe(hex_text(color, upper)),
        color_arg_cuts_safe(seq!['#'] + hex_text(color, upper)),
        color_arg_cuts_safe(decimal_text(color)),
{
    let h = hex_text(color, upper);
    lemma_hex_text_round_trip(color, upper);
    lemma_ascii_hex_cuts_on_boundaries(h);
    lemma_decimal_text_round_trip(color);
    assert((seq!['#'] + h).drop_first() =~= h);
}

/// A refused argument is answered with the argument itself, or with the text
/// after its `#` when it starts with one; the message names that text.
pub proof fn lemma_color_arg_refused_text(s: Seq<char>)
    ensures
        color_arg_outcome(s) matches Err(x) ==> (if s.len() > 0 && s[0] == '#' {
            x == s.drop_first()
        } else {
            x == s
        }),
        invalid_color_message(s) == "invalid color `"@ + s + "`; expected #RRGGBB, RRGGBB, or r,g,b"@,
{
}

/// `r,g,b` fields are trimmed of all the whitespace around them: three
/// decimal fields, each padded with any whitespace on either side, are read
/// back as the colour they were written from, and reading them never panics.
pub proof fn lemma_color_arg_padded_fields(color: FlashColor, w: Seq<Seq<char>>)
    requires
        w.len() == 6,
        forall|k: int| 0 <= k < 6 ==> all_whitespace(#[trigger] w[k]),
    ensures
        color_arg_outcome(padded_decimal_text(color, w)) == Ok::<FlashColor, Seq<char>>(color),
        color_arg_cuts_safe(padded_decimal_text(color, w)),
{
    lemma_padded_decimal_text_round_trip(color, w);
}

/// A `#` in front of a hexadecimal text changes nothing: the argument is
/// accepted, or refused with the same text, as without it.
pub proof fn lemma_hash_prefix_is_optional(s: Seq<char>)
    requires
        !s.contains(','),
        !(s.len() > 0 && s[0] == '#'),
    ensures
        color_arg_outcome(seq!['#'] + s) == color_arg_outcome(s),
        color_arg_cuts_safe(seq!['#'] + s) == color_arg_cuts_safe(s),
{
    assert((seq!['#'] + s).drop_first() =~= s);
}

/// After a `#` only the hexadecimal form is read: `#` followed by a text with
/// a comma is always refused, with the text after the `#`.
pub proof fn lemma_hash_prefix_refuses_rgb(s: Seq<char>)
    requires
        s.contains(','),
    ensures
        color_arg_outcome(seq!['#'] + s) == Err::<FlashColor, Seq<char>>(s),
{
    assert((seq!['#'] + s).drop_first() =~= s);
    let b = vstd::utf8::encode_utf8(s);
    if b.len() == 6 && hex_triplet(b) is Some {
        lemma_hex_triplet_has_no_comma(s);
    }
}

/// The argument does not care about the case of ASCII letters: texts that
/// differ only there get the same colour, or are both refused, the refused
/// texts again differing only in case.
pub proof fn lemma_color_arg_ignores_ascii_case(s: Seq<char>, t: Seq<char>)
    requires
        same_but_ascii_case(s, t),
    ensures
        match (color_arg_outcome(s), color_arg_outcome(t)) {
            (Ok(a), Ok(b)) => a == b,
            (Err(x), Err(y)) => same_but_ascii_case(x, y),
            _ => false,
        },
{
    lemma_ascii_case_commas(s, t);
    lemma_hex_triplet_ascii_case(s, t);
    lemma_rgb_ascii_case(s, t);
    if s.len() > 0 {
        lemma_ascii_case_drop_first(s, t);
        lemma_ascii_case_char(s[0], t[0]);
        lemma_hex_triplet_ascii_case(s.drop_first(), t.drop_first());
    }
}

/// Upper- or lower-casing an argument changes neither the colour it gives nor
/// whether it is refused.
pub proof fn lemma_color_arg_case_changes(s: Seq<char>)
    ensures
        color_arg_outcome(ascii_uppercase(s)) is Ok == color_arg_outcome(s) is Ok,
        color_arg_outcome(s) is Ok ==> color_arg_outcome(ascii_uppercase(s)) == color_arg_outcome(
            s,
        ),
        color_arg_outcome(ascii_lowercase(s)) is Ok == color_arg_outcome(s) is Ok,
        color_arg_outcome(s) is Ok ==> color_arg_outcome(ascii_lowercase(s)) == color_arg_outcome(
            s,
        ),
{
    lemma_ascii_case_changes(s);
    lemma_color_arg_ignores_ascii_case(s, ascii_uppercase(s));
    lemma_color_arg_ignores_ascii_case(s, ascii_lowercase(s));
}

/// On a text that does not start with `#`, the positional argument and the
/// `--color` option accept the same colours, and refuse the same texts.
pub proof fn lemma_parsers_agree(s: Seq<char>)
    requires
        !(s.len() > 0 && s[0] == '#'),
    ensures
        color_arg_outcome(s) is Ok <==> flash_color_outcome(s) is Ok,
        color_arg_outcome(s) is Ok ==> color_arg_outcome(s) == flash_color_outcome(s),
        color_arg_cuts_safe(s) == (s.contains(',') || hex_cuts_on_boundaries(
            vstd::utf8::encode_utf8(s),
        )),
{
}

impl CliError {
    /// The message that the command prints for this error.
    pub fn message(&self) -> (m: String)
        ensures
            match self {
                CliError::InvalidColor(text) => m@ == invalid_color_message(text@),
            },
    {
        match self {
            CliError::InvalidColor(text) => {
                let head = "invalid color `".to_owned();
                let with_text = head.concat(text.as_str());
                with_text.concat("`; expected #RRGGBB, RRGGBB, or r,g,b")
            },
        }
    }
}

fn invalid(source: &str) -> (e: CliError)
    ensures
        match e {
            CliError::InvalidColor(text) => text@ == source@,
        },
{
    CliError::InvalidColor(source.to_owned())
}

/// Parses `#RRGGBB`, `RRGGBB` or `r,g,b`; a `#` prefix selects the hexadecimal
/// form, a comma the decimal one.
///
/// Whether `parse_color` may be given `input`: reading it makes no cut off a
/// character boundary.
pub fn color_arg_cuts_safely(input: &str) -> (safe: bool)
    ensures
        safe == color_arg_cuts_safe(input@),
{
    let chars = str_chars(input);
    let n = chars.len();
    if n > 0 && chars[0] == '#' {
        let hex = input.substring_char(1, n);
        assert(hex@ =~= input@.drop_first());
        return hex_text_cuts_safe(hex);
    }
    if contains_char(&chars, ',') {
        return true;
    }
    hex_text_cuts_safe(input)
}

/// The red channel is cut out of the six-byte hexadecimal text as bytes
/// `[0..2]`, and only when it is hexadecimal the green one as `[2..4]`; a cut
/// that is not on a character boundary panics, and such arguments are left out
/// by `requires`.
pub fn parse_color(input: &str) -> (r: Result<FlashColor, CliError>)
    requires
        color_arg_cuts_safe(input@),
    ensures
        arg_outcome(r) == color_arg_outcome(input@),
{
    let chars = str_chars(input);
    let n = chars.len();
    if n > 0 && chars[0] == '#' {
        let hex = input.substring_char(1, n);
        assert(hex@ =~= input@.drop_first());
        return parse_hex_color(hex);
    }
    if contains_char(&chars, ',') {
        return parse_rgb_triplet(input);
    }
    parse_hex_color(input)
}

/// Parses six hexadecimal digits `RRGGBB`.
pub fn parse_hex_color(input: &str) -> (r: Result<FlashColor, CliError>)
    ensures
        arg_outcome(r) == hex_arg_outcome(input@),
{
    let bytes = input.as_bytes();
    if bytes.len() != 6 {
        return Err(invalid(input));
    }
    let red = match parse_hex_channel(bytes, 0, input) {
        Ok(v) => v,
        Err(e) => return Err(e),
    };
    let green = match parse_hex_channel(bytes, 2, input) {
        Ok(v) => v,
        Err(e) => return Err(e),
    };
    let blue = match parse_hex_channel(bytes, 4, input) {
        Ok(v) => v,
        Err(e) => return Err(e),
    };
    Ok(FlashColor { red, green, blue })
}

/// Reads the channel at `bytes[start..start + 2]` as two hexadecimal digits; a failure
/// refuses the whole `source`.
pub fn parse_hex_channel(bytes: &[u8], start: usize, source: &str) -> (r: Result<u8, CliError>)
    requires
        start + 2 <= bytes@.len(),
    ensures
        match hex_channel(bytes@.subrange(start as int, start + 2)) {
            Some(v) => r == Ok::<u8, CliError>(v),
            None => r matches Err(CliError::InvalidColor(text)) && text@ == source@,
        },
{
    match hex_pair(bytes, start) {
        Some(v) => Ok(v),
        None => Err(invalid(source)),
    }
}

/// Parses three comma-separated decimal fields `r,g,b`, each trimmed.
pub fn parse_rgb_triplet(input: &str) -> (r: Result<FlashColor, CliError>)
    ensures
        arg_outcome(r) == rgb_arg_outcome(input@),
{
    let chars = str_chars(input);
    let parts = rgb_field_texts(&chars);
    if parts.len() != 3 {
        return Err(invalid(input));
    }
    assert(views(parts@)[0] == parts@[0]@);
    assert(views(parts@)[1] == parts@[1]@);
    assert(views(parts@)[2] == parts@[2]@);
    let red = match parse_u8_channel(&parts[0], input) {
        Ok(v) => v,
        Err(e) => return Err(e),
    };
    let green = match parse_u8_channel(&parts[1], input) {
        Ok(v) => v,
        Err(e) => return Err(e),
    };
    let blue = match parse_u8_channel(&parts[2], input) {
        Ok(v) => v,
        Err(e) => return Err(e),
    };
    Ok(FlashColor { red, green, blue })
}

/// Reads a decimal field (`str::parse::<u8>`); a failure refuses the whole `source`.
pub fn parse_u8_channel(channel: &Vec<char>, source: &str) -> (r: Result<u8, CliError>)
    ensures
        match decimal_channel(channel@) {
            Some(v) => r == Ok::<u8, CliError>(v),
            None => r matches Err(CliError::InvalidColor(text)) && text@ == source@,
        },
{
    match decimal_field(channel) {
        Some(v) => Ok(v),
        None => Err(invalid(source)),
    }
}

} // verus!
