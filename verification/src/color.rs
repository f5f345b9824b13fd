//! The colour type and the two textual forms of a colour that the command line
//! accepts: six hexadecimal digits `RRGGBB`, and three decimal fields `r,g,b`.

use vstd::prelude::*;

use crate::text::{
    all_whitespace, char_digit, digits_value, is_unicode_whitespace, lemma_trim_ignores_padding, lemma_ascii_case_char,
    lemma_ascii_case_drop_first, lemma_parse_u8_radix_ascii_case, lemma_split_ascii_case,
    lemma_split_on_append, lemma_split_on_push_sep, lemma_split_on_single, lemma_trim_ascii_case,
    lemma_trim_unchanged, parse_u8_digits, parse_u8_radix, same_but_ascii_case, split_on,
    split_trimmed, to_digit, trim, trim_each, views,
};

verus! {

/// An RGB colour used by the flash overlay.
#[derive(Clone, Copy, Debug, PartialEq, Eq, Hash, Structural)]
pub struct FlashColor {
    /// Red channel, `0..=255`.
    pub red: u8,
    /// Green channel, `0..=255`.
    pub green: u8,
    /// Blue channel, `0..=255`.
    pub blue: u8,
}

/// The value of a byte as a hexadecimal digit (`0-9`, `a-f`, `A-F`), or 16 or
/// more for a byte that is no such digit.
pub open spec fn hex_digit_value(b: u8) -> int {
    char_digit(b as char)
}

/// A channel of `RRGGBB`: exactly two hexadecimal digits, no sign.
pub open spec fn hex_channel(channel: Seq<u8>) -> Option<u8> {
    if channel.len() == 2 && hex_digit_value(channel[0]) < 16 && hex_digit_value(channel[1]) < 16 {
        Some((hex_digit_value(channel[0]) * 16 + hex_digit_value(channel[1])) as u8)
    } else {
        None
    }
}

/// The colour that six bytes denote as `RRGGBB`: each two-byte slice read as a
/// pair of hexadecimal digits.
pub open spec fn hex_triplet(b: Seq<u8>) -> Option<FlashColor> {
    match (
        hex_channel(b.subrange(0, 2)),
        hex_channel(b.subrange(2, 4)),
        hex_channel(b.subrange(4, 6)),
    ) {
        (Some(red), Some(green), Some(blue)) => Some(FlashColor { red, green, blue }),
        _ => None,
    }
}

/// The fields of an `r,g,b` text: the pieces between commas, each trimmed.
pub open spec fn rgb_fields(s: Seq<char>) -> Seq<Seq<char>> {
    trim_each(split_on(s, ','))
}

/// `str::parse::<u8>` on a field.
pub open spec fn decimal_channel(field: Seq<char>) -> Option<u8> {
    parse_u8_radix(field, 10)
}

/// The colour that three decimal fields denote.
pub open spec fn rgb_triplet(fields: Seq<Seq<char>>) -> Option<FlashColor> {
    match (decimal_channel(fields[0]), decimal_channel(fields[1]), decimal_channel(fields[2])) {
        (Some(red), Some(green), Some(blue)) => Some(FlashColor { red, green, blue }),
        _ => None,
    }
}

/// Reading a six-byte text as `RRGGBB` cuts out `[0..2]`, and only when that
/// pair is hexadecimal goes on to cut `[2..4]` and `[4..6]`. The cuts that are
/// made fall on character boundaries, so that none of them panics.
pub open spec fn hex_cuts_on_boundaries(b: Seq<u8>) -> bool {
    b.len() == 6 ==> {
        &&& vstd::utf8::is_char_boundary(b, 2)
        &&& hex_channel(b.subrange(0, 2)) is Some ==> vstd::utf8::is_char_boundary(b, 4)
    }
}

/// In an ASCII text every byte starts a character, so reading a six-byte
/// ASCII text as `RRGGBB` never panics.
pub proof fn lemma_ascii_hex_cuts_on_boundaries(s: Seq<char>)
    requires
        vstd::utf8::is_ascii_chars(s),
    ensures
        hex_cuts_on_boundaries(vstd::utf8::encode_utf8(s)),
{
    let b = vstd::utf8::encode_utf8(s);
    vstd::utf8::encode_utf8_valid_utf8(s);
    vstd::utf8::is_ascii_chars_encode_utf8(s);
    if b.len() == 6 {
        assert(s[2] as u8 == b[2]);
        assert(s[4] as u8 == b[4]);
        vstd::utf8::is_char_boundary_iff_not_is_continuation_byte(b, 2);
        vstd::utf8::is_char_boundary_iff_not_is_continuation_byte(b, 4);
    }
}

/// The character of the hexadecimal digit `d` (`0..16`), its letters in upper
/// case when `upper` holds.
pub open spec fn hex_digit_char(d: int, upper: bool) -> char {
    if d < 10 {
        (0x30 + d) as char
    } else if upper {
        (0x41 + d - 10) as char
    } else {
        (0x61 + d - 10) as char
    }
}

/// A colour written as six hexadecimal digits `RRGGBB`.
pub open spec fn hex_text(color: FlashColor, upper: bool) -> Seq<char> {
    seq![
        hex_digit_char(color.red as int / 16, upper),
        hex_digit_char(color.red as int % 16, upper),
        hex_digit_char(color.green as int / 16, upper),
        hex_digit_char(color.green as int % 16, upper),
        hex_digit_char(color.blue as int / 16, upper),
        hex_digit_char(color.blue as int % 16, upper),
    ]
}

/// The character of the decimal digit `d` (`0..10`).
pub open spec fn decimal_digit_char(d: int) -> char {
    (0x30 + d) as char
}

/// A channel written in decimal, without leading zeros.
pub open spec fn decimal_digits(v: u8) -> Seq<char> {
    if v < 10 {
        seq![decimal_digit_char(v as int)]
    } else if v < 100 {
        seq![decimal_digit_char(v as int / 10), decimal_digit_char(v as int % 10)]
    } else {
        seq![
            decimal_digit_char(v as int / 100),
            decimal_digit_char((v as int / 10) % 10),
            decimal_digit_char(v as int % 10),
        ]
    }
}

/// A colour written as three decimal fields `r,g,b`.
pub open spec fn decimal_text(color: FlashColor) -> Seq<char> {
    decimal_digits(color.red) + seq![','] + decimal_digits(color.green) + seq![','] + decimal_digits(
        color.blue,
    )
}

proof fn lemma_hex_digit_char(d: int, upper: bool)
    requires
        0 <= d < 16,
    ensures
        char_digit(hex_digit_char(d, upper)) == d,
        (hex_digit_char(d, upper) as u32) < 128,
        hex_digit_char(d, upper) != '+',
        hex_digit_char(d, upper) != ',',
        hex_digit_char(d, upper) != '#',
        ((hex_digit_char(d, upper) as u8) as char) == hex_digit_char(d, upper),
{
}

/// Six hexadecimal digits are read back as the colour they were written from,
/// in either case of the letters.
pub proof fn lemma_hex_text_round_trip(color: FlashColor, upper: bool)
    ensures
        vstd::utf8::encode_utf8(hex_text(color, upper)).len() == 6,
        hex_triplet(vstd::utf8::encode_utf8(hex_text(color, upper))) == Some(color),
        !hex_text(color, upper).contains(','),
        hex_text(color, upper)[0] != '#',
        vstd::utf8::is_ascii_chars(hex_text(color, upper)),
{
    let t = hex_text(color, upper);
    let digits = seq![
        color.red as int / 16,
        color.red as int % 16,
        color.green as int / 16,
        color.green as int % 16,
        color.blue as int / 16,
        color.blue as int % 16,
    ];
    assert forall|i: int| 0 <= i < 6 implies {
        &&& 0 <= digits[i] < 16
        &&& #[trigger] t[i] == hex_digit_char(digits[i], upper)
    } by {}
    assert forall|i: int| 0 <= i < 6 implies (#[trigger] t[i] as u32) < 128 && t[i] != ','
        && ((t[i] as u8) as char) == t[i] by {
        lemma_hex_digit_char(digits[i], upper);
    }
    assert(vstd::utf8::is_ascii_chars(t));
    vstd::utf8::is_ascii_chars_encode_utf8(t);
    let b = vstd::utf8::encode_utf8(t);
    assert forall|i: int| 0 <= i < 6 implies #[trigger] hex_digit_value(b[i]) == digits[i] by {
        lemma_hex_digit_char(digits[i], upper);
        assert(b[i] == t[i] as u8);
    }
    assert(hex_channel(b.subrange(0, 2)) == Some(color.red));
    assert(hex_channel(b.subrange(2, 4)) == Some(color.green));
    assert(hex_channel(b.subrange(4, 6)) == Some(color.blue));
    lemma_hex_digit_char(digits[0], upper);
}

proof fn lemma_decimal_digit_char(d: int)
    requires
        0 <= d < 10,
    ensures
        char_digit(decimal_digit_char(d)) == d,
        decimal_digit_char(d) != '+',
        decimal_digit_char(d) != ',',
        decimal_digit_char(d) != '#',
        !is_unicode_whitespace(decimal_digit_char(d)),
{
}

proof fn lemma_decimal_digits(v: u8)
    ensures
        decimal_digits(v).len() > 0,
        !decimal_digits(v).contains(','),
        decimal_digits(v)[0] != '#',
        !is_unicode_whitespace(decimal_digits(v)[0]),
        !is_unicode_whitespace(decimal_digits(v).last()),
        decimal_channel(decimal_digits(v)) == Some(v),
{
    let s = decimal_digits(v);
    let ds: Seq<int> = if v < 10 {
        seq![v as int]
    } else if v < 100 {
        seq![v as int / 10, v as int % 10]
    } else {
        seq![v as int / 100, (v as int / 10) % 10, v as int % 10]
    };
    assert(s.len() == ds.len());
    assert forall|i: int| 0 <= i < s.len() implies 0 <= ds[i] < 10 && #[trigger] s[i]
        == decimal_digit_char(ds[i]) by {}
    assert forall|i: int| 0 <= i < s.len() implies #[trigger] char_digit(s[i]) == ds[i] && s[i]
        != ',' && s[i] != '+' by {
        lemma_decimal_digit_char(ds[i]);
    }
    lemma_decimal_digit_char(ds[0]);
    lemma_decimal_digit_char(ds[ds.len() - 1]);
    assert(s.last() == s[s.len() - 1]);
    let e = Seq::<char>::empty();
    assert(digits_value(e, 10) == 0);
    let s1 = s.take(1);
    assert(s1.drop_last() =~= e);
    assert(digits_value(s1, 10) == ds[0]);
    if s.len() >= 2 {
        let s2 = s.take(2);
        assert(s2.drop_last() =~= s1);
        assert(digits_value(s2, 10) == ds[0] * 10 + ds[1]);
        if s.len() == 3 {
            assert(s.drop_last() =~= s2);
            assert(digits_value(s, 10) == (ds[0] * 10 + ds[1]) * 10 + ds[2]);
            assert(digits_value(s, 10) == v);
        } else {
            assert(s2 =~= s);
        }
    } else {
        assert(s1 =~= s);
    }
}

/// Three decimal fields are read back as the colour they were written from.
pub proof fn lemma_decimal_text_round_trip(color: FlashColor)
    ensures
        rgb_fields(decimal_text(color)).len() == 3,
        rgb_triplet(rgb_fields(decimal_text(color))) == Some(color),
        decimal_text(color).contains(','),
        decimal_text(color)[0] != '#',
{
    let r = decimal_digits(color.red);
    let g = decimal_digits(color.green);
    let b = decimal_digits(color.blue);
    lemma_decimal_digits(color.red);
    lemma_decimal_digits(color.green);
    lemma_decimal_digits(color.blue);
    let p1 = r.push(',');
    let p2 = p1 + g;
    let p3 = p2.push(',');
    let t = p3 + b;
    assert(t =~= decimal_text(color));
    lemma_split_on_single(r, ',');
    lemma_split_on_push_sep(r, ',');
    lemma_split_on_append(p1, g, ',');
    assert(split_on(p1, ',') =~= seq![r, Seq::<char>::empty()]);
    assert(Seq::<char>::empty() + g =~= g);
    assert(split_on(p2, ',') =~= seq![r, g]);
    lemma_split_on_push_sep(p2, ',');
    lemma_split_on_append(p3, b, ',');
    assert(split_on(t, ',') =~= seq![r, g, b]);
    lemma_trim_unchanged(r);
    lemma_trim_unchanged(g);
    lemma_trim_unchanged(b);
    assert(rgb_fields(t) =~= seq![r, g, b]);
    assert(t[r.len() as int] == ',');
    assert(t[0] == r[0]);
}

/// A colour written as three decimal fields `r,g,b`, each with the given
/// whitespace before and after it: `w[0] r w[1] , w[2] g w[3] , w[4] b w[5]`.
pub open spec fn padded_decimal_text(color: FlashColor, w: Seq<Seq<char>>) -> Seq<char> {
    (w[0] + decimal_digits(color.red) + w[1]).push(',') + (w[2] + decimal_digits(color.green)
        + w[3]).push(',') + (w[4] + decimal_digits(color.blue) + w[5])
}

proof fn lemma_padded_field(w1: Seq<char>, d: Seq<char>, w2: Seq<char>)
    requires
        all_whitespace(w1),
        all_whitespace(w2),
        !d.contains(','),
        d.len() > 0,
        !is_unicode_whitespace(d[0]),
        !is_unicode_whitespace(d.last()),
        d[0] != '#',
    ensures
        !(w1 + d + w2).contains(','),
        trim(w1 + d + w2) == d,
        (w1 + d + w2)[0] != '#',
{
    let f = w1 + d + w2;
    assert forall|i: int| 0 <= i < f.len() implies #[trigger] f[i] != ',' by {
        if i < w1.len() {
            assert(is_unicode_whitespace(w1[i]));
        } else if i < w1.len() + d.len() {
            assert(f[i] == d[i - w1.len()]);
        } else {
            assert(is_unicode_whitespace(w2[i - w1.len() - d.len()]));
        }
    }
    lemma_trim_ignores_padding(w1, d, w2);
    lemma_trim_unchanged(d);
    if w1.len() > 0 {
        assert(is_unicode_whitespace(w1[0]));
    } else {
        assert(f[0] == d[0]);
    }
}

/// Three decimal fields with any whitespace around each are read back as the
/// colour they were written from.
pub proof fn lemma_padded_decimal_text_round_trip(color: FlashColor, w: Seq<Seq<char>>)
    requires
        w.len() == 6,
        forall|k: int| 0 <= k < 6 ==> all_whitespace(#[trigger] w[k]),
    ensures
        rgb_fields(padded_decimal_text(color, w)).len() == 3,
        rgb_triplet(rgb_fields(padded_decimal_text(color, w))) == Some(color),
        padded_decimal_text(color, w).contains(','),
        padded_decimal_text(color, w)[0] != '#',
{
    lemma_decimal_digits(color.red);
    lemma_decimal_digits(color.green);
    lemma_decimal_digits(color.blue);
    assert(all_whitespace(w[0]) && all_whitespace(w[1]) && all_whitespace(w[2]));
    assert(all_whitespace(w[3]) && all_whitespace(w[4]) && all_whitespace(w[5]));
    let r = decimal_digits(color.red);
    let g = decimal_digits(color.green);
    let b = decimal_digits(color.blue);
    lemma_padded_field(w[0], r, w[1]);
    lemma_padded_field(w[2], g, w[3]);
    lemma_padded_field(w[4], b, w[5]);
    let f1 = w[0] + r + w[1];
    let f2 = w[2] + g + w[3];
    let f3 = w[4] + b + w[5];
    let p1 = f1.push(',');
    let p2 = p1 + f2;
    let p3 = p2.push(',');
    let t = p3 + f3;
    assert(t =~= padded_decimal_text(color, w));
    lemma_split_on_single(f1, ',');
    lemma_split_on_push_sep(f1, ',');
    lemma_split_on_append(p1, f2, ',');
    assert(split_on(p1, ',') =~= seq![f1, Seq::<char>::empty()]);
    assert(Seq::<char>::empty() + f2 =~= f2);
    assert(split_on(p2, ',') =~= seq![f1, f2]);
    lemma_split_on_push_sep(p2, ',');
    lemma_split_on_append(p3, f3, ',');
    assert(split_on(t, ',') =~= seq![f1, f2, f3]);
    assert(rgb_fields(t) =~= seq![r, g, b]);
    assert(t[f1.len() as int] == ',');
    assert(t[0] == f1[0]);
}

/// The UTF-8 encodings of two texts equal but for ASCII case have the same
/// length and the same hexadecimal digit at every byte.
proof fn lemma_encode_ascii_case(s: Seq<char>, t: Seq<char>)
    requires
        same_but_ascii_case(s, t),
    ensures
        vstd::utf8::encode_utf8(s).len() == vstd::utf8::encode_utf8(t).len(),
        forall|i: int|
            0 <= i < vstd::utf8::encode_utf8(s).len() ==> #[trigger] hex_digit_value(
                vstd::utf8::encode_utf8(s)[i],
            ) == hex_digit_value(vstd::utf8::encode_utf8(t)[i]),
    decreases s.len(),
{
    if s.len() > 0 {
        lemma_ascii_case_drop_first(s, t);
        lemma_ascii_case_char(s[0], t[0]);
        lemma_encode_ascii_case(s.drop_first(), t.drop_first());
        let ps = vstd::utf8::encode_scalar(s[0] as u32);
        let pt = vstd::utf8::encode_scalar(t[0] as u32);
        let rs = vstd::utf8::encode_utf8(s.drop_first());
        let rt = vstd::utf8::encode_utf8(t.drop_first());
        if s[0] != t[0] {
            let a = s[0] as u32;
            let b = t[0] as u32;
            assert(a < 128 ==> (a & 0x7F) as u8 == a as u8) by (bit_vector);
            assert(b < 128 ==> (b & 0x7F) as u8 == b as u8) by (bit_vector);
            assert(ps =~= seq![a as u8]);
            assert(pt =~= seq![b as u8]);
            assert(hex_digit_value(a as u8) == char_digit(s[0]));
            assert(hex_digit_value(b as u8) == char_digit(t[0]));
        }
        assert(ps.len() == pt.len());
        assert forall|i: int| 0 <= i < (ps + rs).len() implies #[trigger] hex_digit_value(
            (ps + rs)[i],
        ) == hex_digit_value((pt + rt)[i]) by {
            if i >= ps.len() {
                assert(hex_digit_value(rs[i - ps.len()]) == hex_digit_value(rt[i - ps.len()]));
            }
        }
    }
}

/// A text whose UTF-8 bytes are all hexadecimal digits is made of
/// hexadecimal digit characters.
pub proof fn lemma_hex_bytes_hex_chars(s: Seq<char>)
    requires
        forall|i: int|
            0 <= i < vstd::utf8::encode_utf8(s).len() ==> #[trigger] hex_digit_value(
                vstd::utf8::encode_utf8(s)[i],
            ) < 16,
    ensures
        forall|i: int| 0 <= i < s.len() ==> #[trigger] char_digit(s[i]) < 16,
    decreases s.len(),
{
    if s.len() > 0 {
        let c = s[0] as u32;
        let p = vstd::utf8::encode_scalar(c);
        let r = vstd::utf8::encode_utf8(s.drop_first());
        let b = vstd::utf8::encode_utf8(s);
        assert(b =~= p + r);
        assert(hex_digit_value(b[0]) < 16);
        assert(p.len() > 0);
        assert(b[0] == p[0]);
        let lead = p[0];
        assert(c <= 0x7F || lead >= 0xC0) by {
            if vstd::utf8::has_width_2_encoding(c) {
                assert(lead == vstd::utf8::leading_byte_width_2(c));
                assert((0xC0 | ((c >> 6) & 0x1F) as u8) >= 0xC0) by (bit_vector);
            } else if vstd::utf8::has_width_3_encoding(c) {
                assert(lead == vstd::utf8::leading_byte_width_3(c));
                assert((0xE0 | ((c >> 12) & 0x0F) as u8) >= 0xC0) by (bit_vector);
            } else if !vstd::utf8::has_width_1_encoding(c) {
                assert(lead == vstd::utf8::leading_byte_width_4(c));
                assert((0xF0 | ((c >> 18) & 0x7) as u8) >= 0xC0) by (bit_vector);
            }
        }
        assert(c <= 0x7F) by {
            if lead >= 0xC0 {
                assert(hex_digit_value(lead) == 36);
            }
        }
        assert(c < 128 ==> (c & 0x7F) as u8 == c as u8) by (bit_vector);
        assert(hex_digit_value(lead) == char_digit(s[0]));
        assert forall|i: int| 0 <= i < r.len() implies #[trigger] hex_digit_value(r[i]) < 16 by {
            assert(b[i + p.len()] == r[i]);
        }
        lemma_hex_bytes_hex_chars(s.drop_first());
        assert forall|i: int| 0 <= i < s.len() implies #[trigger] char_digit(s[i]) < 16 by {
            if i > 0 {
                assert(s[i] == s.drop_first()[i - 1]);
            }
        }
    }
}

/// Six bytes that read as `RRGGBB` come from a text of hexadecimal digit
/// characters, which holds no comma.
pub proof fn lemma_hex_triplet_has_no_comma(s: Seq<char>)
    requires
        vstd::utf8::encode_utf8(s).len() == 6,
        hex_triplet(vstd::utf8::encode_utf8(s)) is Some,
    ensures
        !s.contains(','),
{
    let b = vstd::utf8::encode_utf8(s);
    assert forall|i: int| 0 <= i < b.len() implies #[trigger] hex_digit_value(b[i]) < 16 by {
        if i < 2 {
            assert(b.subrange(0, 2)[i] == b[i]);
        } else if i < 4 {
            assert(b.subrange(2, 4)[i - 2] == b[i]);
        } else {
            assert(b.subrange(4, 6)[i - 4] == b[i]);
        }
    }
    lemma_hex_bytes_hex_chars(s);
    if s.contains(',') {
        let i = choose|i: int| 0 <= i < s.len() && s[i] == ',';
        assert(char_digit(s[i]) < 16);
    }
}

/// Six bytes read as `RRGGBB` do not care about the case of ASCII letters.
pub proof fn lemma_hex_triplet_ascii_case(s: Seq<char>, t: Seq<char>)
    requires
        same_but_ascii_case(s, t),
    ensures
        vstd::utf8::encode_utf8(s).len() == vstd::utf8::encode_utf8(t).len(),
        vstd::utf8::encode_utf8(s).len() == 6 ==> hex_triplet(vstd::utf8::encode_utf8(s))
            == hex_triplet(vstd::utf8::encode_utf8(t)),
{
    lemma_encode_ascii_case(s, t);
    let bs = vstd::utf8::encode_utf8(s);
    let bt = vstd::utf8::encode_utf8(t);
    if bs.len() == 6 {
        assert forall|k: int| 0 <= k < 6 implies #[trigger] hex_digit_value(bs[k])
            == hex_digit_value(bt[k]) by {}
        assert(hex_channel(bs.subrange(0, 2)) == hex_channel(bt.subrange(0, 2)));
        assert(hex_channel(bs.subrange(2, 4)) == hex_channel(bt.subrange(2, 4)));
        assert(hex_channel(bs.subrange(4, 6)) == hex_channel(bt.subrange(4, 6)));
    }
}

/// The fields of an `r,g,b` text, and the colour they denote, do not care
/// about the case of ASCII letters.
pub proof fn lemma_rgb_ascii_case(s: Seq<char>, t: Seq<char>)
    requires
        same_but_ascii_case(s, t),
    ensures
        rgb_fields(s).len() == rgb_fields(t).len(),
        rgb_fields(s).len() == 3 ==> rgb_triplet(rgb_fields(s)) == rgb_triplet(rgb_fields(t)),
{
    lemma_split_ascii_case(s, t);
    let ps = split_on(s, ',');
    let pt = split_on(t, ',');
    if ps.len() == 3 {
        assert forall|k: int| 0 <= k < 3 implies #[trigger] decimal_channel(rgb_fields(s)[k])
            == decimal_channel(rgb_fields(t)[k]) by {
            assert(same_but_ascii_case(ps[k], pt[k]));
            lemma_trim_ascii_case(ps[k], pt[k]);
            lemma_parse_u8_radix_ascii_case(trim(ps[k]), trim(pt[k]), 10);
        }
        assert(decimal_channel(rgb_fields(s)[0]) == decimal_channel(rgb_fields(t)[0]));
        assert(decimal_channel(rgb_fields(s)[1]) == decimal_channel(rgb_fields(t)[1]));
        assert(decimal_channel(rgb_fields(s)[2]) == decimal_channel(rgb_fields(t)[2]));
    }
}

/// Whether reading `text` as `RRGGBB` makes only cuts on character boundaries.
pub fn hex_text_cuts_safe(text: &str) -> (safe: bool)
    ensures
        safe == hex_cuts_on_boundaries(vstd::utf8::encode_utf8(text@)),
{
    let bytes = text.as_bytes();
    if bytes.len() != 6 {
        return true;
    }
    if !text.is_char_boundary(2) {
        return false;
    }
    match hex_pair(bytes, 0) {
        None => true,
        Some(_) => text.is_char_boundary(4),
    }
}

/// Reads the channel at `b[start..start + 2]`: two hexadecimal digits, no sign.
pub fn hex_pair(b: &[u8], start: usize) -> (channel: Option<u8>)
    requires
        start + 2 <= b@.len(),
    ensures
        channel == hex_channel(b@.subrange(start as int, start + 2)),
{
    let n = b.len();
    assert(start + 2 <= n);
    let hi = to_digit(b[start] as char, 16);
    let lo = to_digit(b[start + 1] as char, 16);
    match (hi, lo) {
        (Some(h), Some(l)) => Some((h * 16 + l) as u8),
        _ => None,
    }
}

/// Reads a decimal field.
pub fn decimal_field(field: &Vec<char>) -> (channel: Option<u8>)
    ensures
        channel == decimal_channel(field@),
{
    parse_u8_digits(field, 10)
}

/// Splits an `r,g,b` text into its trimmed fields.
pub fn rgb_field_texts(s: &Vec<char>) -> (fields: Vec<Vec<char>>)
    ensures
        views(fields@) == rgb_fields(s@),
{
    split_trimmed(s, ',')
}

} // verus!
