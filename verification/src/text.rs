//! Character-level primitives that the colour parsers are built from: the
//! Unicode whitespace test behind `str::trim`, splitting on a separator, and
//! the digit rules of `u8::from_str_radix` by which decimal fields are read.

use vstd::prelude::*;
use vstd::string::StrSliceExecFns;

verus! {

/// `char::is_whitespace`: the Unicode `White_Space` property.
pub open spec fn is_unicode_whitespace(c: char) -> bool {
    let v = c as u32;
    ||| 0x09 <= v && v <= 0x0D
    ||| v == 0x20
    ||| v == 0x85
    ||| v == 0xA0
    ||| v == 0x1680
    ||| 0x2000 <= v && v <= 0x200A
    ||| v == 0x2028
    ||| v == 0x2029
    ||| v == 0x202F
    ||| v == 0x205F
    ||| v == 0x3000
}

/// The sequence without its leading whitespace (`str::trim_start`).
pub open spec fn trim_start(s: Seq<char>) -> Seq<char>
    decreases s.len(),
{
    if s.len() > 0 && is_unicode_whitespace(s[0]) {
        trim_start(s.drop_first())
    } else {
        s
    }
}

/// The sequence without its trailing whitespace (`str::trim_end`).
pub open spec fn trim_end(s: Seq<char>) -> Seq<char>
    decreases s.len(),
{
    if s.len() > 0 && is_unicode_whitespace(s.last()) {
        trim_end(s.drop_last())
    } else {
        s
    }
}

/// The sequence without leading and trailing whitespace (`str::trim`).
pub open spec fn trim(s: Seq<char>) -> Seq<char> {
    trim_end(trim_start(s))
}

/// The pieces of `s` between occurrences of `sep`, as `str::split` yields them:
/// one more piece than there are separators, empty pieces included.
pub open spec fn split_on(s: Seq<char>, sep: char) -> Seq<Seq<char>>
    decreases s.len(),
{
    if s.len() == 0 {
        seq![Seq::<char>::empty()]
    } else {
        let init = split_on(s.drop_last(), sep);
        if s.last() == sep {
            init.push(Seq::<char>::empty())
        } else {
            init.update(init.len() - 1, init.last().push(s.last()))
        }
    }
}

/// The value of a digit character in bases up to 36, as `char::to_digit` reads
/// it; 36 for a character that is no digit in any such base.
pub open spec fn char_digit(c: char) -> int {
    let v = c as u32;
    if 0x30 <= v && v <= 0x39 {
        v - 0x30
    } else if 0x61 <= v && v <= 0x7A {
        v - 0x61 + 10
    } else if 0x41 <= v && v <= 0x5A {
        v - 0x41 + 10
    } else {
        36
    }
}

/// Every character of `s` is a digit in base `radix`.
pub open spec fn all_digits(s: Seq<char>, radix: nat) -> bool {
    forall|i: int| 0 <= i < s.len() ==> #[trigger] char_digit(s[i]) < radix
}

/// The number that the digits of `s` denote in base `radix`, most significant first.
pub open spec fn digits_value(s: Seq<char>, radix: nat) -> nat
    decreases s.len(),
{
    if s.len() == 0 {
        0
    } else {
        (digits_value(s.drop_last(), radix) * radix + char_digit(s.last())) as nat
    }
}

/// `u8::from_str_radix` on the text `s`: an optional `+`, then at least one
/// digit of the base, denoting at most 255.
pub open spec fn parse_u8_radix(s: Seq<char>, radix: nat) -> Option<u8> {
    let digits = if s.len() > 0 && s[0] == '+' {
        s.drop_first()
    } else {
        s
    };
    if digits.len() > 0 && all_digits(digits, radix) && digits_value(digits, radix) <= 255 {
        Some(digits_value(digits, radix) as u8)
    } else {
        None
    }
}

/// `char::to_ascii_lowercase`.
pub open spec fn ascii_lower(c: char) -> char {
    let v = c as u32;
    if 0x41 <= v && v <= 0x5A {
        (v + 32) as char
    } else {
        c
    }
}

/// `char::to_ascii_uppercase`.
pub open spec fn ascii_upper(c: char) -> char {
    let v = c as u32;
    if 0x61 <= v && v <= 0x7A {
        (v - 32) as char
    } else {
        c
    }
}

/// The text with every ASCII letter in upper case (`str::to_ascii_uppercase`).
pub open spec fn ascii_uppercase(s: Seq<char>) -> Seq<char> {
    Seq::new(s.len(), |i: int| ascii_upper(s[i]))
}

/// The text with every ASCII letter in lower case (`str::to_ascii_lowercase`).
pub open spec fn ascii_lowercase(s: Seq<char>) -> Seq<char> {
    Seq::new(s.len(), |i: int| ascii_lower(s[i]))
}

/// `s` and `t` differ at most in the case of ASCII letters.
pub open spec fn same_but_ascii_case(s: Seq<char>, t: Seq<char>) -> bool {
    &&& s.len() == t.len()
    &&& forall|i: int| 0 <= i < s.len() ==> #[trigger] ascii_lower(s[i]) == ascii_lower(t[i])
}

/// Two characters equal but for ASCII case are alike for every rule of the
/// parsers: whitespace, digit value, and the characters `,`, `+` and `#`;
/// where they differ, both are ASCII letters.
pub proof fn lemma_ascii_case_char(a: char, b: char)
    requires
        ascii_lower(a) == ascii_lower(b),
    ensures
        is_unicode_whitespace(a) == is_unicode_whitespace(b),
        char_digit(a) == char_digit(b),
        (a == ',') == (b == ','),
        (a == '+') == (b == '+'),
        (a == '#') == (b == '#'),
        a != b ==> (a as u32) < 128 && (b as u32) < 128,
{
}

/// Two texts equal but for ASCII case hold a comma at the same places.
pub proof fn lemma_ascii_case_commas(s: Seq<char>, t: Seq<char>)
    requires
        same_but_ascii_case(s, t),
    ensures
        s.contains(',') == t.contains(','),
{
    if s.contains(',') {
        let i = choose|i: int| 0 <= i < s.len() && s[i] == ',';
        assert(ascii_lower(s[i]) == ascii_lower(t[i]));
        lemma_ascii_case_char(s[i], t[i]);
    }
    if t.contains(',') {
        let i = choose|i: int| 0 <= i < t.len() && t[i] == ',';
        assert(ascii_lower(s[i]) == ascii_lower(t[i]));
        lemma_ascii_case_char(s[i], t[i]);
    }
}

/// Changing the case of ASCII letters keeps texts equal but for ASCII case.
pub proof fn lemma_ascii_case_changes(s: Seq<char>)
    ensures
        same_but_ascii_case(s, ascii_uppercase(s)),
        same_but_ascii_case(s, ascii_lowercase(s)),
{
    assert forall|i: int| 0 <= i < s.len() implies #[trigger] ascii_lower(s[i]) == ascii_lower(
        ascii_uppercase(s)[i],
    ) && ascii_lower(s[i]) == ascii_lower(ascii_lowercase(s)[i]) by {}
}

/// Dropping the first character keeps two texts equal but for ASCII case.
pub proof fn lemma_ascii_case_drop_first(s: Seq<char>, t: Seq<char>)
    requires
        same_but_ascii_case(s, t),
        s.len() > 0,
    ensures
        same_but_ascii_case(s.drop_first(), t.drop_first()),
        ascii_lower(s[0]) == ascii_lower(t[0]),
{
    assert(ascii_lower(s[0]) == ascii_lower(t[0]));
    assert forall|i: int| 0 <= i < s.len() - 1 implies #[trigger] ascii_lower(s.drop_first()[i])
        == ascii_lower(t.drop_first()[i]) by {
        assert(ascii_lower(s[i + 1]) == ascii_lower(t[i + 1]));
    }
}

/// Dropping the last character keeps two texts equal but for ASCII case.
pub proof fn lemma_ascii_case_drop_last(s: Seq<char>, t: Seq<char>)
    requires
        same_but_ascii_case(s, t),
        s.len() > 0,
    ensures
        same_but_ascii_case(s.drop_last(), t.drop_last()),
        ascii_lower(s.last()) == ascii_lower(t.last()),
{
    assert(ascii_lower(s[s.len() - 1]) == ascii_lower(t[t.len() - 1]));
    assert forall|i: int| 0 <= i < s.len() - 1 implies #[trigger] ascii_lower(s.drop_last()[i])
        == ascii_lower(t.drop_last()[i]) by {
        assert(ascii_lower(s[i]) == ascii_lower(t[i]));
    }
}

proof fn lemma_trim_start_ascii_case(s: Seq<char>, t: Seq<char>)
    requires
        same_but_ascii_case(s, t),
    ensures
        same_but_ascii_case(trim_start(s), trim_start(t)),
    decreases s.len(),
{
    if s.len() > 0 {
        lemma_ascii_case_drop_first(s, t);
        lemma_ascii_case_char(s[0], t[0]);
        if is_unicode_whitespace(s[0]) {
            lemma_trim_start_ascii_case(s.drop_first(), t.drop_first());
        }
    }
}

proof fn lemma_trim_end_ascii_case(s: Seq<char>, t: Seq<char>)
    requires
        same_but_ascii_case(s, t),
    ensures
        same_but_ascii_case(trim_end(s), trim_end(t)),
    decreases s.len(),
{
    if s.len() > 0 {
        lemma_ascii_case_drop_last(s, t);
        lemma_ascii_case_char(s.last(), t.last());
        if is_unicode_whitespace(s.last()) {
            lemma_trim_end_ascii_case(s.drop_last(), t.drop_last());
        }
    }
}

/// `trim` does not care about ASCII case.
pub proof fn lemma_trim_ascii_case(s: Seq<char>, t: Seq<char>)
    requires
        same_but_ascii_case(s, t),
    ensures
        same_but_ascii_case(trim(s), trim(t)),
{
    lemma_trim_start_ascii_case(s, t);
    lemma_trim_end_ascii_case(trim_start(s), trim_start(t));
}

/// Splitting on `,` does not care about ASCII case.
pub proof fn lemma_split_ascii_case(s: Seq<char>, t: Seq<char>)
    requires
        same_but_ascii_case(s, t),
    ensures
        split_on(s, ',').len() == split_on(t, ',').len(),
        forall|k: int|
            0 <= k < split_on(s, ',').len() ==> same_but_ascii_case(
                #[trigger] split_on(s, ',')[k],
                split_on(t, ',')[k],
            ),
    decreases s.len(),
{
    if s.len() > 0 {
        lemma_ascii_case_drop_last(s, t);
        lemma_ascii_case_char(s.last(), t.last());
        lemma_split_ascii_case(s.drop_last(), t.drop_last());
        lemma_split_on_nonempty(s.drop_last(), ',');
        let ps = split_on(s.drop_last(), ',');
        let pt = split_on(t.drop_last(), ',');
        let n = ps.len();
        if s.last() != ',' {
            assert(same_but_ascii_case(ps[n - 1], pt[n - 1]));
            let a = ps.last().push(s.last());
            let b = pt.last().push(t.last());
            assert forall|i: int| 0 <= i < a.len() implies #[trigger] ascii_lower(a[i])
                == ascii_lower(b[i]) by {
                if i < a.len() - 1 {
                    assert(ascii_lower(ps[n - 1][i]) == ascii_lower(pt[n - 1][i]));
                }
            }
            assert forall|k: int| 0 <= k < split_on(s, ',').len() implies same_but_ascii_case(
                #[trigger] split_on(s, ',')[k],
                split_on(t, ',')[k],
            ) by {
                if k < n - 1 {
                    assert(same_but_ascii_case(ps[k], pt[k]));
                }
            }
        } else {
            assert forall|k: int| 0 <= k < split_on(s, ',').len() implies same_but_ascii_case(
                #[trigger] split_on(s, ',')[k],
                split_on(t, ',')[k],
            ) by {
                if k < n {
                    assert(same_but_ascii_case(ps[k], pt[k]));
                }
            }
        }
    }
}

proof fn lemma_digits_value_ascii_case(s: Seq<char>, t: Seq<char>, radix: nat)
    requires
        same_but_ascii_case(s, t),
    ensures
        digits_value(s, radix) == digits_value(t, radix),
        all_digits(s, radix) == all_digits(t, radix),
    decreases s.len(),
{
    if s.len() > 0 {
        lemma_ascii_case_drop_last(s, t);
        lemma_ascii_case_char(s.last(), t.last());
        lemma_digits_value_ascii_case(s.drop_last(), t.drop_last(), radix);
    }
    assert forall|i: int|
        #![trigger char_digit(s[i])]
        #![trigger char_digit(t[i])]
        0 <= i < s.len() implies char_digit(s[i]) == char_digit(t[i]) by {
        assert(ascii_lower(s[i]) == ascii_lower(t[i]));
        lemma_ascii_case_char(s[i], t[i]);
    }
}

/// Reading a number does not care about ASCII case.
pub proof fn lemma_parse_u8_radix_ascii_case(s: Seq<char>, t: Seq<char>, radix: nat)
    requires
        same_but_ascii_case(s, t),
    ensures
        parse_u8_radix(s, radix) == parse_u8_radix(t, radix),
{
    if s.len() > 0 {
        lemma_ascii_case_drop_first(s, t);
        lemma_ascii_case_char(s[0], t[0]);
        lemma_digits_value_ascii_case(s.drop_first(), t.drop_first(), radix);
    }
    lemma_digits_value_ascii_case(s, t, radix);
}

/// A text with a character that is no digit of the base, other than a leading
/// `+`, is no number; neither are the empty text and a lone `+`.
pub proof fn lemma_parse_refuses_non_digit(s: Seq<char>, radix: nat, i: int)
    requires
        0 <= i < s.len(),
        char_digit(s[i]) >= radix,
        !(i == 0 && s[0] == '+'),
    ensures
        parse_u8_radix(s, radix) is None,
        parse_u8_radix(Seq::<char>::empty(), radix) is None,
        parse_u8_radix(seq!['+'], radix) is None,
{
    assert(seq!['+'].drop_first().len() == 0);
    if s[0] == '+' {
        assert(s.drop_first()[i - 1] == s[i]);
    }
}

/// A leading `+` may be left out: it gives the same number.
pub proof fn lemma_parse_plus_sign(t: Seq<char>, radix: nat)
    requires
        t.len() > 0,
        t[0] != '+',
    ensures
        parse_u8_radix(seq!['+'] + t, radix) == parse_u8_radix(t, radix),
{
    assert((seq!['+'] + t).drop_first() =~= t);
}

/// Three decimal digits denote `100 * a + 10 * b + c`, a number only up to 255.
pub proof fn lemma_parse_three_decimal_digits(a: int, b: int, c: int)
    requires
        0 <= a < 10,
        0 <= b < 10,
        0 <= c < 10,
    ensures
        parse_u8_radix(seq![(0x30 + a) as char, (0x30 + b) as char, (0x30 + c) as char], 10) == (
        if 100 * a + 10 * b + c <= 255 {
            Some((100 * a + 10 * b + c) as u8)
        } else {
            None
        }),
{
    let s = seq![(0x30 + a) as char, (0x30 + b) as char, (0x30 + c) as char];
    let e = Seq::<char>::empty();
    assert(s.drop_last().drop_last().drop_last() =~= e);
    assert(digits_value(e, 10) == 0);
    assert(s.drop_last().drop_last() =~= seq![(0x30 + a) as char]);
    assert(digits_value(s.drop_last().drop_last(), 10) == a);
    assert(s.drop_last() =~= seq![(0x30 + a) as char, (0x30 + b) as char]);
    assert(digits_value(s.drop_last(), 10) == a * 10 + b);
    assert(digits_value(s, 10) == (a * 10 + b) * 10 + c);
    assert(all_digits(s, 10));
}

/// Appending a valid digit never makes the value smaller.
pub proof fn lemma_digits_value_prefix(s: Seq<char>, radix: nat, k: int)
    requires
        1 <= radix,
        0 <= k <= s.len(),
        all_digits(s, radix),
    ensures
        digits_value(s.take(k), radix) <= digits_value(s, radix),
    decreases s.len(),
{
    if k < s.len() {
        let init = s.drop_last();
        assert(init.take(k) =~= s.take(k));
        assert forall|i: int| 0 <= i < init.len() implies #[trigger] char_digit(init[i]) < radix by {
            assert(init[i] == s[i]);
        }
        lemma_digits_value_prefix(init, radix, k);
        let v = digits_value(init, radix);
        let d = char_digit(s.last());
        assert(0 <= d);
        assert(v <= v * radix + d) by (nonlinear_arith)
            requires
                1 <= radix,
                0 <= d,
        ;
    } else {
        assert(s.take(k) =~= s);
    }
}

/// Whether `c` is whitespace in the sense of `char::is_whitespace`.
pub fn is_whitespace(c: char) -> (b: bool)
    ensures
        b == is_unicode_whitespace(c),
{
    let v = c as u32;
    (0x09 <= v && v <= 0x0D) || v == 0x20 || v == 0x85 || v == 0xA0 || v == 0x1680 || (0x2000
        <= v && v <= 0x200A) || v == 0x2028 || v == 0x2029 || v == 0x202F || v == 0x205F || v
        == 0x3000
}

/// The characters of a string slice, in order.
pub fn str_chars(s: &str) -> (chars: Vec<char>)
    ensures
        chars@ == s@,
{
    let n = s.unicode_len();
    let mut chars: Vec<char> = Vec::new();
    let mut i: usize = 0;
    while i < n
        invariant
            n == s@.len(),
            i <= n,
            chars@ == s@.take(i as int),
        decreases n - i,
    {
        let c = s.get_char(i);
        chars.push(c);
        i = i + 1;
        assert(chars@ =~= s@.take(i as int));
    }
    assert(s@.take(n as int) =~= s@);
    chars
}


/// The value of a digit character in base `radix`, if it is one (`char::to_digit`).
pub fn to_digit(c: char, radix: u32) -> (d: Option<u32>)
    requires
        radix <= 36,
    ensures
        match d {
            Some(v) => char_digit(c) < radix && v == char_digit(c),
            None => char_digit(c) >= radix,
        },
{
    let v = c as u32;
    let digit: u32 = if 0x30 <= v && v <= 0x39 {
        v - 0x30
    } else if 0x61 <= v && v <= 0x7A {
        v - 0x61 + 10
    } else if 0x41 <= v && v <= 0x5A {
        v - 0x41 + 10
    } else {
        36
    };
    if digit < radix {
        Some(digit)
    } else {
        None
    }
}

/// `u8::from_str_radix` on a sequence of characters.
pub fn parse_u8_digits(s: &Vec<char>, radix: u32) -> (r: Option<u8>)
    requires
        2 <= radix <= 36,
    ensures
        r == parse_u8_radix(s@, radix as nat),
{
    let n = s.len();
    let start: usize = if n > 0 && s[0] == '+' {
        1
    } else {
        0
    };
    let ghost digits = if s@.len() > 0 && s@[0] == '+' {
        s@.drop_first()
    } else {
        s@
    };
    assert(digits =~= s@.subrange(start as int, n as int));
    if start == n {
        return None;
    }
    let mut acc: u32 = 0;
    let mut i: usize = start;
    while i < n
        invariant
            n == s@.len(),
            start <= i <= n,
            2 <= radix <= 36,
            digits =~= s@.subrange(start as int, n as int),
            digits == (if s@.len() > 0 && s@[0] == '+' {
                s@.drop_first()
            } else {
                s@
            }),
            acc <= 255,
            all_digits(digits.take(i - start), radix as nat),
            acc == digits_value(digits.take(i - start), radix as nat),
        decreases n - i,
    {
        let k: Ghost<int> = Ghost(i - start);
        assert(digits.take(k@ + 1).drop_last() =~= digits.take(k@));
        assert(digits.take(k@ + 1).last() == s@[i as int]);
        match to_digit(s[i], radix) {
            None => {
                assert(!all_digits(digits, radix as nat)) by {
                    assert(digits[k@] == s@[i as int]);
                }
                return None;
            },
            Some(d) => {
                assert(acc * radix <= 255 * 36) by (nonlinear_arith)
                    requires
                        acc <= 255,
                        radix <= 36,
                ;
                let next = acc * radix + d;
                if next > 255 {
                    assert(digits_value(digits.take(k@ + 1), radix as nat) == next);
                    proof {
                        if all_digits(digits, radix as nat) {
                            lemma_digits_value_prefix(digits, radix as nat, k@ + 1);
                        }
                    }
                    return None;
                }
                acc = next;
                i = i + 1;
                assert forall|j: int| 0 <= j < digits.take(i - start).len() implies #[trigger] char_digit(
                    digits.take(i - start)[j],
                ) < radix by {
                    if j < k@ {
                        assert(digits.take(i - start)[j] == digits.take(k@)[j]);
                    }
                }
            },
        }
    }
    assert(digits.take(n - start) =~= digits);
    Some(acc as u8)
}

/// Whether `c` occurs in `s`.
pub fn contains_char(s: &Vec<char>, c: char) -> (found: bool)
    ensures
        found == s@.contains(c),
{
    let mut i: usize = 0;
    while i < s.len()
        invariant
            i <= s@.len(),
            forall|j: int| 0 <= j < i ==> s@[j] != c,
        decreases s@.len() - i,
    {
        if s[i] == c {
            assert(s@[i as int] == c);
            return true;
        }
        i = i + 1;
    }
    false
}

/// `str::trim` on a sequence of characters.
pub fn trim_chars(s: &Vec<char>) -> (r: Vec<char>)
    ensures
        r@ == trim(s@),
{
    let n = s.len();
    let mut i: usize = 0;
    assert(s@.subrange(0, n as int) =~= s@);
    while i < n && is_whitespace(s[i])
        invariant
            n == s@.len(),
            i <= n,
            trim_start(s@) == trim_start(s@.subrange(i as int, n as int)),
        decreases n - i,
    {
        assert(s@.subrange(i as int, n as int).drop_first() =~= s@.subrange(i + 1, n as int));
        i = i + 1;
    }
    let mut j: usize = n;
    assert(trim_start(s@) == s@.subrange(i as int, n as int));
    while j > i && is_whitespace(s[j - 1])
        invariant
            n == s@.len(),
            i <= j <= n,
            trim(s@) == trim_end(s@.subrange(i as int, j as int)),
        decreases j,
    {
        assert(s@.subrange(i as int, j as int).drop_last() =~= s@.subrange(i as int, j - 1));
        j = j - 1;
    }
    let mut r: Vec<char> = Vec::new();
    let mut k: usize = i;
    while k < j
        invariant
            n == s@.len(),
            i <= k <= j <= n,
            r@ =~= s@.subrange(i as int, k as int),
        decreases j - k,
    {
        r.push(s[k]);
        k = k + 1;
    }
    r
}

/// The views of the strings in a vector of character vectors.
pub open spec fn views(v: Seq<Vec<char>>) -> Seq<Seq<char>> {
    v.map_values(|x: Vec<char>| x@)
}

/// Each piece with its leading and trailing whitespace removed.
pub open spec fn trim_each(pieces: Seq<Seq<char>>) -> Seq<Seq<char>> {
    Seq::new(pieces.len(), |i: int| trim(pieces[i]))
}

/// Every piece of `split_on` holds at least one element.
pub proof fn lemma_split_on_nonempty(s: Seq<char>, sep: char)
    ensures
        split_on(s, sep).len() >= 1,
    decreases s.len(),
{
    if s.len() > 0 {
        lemma_split_on_nonempty(s.drop_last(), sep);
    }
}

/// Appending text without a separator extends the last piece.
pub proof fn lemma_split_on_append(p: Seq<char>, t: Seq<char>, sep: char)
    requires
        !t.contains(sep),
    ensures
        split_on(p + t, sep) == split_on(p, sep).update(
            split_on(p, sep).len() - 1,
            split_on(p, sep).last() + t,
        ),
    decreases t.len(),
{
    lemma_split_on_nonempty(p, sep);
    let sp = split_on(p, sep);
    if t.len() == 0 {
        assert(p + t =~= p);
        assert(sp.last() + t =~= sp.last());
        assert(sp.update(sp.len() - 1, sp.last() + t) =~= sp);
    } else {
        let init = t.drop_last();
        assert(!init.contains(sep)) by {
            if init.contains(sep) {
                let i = choose|i: int| 0 <= i < init.len() && init[i] == sep;
                assert(t[i] == sep);
            }
        }
        lemma_split_on_append(p, init, sep);
        assert((p + t).drop_last() =~= p + init);
        assert((p + t).last() == t.last());
        assert(t.last() != sep) by {
            assert(t[t.len() - 1] == t.last());
        }
        assert((sp.last() + init).push(t.last()) =~= sp.last() + t);
        let si = split_on(p + init, sep);
        assert(si.len() == sp.len());
        assert(si.last() == sp.last() + init);
        assert(split_on(p + t, sep) =~= sp.update(sp.len() - 1, sp.last() + t));
    }
}

/// A separator at the end starts a new, empty piece.
pub proof fn lemma_split_on_push_sep(p: Seq<char>, sep: char)
    ensures
        split_on(p.push(sep), sep) == split_on(p, sep).push(Seq::<char>::empty()),
{
    assert(p.push(sep).drop_last() =~= p);
}

/// Text without the separator is a single piece.
pub proof fn lemma_split_on_single(t: Seq<char>, sep: char)
    requires
        !t.contains(sep),
    ensures
        split_on(t, sep) == seq![t],
{
    lemma_split_on_append(Seq::<char>::empty(), t, sep);
    assert(Seq::<char>::empty() + t =~= t);
    assert(seq![Seq::<char>::empty()].update(0, Seq::<char>::empty() + t) =~= seq![t]);
}

/// The first piece starts with the first character, unless that is the separator.
pub proof fn lemma_split_on_first(s: Seq<char>, sep: char)
    requires
        s.len() > 0,
        s[0] != sep,
    ensures
        split_on(s, sep)[0].len() > 0,
        split_on(s, sep)[0][0] == s[0],
    decreases s.len(),
{
    let init = s.drop_last();
    lemma_split_on_nonempty(init, sep);
    if init.len() == 0 {
        assert(split_on(init, sep) =~= seq![Seq::<char>::empty()]);
        assert(s.last() == s[0]);
    } else {
        lemma_split_on_first(init, sep);
        let si = split_on(init, sep);
        if s.last() != sep && si.len() == 1 {
            assert(si.last() == si[0]);
            assert(si.last().push(s.last())[0] == si[0][0]);
        }
    }
}

/// `trim_end` keeps a first character that is no whitespace.
pub proof fn lemma_trim_end_keeps_first(s: Seq<char>)
    requires
        s.len() > 0,
        !is_unicode_whitespace(s[0]),
    ensures
        trim_end(s).len() > 0,
        trim_end(s)[0] == s[0],
    decreases s.len(),
{
    if is_unicode_whitespace(s.last()) {
        assert(s.len() > 1) by {
            if s.len() == 1 {
                assert(s.last() == s[0]);
            }
        }
        lemma_trim_end_keeps_first(s.drop_last());
    }
}

/// The pieces joined back together, with `sep` between each two.
pub open spec fn join_with(pieces: Seq<Seq<char>>, sep: char) -> Seq<char>
    decreases pieces.len(),
{
    if pieces.len() <= 1 {
        if pieces.len() == 0 {
            Seq::<char>::empty()
        } else {
            pieces[0]
        }
    } else {
        join_with(pieces.drop_last(), sep).push(sep) + pieces.last()
    }
}

/// Splitting cuts the text exactly at its separators: no piece holds the
/// separator, and joining the pieces with it gives back the text.
pub proof fn lemma_split_on_join(s: Seq<char>, sep: char)
    ensures
        split_on(s, sep).len() >= 1,
        forall|k: int| 0 <= k < split_on(s, sep).len() ==> !(#[trigger] split_on(s, sep)[k]).contains(sep),
        join_with(split_on(s, sep), sep) == s,
    decreases s.len(),
{
    lemma_split_on_nonempty(s, sep);
    if s.len() == 0 {
        assert(join_with(split_on(s, sep), sep) =~= s);
    } else {
        let init = s.drop_last();
        lemma_split_on_join(init, sep);
        lemma_split_on_nonempty(init, sep);
        let p = split_on(init, sep);
        let c = s.last();
        let n = p.len();
        if c == sep {
            let q = p.push(Seq::<char>::empty());
            assert(q.drop_last() =~= p);
            assert(join_with(q, sep) =~= join_with(p, sep).push(sep) + Seq::<char>::empty());
            assert(join_with(q, sep) =~= s);
            assert forall|k: int| 0 <= k < q.len() implies !(#[trigger] q[k]).contains(sep) by {
                if k < n {
                    assert(q[k] == p[k]);
                }
            }
        } else {
            let x = p.last().push(c);
            let q = p.update(n - 1, x);
            assert(!p[n - 1].contains(sep));
            assert(!x.contains(sep)) by {
                if x.contains(sep) {
                    let i = choose|i: int| 0 <= i < x.len() && x[i] == sep;
                    if i < x.len() - 1 {
                        assert(p[n - 1][i] == sep);
                    }
                }
            }
            assert forall|k: int| 0 <= k < q.len() implies !(#[trigger] q[k]).contains(sep) by {
                if k < n - 1 {
                    assert(q[k] == p[k]);
                }
            }
            if n == 1 {
                assert(join_with(p, sep) == p[0]);
                assert(join_with(q, sep) =~= s);
            } else {
                assert(q.drop_last() =~= p.drop_last());
                assert(join_with(q, sep) =~= join_with(p, sep).push(c));
                assert(join_with(q, sep) =~= s);
            }
        }
    }
}

/// Every character of `w` is whitespace.
pub open spec fn all_whitespace(w: Seq<char>) -> bool {
    forall|i: int| 0 <= i < w.len() ==> #[trigger] is_unicode_whitespace(w[i])
}

/// `trim_start` removes exactly the leading whitespace: what it removes is a
/// prefix of whitespace, and what it keeps is the rest of the text, which is
/// empty or starts with a character that is no whitespace.
pub proof fn lemma_trim_start_shape(s: Seq<char>)
    ensures
        trim_start(s).len() <= s.len(),
        trim_start(s) == s.subrange(s.len() - trim_start(s).len(), s.len() as int),
        all_whitespace(s.subrange(0, s.len() - trim_start(s).len())),
        trim_start(s).len() == 0 || !is_unicode_whitespace(trim_start(s)[0]),
    decreases s.len(),
{
    if s.len() > 0 && is_unicode_whitespace(s[0]) {
        let r = s.drop_first();
        lemma_trim_start_shape(r);
        let k = s.len() - trim_start(s).len();
        assert(r.subrange(r.len() - trim_start(r).len(), r.len() as int) =~= s.subrange(
            k,
            s.len() as int,
        ));
        assert forall|i: int| 0 <= i < k implies #[trigger] is_unicode_whitespace(
            s.subrange(0, k)[i],
        ) by {
            if i > 0 {
                assert(s.subrange(0, k)[i] == r.subrange(0, k - 1)[i - 1]);
            }
        }
    } else {
        assert(s.subrange(0, s.len() as int) =~= s);
    }
}

/// `trim_end` removes exactly the trailing whitespace: what it removes is a
/// suffix of whitespace, and what it keeps is the start of the text, which is
/// empty or ends with a character that is no whitespace.
pub proof fn lemma_trim_end_shape(s: Seq<char>)
    ensures
        trim_end(s).len() <= s.len(),
        trim_end(s) == s.subrange(0, trim_end(s).len() as int),
        all_whitespace(s.subrange(trim_end(s).len() as int, s.len() as int)),
        trim_end(s).len() == 0 || !is_unicode_whitespace(trim_end(s).last()),
    decreases s.len(),
{
    if s.len() > 0 && is_unicode_whitespace(s.last()) {
        let r = s.drop_last();
        lemma_trim_end_shape(r);
        let k = trim_end(s).len() as int;
        assert(r.subrange(0, k) =~= s.subrange(0, k));
        assert forall|i: int| 0 <= i < s.len() - k implies #[trigger] is_unicode_whitespace(
            s.subrange(k, s.len() as int)[i],
        ) by {
            if i < s.len() - k - 1 {
                assert(s.subrange(k, s.len() as int)[i] == r.subrange(k, r.len() as int)[i]);
            } else {
                assert(s.subrange(k, s.len() as int)[i] == s.last());
            }
        }
    } else {
        assert(s.subrange(0, s.len() as int) =~= s);
        assert(s.subrange(s.len() as int, s.len() as int).len() == 0);
    }
}

/// `trim` keeps a piece of the text between a whitespace prefix and a
/// whitespace suffix, and that piece is empty or neither starts nor ends with
/// whitespace.
pub proof fn lemma_trim_shape(s: Seq<char>)
    ensures
        exists|i: int, j: int|
            0 <= i <= j <= s.len() && trim(s) == s.subrange(i, j) && all_whitespace(
                s.subrange(0, i),
            ) && all_whitespace(s.subrange(j, s.len() as int)),
        trim(s).len() == 0 || (!is_unicode_whitespace(trim(s)[0]) && !is_unicode_whitespace(
            trim(s).last(),
        )),
{
    let t = trim_start(s);
    lemma_trim_start_shape(s);
    lemma_trim_end_shape(t);
    let i = s.len() - t.len();
    let j = i + trim_end(t).len();
    assert(trim(s) =~= s.subrange(i, j));
    assert forall|k: int| 0 <= k < s.len() - j implies #[trigger] is_unicode_whitespace(
        s.subrange(j, s.len() as int)[k],
    ) by {
        assert(s.subrange(j, s.len() as int)[k] == t.subrange(
            trim_end(t).len() as int,
            t.len() as int,
        )[k]);
    }
    assert(all_whitespace(s.subrange(j, s.len() as int)));
    assert(0 <= i <= j <= s.len() && trim(s) == s.subrange(i, j) && all_whitespace(
        s.subrange(0, i),
    ) && all_whitespace(s.subrange(j, s.len() as int)));
    if trim(s).len() > 0 {
        lemma_trim_end_keeps_first(t);
    }
}

proof fn lemma_trim_start_append(a: Seq<char>, b: Seq<char>)
    ensures
        trim_start(a).len() > 0 ==> trim_start(a + b) == trim_start(a) + b,
        trim_start(a).len() == 0 ==> trim_start(a + b) == trim_start(b),
    decreases a.len(),
{
    if a.len() == 0 {
        assert(a + b =~= b);
    } else {
        assert((a + b)[0] == a[0]);
        assert((a + b).drop_first() =~= a.drop_first() + b);
        if is_unicode_whitespace(a[0]) {
            lemma_trim_start_append(a.drop_first(), b);
        }
    }
}

proof fn lemma_trim_end_append_whitespace(a: Seq<char>, w: Seq<char>)
    requires
        all_whitespace(w),
    ensures
        trim_end(a + w) == trim_end(a),
    decreases w.len(),
{
    if w.len() == 0 {
        assert(a + w =~= a);
    } else {
        assert((a + w).last() == w.last());
        assert(is_unicode_whitespace(w[w.len() - 1]));
        assert((a + w).drop_last() =~= a + w.drop_last());
        assert forall|i: int| 0 <= i < w.drop_last().len() implies #[trigger] is_unicode_whitespace(
            w.drop_last()[i],
        ) by {
            assert(w.drop_last()[i] == w[i]);
        }
        lemma_trim_end_append_whitespace(a, w.drop_last());
    }
}

proof fn lemma_trim_start_whitespace(w: Seq<char>)
    requires
        all_whitespace(w),
    ensures
        trim_start(w).len() == 0,
    decreases w.len(),
{
    if w.len() > 0 {
        assert(is_unicode_whitespace(w[0]));
        assert forall|i: int| 0 <= i < w.drop_first().len() implies #[trigger] is_unicode_whitespace(
            w.drop_first()[i],
        ) by {
            assert(w.drop_first()[i] == w[i + 1]);
        }
        lemma_trim_start_whitespace(w.drop_first());
    }
}

/// `trim` removes all whitespace around a text, however much there is:
/// padding a text with whitespace on either side does not change what `trim`
/// gives.
pub proof fn lemma_trim_ignores_padding(w1: Seq<char>, s: Seq<char>, w2: Seq<char>)
    requires
        all_whitespace(w1),
        all_whitespace(w2),
    ensures
        trim(w1 + s + w2) == trim(s),
{
    lemma_trim_start_whitespace(w1);
    lemma_trim_start_append(w1, s + w2);
    assert(w1 + s + w2 =~= w1 + (s + w2));
    lemma_trim_start_append(s, w2);
    if trim_start(s).len() > 0 {
        lemma_trim_end_append_whitespace(trim_start(s), w2);
    } else {
        lemma_trim_start_whitespace(w2);
        lemma_trim_start_append(w2, Seq::<char>::empty());
        assert(w2 + Seq::<char>::empty() =~= w2);
        assert(trim_end(Seq::<char>::empty()) =~= Seq::<char>::empty());
        assert(trim_end(trim_start(s)) =~= Seq::<char>::empty());
    }
}

/// Text that starts and ends with non-whitespace is left as it is by `trim`.
pub proof fn lemma_trim_unchanged(s: Seq<char>)
    requires
        s.len() > 0,
        !is_unicode_whitespace(s[0]),
        !is_unicode_whitespace(s.last()),
    ensures
        trim(s) == s,
{
}

/// `str::split` on a sequence of characters, each piece passed through `str::trim`.
pub fn split_trimmed(s: &Vec<char>, sep: char) -> (pieces: Vec<Vec<char>>)
    ensures
        views(pieces@) == trim_each(split_on(s@, sep)),
{
    let n = s.len();
    let mut done: Vec<Vec<char>> = Vec::new();
    let mut current: Vec<char> = Vec::new();
    let mut i: usize = 0;
    while i < n
        invariant
            n == s@.len(),
            i <= n,
            split_on(s@.take(i as int), sep) =~= views(done@).push(current@),
        decreases n - i,
    {
        let c = s[i];
        let ghost before = s@.take(i as int);
        assert(s@.take(i + 1).drop_last() =~= before);
        assert(s@.take(i + 1).last() == c);
        proof {
            lemma_split_on_nonempty(before, sep);
        }
        if c == sep {
            let finished = current;
            done.push(finished);
            current = Vec::new();
            assert(views(done@) =~= views(done@.drop_last()).push(finished@));
        } else {
            current.push(c);
        }
        i = i + 1;
    }
    assert(s@.take(n as int) =~= s@);
    done.push(current);
    let ghost raw = views(done@);
    assert(raw =~= split_on(s@, sep));
    let mut pieces: Vec<Vec<char>> = Vec::new();
    let mut k: usize = 0;
    while k < done.len()
        invariant
            k <= done@.len(),
            raw == views(done@),
            pieces@.len() == k,
            views(pieces@) =~= trim_each(raw.take(k as int)),
        decreases done@.len() - k,
    {
        let t = trim_chars(&done[k]);
        assert(raw[k as int] == done@[k as int]@);
        let ghost before = pieces@;
        pieces.push(t);
        assert(pieces@ == before.push(t));
        assert forall|j: int| 0 <= j <= k implies #[trigger] views(pieces@)[j] == trim_each(
            raw.take(k + 1),
        )[j] by {
            assert(views(pieces@)[j] == pieces@[j]@);
            if j < k {
                assert(pieces@[j] == before[j]);
                assert(views(before)[j] == before[j]@);
                assert(views(before)[j] == trim_each(raw.take(k as int))[j]);
            }
        }
        k = k + 1;
        assert(views(pieces@) =~= trim_each(raw.take(k as int)));
    }
    assert(raw.take(k as int) =~= raw);
    pieces
}

} // verus!
