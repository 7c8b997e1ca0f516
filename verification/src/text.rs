//! Text: numbers in text form, white space, and letter case.
//!
//! Text is read as a sequence of characters. The numbers are those that Rust's
//! `from_str_radix` reads: an optional sign, then digits.
use vstd::prelude::*;
use vstd::string::StringExecFns;

pub mod laws;

verus! {

/// `String::push` appends a character.
pub assume_specification[ String::push ](s: &mut String, c: char)
    ensures
        final(s)@ == old(s)@.push(c),
;

/// The characters of a text.
pub fn chars_of(s: &str) -> (v: Vec<char>)
    ensures
        v@ == s@,
{
    let mut v: Vec<char> = Vec::new();
    for c in iter: s.chars()
        invariant
            iter.seq() == s@,
            v@ == s@.take(iter.index() as int),
    {
        assert(s@.take(iter.index() + 1) =~= s@.take(iter.index() as int).push(c));
        v.push(c);
    }
    assert(s@.take(s@.len() as int) =~= s@);
    v
}

/// A text from its characters.
pub fn string_of(chars: &[char]) -> (s: String)
    ensures
        s@ == chars@,
{
    let mut s = String::new();
    let mut i: usize = 0;
    while i < chars.len()
        invariant
            i <= chars@.len(),
            s@ == chars@.take(i as int),
        decreases chars@.len() - i,
    {
        assert(chars@.take(i + 1) =~= chars@.take(i as int).push(chars@[i as int]));
        s.push(chars[i]);
        i += 1;
    }
    assert(chars@.take(chars@.len() as int) =~= chars@);
    s
}

// --- Letter case -----------------------------------------------------------

/// The lower-case form of an ASCII letter; any other character is unchanged.
pub open spec fn lower(c: char) -> char {
    if 'A' <= c <= 'Z' {
        (c as u8 + 32) as char
    } else {
        c
    }
}

/// A text with its ASCII letters in lower case.
pub open spec fn lowered(s: Seq<char>) -> Seq<char> {
    s.map_values(|c: char| lower(c))
}

/// The lower-case form of an ASCII letter.
pub fn to_lower(c: char) -> (l: char)
    ensures
        l == lower(c),
{
    if 'A' <= c && c <= 'Z' {
        (c as u8 + 32) as char
    } else {
        c
    }
}

/// Whether `s` is the word `word`, letter case aside; `word` is in lower case.
pub fn is_word(s: &[char], word: &str) -> (b: bool)
    ensures
        b == (lowered(s@) == word@),
{
    let w = chars_of(word);
    if s.len() != w.len() {
        assert(lowered(s@).len() == s@.len());
        return false;
    }
    let mut i: usize = 0;
    while i < s.len()
        invariant
            i <= s@.len() == w@.len(),
            w@ == word@,
            forall|j: int| 0 <= j < i ==> lower(s@[j]) == w@[j],
        decreases s@.len() - i,
    {
        if to_lower(s[i]) != w[i] {
            assert(lowered(s@)[i as int] != word@[i as int]);
            return false;
        }
        i += 1;
    }
    assert(lowered(s@) =~= word@);
    true
}

// --- White space -----------------------------------------------------------

/// The characters with the Unicode `White_Space` property.
pub open spec fn white_space(c: char) -> bool {
    ||| '\u{9}' <= c <= '\u{d}'
    ||| c == ' '
    ||| c == '\u{85}'
    ||| c == '\u{a0}'
    ||| c == '\u{1680}'
    ||| '\u{2000}' <= c <= '\u{200a}'
    ||| c == '\u{2028}'
    ||| c == '\u{2029}'
    ||| c == '\u{202f}'
    ||| c == '\u{205f}'
    ||| c == '\u{3000}'
}

fn is_white_space(c: char) -> (b: bool)
    ensures
        b == white_space(c),
{
    ('\u{9}' <= c && c <= '\u{d}') || c == ' ' || c == '\u{85}' || c == '\u{a0}' || c == '\u{1680}'
        || ('\u{2000}' <= c && c <= '\u{200a}') || c == '\u{2028}' || c == '\u{2029}' || c
        == '\u{202f}' || c == '\u{205f}' || c == '\u{3000}'
}

/// A text without the white space at its start.
pub open spec fn trimmed_start(s: Seq<char>) -> Seq<char>
    decreases s.len(),
{
    if s.len() > 0 && white_space(s[0]) {
        trimmed_start(s.drop_first())
    } else {
        s
    }
}

/// A text without the white space at its end.
pub open spec fn trimmed_end(s: Seq<char>) -> Seq<char>
    decreases s.len(),
{
    if s.len() > 0 && white_space(s.last()) {
        trimmed_end(s.drop_last())
    } else {
        s
    }
}

/// A text without the white space around it.
pub open spec fn trimmed(s: Seq<char>) -> Seq<char> {
    trimmed_end(trimmed_start(s))
}

/// Remove the white space around a text.
pub fn trim(s: &[char]) -> (t: &[char])
    ensures
        t@ == trimmed(s@),
{
    let mut a: usize = 0;
    assert(s@.skip(0) =~= s@);
    while a < s.len() && is_white_space(s[a])
        invariant
            a <= s@.len(),
            trimmed_start(s@.skip(a as int)) == trimmed_start(s@),
        decreases s@.len() - a,
    {
        assert(s@.skip(a as int).drop_first() =~= s@.skip(a + 1));
        a += 1;
    }
    let mut b: usize = s.len();
    let ghost rest = s@.skip(a as int);
    assert(rest == trimmed_start(s@));
    assert(s@.subrange(a as int, b as int) =~= rest);
    while b > a && is_white_space(s[b - 1])
        invariant
            a <= b <= s@.len(),
            trimmed_end(s@.subrange(a as int, b as int)) == trimmed_end(rest),
        decreases b,
    {
        assert(s@.subrange(a as int, b as int).drop_last() =~= s@.subrange(a as int, b - 1));
        b -= 1;
    }
    &s[a..b]
}

// --- Numbers ---------------------------------------------------------------

/// The value of a digit, hexadecimal or decimal.
pub open spec fn digit(c: char, hex: bool) -> Option<nat> {
    if '0' <= c <= '9' {
        Some((c as u8 - 48) as nat)
    } else if hex && 'a' <= c <= 'f' {
        Some((c as u8 - 87) as nat)
    } else if hex && 'A' <= c <= 'F' {
        Some((c as u8 - 55) as nat)
    } else {
        None
    }
}

/// The value of a digit, hexadecimal or decimal.
pub fn digit_of(c: char, hex: bool) -> (d: Option<u8>)
    ensures
        match digit(c, hex) {
            Some(n) => d == Some(n as u8) && n < if hex {
                16nat
            } else {
                10
            },
            None => d is None,
        },
{
    if '0' <= c && c <= '9' {
        Some(c as u8 - 48)
    } else if hex && 'a' <= c && c <= 'f' {
        Some(c as u8 - 87)
    } else if hex && 'A' <= c && c <= 'F' {
        Some(c as u8 - 55)
    } else {
        None
    }
}

/// The number that digits stand for, the most significant first; `None` if one
/// of them is no digit.
pub open spec fn digits_value(s: Seq<char>, hex: bool) -> Option<nat>
    decreases s.len(),
{
    if s.len() == 0 {
        Some(0)
    } else {
        match (digits_value(s.drop_last(), hex), digit(s.last(), hex)) {
            (Some(v), Some(d)) => Some(
                if hex {
                    16 * v + d
                } else {
                    10 * v + d
                },
            ),
            _ => None,
        }
    }
}

/// A longer run of digits stands for no smaller number, and one with a bad
/// prefix for none.
proof fn lemma_prefix(s: Seq<char>, hex: bool, k: int)
    requires
        0 <= k <= s.len(),
    ensures
        digits_value(s.take(k), hex) is None ==> digits_value(s, hex) is None,
        digits_value(s, hex) matches Some(v) ==> digits_value(s.take(k), hex) matches Some(u) && u
            <= v,
    decreases s.len() - k,
{
    if k == s.len() {
        assert(s.take(k) =~= s);
    } else {
        lemma_prefix(s, hex, k + 1);
        assert(s.take(k + 1).drop_last() =~= s.take(k));
    }
}

/// The number that `s` stands for, if it is at most `max`: at least one digit,
/// and nothing else.
pub open spec fn magnitude(s: Seq<char>, hex: bool, max: nat) -> Option<nat> {
    match digits_value(s, hex) {
        Some(v) => if s.len() > 0 && v <= max {
            Some(v)
        } else {
            None
        },
        None => None,
    }
}

fn parse_magnitude(s: &[char], hex: bool, max: u128) -> (r: Option<u128>)
    requires
        max <= 0x8000_0000_0000_0000_0000_0000_0000_0000,
    ensures
        match magnitude(s@, hex, max as nat) {
            Some(v) => r == Some(v as u128) && v <= max,
            None => r is None,
        },
{
    if s.len() == 0 {
        return None;
    }
    let mut v: u128 = 0;
    let mut i: usize = 0;
    let radix: u128 = if hex {
        16
    } else {
        10
    };
    assert(s@.take(0) =~= Seq::empty());
    while i < s.len()
        invariant
            i <= s@.len(),
            v <= max <= 0x8000_0000_0000_0000_0000_0000_0000_0000,
            radix == if hex {
                16u128
            } else {
                10
            },
            digits_value(s@.take(i as int), hex) == Some(v as nat),
        decreases s@.len() - i,
    {
        proof {
            assert(s@.take(i + 1).drop_last() =~= s@.take(i as int));
            lemma_prefix(s@, hex, i + 1);
        }
        match digit_of(s[i], hex) {
            None => {
                return None;
            },
            Some(d) => {
                // The next value is above the bound.
                if v > max / radix {
                    assert(radix * v > max) by (nonlinear_arith)
                        requires
                            v > max / radix,
                            radix > 0,
                    ;
                    return None;
                }
                assert(radix * v <= max) by (nonlinear_arith)
                    requires
                        v <= max / radix,
                        radix > 0,
                ;
                let next: u128 = radix * v + d as u128;
                if next > max {
                    return None;
                }
                v = next;
            },
        }
        i += 1;
    }
    assert(s@.take(s@.len() as int) =~= s@);
    Some(v)
}

/// Read a hexadecimal number without a sign.
pub fn parse_hex(s: &[char], max: u64) -> (r: Option<u64>)
    ensures
        match magnitude(s@, true, max as nat) {
            Some(v) => r == Some(v as u64) && v <= max,
            None => r is None,
        },
{
    match parse_magnitude(s, true, max as u128) {
        Some(v) => Some(v as u64),
        None => None,
    }
}

/// An unsigned number with an optional plus sign, at most `max`.
pub open spec fn unsigned(s: Seq<char>, hex: bool, max: nat) -> Option<nat> {
    if s.len() > 0 && s[0] == '+' {
        magnitude(s.drop_first(), hex, max)
    } else {
        magnitude(s, hex, max)
    }
}

/// Read an unsigned number with an optional plus sign.
pub fn parse_unsigned(s: &[char], hex: bool, max: u64) -> (r: Option<u64>)
    ensures
        match unsigned(s@, hex, max as nat) {
            Some(v) => r == Some(v as u64) && v <= max,
            None => r is None,
        },
{
    let digits: &[char] = if s.len() > 0 && s[0] == '+' {
        &s[1..s.len()]
    } else {
        s
    };
    assert(s@.len() > 0 && s@[0] == '+' ==> digits@ =~= s@.drop_first());
    match parse_magnitude(digits, hex, max as u128) {
        Some(v) => Some(v as u64),
        None => None,
    }
}

/// A number with an optional sign that fits 128 bits.
pub open spec fn signed(s: Seq<char>, hex: bool) -> Option<int> {
    if s.len() > 0 && s[0] == '-' {
        match magnitude(s.drop_first(), hex, 0x8000_0000_0000_0000_0000_0000_0000_0000) {
            Some(v) => Some(-v),
            None => None,
        }
    } else {
        match unsigned(s, hex, 0x7FFF_FFFF_FFFF_FFFF_FFFF_FFFF_FFFF_FFFF) {
            Some(v) => Some(v as int),
            None => None,
        }
    }
}

/// Read a number with an optional sign.
pub fn parse_signed(s: &[char], hex: bool) -> (r: Option<i128>)
    ensures
        match signed(s@, hex) {
            Some(v) => r == Some(v as i128) && i128::MIN <= v <= i128::MAX,
            None => r is None,
        },
{
    if s.len() > 0 && s[0] == '-' {
        let digits: &[char] = &s[1..s.len()];
        assert(digits@ =~= s@.drop_first());
        match parse_magnitude(digits, hex, 0x8000_0000_0000_0000_0000_0000_0000_0000) {
            Some(v) => if v == 0x8000_0000_0000_0000_0000_0000_0000_0000 {
                Some(i128::MIN)
            } else {
                Some(-(v as i128))
            },
            None => None,
        }
    } else {
        let digits: &[char] = if s.len() > 0 && s[0] == '+' {
            &s[1..s.len()]
        } else {
            s
        };
        assert(s@.len() > 0 && s@[0] == '+' ==> digits@ =~= s@.drop_first());
        match parse_magnitude(digits, hex, 0x7FFF_FFFF_FFFF_FFFF_FFFF_FFFF_FFFF_FFFF) {
            Some(v) => Some(v as i128),
            None => None,
        }
    }
}

/// An integer literal: decimal, or hexadecimal behind `0x` or `0X`, white space
/// around it aside.
pub open spec fn integer(s: Seq<char>) -> Option<int> {
    let t = trimmed(s);
    if t.len() >= 2 && t[0] == '0' && (t[1] == 'x' || t[1] == 'X') {
        signed(t.skip(2), true)
    } else {
        signed(t, false)
    }
}

/// Read an integer literal — decimal, or `0x`/`0X` hex.
pub fn parse_integer(s: &[char]) -> (r: Option<i128>)
    ensures
        match integer(s@) {
            Some(v) => r == Some(v as i128) && i128::MIN <= v <= i128::MAX,
            None => r is None,
        },
{
    let t = trim(s);
    if t.len() >= 2 && t[0] == '0' && (t[1] == 'x' || t[1] == 'X') {
        let digits: &[char] = &t[2..t.len()];
        assert(digits@ =~= t@.skip(2));
        parse_signed(digits, true)
    } else {
        parse_signed(t, false)
    }
}

// --- Writing numbers -------------------------------------------------------

/// The character of a digit, in lower case.
pub open spec fn digit_char(d: nat) -> char {
    if d < 10 {
        (48 + d) as u8 as char
    } else {
        (87 + d) as u8 as char
    }
}

fn digit_char_of(d: u8) -> (c: char)
    requires
        d < 16,
    ensures
        c == digit_char(d as nat),
{
    if d < 10 {
        (48 + d) as char
    } else {
        (87 + d) as char
    }
}

/// The last `width` hexadecimal digits of `x`, the most significant first.
pub open spec fn hex_digits(x: nat, width: nat) -> Seq<char>
    decreases width,
{
    if width == 0 {
        Seq::empty()
    } else {
        hex_digits(x / 16, (width - 1) as nat).push(digit_char(x % 16))
    }
}

/// `0x` and the last `width` hexadecimal digits of `x`.
pub open spec fn hex_text(x: nat, width: nat) -> Seq<char> {
    seq!['0', 'x'] + hex_digits(x, width)
}

/// Append the last `width` hexadecimal digits of a number.
pub fn push_hex_digits(out: &mut String, x: u64, width: u8)
    ensures
        final(out)@ == old(out)@ + hex_digits(x as nat, width as nat),
    decreases width,
{
    if width > 0 {
        push_hex_digits(out, x / 16, width - 1);
        out.push(digit_char_of((x % 16) as u8));
    }
    assert(out@ =~= old(out)@ + hex_digits(x as nat, width as nat));
}

/// Append `0x` and the last `width` hexadecimal digits of a number.
pub fn push_hex(out: &mut String, x: u64, width: u8)
    ensures
        final(out)@ == old(out)@ + hex_text(x as nat, width as nat),
{
    out.push('0');
    out.push('x');
    push_hex_digits(out, x, width);
    assert(out@ =~= old(out)@ + hex_text(x as nat, width as nat));
}

/// The decimal digits of `x`, without leading zeros.
pub open spec fn decimal(x: nat) -> Seq<char>
    decreases x,
{
    if x < 10 {
        seq![digit_char(x)]
    } else {
        decimal(x / 10).push(digit_char(x % 10))
    }
}

/// The decimal form of `x`, with a minus sign where it is negative.
pub open spec fn signed_decimal(x: int) -> Seq<char> {
    if x < 0 {
        seq!['-'] + decimal((-x) as nat)
    } else {
        decimal(x as nat)
    }
}

/// Append the decimal digits of a number.
pub fn push_decimal(out: &mut String, x: u64)
    ensures
        final(out)@ == old(out)@ + decimal(x as nat),
    decreases x,
{
    if x >= 10 {
        push_decimal(out, x / 10);
    }
    out.push(digit_char_of((x % 10) as u8));
    assert(out@ =~= old(out)@ + decimal(x as nat));
}

/// Append the decimal form of a signed number.
pub fn push_signed_decimal(out: &mut String, x: i64)
    ensures
        final(out)@ == old(out)@ + signed_decimal(x as int),
{
    if x < 0 {
        out.push('-');
        let m: u64 = (-(x as i128)) as u64;
        push_decimal(out, m);
    } else {
        push_decimal(out, x as u64);
    }
    assert(out@ =~= old(out)@ + signed_decimal(x as int));
}

/// The character of a digit, in upper case.
pub open spec fn upper_digit_char(d: nat) -> char {
    if d < 10 {
        (48 + d) as u8 as char
    } else {
        (55 + d) as u8 as char
    }
}

fn upper_digit_char_of(d: u8) -> (c: char)
    requires
        d < 16,
    ensures
        c == upper_digit_char(d as nat),
{
    if d < 10 {
        (48 + d) as char
    } else {
        (55 + d) as char
    }
}

/// The hexadecimal digits of `x` in upper case, without leading zeros.
pub open spec fn upper_hex(x: nat) -> Seq<char>
    decreases x,
{
    if x < 16 {
        seq![upper_digit_char(x)]
    } else {
        upper_hex(x / 16).push(upper_digit_char(x % 16))
    }
}

/// Append the hexadecimal digits of a number in upper case.
pub fn push_upper_hex(out: &mut String, x: u64)
    ensures
        final(out)@ == old(out)@ + upper_hex(x as nat),
    decreases x,
{
    if x >= 16 {
        push_upper_hex(out, x / 16);
    }
    out.push(upper_digit_char_of((x % 16) as u8));
    assert(out@ =~= old(out)@ + upper_hex(x as nat));
}

/// `n` spaces, or none if `n` is negative.
pub open spec fn spaces(n: int) -> Seq<char> {
    Seq::new(
        if n > 0 {
            n as nat
        } else {
            0
        },
        |i: int| ' ',
    )
}

/// Append spaces.
pub fn push_spaces(out: &mut String, n: usize)
    ensures
        final(out)@ == old(out)@ + spaces(n as int),
{
    let mut i: usize = 0;
    assert(out@ =~= old(out)@ + spaces(0));
    while i < n
        invariant
            i <= n,
            out@ == old(out)@ + spaces(i as int),
        decreases n - i,
    {
        out.push(' ');
        i += 1;
        assert(out@ =~= old(out)@ + spaces(i as int));
    }
}

/// A text filled up with spaces behind it to at least `width` characters.
pub open spec fn left_aligned(s: Seq<char>, width: nat) -> Seq<char> {
    s + spaces(width - s.len())
}

/// Append a text, filled up with spaces behind it.
pub fn push_left_aligned(out: &mut String, s: &str, width: usize)
    ensures
        final(out)@ == old(out)@ + left_aligned(s@, width as nat),
{
    out.append(s);
    let n: usize = chars_of(s).len();
    push_spaces(
        out,
        if n < width {
            width - n
        } else {
            0
        },
    );
    assert(out@ =~= old(out)@ + left_aligned(s@, width as nat));
}

/// The decimal form of a number reads back as that number.
pub proof fn law_decimal_round_trip(x: nat)
    ensures
        decimal(x).len() > 0,
        digits_value(decimal(x), false) == Some(x),
    decreases x,
{
    if x < 10 {
        assert(decimal(x).drop_last() =~= Seq::empty());
        assert(decimal(x).last() == digit_char(x));
        assert(digits_value(decimal(x).drop_last(), false) == Some(0nat));
        assert(digit(digit_char(x), false) == Some(x));
    } else {
        law_decimal_round_trip(x / 10);
        assert(decimal(x).drop_last() =~= decimal(x / 10));
        assert(decimal(x).last() == digit_char(x % 10));
    }
}

/// The hexadecimal form of a number reads back as that number, if it has room
/// for all of its digits.
pub proof fn law_hex_round_trip(x: nat, width: nat)
    requires
        x < vstd::arithmetic::power::pow(16, width),
    ensures
        hex_digits(x, width).len() == width,
        digits_value(hex_digits(x, width), true) == Some(x),
    decreases width,
{
    vstd::arithmetic::power::lemma_pow0(16);
    if width > 0 {
        vstd::arithmetic::power::lemma_pow_adds(16, 1, (width - 1) as nat);
        vstd::arithmetic::power::lemma_pow1(16);
        law_hex_round_trip(x / 16, (width - 1) as nat);
        assert(hex_digits(x, width).drop_last() =~= hex_digits(x / 16, (width - 1) as nat));
        assert(hex_digits(x, width).last() == digit_char(x % 16));
    }
}

} // verus!
