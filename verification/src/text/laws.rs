//! What reading and writing text guarantees: digits and letters by their
//! characters, and that what is written reads back.
use vstd::arithmetic::power::{lemma_pow0, lemma_pow1, lemma_pow_adds, pow};
use vstd::prelude::*;

use crate::text::{
    decimal, digit, digits_value, hex_digits, integer, law_decimal_round_trip, law_hex_round_trip,
    lower, lowered, magnitude, signed, signed_decimal, trimmed, trimmed_end, trimmed_start,
    unsigned, upper_digit_char, upper_hex, white_space,
};

verus! {

/// How many numbers hexadecimal digits tell apart.
pub proof fn lemma_pow16()
    ensures
        pow(16, 1) == 16,
        pow(16, 2) == 0x100,
        pow(16, 3) == 0x1000,
        pow(16, 4) == 0x1_0000,
        pow(16, 8) == 0x1_0000_0000,
        pow(16, 16) == 0x1_0000_0000_0000_0000,
{
    lemma_pow1(16);
    lemma_pow_adds(16, 1, 1);
    assert(pow(16, 2) == 16 * 16);
    lemma_pow_adds(16, 2, 1);
    assert(pow(16, 3) == 0x100 * 16);
    lemma_pow_adds(16, 2, 2);
    assert(pow(16, 4) == 0x100 * 0x100);
    lemma_pow_adds(16, 4, 4);
    assert(pow(16, 8) == 0x1_0000 * 0x1_0000);
    lemma_pow_adds(16, 8, 8);
    assert(pow(16, 16) == 0x1_0000_0000int * 0x1_0000_0000int);
}

/// The digits, and nothing else: `0` to `9`, and in hexadecimal also `a` to `f`
/// in either case.
pub proof fn law_digits(c: char)
    ensures
        ({
            let lower_case = seq!['0', '1', '2', '3', '4', '5', '6', '7', '8', '9', 'a', 'b', 'c', 'd', 'e', 'f'];
            let upper_case = seq!['0', '1', '2', '3', '4', '5', '6', '7', '8', '9', 'A', 'B', 'C', 'D', 'E', 'F'];
            &&& forall|d: int| 0 <= d < 16 ==> digit(#[trigger] lower_case[d], true) == Some(d as nat)
            &&& forall|d: int| 0 <= d < 16 ==> digit(#[trigger] upper_case[d], true) == Some(d as nat)
            &&& forall|d: int| 0 <= d < 10 ==> digit(#[trigger] lower_case[d], false) == Some(d as nat)
            &&& digit(c, true) matches Some(d) ==> d < 16 && (c == lower_case[d as int] || c
                == upper_case[d as int])
            &&& digit(c, false) matches Some(d) ==> d < 10 && c == lower_case[d as int]
        }),
{
}

/// Digits count by their place: the number of a text is made up of those of its
/// parts, the first weighted by the radix once for each digit of the second.
pub proof fn law_digits_count_by_their_place(s: Seq<char>, t: Seq<char>, hex: bool)
    ensures
        ({
            let radix = if hex {
                16int
            } else {
                10
            };
            match (digits_value(s, hex), digits_value(t, hex)) {
                (Some(a), Some(b)) => digits_value(s + t, hex) == Some(
                    (a * pow(radix, t.len()) + b) as nat,
                ),
                _ => digits_value(s + t, hex) is None,
            }
        }),
        digits_value(s.take(0), hex) == Some(0nat),
        s.len() == 1 ==> digits_value(s, hex) == digit(s[0], hex),
    decreases t.len(),
{
    let radix = if hex {
        16int
    } else {
        10
    };
    lemma_pow0(radix);
    if s.len() == 1 {
        assert(s.drop_last() =~= Seq::empty());
        assert(digits_value(s.drop_last(), hex) == Some(0nat));
    }
    if t.len() == 0 {
        assert(s + t =~= s);
    } else {
        let u = t.drop_last();
        law_digits_count_by_their_place(s, u, hex);
        assert((s + t).drop_last() =~= s + u);
        assert((s + t).last() == t.last());
        lemma_pow_adds(radix, 1, u.len());
        lemma_pow1(radix);
        vstd::arithmetic::power::lemma_pow_positive(radix, u.len());
        match (digits_value(s, hex), digits_value(u, hex), digit(t.last(), hex)) {
            (Some(a), Some(b), Some(d)) => {
                let p = pow(radix, u.len());
                assert(radix * (a * p + b) + d == a * (radix * p) + (radix * b + d))
                    by (nonlinear_arith);
                assert(a * p >= 0 && a * (radix * p) >= 0) by (nonlinear_arith)
                    requires
                        a >= 0,
                        p > 0,
                        radix > 0,
                ;
            },
            _ => {},
        }
    }
}

/// An unsigned number is read when it has at least one digit, only digits, and is
/// within the bound; a plus sign before it does not matter.
pub proof fn law_unsigned(s: Seq<char>, hex: bool, max: nat)
    ensures
        s.len() > 0 && s[0] != '+' ==> match digits_value(s, hex) {
            Some(v) => unsigned(s, hex, max) == if v <= max {
                Some(v)
            } else {
                None
            },
            None => unsigned(s, hex, max) is None,
        },
        s.len() == 0 ==> unsigned(s, hex, max) is None,
        s.len() > 0 && s[0] != '+' ==> unsigned(seq!['+'] + s, hex, max) == unsigned(s, hex, max),
        unsigned(seq!['+'], hex, max) is None,
{
    assert((seq!['+'] + s).drop_first() =~= s);
    assert(seq!['+'].drop_first() =~= Seq::empty());
}

/// White space is what Unicode says it is.
pub proof fn law_white_space(c: char)
    ensures
        ({
            let n = c as u32;
            white_space(c) <==> n == 0x9 || n == 0xA || n == 0xB || n == 0xC || n == 0xD || n
                == 0x20 || n == 0x85 || n == 0xA0 || n == 0x1680 || (0x2000 <= n <= 0x200A) || n
                == 0x2028 || n == 0x2029 || n == 0x202F || n == 0x205F || n == 0x3000
        }),
{
}

/// Lower case changes the letters `A` to `Z` to `a` to `z`, in place, and no other
/// character.
pub proof fn law_lowered(s: Seq<char>, i: int)
    requires
        0 <= i < s.len(),
    ensures
        lowered(s).len() == s.len(),
        ({
            let n = s[i] as u32;
            lowered(s)[i] as u32 == if 65 <= n <= 90 {
                n + 32
            } else {
                n as int
            }
        }),
{
    assert(lowered(s)[i] == lower(s[i]));
}

/// Trimming leaves exactly the text between white space: the text itself, which
/// neither begins nor ends with white space, whatever stands around it.
pub proof fn law_trimmed(a: Seq<char>, t: Seq<char>, b: Seq<char>)
    requires
        forall|i: int| 0 <= i < a.len() ==> white_space(#[trigger] a[i]),
        forall|i: int| 0 <= i < b.len() ==> white_space(#[trigger] b[i]),
        t.len() > 0,
        !white_space(t[0]),
        !white_space(t.last()),
    ensures
        trimmed(a + t + b) == t,
        trimmed(a) == Seq::<char>::empty(),
{
    lemma_trimmed_start(a, t + b);
    assert(a + t + b =~= a + (t + b));
    lemma_trimmed_end(t, b);
    lemma_all_white(a);
}

/// Trimming removes the white space in front.
pub proof fn lemma_trimmed_start(a: Seq<char>, t: Seq<char>)
    requires
        forall|i: int| 0 <= i < a.len() ==> white_space(#[trigger] a[i]),
        t.len() > 0,
        !white_space(t[0]),
    ensures
        trimmed_start(a + t) == t,
    decreases a.len(),
{
    if a.len() == 0 {
        assert(a + t =~= t);
    } else {
        assert(white_space(a[0]));
        assert((a + t).drop_first() =~= a.drop_first() + t);
        lemma_trimmed_start(a.drop_first(), t);
    }
}

proof fn lemma_trimmed_end(t: Seq<char>, b: Seq<char>)
    requires
        forall|i: int| 0 <= i < b.len() ==> white_space(#[trigger] b[i]),
        t.len() > 0,
        !white_space(t.last()),
    ensures
        trimmed_end(t + b) == t,
    decreases b.len(),
{
    if b.len() == 0 {
        assert(t + b =~= t);
    } else {
        assert(white_space(b[b.len() - 1]));
        assert((t + b).drop_last() =~= t + b.drop_last());
        lemma_trimmed_end(t, b.drop_last());
    }
}

proof fn lemma_all_white(a: Seq<char>)
    requires
        forall|i: int| 0 <= i < a.len() ==> white_space(#[trigger] a[i]),
    ensures
        trimmed_start(a) == Seq::<char>::empty(),
    decreases a.len(),
{
    if a.len() > 0 {
        assert(white_space(a[0]));
        lemma_all_white(a.drop_first());
    }
}

/// Decimal forms consist of digits alone.
proof fn lemma_decimal_digits(x: nat)
    ensures
        decimal(x).len() > 0,
        forall|i: int| 0 <= i < decimal(x).len() ==> '0' <= #[trigger] decimal(x)[i] <= '9',
        x > 0 ==> decimal(x)[0] != '0',
        x < 10 ==> decimal(x).len() == 1,
    decreases x,
{
    if x >= 10 {
        lemma_decimal_digits(x / 10);
        assert(decimal(x)[0] == decimal(x / 10)[0]);
    }
}

/// An integer that fits 128 bits reads back from its decimal form, and one that
/// does not is refused; white space around it does not matter, nor a plus sign
/// before it.
pub proof fn law_integer_reads_decimal(v: int, a: Seq<char>, b: Seq<char>)
    requires
        forall|i: int| 0 <= i < a.len() ==> white_space(#[trigger] a[i]),
        forall|i: int| 0 <= i < b.len() ==> white_space(#[trigger] b[i]),
    ensures
        integer(a + signed_decimal(v) + b) == if -0x8000_0000_0000_0000_0000_0000_0000_0000 <= v
            <= 0x7FFF_FFFF_FFFF_FFFF_FFFF_FFFF_FFFF_FFFF {
            Some(v)
        } else {
            None
        },
        v >= 0 ==> integer(a + (seq!['+'] + decimal(v as nat)) + b) == integer(
            a + signed_decimal(v) + b,
        ),
{
    let m = if v < 0 {
        (-v) as nat
    } else {
        v as nat
    };
    let d = decimal(m);
    let t = signed_decimal(v);
    lemma_decimal_digits(m);
    law_decimal_round_trip(m);
    assert(d[0] == d[0] && d[d.len() - 1] == d[d.len() - 1]);
    if v < 0 {
        assert(t.drop_first() =~= d);
        assert(t.last() == d.last());
    }
    law_trimmed(a, t, b);
    if v >= 0 {
        let plus = seq!['+'] + d;
        assert(plus.last() == d.last());
        law_trimmed(a, plus, b);
        assert(plus.drop_first() =~= d);
    }
}

/// Hexadecimal digits, each in lower case, are no sign.
proof fn lemma_hex_digits(x: nat, width: nat)
    ensures
        hex_digits(x, width).len() == width,
        forall|i: int|
            0 <= i < width ==> digit(#[trigger] hex_digits(x, width)[i], true) is Some,
    decreases width,
{
    if width > 0 {
        lemma_hex_digits(x / 16, (width - 1) as nat);
    }
}

/// A number reads back from its hexadecimal form behind `0x` or `0X`, if the form
/// has room for all its digits; behind a minus sign it reads as its negative.
pub proof fn law_integer_reads_hexadecimal(x: nat, width: nat, upper: bool)
    requires
        x < pow(16, width),
        x <= 0x7FFF_FFFF_FFFF_FFFF_FFFF_FFFF_FFFF_FFFF,
        width > 0,
    ensures
        ({
            let mark = if upper {
                seq!['0', 'X']
            } else {
                seq!['0', 'x']
            };
            &&& integer(mark + hex_digits(x, width)) == Some(x as int)
            &&& integer(mark + seq!['-'] + hex_digits(x, width)) == Some(-x)
            &&& integer(mark + seq!['+'] + hex_digits(x, width)) == Some(x as int)
        }),
{
    let mark = if upper {
        seq!['0', 'X']
    } else {
        seq!['0', 'x']
    };
    let d = hex_digits(x, width);
    lemma_hex_digits(x, width);
    law_hex_round_trip(x, width);
    assert(digit(d[0], true) is Some && digit(d[width - 1], true) is Some);
    let none = Seq::<char>::empty();
    let plain = mark + d;
    let minus = mark + seq!['-'] + d;
    let plus = mark + seq!['+'] + d;
    law_trimmed(none, plain, none);
    law_trimmed(none, minus, none);
    law_trimmed(none, plus, none);
    assert(none + plain + none =~= plain);
    assert(none + minus + none =~= minus);
    assert(none + plus + none =~= plus);
    assert(plain.skip(2) =~= d);
    assert(minus.skip(2) =~= seq!['-'] + d);
    assert(plus.skip(2) =~= seq!['+'] + d);
    assert((seq!['-'] + d).drop_first() =~= d);
    assert((seq!['+'] + d).drop_first() =~= d);
}

/// A text is no integer when it is empty, when it is a sign alone, or when it holds
/// a character that is no digit behind the sign and the radix mark.
pub proof fn law_integer_refuses(t: Seq<char>, hex: bool)
    requires
        t.len() == 0 || (t[0] != '-' && t[0] != '+' && digits_value(t, hex) is None),
    ensures
        signed(t, hex) is None,
        signed(seq!['-'] + t, hex) is None,
        signed(seq!['+'] + t, hex) is None,
{
    assert((seq!['-'] + t).drop_first() =~= t);
    assert((seq!['+'] + t).drop_first() =~= t);
    assert(magnitude(t, hex, 0) is None);
}

/// The upper-case hexadecimal form reads back as the number, and has no zero before
/// its digits.
pub proof fn law_upper_hex_round_trip(x: nat)
    ensures
        upper_hex(x).len() > 0,
        digits_value(upper_hex(x), true) == Some(x),
        x > 0 ==> upper_hex(x)[0] != '0',
        forall|i: int| 0 <= i < upper_hex(x).len() ==> !('a' <= #[trigger] upper_hex(x)[i] <= 'f'),
    decreases x,
{
    if x < 16 {
        assert(upper_hex(x).drop_last() =~= Seq::empty());
        assert(upper_hex(x).last() == upper_digit_char(x));
        assert(digits_value(upper_hex(x).drop_last(), true) == Some(0nat));
    } else {
        law_upper_hex_round_trip(x / 16);
        assert(upper_hex(x).drop_last() =~= upper_hex(x / 16));
        assert(upper_hex(x).last() == upper_digit_char(x % 16));
        assert(upper_hex(x)[0] == upper_hex(x / 16)[0]);
    }
}

/// Numbers are written in lower case, with the digit of place `i` from the right
/// worth `16^i`.
pub proof fn law_hex_digits_by_their_place(x: nat, width: nat, i: int)
    requires
        0 <= i < width,
    ensures
        hex_digits(x, width).len() == width,
        !('A' <= hex_digits(x, width)[i] <= 'F'),
        digit(hex_digits(x, width)[width - 1 - i], true) == Some(
            (x as int / pow(16, i as nat) % 16) as nat,
        ),
    decreases width,
{
    lemma_pow0(16);
    lemma_hex_digits(x, width);
    let front = hex_digits(x / 16, (width - 1) as nat);
    lemma_hex_digits(x / 16, (width - 1) as nat);
    if i < width - 1 {
        law_hex_digits_by_their_place(x / 16, (width - 1) as nat, i);
        assert(hex_digits(x, width)[i] == front[i]);
    }
    if i > 0 {
        let p = pow(16, (i - 1) as nat);
        vstd::arithmetic::power::lemma_pow_positive(16, (i - 1) as nat);
        law_hex_digits_by_their_place(x / 16, (width - 1) as nat, i - 1);
        lemma_pow_adds(16, 1, (i - 1) as nat);
        lemma_pow1(16);
        vstd::arithmetic::div_mod::lemma_div_denominator(x as int, 16, p);
        assert(pow(16, i as nat) == 16 * p);
        assert((x / 16) as int / p == x as int / (16 * p));
        assert(hex_digits(x, width)[width - 1 - i] == front[width - 1 - i]);
    }
}

} // verus!
