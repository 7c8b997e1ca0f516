//! Little-endian integers, the byte order of every CANopen frame.
use vstd::prelude::*;

verus! {

/// The `n` low-order bytes of `x`, least significant first.
pub open spec fn le_bytes(x: nat, n: nat) -> Seq<u8>
    decreases n,
{
    if n == 0 {
        Seq::empty()
    } else {
        seq![(x % 256) as u8] + le_bytes(x / 256, (n - 1) as nat)
    }
}

/// The number whose little-endian encoding is `s`.
pub open spec fn le_value(s: Seq<u8>) -> nat
    decreases s.len(),
{
    if s.len() == 0 {
        0
    } else {
        s[0] as nat + 256 * le_value(s.drop_first())
    }
}

/// `256^n`, the number of distinct values that `n` bytes hold.
pub open spec fn byte_range(n: nat) -> nat
    decreases n,
{
    if n == 0 {
        1
    } else {
        256 * byte_range((n - 1) as nat)
    }
}

/// The encoding has the requested length.
pub proof fn lemma_le_bytes_len(x: nat, n: nat)
    ensures
        le_bytes(x, n).len() == n,
    decreases n,
{
    if n > 0 {
        lemma_le_bytes_len(x / 256, (n - 1) as nat);
    }
}

/// Decoding gives back what was encoded, for every number that fits.
pub proof fn lemma_le_round_trip(x: nat, n: nat)
    requires
        x < byte_range(n),
    ensures
        le_bytes(x, n).len() == n,
        le_value(le_bytes(x, n)) == x,
    decreases n,
{
    lemma_le_bytes_len(x, n);
    if n > 0 {
        let m = (n - 1) as nat;
        lemma_le_round_trip(x / 256, m);
        assert(le_bytes(x, n).drop_first() =~= le_bytes(x / 256, m));
    }
}

/// Encoding gives back what was decoded, for every byte string.
pub proof fn lemma_le_value_round_trip(s: Seq<u8>)
    ensures
        le_value(s) < byte_range(s.len()),
        le_bytes(le_value(s), s.len()) == s,
    decreases s.len(),
{
    if s.len() > 0 {
        lemma_le_value_round_trip(s.drop_first());
        let rest = le_value(s.drop_first());
        assert(le_value(s) % 256 == s[0] as nat);
        assert(le_value(s) / 256 == rest);
        assert(s =~= seq![s[0]] + s.drop_first());
    }
}

/// The ranges of the machine integers, as byte counts.
pub proof fn lemma_byte_ranges()
    ensures
        byte_range(1) == 0x100,
        byte_range(2) == 0x1_0000,
        byte_range(4) == 0x1_0000_0000,
        byte_range(8) == 0x1_0000_0000_0000_0000,
{
    reveal_with_fuel(byte_range, 9);
}

/// The little-endian bytes of a 16-bit number.
pub fn u16_bytes(x: u16) -> (b: [u8; 2])
    ensures
        b@ == le_bytes(x as nat, 2),
{
    let b = [(x % 256) as u8, (x / 256) as u8];
    proof {
        reveal_with_fuel(le_bytes, 3);
        assert(b@ =~= le_bytes(x as nat, 2));
    }
    b
}

/// The little-endian bytes of a 32-bit number.
pub fn u32_bytes(x: u32) -> (b: [u8; 4])
    ensures
        b@ == le_bytes(x as nat, 4),
{
    let x1: u32 = x / 256;
    let x2: u32 = x1 / 256;
    let x3: u32 = x2 / 256;
    let b = [(x % 256) as u8, (x1 % 256) as u8, (x2 % 256) as u8, (x3 % 256) as u8];
    proof {
        reveal_with_fuel(le_bytes, 5);
        assert(b@ =~= le_bytes(x as nat, 4));
    }
    b
}

/// The little-endian bytes of a 64-bit number.
pub fn u64_bytes(x: u64) -> (b: [u8; 8])
    ensures
        b@ == le_bytes(x as nat, 8),
{
    let x1: u64 = x / 256;
    let x2: u64 = x1 / 256;
    let x3: u64 = x2 / 256;
    let x4: u64 = x3 / 256;
    let x5: u64 = x4 / 256;
    let x6: u64 = x5 / 256;
    let x7: u64 = x6 / 256;
    let b = [
        (x % 256) as u8,
        (x1 % 256) as u8,
        (x2 % 256) as u8,
        (x3 % 256) as u8,
        (x4 % 256) as u8,
        (x5 % 256) as u8,
        (x6 % 256) as u8,
        (x7 % 256) as u8,
    ];
    proof {
        assert(le_bytes(x7 as nat, 1) =~= seq![b@[7]] + le_bytes(x7 as nat / 256, 0));
        assert(le_bytes(x6 as nat, 2) =~= seq![b@[6]] + le_bytes(x7 as nat, 1));
        assert(le_bytes(x5 as nat, 3) =~= seq![b@[5]] + le_bytes(x6 as nat, 2));
        assert(le_bytes(x4 as nat, 4) =~= seq![b@[4]] + le_bytes(x5 as nat, 3));
        assert(le_bytes(x3 as nat, 5) =~= seq![b@[3]] + le_bytes(x4 as nat, 4));
        assert(le_bytes(x2 as nat, 6) =~= seq![b@[2]] + le_bytes(x3 as nat, 5));
        assert(le_bytes(x1 as nat, 7) =~= seq![b@[1]] + le_bytes(x2 as nat, 6));
        assert(le_bytes(x as nat, 8) =~= seq![b@[0]] + le_bytes(x1 as nat, 7));
        assert(b@ =~= le_bytes(x as nat, 8));
    }
    b
}

/// The number that a byte string of at most eight bytes encodes.
pub fn from_le(s: &[u8]) -> (x: u64)
    requires
        s@.len() <= 8,
    ensures
        x == le_value(s@),
        x < byte_range(s@.len()),
{
    let mut x: u64 = 0;
    let mut i: usize = s.len();
    proof {
        assert(s@.subrange(s@.len() as int, s@.len() as int) =~= Seq::<u8>::empty());
    }
    while i > 0
        invariant
            i <= s@.len() <= 8,
            x == le_value(s@.subrange(i as int, s@.len() as int)),
        decreases i,
    {
        let ghost tail = s@.subrange(i as int, s@.len() as int);
        let ghost longer = s@.subrange(i - 1, s@.len() as int);
        proof {
            assert(longer.drop_first() =~= tail);
            lemma_le_value_round_trip(longer);
            lemma_byte_range_bound(longer.len());
        }
        i -= 1;
        x = s[i] as u64 + 256 * x;
    }
    proof {
        assert(s@.subrange(0, s@.len() as int) =~= s@);
        lemma_le_value_round_trip(s@);
    }
    x
}

/// Eight bytes or fewer always fit a 64-bit number.
proof fn lemma_byte_range_bound(n: nat)
    requires
        n <= 8,
    ensures
        byte_range(n) <= 0x1_0000_0000_0000_0000,
    decreases 8 - n,
{
    if n == 8 {
        lemma_byte_ranges();
    } else {
        lemma_byte_range_bound(n + 1);
    }
}

/// The number whose bytes are `b0`, `b1`, least significant first.
pub open spec fn two_bytes(b0: u8, b1: u8) -> int {
    b0 + 0x100 * b1
}

/// The number whose bytes are `b0` to `b3`, least significant first.
pub open spec fn four_bytes(b0: u8, b1: u8, b2: u8, b3: u8) -> int {
    b0 + 0x100 * b1 + 0x1_0000 * b2 + 0x100_0000 * b3
}

/// Byte `i` of an encoding is the digit of weight `256^i`.
pub proof fn law_bytes_are_digits(x: nat, n: nat, i: int)
    requires
        0 <= i < n,
    ensures
        le_bytes(x, n).len() == n,
        le_bytes(x, n)[i] == x as int / vstd::arithmetic::power::pow(256, i as nat) % 256,
    decreases n,
{
    vstd::arithmetic::power::lemma_pow0(256);
    lemma_le_bytes_len(x, n);
    if i > 0 {
        let p = vstd::arithmetic::power::pow(256, (i - 1) as nat);
        vstd::arithmetic::power::lemma_pow_positive(256, (i - 1) as nat);
        law_bytes_are_digits(x / 256, (n - 1) as nat, i - 1);
        vstd::arithmetic::power::lemma_pow_adds(256, 1, (i - 1) as nat);
        vstd::arithmetic::power::lemma_pow1(256);
        vstd::arithmetic::div_mod::lemma_div_denominator(x as int, 256, p);
        assert(vstd::arithmetic::power::pow(256, i as nat) == 256 * p);
        assert((x / 256) as int / p == x as int / (256 * p));
        assert(le_bytes(x, n)[i] == le_bytes(x / 256, (n - 1) as nat)[i - 1]);
    }
}

/// The bytes of a 16-bit number make it up, and so do those of a 32-bit number;
/// and bytes stand for the number they make up.
pub proof fn law_bytes_make_up_the_number(x: u16, y: u32, s: Seq<u8>)
    ensures
        ({
            let a = le_bytes(x as nat, 2);
            let b = le_bytes(y as nat, 4);
            &&& a.len() == 2 && two_bytes(a[0], a[1]) == x
            &&& b.len() == 4 && four_bytes(b[0], b[1], b[2], b[3]) == y
        }),
        s.len() == 2 ==> le_value(s) == two_bytes(s[0], s[1]),
        s.len() == 4 ==> le_value(s) == four_bytes(s[0], s[1], s[2], s[3]),
{
    lemma_byte_ranges();
    lemma_le_round_trip(x as nat, 2);
    lemma_le_round_trip(y as nat, 4);
    let a = le_bytes(x as nat, 2);
    let b = le_bytes(y as nat, 4);
    lemma_le_value_2(a);
    lemma_le_value_4(b);
    if s.len() == 2 {
        lemma_le_value_2(s);
    }
    if s.len() == 4 {
        lemma_le_value_4(s);
    }
}

proof fn lemma_le_value_2(s: Seq<u8>)
    requires
        s.len() == 2,
    ensures
        le_value(s) == two_bytes(s[0], s[1]),
{
    reveal_with_fuel(le_value, 3);
    assert(s.drop_first()[0] == s[1]);
}

proof fn lemma_le_value_4(s: Seq<u8>)
    requires
        s.len() == 4,
    ensures
        le_value(s) == four_bytes(s[0], s[1], s[2], s[3]),
{
    reveal_with_fuel(le_value, 5);
    let t = s.drop_first();
    let u = t.drop_first();
    assert(t[0] == s[1] && u[0] == s[2] && u.drop_first()[0] == s[3]);
}

} // verus!
