//! What block transfer guarantees: its checksum, and what stands in its frames.
//!
//! Polynomials over the two-element field are functions from exponents to
//! coefficients; `!=` adds coefficients.
use vstd::prelude::*;

use crate::little_endian::{four_bytes, law_bytes_make_up_the_number, le_bytes, two_bytes};
use crate::sdo::block::{
    crc_in, crc_of, crc_shift, crc_shifts, end_frame_of, is_subcommand, negotiation, negotiation_of,
    sized_initiate, sized_initiate_of, sub_segment_at, unused_bytes, BlockInitiate,
    BlockNegotiation, BlockWriter, Reception, CS_5, CS_6, SUBCMD_END, SUBCMD_RESPONSE, SUBCMD_START,
};
use crate::types::Error;

verus! {

// --- The checksum ----------------------------------------------------------

/// Coefficient `i` of a 16-bit word read as a polynomial.
pub open spec fn word_bit(w: u16, i: int) -> bool {
    0 <= i < 16 && (w >> (i as u16)) & 1 == 1
}

/// Coefficient `i` of a byte read as a polynomial.
pub open spec fn byte_bit(b: u8, i: int) -> bool {
    0 <= i < 8 && (b >> (i as u8)) & 1 == 1
}

/// Coefficient `i` of a message read as a polynomial: all eight bits of each
/// byte, the first byte with the highest exponents.
pub open spec fn message_bit(data: Seq<u8>, i: int) -> bool {
    0 <= i < 8 * data.len() && byte_bit(data[data.len() - 1 - i / 8], i % 8)
}

/// Coefficient `i` of the message times `x^16` plus its checksum.
pub open spec fn codeword_bit(data: Seq<u8>, crc: u16, i: int) -> bool {
    message_bit(data, i - 16) != word_bit(crc, i)
}

/// Coefficient `i` of `q` times the generator `x^16 + x^12 + x^5 + 1`.
pub open spec fn times_generator(q: spec_fn(int) -> bool, i: int) -> bool {
    ((q(i) != q(i - 5)) != q(i - 12)) != q(i - 16)
}

/// `q` has no coefficient but those of `x^0` to `x^(n - 1)`.
pub open spec fn below(q: spec_fn(int) -> bool, n: int) -> bool {
    forall|i: int| #[trigger] q(i) ==> 0 <= i < n
}

/// One shift multiplies by `x`, the generator taken off once where `x^16` comes
/// up.
proof fn lemma_shift(s: u16, i: int)
    ensures
        word_bit(s, i - 1) == (((s & 0x8000 != 0) && (i == 0 || i == 5 || i == 12 || i == 16))
            != word_bit(crc_shift(s), i)),
{
    let t = crc_shift(s);
    if 1 <= i <= 15 {
        let k = i as u16;
        let j = (i - 1) as u16;
        assert(((s >> j) & 1 == 1) == (((s & 0x8000 != 0) && (k == 5 || k == 12)) != ((t >> k) & 1
            == 1))) by (bit_vector)
            requires
                1 <= k <= 15,
                k == j + 1,
                t == (if s & 0x8000 != 0 {
                    (s << 1) ^ 0x1021
                } else {
                    s << 1
                }),
        ;
    } else {
        assert(((t >> 0u16) & 1 == 1) == (s & 0x8000 != 0)) by (bit_vector)
            requires
                t == (if s & 0x8000 != 0 {
                    (s << 1) ^ 0x1021
                } else {
                    s << 1
                }),
        ;
        assert(((s >> 15u16) & 1 == 1) == (s & 0x8000 != 0)) by (bit_vector);
    }
}

/// `n` shifts multiply by `x^n`, up to a multiple of the generator.
proof fn lemma_shifts(s: u16, n: nat) -> (q: spec_fn(int) -> bool)
    ensures
        below(q, n as int),
        forall|i: int| #[trigger]
            word_bit(s, i - n) == (times_generator(q, i) != word_bit(crc_shifts(s, n), i)),
    decreases n,
{
    if n == 0 {
        let q = |i: int| false;
        assert forall|i: int| #[trigger] word_bit(s, i - n) == (times_generator(q, i) != word_bit(
            crc_shifts(s, n),
            i,
        )) by {}
        q
    } else {
        let p = lemma_shifts(s, (n - 1) as nat);
        let t = crc_shifts(s, (n - 1) as nat);
        let top = t & 0x8000 != 0;
        let q = |i: int| p(i - 1) != (i == 0 && top);
        assert forall|i: int| #[trigger] q(i) implies 0 <= i < n by {
            if p(i - 1) {
                assert(0 <= i - 1 < n - 1);
            }
        }
        assert forall|i: int| #[trigger] word_bit(s, i - n) == (times_generator(q, i) != word_bit(
            crc_shifts(s, n),
            i,
        )) by {
            assert(word_bit(s, (i - 1) - (n - 1)) == (times_generator(p, i - 1) != word_bit(
                t,
                i - 1,
            )));
            lemma_shift(t, i);
        }
        q
    }
}

/// Adding a byte into the high half adds it times `x^8`.
proof fn lemma_add_byte(r: u16, b: u8, i: int)
    ensures
        word_bit(r ^ ((b as u16) << 8), i) == (word_bit(r, i) != byte_bit(b, i - 8)),
{
    let s = r ^ ((b as u16) << 8);
    if 0 <= i < 8 {
        let k = i as u16;
        assert(((s >> k) & 1 == 1) == ((r >> k) & 1 == 1)) by (bit_vector)
            requires
                k < 8,
                s == r ^ ((b as u16) << 8),
        ;
    } else if 8 <= i < 16 {
        let k = i as u16;
        let j = (i - 8) as u8;
        assert(((s >> k) & 1 == 1) == (((r >> k) & 1 == 1) != ((b >> j) & 1 == 1))) by (bit_vector)
            requires
                8 <= k < 16,
                k == j + 8,
                s == r ^ ((b as u16) << 8),
        ;
    }
}

/// A message's checksum is what its product with `x^16` leaves.
proof fn lemma_crc(data: Seq<u8>) -> (q: spec_fn(int) -> bool)
    ensures
        below(q, 8 * data.len() as int),
        forall|i: int| #[trigger]
            codeword_bit(data, crc_of(data), i) == times_generator(q, i),
    decreases data.len(),
{
    if data.len() == 0 {
        let q = |i: int| false;
        assert forall|i: int| #[trigger] codeword_bit(data, crc_of(data), i) == times_generator(
            q,
            i,
        ) by {
            if 0 <= i < 16 {
                let k = i as u16;
                assert((0u16 >> k) & 1 == 0) by (bit_vector);
            }
        }
        q
    } else {
        let front = data.drop_last();
        let b = data.last();
        let r = crc_of(front);
        let s = r ^ ((b as u16) << 8);
        let p = lemma_crc(front);
        let t = lemma_shifts(s, 8);
        let q = |i: int| p(i - 8) != t(i);
        assert forall|i: int| #[trigger] q(i) implies 0 <= i < 8 * data.len() by {
            if p(i - 8) {
                assert(0 <= i - 8 < 8 * front.len());
            }
            if t(i) {
                assert(0 <= i < 8);
            }
        }
        assert forall|i: int| #[trigger] codeword_bit(data, crc_of(data), i) == times_generator(
            q,
            i,
        ) by {
            assert(codeword_bit(front, r, i - 8) == times_generator(p, i - 8));
            assert(word_bit(s, i - 8) == (times_generator(t, i) != word_bit(crc_of(data), i)));
            lemma_add_byte(r, b, i - 8);
            let j = i - 16;
            assert(message_bit(data, j) == (message_bit(front, j - 8) != byte_bit(b, j))) by {
                if 8 <= j < 8 * data.len() {
                    assert((j - 8) / 8 == j / 8 - 1 && (j - 8) % 8 == j % 8);
                    assert(data[data.len() - 1 - j / 8] == front[front.len() - 1 - (j - 8) / 8]);
                }
            }
        }
        q
    }
}

/// The checksum is CRC-16/XMODEM: the data, read as a polynomial with all eight
/// bits of each byte, times `x^16` plus the checksum is a multiple of the
/// generator `x^16 + x^12 + x^5 + 1`. Only one 16-bit word makes it one.
pub proof fn law_crc_is_the_remainder(data: Seq<u8>, other: u16)
    ensures
        exists|q: spec_fn(int) -> bool| #[trigger]
            below(q, 8 * data.len() as int) && forall|i: int| #[trigger]
                codeword_bit(data, crc_of(data), i) == times_generator(q, i),
        (exists|q: spec_fn(int) -> bool, n: int| #[trigger]
            below(q, n) && forall|i: int| #[trigger]
                codeword_bit(data, other, i) == times_generator(q, i)) ==> other == crc_of(data),
{
    let q = lemma_crc(data);
    assert(below(q, 8 * data.len() as int));
    if exists|p: spec_fn(int) -> bool, n: int| #[trigger]
        below(p, n) && forall|i: int| #[trigger]
            codeword_bit(data, other, i) == times_generator(p, i) {
        let (p, n) = choose|p: spec_fn(int) -> bool, n: int| #[trigger]
            below(p, n) && forall|i: int| #[trigger]
                codeword_bit(data, other, i) == times_generator(p, i);
        let d = |i: int| p(i) != q(i);
        let m = if n > 8 * data.len() {
            n
        } else {
            8 * data.len() as int
        };
        assert(below(d, m));
        // The difference has no coefficient from `x^16` on, so `d` has none at all.
        assert forall|i: int| i >= 16 implies !#[trigger] times_generator(d, i) by {
            assert(codeword_bit(data, other, i) == times_generator(p, i));
            assert(codeword_bit(data, crc_of(data), i) == times_generator(q, i));
        }
        lemma_no_multiple(d, m);
        assert forall|i: int| 0 <= i < 16 implies word_bit(other, i) == word_bit(
            crc_of(data),
            i,
        ) by {
            assert(codeword_bit(data, other, i) == times_generator(p, i));
            assert(codeword_bit(data, crc_of(data), i) == times_generator(q, i));
            assert(!d(i) && !d(i - 5) && !d(i - 12) && !d(i - 16));
        }
        lemma_same_word(other, crc_of(data));
    }
}

/// A multiple of the generator without a coefficient from `x^16` on is zero.
proof fn lemma_no_multiple(d: spec_fn(int) -> bool, n: int)
    requires
        below(d, n),
        forall|i: int| i >= 16 ==> !#[trigger] times_generator(d, i),
    ensures
        forall|i: int| !#[trigger] d(i),
    decreases n,
{
    if n > 0 {
        if d(n - 1) {
            assert(!d(n + 15) && !d(n + 10) && !d(n + 3));
            assert(times_generator(d, n + 15));
        }
        assert(below(d, n - 1));
        lemma_no_multiple(d, n - 1);
    }
}

/// Words with the same bits are the same.
proof fn lemma_same_word(a: u16, b: u16)
    requires
        forall|i: int| 0 <= i < 16 ==> #[trigger] word_bit(a, i) == word_bit(b, i),
    ensures
        a == b,
{
    assert(word_bit(a, 0) == word_bit(b, 0) && word_bit(a, 1) == word_bit(b, 1));
    assert(word_bit(a, 2) == word_bit(b, 2) && word_bit(a, 3) == word_bit(b, 3));
    assert(word_bit(a, 4) == word_bit(b, 4) && word_bit(a, 5) == word_bit(b, 5));
    assert(word_bit(a, 6) == word_bit(b, 6) && word_bit(a, 7) == word_bit(b, 7));
    assert(word_bit(a, 8) == word_bit(b, 8) && word_bit(a, 9) == word_bit(b, 9));
    assert(word_bit(a, 10) == word_bit(b, 10) && word_bit(a, 11) == word_bit(b, 11));
    assert(word_bit(a, 12) == word_bit(b, 12) && word_bit(a, 13) == word_bit(b, 13));
    assert(word_bit(a, 14) == word_bit(b, 14) && word_bit(a, 15) == word_bit(b, 15));
    assert(a == b) by (bit_vector)
        requires
            ((a >> 0u16) & 1 == 1) == ((b >> 0u16) & 1 == 1),
            ((a >> 1u16) & 1 == 1) == ((b >> 1u16) & 1 == 1),
            ((a >> 2u16) & 1 == 1) == ((b >> 2u16) & 1 == 1),
            ((a >> 3u16) & 1 == 1) == ((b >> 3u16) & 1 == 1),
            ((a >> 4u16) & 1 == 1) == ((b >> 4u16) & 1 == 1),
            ((a >> 5u16) & 1 == 1) == ((b >> 5u16) & 1 == 1),
            ((a >> 6u16) & 1 == 1) == ((b >> 6u16) & 1 == 1),
            ((a >> 7u16) & 1 == 1) == ((b >> 7u16) & 1 == 1),
            ((a >> 8u16) & 1 == 1) == ((b >> 8u16) & 1 == 1),
            ((a >> 9u16) & 1 == 1) == ((b >> 9u16) & 1 == 1),
            ((a >> 10u16) & 1 == 1) == ((b >> 10u16) & 1 == 1),
            ((a >> 11u16) & 1 == 1) == ((b >> 11u16) & 1 == 1),
            ((a >> 12u16) & 1 == 1) == ((b >> 12u16) & 1 == 1),
            ((a >> 13u16) & 1 == 1) == ((b >> 13u16) & 1 == 1),
            ((a >> 14u16) & 1 == 1) == ((b >> 14u16) & 1 == 1),
            ((a >> 15u16) & 1 == 1) == ((b >> 15u16) & 1 == 1),
    ;
}

/// The lowest exponent of a polynomial that has any.
proof fn lemma_lowest(q: spec_fn(int) -> bool, lo: int, at: int) -> (k: int)
    requires
        forall|i: int| #[trigger] q(i) ==> i >= lo,
        q(at),
    ensures
        lo <= k <= at,
        q(k),
        forall|i: int| #[trigger] q(i) ==> i >= k,
    decreases at - lo,
{
    if q(lo) {
        lo
    } else {
        assert forall|i: int| #[trigger] q(i) implies i >= lo + 1 by {}
        lemma_lowest(q, lo + 1, at)
    }
}

/// The highest exponent of a polynomial that has any.
proof fn lemma_highest(q: spec_fn(int) -> bool, hi: int, at: int) -> (k: int)
    requires
        forall|i: int| #[trigger] q(i) ==> i <= hi,
        q(at),
    ensures
        at <= k <= hi,
        q(k),
        forall|i: int| #[trigger] q(i) ==> i <= k,
    decreases hi - at,
{
    if q(hi) {
        hi
    } else {
        assert forall|i: int| #[trigger] q(i) implies i <= hi - 1 by {}
        lemma_highest(q, hi - 1, at)
    }
}

/// The checksum notices every single-bit error: messages of the same length that
/// differ in exactly one bit have different checksums.
pub proof fn law_crc_detects_a_flipped_bit(a: Seq<u8>, b: Seq<u8>, at: int)
    requires
        a.len() == b.len(),
        0 <= at < 8 * a.len(),
        forall|i: int| #[trigger] message_bit(a, i) == message_bit(b, i) <==> i != at,
    ensures
        crc_of(a) != crc_of(b),
{
    if crc_of(a) == crc_of(b) {
        let p = lemma_crc(a);
        let q = lemma_crc(b);
        let d = |i: int| p(i) != q(i);
        let n = 8 * a.len() as int;
        assert forall|i: int| #[trigger] times_generator(d, i) == (i == at + 16) by {
            assert(codeword_bit(a, crc_of(a), i) == times_generator(p, i));
            assert(codeword_bit(b, crc_of(b), i) == times_generator(q, i));
            assert(message_bit(a, i - 16) == message_bit(b, i - 16) <==> i - 16 != at);
        }
        assert(times_generator(d, at + 16));
        let some = if d(at + 16) {
            at + 16
        } else if d(at + 11) {
            at + 11
        } else if d(at + 4) {
            at + 4
        } else {
            at
        };
        assert(d(some));
        assert forall|i: int| #[trigger] d(i) implies 0 <= i < n by {}
        let lo = lemma_lowest(d, 0, some);
        let hi = lemma_highest(d, n, some);
        assert(!d(lo - 5) && !d(lo - 12) && !d(lo - 16));
        assert(times_generator(d, lo));
        assert(!d(hi + 16) && !d(hi + 11) && !d(hi + 4));
        assert(times_generator(d, hi + 16));
    }
}

/// Eight shifts of a word whose high byte is zero move its low byte up.
proof fn lemma_low_byte_moves_up(w: u16)
    requires
        w < 0x100,
    ensures
        crc_shifts(w, 8) == w << 8,
{
    reveal_with_fuel(crc_shifts, 9);
    assert(w & 0x8000 == 0 && (w << 1) & 0x8000 == 0 && (w << 2) & 0x8000 == 0 && (w << 3) & 0x8000
        == 0 && (w << 4) & 0x8000 == 0 && (w << 5) & 0x8000 == 0 && (w << 6) & 0x8000 == 0 && (w
        << 7) & 0x8000 == 0) by (bit_vector)
        requires
            w < 0x100,
    ;
    assert((w << 1) << 1 == w << 2 && (w << 2) << 1 == w << 3 && (w << 3) << 1 == w << 4 && (w << 4)
        << 1 == w << 5 && (w << 5) << 1 == w << 6 && (w << 6) << 1 == w << 7 && (w << 7) << 1 == w
        << 8) by (bit_vector);
}

/// A message followed by its own checksum, high byte first, has the checksum
/// zero.
pub proof fn law_crc_checks_itself(data: Seq<u8>)
    ensures
        crc_of(
            data.push((crc_of(data) / 0x100) as u8).push((crc_of(data) % 0x100) as u8),
        ) == 0,
{
    let r = crc_of(data);
    let hi = (r / 0x100) as u8;
    let lo = (r % 0x100) as u8;
    let one = data.push(hi);
    let two = one.push(lo);
    assert(one.drop_last() =~= data);
    assert(two.drop_last() =~= one);
    let high = hi as u16;
    let low = lo as u16;
    assert(r ^ (high << 8u16) == low) by (bit_vector)
        requires
            high == r / 0x100u16,
            low == r % 0x100u16,
    ;
    lemma_low_byte_moves_up(low);
    let moved = low << 8;
    assert(moved ^ moved == 0) by (bit_vector);
    lemma_low_byte_moves_up(0);
    assert(0u16 << 8 == 0) by (bit_vector);
    assert(crc_of(one) == crc_shifts(r ^ (high << 8), 8));
    assert(crc_of(one) == moved);
    assert(two.last() == lo);
    assert(crc_of(two) == crc_shifts(moved ^ moved, 8));
}

// --- The frames ------------------------------------------------------------

/// What stands in an initiate frame that carries a size: the command, whose bits
/// say whether the CRC is supported (2) and whether the size is given (1), the
/// address of the object in bytes 1 to 3, and the size in bytes 4 to 7.
pub proof fn law_sized_initiate_layout(m: BlockInitiate)
    ensures
        ({
            let f = sized_initiate(CS_6, m);
            &&& f.len() == 8
            &&& f[0] == 0xC0 + (if m.crc_support {
                4int
            } else {
                0
            }) + (if m.size is Some {
                2int
            } else {
                0
            })
            &&& two_bytes(f[1], f[2]) == m.address.index
            &&& f[3] == m.address.subindex
            &&& four_bytes(f[4], f[5], f[6], f[7]) == match m.size {
                Some(size) => size as int,
                None => 0,
            }
        }),
{
    let f = sized_initiate(CS_6, m);
    let index = le_bytes(m.address.index as nat, 2);
    let size = match m.size {
        Some(size) => size,
        None => 0,
    };
    let number = le_bytes(size as nat, 4);
    law_bytes_make_up_the_number(m.address.index, size, index);
    assert(f[1] == index[0] && f[2] == index[1]);
    if m.size is Some {
        assert(f[4] == number[0] && f[5] == number[1] && f[6] == number[2] && f[7] == number[3]);
    }
}

/// What stands in an initiate frame that carries the number of segments per
/// sub-block: the command, whose bit 2 says whether the CRC is supported, the
/// address of the object in bytes 1 to 3, and the number in byte 4.
pub proof fn law_negotiation_layout(m: BlockNegotiation)
    ensures
        ({
            let f = negotiation(CS_5, m);
            &&& f.len() == 8
            &&& f[0] == 0xA0 + (if m.crc_support {
                4int
            } else {
                0
            })
            &&& two_bytes(f[1], f[2]) == m.address.index
            &&& f[3] == m.address.subindex
            &&& f[4] == m.blksize
            &&& f[5] == 0 && f[6] == 0 && f[7] == 0
        }),
{
    let f = negotiation(CS_5, m);
    let index = le_bytes(m.address.index as nat, 2);
    law_bytes_make_up_the_number(m.address.index, 0, index);
    assert(f[1] == index[0] && f[2] == index[1]);
}

/// What stands in a segment of a sub-block: its number in the low seven bits of
/// byte 0, whether it is the last of the transfer in bit 7, then its data, filled
/// up with zeros. The segment at `pos` carries the seven bytes from there on, or
/// all that are left, and is the last one exactly when it reaches the end.
pub proof fn law_sub_segment_layout(data: Seq<u8>, pos: int, seqno: u8)
    requires
        0 <= pos < data.len(),
        1 <= seqno <= 127,
    ensures
        ({
            let f = sub_segment_at(data, pos, seqno);
            &&& f.len() == 8
            &&& f[0] == seqno + (if pos + 7 >= data.len() {
                0x80int
            } else {
                0
            })
            &&& forall|i: int|
                0 <= i < 7 ==> #[trigger] f[1 + i] == if pos + i < data.len() {
                    data[pos + i]
                } else {
                    0
                }
        }),
{
}

/// What stands in the end frame: how many bytes of the last segment are unused in
/// bits 2 to 4 of byte 0, and the checksum in bytes 1 and 2, least significant
/// first. The bytes that are unused fill the data up to whole segments.
pub proof fn law_end_frame_layout(n: nat, unused: u8, crc: u16)
    requires
        unused <= 7,
    ensures
        ({
            let f = end_frame_of(unused, crc);
            &&& f.len() == 8
            &&& f[0] == 0xC1 + 4 * unused
            &&& two_bytes(f[1], f[2]) == crc
            &&& forall|i: int| 3 <= i < 8 ==> #[trigger] f[i] == 0
        }),
        0 <= unused_bytes(n) <= 7,
        (n + unused_bytes(n)) % 7 == 0,
        n > 0 ==> unused_bytes(n) < 7,
{
    let f = end_frame_of(unused, crc);
    let c = le_bytes(crc as nat, 2);
    law_bytes_make_up_the_number(crc, 0, c);
    assert(f[1] == c[0] && f[2] == c[1]);
    if n > 0 {
        let q = (n - 1) / 7;
        assert(n - 1 == 7 * q + (n - 1) % 7);
        assert(n + unused_bytes(n) == 7 * (q + 1));
    }
}

/// How an initiate frame is read: by its top three bits, with bit 0 — and, where a
/// block size is carried, bit 1 — clear; anything else is refused. The address
/// stands in bytes 1 to 3 and the size in bytes 4 to 7, where bit 1 says so, or
/// the block size in byte 4; bit 2 tells of CRC support.
pub proof fn law_initiates_are_read(f: Seq<u8>)
    requires
        f.len() == 8,
    ensures
        match sized_initiate_of(CS_6, f) {
            Ok(m) => {
                &&& f[0] == 0xC0 || f[0] == 0xC2 || f[0] == 0xC4 || f[0] == 0xC6 || 0xC8 <= f[0]
                    <= 0xDE
                &&& two_bytes(f[1], f[2]) == m.address.index && f[3] == m.address.subindex
                &&& m.crc_support == (f[0] / 4 % 2 == 1)
                &&& m.size is Some == (f[0] / 2 % 2 == 1)
                &&& m.size matches Some(size) ==> size == four_bytes(f[4], f[5], f[6], f[7])
            },
            Err(e) => (f[0] < 0xC0 || f[0] > 0xDF || f[0] % 2 == 1) && e
                == Error::UnexpectedCommand,
        },
        match negotiation_of(CS_5, f) {
            Ok(m) => {
                &&& 0xA0 <= f[0] <= 0xBF && f[0] % 4 == 0
                &&& two_bytes(f[1], f[2]) == m.address.index && f[3] == m.address.subindex
                &&& m.crc_support == (f[0] / 4 % 2 == 1)
                &&& m.blksize == f[4]
            },
            Err(e) => (f[0] < 0xA0 || f[0] > 0xBF || f[0] % 4 != 0) && e
                == Error::UnexpectedCommand,
        },
        crc_in(f) == two_bytes(f[1], f[2]),
{
    law_bytes_make_up_the_number(0, 0, f.subrange(1, 3));
    law_bytes_make_up_the_number(0, 0, f.subrange(4, 8));
}

/// The control frames are told by byte 0: its top three bits, and the sub-command
/// in the lowest two.
pub proof fn law_control_frames_by_their_bytes(f: Seq<u8>)
    ensures
        is_subcommand(f, CS_5, SUBCMD_START) <==> 0xA0 <= f[0] < 0xC0 && f[0] % 4 == 3,
        is_subcommand(f, CS_5, SUBCMD_RESPONSE) <==> 0xA0 <= f[0] < 0xC0 && f[0] % 4 == 2,
        is_subcommand(f, CS_5, SUBCMD_END) <==> 0xA0 <= f[0] < 0xC0 && f[0] % 4 == 1,
        is_subcommand(f, CS_6, SUBCMD_END) <==> 0xC0 <= f[0] < 0xE0 && f[0] % 4 == 1,
{
}

/// Segments are received up to the last one and while they fit, and appended in
/// order. The data is accepted without its unused tail, which must not be longer
/// than what came, and where the checksum is verified only if it is the one given.
pub proof fn law_reception(
    r: Reception,
    last: bool,
    data: Seq<u8>,
    capacity: nat,
    unused: u8,
    crc: u16,
    verify: bool,
)
    ensures
        Reception::start().data.len() == 0 && !Reception::start().done,
        match r.push(last, data, capacity) {
            Ok(next) => !r.done && r.data.len() + data.len() <= capacity && next.data == r.data
                + data && next.done == last,
            Err(e) => if r.done {
                e == Error::UnexpectedCommand
            } else {
                e == Error::Overflow && r.data.len() + data.len() > capacity
            },
        },
        match r.finished(unused, crc, verify) {
            Ok(kept) => {
                &&& kept.len() == r.data.len() - unused
                &&& kept == r.data.subrange(0, r.data.len() - unused)
                &&& verify ==> crc_of(kept) == crc
            },
            Err(e) => if unused > r.data.len() {
                e == Error::BadLength
            } else {
                e == Error::CrcMismatch && verify && crc_of(
                    r.data.subrange(0, r.data.len() - unused),
                ) != crc
            },
        },
{
    if unused <= r.data.len() {
        assert(r.data.subrange(0, r.data.len() - unused) =~= r.data.take(r.data.len() - unused));
    }
}

/// A transfer with a flipped bit is refused: where the data that came differs from
/// the data sent in exactly one bit, and the checksum came through, verifying it
/// reports the mismatch.
pub proof fn law_corruption_is_noticed(r: Reception, sent: Seq<u8>, unused: u8, at: int)
    requires
        r.data.len() == sent.len() + unused,
        0 <= at < 8 * sent.len(),
        forall|i: int| #[trigger]
            message_bit(r.data.subrange(0, sent.len() as int), i) == message_bit(sent, i) <==> i
                != at,
    ensures
        r.finished(unused, crc_of(sent), true) == Err::<Seq<u8>, Error>(Error::CrcMismatch),
{
    let kept = r.data.subrange(0, sent.len() as int);
    law_crc_detects_a_flipped_bit(kept, sent, at);
    assert(r.data.take(r.data.len() - unused) =~= kept);
}

/// A sub-block uses the numbers from 1 to its size: while bytes are left, a segment
/// is due for each of them and for no other, and without bytes none is.
pub proof fn law_sub_blocks(w: BlockWriter)
    requires
        w.wf(),
    ensures
        w.pos() == w.data().len() ==> !w.due(),
        w.pos() < w.data().len() ==> (w.due() <==> w.seqno() - 1 < w.blksize()),
{
}

} // verus!
