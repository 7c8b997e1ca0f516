//! CANopen basic data types and their little-endian value encoding.
//!
//! CANopen is little-endian on the wire (CiA 301 §7.1). This module models the
//! numeric basic data types plus the variable-length ones — `VISIBLE_STRING`,
//! `OCTET_STRING`, and `DOMAIN`, carried by a bounded [`ByteString`] — and
//! converts between typed [`Value`]s and their byte encoding.
use vstd::prelude::*;
use vstd::string::StringSliceAdditionalSpecFns;
use vstd::utf8::valid_utf8;

use crate::little_endian::{
    byte_range, from_le, law_bytes_are_digits, le_bytes, le_value, lemma_byte_ranges,
    lemma_le_bytes_len, lemma_le_round_trip, lemma_le_value_round_trip, u16_bytes, u32_bytes, u64_bytes,
};
use crate::types::{Error, Result};

verus! {

/// The maximum length, in bytes, of a variable-length value (`VISIBLE_STRING`,
/// `OCTET_STRING`, `DOMAIN`).
///
/// It also bounds the SDO segmented-transfer buffers, so it is the largest
/// object value the SDO server and client transfer.
pub const MAX_STRING_LEN: usize = 32;

/// The text that `bytes` encode, by `core::str::from_utf8`: the call succeeds
/// exactly on valid UTF-8, and the text it returns has those same bytes.
#[verifier::external_body]
fn utf8_text(bytes: &[u8]) -> (text: Option<&str>)
    ensures
        text is Some <==> valid_utf8(bytes@),
        text matches Some(t) ==> t.spec_bytes() == bytes@,
{
    core::str::from_utf8(bytes).ok()
}

/// A bounded, `Copy` byte string backing the variable-length CANopen types
/// (`VISIBLE_STRING`, `OCTET_STRING`, `DOMAIN`): up to [`MAX_STRING_LEN`] bytes.
///
/// Its view is the bytes it holds.
#[derive(Clone, Copy)]
pub struct ByteString {
    data: [u8; MAX_STRING_LEN],
    len: u8,
}

impl View for ByteString {
    type V = Seq<u8>;

    closed spec fn view(&self) -> Seq<u8> {
        self.data@.subrange(0, self.len as int)
    }
}

impl ByteString {
    /// The length is within the buffer, and the unused tail of the buffer is
    /// zero, so that the bytes determine the value.
    #[verifier::type_invariant]
    pub closed spec fn wf(self) -> bool {
        &&& self.len <= MAX_STRING_LEN
        &&& forall|i: int| self.len <= i < MAX_STRING_LEN ==> self.data@[i] == 0
    }

    /// Two byte strings with the same bytes are the same.
    pub proof fn lemma_ext(a: ByteString, b: ByteString)
        requires
            a.wf(),
            b.wf(),
            a@ == b@,
        ensures
            a == b,
    {
        assert(a.len == a@.len() && b.len == b@.len());
        assert forall|i: int| 0 <= i < MAX_STRING_LEN implies a.data@[i] == b.data@[i] by {
            if i < a.len {
                assert(a@[i] == a.data@[i]);
                assert(b@[i] == b.data@[i]);
            }
        }
        assert(a.data@ =~= b.data@);
        assert(a.data =~= b.data);
    }

    /// The byte string that holds `bytes`.
    pub open spec fn of(bytes: Seq<u8>) -> ByteString {
        choose|s: ByteString| s.wf() && s@ == bytes
    }

    /// A well-formed byte string is the one that holds its bytes.
    pub proof fn lemma_of(a: ByteString)
        requires
            a.wf(),
        ensures
            ByteString::of(a@) == a,
    {
        ByteString::lemma_ext(a, ByteString::of(a@));
    }

    /// Every sequence within the bound is what some byte string holds.
    pub proof fn lemma_exists(bytes: Seq<u8>)
        requires
            bytes.len() <= MAX_STRING_LEN,
        ensures
            ByteString::of(bytes).wf(),
            ByteString::of(bytes)@ == bytes,
    {
        let b = bytes + Seq::new((MAX_STRING_LEN - bytes.len()) as nat, |i: int| 0u8);
        let data: [u8; MAX_STRING_LEN] = [b[0], b[1], b[2], b[3], b[4], b[5], b[6], b[7], b[8], b[9], b[10], b[11], b[12], b[13], b[14], b[15], b[16], b[17], b[18], b[19], b[20], b[21], b[22], b[23], b[24], b[25], b[26], b[27], b[28], b[29], b[30], b[31]];
        assert(data@ =~= b);
        let s = ByteString { data, len: bytes.len() as u8 };
        assert(s.wf() && s@ =~= bytes);
    }

    /// A byte string is never longer than the bound.
    pub proof fn lemma_len(a: ByteString)
        requires
            a.wf(),
        ensures
            a@.len() <= MAX_STRING_LEN,
    {
    }

    /// An empty byte string.
    pub fn new() -> (s: Self)
        ensures
            s.wf(),
            s@ == Seq::<u8>::empty(),
    {
        let s = Self { data: [0; MAX_STRING_LEN], len: 0 };
        assert(s@ =~= Seq::<u8>::empty());
        s
    }

    /// Build from a byte slice, returning [`Error::BadLength`] if it is longer
    /// than [`MAX_STRING_LEN`].
    pub fn from_bytes(bytes: &[u8]) -> (r: Result<Self>)
        ensures
            r is Ok <==> bytes@.len() <= MAX_STRING_LEN,
            r matches Ok(s) ==> s.wf() && s@ == bytes@,
            r matches Err(e) ==> e == Error::BadLength,
    {
        if bytes.len() > MAX_STRING_LEN {
            return Err(Error::BadLength);
        }
        let mut data = [0u8; MAX_STRING_LEN];
        let mut i: usize = 0;
        while i < bytes.len()
            invariant
                i <= bytes@.len() <= MAX_STRING_LEN,
                forall|j: int| 0 <= j < i ==> data@[j] == bytes@[j],
                forall|j: int| i <= j < MAX_STRING_LEN ==> data@[j] == 0,
            decreases bytes@.len() - i,
        {
            data[i] = bytes[i];
            i += 1;
        }
        let s = Self { data, len: bytes.len() as u8 };
        assert(s@ =~= bytes@);
        Ok(s)
    }

    /// Build from a string slice (a `VISIBLE_STRING`), returning
    /// [`Error::BadLength`] if it is longer than [`MAX_STRING_LEN`].
    pub fn from_str(s: &str) -> (r: Result<Self>)
        ensures
            r is Ok <==> s.spec_bytes().len() <= MAX_STRING_LEN,
            r matches Ok(b) ==> b.wf() && b@ == s.spec_bytes(),
            r matches Err(e) ==> e == Error::BadLength,
    {
        Self::from_bytes(s.as_bytes())
    }

    /// The bytes.
    pub fn as_bytes(&self) -> (b: &[u8])
        ensures
            b@ == self@,
            b@.len() <= MAX_STRING_LEN,
    {
        proof {
            use_type_invariant(self);
        }
        &self.data[0..self.len as usize]
    }

    /// Interpret the bytes as UTF-8 text, if valid.
    pub fn as_str(&self) -> (text: Option<&str>)
        ensures
            text is Some <==> valid_utf8(self@),
            text matches Some(t) ==> t.spec_bytes() == self@,
    {
        utf8_text(self.as_bytes())
    }

    /// The length in bytes.
    pub fn len(&self) -> (n: usize)
        ensures
            n == self@.len(),
            n <= MAX_STRING_LEN,
    {
        proof {
            use_type_invariant(self);
        }
        self.len as usize
    }

    /// Whether the string is empty.
    pub fn is_empty(&self) -> (b: bool)
        ensures
            b == (self@.len() == 0),
    {
        proof {
            use_type_invariant(self);
        }
        self.len == 0
    }
}

impl Default for ByteString {
    fn default() -> (s: Self)
        ensures
            s.wf(),
            s@ == Seq::<u8>::empty(),
    {
        Self::new()
    }
}

impl PartialEq for ByteString {
    fn eq(&self, other: &Self) -> (r: bool) {
        proof {
            use_type_invariant(self);
            use_type_invariant(other);
        }
        if self.len != other.len {
            assert(self@.len() != other@.len());
            return false;
        }
        let mut i: u8 = 0;
        while i < self.len
            invariant
                i <= self.len <= MAX_STRING_LEN,
                self.len == other.len,
                forall|j: int| 0 <= j < i ==> self.data@[j] == other.data@[j],
            decreases self.len - i,
        {
            if self.data[i as usize] != other.data[i as usize] {
                assert(self@[i as int] != other@[i as int]);
                return false;
            }
            i += 1;
        }
        assert(self@ =~= other@);
        true
    }
}

impl vstd::std_specs::cmp::PartialEqSpecImpl for ByteString {
    open spec fn obeys_eq_spec() -> bool {
        true
    }

    open spec fn eq_spec(&self, other: &Self) -> bool {
        self@ == other@
    }
}

impl Eq for ByteString {

}

/// A CANopen basic data type.
#[derive(Debug, Clone, Copy, PartialEq, Eq, Structural)]
#[non_exhaustive]
pub enum DataType {
    /// `BOOLEAN` (0x0001), 1 byte.
    Boolean,
    /// `INTEGER8` (0x0002), 1 byte.
    Integer8,
    /// `INTEGER16` (0x0003), 2 bytes.
    Integer16,
    /// `INTEGER32` (0x0004), 4 bytes.
    Integer32,
    /// `UNSIGNED8` (0x0005), 1 byte.
    Unsigned8,
    /// `UNSIGNED16` (0x0006), 2 bytes.
    Unsigned16,
    /// `UNSIGNED32` (0x0007), 4 bytes.
    Unsigned32,
    /// `REAL32` (0x0008), 4 bytes.
    Real32,
    /// `REAL64` (0x0011), 8 bytes.
    Real64,
    /// `INTEGER64` (0x0015), 8 bytes.
    Integer64,
    /// `UNSIGNED64` (0x001B), 8 bytes.
    Unsigned64,
    /// `VISIBLE_STRING` (0x0009), variable length (ASCII/UTF-8 text).
    VisibleString,
    /// `OCTET_STRING` (0x000A), variable length (arbitrary bytes).
    OctetString,
    /// `DOMAIN` (0x000F), variable length (arbitrary bytes).
    Domain,
}

impl DataType {
    /// The CiA 301 data type index: the object index under which the type is
    /// described.
    pub open spec fn spec_index(self) -> u16 {
        match self {
            DataType::Boolean => 0x01,
            DataType::Integer8 => 0x02,
            DataType::Integer16 => 0x03,
            DataType::Integer32 => 0x04,
            DataType::Unsigned8 => 0x05,
            DataType::Unsigned16 => 0x06,
            DataType::Unsigned32 => 0x07,
            DataType::Real32 => 0x08,
            DataType::VisibleString => 0x09,
            DataType::OctetString => 0x0A,
            DataType::Domain => 0x0F,
            DataType::Real64 => 0x11,
            DataType::Integer64 => 0x15,
            DataType::Unsigned64 => 0x1B,
        }
    }

    /// The encoded size of a value of this type, or `None` for a
    /// variable-length type.
    pub open spec fn spec_fixed_size(self) -> Option<usize> {
        match self {
            DataType::Boolean | DataType::Integer8 | DataType::Unsigned8 => Some(1),
            DataType::Integer16 | DataType::Unsigned16 => Some(2),
            DataType::Integer32 | DataType::Unsigned32 | DataType::Real32 => Some(4),
            DataType::Integer64 | DataType::Unsigned64 | DataType::Real64 => Some(8),
            DataType::VisibleString | DataType::OctetString | DataType::Domain => None,
        }
    }

    /// Whether a byte string of length `n` encodes a value of this type.
    pub open spec fn accepts_len(self, n: nat) -> bool {
        match self.spec_fixed_size() {
            Some(fixed) => n == fixed,
            None => n <= MAX_STRING_LEN,
        }
    }

    /// The CiA 301 data type index (e.g. `0x0007` for `UNSIGNED32`).
    pub fn index(self) -> (i: u16)
        ensures
            i == self.spec_index(),
    {
        match self {
            DataType::Boolean => 0x01,
            DataType::Integer8 => 0x02,
            DataType::Integer16 => 0x03,
            DataType::Integer32 => 0x04,
            DataType::Unsigned8 => 0x05,
            DataType::Unsigned16 => 0x06,
            DataType::Unsigned32 => 0x07,
            DataType::Real32 => 0x08,
            DataType::VisibleString => 0x09,
            DataType::OctetString => 0x0A,
            DataType::Domain => 0x0F,
            DataType::Real64 => 0x11,
            DataType::Integer64 => 0x15,
            DataType::Unsigned64 => 0x1B,
        }
    }

    /// The data type with the given index, if a modelled type has it.
    pub open spec fn of_index(index: u16) -> Option<DataType> {
        if exists|t: DataType| #[trigger] t.spec_index() == index {
            Some(choose|t: DataType| #[trigger] t.spec_index() == index)
        } else {
            None
        }
    }

    /// The basic data type for a CiA 301 data type index, or `None` for an
    /// index that no modelled type has.
    pub fn from_index(index: u16) -> (r: Option<Self>)
        ensures
            r == DataType::of_index(index),
            r matches Some(t) ==> t.spec_index() == index,
            r is None ==> forall|t: DataType| #[trigger] t.spec_index() != index,
    {
        let r = Self::find_index(index);
        proof {
            if let Some(t) = r {
                Self::law_index_is_injective(t, DataType::of_index(index)->0);
            }
        }
        r
    }

    fn find_index(index: u16) -> (r: Option<Self>)
        ensures
            r matches Some(t) ==> t.spec_index() == index,
            r is None ==> forall|t: DataType| #[trigger] t.spec_index() != index,
    {
        match index {
            0x01 => Some(DataType::Boolean),
            0x02 => Some(DataType::Integer8),
            0x03 => Some(DataType::Integer16),
            0x04 => Some(DataType::Integer32),
            0x05 => Some(DataType::Unsigned8),
            0x06 => Some(DataType::Unsigned16),
            0x07 => Some(DataType::Unsigned32),
            0x08 => Some(DataType::Real32),
            0x09 => Some(DataType::VisibleString),
            0x0A => Some(DataType::OctetString),
            0x0F => Some(DataType::Domain),
            0x11 => Some(DataType::Real64),
            0x15 => Some(DataType::Integer64),
            0x1B => Some(DataType::Unsigned64),
            _ => None,
        }
    }

    /// No two data types share an index, so an index names its type.
    pub proof fn law_index_is_injective(a: DataType, b: DataType)
        ensures
            a.spec_index() == b.spec_index() <==> a == b,
    {
    }

    /// The fixed encoded size of a value of this type in bytes, or `None` for a
    /// variable-length type (`VISIBLE_STRING`, `OCTET_STRING`, `DOMAIN`).
    pub fn fixed_size(self) -> (r: Option<usize>)
        ensures
            r == self.spec_fixed_size(),
    {
        match self {
            DataType::Boolean | DataType::Integer8 | DataType::Unsigned8 => Some(1),
            DataType::Integer16 | DataType::Unsigned16 => Some(2),
            DataType::Integer32 | DataType::Unsigned32 | DataType::Real32 => Some(4),
            DataType::Integer64 | DataType::Unsigned64 | DataType::Real64 => Some(8),
            DataType::VisibleString | DataType::OctetString | DataType::Domain => None,
        }
    }

    /// Whether this is a variable-length type.
    pub fn is_variable(self) -> (b: bool)
        ensures
            b == (self.spec_fixed_size() is None),
    {
        self.fixed_size().is_none()
    }

    /// The fixed encoded size of a value of this type in bytes, or `0` for a
    /// variable-length type (whose size depends on the value — see
    /// [`fixed_size`](DataType::fixed_size)).
    pub fn size(self) -> (n: usize)
        ensures
            n == (match self.spec_fixed_size() {
                Some(n) => n,
                None => 0,
            }),
    {
        match self.fixed_size() {
            Some(n) => n,
            None => 0,
        }
    }
}

/// A typed CANopen value.
///
/// The two floating-point types hold the IEEE-754 bit pattern of their value:
/// `f32::to_bits` and `f64::to_bits` give it, `from_bits` reads it back. `==`
/// compares them as the numbers they stand for ([`same_real`]).
#[derive(Debug, Clone, Copy)]
#[non_exhaustive]
pub enum Value {
    /// A `BOOLEAN`.
    Boolean(bool),
    /// An `INTEGER8`.
    Integer8(i8),
    /// An `INTEGER16`.
    Integer16(i16),
    /// An `INTEGER32`.
    Integer32(i32),
    /// An `UNSIGNED8`.
    Unsigned8(u8),
    /// An `UNSIGNED16`.
    Unsigned16(u16),
    /// An `UNSIGNED32`.
    Unsigned32(u32),
    /// A `REAL32`, as its bit pattern.
    Real32(u32),
    /// A `REAL64`, as its bit pattern.
    Real64(u64),
    /// An `INTEGER64`.
    Integer64(i64),
    /// An `UNSIGNED64`.
    Unsigned64(u64),
    /// A `VISIBLE_STRING` (ASCII/UTF-8 text).
    VisibleString(ByteString),
    /// An `OCTET_STRING` (arbitrary bytes).
    OctetString(ByteString),
    /// A `DOMAIN` (arbitrary bytes).
    Domain(ByteString),
}

/// Whether two IEEE-754 bit patterns stand for equal numbers: `sign` is the sign
/// bit, `infinity` the pattern of infinity. The two zeros are equal, and a NaN —
/// a pattern above infinity, sign aside — equals nothing.
pub open spec fn same_real(a: u64, b: u64, sign: u64, infinity: u64) -> bool {
    &&& a % sign <= infinity
    &&& b % sign <= infinity
    &&& a == b || (a % sign == 0 && b % sign == 0)
}

/// The sign bit of a `REAL32`.
pub const SIGN32: u64 = 0x8000_0000;

/// Infinity as a `REAL32`.
pub const INFINITY32: u64 = 0x7F80_0000;

/// The sign bit of a `REAL64`.
pub const SIGN64: u64 = 0x8000_0000_0000_0000;

/// Infinity as a `REAL64`.
pub const INFINITY64: u64 = 0x7FF0_0000_0000_0000;

fn is_same_real(a: u64, b: u64, sign: u64, infinity: u64) -> (r: bool)
    requires
        sign > 0,
    ensures
        r == same_real(a, b, sign, infinity),
{
    a % sign <= infinity && b % sign <= infinity && (a == b || (a % sign == 0 && b % sign == 0))
}

impl PartialEq for Value {
    fn eq(&self, other: &Self) -> (r: bool) {
        match (self, other) {
            (Value::Boolean(a), Value::Boolean(b)) => *a == *b,
            (Value::Integer8(a), Value::Integer8(b)) => *a == *b,
            (Value::Integer16(a), Value::Integer16(b)) => *a == *b,
            (Value::Integer32(a), Value::Integer32(b)) => *a == *b,
            (Value::Integer64(a), Value::Integer64(b)) => *a == *b,
            (Value::Unsigned8(a), Value::Unsigned8(b)) => *a == *b,
            (Value::Unsigned16(a), Value::Unsigned16(b)) => *a == *b,
            (Value::Unsigned32(a), Value::Unsigned32(b)) => *a == *b,
            (Value::Unsigned64(a), Value::Unsigned64(b)) => *a == *b,
            (Value::Real32(a), Value::Real32(b)) => is_same_real(
                *a as u64,
                *b as u64,
                SIGN32,
                INFINITY32,
            ),
            (Value::Real64(a), Value::Real64(b)) => is_same_real(*a, *b, SIGN64, INFINITY64),
            (Value::VisibleString(a), Value::VisibleString(b)) => *a == *b,
            (Value::OctetString(a), Value::OctetString(b)) => *a == *b,
            (Value::Domain(a), Value::Domain(b)) => *a == *b,
            _ => false,
        }
    }
}

impl vstd::std_specs::cmp::PartialEqSpecImpl for Value {
    open spec fn obeys_eq_spec() -> bool {
        true
    }

    /// The same type, and the same number or bytes.
    open spec fn eq_spec(&self, other: &Self) -> bool {
        match (*self, *other) {
            (Value::Real32(a), Value::Real32(b)) => same_real(
                a as u64,
                b as u64,
                SIGN32,
                INFINITY32,
            ),
            (Value::Real64(a), Value::Real64(b)) => same_real(a, b, SIGN64, INFINITY64),
            (Value::VisibleString(a), Value::VisibleString(b)) => a@ == b@,
            (Value::OctetString(a), Value::OctetString(b)) => a@ == b@,
            (Value::Domain(a), Value::Domain(b)) => a@ == b@,
            (a, b) => a == b,
        }
    }
}

/// The `n`-byte two's complement representation of `v`, as an unsigned number.
pub open spec fn twos_complement(v: int, n: nat) -> nat {
    if v < 0 {
        (v + byte_range(n)) as nat
    } else {
        v as nat
    }
}

/// The number that the `n`-byte two's complement representation `x` stands for.
pub open spec fn signed_value(x: nat, n: nat) -> int {
    if 2 * x >= byte_range(n) {
        x - byte_range(n)
    } else {
        x as int
    }
}

/// The value of type `data_type` that `bytes` encode. A `BOOLEAN` is true for
/// every byte but zero.
pub open spec fn decoded(data_type: DataType, bytes: Seq<u8>) -> Value {
    let x = le_value(bytes);
    match data_type {
        DataType::Boolean => Value::Boolean(bytes[0] != 0),
        DataType::Integer8 => Value::Integer8(signed_value(x, 1) as i8),
        DataType::Integer16 => Value::Integer16(signed_value(x, 2) as i16),
        DataType::Integer32 => Value::Integer32(signed_value(x, 4) as i32),
        DataType::Integer64 => Value::Integer64(signed_value(x, 8) as i64),
        DataType::Unsigned8 => Value::Unsigned8(x as u8),
        DataType::Unsigned16 => Value::Unsigned16(x as u16),
        DataType::Unsigned32 => Value::Unsigned32(x as u32),
        DataType::Unsigned64 => Value::Unsigned64(x as u64),
        DataType::Real32 => Value::Real32(x as u32),
        DataType::Real64 => Value::Real64(x as u64),
        DataType::VisibleString => Value::VisibleString(ByteString::of(bytes)),
        DataType::OctetString => Value::OctetString(ByteString::of(bytes)),
        DataType::Domain => Value::Domain(ByteString::of(bytes)),
    }
}

impl Value {
    /// A value is well formed when the byte string it may hold is.
    pub open spec fn wf(self) -> bool {
        match self {
            Value::VisibleString(s) | Value::OctetString(s) | Value::Domain(s) => s.wf(),
            _ => true,
        }
    }

    /// The data type of this value.
    pub open spec fn spec_data_type(self) -> DataType {
        match self {
            Value::Boolean(_) => DataType::Boolean,
            Value::Integer8(_) => DataType::Integer8,
            Value::Integer16(_) => DataType::Integer16,
            Value::Integer32(_) => DataType::Integer32,
            Value::Unsigned8(_) => DataType::Unsigned8,
            Value::Unsigned16(_) => DataType::Unsigned16,
            Value::Unsigned32(_) => DataType::Unsigned32,
            Value::Real32(_) => DataType::Real32,
            Value::Real64(_) => DataType::Real64,
            Value::Integer64(_) => DataType::Integer64,
            Value::Unsigned64(_) => DataType::Unsigned64,
            Value::VisibleString(_) => DataType::VisibleString,
            Value::OctetString(_) => DataType::OctetString,
            Value::Domain(_) => DataType::Domain,
        }
    }

    /// The bytes that encode this value: little-endian numbers, two's
    /// complement where they are signed, and strings as they are.
    pub open spec fn encoding(self) -> Seq<u8> {
        match self {
            Value::Boolean(v) => seq![if v { 1u8 } else { 0u8 }],
            Value::Integer8(v) => le_bytes(twos_complement(v as int, 1), 1),
            Value::Integer16(v) => le_bytes(twos_complement(v as int, 2), 2),
            Value::Integer32(v) => le_bytes(twos_complement(v as int, 4), 4),
            Value::Integer64(v) => le_bytes(twos_complement(v as int, 8), 8),
            Value::Unsigned8(v) => le_bytes(v as nat, 1),
            Value::Unsigned16(v) => le_bytes(v as nat, 2),
            Value::Unsigned32(v) => le_bytes(v as nat, 4),
            Value::Unsigned64(v) => le_bytes(v as nat, 8),
            Value::Real32(v) => le_bytes(v as nat, 4),
            Value::Real64(v) => le_bytes(v as nat, 8),
            Value::VisibleString(s) | Value::OctetString(s) | Value::Domain(s) => s@,
        }
    }

    /// The length of the encoding: the fixed size of the type, or what the
    /// string holds.
    pub proof fn lemma_encoding_len(self)
        requires
            self.wf(),
        ensures
            self.spec_data_type().accepts_len(self.encoding().len()),
            self.encoding().len() <= MAX_STRING_LEN,
    {
        match self {
            Value::VisibleString(s) | Value::OctetString(s) | Value::Domain(s) => {
                ByteString::lemma_len(s);
            },
            Value::Boolean(_) => {},
            Value::Integer8(v) => lemma_le_bytes_len(twos_complement(v as int, 1), 1),
            Value::Integer16(v) => lemma_le_bytes_len(twos_complement(v as int, 2), 2),
            Value::Integer32(v) => lemma_le_bytes_len(twos_complement(v as int, 4), 4),
            Value::Integer64(v) => lemma_le_bytes_len(twos_complement(v as int, 8), 8),
            Value::Unsigned8(v) => lemma_le_bytes_len(v as nat, 1),
            Value::Unsigned16(v) => lemma_le_bytes_len(v as nat, 2),
            Value::Unsigned32(v) => lemma_le_bytes_len(v as nat, 4),
            Value::Unsigned64(v) => lemma_le_bytes_len(v as nat, 8),
            Value::Real32(v) => lemma_le_bytes_len(v as nat, 4),
            Value::Real64(v) => lemma_le_bytes_len(v as nat, 8),
        }
    }

    /// Decoding the encoding of a value gives the value back.
    pub proof fn law_decode_encode(v: Value)
        requires
            v.wf(),
        ensures
            v.spec_data_type().accepts_len(v.encoding().len()),
            decoded(v.spec_data_type(), v.encoding()) == v,
    {
        v.lemma_encoding_len();
        lemma_byte_ranges();
        match v {
            Value::VisibleString(s) | Value::OctetString(s) | Value::Domain(s) => {
                ByteString::lemma_of(s);
            },
            Value::Boolean(_) => {},
            Value::Integer8(v) => lemma_le_round_trip(twos_complement(v as int, 1), 1),
            Value::Integer16(v) => lemma_le_round_trip(twos_complement(v as int, 2), 2),
            Value::Integer32(v) => lemma_le_round_trip(twos_complement(v as int, 4), 4),
            Value::Integer64(v) => lemma_le_round_trip(twos_complement(v as int, 8), 8),
            Value::Unsigned8(v) => lemma_le_round_trip(v as nat, 1),
            Value::Unsigned16(v) => lemma_le_round_trip(v as nat, 2),
            Value::Unsigned32(v) => lemma_le_round_trip(v as nat, 4),
            Value::Unsigned64(v) => lemma_le_round_trip(v as nat, 8),
            Value::Real32(v) => lemma_le_round_trip(v as nat, 4),
            Value::Real64(v) => lemma_le_round_trip(v as nat, 8),
        }
    }

    /// Encoding a decoded value gives back the bytes it was decoded from. (A
    /// `BOOLEAN` is encoded as `0` or `1`, whichever byte it was read from.)
    pub proof fn law_encode_decode(data_type: DataType, bytes: Seq<u8>)
        requires
            data_type.accepts_len(bytes.len()),
            data_type == DataType::Boolean ==> bytes[0] <= 1,
        ensures
            decoded(data_type, bytes).encoding() == bytes,
    {
        if data_type.spec_fixed_size() is None {
            ByteString::lemma_exists(bytes);
        }
        lemma_byte_ranges();
        lemma_le_value_round_trip(bytes);
        assert(data_type == DataType::Boolean ==> seq![bytes[0]] =~= bytes);
    }

    /// The data type of this value.
    pub fn data_type(&self) -> (t: DataType)
        ensures
            t == self.spec_data_type(),
    {
        match self {
            Value::Boolean(_) => DataType::Boolean,
            Value::Integer8(_) => DataType::Integer8,
            Value::Integer16(_) => DataType::Integer16,
            Value::Integer32(_) => DataType::Integer32,
            Value::Unsigned8(_) => DataType::Unsigned8,
            Value::Unsigned16(_) => DataType::Unsigned16,
            Value::Unsigned32(_) => DataType::Unsigned32,
            Value::Real32(_) => DataType::Real32,
            Value::Real64(_) => DataType::Real64,
            Value::Integer64(_) => DataType::Integer64,
            Value::Unsigned64(_) => DataType::Unsigned64,
            Value::VisibleString(_) => DataType::VisibleString,
            Value::OctetString(_) => DataType::OctetString,
            Value::Domain(_) => DataType::Domain,
        }
    }

    /// The encoded size of this value, in bytes. For a variable-length value
    /// this is its current content length.
    pub fn size(&self) -> (n: usize)
        ensures
            self.wf(),
            n == self.encoding().len(),
            n <= MAX_STRING_LEN,
    {
        match self {
            Value::VisibleString(s) | Value::OctetString(s) | Value::Domain(s) => {
                proof {
                    use_type_invariant(s);
                }
                s.len()
            },
            _ => {
                proof {
                    self.lemma_encoding_len();
                }
                self.data_type().size()
            },
        }
    }

    /// Encode this value little-endian into `buf`, returning the number of
    /// bytes written.
    ///
    /// Returns [`Error::BadLength`] if `buf` is smaller than [`Value::size`].
    pub fn encode_le(&self, buf: &mut [u8]) -> (r: Result<usize>)
        ensures
            r is Ok <==> self.encoding().len() <= old(buf)@.len(),
            r matches Ok(n) ==> {
                &&& n == self.encoding().len()
                &&& final(buf)@ == self.encoding() + old(buf)@.skip(n as int)
            },
            r matches Err(e) ==> e == Error::BadLength && final(buf)@ == old(buf)@,
    {
        let n: usize = self.size();
        if buf.len() < n {
            return Err(Error::BadLength);
        }
        proof {
            lemma_byte_ranges();
            reveal_with_fuel(le_bytes, 2);
        }
        match self {
            Value::Boolean(v) => overwrite(buf, &[if *v { 1u8 } else { 0u8 }]),
            Value::Integer8(v) => {
                let x: i8 = *v;
                let y: u8 = x as u8;
                assert(x < 0 ==> y == x + 0x100) by (bit_vector)
                    requires
                        y == x as u8,
                ;
                let b = [y];
                assert(b@ =~= self.encoding());
                overwrite(buf, &b)
            },
            Value::Unsigned8(v) => {
                let b = [*v];
                assert(b@ =~= self.encoding());
                overwrite(buf, &b)
            },
            Value::Integer16(v) => {
                let x: i16 = *v;
                let y: u16 = x as u16;
                assert(x < 0 ==> y == x + 0x1_0000) by (bit_vector)
                    requires
                        y == x as u16,
                ;
                overwrite(buf, &u16_bytes(y))
            },
            Value::Unsigned16(v) => overwrite(buf, &u16_bytes(*v)),
            Value::Integer32(v) => {
                let x: i32 = *v;
                let y: u32 = x as u32;
                assert(x < 0 ==> y == x + 0x1_0000_0000) by (bit_vector)
                    requires
                        y == x as u32,
                ;
                overwrite(buf, &u32_bytes(y))
            },
            Value::Unsigned32(v) => overwrite(buf, &u32_bytes(*v)),
            Value::Real32(v) => overwrite(buf, &u32_bytes(*v)),
            Value::Integer64(v) => {
                let x: i64 = *v;
                let y: u64 = x as u64;
                assert(x < 0 ==> y == x + 0x1_0000_0000_0000_0000) by (bit_vector)
                    requires
                        y == x as u64,
                ;
                overwrite(buf, &u64_bytes(y))
            },
            Value::Unsigned64(v) => overwrite(buf, &u64_bytes(*v)),
            Value::Real64(v) => overwrite(buf, &u64_bytes(*v)),
            Value::VisibleString(s) | Value::OctetString(s) | Value::Domain(s) => {
                overwrite(buf, s.as_bytes())
            },
        }
        Ok(n)
    }

    /// Decode a little-endian value of `data_type` from `bytes`.
    ///
    /// For a fixed-size type `bytes` must be exactly [`DataType::fixed_size`]
    /// long; for a variable-length type it may be any length up to
    /// [`MAX_STRING_LEN`]. Otherwise returns [`Error::BadLength`].
    pub fn decode_le(data_type: DataType, bytes: &[u8]) -> (r: Result<Value>)
        ensures
            r is Ok <==> data_type.accepts_len(bytes@.len()),
            r matches Ok(v) ==> {
                &&& v.wf()
                &&& v == decoded(data_type, bytes@)
                &&& v.spec_data_type() == data_type
            },
            r matches Err(e) ==> e == Error::BadLength,
    {
        match data_type.fixed_size() {
            Some(fixed) => {
                if bytes.len() != fixed {
                    return Err(Error::BadLength);
                }
            },
            None => {
                return match ByteString::from_bytes(bytes) {
                    Ok(s) => {
                        proof {
                            ByteString::lemma_of(s);
                        }
                        Ok(match data_type {
                            DataType::VisibleString => Value::VisibleString(s),
                            DataType::OctetString => Value::OctetString(s),
                            _ => Value::Domain(s),
                        })
                    },
                    Err(e) => Err(e),
                };
            },
        }
        proof {
            lemma_byte_ranges();
        }
        let x: u64 = from_le(bytes);
        Ok(
            match data_type {
                DataType::Boolean => Value::Boolean(bytes[0] != 0),
                DataType::Integer8 => Value::Integer8(to_i8(x as u8)),
                DataType::Unsigned8 => Value::Unsigned8(x as u8),
                DataType::Integer16 => Value::Integer16(to_i16(x as u16)),
                DataType::Unsigned16 => Value::Unsigned16(x as u16),
                DataType::Integer32 => Value::Integer32(to_i32(x as u32)),
                DataType::Unsigned32 => Value::Unsigned32(x as u32),
                DataType::Real32 => Value::Real32(x as u32),
                DataType::Integer64 => Value::Integer64(to_i64(x)),
                DataType::Unsigned64 => Value::Unsigned64(x),
                _ => Value::Real64(x),
            },
        )
    }
}

/// Overwrite the front of `buf` with `bytes`.
pub fn overwrite(buf: &mut [u8], bytes: &[u8])
    requires
        bytes@.len() <= old(buf)@.len(),
    ensures
        final(buf)@ == bytes@ + old(buf)@.skip(bytes@.len() as int),
{
    let mut i: usize = 0;
    while i < bytes.len()
        invariant
            i <= bytes@.len() <= buf@.len(),
            buf@.len() == old(buf)@.len(),
            buf@ =~= bytes@.take(i as int) + old(buf)@.skip(i as int),
        decreases bytes@.len() - i,
    {
        buf[i] = bytes[i];
        i += 1;
    }
    assert(bytes@.take(bytes@.len() as int) =~= bytes@);
}

/// A byte read as a two's complement number.
pub(crate) fn to_i8(x: u8) -> (v: i8)
    ensures
        v == signed_value(x as nat, 1),
{
    let v: i8 = x as i8;
    proof {
        lemma_byte_ranges();
    }
    assert(v == if x >= 0x80 { x - 0x100 } else { x as int }) by (bit_vector)
        requires
            v == x as i8,
    ;
    v
}

/// A 16-bit word read as a two's complement number.
pub(crate) fn to_i16(x: u16) -> (v: i16)
    ensures
        v == signed_value(x as nat, 2),
{
    let v: i16 = x as i16;
    proof {
        lemma_byte_ranges();
    }
    assert(v == if x >= 0x8000 { x - 0x1_0000 } else { x as int }) by (bit_vector)
        requires
            v == x as i16,
    ;
    v
}

/// A 32-bit word read as a two's complement number.
pub(crate) fn to_i32(x: u32) -> (v: i32)
    ensures
        v == signed_value(x as nat, 4),
{
    let v: i32 = x as i32;
    proof {
        lemma_byte_ranges();
    }
    assert(v == if x >= 0x8000_0000 { x - 0x1_0000_0000 } else { x as int }) by (bit_vector)
        requires
            v == x as i32,
    ;
    v
}

/// A 64-bit word read as a two's complement number.
pub(crate) fn to_i64(x: u64) -> (v: i64)
    ensures
        v == signed_value(x as nat, 8),
{
    let v: i64 = x as i64;
    proof {
        lemma_byte_ranges();
    }
    assert(v == if x >= 0x8000_0000_0000_0000 { x - 0x1_0000_0000_0000_0000 } else { x as int })
        by (bit_vector)
        requires
            v == x as i64,
    ;
    v
}

/// The number that an integer value holds.
pub open spec fn number_of(v: Value) -> Option<int> {
    match v {
        Value::Integer8(x) => Some(x as int),
        Value::Integer16(x) => Some(x as int),
        Value::Integer32(x) => Some(x as int),
        Value::Integer64(x) => Some(x as int),
        Value::Unsigned8(x) => Some(x as int),
        Value::Unsigned16(x) => Some(x as int),
        Value::Unsigned32(x) => Some(x as int),
        Value::Unsigned64(x) => Some(x as int),
        _ => None,
    }
}

/// The types have the sizes and indices that CiA 301 gives them: an object with
/// an `n`-bit number takes `n / 8` bytes, a string as many as it holds.
pub proof fn law_types(v: Value)
    requires
        v.wf(),
    ensures
        ({
            let n = v.encoding().len();
            let index = v.spec_data_type().spec_index();
            match v {
                Value::Boolean(_) => n == 1 && index == 0x01,
                Value::Integer8(_) => n == 1 && index == 0x02,
                Value::Integer16(_) => n == 2 && index == 0x03,
                Value::Integer32(_) => n == 4 && index == 0x04,
                Value::Unsigned8(_) => n == 1 && index == 0x05,
                Value::Unsigned16(_) => n == 2 && index == 0x06,
                Value::Unsigned32(_) => n == 4 && index == 0x07,
                Value::Real32(_) => n == 4 && index == 0x08,
                Value::Real64(_) => n == 8 && index == 0x11,
                Value::Integer64(_) => n == 8 && index == 0x15,
                Value::Unsigned64(_) => n == 8 && index == 0x1B,
                Value::VisibleString(s) => n == s@.len() <= 32 && index == 0x09,
                Value::OctetString(s) => n == s@.len() <= 32 && index == 0x0A,
                Value::Domain(s) => n == s@.len() <= 32 && index == 0x0F,
            }
        }),
        MAX_STRING_LEN == 32,
{
    v.lemma_encoding_len();
}

/// The value of type `data_type` and size `n` is encoded least significant byte
/// first: byte `i` is the digit of weight `256^i` of the number, a negative one
/// taken modulo `256^n`, and of the bit pattern of a floating-point number. A
/// `BOOLEAN` is one byte, `1` or `0`, and a string its own bytes.
pub proof fn law_encoding_is_little_endian(v: Value, i: int)
    requires
        v.wf(),
        0 <= i < v.encoding().len(),
    ensures
        ({
            let w = vstd::arithmetic::power::pow(256, i as nat);
            let b = v.encoding()[i];
            match v {
                Value::Boolean(x) => b == if x { 1int } else { 0 },
                Value::Integer8(x) => b == (if x < 0 { x + 0x100 } else { x as int }) / w % 256,
                Value::Integer16(x) => b == (if x < 0 { x + 0x1_0000 } else { x as int }) / w % 256,
                Value::Integer32(x) => b == (if x < 0 { x + 0x1_0000_0000 } else { x as int }) / w
                    % 256,
                Value::Integer64(x) => b == (if x < 0 {
                    x + 0x1_0000_0000_0000_0000
                } else {
                    x as int
                }) / w % 256,
                Value::Unsigned8(x) => b == x as int / w % 256,
                Value::Unsigned16(x) => b == x as int / w % 256,
                Value::Unsigned32(x) => b == x as int / w % 256,
                Value::Unsigned64(x) => b == x as int / w % 256,
                Value::Real32(x) => b == x as int / w % 256,
                Value::Real64(x) => b == x as int / w % 256,
                Value::VisibleString(s) | Value::OctetString(s) | Value::Domain(s) => b == s@[i],
            }
        }),
{
    v.lemma_encoding_len();
    lemma_byte_ranges();
    vstd::arithmetic::power::lemma_pow_positive(256, i as nat);
    match v {
        Value::Integer8(x) => law_bytes_are_digits(twos_complement(x as int, 1), 1, i),
        Value::Integer16(x) => law_bytes_are_digits(twos_complement(x as int, 2), 2, i),
        Value::Integer32(x) => law_bytes_are_digits(twos_complement(x as int, 4), 4, i),
        Value::Integer64(x) => law_bytes_are_digits(twos_complement(x as int, 8), 8, i),
        Value::Unsigned8(x) => law_bytes_are_digits(x as nat, 1, i),
        Value::Unsigned16(x) => law_bytes_are_digits(x as nat, 2, i),
        Value::Unsigned32(x) => law_bytes_are_digits(x as nat, 4, i),
        Value::Unsigned64(x) => law_bytes_are_digits(x as nat, 8, i),
        Value::Real32(x) => law_bytes_are_digits(x as nat, 4, i),
        Value::Real64(x) => law_bytes_are_digits(x as nat, 8, i),
        _ => {},
    }
}

/// A `BOOLEAN` is false for the byte zero and true for every other.
pub proof fn law_booleans(b: u8)
    ensures
        decoded(DataType::Boolean, seq![b]) == Value::Boolean(b != 0),
        forall|n: nat| #[trigger] DataType::Boolean.accepts_len(n) <==> n == 1,
{
}

/// Bytes decode as a type exactly when their number is that of the type's
/// values: one, two, four or eight for a number, at most 32 for a string. A
/// value decoded has the type asked for.
pub proof fn law_accepted_lengths(data_type: DataType, bytes: Seq<u8>)
    ensures
        data_type.accepts_len(bytes.len()) <==> match data_type {
            DataType::Boolean | DataType::Integer8 | DataType::Unsigned8 => bytes.len() == 1,
            DataType::Integer16 | DataType::Unsigned16 => bytes.len() == 2,
            DataType::Integer32 | DataType::Unsigned32 | DataType::Real32 => bytes.len() == 4,
            DataType::Integer64 | DataType::Unsigned64 | DataType::Real64 => bytes.len() == 8,
            DataType::VisibleString | DataType::OctetString | DataType::Domain => bytes.len()
                <= 32,
        },
        decoded(data_type, bytes).spec_data_type() == data_type,
{
}

/// `==` on values: a value equals itself unless it is a NaN, the two zeros of a
/// floating-point type are equal, a NaN equals nothing, and values of different
/// types are never equal. Of the other types, equal values are the same value.
pub proof fn law_equality(a: Value, b: Value)
    requires
        a.wf(),
        b.wf(),
    ensures
        vstd::std_specs::cmp::PartialEqSpec::eq_spec(&a, &b)
            == vstd::std_specs::cmp::PartialEqSpec::eq_spec(&b, &a),
        vstd::std_specs::cmp::PartialEqSpec::eq_spec(&a, &b) ==> a.spec_data_type()
            == b.spec_data_type(),
        !(a is Real32) && !(a is Real64) ==> (vstd::std_specs::cmp::PartialEqSpec::eq_spec(&a, &b)
            <==> a == b),
        a matches Value::Real32(x) ==> (vstd::std_specs::cmp::PartialEqSpec::eq_spec(&a, &a)
            <==> x <= 0x7F80_0000 || 0x8000_0000 <= x <= 0xFF80_0000),
        a matches Value::Real64(x) ==> (vstd::std_specs::cmp::PartialEqSpec::eq_spec(&a, &a)
            <==> x <= 0x7FF0_0000_0000_0000 || 0x8000_0000_0000_0000 <= x
            <= 0xFFF0_0000_0000_0000),
        a matches Value::Real32(x) ==> b matches Value::Real32(y)
            ==> vstd::std_specs::cmp::PartialEqSpec::eq_spec(&a, &b) ==> x == y || ((x == 0 || x
            == 0x8000_0000) && (y == 0 || y == 0x8000_0000)),
        a matches Value::Real64(x) ==> b matches Value::Real64(y)
            ==> vstd::std_specs::cmp::PartialEqSpec::eq_spec(&a, &b) ==> x == y || ((x == 0 || x
            == 0x8000_0000_0000_0000) && (y == 0 || y == 0x8000_0000_0000_0000)),
        vstd::std_specs::cmp::PartialEqSpec::eq_spec(
            &Value::Real32(0),
            &Value::Real32(0x8000_0000),
        ),
        vstd::std_specs::cmp::PartialEqSpec::eq_spec(
            &Value::Real64(0),
            &Value::Real64(0x8000_0000_0000_0000),
        ),
{
    match (a, b) {
        (Value::VisibleString(s), Value::VisibleString(t)) => {
            if s@ == t@ {
                ByteString::lemma_ext(s, t);
            }
        },
        (Value::OctetString(s), Value::OctetString(t)) => {
            if s@ == t@ {
                ByteString::lemma_ext(s, t);
            }
        },
        (Value::Domain(s), Value::Domain(t)) => {
            if s@ == t@ {
                ByteString::lemma_ext(s, t);
            }
        },
        _ => {},
    }
}

/// A type is found by its index, and by no other number.
pub proof fn law_types_by_index(t: DataType, index: u16)
    ensures
        DataType::of_index(t.spec_index()) == Some(t),
        DataType::of_index(index) matches Some(u) ==> u.spec_index() == index,
{
    let found = DataType::of_index(t.spec_index())->0;
    assert(t.spec_index() == t.spec_index());
    DataType::law_index_is_injective(t, found);
}

} // verus!
