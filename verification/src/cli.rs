//! The command-line tool's arguments and reports.
//!
//! Everything the `canopen` tool reads from its arguments and prints is decided
//! here, as functions from text to values and from values to text.
use vstd::prelude::*;
use vstd::string::StringExecFns;

use crate::datatypes::{signed_value, to_i16, to_i32, to_i64, to_i8, DataType, Value};
use crate::display::{byte_string_report, byte_string_text, quote_bytes, quoted_bytes};
use crate::host::eds::{before, descriptions, Description, DeviceDescription, Eds, EdsObject};
use crate::little_endian::{byte_range, lemma_byte_ranges};
use crate::nmt::NmtCommand;
use crate::object_dictionary::Address;
use crate::text::{
    chars_of, decimal, hex_digits, hex_text, integer, is_word, left_aligned, lowered,
    parse_integer, parse_unsigned, push_decimal, push_hex, push_hex_digits, push_left_aligned,
    push_signed_decimal, push_spaces, push_upper_hex, signed_decimal, spaces, string_of, to_lower,
    trim, trimmed, unsigned, upper_hex,
};
use crate::types::NodeId;

pub mod laws;

verus! {

// --- Errors ----------------------------------------------------------------

/// Why an argument was not understood.
#[derive(Debug)]
pub enum ArgError {
    /// The object index is not a 16-bit hexadecimal number.
    InvalidIndex(String),
    /// The subindex is not an 8-bit hexadecimal number.
    InvalidSubindex(String),
    /// No data type has this name.
    UnknownDataType(String),
    /// Not a hexadecimal number.
    InvalidHex(String),
    /// Not a decimal number, or out of range.
    InvalidInteger(String),
    /// Not a floating-point number of the type.
    InvalidReal(DataType),
    /// Values of this type cannot be given as an argument.
    UnsupportedDataType,
    /// No NMT command has this name.
    UnknownCommand(String),
    /// The node id is not `1..=127`.
    NodeIdOutOfRange(u8),
}

impl ArgError {
    /// The text of [`message`](ArgError::message).
    pub open spec fn text(self) -> Seq<char> {
        match self {
            ArgError::InvalidIndex(s) => "invalid object index '"@ + s@ + "' (expected hex)"@,
            ArgError::InvalidSubindex(s) => "invalid subindex '"@ + s@ + "' (expected hex)"@,
            ArgError::UnknownDataType(s) => "unknown data type '"@ + s@
                + "' (use u8|u16|u32|u64|i8|i16|i32|i64|f32|f64|bool)"@,
            ArgError::InvalidHex(s) => "invalid hex '"@ + s@ + "'"@,
            ArgError::InvalidInteger(s) => "invalid integer '"@ + s@ + "'"@,
            ArgError::InvalidReal(t) => if t == DataType::Real32 {
                "invalid f32"@
            } else {
                "invalid f64"@
            },
            ArgError::UnsupportedDataType => "unsupported data type for writing"@,
            ArgError::UnknownCommand(s) => "unknown NMT command '"@ + s@
                + "' (use start|stop|preop|reset|reset-comm)"@,
            ArgError::NodeIdOutOfRange(n) => "node id "@ + decimal(n as nat)
                + " out of range (1..=127)"@,
        }
    }

    /// A description of the error, for display.
    pub fn message(&self) -> (out: String)
        ensures
            out@ == self.text(),
    {
        let mut out = String::new();
        match self {
            ArgError::InvalidIndex(s) => {
                push_quoted(&mut out, "invalid object index '", s, "' (expected hex)");
            },
            ArgError::InvalidSubindex(s) => {
                push_quoted(&mut out, "invalid subindex '", s, "' (expected hex)");
            },
            ArgError::UnknownDataType(s) => {
                push_quoted(
                    &mut out,
                    "unknown data type '",
                    s,
                    "' (use u8|u16|u32|u64|i8|i16|i32|i64|f32|f64|bool)",
                );
            },
            ArgError::InvalidHex(s) => {
                push_quoted(&mut out, "invalid hex '", s, "'");
            },
            ArgError::InvalidInteger(s) => {
                push_quoted(&mut out, "invalid integer '", s, "'");
            },
            ArgError::InvalidReal(t) => {
                if *t == DataType::Real32 {
                    out.append("invalid f32");
                } else {
                    out.append("invalid f64");
                }
            },
            ArgError::UnsupportedDataType => {
                out.append("unsupported data type for writing");
            },
            ArgError::UnknownCommand(s) => {
                push_quoted(
                    &mut out,
                    "unknown NMT command '",
                    s,
                    "' (use start|stop|preop|reset|reset-comm)",
                );
            },
            ArgError::NodeIdOutOfRange(n) => {
                out.append("node id ");
                push_decimal(&mut out, *n as u64);
                out.append(" out of range (1..=127)");
            },
        }
        assert(out@ =~= self.text());
        out
    }
}

fn push_quoted(out: &mut String, open: &str, s: &String, close: &str)
    ensures
        final(out)@ == old(out)@ + (open@ + s@ + close@),
{
    out.append(open);
    out.append(s.as_str());
    out.append(close);
    assert(out@ =~= old(out)@ + (open@ + s@ + close@));
}

// --- Arguments -------------------------------------------------------------

/// A text without any `0x` at its start.
pub open spec fn without_0x(s: Seq<char>) -> Seq<char>
    decreases s.len(),
{
    if s.len() >= 2 && s[0] == '0' && s[1] == 'x' {
        without_0x(s.skip(2))
    } else {
        s
    }
}

fn strip_0x(s: &[char]) -> (t: &[char])
    ensures
        t@ == without_0x(s@),
{
    let mut a: usize = 0;
    assert(s@.skip(0) =~= s@);
    while s.len() - a >= 2 && s[a] == '0' && s[a + 1] == 'x'
        invariant
            a <= s@.len(),
            without_0x(s@.skip(a as int)) == without_0x(s@),
        decreases s@.len() - a,
    {
        assert(s@.skip(a as int).skip(2) =~= s@.skip(a + 2));
        a += 2;
    }
    let t: &[char] = &s[a..s.len()];
    assert(t@ =~= s@.skip(a as int));
    t
}

/// The index and subindex parts of `INDEX[:SUB]`; the subindex defaults to `0`.
pub open spec fn object_parts(s: Seq<char>) -> (Seq<char>, Seq<char>) {
    let k = before(s, ':') as int;
    if k < s.len() {
        (s.take(k), s.skip(k + 1))
    } else {
        (s, "0"@)
    }
}

/// The address that `INDEX[:SUB]` names.
pub open spec fn object_argument(s: Seq<char>) -> Option<Address> {
    let (index, sub) = object_parts(s);
    match (unsigned(without_0x(index), true, 0xFFFF), unsigned(without_0x(sub), true, 0xFF)) {
        (Some(i), Some(j)) => Some(Address { index: i as u16, subindex: j as u8 }),
        _ => None,
    }
}

/// Parse `INDEX[:SUB]` (hex) into an [`Address`]; subindex defaults to 0.
pub fn parse_object(s: &str) -> (r: Result<Address, ArgError>)
    ensures
        match object_argument(s@) {
            Some(a) => r matches Ok(b) && a == b,
            None => r is Err,
        },
        ({
            let (index, sub) = object_parts(s@);
            match (unsigned(without_0x(index), true, 0xFFFF), unsigned(without_0x(sub), true, 0xFF)) {
                (None, _) => r matches Err(ArgError::InvalidIndex(t)) && t@ == index,
                (_, None) => r matches Err(ArgError::InvalidSubindex(t)) && t@ == sub,
                (Some(i), Some(j)) => r matches Ok(a) && a == (Address {
                    index: i as u16,
                    subindex: j as u8,
                }),
            }
        }),
{
    let chars = chars_of(s);
    let all: &[char] = chars.as_slice();
    let zero = chars_of("0");
    let k: usize = crate::host::eds::index_of(all, ':');
    let index: &[char];
    let sub: &[char];
    if k < all.len() {
        index = &all[0..k];
        sub = &all[k + 1..all.len()];
        assert(index@ =~= s@.take(k as int));
        assert(sub@ =~= s@.skip(k + 1));
    } else {
        index = all;
        sub = zero.as_slice();
    }
    assert((index@, sub@) == object_parts(s@));
    let i: u64 = match parse_unsigned(strip_0x(index), true, 0xFFFF) {
        Some(i) => i,
        None => {
            return Err(ArgError::InvalidIndex(string_of(index)));
        },
    };
    let j: u64 = match parse_unsigned(strip_0x(sub), true, 0xFF) {
        Some(j) => j,
        None => {
            return Err(ArgError::InvalidSubindex(string_of(sub)));
        },
    };
    Ok(Address { index: i as u16, subindex: j as u8 })
}

/// The data type with the given name, letter case aside.
pub open spec fn data_type_named(s: Seq<char>) -> Option<DataType> {
    let n = lowered(s);
    if n == "u8"@ {
        Some(DataType::Unsigned8)
    } else if n == "u16"@ {
        Some(DataType::Unsigned16)
    } else if n == "u32"@ {
        Some(DataType::Unsigned32)
    } else if n == "u64"@ {
        Some(DataType::Unsigned64)
    } else if n == "i8"@ {
        Some(DataType::Integer8)
    } else if n == "i16"@ {
        Some(DataType::Integer16)
    } else if n == "i32"@ {
        Some(DataType::Integer32)
    } else if n == "i64"@ {
        Some(DataType::Integer64)
    } else if n == "f32"@ {
        Some(DataType::Real32)
    } else if n == "f64"@ {
        Some(DataType::Real64)
    } else if n == "bool"@ {
        Some(DataType::Boolean)
    } else {
        None
    }
}

/// A text in lower case.
fn lower_text(chars: &[char]) -> (s: String)
    ensures
        s@ == lowered(chars@),
{
    let mut s = String::new();
    let mut i: usize = 0;
    assert(s@ =~= lowered(chars@).take(0));
    while i < chars.len()
        invariant
            i <= chars@.len(),
            s@ == lowered(chars@).take(i as int),
        decreases chars@.len() - i,
    {
        s.push(to_lower(chars[i]));
        i += 1;
        assert(s@ =~= lowered(chars@).take(i as int));
    }
    assert(s@ =~= lowered(chars@));
    s
}

/// Parse the name of a data type: u8|u16|u32|u64|i8|i16|i32|i64|f32|f64|bool.
pub fn parse_datatype(s: &str) -> (r: Result<DataType, ArgError>)
    ensures
        match data_type_named(s@) {
            Some(t) => r matches Ok(t2) && t2 == t,
            None => r matches Err(ArgError::UnknownDataType(n)) && n@ == lowered(s@),
        },
{
    let chars = chars_of(s);
    let n: &[char] = chars.as_slice();
    if is_word(n, "u8") {
        Ok(DataType::Unsigned8)
    } else if is_word(n, "u16") {
        Ok(DataType::Unsigned16)
    } else if is_word(n, "u32") {
        Ok(DataType::Unsigned32)
    } else if is_word(n, "u64") {
        Ok(DataType::Unsigned64)
    } else if is_word(n, "i8") {
        Ok(DataType::Integer8)
    } else if is_word(n, "i16") {
        Ok(DataType::Integer16)
    } else if is_word(n, "i32") {
        Ok(DataType::Integer32)
    } else if is_word(n, "i64") {
        Ok(DataType::Integer64)
    } else if is_word(n, "f32") {
        Ok(DataType::Real32)
    } else if is_word(n, "f64") {
        Ok(DataType::Real64)
    } else if is_word(n, "bool") {
        Ok(DataType::Boolean)
    } else {
        Err(ArgError::UnknownDataType(lower_text(n)))
    }
}

/// Whether a text has a `0x` or `0X` before it.
pub open spec fn is_hex(t: Seq<char>) -> bool {
    t.len() >= 2 && t[0] == '0' && (t[1] == 'x' || t[1] == 'X')
}

/// Parse a signed integer literal — decimal, or `0x`/`0X` hex.
pub fn parse_int(s: &str) -> (r: Result<i128, ArgError>)
    ensures
        match integer(s@) {
            Some(v) => r matches Ok(v2) && v2 == v,
            None => if is_hex(trimmed(s@)) {
                r matches Err(ArgError::InvalidHex(t)) && t@ == trimmed(s@)
            } else {
                r matches Err(ArgError::InvalidInteger(t)) && t@ == trimmed(s@)
            },
        },
{
    let chars = chars_of(s);
    match parse_integer(chars.as_slice()) {
        Some(v) => Ok(v),
        None => {
            let t = trim(chars.as_slice());
            if t.len() >= 2 && t[0] == '0' && (t[1] == 'x' || t[1] == 'X') {
                Err(ArgError::InvalidHex(string_of(t)))
            } else {
                Err(ArgError::InvalidInteger(string_of(t)))
            }
        },
    }
}

/// The low-order `n` bytes of a number.
pub open spec fn low_bytes(v: int, n: nat) -> nat {
    (v % byte_range(n) as int) as nat
}

/// The value of an integer type that has the low-order bytes of a number.
pub open spec fn wrapped_value(dt: DataType, v: int) -> Value {
    match dt {
        DataType::Unsigned8 => Value::Unsigned8(low_bytes(v, 1) as u8),
        DataType::Unsigned16 => Value::Unsigned16(low_bytes(v, 2) as u16),
        DataType::Unsigned32 => Value::Unsigned32(low_bytes(v, 4) as u32),
        DataType::Unsigned64 => Value::Unsigned64(low_bytes(v, 8) as u64),
        DataType::Integer8 => Value::Integer8(signed_value(low_bytes(v, 1), 1) as i8),
        DataType::Integer16 => Value::Integer16(signed_value(low_bytes(v, 2), 2) as i16),
        DataType::Integer32 => Value::Integer32(signed_value(low_bytes(v, 4), 4) as i32),
        _ => Value::Integer64(signed_value(low_bytes(v, 8), 8) as i64),
    }
}

/// Whether a data type is one of the integer types.
pub open spec fn is_integer(dt: DataType) -> bool {
    match dt {
        DataType::Unsigned8 | DataType::Unsigned16 | DataType::Unsigned32 | DataType::Unsigned64
        | DataType::Integer8 | DataType::Integer16 | DataType::Integer32 | DataType::Integer64 => true,
        _ => false,
    }
}

fn low_of(v: i128, range: i128) -> (x: u64)
    requires
        0 < range <= 0x1_0000_0000_0000_0000,
    ensures
        x == v as int % range as int,
        x < range,
{
    match v.checked_rem_euclid(range) {
        Some(r) => r as u64,
        None => 0,
    }
}

/// The value that an argument gives as `dt`: a boolean is true for `true` and
/// `1`, an integer keeps its low-order bytes, and a floating-point number has the
/// bit pattern `bits`, which its text was read as, if it is one of the type.
pub open spec fn value_of_argument(dt: DataType, text: Seq<char>, bits: Option<u64>) -> Option<
    Value,
> {
    match dt {
        DataType::Boolean => Some(
            Value::Boolean(
                lowered(trimmed(text)) == "true"@ || lowered(trimmed(text)) == "1"@,
            ),
        ),
        DataType::Real32 => match bits {
            Some(b) => if b < 0x1_0000_0000 {
                Some(Value::Real32(b as u32))
            } else {
                None
            },
            None => None,
        },
        DataType::Real64 => match bits {
            Some(b) => Some(Value::Real64(b)),
            None => None,
        },
        DataType::VisibleString | DataType::OctetString | DataType::Domain => None,
        _ => match integer(text) {
            Some(i) => Some(wrapped_value(dt, i)),
            None => None,
        },
    }
}

/// Parse `value` as `dt`. Reading a floating-point number is the caller's: `bits`
/// is the bit pattern of the number of type `dt` that `value` gives, or `None`
/// where it gives none, and does not matter for any other type.
pub fn parse_value(dt: DataType, value: &str, bits: Option<u64>) -> (r: Result<Value, ArgError>)
    ensures
        match value_of_argument(dt, value@, bits) {
            Some(v) => r matches Ok(v2) && v2 == v,
            None => if is_integer(dt) {
                if is_hex(trimmed(value@)) {
                    r matches Err(ArgError::InvalidHex(t)) && t@ == trimmed(value@)
                } else {
                    r matches Err(ArgError::InvalidInteger(t)) && t@ == trimmed(value@)
                }
            } else if dt == DataType::Real32 || dt == DataType::Real64 {
                r matches Err(ArgError::InvalidReal(t)) && t == dt
            } else {
                r matches Err(ArgError::UnsupportedDataType)
            },
        },
{
    match dt {
        DataType::Boolean => {
            let chars = chars_of(value);
            let t = trim(chars.as_slice());
            return Ok(Value::Boolean(is_word(t, "true") || is_word(t, "1")));
        },
        DataType::Real32 => {
            return match bits {
                Some(b) => if b < 0x1_0000_0000 {
                    Ok(Value::Real32(b as u32))
                } else {
                    Err(ArgError::InvalidReal(dt))
                },
                None => Err(ArgError::InvalidReal(dt)),
            };
        },
        DataType::Real64 => {
            return match bits {
                Some(b) => Ok(Value::Real64(b)),
                None => Err(ArgError::InvalidReal(dt)),
            };
        },
        DataType::VisibleString | DataType::OctetString | DataType::Domain => {
            return Err(ArgError::UnsupportedDataType);
        },
        _ => {},
    }
    let v: i128 = match parse_int(value) {
        Ok(v) => v,
        Err(e) => {
            return Err(e);
        },
    };
    proof {
        lemma_byte_ranges();
    }
    Ok(
        match dt {
            DataType::Unsigned8 => Value::Unsigned8(low_of(v, 0x100) as u8),
            DataType::Unsigned16 => Value::Unsigned16(low_of(v, 0x1_0000) as u16),
            DataType::Unsigned32 => Value::Unsigned32(low_of(v, 0x1_0000_0000) as u32),
            DataType::Unsigned64 => Value::Unsigned64(low_of(v, 0x1_0000_0000_0000_0000)),
            DataType::Integer8 => Value::Integer8(to_i8(low_of(v, 0x100) as u8)),
            DataType::Integer16 => Value::Integer16(to_i16(low_of(v, 0x1_0000) as u16)),
            DataType::Integer32 => Value::Integer32(to_i32(low_of(v, 0x1_0000_0000) as u32)),
            _ => Value::Integer64(to_i64(low_of(v, 0x1_0000_0000_0000_0000))),
        },
    )
}

/// The NMT command with the given name, letter case aside.
pub open spec fn command_named(s: Seq<char>) -> Option<NmtCommand> {
    let n = lowered(s);
    if n == "start"@ {
        Some(NmtCommand::StartRemoteNode)
    } else if n == "stop"@ {
        Some(NmtCommand::StopRemoteNode)
    } else if n == "preop"@ || n == "pre-op"@ || n == "pre-operational"@ {
        Some(NmtCommand::EnterPreOperational)
    } else if n == "reset"@ || n == "reset-node"@ {
        Some(NmtCommand::ResetNode)
    } else if n == "reset-comm"@ || n == "reset-communication"@ {
        Some(NmtCommand::ResetCommunication)
    } else {
        None
    }
}

/// Parse the name of an NMT command: start|stop|preop|reset|reset-comm.
pub fn parse_nmt_command(s: &str) -> (r: Result<NmtCommand, ArgError>)
    ensures
        match command_named(s@) {
            Some(c) => r matches Ok(c2) && c2 == c,
            None => r matches Err(ArgError::UnknownCommand(n)) && n@ == lowered(s@),
        },
{
    let chars = chars_of(s);
    let n: &[char] = chars.as_slice();
    if is_word(n, "start") {
        Ok(NmtCommand::StartRemoteNode)
    } else if is_word(n, "stop") {
        Ok(NmtCommand::StopRemoteNode)
    } else if is_word(n, "preop") || is_word(n, "pre-op") || is_word(n, "pre-operational") {
        Ok(NmtCommand::EnterPreOperational)
    } else if is_word(n, "reset") || is_word(n, "reset-node") {
        Ok(NmtCommand::ResetNode)
    } else if is_word(n, "reset-comm") || is_word(n, "reset-communication") {
        Ok(NmtCommand::ResetCommunication)
    } else {
        Err(ArgError::UnknownCommand(lower_text(n)))
    }
}

/// Parse the number of a node — decimal, or `0x`/`0X` hex.
pub fn parse_node(s: &str) -> (r: Result<u8, ArgError>)
    ensures
        match integer(s@) {
            Some(v) => if 0 <= v <= 0xFF {
                r matches Ok(n) && n == v
            } else {
                r matches Err(ArgError::InvalidInteger(t)) && t@ == trimmed(s@)
            },
            None => if is_hex(trimmed(s@)) {
                r matches Err(ArgError::InvalidHex(t)) && t@ == trimmed(s@)
            } else {
                r matches Err(ArgError::InvalidInteger(t)) && t@ == trimmed(s@)
            },
        },
{
    match parse_int(s) {
        Ok(v) => if 0 <= v && v <= 0xFF {
            Ok(v as u8)
        } else {
            let chars = chars_of(s);
            Err(ArgError::InvalidInteger(string_of(trim(chars.as_slice()))))
        },
        Err(e) => Err(e),
    }
}

/// The node that an argument names.
pub fn node_id(node: u8) -> (r: Result<NodeId, ArgError>)
    ensures
        if 1 <= node <= 127 {
            r matches Ok(id) && id@ == node
        } else {
            r matches Err(ArgError::NodeIdOutOfRange(n)) && n == node
        },
{
    match NodeId::new(node) {
        Ok(id) => Ok(id),
        Err(_) => Err(ArgError::NodeIdOutOfRange(node)),
    }
}

/// The target of an NMT command that an argument names: `0` for all nodes.
pub fn nmt_target(node: u8) -> (r: Result<NodeId, ArgError>)
    ensures
        if node <= 127 {
            r matches Ok(id) && id@ == node
        } else {
            r matches Err(ArgError::NodeIdOutOfRange(n)) && n == node
        },
{
    if node == 0 {
        Ok(NodeId::broadcast())
    } else {
        node_id(node)
    }
}

// --- Reports ---------------------------------------------------------------

/// What is printed when a command was sent to `node`.
pub open spec fn sent_text(command: Seq<char>, node: u8) -> Seq<char> {
    "sent "@ + command + " to "@ + if node == 0 {
        "all nodes"@
    } else {
        "node "@ + hex_text(node as nat, 2)
    }
}

/// What to print when a command was sent to `node`.
pub fn sent_report(command: &str, node: u8) -> (out: String)
    ensures
        out@ == sent_text(command@, node),
{
    let mut out = String::new();
    out.append("sent ");
    out.append(command);
    out.append(" to ");
    if node == 0 {
        out.append("all nodes");
    } else {
        out.append("node ");
        push_hex(&mut out, node as u64, 2);
    }
    assert(out@ =~= sent_text(command@, node));
    out
}

/// A short label for a COB-ID's function.
pub open spec fn label(cob_id: u16) -> &'static str {
    if cob_id == 0x000 {
        "NMT"
    } else if cob_id == 0x080 {
        "SYNC"
    } else if 0x081 <= cob_id <= 0x0FF {
        "EMCY"
    } else if cob_id == 0x100 {
        "TIME"
    } else if 0x180 <= cob_id <= 0x57F {
        "PDO"
    } else if 0x580 <= cob_id <= 0x5FF {
        "SDO tx"
    } else if 0x600 <= cob_id <= 0x67F {
        "SDO rx"
    } else if 0x700 <= cob_id <= 0x77F {
        "heartbeat"
    } else if cob_id == 0x7E4 || cob_id == 0x7E5 {
        "LSS"
    } else {
        ""
    }
}

/// A short label for a COB-ID's function.
pub fn classify(cob_id: u16) -> (s: &'static str)
    ensures
        s == label(cob_id),
{
    match cob_id {
        0x000 => "NMT",
        0x080 => "SYNC",
        0x081..=0x0FF => "EMCY",
        0x100 => "TIME",
        0x180..=0x57F => "PDO",
        0x580..=0x5FF => "SDO tx",
        0x600..=0x67F => "SDO rx",
        0x700..=0x77F => "heartbeat",
        0x7E4 | 0x7E5 => "LSS",
        _ => "",
    }
}

/// Bytes as two upper-case hexadecimal digits each, separated by spaces.
pub open spec fn bytes_text(data: Seq<u8>) -> Seq<char>
    decreases data.len(),
{
    let digits = upper_hex(data.last() as nat / 16) + upper_hex(data.last() as nat % 16);
    if data.len() == 0 {
        Seq::empty()
    } else if data.len() == 1 {
        digits
    } else {
        bytes_text(data.drop_last()) + " "@ + digits
    }
}

/// The line that reports a received frame: its COB-ID, its bytes, and what it is
/// for.
pub open spec fn frame_text(cob_id: u16, data: Seq<u8>) -> Seq<char> {
    let id = upper_hex(cob_id as nat);
    spaces(3 - id.len()) + id + "  ["@ + left_aligned(bytes_text(data), 23) + "] "@ + label(cob_id)@
}

fn bytes_string(data: &[u8]) -> (out: String)
    ensures
        out@ == bytes_text(data@),
{
    let mut out = String::new();
    let mut i: usize = 0;
    assert(out@ =~= bytes_text(data@.take(0)));
    while i < data.len()
        invariant
            i <= data@.len(),
            out@ == bytes_text(data@.take(i as int)),
        decreases data@.len() - i,
    {
        proof {
            assert(data@.take(i + 1).drop_last() =~= data@.take(i as int));
            assert(data@.take(i + 1).last() == data@[i as int]);
        }
        if i > 0 {
            out.append(" ");
        }
        push_upper_hex(&mut out, (data[i] / 16) as u64);
        push_upper_hex(&mut out, (data[i] % 16) as u64);
        assert(out@ =~= bytes_text(data@.take(i + 1)));
        i += 1;
    }
    assert(data@.take(data@.len() as int) =~= data@);
    out
}

/// The line that reports a received frame.
pub fn frame_report(cob_id: u16, data: &[u8]) -> (out: String)
    ensures
        out@ == frame_text(cob_id, data@),
{
    let mut id = String::new();
    push_upper_hex(&mut id, cob_id as u64);
    assert(id@ =~= upper_hex(cob_id as nat));
    let n: usize = chars_of(id.as_str()).len();
    let mut out = String::new();
    push_spaces(
        &mut out,
        if n < 3 {
            3 - n
        } else {
            0
        },
    );
    out.append(id.as_str());
    out.append("  [");
    push_left_aligned(&mut out, bytes_string(data).as_str(), 23);
    out.append("] ");
    out.append(classify(cob_id));
    assert(out@ =~= frame_text(cob_id, data@));
    out
}

/// The name of a data type's variant.
pub open spec fn variant_name(t: DataType) -> &'static str {
    match t {
        DataType::Boolean => "Boolean",
        DataType::Integer8 => "Integer8",
        DataType::Integer16 => "Integer16",
        DataType::Integer32 => "Integer32",
        DataType::Integer64 => "Integer64",
        DataType::Unsigned8 => "Unsigned8",
        DataType::Unsigned16 => "Unsigned16",
        DataType::Unsigned32 => "Unsigned32",
        DataType::Unsigned64 => "Unsigned64",
        DataType::Real32 => "Real32",
        DataType::Real64 => "Real64",
        DataType::VisibleString => "VisibleString",
        DataType::OctetString => "OctetString",
        DataType::Domain => "Domain",
    }
}

fn type_label(t: DataType) -> (s: &'static str)
    ensures
        s == variant_name(t),
{
    match t {
        DataType::Boolean => "Boolean",
        DataType::Integer8 => "Integer8",
        DataType::Integer16 => "Integer16",
        DataType::Integer32 => "Integer32",
        DataType::Integer64 => "Integer64",
        DataType::Unsigned8 => "Unsigned8",
        DataType::Unsigned16 => "Unsigned16",
        DataType::Unsigned32 => "Unsigned32",
        DataType::Unsigned64 => "Unsigned64",
        DataType::Real32 => "Real32",
        DataType::Real64 => "Real64",
        DataType::VisibleString => "VisibleString",
        DataType::OctetString => "OctetString",
        DataType::Domain => "Domain",
    }
}

/// A value for display; `text` is how a number with a fraction, or a text, reads.
pub open spec fn value_text(value: Value, text: Seq<char>) -> Seq<char> {
    variant_name(value.spec_data_type())@ + "("@ + (match value {
        Value::Boolean(b) => if b {
            "true"@
        } else {
            "false"@
        },
        Value::Integer8(x) => signed_decimal(x as int),
        Value::Integer16(x) => signed_decimal(x as int),
        Value::Integer32(x) => signed_decimal(x as int),
        Value::Integer64(x) => signed_decimal(x as int),
        Value::Unsigned8(x) => decimal(x as nat),
        Value::Unsigned16(x) => decimal(x as nat),
        Value::Unsigned32(x) => decimal(x as nat),
        Value::Unsigned64(x) => decimal(x as nat),
        Value::Real32(_) | Value::Real64(_) => text,
        Value::VisibleString(s) | Value::OctetString(s) | Value::Domain(s) => byte_string_text(
            s@,
            text,
        ),
    }) + ")"@
}

/// How a number with a fraction, or a text, reads: the first is given as `number`,
/// the second is quoted.
pub open spec fn content_text(value: Value, number: Seq<char>) -> Seq<char> {
    match value {
        Value::Real32(_) | Value::Real64(_) => number,
        Value::VisibleString(s) | Value::OctetString(s) | Value::Domain(s) => quoted_bytes(s@),
        _ => Seq::empty(),
    }
}

/// How a number with a fraction, or a text, reads.
pub fn content(value: &Value, number: &str) -> (out: String)
    ensures
        out@ == content_text(*value, number@),
{
    let mut out = String::new();
    match value {
        Value::Real32(_) | Value::Real64(_) => out.append(number),
        Value::VisibleString(s) | Value::OctetString(s) | Value::Domain(s) => {
            out = quote_bytes(s);
        },
        _ => {},
    }
    assert(out@ =~= content_text(*value, number@));
    out
}

/// A value for display; `text` is how a number with a fraction, or a text, reads
/// ([`content`]).
pub fn value_report(value: &Value, text: &str) -> (out: String)
    ensures
        out@ == value_text(*value, text@),
{
    let mut out = String::new();
    out.append(type_label(value.data_type()));
    out.append("(");
    match value {
        Value::Boolean(b) => out.append(
            if *b {
                "true"
            } else {
                "false"
            },
        ),
        Value::Integer8(x) => push_signed_decimal(&mut out, *x as i64),
        Value::Integer16(x) => push_signed_decimal(&mut out, *x as i64),
        Value::Integer32(x) => push_signed_decimal(&mut out, *x as i64),
        Value::Integer64(x) => push_signed_decimal(&mut out, *x),
        Value::Unsigned8(x) => push_decimal(&mut out, *x as u64),
        Value::Unsigned16(x) => push_decimal(&mut out, *x as u64),
        Value::Unsigned32(x) => push_decimal(&mut out, *x as u64),
        Value::Unsigned64(x) => push_decimal(&mut out, *x),
        Value::Real32(_) | Value::Real64(_) => out.append(text),
        Value::VisibleString(s) | Value::OctetString(s) | Value::Domain(s) => {
            let shown = byte_string_report(s, text);
            out.append(shown.as_str());
        },
    }
    out.append(")");
    assert(out@ =~= value_text(*value, text@));
    out
}

/// The line that lists an object: address, type, access, value, and name. A
/// floating-point value reads as `number`.
pub open spec fn object_text(d: Description, number: Seq<char>) -> Seq<char> {
    "  "@ + hex_text(d.address.index as nat, 4) + ":"@ + hex_digits(d.address.subindex as nat, 2)
        + "  "@ + left_aligned(variant_name(d.data_type)@, 10) + " "@ + left_aligned(
        crate::host::codegen::access_name(d.access)@,
        6,
    ) + " "@ + left_aligned(
        value_text(d.default_value, content_text(d.default_value, number)),
        24,
    ) + " "@ + d.parameter_name + "\n"@
}

/// The text at position `i`: empty beyond the end.
pub open spec fn text_at(texts: Seq<String>, i: int) -> Seq<char> {
    if 0 <= i < texts.len() {
        texts[i]@
    } else {
        Seq::empty()
    }
}

/// The lines that list the objects, in order; the floating-point value of object
/// `i` reads as text `i` of `numbers`.
pub open spec fn objects_text(objects: Seq<Description>, numbers: Seq<String>) -> Seq<char>
    decreases objects.len(),
{
    if objects.len() == 0 {
        Seq::empty()
    } else {
        objects_text(objects.drop_last(), numbers) + object_text(
            objects.last(),
            text_at(numbers, objects.len() - 1),
        )
    }
}

/// A name, or `(none)`.
pub open spec fn name_text(name: Option<Seq<char>>) -> Seq<char> {
    match name {
        Some(n) => n,
        None => "(none)"@,
    }
}

/// What is printed of a device description.
pub open spec fn eds_text(d: DeviceDescription, numbers: Seq<String>) -> Seq<char> {
    "vendor:  "@ + name_text(d.vendor_name) + "\n"@ + "product: "@ + name_text(d.product_name)
        + "\n"@ + (match d.node_id {
        Some(id) => "node id: "@ + hex_text(id as nat, 2) + "\n"@,
        None => Seq::empty(),
    }) + decimal(d.objects.len()) + " objects:\n"@ + objects_text(d.objects, numbers)
}

#[verifier::rlimit(50)]
#[verifier::spinoff_prover]
fn push_object(out: &mut String, o: &EdsObject, number: &str)
    ensures
        final(out)@ == old(out)@ + object_text(o@, number@),
{
    out.append("  ");
    push_hex(out, o.address.index as u64, 4);
    out.append(":");
    push_hex_digits(out, o.address.subindex as u64, 2);
    out.append("  ");
    push_left_aligned(out, type_label(o.data_type), 10);
    out.append(" ");
    push_left_aligned(out, crate::host::codegen::access_variant(o.access), 6);
    out.append(" ");
    let text = content(&o.default_value, number);
    let value = value_report(&o.default_value, text.as_str());
    push_left_aligned(out, value.as_str(), 24);
    out.append(" ");
    out.append(o.parameter_name.as_str());
    out.append("\n");
    assert(out@ =~= old(out)@ + object_text(o@, number@));
}

fn push_name(out: &mut String, name: &Option<String>)
    ensures
        final(out)@ == old(out)@ + name_text(crate::host::eds::text_in(*name)),
{
    match name {
        Some(n) => out.append(n.as_str()),
        None => out.append("(none)"),
    }
}

/// What to print of a device description: the names, the node id where there is
/// one, and a line per object. Text `i` of `numbers` is how the floating-point
/// value of object `i` reads; it does not matter for any other object.
pub fn eds_report(eds: &Eds, numbers: &[String]) -> (out: String)
    ensures
        out@ == eds_text(eds@, numbers@),
{
    let mut out = String::new();
    out.append("vendor:  ");
    push_name(&mut out, &eds.vendor_name);
    out.append("\n");
    out.append("product: ");
    push_name(&mut out, &eds.product_name);
    out.append("\n");
    if let Some(id) = eds.node_id {
        out.append("node id: ");
        push_hex(&mut out, id as u64, 2);
        out.append("\n");
    }
    push_decimal(&mut out, eds.objects.len() as u64);
    out.append(" objects:\n");
    let ghost head = out@;
    let ghost all = eds@.objects;
    let mut i: usize = 0;
    assert(all.take(0) =~= Seq::empty());
    assert(out@ =~= head + objects_text(all.take(0), numbers@));
    while i < eds.objects.len()
        invariant
            i <= eds.objects@.len(),
            all == descriptions(eds.objects@),
            out@ == head + objects_text(all.take(i as int), numbers@),
        decreases eds.objects@.len() - i,
    {
        proof {
            assert(all.take(i + 1).drop_last() =~= all.take(i as int));
            assert(all.take(i + 1).last() == eds.objects@[i as int]@);
        }
        let number: &str = if i < numbers.len() {
            numbers[i].as_str()
        } else {
            ""
        };
        proof {
            reveal_strlit("");
            assert(number@ =~= text_at(numbers@, i as int));
        }
        push_object(&mut out, &eds.objects[i], number);
        assert(out@ =~= head + objects_text(all.take(i + 1), numbers@));
        i += 1;
    }
    assert(all.take(all.len() as int) =~= all);
    assert(out@ =~= eds_text(eds@, numbers@));
    out
}

} // verus!
