//! Generate a compile-time object dictionary from an EDS/DCF file.
//!
//! [`generate_object_dictionary`] emits Rust source for a function that builds
//! an [`ObjectDictionary`](crate::ObjectDictionary) populated from a parsed
//! [`Eds`]. Run it from a `build.rs` so a device's `.eds` becomes a typed,
//! zero-runtime-parse OD.
use vstd::prelude::*;
use vstd::string::StringExecFns;

use crate::datatypes::Value;
use crate::host::eds::{descriptions, Description, DeviceDescription, Eds, EdsObject};
use crate::object_dictionary::AccessType;
use crate::text::{
    decimal, hex_text, push_decimal, push_hex, push_signed_decimal, signed_decimal,
};

pub mod laws;

verus! {

/// The name of an access right's variant.
pub open spec fn access_name(access: AccessType) -> &'static str {
    match access {
        AccessType::Ro => "Ro",
        AccessType::Wo => "Wo",
        AccessType::Rw => "Rw",
        AccessType::Const => "Const",
    }
}

/// The bytes as hexadecimal literals, separated by commas.
pub open spec fn byte_list(bytes: Seq<u8>) -> Seq<char>
    decreases bytes.len(),
{
    if bytes.len() == 0 {
        Seq::empty()
    } else if bytes.len() == 1 {
        hex_text(bytes[0] as nat, 2)
    } else {
        byte_list(bytes.drop_last()) + ", "@ + hex_text(bytes.last() as nat, 2)
    }
}

/// The literal of a variable-length value: its byte string, rebuilt from the
/// bytes.
pub open spec fn string_source(variant: &str, bytes: Seq<u8>) -> Seq<char> {
    "canopen_rs::Value::"@ + variant@ + "(canopen_rs::ByteString::from_bytes(&["@ + byte_list(bytes)
        + "]).unwrap())"@
}

/// The Rust expression for a value: unsigned numbers and bit patterns in
/// hexadecimal with all their digits, signed numbers in decimal.
pub open spec fn value_source(value: Value) -> Seq<char> {
    match value {
        Value::Boolean(b) => "canopen_rs::Value::Boolean("@ + (if b {
            "true"
        } else {
            "false"
        })@ + ")"@,
        Value::Unsigned8(x) => "canopen_rs::Value::Unsigned8("@ + hex_text(x as nat, 2) + ")"@,
        Value::Unsigned16(x) => "canopen_rs::Value::Unsigned16("@ + hex_text(x as nat, 4) + ")"@,
        Value::Unsigned32(x) => "canopen_rs::Value::Unsigned32("@ + hex_text(x as nat, 8) + ")"@,
        Value::Unsigned64(x) => "canopen_rs::Value::Unsigned64("@ + hex_text(x as nat, 16) + ")"@,
        Value::Integer8(x) => "canopen_rs::Value::Integer8("@ + signed_decimal(x as int) + ")"@,
        Value::Integer16(x) => "canopen_rs::Value::Integer16("@ + signed_decimal(x as int) + ")"@,
        Value::Integer32(x) => "canopen_rs::Value::Integer32("@ + signed_decimal(x as int) + ")"@,
        Value::Integer64(x) => "canopen_rs::Value::Integer64("@ + signed_decimal(x as int) + ")"@,
        Value::Real32(x) => "canopen_rs::Value::Real32("@ + hex_text(x as nat, 8) + ")"@,
        Value::Real64(x) => "canopen_rs::Value::Real64("@ + hex_text(x as nat, 16) + ")"@,
        Value::VisibleString(s) => string_source("VisibleString", s@),
        Value::OctetString(s) => string_source("OctetString", s@),
        Value::Domain(s) => string_source("Domain", s@),
    }
}

/// The line that inserts an object.
pub open spec fn insert_source(d: Description) -> Seq<char> {
    "    od.insert(canopen_rs::Address::new("@ + hex_text(d.address.index as nat, 4) + ", "@
        + hex_text(d.address.subindex as nat, 2) + "), canopen_rs::Entry { value: "@ + value_source(
        d.default_value,
    ) + ", access: canopen_rs::AccessType::"@ + access_name(d.access)@ + " }).unwrap();\n"@
}

/// The lines that insert the objects, in order.
pub open spec fn inserts_source(objects: Seq<Description>) -> Seq<char>
    decreases objects.len(),
{
    if objects.len() == 0 {
        Seq::empty()
    } else {
        inserts_source(objects.drop_last()) + insert_source(objects.last())
    }
}

/// The source of a function that builds a dictionary with exactly the objects of
/// a description.
pub open spec fn source_of(d: DeviceDescription, fn_name: Seq<char>) -> Seq<char> {
    "/// Object dictionary generated from an EDS by canopen-host.\n"@ + "pub fn "@ + fn_name
        + "() -> canopen_rs::ObjectDictionary<"@ + decimal(d.objects.len()) + "> {\n"@
        + "    let mut od = canopen_rs::ObjectDictionary::new();\n"@ + inserts_source(d.objects)
        + "    od\n"@ + "}\n"@
}

/// Emit Rust source for a `pub fn <fn_name>() -> canopen_rs::ObjectDictionary<N>`
/// that inserts every object in `eds`, with `N` sized to fit exactly.
///
/// The generated code refers to everything by absolute `canopen_rs::` path, so
/// it compiles regardless of the including module's imports (the crate need only
/// depend on `canopen-rs`).
pub fn generate_object_dictionary(eds: &Eds, fn_name: &str) -> (out: String)
    ensures
        out@ == source_of(eds@, fn_name@),
{
    let mut out = String::new();
    out.append("/// Object dictionary generated from an EDS by canopen-host.\n");
    out.append("pub fn ");
    out.append(fn_name);
    out.append("() -> canopen_rs::ObjectDictionary<");
    push_decimal(&mut out, eds.objects.len() as u64);
    out.append("> {\n");
    out.append("    let mut od = canopen_rs::ObjectDictionary::new();\n");
    let ghost head = out@;
    let ghost all = eds@.objects;
    let mut i: usize = 0;
    assert(all.take(0) =~= Seq::empty());
    assert(out@ =~= head + inserts_source(all.take(0)));
    while i < eds.objects.len()
        invariant
            i <= eds.objects@.len(),
            all == descriptions(eds.objects@),
            out@ == head + inserts_source(all.take(i as int)),
        decreases eds.objects@.len() - i,
    {
        proof {
            assert(all.take(i + 1).drop_last() =~= all.take(i as int));
            assert(all.take(i + 1).last() == eds.objects@[i as int]@);
        }
        push_insert(&mut out, &eds.objects[i]);
        assert(out@ =~= head + inserts_source(all.take(i + 1)));
        i += 1;
    }
    assert(all.take(all.len() as int) =~= all);
    out.append("    od\n");
    out.append("}\n");
    assert(out@ =~= source_of(eds@, fn_name@));
    out
}

/// Append the line that inserts an object.
fn push_insert(out: &mut String, o: &EdsObject)
    ensures
        final(out)@ == old(out)@ + insert_source(o@),
{
    out.append("    od.insert(canopen_rs::Address::new(");
    push_hex(out, o.address.index as u64, 4);
    out.append(", ");
    push_hex(out, o.address.subindex as u64, 2);
    out.append("), canopen_rs::Entry { value: ");
    push_value(out, &o.default_value);
    out.append(", access: canopen_rs::AccessType::");
    out.append(access_variant(o.access));
    out.append(" }).unwrap();\n");
    assert(out@ =~= old(out)@ + insert_source(o@));
}

/// The name of an access right's variant.
pub fn access_variant(access: AccessType) -> (name: &'static str)
    ensures
        name == access_name(access),
{
    match access {
        AccessType::Ro => "Ro",
        AccessType::Wo => "Wo",
        AccessType::Rw => "Rw",
        AccessType::Const => "Const",
    }
}

/// A Rust literal expression for a [`Value`], fully qualified.
pub fn value_literal(value: &Value) -> (out: String)
    ensures
        out@ == value_source(*value),
{
    let mut out = String::new();
    push_value(&mut out, value);
    assert(out@ =~= value_source(*value));
    out
}

/// Append `prefix`, a number in hexadecimal with `width` digits, and `)`.
fn push_unsigned(out: &mut String, prefix: &str, x: u64, width: u8)
    ensures
        final(out)@ == old(out)@ + (prefix@ + hex_text(x as nat, width as nat) + ")"@),
{
    out.append(prefix);
    push_hex(out, x, width);
    out.append(")");
    assert(out@ =~= old(out)@ + (prefix@ + hex_text(x as nat, width as nat) + ")"@));
}

/// Append `prefix`, a number in decimal, and `)`.
fn push_signed(out: &mut String, prefix: &str, x: i64)
    ensures
        final(out)@ == old(out)@ + (prefix@ + signed_decimal(x as int) + ")"@),
{
    out.append(prefix);
    push_signed_decimal(out, x);
    out.append(")");
    assert(out@ =~= old(out)@ + (prefix@ + signed_decimal(x as int) + ")"@));
}

/// Append the Rust expression for a value.
fn push_value(out: &mut String, value: &Value)
    ensures
        final(out)@ == old(out)@ + value_source(*value),
{
    match value {
        Value::Boolean(b) => {
            out.append("canopen_rs::Value::Boolean(");
            out.append(
                if *b {
                    "true"
                } else {
                    "false"
                },
            );
            out.append(")");
            assert(out@ =~= old(out)@ + value_source(*value));
        },
        Value::Unsigned8(x) => push_unsigned(out, "canopen_rs::Value::Unsigned8(", *x as u64, 2),
        Value::Unsigned16(x) => push_unsigned(out, "canopen_rs::Value::Unsigned16(", *x as u64, 4),
        Value::Unsigned32(x) => push_unsigned(out, "canopen_rs::Value::Unsigned32(", *x as u64, 8),
        Value::Unsigned64(x) => push_unsigned(out, "canopen_rs::Value::Unsigned64(", *x, 16),
        Value::Integer8(x) => push_signed(out, "canopen_rs::Value::Integer8(", *x as i64),
        Value::Integer16(x) => push_signed(out, "canopen_rs::Value::Integer16(", *x as i64),
        Value::Integer32(x) => push_signed(out, "canopen_rs::Value::Integer32(", *x as i64),
        Value::Integer64(x) => push_signed(out, "canopen_rs::Value::Integer64(", *x),
        Value::Real32(x) => push_unsigned(out, "canopen_rs::Value::Real32(", *x as u64, 8),
        Value::Real64(x) => push_unsigned(out, "canopen_rs::Value::Real64(", *x, 16),
        Value::VisibleString(s) => string_literal(out, "VisibleString", s.as_bytes()),
        Value::OctetString(s) => string_literal(out, "OctetString", s.as_bytes()),
        Value::Domain(s) => string_literal(out, "Domain", s.as_bytes()),
    }
}

/// A Rust literal for a variable-length value: reconstruct the bounded
/// [`ByteString`](crate::ByteString) from its bytes. A byte string holds no more
/// than `MAX_STRING_LEN` of them, so `from_bytes` cannot fail at runtime.
fn string_literal(out: &mut String, variant: &str, bytes: &[u8])
    ensures
        final(out)@ == old(out)@ + string_source(variant, bytes@),
{
    out.append("canopen_rs::Value::");
    out.append(variant);
    out.append("(canopen_rs::ByteString::from_bytes(&[");
    let ghost head = out@;
    let mut i: usize = 0;
    assert(out@ =~= head + byte_list(bytes@.take(0)));
    while i < bytes.len()
        invariant
            i <= bytes@.len(),
            out@ == head + byte_list(bytes@.take(i as int)),
        decreases bytes@.len() - i,
    {
        proof {
            assert(bytes@.take(i + 1).drop_last() =~= bytes@.take(i as int));
            assert(bytes@.take(i + 1).last() == bytes@[i as int]);
        }
        if i > 0 {
            out.append(", ");
        }
        push_hex(out, bytes[i] as u64, 2);
        assert(out@ =~= head + byte_list(bytes@.take(i + 1)));
        i += 1;
    }
    assert(bytes@.take(bytes@.len() as int) =~= bytes@);
    out.append("]).unwrap())");
    assert(out@ =~= old(out)@ + string_source(variant, bytes@));
}

} // verus!
