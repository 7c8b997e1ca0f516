//! What generated source guarantees: its literals are those of the objects.
use vstd::prelude::*;

use crate::cli::variant_name;
use crate::datatypes::{number_of, DataType, Value};
use crate::host::codegen::{
    access_name, byte_list, insert_source, inserts_source, source_of, value_source,
};
use crate::host::eds::{Description, DeviceDescription};
use crate::object_dictionary::AccessType;
use crate::text::laws::{law_integer_reads_decimal, law_integer_reads_hexadecimal, lemma_pow16};
use crate::text::{
    decimal, digits_value, hex_digits, hex_text, integer, law_hex_round_trip, signed_decimal,
};

verus! {

/// The literal of an integer, a bit pattern or a boolean: the path of its variant,
/// and in brackets what it holds. An integer, and the bits of a floating-point
/// number, read back from it.
pub proof fn law_literals(value: Value)
    requires
        value.spec_data_type() != DataType::VisibleString,
        value.spec_data_type() != DataType::OctetString,
        value.spec_data_type() != DataType::Domain,
    ensures
        ({
            let t = value_source(value);
            let head = "canopen_rs::Value::"@ + variant_name(value.spec_data_type())@ + seq!['('];
            let inner = t.subrange(head.len() as int, t.len() - 1);
            &&& t.len() > head.len()
            &&& t.take(head.len() as int) == head
            &&& t.last() == ')'
            &&& number_of(value) matches Some(x) ==> integer(inner) == Some(x)
            &&& value matches Value::Real32(b) ==> integer(inner) == Some(b as int)
            &&& value matches Value::Real64(b) ==> integer(inner) == Some(b as int)
            &&& value matches Value::Boolean(b) ==> inner == if b {
                "true"@
            } else {
                "false"@
            }
        }),
{
    lemma_literal_heads();
    lemma_pow16();
    reveal_strlit(")");
    let t = value_source(value);
    let head = "canopen_rs::Value::"@ + variant_name(value.spec_data_type())@ + seq!['('];
    let inner = t.subrange(head.len() as int, t.len() - 1);
    let none = Seq::<char>::empty();
    match value {
        Value::Boolean(b) => {
            assert(t.take(head.len() as int) =~= head);
            if b {
                assert(inner =~= "true"@);
            } else {
                assert(inner =~= "false"@);
            }
        },
        Value::Unsigned8(x) => lemma_hexadecimal(t, head, x as nat, 2),
        Value::Unsigned16(x) => lemma_hexadecimal(t, head, x as nat, 4),
        Value::Unsigned32(x) => lemma_hexadecimal(t, head, x as nat, 8),
        Value::Unsigned64(x) => lemma_hexadecimal(t, head, x as nat, 16),
        Value::Real32(x) => lemma_hexadecimal(t, head, x as nat, 8),
        Value::Real64(x) => lemma_hexadecimal(t, head, x as nat, 16),
        Value::Integer8(x) => lemma_decimal(t, head, x as int),
        Value::Integer16(x) => lemma_decimal(t, head, x as int),
        Value::Integer32(x) => lemma_decimal(t, head, x as int),
        Value::Integer64(x) => lemma_decimal(t, head, x as int),
        _ => {},
    }
}

proof fn lemma_hexadecimal(t: Seq<char>, head: Seq<char>, x: nat, width: nat)
    requires
        t == head + hex_text(x, width) + ")"@,
        0 < width,
        x < vstd::arithmetic::power::pow(16, width),
        x <= 0xFFFF_FFFF_FFFF_FFFF,
    ensures
        t.len() > head.len(),
        t.take(head.len() as int) == head,
        t.last() == ')',
        integer(t.subrange(head.len() as int, t.len() - 1)) == Some(x as int),
{
    reveal_strlit(")");
    law_integer_reads_hexadecimal(x, width, false);
    assert(t.take(head.len() as int) =~= head);
    assert(t.subrange(head.len() as int, t.len() - 1) =~= seq!['0', 'x'] + hex_digits(x, width));
}

proof fn lemma_decimal(t: Seq<char>, head: Seq<char>, x: int)
    requires
        t == head + signed_decimal(x) + ")"@,
        -0x8000_0000_0000_0000 <= x < 0x8000_0000_0000_0000,
    ensures
        t.len() > head.len(),
        t.take(head.len() as int) == head,
        t.last() == ')',
        integer(t.subrange(head.len() as int, t.len() - 1)) == Some(x),
{
    reveal_strlit(")");
    let none = Seq::<char>::empty();
    law_integer_reads_decimal(x, none, none);
    assert(none + signed_decimal(x) + none =~= signed_decimal(x));
    assert(t.take(head.len() as int) =~= head);
    assert(t.subrange(head.len() as int, t.len() - 1) =~= signed_decimal(x));
}

/// The heads of the literals are the path of the variant and a bracket.
proof fn lemma_literal_heads()
    ensures
        "canopen_rs::Value::Boolean("@ == "canopen_rs::Value::"@ + "Boolean"@ + seq!['('],
        "canopen_rs::Value::Unsigned8("@ == "canopen_rs::Value::"@ + "Unsigned8"@ + seq!['('],
        "canopen_rs::Value::Unsigned16("@ == "canopen_rs::Value::"@ + "Unsigned16"@ + seq!['('],
        "canopen_rs::Value::Unsigned32("@ == "canopen_rs::Value::"@ + "Unsigned32"@ + seq!['('],
        "canopen_rs::Value::Unsigned64("@ == "canopen_rs::Value::"@ + "Unsigned64"@ + seq!['('],
        "canopen_rs::Value::Integer8("@ == "canopen_rs::Value::"@ + "Integer8"@ + seq!['('],
        "canopen_rs::Value::Integer16("@ == "canopen_rs::Value::"@ + "Integer16"@ + seq!['('],
        "canopen_rs::Value::Integer32("@ == "canopen_rs::Value::"@ + "Integer32"@ + seq!['('],
        "canopen_rs::Value::Integer64("@ == "canopen_rs::Value::"@ + "Integer64"@ + seq!['('],
        "canopen_rs::Value::Real32("@ == "canopen_rs::Value::"@ + "Real32"@ + seq!['('],
        "canopen_rs::Value::Real64("@ == "canopen_rs::Value::"@ + "Real64"@ + seq!['('],
{
    reveal_strlit("canopen_rs::Value::");
    reveal_strlit("canopen_rs::Value::Boolean(");
    reveal_strlit("canopen_rs::Value::Unsigned8(");
    reveal_strlit("canopen_rs::Value::Unsigned16(");
    reveal_strlit("canopen_rs::Value::Unsigned32(");
    reveal_strlit("canopen_rs::Value::Unsigned64(");
    reveal_strlit("canopen_rs::Value::Integer8(");
    reveal_strlit("canopen_rs::Value::Integer16(");
    reveal_strlit("canopen_rs::Value::Integer32(");
    reveal_strlit("canopen_rs::Value::Integer64(");
    reveal_strlit("canopen_rs::Value::Real32(");
    reveal_strlit("canopen_rs::Value::Real64(");
    reveal_strlit("Boolean");
    reveal_strlit("Unsigned8");
    reveal_strlit("Unsigned16");
    reveal_strlit("Unsigned32");
    reveal_strlit("Unsigned64");
    reveal_strlit("Integer8");
    reveal_strlit("Integer16");
    reveal_strlit("Integer32");
    reveal_strlit("Integer64");
    reveal_strlit("Real32");
    reveal_strlit("Real64");
}

/// The literal of a byte string lists its bytes in order, each as a hexadecimal
/// number of two digits, with a comma and a space between two.
pub proof fn law_byte_lists(bytes: Seq<u8>, i: int)
    requires
        0 <= i < bytes.len(),
    ensures
        byte_list(bytes).len() == 6 * bytes.len() - 2,
        integer(byte_list(bytes).subrange(6 * i, 6 * i + 4)) == Some(bytes[i] as int),
        i > 0 ==> byte_list(bytes)[6 * i - 2] == ',' && byte_list(bytes)[6 * i - 1] == ' ',
        byte_list(Seq::empty()) == Seq::<char>::empty(),
    decreases bytes.len(),
{
    let front = bytes.drop_last();
    let n = front.len() as int;
    let x = bytes.last() as nat;
    let t = byte_list(bytes);
    let last = hex_text(x, 2);
    reveal_strlit(", ");
    lemma_pow16();
    law_hex_round_trip(x, 2);
    law_integer_reads_hexadecimal(x, 2, false);
    if n > 0 {
        law_byte_lists(front, 0);
        assert(t =~= byte_list(front) + ", "@ + last);
    } else {
        assert(t =~= last);
    }
    assert(t.subrange(6 * n, 6 * n + 4) =~= last);
    if i < n {
        law_byte_lists(front, i);
        assert(t.subrange(6 * i, 6 * i + 4) =~= byte_list(front).subrange(6 * i, 6 * i + 4));
    }
}

/// A byte string's literal names its own variant and holds the list of its own
/// bytes.
pub proof fn law_string_literals(value: Value)
    ensures
        ({
            let open = "(canopen_rs::ByteString::from_bytes(&["@;
            let close = "]).unwrap())"@;
            &&& value matches Value::VisibleString(s) ==> value_source(value)
                == "canopen_rs::Value::"@ + "VisibleString"@ + open + byte_list(s@) + close
            &&& value matches Value::OctetString(s) ==> value_source(value)
                == "canopen_rs::Value::"@ + "OctetString"@ + open + byte_list(s@) + close
            &&& value matches Value::Domain(s) ==> value_source(value) == "canopen_rs::Value::"@
                + "Domain"@ + open + byte_list(s@) + close
        }),
{
}

/// The access rights are given by their variants.
pub proof fn law_access_literals()
    ensures
        access_name(AccessType::Ro) == "Ro",
        access_name(AccessType::Wo) == "Wo",
        access_name(AccessType::Rw) == "Rw",
        access_name(AccessType::Const) == "Const",
{
}

/// The line of an object holds its own index and subindex, which read back from
/// it, the literal of its own value, and its own access rights, in this order.
pub proof fn law_insert_lines(d: Description)
    ensures
        ({
            let t = insert_source(d);
            let head = "    od.insert(canopen_rs::Address::new("@;
            let middle = "), canopen_rs::Entry { value: "@;
            let behind = ", access: canopen_rs::AccessType::"@;
            let end = " }).unwrap();\n"@;
            let n = head.len() as int;
            &&& t.take(n) == head
            &&& integer(t.subrange(n, n + 6)) == Some(d.address.index as int)
            &&& t[n + 6] == ',' && t[n + 7] == ' '
            &&& integer(t.subrange(n + 8, n + 12)) == Some(d.address.subindex as int)
            &&& t.skip(n + 12) == middle + value_source(d.default_value) + behind + access_name(
                d.access,
            )@ + end
        }),
{
    let t = insert_source(d);
    let head = "    od.insert(canopen_rs::Address::new("@;
    let n = head.len() as int;
    let index = hex_text(d.address.index as nat, 4);
    let sub = hex_text(d.address.subindex as nat, 2);
    reveal_strlit(", ");
    lemma_pow16();
    law_hex_round_trip(d.address.index as nat, 4);
    law_hex_round_trip(d.address.subindex as nat, 2);
    law_integer_reads_hexadecimal(d.address.index as nat, 4, false);
    law_integer_reads_hexadecimal(d.address.subindex as nat, 2, false);
    assert(t.take(n) =~= head);
    assert(t.subrange(n, n + 6) =~= index);
    assert(t.subrange(n + 8, n + 12) =~= sub);
    assert(t.skip(n + 12) =~= "), canopen_rs::Entry { value: "@ + value_source(d.default_value)
        + ", access: canopen_rs::AccessType::"@ + access_name(d.access)@ + " }).unwrap();\n"@);
}

/// Each object has its line, in the order of the description: the lines of a list
/// are those of its parts, one after the other, and an object alone has the line
/// that inserts it.
pub proof fn law_lines_in_order(a: Seq<Description>, b: Seq<Description>, d: Description)
    ensures
        inserts_source(a + b) == inserts_source(a) + inserts_source(b),
        inserts_source(seq![d]) == insert_source(d),
        inserts_source(Seq::empty()) == Seq::<char>::empty(),
    decreases b.len(),
{
    let one = seq![d];
    assert(one.drop_last() =~= Seq::empty());
    assert(inserts_source(one.drop_last()) == Seq::<char>::empty());
    assert(one.last() == d);
    assert(inserts_source(seq![d]) =~= insert_source(d));
    if b.len() == 0 {
        assert(a + b =~= a);
        assert(inserts_source(a) + inserts_source(b) =~= inserts_source(a));
    } else {
        law_lines_in_order(a, b.drop_last(), d);
        assert((a + b).drop_last() =~= a + b.drop_last());
        assert((a + b).last() == b.last());
        assert(inserts_source(a + b) =~= inserts_source(a) + inserts_source(b));
    }
}

/// The function has the name given, and the dictionary it returns has exactly as
/// many places as there are objects, each of which it inserts.
pub proof fn law_functions(d: DeviceDescription, name: Seq<char>)
    ensures
        ({
            let t = source_of(d, name);
            let head = "/// Object dictionary generated from an EDS by canopen-host.\n"@
                + "pub fn "@ + name + "() -> canopen_rs::ObjectDictionary<"@;
            let count = decimal(d.objects.len());
            let n = head.len() as int;
            &&& t.take(n) == head
            &&& digits_value(count, false) == Some(d.objects.len())
            &&& t.skip(n) == count + "> {\n"@
                + "    let mut od = canopen_rs::ObjectDictionary::new();\n"@ + inserts_source(
                d.objects,
            ) + "    od\n"@ + "}\n"@
        }),
{
    let t = source_of(d, name);
    let head = "/// Object dictionary generated from an EDS by canopen-host.\n"@ + "pub fn "@ + name
        + "() -> canopen_rs::ObjectDictionary<"@;
    let n = head.len() as int;
    crate::text::law_decimal_round_trip(d.objects.len());
    assert(t.take(n) =~= head);
    assert(t.skip(n) =~= decimal(d.objects.len()) + "> {\n"@
        + "    let mut od = canopen_rs::ObjectDictionary::new();\n"@ + inserts_source(d.objects)
        + "    od\n"@ + "}\n"@);
}

} // verus!
