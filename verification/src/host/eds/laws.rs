//! What reading a device description guarantees: lines, sections and fields, and
//! the object that each section describes.
use vstd::arithmetic::power::{lemma_pow1, pow};
use vstd::prelude::*;
use vstd::utf8::encode_utf8;

use crate::cli::laws::range_of;
use crate::datatypes::{number_of, DataType, Value};
use crate::host::eds::{
    access_of, add_line, address_of_name, before, behind, bits_at, bytes_of_hex, capped,
    description_of, field, integer_value, lemma_before_is, number_of_text, object_of, objects_of,
    real_of, reals_of, section, sections_from, sections_of, type_of, value_of_text, Description,
    DeviceDescription, EdsError, IniSection,
};
use crate::little_endian::lemma_byte_ranges;
use crate::object_dictionary::{AccessType, Address};
use crate::text::{
    decimal, digits_value, hex_digits, hex_text, integer, law_hex_round_trip, lower, lowered,
    trimmed, white_space,
};

verus! {

// --- Lines, sections and fields --------------------------------------------

/// A text is read line by line: what stands before the first line break makes up a
/// line, white space around it aside, and reading goes on behind it with the next
/// line number. A malformed line ends it with its number. A text without a line
/// break is one line, and an empty one is none.
pub proof fn law_lines(line: Seq<char>, rest: Seq<char>, n: nat, sections: Seq<IniSection>)
    requires
        forall|i: int| 0 <= i < line.len() ==> #[trigger] line[i] != '\n',
    ensures
        sections_from(line + seq!['\n'] + rest, n, sections) == match add_line(
            sections,
            trimmed(line),
        ) {
            Some(more) => sections_from(rest, n + 1, more),
            None => Err(n),
        },
        line.len() > 0 ==> sections_from(line, n, sections) == match add_line(
            sections,
            trimmed(line),
        ) {
            Some(more) => Ok::<Seq<IniSection>, nat>(more),
            None => Err(n),
        },
        sections_from(Seq::empty(), n, sections) == Ok::<Seq<IniSection>, nat>(sections),
        sections_of(rest) == sections_from(rest, 1, Seq::empty()),
{
    let k = line.len() as int;
    let text = line + seq!['\n'] + rest;
    lemma_before_is(text, '\n', k);
    assert(text.take(k) =~= line);
    assert(behind(text, '\n') =~= rest);
    lemma_before_is(line, '\n', k);
    assert(line.take(k) =~= line);
    assert(behind(line, '\n') =~= Seq::empty());
    reveal_with_fuel(sections_from, 2);
}

/// What a line does. Blank lines and comments, behind `;` or `#`, do nothing.
/// `[name]` begins a section of that name, without fields. `key=value` adds a field
/// to the last section, cut at the first `=`, white space around both aside, even
/// with an empty key; before the first section it is malformed. A `[` without its `]` at the end, and any
/// line without a `=`, is malformed.
pub proof fn law_line_forms(sections: Seq<IniSection>, a: Seq<char>, b: Seq<char>)
    ensures
        add_line(sections, Seq::empty()) == Some(sections),
        add_line(sections, seq![';'] + a) == Some(sections),
        add_line(sections, seq!['#'] + a) == Some(sections),
        add_line(sections, seq!['['] + a + seq![']']) == Some(
            sections.push(IniSection { name: trimmed(a), fields: Seq::empty() }),
        ),
        a.len() > 0 && a.last() != ']' ==> add_line(sections, seq!['['] + a) is None,
        add_line(sections, seq!['[']) is None,
        (a.len() == 0 || plain(a)) && !a.contains('=') ==> {
            let more = add_line(sections, a + seq!['='] + b);
            &&& sections.len() == 0 ==> more is None
            &&& sections.len() > 0 ==> {
                &&& more matches Some(after)
                &&& after.len() == sections.len()
                &&& forall|i: int| 0 <= i < sections.len() - 1 ==> after[i] == sections[i]
                &&& after.last().name == sections.last().name
                &&& after.last().fields == sections.last().fields.push((trimmed(a), trimmed(b)))
            }
            &&& a.len() > 0 ==> add_line(sections, a) is None
        },
{
    let name = seq!['['] + a + seq![']'];
    assert(name.subrange(1, name.len() - 1) =~= a);
    assert((seq!['['] + a).last() == if a.len() > 0 {
        a.last()
    } else {
        '['
    });
    if (a.len() == 0 || plain(a)) && !a.contains('=') {
        let k = a.len() as int;
        let line = a + seq!['='] + b;
        assert forall|i: int| 0 <= i < k implies line[i] != '=' && a[i] != '=' by {
            assert(a.contains(a[i]));
        }
        lemma_before_is(line, '=', k);
        lemma_before_is(a, '=', k);
        assert(line.take(k) =~= a);
        assert(line.skip(k + 1) =~= b);
        assert(line[0] == if k > 0 {
            a[0]
        } else {
            '='
        });
    }
}

/// Whether a text begins neither a comment nor a section.
pub open spec fn plain(a: Seq<char>) -> bool {
    a.len() > 0 && a[0] != ';' && a[0] != '#' && a[0] != '['
}

/// A field is found by its key, letter case aside, and of several the first
/// counts.
pub proof fn law_first_field_counts(
    fields: Seq<(Seq<char>, Seq<char>)>,
    key: Seq<char>,
    k: int,
)
    requires
        0 <= k <= fields.len(),
        forall|i: int| 0 <= i < k ==> lowered((#[trigger] fields[i]).0) != key,
    ensures
        k < fields.len() && lowered(fields[k].0) == key ==> field(fields, key) == Some(
            fields[k].1,
        ),
        k == fields.len() ==> field(fields, key) is None,
    decreases fields.len(),
{
    if k > 0 {
        let rest = fields.drop_first();
        assert(lowered(fields[0].0) != key);
        assert forall|i: int| 0 <= i < k - 1 implies lowered((#[trigger] rest[i]).0) != key by {
            assert(rest[i] == fields[i + 1]);
        }
        law_first_field_counts(rest, key, k - 1);
    }
}

/// A section is found by its name, letter case aside, and of several the first
/// counts; one that is not there has no fields.
pub proof fn law_first_section_counts(sections: Seq<IniSection>, name: Seq<char>, k: int)
    requires
        0 <= k <= sections.len(),
        forall|i: int| 0 <= i < k ==> lowered((#[trigger] sections[i]).name) != name,
    ensures
        k < sections.len() && lowered(sections[k].name) == name ==> section(sections, name)
            == sections[k].fields,
        k == sections.len() ==> section(sections, name).len() == 0,
    decreases sections.len(),
{
    if k > 0 {
        let rest = sections.drop_first();
        assert(lowered(sections[0].name) != name);
        assert forall|i: int| 0 <= i < k - 1 implies lowered((#[trigger] rest[i]).name)
            != name by {
            assert(rest[i] == sections[i + 1]);
        }
        law_first_section_counts(rest, name, k - 1);
    }
}

// --- The parts of an object ------------------------------------------------

/// Hexadecimal digits have no letter in upper case, and no `s`.
proof fn lemma_hex_digits(x: nat, width: nat)
    ensures
        hex_digits(x, width).len() == width,
        forall|i: int|
            0 <= i < width ==> {
                let c = #[trigger] hex_digits(x, width)[i];
                c != 's' && lower(c) == c
            },
    decreases width,
{
    if width > 0 {
        lemma_hex_digits(x / 16, (width - 1) as nat);
    }
}

/// A section names an object by its index in hexadecimal, and behind `sub` its
/// subindex, letter case aside; without it, the subindex is 0.
pub proof fn law_section_names(a: Address, width: nat, name: Seq<char>)
    requires
        1 <= width <= 2,
        a.subindex < pow(16, width),
    ensures
        lowered(name) == hex_digits(a.index as nat, 4) ==> address_of_name(name) == Some(
            Address { index: a.index, subindex: 0 },
        ),
        lowered(name) == hex_digits(a.index as nat, 4) + seq!['s', 'u', 'b'] + hex_digits(
            a.subindex as nat,
            width,
        ) ==> address_of_name(name) == Some(a),
{
    let index = hex_digits(a.index as nat, 4);
    let sub = hex_digits(a.subindex as nat, width);
    lemma_hex_digits(a.index as nat, 4);
    lemma_hex_digits(a.subindex as nat, width);
    crate::text::laws::lemma_pow16();
    law_hex_round_trip(a.index as nat, 4);
    law_hex_round_trip(a.subindex as nat, width);
    let s = lowered(name);
    if s == index {
        lemma_before_is(s, 's', 4);
        assert(s.take(4) =~= index);
    }
    let full = index + seq!['s', 'u', 'b'] + sub;
    if s == full {
        lemma_before_is(s, 's', 4);
        assert(s.take(4) =~= index);
        assert(s.skip(7) =~= sub);
        assert(s[5] == 'u' && s[6] == 'b');
    }
}

/// A name that does not begin with the digits of an index up to 65535 names no
/// object, nor does one with anything but `sub` and the digits of a subindex up to
/// 255 behind them.
pub proof fn law_other_names(name: Seq<char>, k: int)
    requires
        0 <= k <= name.len(),
        k < name.len() ==> lowered(name)[k] == 's',
        forall|i: int| 0 <= i < k ==> lowered(name)[i] != 's',
    ensures
        ({
            let s = lowered(name);
            &&& address_of_name(name) matches Some(a) ==> {
                &&& k > 0
                &&& digits_value(s.take(k), true) == Some(a.index as nat)
                &&& k == s.len() ==> a.subindex == 0
                &&& k < s.len() ==> k + 3 < s.len() && s[k + 1] == 'u' && s[k + 2] == 'b'
                    && digits_value(s.skip(k + 3), true) == Some(a.subindex as nat)
            }
        }),
{
    lemma_before_is(lowered(name), 's', k);
}

/// The access rights by their names: `ro`, `wo`, `const`, and `rw` with its PDO
/// forms `rww` and `rwr`, letter case aside. There are no others.
pub proof fn law_access_names(text: Seq<char>)
    ensures
        ({
            let s = lowered(text);
            let a = access_of(text);
            &&& a == Some(AccessType::Ro) <==> s =~= seq!['r', 'o']
            &&& a == Some(AccessType::Wo) <==> s =~= seq!['w', 'o']
            &&& a == Some(AccessType::Rw) <==> s =~= seq!['r', 'w'] || s =~= seq!['r', 'w', 'w']
                || s =~= seq!['r', 'w', 'r']
            &&& a == Some(AccessType::Const) <==> s =~= seq!['c', 'o', 'n', 's', 't']
        }),
{
    reveal_strlit("ro");
    reveal_strlit("wo");
    reveal_strlit("rw");
    reveal_strlit("rww");
    reveal_strlit("rwr");
    reveal_strlit("const");
    assert("ro"@ =~= seq!['r', 'o']);
    assert("wo"@ =~= seq!['w', 'o']);
    assert("rw"@ =~= seq!['r', 'w']);
    assert("rww"@ =~= seq!['r', 'w', 'w']);
    assert("rwr"@ =~= seq!['r', 'w', 'r']);
    assert("const"@ =~= seq!['c', 'o', 'n', 's', 't']);
    assert("ro"@[1] == 'o' && "rw"@[1] == 'w' && "wo"@[0] == 'w' && "ro"@[0] == 'r');
}

/// A number is an integer literal; `$NODEID`, letter case aside, stands for the
/// node-id, and `$NODEID+` and a literal for their sum, white space before the plus
/// aside. Anything else behind `$NODEID` is no number. No text is zero.
pub proof fn law_numbers(text: Seq<char>, gap: Seq<char>, literal: Seq<char>, node_id: u8)
    requires
        forall|i: int| 0 <= i < gap.len() ==> white_space(#[trigger] gap[i]),
        literal.len() > 0,
        !white_space(literal.last()),
    ensures
        trimmed(text).len() == 0 ==> number_of_text(text, node_id) == Some(0int),
        0 < trimmed(text).len() < 7 || (trimmed(text).len() > 0 && trimmed(text)[0] != '$')
            ==> number_of_text(text, node_id) == integer(trimmed(text)),
        lowered(trimmed(text)) =~= seq!['$', 'n', 'o', 'd', 'e', 'i', 'd'] ==> number_of_text(
            text,
            node_id,
        ) == Some(node_id as int),
        number_of_text(
            seq!['$', 'N', 'O', 'D', 'E', 'I', 'D'] + gap + seq!['+'] + literal,
            node_id,
        ) == match integer(literal) {
            Some(v) => Some(node_id + v),
            None => None,
        },
        !white_space(literal[0]) && literal[0] != '+' ==> number_of_text(
            seq!['$', 'N', 'O', 'D', 'E', 'I', 'D'] + gap + literal,
            node_id,
        ) is None,
{
    reveal_strlit("$nodeid");
    let mark = seq!['$', 'n', 'o', 'd', 'e', 'i', 'd'];
    assert("$nodeid"@ =~= mark);
    let t = trimmed(text);
    if t.len() >= 7 && lowered(t.take(7)) == mark {
        assert(lowered(t.take(7))[0] == lower(t[0]));
        assert(lower(t[0]) == '$');
    }
    if lowered(t) =~= mark {
        assert(lowered(t).len() == t.len());
        assert(t.take(7) =~= t);
        assert(t.skip(7) =~= Seq::empty());
        assert(trimmed(Seq::<char>::empty()) == Seq::<char>::empty());
    }
    let plus = seq!['+'] + literal;
    lemma_behind_node_id(gap, plus);
    assert(plus.drop_first() =~= literal);
    let sum = seq!['$', 'N', 'O', 'D', 'E', 'I', 'D'] + gap + seq!['+'] + literal;
    assert(sum =~= seq!['$', 'N', 'O', 'D', 'E', 'I', 'D'] + gap + plus);
    if !white_space(literal[0]) && literal[0] != '+' {
        lemma_behind_node_id(gap, literal);
    }
}

/// What stands behind `$NODEID`, white space in front of it aside.
proof fn lemma_behind_node_id(gap: Seq<char>, rest: Seq<char>)
    requires
        forall|i: int| 0 <= i < gap.len() ==> white_space(#[trigger] gap[i]),
        rest.len() > 0,
        !white_space(rest[0]),
        !white_space(rest.last()),
    ensures
        ({
            let t = seq!['$', 'N', 'O', 'D', 'E', 'I', 'D'] + gap + rest;
            &&& trimmed(t) == t
            &&& lowered(t.take(7)) == "$nodeid"@
            &&& trimmed(t.skip(7)) == rest
        }),
{
    reveal_strlit("$nodeid");
    let mark = seq!['$', 'n', 'o', 'd', 'e', 'i', 'd'];
    assert("$nodeid"@ =~= mark);
    let t = seq!['$', 'N', 'O', 'D', 'E', 'I', 'D'] + gap + rest;
    let none = Seq::<char>::empty();
    assert(none + t + none =~= t);
    assert(t.last() == rest.last());
    crate::text::laws::law_trimmed(none, t, none);
    let head = t.take(7);
    assert forall|i: int| 0 <= i < 7 implies lowered(head)[i] == mark[i] by {
        assert(lowered(head)[i] == lower(head[i]));
    }
    assert(lowered(head) =~= mark);
    assert(t.skip(7) =~= gap + rest + none);
    crate::text::laws::law_trimmed(gap, rest, none);
}

/// A number in the range of an integer type gives the value of that type that
/// holds it. A signed type also takes the bit pattern of a negative number, and
/// nothing else is taken.
pub proof fn law_integers_fit(data_type: DataType, v: int)
    ensures
        ({
            let (least, end) = range_of(data_type);
            match integer_value(data_type, v) {
                Some(value) => {
                    &&& value.spec_data_type() == data_type
                    &&& number_of(value) matches Some(x)
                    &&& least <= v < end ==> x == v
                    &&& !(least <= v < end) ==> least < 0 && end <= v < end - least && x == v - (end
                        - least)
                },
                None => !(least <= v < end) && !(least < 0 && end <= v < end - least),
            }
        }),
{
    lemma_byte_ranges();
}

/// Pairs of hexadecimal digits give a byte each, in order; an odd number of
/// digits, or anything but digits, gives none.
pub proof fn law_hex_bytes(s: Seq<char>, i: int)
    ensures
        match bytes_of_hex(s) {
            Some(bytes) => {
                &&& s.len() == 2 * bytes.len()
                &&& 0 <= i < bytes.len() ==> digits_value(s.subrange(2 * i, 2 * i + 2), true)
                    == Some(bytes[i] as nat)
            },
            None => s.len() % 2 == 1 || digits_value(s, true) is None,
        },
    decreases s.len(),
{
    if s.len() >= 2 {
        let n = s.len() as int;
        let front = s.take(n - 2);
        let last = s.subrange(n - 2, n);
        law_hex_bytes(front, i);
        crate::text::laws::law_digits_count_by_their_place(front, last, true);
        crate::text::laws::law_digits_count_by_their_place(
            last.take(1),
            last.skip(1),
            true,
        );
        lemma_pow1(16);
        assert(front + last =~= s);
        assert(last.take(1) + last.skip(1) =~= last);
        crate::text::laws::law_digits_count_by_their_place(last.take(1), Seq::empty(), true);
        crate::text::laws::law_digits_count_by_their_place(last.skip(1), Seq::empty(), true);
        crate::text::laws::law_digits(s[n - 2]);
        crate::text::laws::law_digits(s[n - 1]);
        if let Some(bytes) = bytes_of_hex(s) {
            let head = bytes_of_hex(front)->0;
            if 0 <= i < head.len() {
                assert(s.subrange(2 * i, 2 * i + 2) =~= front.subrange(2 * i, 2 * i + 2));
            }
            if i == head.len() {
                assert(s.subrange(2 * i, 2 * i + 2) =~= last);
            }
        }
    }
}

/// What a value's text gives, by type: an integer its number, if it fits; a
/// boolean `true`, `false`, or whether its number is not zero; a floating-point
/// number the bits it was read as, or zero without a text; a visible string its
/// UTF-8 bytes, an octet string or a domain the bytes of its hexadecimal digits, 32
/// of them at most.
pub proof fn law_values(text: Seq<char>, node_id: u8, bits: Option<u64>, data_type: DataType)
    ensures
        ({
            let v = value_of_text(data_type, text, node_id, bits);
            let number = number_of_text(text, node_id);
            match data_type {
                DataType::Boolean => {
                    &&& lowered(text) =~= seq!['t', 'r', 'u', 'e'] ==> v == Some(
                        Value::Boolean(true),
                    )
                    &&& lowered(text) =~= seq!['f', 'a', 'l', 's', 'e'] ==> v == Some(
                        Value::Boolean(false),
                    )
                    &&& !(lowered(text) =~= seq!['t', 'r', 'u', 'e']) && !(lowered(text)
                        =~= seq!['f', 'a', 'l', 's', 'e']) ==> match number {
                        Some(n) => v == Some(Value::Boolean(n != 0)),
                        None => v is None,
                    }
                },
                DataType::Real32 => {
                    &&& text.len() == 0 ==> v == Some(Value::Real32(0))
                    &&& text.len() > 0 ==> match bits {
                        Some(b) => if b <= 0xFFFF_FFFF {
                            v == Some(Value::Real32(b as u32))
                        } else {
                            v is None
                        },
                        None => v is None,
                    }
                },
                DataType::Real64 => {
                    &&& text.len() == 0 ==> v == Some(Value::Real64(0))
                    &&& text.len() > 0 ==> match bits {
                        Some(b) => v == Some(Value::Real64(b)),
                        None => v is None,
                    }
                },
                DataType::VisibleString => {
                    &&& v matches Some(Value::VisibleString(s))
                    &&& s@ == first_32(encode_utf8(text))
                },
                DataType::OctetString => match bytes_of_hex(text) {
                    Some(bytes) => v matches Some(Value::OctetString(s)) && s@ == first_32(bytes),
                    None => v is None,
                },
                DataType::Domain => match bytes_of_hex(text) {
                    Some(bytes) => v matches Some(Value::Domain(s)) && s@ == first_32(bytes),
                    None => v is None,
                },
                _ => match number {
                    Some(n) => v == integer_value(data_type, n),
                    None => v is None,
                },
            }
        }),
{
    reveal_strlit("true");
    reveal_strlit("false");
    assert("true"@ =~= seq!['t', 'r', 'u', 'e']);
    assert("false"@ =~= seq!['f', 'a', 'l', 's', 'e']);
    assert(first_32(encode_utf8(text)) =~= capped(encode_utf8(text)));
    crate::datatypes::ByteString::lemma_exists(capped(encode_utf8(text)));
    if let Some(bytes) = bytes_of_hex(text) {
        assert(first_32(bytes) =~= capped(bytes));
        crate::datatypes::ByteString::lemma_exists(capped(bytes));
    }
}

/// The first 32 of the bytes given, or all of them.
pub open spec fn first_32(bytes: Seq<u8>) -> Seq<u8> {
    Seq::new(
        if bytes.len() < 32 {
            bytes.len()
        } else {
            32
        },
        |i: int| bytes[i],
    )
}

// --- Objects ---------------------------------------------------------------

/// A section describes an object when its name is an address and its `DataType` is
/// the index of a type. The object has that address and type, the name in
/// `ParameterName`, the access rights in `AccessType` — read/write without it — and
/// the value in `ParameterValue`, or else in `DefaultValue`. Bad access rights are
/// reported before a bad value.
pub proof fn law_sections_describe_objects(s: IniSection, node_id: u8, bits: Option<u64>)
    ensures
        ({
            let name = field(s.fields, "parametername"@);
            let rights = field(s.fields, "accesstype"@);
            let configured = field(s.fields, "parametervalue"@);
            let default = field(s.fields, "defaultvalue"@);
            let text = match (configured, default) {
                (Some(t), _) => t,
                (None, Some(t)) => t,
                (None, None) => Seq::empty(),
            };
            match (address_of_name(s.name), type_of(s.fields)) {
                (Some(address), Some(t)) => {
                    let access = match rights {
                        Some(r) => access_of(r),
                        None => Some(AccessType::Rw),
                    };
                    let value = value_of_text(t, text, node_id, bits);
                    match object_of(s, node_id, bits) {
                        Ok(d) => {
                            &&& d matches Some(d)
                            &&& d.address == address && d.data_type == t
                            &&& Some(d.access) == access && Some(d.default_value) == value
                            &&& d.parameter_name == match name {
                                Some(n) => n,
                                None => Seq::empty(),
                            }
                        },
                        Err(e) => if access is None {
                            e == EdsError::BadAccess(address)
                        } else {
                            value is None && e == EdsError::BadValue(address)
                        },
                    }
                },
                _ => object_of(s, node_id, bits) == Ok::<Option<Description>, EdsError>(None),
            }
        }),
        match field(s.fields, "datatype"@) {
            Some(text) => match integer(text) {
                Some(v) => {
                    &&& 0 <= v <= 0xFFFF ==> type_of(s.fields) == DataType::of_index(v as u16)
                    &&& v < 0 || v > 0xFFFF ==> type_of(s.fields) is None
                },
                None => type_of(s.fields) is None,
            },
            None => type_of(s.fields) is None,
        },
{
}

/// Whether a section describes an object.
pub open spec fn describes(s: IniSection) -> bool {
    address_of_name(s.name) is Some && type_of(s.fields) is Some
}

/// How many of the first `k` sections describe an object.
pub open spec fn described_before(sections: Seq<IniSection>, k: int) -> int
    decreases k,
{
    if k <= 0 {
        0
    } else {
        described_before(sections, k - 1) + if describes(sections[k - 1]) {
            1int
        } else {
            0
        }
    }
}

/// Whether a section gives a floating-point number.
pub open spec fn gives_real(s: IniSection) -> bool {
    &&& describes(s)
    &&& type_of(s.fields) == Some(DataType::Real32) || type_of(s.fields) == Some(DataType::Real64)
    &&& match field(s.fields, "parametervalue"@) {
        Some(t) => t.len() > 0,
        None => field(s.fields, "defaultvalue"@) matches Some(t) && t.len() > 0,
    }
}

/// How many of the first `k` sections give a floating-point number.
pub open spec fn reals_before(sections: Seq<IniSection>, k: int) -> int
    decreases k,
{
    if k <= 0 {
        0
    } else {
        reals_before(sections, k - 1) + if gives_real(sections[k - 1]) {
            1int
        } else {
            0
        }
    }
}

/// The objects of a description are those that its sections describe, in the order
/// of the file, each exactly once and with its own floating-point number: the
/// number that as many sections before it give numbers.
pub proof fn law_objects_in_order(
    sections: Seq<IniSection>,
    node_id: u8,
    reals: Seq<Option<u64>>,
    k: int,
)
    requires
        0 <= k < sections.len(),
        objects_of(sections, node_id, reals) is Ok,
    ensures
        ({
            let objects = objects_of(sections, node_id, reals)->Ok_0;
            let at = reals_before(sections, k);
            let bits = if 0 <= at < reals.len() {
                reals[at]
            } else {
                None
            };
            &&& objects.len() == described_before(sections, sections.len() as int)
            &&& describes(sections[k]) ==> {
                &&& 0 <= described_before(sections, k) < objects.len()
                &&& object_of(sections[k], node_id, bits) == Ok::<Option<Description>, EdsError>(
                    Some(objects[described_before(sections, k)]),
                )
            }
        }),
{
    assert(sections.take(sections.len() as int) =~= sections);
    lemma_objects(sections, node_id, reals, sections.len() as int, k);
}

proof fn lemma_objects(
    sections: Seq<IniSection>,
    node_id: u8,
    reals: Seq<Option<u64>>,
    m: int,
    k: int,
)
    requires
        0 <= m <= sections.len(),
        objects_of(sections.take(m), node_id, reals) is Ok,
    ensures
        ({
            let objects = objects_of(sections.take(m), node_id, reals)->Ok_0;
            &&& 0 <= described_before(sections, m) == objects.len()
            &&& 0 <= reals_before(sections, m) == reals_of(sections.take(m)).len()
            &&& 0 <= k < m && describes(sections[k]) ==> {
                &&& 0 <= described_before(sections, k) < objects.len()
                &&& object_of(sections[k], node_id, bits_at(reals, reals_before(sections, k)))
                    == Ok::<Option<Description>, EdsError>(
                    Some(objects[described_before(sections, k)]),
                )
            }
        }),
    decreases m,
{
    let upto = sections.take(m);
    if m > 0 {
        assert(upto.drop_last() =~= sections.take(m - 1));
        assert(upto.last() == sections[m - 1]);
        lemma_objects(sections, node_id, reals, m - 1, k);
        lemma_real(sections[m - 1]);
        law_sections_describe_objects(
            sections[m - 1],
            node_id,
            bits_at(reals, reals_of(sections.take(m - 1)).len() as int),
        );
    }
}

proof fn lemma_real(s: IniSection)
    ensures
        real_of(s) is Some <==> gives_real(s),
{
}

/// The floating-point texts of a description are those that its sections give, in
/// the order of the file, each with its type.
pub proof fn law_reals_in_order(sections: Seq<IniSection>, k: int)
    requires
        0 <= k < sections.len(),
    ensures
        reals_of(sections).len() == reals_before(sections, sections.len() as int),
        gives_real(sections[k]) ==> {
            let at = reals_before(sections, k);
            &&& 0 <= at < reals_of(sections).len()
            &&& Some(reals_of(sections)[at].0) == type_of(sections[k].fields)
            &&& reals_of(sections)[at].1 == match field(
                sections[k].fields,
                "parametervalue"@,
            ) {
                Some(t) => t,
                None => field(sections[k].fields, "defaultvalue"@)->0,
            }
        },
{
    lemma_reals(sections, sections.len() as int, k);
    assert(sections.take(sections.len() as int) =~= sections);
}

proof fn lemma_reals(sections: Seq<IniSection>, m: int, k: int)
    requires
        0 <= m <= sections.len(),
    ensures
        ({
            let reals = reals_of(sections.take(m));
            &&& 0 <= reals_before(sections, m) == reals.len()
            &&& 0 <= k < m && gives_real(sections[k]) ==> {
                let at = reals_before(sections, k);
                0 <= at < reals.len() && Some(reals[at]) == real_of(sections[k])
            }
        }),
    decreases m,
{
    if m > 0 {
        let upto = sections.take(m);
        assert(upto.drop_last() =~= sections.take(m - 1));
        assert(upto.last() == sections[m - 1]);
        lemma_reals(sections, m - 1, k);
        lemma_real(sections[m - 1]);
    }
}

/// A description of the whole text: its objects, with `$NODEID` the node-id that
/// `NodeID` in `[DeviceComissioning]` assigns, from 1 to 127, or zero; and the names
/// in `[DeviceInfo]`. A malformed line is reported with its number before anything
/// else.
pub proof fn law_descriptions(text: Seq<char>, reals: Seq<Option<u64>>)
    ensures
        match sections_of(text) {
            Err(line) => description_of(text, reals) == Err::<DeviceDescription, EdsError>(
                EdsError::Malformed(line as usize),
            ),
            Ok(sections) => {
                let info = section(sections, "deviceinfo"@);
                let id = match field(section(sections, "devicecomissioning"@), "nodeid"@) {
                    Some(t) => match integer(t) {
                        Some(v) => if 1 <= v <= 127 {
                            Some(v as u8)
                        } else {
                            None
                        },
                        None => None,
                    },
                    None => None,
                };
                let objects = objects_of(
                    sections,
                    match id {
                        Some(n) => n,
                        None => 0,
                    },
                    reals,
                );
                match description_of(text, reals) {
                    Ok(d) => {
                        &&& objects == Ok::<Seq<Description>, EdsError>(d.objects)
                        &&& d.vendor_name == field(info, "vendorname"@)
                        &&& d.product_name == field(info, "productname"@)
                        &&& d.node_id == id
                    },
                    Err(e) => objects == Err::<Seq<Description>, EdsError>(e),
                }
            },
        },
{
}

/// An error is described by where it is: the number of its line, or the index and
/// subindex of its object, which read back from the text.
pub proof fn law_errors_are_described(line: usize, a: Address)
    ensures
        ({
            let malformed = EdsError::Malformed(line).text();
            let access = EdsError::BadAccess(a).text();
            let value = EdsError::BadValue(a).text();
            let n = decimal(line as nat).len() as int;
            &&& malformed.take(5) == "line "@
            &&& digits_value(malformed.subrange(5, 5 + n), false) == Some(line as nat)
            &&& malformed.skip(5 + n) == ": not a section, a field or a comment"@
            &&& access.take(7) == "object "@ && value.take(7) == "object "@
            &&& integer(access.subrange(7, 13)) == Some(a.index as int) && integer(
                value.subrange(7, 13),
            ) == Some(a.index as int)
            &&& access[13] == ':' && value[13] == ':'
            &&& digits_value(access.subrange(14, 16), true) == Some(a.subindex as nat)
                && digits_value(value.subrange(14, 16), true) == Some(a.subindex as nat)
            &&& access.skip(16) == ": unknown access type"@
            &&& value.skip(16) == ": value does not suit the data type"@
        }),
{
    let malformed = EdsError::Malformed(line).text();
    let access = EdsError::BadAccess(a).text();
    let value = EdsError::BadValue(a).text();
    let n = decimal(line as nat).len() as int;
    reveal_strlit("line ");
    reveal_strlit("object ");
    reveal_strlit(":");
    crate::text::law_decimal_round_trip(line as nat);
    crate::text::laws::lemma_pow16();
    law_hex_round_trip(a.index as nat, 4);
    law_hex_round_trip(a.subindex as nat, 2);
    crate::text::laws::law_integer_reads_hexadecimal(a.index as nat, 4, false);
    let index = hex_text(a.index as nat, 4);
    let sub = hex_digits(a.subindex as nat, 2);
    assert(malformed.take(5) =~= "line "@);
    assert(malformed.subrange(5, 5 + n) =~= decimal(line as nat));
    assert(malformed.skip(5 + n) =~= ": not a section, a field or a comment"@);
    assert(access.take(7) =~= "object "@ && value.take(7) =~= "object "@);
    assert(access.subrange(7, 13) =~= index && value.subrange(7, 13) =~= index);
    assert(access.subrange(14, 16) =~= sub && value.subrange(14, 16) =~= sub);
    assert(access.skip(16) =~= ": unknown access type"@);
    assert(value.skip(16) =~= ": value does not suit the data type"@);
}

} // verus!
