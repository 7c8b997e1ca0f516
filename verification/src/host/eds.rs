//! EDS / DCF parsing (CiA 306) — INI-style device description files.
//!
//! An Electronic Data Sheet describes a device's object dictionary in an
//! INI-like text format: a `[<index>]` section per object and
//! `[<index>sub<subindex>]` sections per subindex, each carrying fields such
//! as `ParameterName`, `DataType`, `AccessType`, and `DefaultValue`. A Device
//! Configuration File (DCF) is the same grammar with concrete values, in
//! `ParameterValue`.
//!
//! A text is read in two steps. The lines make up sections of fields
//! ([`sections_of`]); then every section that names an object of a modelled
//! data type becomes an [`EdsObject`] ([`object_of`]), in the order of the file.
use vstd::prelude::*;
use vstd::slice::slice_to_vec;
use vstd::string::StringExecFns;
use vstd::utf8::encode_utf8;

use crate::datatypes::{
    signed_value, to_i16, to_i32, to_i64, to_i8, ByteString, DataType, Value, MAX_STRING_LEN,
};
use crate::little_endian::{byte_range, lemma_byte_ranges};
use crate::object_dictionary::{
    inserted, law_inserted, AccessType, Address, Entry, ObjectDictionary, Objects,
};
use crate::text::{
    chars_of, decimal, digit, digit_of, hex_digits, hex_text, integer, is_word, lower, lowered,
    magnitude, parse_hex, parse_integer, push_decimal, push_hex, push_hex_digits, string_of,
    to_lower, trim, trimmed,
};
use crate::types::Result as CoreResult;

pub mod laws;

verus! {

// --- The grammar -----------------------------------------------------------

/// A section: its name, and its fields as pairs of key and value.
pub struct IniSection {
    pub name: Seq<char>,
    pub fields: Seq<(Seq<char>, Seq<char>)>,
}

/// How many characters stand before the first `c`: all, if there is none.
pub open spec fn before(s: Seq<char>, c: char) -> nat
    decreases s.len(),
{
    if s.len() == 0 || s[0] == c {
        0
    } else {
        1 + before(s.drop_first(), c)
    }
}

/// What stands behind the first `c`: nothing, if there is none.
pub open spec fn behind(s: Seq<char>, c: char) -> Seq<char> {
    if before(s, c) < s.len() {
        s.skip(before(s, c) as int + 1)
    } else {
        Seq::empty()
    }
}

/// The sections with one more line, white space around it removed. A line is
/// empty, a comment (`;` or `#`), a `[section]`, or a `key=value` in a section;
/// `None` if it is neither.
pub open spec fn add_line(sections: Seq<IniSection>, line: Seq<char>) -> Option<Seq<IniSection>> {
    let eq = before(line, '=');
    if line.len() == 0 || line[0] == ';' || line[0] == '#' {
        Some(sections)
    } else if line[0] == '[' {
        if line.len() >= 2 && line.last() == ']' {
            Some(
                sections.push(
                    IniSection {
                        name: trimmed(line.subrange(1, line.len() - 1)),
                        fields: Seq::empty(),
                    },
                ),
            )
        } else {
            None
        }
    } else if eq < line.len() && sections.len() > 0 {
        let last = sections.last();
        Some(
            sections.drop_last().push(
                IniSection {
                    name: last.name,
                    fields: last.fields.push(
                        (trimmed(line.take(eq as int)), trimmed(line.skip(eq as int + 1))),
                    ),
                },
            ),
        )
    } else {
        None
    }
}

/// The sections of the lines of `text`, which follow those of `sections`, or the
/// number of the first line that is malformed, counted from `line`.
pub open spec fn sections_from(text: Seq<char>, line: nat, sections: Seq<IniSection>) -> Result<
    Seq<IniSection>,
    nat,
>
    decreases text.len(),
{
    if text.len() == 0 {
        Ok(sections)
    } else {
        let n = before(text, '\n');
        match add_line(sections, trimmed(text.take(n as int))) {
            None => Err(line),
            Some(more) => {
                proof {
                    lemma_before(text, '\n');
                }
                sections_from(behind(text, '\n'), line + 1, more)
            },
        }
    }
}

/// The sections of a text, or the number of the first malformed line.
pub open spec fn sections_of(text: Seq<char>) -> Result<Seq<IniSection>, nat> {
    sections_from(text, 1, Seq::empty())
}

/// The first occurrence lies within the text.
pub proof fn lemma_before(s: Seq<char>, c: char)
    ensures
        before(s, c) <= s.len(),
        before(s, c) < s.len() ==> s[before(s, c) as int] == c,
        forall|i: int| 0 <= i < before(s, c) ==> s[i] != c,
    decreases s.len(),
{
    if s.len() > 0 && s[0] != c {
        lemma_before(s.drop_first(), c);
        assert forall|i: int| 0 <= i < before(s, c) implies s[i] != c by {
            if i > 0 {
                assert(s.drop_first()[i - 1] == s[i]);
            }
        }
    }
}

/// The first occurrence is the one with none before it.
proof fn lemma_before_is(s: Seq<char>, c: char, k: int)
    requires
        0 <= k <= s.len(),
        k < s.len() ==> s[k] == c,
        forall|i: int| 0 <= i < k ==> s[i] != c,
    ensures
        before(s, c) == k,
    decreases s.len(),
{
    if k > 0 {
        let t = s.drop_first();
        assert forall|i: int| 0 <= i < k - 1 implies t[i] != c by {
            assert(t[i] == s[i + 1]);
        }
        lemma_before_is(t, c, k - 1);
    }
}

/// The value of the first of `fields` with the given key, letter case aside.
pub open spec fn field(fields: Seq<(Seq<char>, Seq<char>)>, key: Seq<char>) -> Option<Seq<char>>
    decreases fields.len(),
{
    if fields.len() == 0 {
        None
    } else if lowered(fields[0].0) == key {
        Some(fields[0].1)
    } else {
        field(fields.drop_first(), key)
    }
}

/// The fields of the first section with the given name, letter case aside; none
/// if there is no such section.
pub open spec fn section(sections: Seq<IniSection>, name: Seq<char>) -> Seq<
    (Seq<char>, Seq<char>),
>
    decreases sections.len(),
{
    if sections.len() == 0 {
        Seq::empty()
    } else if lowered(sections[0].name) == name {
        sections[0].fields
    } else {
        section(sections.drop_first(), name)
    }
}

/// The address that a section name gives: hexadecimal digits, and behind `sub`
/// those of the subindex.
pub open spec fn address_of_name(name: Seq<char>) -> Option<Address> {
    let s = lowered(name);
    let k = before(s, 's') as int;
    match magnitude(s.take(k), true, 0xFFFF) {
        None => None,
        Some(index) => if k == s.len() {
            Some(Address { index: index as u16, subindex: 0 })
        } else if k + 3 <= s.len() && s[k + 1] == 'u' && s[k + 2] == 'b' {
            match magnitude(s.skip(k + 3), true, 0xFF) {
                Some(sub) => Some(Address { index: index as u16, subindex: sub as u8 }),
                None => None,
            }
        } else {
            None
        },
    }
}

/// The access rights that a text names. The PDO-specific `rww` and `rwr` are
/// read/write.
pub open spec fn access_of(text: Seq<char>) -> Option<AccessType> {
    let s = lowered(text);
    if s == "ro"@ {
        Some(AccessType::Ro)
    } else if s == "wo"@ {
        Some(AccessType::Wo)
    } else if s == "rw"@ || s == "rww"@ || s == "rwr"@ {
        Some(AccessType::Rw)
    } else if s == "const"@ {
        Some(AccessType::Const)
    } else {
        None
    }
}

/// The number that a text gives: an integer literal, or `$NODEID`, alone or with
/// `+` and a literal, which stands for the node-id.
pub open spec fn number_of_text(text: Seq<char>, node_id: u8) -> Option<int> {
    let t = trimmed(text);
    if t.len() >= 7 && lowered(t.take(7)) == "$nodeid"@ {
        let rest = trimmed(t.skip(7));
        if rest.len() == 0 {
            Some(node_id as int)
        } else if rest[0] == '+' {
            match integer(rest.drop_first()) {
                Some(v) => Some(node_id + v),
                None => None,
            }
        } else {
            None
        }
    } else if t.len() == 0 {
        Some(0)
    } else {
        integer(t)
    }
}

/// The number as an `n`-byte integer, if it fits one: a signed one may also be
/// given as its bit pattern.
pub open spec fn fitted(v: int, n: nat, signed: bool) -> Option<nat> {
    if 0 <= v < byte_range(n) {
        Some(v as nat)
    } else if signed && -byte_range(n) <= 2 * v < 0 {
        Some((v + byte_range(n)) as nat)
    } else {
        None
    }
}

/// The bytes that pairs of hexadecimal digits give.
pub open spec fn bytes_of_hex(s: Seq<char>) -> Option<Seq<u8>>
    decreases s.len(),
{
    if s.len() == 0 {
        Some(Seq::empty())
    } else if s.len() == 1 {
        None
    } else {
        let n = s.len();
        match (
            bytes_of_hex(s.take(n - 2)),
            digit(s[n - 2], true),
            digit(s[n - 1], true),
        ) {
            (Some(front), Some(h), Some(l)) => Some(front.push((16 * h + l) as u8)),
            _ => None,
        }
    }
}

/// The first 32 of the bytes given.
pub open spec fn capped(bytes: Seq<u8>) -> Seq<u8> {
    if bytes.len() > MAX_STRING_LEN {
        bytes.take(MAX_STRING_LEN as int)
    } else {
        bytes
    }
}

/// The value of type `data_type` that a text gives. Without a text a number is
/// zero and a string empty. A string longer than 32 bytes is cut. The text of a
/// floating-point number was read as the bit pattern `bits`, or as none.
pub open spec fn value_of_text(
    data_type: DataType,
    text: Seq<char>,
    node_id: u8,
    bits: Option<u64>,
) -> Option<Value> {
    match data_type {
        DataType::Boolean => if lowered(text) == "true"@ {
            Some(Value::Boolean(true))
        } else if lowered(text) == "false"@ {
            Some(Value::Boolean(false))
        } else {
            match number_of_text(text, node_id) {
                Some(v) => Some(Value::Boolean(v != 0)),
                None => None,
            }
        },
        DataType::Real32 => if text.len() == 0 {
            Some(Value::Real32(0))
        } else {
            match bits {
                Some(b) => if b < 0x1_0000_0000 {
                    Some(Value::Real32(b as u32))
                } else {
                    None
                },
                None => None,
            }
        },
        DataType::Real64 => if text.len() == 0 {
            Some(Value::Real64(0))
        } else {
            match bits {
                Some(b) => Some(Value::Real64(b)),
                None => None,
            }
        },
        DataType::VisibleString => Some(
            Value::VisibleString(ByteString::of(capped(encode_utf8(text)))),
        ),
        DataType::OctetString => match bytes_of_hex(text) {
            Some(bytes) => Some(Value::OctetString(ByteString::of(capped(bytes)))),
            None => None,
        },
        DataType::Domain => match bytes_of_hex(text) {
            Some(bytes) => Some(Value::Domain(ByteString::of(capped(bytes)))),
            None => None,
        },
        _ => match number_of_text(text, node_id) {
            Some(v) => integer_value(data_type, v),
            None => None,
        },
    }
}

/// The value of an integer type that stands for a number, if it fits.
pub open spec fn integer_value(data_type: DataType, v: int) -> Option<Value> {
    match data_type {
        DataType::Unsigned8 => match fitted(v, 1, false) {
            Some(x) => Some(Value::Unsigned8(x as u8)),
            None => None,
        },
        DataType::Unsigned16 => match fitted(v, 2, false) {
            Some(x) => Some(Value::Unsigned16(x as u16)),
            None => None,
        },
        DataType::Unsigned32 => match fitted(v, 4, false) {
            Some(x) => Some(Value::Unsigned32(x as u32)),
            None => None,
        },
        DataType::Unsigned64 => match fitted(v, 8, false) {
            Some(x) => Some(Value::Unsigned64(x as u64)),
            None => None,
        },
        DataType::Integer8 => match fitted(v, 1, true) {
            Some(x) => Some(Value::Integer8(signed_value(x, 1) as i8)),
            None => None,
        },
        DataType::Integer16 => match fitted(v, 2, true) {
            Some(x) => Some(Value::Integer16(signed_value(x, 2) as i16)),
            None => None,
        },
        DataType::Integer32 => match fitted(v, 4, true) {
            Some(x) => Some(Value::Integer32(signed_value(x, 4) as i32)),
            None => None,
        },
        DataType::Integer64 => match fitted(v, 8, true) {
            Some(x) => Some(Value::Integer64(signed_value(x, 8) as i64)),
            None => None,
        },
        _ => None,
    }
}

/// What a device description says of one object.
pub struct Description {
    pub address: Address,
    pub parameter_name: Seq<char>,
    pub data_type: DataType,
    pub access: AccessType,
    pub default_value: Value,
}

/// The field with the given key, or the empty text.
pub open spec fn field_or_empty(fields: Seq<(Seq<char>, Seq<char>)>, key: Seq<char>) -> Seq<char> {
    match field(fields, key) {
        Some(v) => v,
        None => Seq::empty(),
    }
}

/// The text that gives an object's value: the configured one where there is one,
/// else the default.
pub open spec fn value_text(fields: Seq<(Seq<char>, Seq<char>)>) -> Seq<char> {
    match field(fields, "parametervalue"@) {
        Some(v) => v,
        None => field_or_empty(fields, "defaultvalue"@),
    }
}

/// The data type that a section gives: the type of the index in its `DataType`
/// field, if it is a modelled one.
pub open spec fn type_of(fields: Seq<(Seq<char>, Seq<char>)>) -> Option<DataType> {
    match field(fields, "datatype"@) {
        None => None,
        Some(text) => match integer(text) {
            Some(v) => if 0 <= v <= 0xFFFF {
                DataType::of_index(v as u16)
            } else {
                None
            },
            None => None,
        },
    }
}

/// The text of the floating-point number that a section gives as the value of
/// an object, and its type, where it gives one.
pub open spec fn real_of(s: IniSection) -> Option<(DataType, Seq<char>)> {
    match (address_of_name(s.name), type_of(s.fields)) {
        (Some(_), Some(t)) => if (t == DataType::Real32 || t == DataType::Real64) && value_text(
            s.fields,
        ).len() > 0 {
            Some((t, value_text(s.fields)))
        } else {
            None
        },
        _ => None,
    }
}

/// The texts of the floating-point numbers that the sections give, in order.
pub open spec fn reals_of(sections: Seq<IniSection>) -> Seq<(DataType, Seq<char>)>
    decreases sections.len(),
{
    if sections.len() == 0 {
        Seq::empty()
    } else {
        let front = reals_of(sections.drop_last());
        match real_of(sections.last()) {
            Some(r) => front.push(r),
            None => front,
        }
    }
}

/// What number `k` was read as: nothing beyond the end.
pub open spec fn bits_at(reals: Seq<Option<u64>>, k: int) -> Option<u64> {
    if 0 <= k < reals.len() {
        reals[k]
    } else {
        None
    }
}

/// The object that a section describes: none if its name is no address or it
/// has no modelled data type. An object without access rights is read/write. A
/// floating-point number was read as `bits`.
pub open spec fn object_of(s: IniSection, node_id: u8, bits: Option<u64>) -> Result<
    Option<Description>,
    EdsError,
> {
    match (address_of_name(s.name), type_of(s.fields)) {
        (Some(address), Some(data_type)) => {
            let access = match field(s.fields, "accesstype"@) {
                Some(text) => access_of(text),
                None => Some(AccessType::Rw),
            };
            let text = value_text(s.fields);
            match (access, value_of_text(data_type, text, node_id, bits)) {
                (None, _) => Err(EdsError::BadAccess(address)),
                (_, None) => Err(EdsError::BadValue(address)),
                (Some(access), Some(default_value)) => Ok(
                    Some(
                        Description {
                            address,
                            parameter_name: field_or_empty(s.fields, "parametername"@),
                            data_type,
                            access,
                            default_value,
                        },
                    ),
                ),
            }
        },
        _ => Ok(None),
    }
}

/// The objects that the sections describe, in order, or the first error. The
/// floating-point numbers were read as `reals`, in order.
pub open spec fn objects_of(
    sections: Seq<IniSection>,
    node_id: u8,
    reals: Seq<Option<u64>>,
) -> Result<Seq<Description>, EdsError>
    decreases sections.len(),
{
    if sections.len() == 0 {
        Ok(Seq::empty())
    } else {
        let bits = bits_at(reals, reals_of(sections.drop_last()).len() as int);
        match objects_of(sections.drop_last(), node_id, reals) {
            Err(e) => Err(e),
            Ok(front) => match object_of(sections.last(), node_id, bits) {
                Err(e) => Err(e),
                Ok(Some(d)) => Ok(front.push(d)),
                Ok(None) => Ok(front),
            },
        }
    }
}

/// The node-id that a DCF assigns, if it is a device id.
pub open spec fn node_id_of(sections: Seq<IniSection>) -> Option<u8> {
    match field(section(sections, "devicecomissioning"@), "nodeid"@) {
        None => None,
        Some(text) => match integer(text) {
            Some(v) => if 1 <= v <= 127 {
                Some(v as u8)
            } else {
                None
            },
            None => None,
        },
    }
}

/// The node-id that `$NODEID` stands for: zero if none is assigned.
pub open spec fn node_id_or_zero(sections: Seq<IniSection>) -> u8 {
    match node_id_of(sections) {
        Some(id) => id,
        None => 0,
    }
}

/// Why a device description could not be read.
#[derive(Debug, Clone, Copy, PartialEq, Eq, Structural)]
pub enum EdsError {
    /// The line with this number is no blank, comment, section, or field.
    Malformed(usize),
    /// The `AccessType` of this object names no access right.
    BadAccess(Address),
    /// The value of this object does not suit its data type.
    BadValue(Address),
}

/// A device description.
pub struct DeviceDescription {
    pub objects: Seq<Description>,
    pub vendor_name: Option<Seq<char>>,
    pub product_name: Option<Seq<char>>,
    pub node_id: Option<u8>,
}

/// What a text describes, or why it cannot be read. Its floating-point numbers
/// were read as `reals`, in order.
pub open spec fn description_of(text: Seq<char>, reals: Seq<Option<u64>>) -> Result<
    DeviceDescription,
    EdsError,
> {
    match sections_of(text) {
        Err(line) => Err(EdsError::Malformed(line as usize)),
        Ok(sections) => match objects_of(sections, node_id_or_zero(sections), reals) {
            Err(e) => Err(e),
            Ok(objects) => Ok(
                DeviceDescription {
                    objects,
                    vendor_name: field(section(sections, "deviceinfo"@), "vendorname"@),
                    product_name: field(section(sections, "deviceinfo"@), "productname"@),
                    node_id: node_id_of(sections),
                },
            ),
        },
    }
}

// --- Reading ---------------------------------------------------------------

/// A section as it is read.
struct Section {
    name: Vec<char>,
    fields: Vec<(Vec<char>, Vec<char>)>,
}

spec fn fields_model(fields: Seq<(Vec<char>, Vec<char>)>) -> Seq<(Seq<char>, Seq<char>)> {
    fields.map_values(|f: (Vec<char>, Vec<char>)| (f.0@, f.1@))
}

impl Section {
    spec fn model(self) -> IniSection {
        IniSection { name: self.name@, fields: fields_model(self.fields@) }
    }
}

spec fn sections_model(sections: Seq<Section>) -> Seq<IniSection> {
    sections.map_values(|s: Section| s.model())
}

/// How many characters stand before the first `c`.
pub fn index_of(s: &[char], c: char) -> (n: usize)
    ensures
        n == before(s@, c),
        n <= s@.len(),
{
    let mut n: usize = 0;
    while n < s.len() && s[n] != c
        invariant
            n <= s@.len(),
            forall|i: int| 0 <= i < n ==> s@[i] != c,
        decreases s@.len() - n,
    {
        n += 1;
    }
    proof {
        lemma_before_is(s@, c, n as int);
    }
    n
}

/// Add a line to the sections read so far; `false` if it is malformed.
fn read_line(sections: &mut Vec<Section>, line: &[char]) -> (ok: bool)
    ensures
        match add_line(sections_model(old(sections)@), line@) {
            Some(more) => ok && sections_model(final(sections)@) == more,
            None => !ok,
        },
{
    if line.len() == 0 || line[0] == ';' || line[0] == '#' {
        return true;
    }
    let n: usize = line.len();
    if line[0] == '[' {
        if n < 2 || line[n - 1] != ']' {
            return false;
        }
        let name = slice_to_vec(trim(&line[1..n - 1]));
        let fields: Vec<(Vec<char>, Vec<char>)> = Vec::new();
        assert(fields_model(fields@) =~= Seq::empty());
        let s = Section { name, fields };
        sections.push(s);
        assert(sections_model(sections@) =~= sections_model(old(sections)@).push(s.model()));
        return true;
    }
    let eq: usize = index_of(line, '=');
    if eq >= n {
        return false;
    }
    let key: &[char] = &line[0..eq];
    let value: &[char] = &line[eq + 1..n];
    assert(key@ =~= line@.take(eq as int));
    assert(value@ =~= line@.skip(eq as int + 1));
    let pair = (slice_to_vec(trim(key)), slice_to_vec(trim(value)));
    match sections.pop() {
        None => {
            assert(sections_model(old(sections)@).len() == 0);
            false
        },
        Some(popped) => {
            let mut last = popped;
            let ghost before_fields = last.fields@;
            assert(sections_model(old(sections)@).last() == popped.model());
            last.fields.push(pair);
            assert(fields_model(last.fields@) =~= fields_model(before_fields).push(
                (pair.0@, pair.1@),
            ));
            let ghost front = sections@;
            sections.push(last);
            assert(sections_model(front) =~= sections_model(old(sections)@).drop_last());
            assert(sections_model(sections@) =~= sections_model(front).push(last.model()));
            true
        },
    }
}

/// Read the sections of a text, or find its first malformed line.
fn read_sections(text: &[char]) -> (r: Result<Vec<Section>, usize>)
    ensures
        match sections_of(text@) {
            Ok(sections) => r matches Ok(v) && sections_model(v@) == sections,
            Err(line) => r matches Err(n) && n == line as usize,
        },
{
    let mut sections: Vec<Section> = Vec::new();
    let mut pos: usize = 0;
    let mut line: usize = 0;
    assert(sections_model(sections@) =~= Seq::empty());
    assert(text@.skip(0) =~= text@);
    while pos < text.len()
        invariant
            pos <= text@.len(),
            line <= pos,
            sections_of(text@) == sections_from(
                text@.skip(pos as int),
                line as nat + 1,
                sections_model(sections@),
            ),
        decreases text@.len() - pos,
    {
        let rest: &[char] = &text[pos..text.len()];
        assert(rest@ =~= text@.skip(pos as int));
        let n: usize = index_of(rest, '\n');
        let head: &[char] = &rest[0..n];
        assert(head@ =~= rest@.take(n as int));
        line += 1;
        if !read_line(&mut sections, trim(head)) {
            return Err(line);
        }
        if n < rest.len() {
            assert(behind(rest@, '\n') =~= text@.skip(pos + n + 1));
            pos = pos + n + 1;
        } else {
            assert(behind(rest@, '\n') =~= text@.skip(text@.len() as int));
            pos = text.len();
        }
    }
    Ok(sections)
}

/// The value of the first field with the given key.
fn find_field<'a>(fields: &'a Vec<(Vec<char>, Vec<char>)>, key: &str) -> (r: Option<&'a Vec<char>>)
    ensures
        match field(fields_model(fields@), key@) {
            Some(v) => r matches Some(t) && t@ == v,
            None => r is None,
        },
{
    let mut i: usize = 0;
    let ghost all = fields_model(fields@);
    assert(all.skip(0) =~= all);
    while i < fields.len()
        invariant
            i <= fields@.len(),
            all == fields_model(fields@),
            field(all, key@) == field(all.skip(i as int), key@),
        decreases fields@.len() - i,
    {
        proof {
            assert(all.skip(i as int)[0] == (fields@[i as int].0@, fields@[i as int].1@));
            assert(all.skip(i as int).drop_first() =~= all.skip(i + 1));
        }
        if is_word(fields[i].0.as_slice(), key) {
            return Some(&fields[i].1);
        }
        i += 1;
    }
    None
}

/// The value of a field of the first section with the given name.
fn find_in_section<'a>(sections: &'a Vec<Section>, name: &str, key: &str) -> (r: Option<
    &'a Vec<char>,
>)
    ensures
        match field(section(sections_model(sections@), name@), key@) {
            Some(v) => r matches Some(t) && t@ == v,
            None => r is None,
        },
{
    let mut i: usize = 0;
    let ghost all = sections_model(sections@);
    assert(all.skip(0) =~= all);
    while i < sections.len()
        invariant
            i <= sections@.len(),
            all == sections_model(sections@),
            section(all, name@) == section(all.skip(i as int), name@),
        decreases sections@.len() - i,
    {
        proof {
            assert(all.skip(i as int)[0] == sections@[i as int].model());
            assert(all.skip(i as int).drop_first() =~= all.skip(i + 1));
        }
        if is_word(sections[i].name.as_slice(), name) {
            return find_field(&sections[i].fields, key);
        }
        i += 1;
    }
    None
}

/// A text in lower case.
fn lower_case(s: &[char]) -> (v: Vec<char>)
    ensures
        v@ == lowered(s@),
{
    let mut v: Vec<char> = Vec::new();
    let mut i: usize = 0;
    while i < s.len()
        invariant
            i <= s@.len(),
            v@.len() == i,
            forall|j: int| 0 <= j < i ==> v@[j] == lower(s@[j]),
        decreases s@.len() - i,
    {
        v.push(to_lower(s[i]));
        i += 1;
    }
    assert(v@ =~= lowered(s@));
    v
}

/// The address that a section name gives.
fn parse_name(name: &[char]) -> (r: Option<Address>)
    ensures
        r == address_of_name(name@),
{
    let lower_name = lower_case(name);
    let s: &[char] = lower_name.as_slice();
    let k: usize = index_of(s, 's');
    let head: &[char] = &s[0..k];
    assert(head@ =~= s@.take(k as int));
    match parse_hex(head, 0xFFFF) {
        None => None,
        Some(index) => {
            if k == s.len() {
                Some(Address { index: index as u16, subindex: 0 })
            } else if s.len() - k >= 3 && s[k + 1] == 'u' && s[k + 2] == 'b' {
                let tail: &[char] = &s[k + 3..s.len()];
                assert(tail@ =~= s@.skip(k as int + 3));
                match parse_hex(tail, 0xFF) {
                    Some(sub) => Some(Address { index: index as u16, subindex: sub as u8 }),
                    None => None,
                }
            } else {
                None
            }
        },
    }
}

/// The access rights that a text names.
fn parse_access(text: &[char]) -> (r: Option<AccessType>)
    ensures
        r == access_of(text@),
{
    if is_word(text, "ro") {
        Some(AccessType::Ro)
    } else if is_word(text, "wo") {
        Some(AccessType::Wo)
    } else if is_word(text, "rw") || is_word(text, "rww") || is_word(text, "rwr") {
        Some(AccessType::Rw)
    } else if is_word(text, "const") {
        Some(AccessType::Const)
    } else {
        None
    }
}

/// The number that a text gives; only numbers that fit 64 bits are of use.
fn parse_number(text: &[char], node_id: u8) -> (r: Option<i128>)
    ensures
        match number_of_text(text@, node_id) {
            Some(v) => if i128::MIN <= v <= i128::MAX {
                r == Some(v as i128)
            } else {
                r == Some(i128::MAX)
            },
            None => r is None,
        },
{
    let t = trim(text);
    proof {
        if t@.len() >= 7 {
            reveal_strlit("$nodeid");
            assert(lowered(t@.take(7)).len() == 7);
        }
    }
    if t.len() >= 7 && is_word(&t[0..7], "$nodeid") {
        assert(t@.subrange(0, 7) =~= t@.take(7));
        let tail: &[char] = &t[7..t.len()];
        assert(tail@ =~= t@.skip(7));
        let rest = trim(tail);
        if rest.len() == 0 {
            Some(node_id as i128)
        } else if rest[0] == '+' {
            let digits: &[char] = &rest[1..rest.len()];
            assert(digits@ =~= rest@.drop_first());
            match parse_integer(digits) {
                Some(v) => if v > i128::MAX - node_id as i128 {
                    Some(i128::MAX)
                } else {
                    Some(v + node_id as i128)
                },
                None => None,
            }
        } else {
            None
        }
    } else {
        assert(t@.len() >= 7 ==> t@.subrange(0, 7) =~= t@.take(7));
        if t.len() == 0 {
            Some(0)
        } else {
            parse_integer(t)
        }
    }
}

/// The number as an integer of `range` values, if it fits one.
fn fit(v: i128, range: i128, signed: bool, Ghost(n): Ghost<nat>) -> (r: Option<u64>)
    requires
        range == byte_range(n),
        0 < range <= 0x1_0000_0000_0000_0000,
    ensures
        match fitted(v as int, n, signed) {
            Some(x) => r == Some(x as u64) && x < range,
            None => r is None,
        },
{
    if 0 <= v && v < range {
        Some(v as u64)
    } else if signed && v < 0 && v >= -range && -range <= 2 * v {
        Some((v + range) as u64)
    } else {
        None
    }
}

/// The value of an integer type that stands for a number, if it fits.
fn parse_integer_value(data_type: DataType, v: i128) -> (r: Option<Value>)
    ensures
        r == integer_value(data_type, v as int),
{
    proof {
        lemma_byte_ranges();
    }
    match data_type {
        DataType::Unsigned8 => match fit(v, 0x100, false, Ghost(1)) {
            Some(x) => Some(Value::Unsigned8(x as u8)),
            None => None,
        },
        DataType::Unsigned16 => match fit(v, 0x1_0000, false, Ghost(2)) {
            Some(x) => Some(Value::Unsigned16(x as u16)),
            None => None,
        },
        DataType::Unsigned32 => match fit(v, 0x1_0000_0000, false, Ghost(4)) {
            Some(x) => Some(Value::Unsigned32(x as u32)),
            None => None,
        },
        DataType::Unsigned64 => match fit(v, 0x1_0000_0000_0000_0000, false, Ghost(8)) {
            Some(x) => Some(Value::Unsigned64(x)),
            None => None,
        },
        DataType::Integer8 => match fit(v, 0x100, true, Ghost(1)) {
            Some(x) => Some(Value::Integer8(to_i8(x as u8))),
            None => None,
        },
        DataType::Integer16 => match fit(v, 0x1_0000, true, Ghost(2)) {
            Some(x) => Some(Value::Integer16(to_i16(x as u16))),
            None => None,
        },
        DataType::Integer32 => match fit(v, 0x1_0000_0000, true, Ghost(4)) {
            Some(x) => Some(Value::Integer32(to_i32(x as u32))),
            None => None,
        },
        DataType::Integer64 => match fit(v, 0x1_0000_0000_0000_0000, true, Ghost(8)) {
            Some(x) => Some(Value::Integer64(to_i64(x))),
            None => None,
        },
        _ => None,
    }
}

/// The bytes that pairs of hexadecimal digits give.
fn parse_hex_bytes(s: &[char]) -> (r: Option<Vec<u8>>)
    ensures
        match bytes_of_hex(s@) {
            Some(bytes) => r matches Some(v) && v@ == bytes,
            None => r is None,
        },
    decreases s@.len(),
{
    let n: usize = s.len();
    if n == 0 {
        let v: Vec<u8> = Vec::new();
        assert(v@ =~= Seq::empty());
        return Some(v);
    }
    if n == 1 {
        return None;
    }
    let front: &[char] = &s[0..n - 2];
    assert(front@ =~= s@.take(n - 2));
    match parse_hex_bytes(front) {
        None => None,
        Some(bytes) => {
            match (digit_of(s[n - 2], true), digit_of(s[n - 1], true)) {
                (Some(h), Some(l)) => {
                    let mut v = bytes;
                    v.push(16 * h + l);
                    Some(v)
                },
                _ => None,
            }
        },
    }
}

/// A byte string of the first 32 of the bytes given.
fn cap(bytes: &[u8]) -> (s: ByteString)
    ensures
        s.wf(),
        s == ByteString::of(capped(bytes@)),
{
    let n: usize = if bytes.len() > MAX_STRING_LEN {
        MAX_STRING_LEN
    } else {
        bytes.len()
    };
    let kept: &[u8] = &bytes[0..n];
    assert(kept@ =~= capped(bytes@));
    match ByteString::from_bytes(kept) {
        Ok(s) => {
            proof {
                ByteString::lemma_of(s);
            }
            s
        },
        Err(_) => ByteString::new(),
    }
}

/// The value of type `data_type` that a text gives.
fn parse_default(data_type: DataType, text: &[char], node_id: u8, bits: Option<u64>) -> (r: Option<
    Value,
>)
    ensures
        r == value_of_text(data_type, text@, node_id, bits),
{
    match data_type {
        DataType::Boolean => {
            if is_word(text, "true") {
                Some(Value::Boolean(true))
            } else if is_word(text, "false") {
                Some(Value::Boolean(false))
            } else {
                match parse_number(text, node_id) {
                    Some(v) => Some(Value::Boolean(v != 0)),
                    None => None,
                }
            }
        },
        DataType::Real32 => {
            if text.len() == 0 {
                return Some(Value::Real32(0));
            }
            match bits {
                Some(b) => if b < 0x1_0000_0000 {
                    Some(Value::Real32(b as u32))
                } else {
                    None
                },
                None => None,
            }
        },
        DataType::Real64 => {
            if text.len() == 0 {
                return Some(Value::Real64(0));
            }
            match bits {
                Some(b) => Some(Value::Real64(b)),
                None => None,
            }
        },
        DataType::VisibleString => {
            let s = string_of(text);
            Some(Value::VisibleString(cap(s.as_str().as_bytes())))
        },
        DataType::OctetString => match parse_hex_bytes(text) {
            Some(bytes) => Some(Value::OctetString(cap(bytes.as_slice()))),
            None => None,
        },
        DataType::Domain => match parse_hex_bytes(text) {
            Some(bytes) => Some(Value::Domain(cap(bytes.as_slice()))),
            None => None,
        },
        _ => match parse_number(text, node_id) {
            Some(v) => {
                proof {
                    lemma_byte_ranges();
                }
                parse_integer_value(data_type, v)
            },
            None => None,
        },
    }
}

// --- The result ------------------------------------------------------------

/// An object of a device description.
#[derive(Debug)]
pub struct EdsObject {
    /// Where the object stands in the dictionary.
    pub address: Address,
    /// The object's name.
    pub parameter_name: String,
    /// The object's data type.
    pub data_type: DataType,
    /// The object's access rights.
    pub access: AccessType,
    /// The default or configured value.
    pub default_value: Value,
}

impl View for EdsObject {
    type V = Description;

    open spec fn view(&self) -> Description {
        Description {
            address: self.address,
            parameter_name: self.parameter_name@,
            data_type: self.data_type,
            access: self.access,
            default_value: self.default_value,
        }
    }
}

/// A parsed EDS or DCF.
#[derive(Debug)]
pub struct Eds {
    /// The objects, in the order of the file.
    pub objects: Vec<EdsObject>,
    /// The vendor's name (`[DeviceInfo]`).
    pub vendor_name: Option<String>,
    /// The product's name (`[DeviceInfo]`).
    pub product_name: Option<String>,
    /// The node-id (`[DeviceComissioning]` of a DCF).
    pub node_id: Option<u8>,
}

/// The objects as descriptions.
pub open spec fn descriptions(objects: Seq<EdsObject>) -> Seq<Description> {
    objects.map_values(|o: EdsObject| o@)
}

/// An optional text as a sequence of characters.
pub open spec fn text_in(s: Option<String>) -> Option<Seq<char>> {
    match s {
        Some(t) => Some(t@),
        None => None,
    }
}

impl View for Eds {
    type V = DeviceDescription;

    open spec fn view(&self) -> DeviceDescription {
        DeviceDescription {
            objects: descriptions(self.objects@),
            vendor_name: text_in(self.vendor_name),
            product_name: text_in(self.product_name),
            node_id: self.node_id,
        }
    }
}

/// The entries of a dictionary that objects make up, in order.
pub open spec fn entries_of(objects: Seq<Description>) -> Seq<(Address, Entry)> {
    objects.map_values(
        |d: Description| (d.address, Entry { value: d.default_value, access: d.access }),
    )
}

fn optional_string(text: Option<&Vec<char>>) -> (s: Option<String>)
    ensures
        match text {
            Some(t) => s matches Some(r) && r@ == t@,
            None => s is None,
        },
{
    match text {
        Some(t) => Some(string_of(t.as_slice())),
        None => None,
    }
}

/// The data type that a section gives.
fn read_type(s: &Section) -> (r: Option<DataType>)
    ensures
        r == type_of(s.model().fields),
{
    match find_field(&s.fields, "datatype") {
        None => None,
        Some(text) => match parse_integer(text.as_slice()) {
            Some(v) => if 0 <= v && v <= 0xFFFF {
                DataType::from_index(v as u16)
            } else {
                None
            },
            None => None,
        },
    }
}

/// The text that gives an object's value.
fn read_value_text(s: &Section) -> (text: String)
    ensures
        text@ == value_text(s.model().fields),
{
    match find_field(&s.fields, "parametervalue") {
        Some(text) => string_of(text.as_slice()),
        None => match find_field(&s.fields, "defaultvalue") {
            Some(text) => string_of(text.as_slice()),
            None => {
                let text = String::new();
                assert(text@ =~= Seq::empty());
                text
            },
        },
    }
}

/// The text of the floating-point number that a section gives, where it gives
/// one.
fn read_real(s: &Section) -> (r: Option<(DataType, String)>)
    ensures
        match real_of(s.model()) {
            Some((t, text)) => r matches Some(p) && p.0 == t && p.1@ == text,
            None => r is None,
        },
{
    if parse_name(s.name.as_slice()).is_none() {
        return None;
    }
    let data_type = match read_type(s) {
        Some(t) => t,
        None => {
            return None;
        },
    };
    if data_type != DataType::Real32 && data_type != DataType::Real64 {
        return None;
    }
    let text = read_value_text(s);
    if chars_of(text.as_str()).len() > 0 {
        Some((data_type, text))
    } else {
        None
    }
}

/// The object that a section describes.
fn read_object(s: &Section, node_id: u8, bits: Option<u64>) -> (r: Result<
    Option<EdsObject>,
    EdsError,
>)
    ensures
        match object_of(s.model(), node_id, bits) {
            Ok(Some(d)) => r matches Ok(Some(o)) && o@ == d,
            Ok(None) => r matches Ok(None),
            Err(e) => r matches Err(e2) && e2 == e,
        },
{
    let address = match parse_name(s.name.as_slice()) {
        Some(a) => a,
        None => {
            return Ok(None);
        },
    };
    let data_type = match read_type(s) {
        Some(t) => t,
        None => {
            return Ok(None);
        },
    };
    let access = match find_field(&s.fields, "accesstype") {
        Some(text) => match parse_access(text.as_slice()) {
            Some(a) => a,
            None => {
                return Err(EdsError::BadAccess(address));
            },
        },
        None => AccessType::Rw,
    };
    let default_text = read_value_text(s);
    let text = chars_of(default_text.as_str());
    let default_value = match parse_default(data_type, text.as_slice(), node_id, bits) {
        Some(v) => v,
        None => {
            return Err(EdsError::BadValue(address));
        },
    };
    let parameter_name = match find_field(&s.fields, "parametername") {
        Some(text) => string_of(text.as_slice()),
        None => String::new(),
    };
    Ok(
        Some(
            EdsObject { address, parameter_name, data_type, access, default_value },
        ),
    )
}

/// Sections whose front has an error have that error.
proof fn lemma_objects_error(
    sections: Seq<IniSection>,
    node_id: u8,
    reals: Seq<Option<u64>>,
    k: int,
)
    requires
        0 <= k <= sections.len(),
        objects_of(sections.take(k), node_id, reals) is Err,
    ensures
        objects_of(sections, node_id, reals) == objects_of(sections.take(k), node_id, reals),
    decreases sections.len() - k,
{
    if k == sections.len() {
        assert(sections.take(k) =~= sections);
    } else {
        assert(sections.take(k + 1).drop_last() =~= sections.take(k));
        lemma_objects_error(sections, node_id, reals, k + 1);
    }
}

/// Texts with their types, as sequences of characters.
pub open spec fn texts_of(texts: Seq<(DataType, String)>) -> Seq<(DataType, Seq<char>)> {
    texts.map_values(|t: (DataType, String)| (t.0, t.1@))
}

impl Eds {
    /// The texts of the floating-point numbers that an EDS or DCF gives as the
    /// values of objects, in order, each with its type.
    pub fn real_texts(text: &str) -> (r: Result<Vec<(DataType, String)>, EdsError>)
        ensures
            match sections_of(text@) {
                Ok(sections) => r matches Ok(texts) && texts_of(texts@) == reals_of(sections),
                Err(line) => r matches Err(e) && e == EdsError::Malformed(line as usize),
            },
    {
        let chars = chars_of(text);
        let sections = match read_sections(chars.as_slice()) {
            Ok(s) => s,
            Err(line) => {
                return Err(EdsError::Malformed(line));
            },
        };
        let mut texts: Vec<(DataType, String)> = Vec::new();
        let mut i: usize = 0;
        let ghost all = sections_model(sections@);
        assert(all.take(0) =~= Seq::empty());
        assert(texts_of(texts@) =~= Seq::empty());
        while i < sections.len()
            invariant
                i <= sections@.len(),
                all == sections_model(sections@),
                texts_of(texts@) == reals_of(all.take(i as int)),
            decreases sections@.len() - i,
        {
            let ghost front = texts@;
            proof {
                assert(all.take(i + 1).drop_last() =~= all.take(i as int));
                assert(all.take(i + 1).last() == sections@[i as int].model());
            }
            if let Some(t) = read_real(&sections[i]) {
                texts.push(t);
                assert(texts_of(texts@) =~= texts_of(front).push((t.0, t.1@)));
            }
            i += 1;
        }
        assert(all.take(all.len() as int) =~= all);
        Ok(texts)
    }

    /// Parse the text of an EDS or DCF.
    ///
    /// Objects whose data type is not modelled are left out, and so are sections
    /// that name no object.
    ///
    /// Reading floating-point numbers is the caller's: `reals` holds, for each
    /// of the texts that [`Eds::real_texts`] gives, the bit pattern of the number
    /// of its type, or `None` where it gives none.
    pub fn parse(text: &str, reals: &[Option<u64>]) -> (r: Result<Eds, EdsError>)
        ensures
            match description_of(text@, reals@) {
                Ok(d) => r matches Ok(eds) && eds@ == d,
                Err(e) => r matches Err(e2) && e2 == e,
            },
    {
        let chars = chars_of(text);
        let sections = match read_sections(chars.as_slice()) {
            Ok(s) => s,
            Err(line) => {
                return Err(EdsError::Malformed(line));
            },
        };
        let node_id = match find_in_section(&sections, "devicecomissioning", "nodeid") {
            None => None,
            Some(text) => match parse_integer(text.as_slice()) {
                Some(v) => if 1 <= v && v <= 127 {
                    Some(v as u8)
                } else {
                    None
                },
                None => None,
            },
        };
        let id: u8 = match node_id {
            Some(id) => id,
            None => 0,
        };
        let mut objects: Vec<EdsObject> = Vec::new();
        let mut i: usize = 0;
        let mut k: usize = 0;
        let ghost all = sections_model(sections@);
        assert(all.take(0) =~= Seq::empty());
        assert(descriptions(objects@) =~= Seq::empty());
        while i < sections.len()
            invariant
                i <= sections@.len(),
                all == sections_model(sections@),
                id == node_id_or_zero(all),
                sections_of(text@) == Ok::<Seq<IniSection>, nat>(all),
                k == reals_of(all.take(i as int)).len(),
                k <= i,
                objects_of(all.take(i as int), id, reals@) == Ok::<Seq<Description>, EdsError>(
                    descriptions(objects@),
                ),
            decreases sections@.len() - i,
        {
            let ghost before_objects = objects@;
            proof {
                assert(all.take(i + 1).drop_last() =~= all.take(i as int));
                assert(all.take(i + 1).last() == sections@[i as int].model());
                if objects_of(all.take(i + 1), id, reals@) is Err {
                    lemma_objects_error(all, id, reals@, i + 1);
                }
            }
            let bits: Option<u64> = if k < reals.len() {
                reals[k]
            } else {
                None
            };
            match read_object(&sections[i], id, bits) {
                Ok(Some(o)) => {
                    objects.push(o);
                    assert(descriptions(objects@) =~= descriptions(before_objects).push(o@));
                },
                Ok(None) => {},
                Err(e) => {
                    return Err(e);
                },
            }
            if read_real(&sections[i]).is_some() {
                k += 1;
            }
            i += 1;
        }
        assert(all.take(all.len() as int) =~= all);
        let vendor_name = optional_string(
            find_in_section(&sections, "deviceinfo", "vendorname"),
        );
        let product_name = optional_string(
            find_in_section(&sections, "deviceinfo", "productname"),
        );
        Ok(Eds { objects, vendor_name, product_name, node_id })
    }

    /// Build an object dictionary with the objects and their values.
    ///
    /// Returns [`Error::DictionaryFull`](crate::Error::DictionaryFull) if it has
    /// no room for all of them.
    pub fn object_dictionary<const N: usize>(&self) -> (r: CoreResult<ObjectDictionary<N>>)
        ensures
            match inserted(Objects::empty(), entries_of(self@.objects), N as nat) {
                (objects, Ok(_)) => r matches Ok(od) && od.wf() && od@ == objects,
                (_, Err(e)) => r matches Err(e2) && e2 == e,
            },
    {
        let mut list: Vec<(Address, Entry)> = Vec::new();
        let mut i: usize = 0;
        while i < self.objects.len()
            invariant
                i <= self.objects@.len(),
                list@ == entries_of(self@.objects).take(i as int),
            decreases self.objects@.len() - i,
        {
            let o = &self.objects[i];
            list.push((o.address, Entry { value: o.default_value, access: o.access }));
            assert(list@ =~= entries_of(self@.objects).take(i + 1));
            i += 1;
        }
        assert(list@ =~= entries_of(self@.objects));
        let mut od: ObjectDictionary<N> = ObjectDictionary::new();
        match od.insert_all(list.as_slice()) {
            Ok(()) => Ok(od),
            Err(e) => Err(e),
        }
    }
}

/// A dictionary with room for them holds every object of a description that
/// names no object twice, each with its value and access rights.
pub proof fn law_dictionary_holds_every_object(objects: Seq<Description>, capacity: nat)
    requires
        objects.len() <= capacity,
        forall|i: int, j: int|
            0 <= i < j < objects.len() ==> (#[trigger] objects[i]).address != (
            #[trigger] objects[j]).address,
    ensures
        ({
            let (after, r) = inserted(Objects::empty(), entries_of(objects), capacity);
            &&& r is Ok
            &&& forall|i: int|
                0 <= i < objects.len() ==> {
                    let d = #[trigger] objects[i];
                    after.dom().contains(d.address) && after[d.address] == (Entry {
                        value: d.default_value,
                        access: d.access,
                    })
                }
        }),
{
    let list = entries_of(objects);
    assert forall|i: int, j: int| 0 <= i < j < list.len() implies (#[trigger] list[i]).0 != (
    #[trigger] list[j]).0 by {
        assert(objects[i].address != objects[j].address);
    }
    law_inserted(Objects::empty(), list, capacity);
    assert forall|i: int| 0 <= i < objects.len() implies {
        let d = #[trigger] objects[i];
        let after = inserted(Objects::empty(), list, capacity).0;
        after.dom().contains(d.address) && after[d.address] == (Entry {
            value: d.default_value,
            access: d.access,
        })
    } by {
        assert(list[i].0 == objects[i].address);
    }
}

impl EdsError {
    /// The text of [`message`](EdsError::message).
    pub open spec fn text(self) -> Seq<char> {
        match self {
            EdsError::Malformed(line) => "line "@ + decimal(line as nat)
                + ": not a section, a field or a comment"@,
            EdsError::BadAccess(a) => "object "@ + hex_text(a.index as nat, 4) + ":"@ + hex_digits(
                a.subindex as nat,
                2,
            ) + ": unknown access type"@,
            EdsError::BadValue(a) => "object "@ + hex_text(a.index as nat, 4) + ":"@ + hex_digits(
                a.subindex as nat,
                2,
            ) + ": value does not suit the data type"@,
        }
    }

    /// A description of the error, for display.
    pub fn message(self) -> (s: String)
        ensures
            s@ == self.text(),
    {
        let mut s = String::new();
        match self {
            EdsError::Malformed(line) => {
                s.append("line ");
                push_decimal(&mut s, line as u64);
                s.append(": not a section, a field or a comment");
            },
            EdsError::BadAccess(a) => {
                s.append("object ");
                push_hex(&mut s, a.index as u64, 4);
                s.append(":");
                push_hex_digits(&mut s, a.subindex as u64, 2);
                s.append(": unknown access type");
            },
            EdsError::BadValue(a) => {
                s.append("object ");
                push_hex(&mut s, a.index as u64, 4);
                s.append(":");
                push_hex_digits(&mut s, a.subindex as u64, 2);
                s.append(": value does not suit the data type");
            },
        }
        assert(s@ =~= self.text());
        s
    }
}

} // verus!
