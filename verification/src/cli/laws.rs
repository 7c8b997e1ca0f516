//! What the command line guarantees: an argument gives the value it names, and
//! the reports show what they were given.
use vstd::arithmetic::power::{lemma_pow1, lemma_pow_adds, pow};
use vstd::prelude::*;

use crate::cli::{
    bytes_text, command_named, content_text, data_type_named, eds_text, frame_text, is_integer,
    label, name_text, object_argument, object_text, objects_text, sent_text, value_of_argument,
    value_text, variant_name, without_0x, ArgError,
};
use crate::datatypes::{number_of, DataType, Value};
use crate::display::byte_string_text;
use crate::host::codegen::access_name;
use crate::host::eds::{before, Description, DeviceDescription};
use crate::little_endian::lemma_byte_ranges;
use crate::nmt::NmtCommand;
use crate::object_dictionary::Address;
use crate::text::{
    decimal, digits_value, hex_digits, hex_text, integer, law_hex_round_trip, left_aligned, lowered,
    signed_decimal, spaces, trimmed, unsigned, upper_hex, white_space,
};

verus! {

/// The least number that an integer type holds, and the number after its greatest.
pub open spec fn range_of(dt: DataType) -> (int, int) {
    match dt {
        DataType::Unsigned8 => (0, 0x100),
        DataType::Unsigned16 => (0, 0x1_0000),
        DataType::Unsigned32 => (0, 0x1_0000_0000),
        DataType::Unsigned64 => (0, 0x1_0000_0000_0000_0000),
        DataType::Integer8 => (-0x80, 0x80),
        DataType::Integer16 => (-0x8000, 0x8000),
        DataType::Integer32 => (-0x8000_0000, 0x8000_0000),
        DataType::Integer64 => (-0x8000_0000_0000_0000, 0x8000_0000_0000_0000),
        _ => (0, 0),
    }
}

/// An argument whose number is in the range of an integer type gives the value of
/// that type that holds exactly this number. One that is not gives the value that
/// differs from it by a multiple of the number of values of the type; and what is
/// no number gives none.
pub proof fn law_integers_are_kept(dt: DataType, text: Seq<char>, bits: Option<u64>)
    requires
        dt != DataType::Boolean,
        dt != DataType::Real32,
        dt != DataType::Real64,
        dt != DataType::VisibleString,
        dt != DataType::OctetString,
        dt != DataType::Domain,
    ensures
        match integer(text) {
            Some(v) => {
                let (least, end) = range_of(dt);
                &&& value_of_argument(dt, text, bits) matches Some(value)
                &&& value.spec_data_type() == dt
                &&& number_of(value) matches Some(x)
                &&& least <= x < end
                &&& (x - v) % (end - least) == 0
                &&& least <= v < end ==> x == v
            },
            None => value_of_argument(dt, text, bits) is None,
        },
        is_integer(dt),
{
    lemma_byte_ranges();
    if let Some(v) = integer(text) {
        lemma_wrapped(v, 0x100);
        lemma_wrapped(v, 0x1_0000);
        lemma_wrapped(v, 0x1_0000_0000);
        lemma_wrapped(v, 0x1_0000_0000_0000_0000);
        let (least, end) = range_of(dt);
        let value = value_of_argument(dt, text, bits)->0;
        let x = number_of(value)->0;
        assert(x == v % (end - least) || x == v % (end - least) - (end - least));
    }
}

/// A number and what is left of it modulo `m`, with or without a sign, differ by a
/// multiple of `m`.
proof fn lemma_wrapped(v: int, m: int)
    requires
        m > 0,
    ensures
        0 <= v % m < m,
        (v % m - v) % m == 0,
        (v % m - m - v) % m == 0,
        0 <= v < m ==> v % m == v,
        -m <= v < 0 ==> v % m == v + m,
{
    let q = v / m;
    vstd::arithmetic::div_mod::lemma_fundamental_div_mod(v, m);
    vstd::arithmetic::div_mod::lemma_mod_multiples_basic(-q, m);
    vstd::arithmetic::div_mod::lemma_mod_multiples_basic(-q - 1, m);
    assert((-q) * m == v % m - v && (-q - 1) * m == v % m - m - v) by (nonlinear_arith)
        requires
            v == m * q + v % m,
    ;
    if 0 <= v < m {
        vstd::arithmetic::div_mod::lemma_small_mod(v as nat, m as nat);
    }
    if -m <= v < 0 {
        vstd::arithmetic::div_mod::lemma_small_mod((v + m) as nat, m as nat);
        vstd::arithmetic::div_mod::lemma_mod_add_multiples_vanish(v, m);
    }
}

/// A boolean argument is true for `true` and `1`, and false for anything else. A
/// floating-point argument keeps the bits it was read as, all that the type has,
/// and is refused where there are none. A text or a domain cannot be given.
pub proof fn law_other_arguments(text: Seq<char>, bits: Option<u64>, b: u64)
    ensures
        value_of_argument(DataType::Boolean, text, bits) == Some(
            Value::Boolean(
                lowered(trimmed(text)) =~= seq!['t', 'r', 'u', 'e'] || lowered(trimmed(text))
                    =~= seq!['1'],
            ),
        ),
        value_of_argument(DataType::Real64, text, Some(b)) == Some(Value::Real64(b)),
        value_of_argument(DataType::Real64, text, None) is None,
        b <= 0xFFFF_FFFF ==> value_of_argument(DataType::Real32, text, Some(b)) == Some(
            Value::Real32(b as u32),
        ),
        b > 0xFFFF_FFFF ==> value_of_argument(DataType::Real32, text, Some(b)) is None,
        value_of_argument(DataType::Real32, text, None) is None,
        value_of_argument(DataType::VisibleString, text, bits) is None,
        value_of_argument(DataType::OctetString, text, bits) is None,
        value_of_argument(DataType::Domain, text, bits) is None,
{
    reveal_strlit("true");
    reveal_strlit("1");
    assert("true"@ =~= seq!['t', 'r', 'u', 'e']);
    assert("1"@ =~= seq!['1']);
}

/// The names of the integer types give their size and sign: `u` or `i`, and the
/// number of bits.
pub proof fn law_type_names(s: Seq<char>)
    ensures
        ({
            let n = lowered(s);
            &&& n =~= seq!['u', '8'] ==> data_type_named(s) == Some(DataType::Unsigned8)
            &&& n =~= seq!['u', '1', '6'] ==> data_type_named(s) == Some(DataType::Unsigned16)
            &&& n =~= seq!['u', '3', '2'] ==> data_type_named(s) == Some(DataType::Unsigned32)
            &&& n =~= seq!['u', '6', '4'] ==> data_type_named(s) == Some(DataType::Unsigned64)
            &&& n =~= seq!['i', '8'] ==> data_type_named(s) == Some(DataType::Integer8)
            &&& n =~= seq!['i', '1', '6'] ==> data_type_named(s) == Some(DataType::Integer16)
            &&& n =~= seq!['i', '3', '2'] ==> data_type_named(s) == Some(DataType::Integer32)
            &&& n =~= seq!['i', '6', '4'] ==> data_type_named(s) == Some(DataType::Integer64)
            &&& n =~= seq!['f', '3', '2'] ==> data_type_named(s) == Some(DataType::Real32)
            &&& n =~= seq!['f', '6', '4'] ==> data_type_named(s) == Some(DataType::Real64)
            &&& n =~= seq!['b', 'o', 'o', 'l'] ==> data_type_named(s) == Some(DataType::Boolean)
            &&& data_type_named(s) matches Some(t) ==> t != DataType::VisibleString && t
                != DataType::OctetString && t != DataType::Domain && (n.len() == 2 || n.len() == 3
                || n.len() == 4)
        }),
{
    reveal_strlit("u8");
    reveal_strlit("u16");
    reveal_strlit("u32");
    reveal_strlit("u64");
    reveal_strlit("i8");
    reveal_strlit("i16");
    reveal_strlit("i32");
    reveal_strlit("i64");
    reveal_strlit("f32");
    reveal_strlit("f64");
    reveal_strlit("bool");
    let n = lowered(s);
    assert("u8"@ =~= seq!['u', '8']);
    assert("u16"@ =~= seq!['u', '1', '6']);
    assert("u32"@ =~= seq!['u', '3', '2']);
    assert("u64"@ =~= seq!['u', '6', '4']);
    assert("i8"@ =~= seq!['i', '8']);
    assert("i16"@ =~= seq!['i', '1', '6']);
    assert("i32"@ =~= seq!['i', '3', '2']);
    assert("i64"@ =~= seq!['i', '6', '4']);
    assert("f32"@ =~= seq!['f', '3', '2']);
    assert("f64"@ =~= seq!['f', '6', '4']);
    assert("bool"@ =~= seq!['b', 'o', 'o', 'l']);
    let names = seq!["u8"@, "u16"@, "u32"@, "u64"@, "i8"@, "i16"@, "i32"@, "i64"@, "f32"@, "f64"@, "bool"@];
    assert(n.len() > 0 ==> n[0] == n[0]);
    assert(n.len() > 1 ==> n[1] == n[1]);
    assert(n.len() > 2 ==> n[2] == n[2]);
}

/// A name that is given for a command selects it, letter case aside: `start`,
/// `stop`, `preop`, `reset` and `reset-comm`, and the longer forms of the last
/// three. There are no other names.
pub proof fn law_command_names(s: Seq<char>)
    ensures
        ({
            let n = lowered(s);
            let c = command_named(s);
            &&& c == Some(NmtCommand::StartRemoteNode) <==> n =~= seq!['s', 't', 'a', 'r', 't']
            &&& c == Some(NmtCommand::StopRemoteNode) <==> n =~= seq!['s', 't', 'o', 'p']
            &&& c == Some(NmtCommand::EnterPreOperational) <==> n =~= seq!['p', 'r', 'e', 'o', 'p']
                || n =~= seq!['p', 'r', 'e', '-', 'o', 'p'] || n
                =~= seq!['p', 'r', 'e', '-', 'o', 'p', 'e', 'r', 'a', 't', 'i', 'o', 'n', 'a', 'l']
            &&& c == Some(NmtCommand::ResetNode) <==> n =~= seq!['r', 'e', 's', 'e', 't'] || n
                =~= seq!['r', 'e', 's', 'e', 't', '-', 'n', 'o', 'd', 'e']
            &&& c == Some(NmtCommand::ResetCommunication) <==> n
                =~= seq!['r', 'e', 's', 'e', 't', '-', 'c', 'o', 'm', 'm'] || n =~= seq!['r', 'e', 's', 'e', 't', '-', 'c', 'o', 'm', 'm', 'u', 'n', 'i', 'c', 'a', 't', 'i', 'o', 'n']
        }),
{
    reveal_strlit("start");
    reveal_strlit("stop");
    reveal_strlit("preop");
    reveal_strlit("pre-op");
    reveal_strlit("pre-operational");
    reveal_strlit("reset");
    reveal_strlit("reset-node");
    reveal_strlit("reset-comm");
    reveal_strlit("reset-communication");
    assert("start"@ =~= seq!['s', 't', 'a', 'r', 't']);
    assert("stop"@ =~= seq!['s', 't', 'o', 'p']);
    assert("preop"@ =~= seq!['p', 'r', 'e', 'o', 'p']);
    assert("pre-op"@ =~= seq!['p', 'r', 'e', '-', 'o', 'p']);
    assert("pre-operational"@ =~= seq!['p', 'r', 'e', '-', 'o', 'p', 'e', 'r', 'a', 't', 'i', 'o', 'n', 'a', 'l']);
    assert("reset"@ =~= seq!['r', 'e', 's', 'e', 't']);
    assert("reset-node"@ =~= seq!['r', 'e', 's', 'e', 't', '-', 'n', 'o', 'd', 'e']);
    assert("reset-comm"@ =~= seq!['r', 'e', 's', 'e', 't', '-', 'c', 'o', 'm', 'm']);
    assert("reset-communication"@ =~= seq!['r', 'e', 's', 'e', 't', '-', 'c', 'o', 'm', 'm', 'u', 'n', 'i', 'c', 'a', 't', 'i', 'o', 'n']);
    assert("start"@[2] == 'a' && "reset"@[2] == 's' && "preop"@[2] == 'e');
    assert("reset-node"@[6] == 'n' && "reset-comm"@[6] == 'c');
}

// --- Objects ---------------------------------------------------------------

/// Characters before the first `c` are counted, when `c` is none of them.
proof fn lemma_before(a: Seq<char>, c: char, b: Seq<char>)
    requires
        forall|i: int| 0 <= i < a.len() ==> #[trigger] a[i] != c,
    ensures
        before(a + seq![c] + b, c) == a.len(),
        before(a, c) == a.len(),
    decreases a.len(),
{
    let s = a + seq![c] + b;
    if a.len() == 0 {
        assert(s[0] == c);
    } else {
        assert(s[0] == a[0]);
        assert(s.drop_first() =~= a.drop_first() + seq![c] + b);
        lemma_before(a.drop_first(), c, b);
    }
}

/// Hexadecimal digits are no colon, no sign and no `x`.
proof fn lemma_hex_digits(x: nat, width: nat)
    ensures
        hex_digits(x, width).len() == width,
        forall|i: int|
            0 <= i < width ==> {
                let c = #[trigger] hex_digits(x, width)[i];
                c != ':' && c != '+' && c != 'x'
            },
    decreases width,
{
    if width > 0 {
        lemma_hex_digits(x / 16, (width - 1) as nat);
    }
}

/// Reading a number's hexadecimal digits, with or without `0x` before them, gives
/// the number.
proof fn lemma_hex_read(x: nat, width: nat, max: nat, marked: bool)
    requires
        width > 0,
        x < pow(16, width),
        x <= max,
    ensures
        ({
            let s = if marked {
                seq!['0', 'x'] + hex_digits(x, width)
            } else {
                hex_digits(x, width)
            };
            unsigned(without_0x(s), true, max) == Some(x)
        }),
{
    let d = hex_digits(x, width);
    lemma_hex_digits(x, width);
    law_hex_round_trip(x, width);
    assert(width >= 2 ==> d[1] != 'x');
    assert(without_0x(d) == d);
    assert((seq!['0', 'x'] + d).skip(2) =~= d);
    assert(without_0x(seq!['0', 'x'] + d) == without_0x(d));
    assert(d[0] != '+');
}

/// Any number of `0x` in front of a hexadecimal number does not matter; nothing
/// else is removed.
pub proof fn law_radix_marks(s: Seq<char>)
    ensures
        without_0x(seq!['0', 'x'] + s) == without_0x(s),
        s.len() < 2 || s[0] != '0' || s[1] != 'x' ==> without_0x(s) == s,
{
    assert((seq!['0', 'x'] + s).skip(2) =~= s);
}

/// An argument is no object when its index or its subindex is no hexadecimal
/// number, or is greater than 65535 or 255; and what is read of it is what stands
/// before and behind the first colon.
pub proof fn law_object_arguments_are_checked(index: Seq<char>, sub: Seq<char>)
    requires
        forall|i: int| 0 <= i < index.len() ==> #[trigger] index[i] != ':',
    ensures
        ({
            let i = unsigned(without_0x(index), true, 0xFFFF);
            let j = unsigned(without_0x(sub), true, 0xFF);
            match object_argument(index + seq![':'] + sub) {
                Some(a) => i == Some(a.index as nat) && j == Some(a.subindex as nat),
                None => i is None || j is None,
            }
        }),
        match object_argument(index) {
            Some(a) => unsigned(without_0x(index), true, 0xFFFF) == Some(a.index as nat)
                && a.subindex == 0,
            None => unsigned(without_0x(index), true, 0xFFFF) is None,
        },
{
    lemma_before(index, ':', sub);
    let s = index + seq![':'] + sub;
    assert(s.take(index.len() as int) =~= index);
    assert(s.skip(index.len() as int + 1) =~= sub);
    lemma_zero();
}

/// The subindex that is left out reads as zero.
proof fn lemma_zero()
    ensures
        unsigned(without_0x("0"@), true, 0xFF) == Some(0nat),
{
    reveal_strlit("0");
    let zero = "0"@;
    assert(zero =~= seq!['0']);
    assert(zero.drop_last() =~= Seq::empty());
    assert(digits_value(zero.drop_last(), true) == Some(0nat));
    assert(digits_value(zero, true) == Some(0nat));
    assert(without_0x(zero) == zero);
}

/// An object is named by its index and subindex in hexadecimal, separated by a
/// colon, each with or without `0x` before it. Without a subindex it is subindex 0.
pub proof fn law_object_argument(a: Address, marked: bool, sub_marked: bool)
    ensures
        ({
            let index = if marked {
                seq!['0', 'x'] + hex_digits(a.index as nat, 4)
            } else {
                hex_digits(a.index as nat, 4)
            };
            let sub = if sub_marked {
                seq!['0', 'x'] + hex_digits(a.subindex as nat, 2)
            } else {
                hex_digits(a.subindex as nat, 2)
            };
            &&& object_argument(index + seq![':'] + sub) == Some(a)
            &&& object_argument(index) == Some(Address { index: a.index, subindex: 0 })
        }),
{
    let index = if marked {
        seq!['0', 'x'] + hex_digits(a.index as nat, 4)
    } else {
        hex_digits(a.index as nat, 4)
    };
    let sub = if sub_marked {
        seq!['0', 'x'] + hex_digits(a.subindex as nat, 2)
    } else {
        hex_digits(a.subindex as nat, 2)
    };
    lemma_hex_digits(a.index as nat, 4);
    lemma_hex_digits(a.subindex as nat, 2);
    crate::text::laws::lemma_pow16();
    lemma_before(index, ':', sub);
    let s = index + seq![':'] + sub;
    assert(s.take(index.len() as int) =~= index);
    assert(s.skip(index.len() as int + 1) =~= sub);
    lemma_hex_read(a.index as nat, 4, 0xFFFF, marked);
    lemma_hex_read(a.subindex as nat, 2, 0xFF, sub_marked);
    lemma_zero();
}

// --- Reports ---------------------------------------------------------------

/// The label of a COB-ID is that of its function: the function code in its upper
/// four bits for the services that every node has, and the COB-ID itself for
/// those that the network shares.
pub proof fn law_labels(function: u16, node: u16)
    requires
        function < 16,
        node < 128,
    ensures
        ({
            let name = label((function * 128 + node) as u16);
            &&& function == 0 && node == 0 ==> name == "NMT"
            &&& function == 1 && node == 0 ==> name == "SYNC"
            &&& function == 1 && node > 0 ==> name == "EMCY"
            &&& function == 2 && node == 0 ==> name == "TIME"
            &&& 3 <= function <= 10 ==> name == "PDO"
            &&& function == 11 ==> name == "SDO tx"
            &&& function == 12 ==> name == "SDO rx"
            &&& function == 14 ==> name == "heartbeat"
            &&& function == 15 && (node == 0x64 || node == 0x65) ==> name == "LSS"
            &&& (function == 0 || function == 2) && node > 0 || function == 13 || (function == 15
                && node != 0x64 && node != 0x65) ==> name == ""
        }),
{
}

/// A frame's bytes are shown in order, two upper-case hexadecimal digits each, with
/// one space between two.
pub proof fn law_bytes_are_shown(data: Seq<u8>, i: int)
    requires
        0 <= i < data.len(),
    ensures
        bytes_text(data).len() == 3 * data.len() - 1,
        digits_value(bytes_text(data).subrange(3 * i, 3 * i + 2), true) == Some(data[i] as nat),
        i > 0 ==> bytes_text(data)[3 * i - 1] == ' ',
        forall|j: int| 0 <= j < bytes_text(data).len() ==> !('a' <= #[trigger] bytes_text(data)[j]
            <= 'z'),
        bytes_text(Seq::empty()) == Seq::<char>::empty(),
    decreases data.len(),
{
    let front = data.drop_last();
    let n = front.len() as int;
    let x = data.last() as nat;
    let hi = upper_hex(x / 16);
    let lo = upper_hex(x % 16);
    let digits = hi + lo;
    reveal_strlit(" ");
    assert(" "@.len() == 1 && " "@[0] == ' ');
    crate::text::laws::law_upper_hex_round_trip(x / 16);
    crate::text::laws::law_upper_hex_round_trip(x % 16);
    crate::text::laws::law_digits_count_by_their_place(hi, lo, true);
    lemma_pow1(16);
    assert(hi.len() == 1 && lo.len() == 1);
    assert(digits_value(digits, true) == Some(x));
    let t = bytes_text(data);
    if n > 0 {
        law_bytes_are_shown(front, 0);
        assert(t =~= bytes_text(front) + " "@ + digits);
    } else {
        assert(t =~= digits);
    }
    assert(t.subrange(3 * n, 3 * n + 2) =~= digits);
    if i < n {
        law_bytes_are_shown(front, i);
        assert(t.subrange(3 * i, 3 * i + 2) =~= bytes_text(front).subrange(3 * i, 3 * i + 2));
    }
}

/// The upper-case hexadecimal form of a number below `16^n` has at most `n` digits.
proof fn lemma_upper_hex_len(x: nat, n: nat)
    requires
        n > 0,
        x < pow(16, n),
    ensures
        0 < upper_hex(x).len() <= n,
    decreases n,
{
    lemma_pow1(16);
    if x >= 16 {
        assert(n > 1);
        lemma_pow_adds(16, 1, (n - 1) as nat);
        lemma_upper_hex_len(x / 16, (n - 1) as nat);
    }
}

/// The line of a frame has its COB-ID in the first three columns, to the right and
/// in upper-case hexadecimal, its bytes from column 6 on, left-aligned in 23, and
/// what it is for behind them.
pub proof fn law_frames_are_shown(cob_id: u16, data: Seq<u8>)
    requires
        cob_id < 0x1000,
        data.len() <= 8,
    ensures
        ({
            let t = frame_text(cob_id, data);
            let n = bytes_text(data).len() as int;
            &&& t.len() == 31 + label(cob_id)@.len()
            &&& digits_value(crate::text::trimmed_start(t.take(3)), true) == Some(cob_id as nat)
            &&& t[3] == ' ' && t[4] == ' ' && t[5] == '['
            &&& t.subrange(6, 6 + n) == bytes_text(data)
            &&& n <= 23
            &&& forall|i: int| 6 + n <= i < 29 ==> #[trigger] t[i] == ' '
            &&& t[29] == ']' && t[30] == ' '
            &&& t.skip(31) == label(cob_id)@
        }),
{
    let t = frame_text(cob_id, data);
    let id = upper_hex(cob_id as nat);
    let bytes = bytes_text(data);
    reveal_strlit("  [");
    reveal_strlit("] ");
    crate::text::laws::lemma_pow16();
    lemma_upper_hex_len(cob_id as nat, 3);
    crate::text::laws::law_upper_hex_round_trip(cob_id as nat);
    if data.len() > 0 {
        law_bytes_are_shown(data, 0);
    } else {
        assert(data =~= Seq::empty());
        assert(bytes.len() == 0);
    }
    assert(t.take(3) =~= spaces(3 - id.len()) + id);
    lemma_digits_are_visible(id);
    crate::text::laws::lemma_trimmed_start(spaces(3 - id.len()), id);
    assert(t.subrange(6, 6 + bytes.len() as int) =~= bytes);
    assert(t.skip(31) =~= label(cob_id)@);
}

/// What stands for a number does not begin with white space.
proof fn lemma_digits_are_visible(s: Seq<char>)
    requires
        s.len() > 0,
        digits_value(s, true) is Some,
    ensures
        !white_space(s[0]),
    decreases s.len(),
{
    if s.len() > 1 {
        lemma_digits_are_visible(s.drop_last());
        assert(s.drop_last()[0] == s[0]);
    }
}

/// A report names the command and the node: `all nodes` for node 0, and the
/// node's number in hexadecimal otherwise.
pub proof fn law_sent(command: Seq<char>, node: u8)
    ensures
        ({
            let t = sent_text(command, node);
            let n = command.len() as int;
            &&& t.take(5 + n + 4) == seq!['s', 'e', 'n', 't', ' '] + command + seq![' ', 't', 'o', ' ']
            &&& node == 0 ==> t.skip(n + 9) == seq!['a', 'l', 'l', ' ', 'n', 'o', 'd', 'e', 's']
            &&& node > 0 ==> {
                &&& t.skip(n + 9).take(5) == seq!['n', 'o', 'd', 'e', ' ']
                &&& integer(t.skip(n + 14)) == Some(node as int)
            }
        }),
{
    let t = sent_text(command, node);
    let n = command.len() as int;
    reveal_strlit("sent ");
    reveal_strlit(" to ");
    reveal_strlit("all nodes");
    reveal_strlit("node ");
    assert(t.take(5 + n + 4) =~= seq!['s', 'e', 'n', 't', ' '] + command + seq![' ', 't', 'o', ' ']);
    if node == 0 {
        assert(t.skip(n + 9) =~= seq!['a', 'l', 'l', ' ', 'n', 'o', 'd', 'e', 's']);
    } else {
        crate::text::laws::lemma_pow16();
        crate::text::laws::law_integer_reads_hexadecimal(node as nat, 2, false);
        assert(t.skip(n + 9).take(5) =~= seq!['n', 'o', 'd', 'e', ' ']);
        assert(t.skip(n + 14) =~= hex_text(node as nat, 2));
    }
}

/// A value is shown as the name of its type and, in brackets, what it holds. What
/// is shown of an integer reads back as that number; of a boolean, it is `true` or
/// `false`; of a floating-point number, the text given.
pub proof fn law_values_are_shown(value: Value, text: Seq<char>)
    ensures
        ({
            let t = value_text(value, text);
            let name = variant_name(value.spec_data_type())@;
            let inner = t.subrange(name.len() as int + 1, t.len() - 1);
            &&& t.len() >= name.len() + 2
            &&& t.take(name.len() as int) == name
            &&& t[name.len() as int] == '(' && t.last() == ')'
            &&& number_of(value) matches Some(x) ==> integer(inner) == Some(x)
            &&& value matches Value::Boolean(b) ==> inner == if b {
                seq!['t', 'r', 'u', 'e']
            } else {
                seq!['f', 'a', 'l', 's', 'e']
            }
            &&& value is Real32 || value is Real64 ==> inner == text
        }),
{
    let name = variant_name(value.spec_data_type())@;
    let none = Seq::<char>::empty();
    reveal_strlit("true");
    reveal_strlit("false");
    assert("true"@ =~= seq!['t', 'r', 'u', 'e']);
    assert("false"@ =~= seq!['f', 'a', 'l', 's', 'e']);
    let inner = match value {
        Value::Boolean(b) => if b {
            "true"@
        } else {
            "false"@
        },
        Value::Real32(_) | Value::Real64(_) => text,
        Value::VisibleString(s) | Value::OctetString(s) | Value::Domain(s) => byte_string_text(
            s@,
            text,
        ),
        _ => signed_decimal(number_of(value)->0),
    };
    if let Some(x) = number_of(value) {
        crate::text::laws::law_integer_reads_decimal(x, none, none);
        assert(none + signed_decimal(x) + none =~= signed_decimal(x));
    }
    assert(value_text(value, text) == name + "("@ + inner + ")"@);
    lemma_bracketed(name, inner);
}

/// What stands in brackets behind a name is found there.
proof fn lemma_bracketed(name: Seq<char>, inner: Seq<char>)
    ensures
        ({
            let t = name + "("@ + inner + ")"@;
            let n = name.len() as int;
            &&& t.len() == n + inner.len() + 2
            &&& t.take(n) == name
            &&& t[n] == '(' && t.last() == ')'
            &&& t.subrange(n + 1, t.len() - 1) == inner
        }),
{
    reveal_strlit("(");
    reveal_strlit(")");
    let t = name + "("@ + inner + ")"@;
    let n = name.len() as int;
    assert(t.take(n) =~= name);
    assert(t.subrange(n + 1, t.len() - 1) =~= inner);
}

/// Each type is shown by its own name.
pub proof fn law_type_labels()
    ensures
        variant_name(DataType::Boolean) == "Boolean",
        variant_name(DataType::Integer8) == "Integer8",
        variant_name(DataType::Integer16) == "Integer16",
        variant_name(DataType::Integer32) == "Integer32",
        variant_name(DataType::Integer64) == "Integer64",
        variant_name(DataType::Unsigned8) == "Unsigned8",
        variant_name(DataType::Unsigned16) == "Unsigned16",
        variant_name(DataType::Unsigned32) == "Unsigned32",
        variant_name(DataType::Unsigned64) == "Unsigned64",
        variant_name(DataType::Real32) == "Real32",
        variant_name(DataType::Real64) == "Real64",
        variant_name(DataType::VisibleString) == "VisibleString",
        variant_name(DataType::OctetString) == "OctetString",
        variant_name(DataType::Domain) == "Domain",
{
}

/// The line of an object shows its own index and subindex in hexadecimal, which
/// read back from it, and behind them its type, its access rights, its value and its
/// name, in columns.
pub proof fn law_objects_are_shown(d: Description, number: Seq<char>)
    ensures
        ({
            let t = object_text(d, number);
            let value = value_text(d.default_value, content_text(d.default_value, number));
            &&& t[0] == ' ' && t[1] == ' '
            &&& integer(t.subrange(2, 8)) == Some(d.address.index as int)
            &&& t[8] == ':'
            &&& digits_value(t.subrange(9, 11), true) == Some(d.address.subindex as nat)
            &&& t.skip(11) == seq![' ', ' '] + left_aligned(variant_name(d.data_type)@, 10)
                + seq![' '] + left_aligned(access_name(d.access)@, 6) + seq![' '] + left_aligned(
                value,
                24,
            ) + seq![' '] + d.parameter_name + seq!['\n']
            &&& d.default_value is Real32 || d.default_value is Real64 ==> content_text(
                d.default_value,
                number,
            ) == number
        }),
{
    let t = object_text(d, number);
    let index = hex_text(d.address.index as nat, 4);
    let sub = hex_digits(d.address.subindex as nat, 2);
    reveal_strlit("  ");
    reveal_strlit(":");
    reveal_strlit(" ");
    reveal_strlit("\n");
    assert("  "@ =~= seq![' ', ' ']);
    assert(" "@ =~= seq![' ']);
    assert("\n"@ =~= seq!['\n']);
    crate::text::laws::lemma_pow16();
    law_hex_round_trip(d.address.index as nat, 4);
    law_hex_round_trip(d.address.subindex as nat, 2);
    crate::text::laws::law_integer_reads_hexadecimal(d.address.index as nat, 4, false);
    assert(t.subrange(2, 8) =~= index);
    assert(t.subrange(9, 11) =~= sub);
    let value = value_text(d.default_value, content_text(d.default_value, number));
    assert(t.skip(11) =~= seq![' ', ' '] + left_aligned(variant_name(d.data_type)@, 10) + seq![' ']
        + left_aligned(access_name(d.access)@, 6) + seq![' '] + left_aligned(value, 24) + seq![' ']
        + d.parameter_name + seq!['\n']);
}

/// A column holds its text and spaces behind it, up to its width; a longer text is
/// not cut.
pub proof fn law_columns(s: Seq<char>, width: nat, i: int)
    ensures
        left_aligned(s, width).len() == if s.len() < width {
            width
        } else {
            s.len()
        },
        left_aligned(s, width).take(s.len() as int) == s,
        s.len() <= i < width ==> left_aligned(s, width)[i] == ' ',
{
    assert(left_aligned(s, width).take(s.len() as int) =~= s);
}

/// Each object has its line, in order, and shows the floating-point text that
/// stands at its own place.
pub proof fn law_lines_in_order(objects: Seq<Description>, numbers: Seq<String>, d: Description)
    ensures
        objects_text(Seq::empty(), numbers) == Seq::<char>::empty(),
        objects_text(objects.push(d), numbers) == objects_text(objects, numbers) + object_text(
            d,
            if objects.len() < numbers.len() {
                numbers[objects.len() as int]@
            } else {
                Seq::empty()
            },
        ),
{
    assert(objects.push(d).drop_last() =~= objects);
}

/// A device description is shown with its vendor and product, or `(none)`, its
/// node-id where there is one, the number of its objects, and their lines.
pub proof fn law_descriptions_are_shown(d: DeviceDescription, numbers: Seq<String>)
    ensures
        ({
            let t = eds_text(d, numbers);
            let vendor = match d.vendor_name {
                Some(name) => name,
                None => "(none)"@,
            };
            let product = match d.product_name {
                Some(name) => name,
                None => "(none)"@,
            };
            let names = "vendor:  "@ + vendor + "\n"@ + "product: "@ + product + "\n"@;
            let count = decimal(d.objects.len());
            let behind = count + " objects:\n"@ + objects_text(d.objects, numbers);
            &&& t.take(names.len() as int) == names
            &&& digits_value(count, false) == Some(d.objects.len())
            &&& match d.node_id {
                Some(id) => {
                    let line = t.subrange(names.len() as int, names.len() as int + 14);
                    &&& t.skip(names.len() as int + 14) == behind
                    &&& line.take(9) == "node id: "@
                    &&& integer(line.subrange(9, 13)) == Some(id as int)
                    &&& line[13] == '\n'
                },
                None => t.skip(names.len() as int) == behind,
            }
        }),
{
    let t = eds_text(d, numbers);
    let vendor = name_text(d.vendor_name);
    let product = name_text(d.product_name);
    let names = "vendor:  "@ + vendor + "\n"@ + "product: "@ + product + "\n"@;
    let n = names.len() as int;
    let count = decimal(d.objects.len());
    let behind = count + " objects:\n"@ + objects_text(d.objects, numbers);
    crate::text::law_decimal_round_trip(d.objects.len());
    reveal_strlit("node id: ");
    reveal_strlit("\n");
    assert(t.take(n) =~= names);
    match d.node_id {
        Some(id) => {
            crate::text::laws::lemma_pow16();
            law_hex_round_trip(id as nat, 2);
            crate::text::laws::law_integer_reads_hexadecimal(id as nat, 2, false);
            let line = t.subrange(n, n + 14);
            assert(t.skip(n + 14) =~= behind);
            assert(line.take(9) =~= "node id: "@);
            assert(line.subrange(9, 13) =~= hex_text(id as nat, 2));
        },
        None => {
            assert(t.skip(n) =~= behind);
        },
    }
}

/// An argument that was not understood is quoted in the message, behind what was
/// expected of it; a node-id that is out of range is given in decimal.
pub proof fn law_arguments_are_quoted(s: String, n: u8)
    ensures
        ArgError::InvalidIndex(s).text() == "invalid object index '"@ + s@ + "' (expected hex)"@,
        ArgError::InvalidSubindex(s).text() == "invalid subindex '"@ + s@ + "' (expected hex)"@,
        ArgError::UnknownDataType(s).text() == "unknown data type '"@ + s@
            + "' (use u8|u16|u32|u64|i8|i16|i32|i64|f32|f64|bool)"@,
        ArgError::InvalidHex(s).text() == "invalid hex '"@ + s@ + "'"@,
        ArgError::InvalidInteger(s).text() == "invalid integer '"@ + s@ + "'"@,
        ArgError::InvalidReal(DataType::Real32).text() == "invalid f32"@,
        ArgError::InvalidReal(DataType::Real64).text() == "invalid f64"@,
        ArgError::UnsupportedDataType.text() == "unsupported data type for writing"@,
        ArgError::UnknownCommand(s).text() == "unknown NMT command '"@ + s@
            + "' (use start|stop|preop|reset|reset-comm)"@,
        ({
            let t = ArgError::NodeIdOutOfRange(n).text();
            let k = decimal(n as nat).len() as int;
            &&& t.take(8) == "node id "@
            &&& digits_value(t.subrange(8, 8 + k), false) == Some(n as nat)
            &&& t.skip(8 + k) == " out of range (1..=127)"@
        }),
{
    let t = ArgError::NodeIdOutOfRange(n).text();
    let k = decimal(n as nat).len() as int;
    reveal_strlit("node id ");
    crate::text::law_decimal_round_trip(n as nat);
    assert(t.take(8) =~= "node id "@);
    assert(t.subrange(8, 8 + k) =~= decimal(n as nat));
    assert(t.skip(8 + k) =~= " out of range (1..=127)"@);
}

/// A number written in decimal, or a natural one in hexadecimal behind `0x`, is given
/// as a value of any integer type whose range it is in, exactly.
pub proof fn law_written_numbers_are_given(dt: DataType, v: int, width: nat, bits: Option<u64>)
    requires
        range_of(dt).0 <= v < range_of(dt).1,
    ensures
        ({
            let given = value_of_argument(dt, signed_decimal(v), bits);
            &&& given matches Some(value)
            &&& value.spec_data_type() == dt
            &&& number_of(value) == Some(v)
        }),
        v >= 0 && width > 0 && v < pow(16, width) ==> value_of_argument(
            dt,
            seq!['0', 'x'] + hex_digits(v as nat, width),
            bits,
        ) == value_of_argument(dt, signed_decimal(v), bits),
{
    let none = Seq::<char>::empty();
    crate::text::laws::law_integer_reads_decimal(v, none, none);
    assert(none + signed_decimal(v) + none =~= signed_decimal(v));
    law_integers_are_kept(dt, signed_decimal(v), bits);
    if v >= 0 && width > 0 && v < pow(16, width) {
        crate::text::laws::law_integer_reads_hexadecimal(v as nat, width, false);
    }
}

} // verus!
