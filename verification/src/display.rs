//! The text form of byte strings.
//!
//! A byte string reads as its text where it is UTF-8, and as a list of its bytes
//! where it is not.
use vstd::prelude::*;
use vstd::string::StringExecFns;
use vstd::utf8::{decode_utf8, encode_utf8_decode_utf8, valid_utf8};

use crate::datatypes::ByteString;
use crate::text::{decimal, push_decimal};

verus! {

/// A text between quotes, with the characters escaped that need it.
pub uninterp spec fn quoted(text: Seq<char>) -> Seq<char>;

/// The `Debug` form of a `str`, by `format!`: it depends on the text alone. What
/// it escapes, and how, is left unsaid.
#[verifier::external_body]
fn quote(text: &str) -> (out: String)
    ensures
        out@ == quoted(text@),
{
    format!("{text:?}")
}

/// Bytes as decimal numbers, separated by commas.
pub open spec fn byte_numbers(bytes: Seq<u8>) -> Seq<char>
    decreases bytes.len(),
{
    if bytes.len() == 0 {
        Seq::empty()
    } else if bytes.len() == 1 {
        decimal(bytes[0] as nat)
    } else {
        byte_numbers(bytes.drop_last()) + ", "@ + decimal(bytes.last() as nat)
    }
}

/// A byte string for display: as `text` where it is UTF-8, else as a list of
/// bytes.
pub open spec fn byte_string_text(bytes: Seq<u8>, text: Seq<char>) -> Seq<char> {
    "ByteString("@ + (if valid_utf8(bytes) {
        text
    } else {
        "["@ + byte_numbers(bytes) + "]"@
    }) + ")"@
}

/// The quoted text of a byte string: empty where it is not UTF-8.
pub open spec fn quoted_bytes(bytes: Seq<u8>) -> Seq<char> {
    if valid_utf8(bytes) {
        quoted(decode_utf8(bytes))
    } else {
        Seq::empty()
    }
}

fn push_byte_numbers(out: &mut String, bytes: &[u8])
    ensures
        final(out)@ == old(out)@ + byte_numbers(bytes@),
{
    let mut k: usize = 0;
    assert(out@ =~= old(out)@ + byte_numbers(bytes@.take(0)));
    while k < bytes.len()
        invariant
            k <= bytes@.len(),
            out@ == old(out)@ + byte_numbers(bytes@.take(k as int)),
        decreases bytes@.len() - k,
    {
        proof {
            assert(bytes@.take(k + 1).drop_last() =~= bytes@.take(k as int));
            assert(bytes@.take(k + 1).last() == bytes@[k as int]);
        }
        if k > 0 {
            out.append(", ");
        }
        push_decimal(out, bytes[k] as u64);
        assert(out@ =~= old(out)@ + byte_numbers(bytes@.take(k + 1)));
        k += 1;
    }
    assert(bytes@.take(bytes@.len() as int) =~= bytes@);
}

/// The quoted text of a byte string: empty where it is not UTF-8.
pub fn quote_bytes(s: &ByteString) -> (out: String)
    ensures
        out@ == quoted_bytes(s@),
{
    match s.as_str() {
        Some(text) => {
            proof {
                encode_utf8_decode_utf8(text@);
            }
            quote(text)
        },
        None => {
            let out = String::new();
            assert(out@ =~= Seq::empty());
            out
        },
    }
}

/// A byte string for display; `text` is how it reads where it is UTF-8
/// ([`quote_bytes`]).
pub fn byte_string_report(s: &ByteString, text: &str) -> (out: String)
    ensures
        out@ == byte_string_text(s@, text@),
{
    let mut out = String::new();
    out.append("ByteString(");
    if s.as_str().is_some() {
        out.append(text);
    } else {
        out.append("[");
        push_byte_numbers(&mut out, s.as_bytes());
        out.append("]");
    }
    out.append(")");
    assert(out@ =~= byte_string_text(s@, text@));
    out
}

/// Where formatted text is written.
#[verifier::external_type_specification]
#[verifier::external_body]
pub struct ExFormatter<'a>(core::fmt::Formatter<'a>);

/// The failure of writing formatted text.
#[verifier::external_type_specification]
#[verifier::external_body]
pub struct ExFmtError(core::fmt::Error);

/// `core::fmt::Formatter::write_str`: writes `text`. What becomes of it, and
/// whether writing succeeds, is up to the buffer behind the formatter.
#[verifier::external_body]
fn write_text(f: &mut core::fmt::Formatter<'_>, text: &str) -> (r: Result<(), core::fmt::Error>) {
    f.write_str(text)
}

/// Shows the text or the bytes ([`byte_string_report`]), not the unused tail of
/// the buffer.
impl core::fmt::Debug for ByteString {
    fn fmt(&self, f: &mut core::fmt::Formatter<'_>) -> (r: Result<(), core::fmt::Error>) {
        let text = quote_bytes(self);
        let shown = byte_string_report(self, text.as_str());
        write_text(f, shown.as_str())
    }
}

/// The bytes of a string that is not UTF-8 are shown in order, each as a decimal
/// number, with a comma and a space between two.
pub proof fn law_bytes_are_listed(bytes: Seq<u8>, b: u8)
    ensures
        byte_numbers(Seq::empty()) == Seq::<char>::empty(),
        byte_numbers(seq![b]) == decimal(b as nat),
        bytes.len() > 0 ==> byte_numbers(bytes.push(b)) == byte_numbers(bytes) + seq![',', ' ']
            + decimal(b as nat),
{
    reveal_strlit(", ");
    assert(bytes.push(b).drop_last() =~= bytes);
    assert(", "@ =~= seq![',', ' ']);
}

/// A byte string is shown in brackets behind its type's name: as its text where it
/// is UTF-8, and as the list of its bytes in square brackets where it is not.
pub proof fn law_byte_strings_are_shown(bytes: Seq<u8>, text: Seq<char>)
    ensures
        ({
            let t = byte_string_text(bytes, text);
            let inner = t.subrange(11, t.len() - 1);
            &&& t.len() >= 12
            &&& t.take(11) == "ByteString("@
            &&& t.last() == ')'
            &&& valid_utf8(bytes) ==> inner == text
            &&& !valid_utf8(bytes) ==> inner == seq!['['] + byte_numbers(bytes) + seq![']']
        }),
{
    reveal_strlit("ByteString(");
    reveal_strlit("[");
    reveal_strlit("]");
    reveal_strlit(")");
    let t = byte_string_text(bytes, text);
    let inner = t.subrange(11, t.len() - 1);
    assert(t.take(11) =~= "ByteString("@);
    if valid_utf8(bytes) {
        assert(inner =~= text);
    } else {
        assert(inner =~= seq!['['] + byte_numbers(bytes) + seq![']']);
    }
}

} // verus!
