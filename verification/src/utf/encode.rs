//! Encoding of a text, and the byte-order mark in front of it.

use vstd::prelude::*;
use vstd::string::{StrSliceExecFns, StringSliceAdditionalSpecFns};
use vstd::utf8::encode_utf8;

use crate::bom::{utf16_mark, utf32_mark};
use crate::bridge;
use crate::scalars::{utf16_encode, utf16_units_of, utf32_encode};
use crate::units::{bytes16, bytes32, write_units16, write_units32};
use crate::utf::{UtfEncoding, UtfType};

verus! {

/// U+FEFF, the character that a byte-order mark encodes.
pub open spec fn mark_char() -> char {
    '\u{FEFF}'
}

/// The bytes of a text in UTF-16 of the given byte order, without any mark.
pub open spec fn utf16_bytes(text: Seq<char>, le: bool) -> Seq<u8> {
    bytes16(utf16_encode(text), le)
}

/// The bytes of a text in UTF-32 of the given byte order, without any mark.
pub open spec fn utf32_bytes(text: Seq<char>, le: bool) -> Seq<u8> {
    bytes32(utf32_encode(text), le)
}

/// The mark, where one is asked for.
pub open spec fn optional_mark(mark: Seq<u8>, add_bom: bool) -> Seq<u8> {
    if add_bom {
        mark
    } else {
        Seq::empty()
    }
}

/// Whether a text starts with U+FEFF.
pub open spec fn starts_with_mark(text: Seq<char>) -> bool {
    text.len() > 0 && text[0] == mark_char()
}

/// Whether a mark is put in front of a text on its way into an encoding: the
/// encoding is ambiguous, and the text does not bring one along.
pub open spec fn needs_mark(text: Seq<char>, encoding: UtfEncoding) -> bool {
    encoding.ambiguous() && !starts_with_mark(text)
}

/// The bytes of a text in a Unicode encoding. An encoding without a byte
/// order is written little endian, and such output always starts with a
/// mark, exactly one: the one that the text brings along, or a new one.
pub open spec fn encoded(text: Seq<char>, encoding: UtfEncoding) -> Seq<u8> {
    let le = encoding.byte_order.le_or(true);
    let add_bom = needs_mark(text, encoding);
    match encoding.utf_type {
        UtfType::Utf8 => encode_utf8(text),
        UtfType::Utf16 => optional_mark(utf16_mark(le), add_bom) + utf16_bytes(text, le),
        UtfType::Utf32 => optional_mark(utf32_mark(le), add_bom) + utf32_bytes(text, le),
    }
}

/// The UTF-16 mark is U+FEFF in UTF-16.
pub proof fn lemma_utf16_mark_is_char(le: bool)
    ensures
        utf16_bytes(seq![mark_char()], le) == utf16_mark(le),
{
    let text = seq![mark_char()];
    assert(text.drop_first() =~= Seq::<char>::empty());
    assert(utf16_encode(text.drop_first()) =~= Seq::<u16>::empty());
    assert(utf16_units_of(mark_char()) =~= seq![0xFEFFu16]);
    assert(utf16_encode(text) =~= seq![0xFEFFu16]);
    assert(utf16_bytes(text, le) =~= utf16_mark(le));
}

/// The UTF-32 mark is U+FEFF in UTF-32.
pub proof fn lemma_utf32_mark_is_char(le: bool)
    ensures
        utf32_bytes(seq![mark_char()], le) == utf32_mark(le),
{
    let text = seq![mark_char()];
    assert(utf32_encode(text) =~= seq![0xFEFFu32]);
    assert(utf32_bytes(text, le) =~= utf32_mark(le));
}

/// Encodes a text as UTF-16 in the given byte order, after a mark where
/// `add_bom` asks for one.
pub fn string_to_utf16(input: &str, add_bom: bool, le: bool) -> (bytes: Vec<u8>)
    ensures
        bytes@ == optional_mark(utf16_mark(le), add_bom) + utf16_bytes(input@, le),
{
    let mut bytes: Vec<u8> = Vec::new();
    if add_bom {
        let mut mark: Vec<u16> = Vec::new();
        mark.push(0xFEFF);
        write_units16(&mut bytes, mark.as_slice(), le);
        assert(bytes@ =~= utf16_mark(le));
    }
    let units = bridge::encode_utf16(input);
    write_units16(&mut bytes, units.as_slice(), le);
    bytes
}

/// Encodes a text as UTF-32 in the given byte order, after a mark where
/// `add_bom` asks for one.
pub fn string_to_utf32(input: &str, add_bom: bool, le: bool) -> (bytes: Vec<u8>)
    ensures
        bytes@ == optional_mark(utf32_mark(le), add_bom) + utf32_bytes(input@, le),
{
    let mut bytes: Vec<u8> = Vec::new();
    if add_bom {
        let mut mark: Vec<u32> = Vec::new();
        mark.push(0xFEFF);
        write_units32(&mut bytes, mark.as_slice(), le);
        assert(bytes@ =~= utf32_mark(le));
    }
    let units = bridge::encode_utf32(input);
    write_units32(&mut bytes, units.as_slice(), le);
    bytes
}

/// Encodes a text in a Unicode encoding.
pub fn encode_utf(text: &str, encoding: UtfEncoding) -> (bytes: Vec<u8>)
    ensures
        bytes@ == encoded(text@, encoding),
{
    let le = encoding.byte_order.is_le(true);
    let has_mark = !text.is_empty() && text.get_char(0) == '\u{FEFF}';
    let add_bom = encoding.is_ambiguous() && !has_mark;
    match encoding.utf_type {
        UtfType::Utf8 => text.as_bytes_vec(),
        UtfType::Utf16 => string_to_utf16(text, add_bom, le),
        UtfType::Utf32 => string_to_utf32(text, add_bom, le),
    }
}

} // verus!
