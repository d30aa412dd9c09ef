//! Strict decoding: any malformed input is an error.

use vstd::prelude::*;
use vstd::string::StringSliceAdditionalSpecFns;
use vstd::utf8::{decode_utf8, encode_utf8_decode_utf8, valid_utf8};

use crate::bridge;
use crate::error::ConvertError;
use crate::scalars::{strict_text, utf16_items, utf32_items};
use crate::units::{read_units16, read_units32, units16, units32};
use crate::utf::{UtfEncoding, UtfType};

verus! {

/// The text of well-formed UTF-8.
pub open spec fn strict_utf8(body: Seq<u8>) -> Option<Seq<char>> {
    if valid_utf8(body) {
        Some(decode_utf8(body))
    } else {
        None
    }
}

/// The text of UTF-16 in the given byte order: an even number of bytes, and
/// no surrogate without its partner.
pub open spec fn strict_utf16(body: Seq<u8>, le: bool) -> Option<Seq<char>> {
    if body.len() % 2 != 0 {
        None
    } else {
        strict_text(utf16_items(units16(body, le)))
    }
}

/// The text of UTF-32 in the given byte order: a multiple of four bytes, each
/// group a character.
pub open spec fn strict_utf32(body: Seq<u8>, le: bool) -> Option<Seq<char>> {
    if body.len() % 4 != 0 {
        None
    } else {
        strict_text(utf32_items(units32(body, le)))
    }
}

/// What is left of the input of an encoding once the input's byte order is
/// settled: everything, or what follows the mark.
pub open spec fn input_body(bytes: Seq<u8>, encoding: UtfEncoding) -> Seq<u8> {
    bytes.skip(encoding.consumed_len(bytes) as int)
}

/// Whether input in an encoding is read as little endian: by the label, else
/// by the mark, else yes.
pub open spec fn input_is_le(bytes: Seq<u8>, encoding: UtfEncoding) -> bool {
    encoding.input_byte_order(bytes).le_or(true)
}

/// The text that `bytes` holds in a Unicode encoding, or `None` where they
/// are malformed.
pub open spec fn decoded(bytes: Seq<u8>, encoding: UtfEncoding) -> Option<Seq<char>> {
    let body = input_body(bytes, encoding);
    let le = input_is_le(bytes, encoding);
    match encoding.utf_type {
        UtfType::Utf8 => strict_utf8(body),
        UtfType::Utf16 => strict_utf16(body, le),
        UtfType::Utf32 => strict_utf32(body, le),
    }
}

/// A decoded text as a result: the text, or `InvalidInput`.
pub open spec fn is_text_or_invalid(result: Result<String, ConvertError>, text: Option<Seq<char>>) -> bool {
    match text {
        Some(t) => result matches Ok(s) && s@ == t,
        None => result matches Err(e) && e == ConvertError::InvalidInput,
    }
}

fn decode_utf16_inner(input: &[u8], le: bool) -> (result: Result<String, ConvertError>)
    ensures
        is_text_or_invalid(result, strict_utf16(input@, le)),
{
    if input.len() % 2 != 0 {
        return Err(ConvertError::InvalidInput);
    }
    let units = read_units16(input, le);
    match bridge::decode_utf16(units.as_slice()) {
        Ok(text) => Ok(text),
        Err(_) => Err(ConvertError::InvalidInput),
    }
}

fn decode_utf32_inner(input: &[u8], le: bool) -> (result: Result<String, ConvertError>)
    ensures
        is_text_or_invalid(result, strict_utf32(input@, le)),
{
    if input.len() % 4 != 0 {
        return Err(ConvertError::InvalidInput);
    }
    let units = read_units32(input, le);
    match bridge::decode_utf32(units.as_slice()) {
        Ok(text) => Ok(text),
        Err(_) => Err(ConvertError::InvalidInput),
    }
}

fn decode_utf8_inner(input: &[u8]) -> (result: Result<String, ConvertError>)
    ensures
        is_text_or_invalid(result, strict_utf8(input@)),
{
    match core::str::from_utf8(input) {
        Ok(text) => {
            proof {
                encode_utf8_decode_utf8(text@);
            }
            Ok(text.to_owned())
        },
        Err(_) => Err(ConvertError::InvalidInput),
    }
}

/// Decodes `input` in a Unicode encoding. An ambiguous encoding reads the
/// byte order from the mark at the start, which is then no part of the
/// text, and is little endian without one. Malformed input is `InvalidInput`.
pub fn decode_utf(input: &[u8], encoding: UtfEncoding) -> (result: Result<String, ConvertError>)
    ensures
        is_text_or_invalid(result, decoded(input@, encoding)),
{
    let mut body: &[u8] = input;
    let byte_order = encoding.consume_input_bom(&mut body);
    let le = byte_order.is_le(true);
    match encoding.utf_type {
        UtfType::Utf16 => decode_utf16_inner(body, le),
        UtfType::Utf32 => decode_utf32_inner(body, le),
        UtfType::Utf8 => decode_utf8_inner(body),
    }
}

} // verus!
