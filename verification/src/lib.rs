//! Conversion of text between character encodings.
//!
//! The library reads encoding labels, handles byte-order marks and converts
//! between UTF-8, UTF-16 and UTF-32 by itself. For every other pair of
//! encodings its entry points hand the input over to a native converter:
//! they say between which encodings, and [`sys`] decides what the converter
//! is to be asked and what its answers mean. The calls themselves are left
//! to the program that links the converter. Every function states what it
//! does in a contract that is machine-checked.

use vstd::prelude::*;
use vstd::string::StringSliceAdditionalSpecFns;

pub mod bom;
pub mod bridge;
pub mod codepage;
pub mod dispatch;
pub mod encoding;
pub mod error;
pub mod labels;
pub mod scalars;
pub mod sys;
pub mod theorems;
pub mod units;
pub mod utf;
pub mod wide;

pub use dispatch::{Conversion, Encoding};
pub use error::{ConvertError, ConvertLossyError};

use dispatch::{
    convert_inner, converted, converted_lossy, resolve, resolved, view_of_result, ConversionView,
};
use scalars::replacement;
use utf::decode::decoded;
use utf::decode_lossy::decoded_lossy;
use utf::{decode_utf, decode_utf_lossy, parse_label, UtfEncoding};

verus! {

/// A conversion of lossy mode, or the error in its place.
pub open spec fn view_of_lossy_result(result: Result<Conversion, ConvertLossyError>) -> Result<
    ConversionView,
    ConvertError,
> {
    match result {
        Ok(conversion) => Ok(conversion@),
        Err(_) => Err(ConvertError::UnknownConversion),
    }
}

/// The outcome of decoding as far as the library can take it.
#[derive(Debug, PartialEq, Eq)]
pub enum Decoding {
    /// The text.
    Done(String),
    /// The input is for a native converter from this code page to UTF-8,
    /// whose output is the text.
    Native(u32),
}

/// A decoding with what its text holds.
pub enum DecodingView {
    /// The text.
    Done(Seq<char>),
    /// The code page that a native converter is asked to decode.
    Native(u32),
}

impl View for Decoding {
    type V = DecodingView;

    open spec fn view(&self) -> DecodingView {
        match self {
            Decoding::Done(text) => DecodingView::Done(text@),
            Decoding::Native(codepage) => DecodingView::Native(*codepage),
        }
    }
}

/// What is left of `bytes` once the mark that belongs to the encoding of
/// `label` is taken from their start. Without such a mark, or with a label
/// that names no Unicode encoding, that is all of them.
pub open spec fn without_own_mark(bytes: Seq<u8>, label: Seq<u8>) -> Seq<u8> {
    match parse_label(label) {
        Some(encoding) => bytes.skip(encoding.stripped_len(bytes) as int),
        None => bytes,
    }
}

/// What is done with input in a code page: empty input is the empty text
/// and needs no converter; any other input is handed over.
pub open spec fn handed_over_text(bytes: Seq<u8>, codepage: u32) -> DecodingView {
    if bytes.len() == 0 {
        DecodingView::Done(Seq::empty())
    } else {
        DecodingView::Native(codepage)
    }
}

/// How far the library takes the strict decoding of `bytes` in the
/// encoding of `label`. In a Unicode encoding the mark of the encoding is
/// no part of the text, and malformed input is `InvalidInput`. Input in a
/// code page is for a native converter. A label that names nothing is an
/// unknown conversion.
pub open spec fn decoded_text(bytes: Seq<u8>, label: Seq<u8>) -> Result<DecodingView, ConvertError> {
    match resolved(label) {
        Some(Encoding::Utf(encoding)) => match decoded(without_own_mark(bytes, label), encoding) {
            Some(text) => Ok(DecodingView::Done(text)),
            None => Err(ConvertError::InvalidInput),
        },
        Some(Encoding::CodePage(codepage)) => Ok(handed_over_text(bytes, codepage)),
        None => Err(ConvertError::UnknownConversion),
    }
}

/// How far the library takes the lossy decoding of `bytes` in the encoding
/// of `label`.
pub open spec fn decoded_text_lossy(bytes: Seq<u8>, label: Seq<u8>) -> Result<
    DecodingView,
    ConvertLossyError,
> {
    match resolved(label) {
        Some(Encoding::Utf(encoding)) => Ok(
            DecodingView::Done(decoded_lossy(without_own_mark(bytes, label), encoding)),
        ),
        Some(Encoding::CodePage(codepage)) => Ok(handed_over_text(bytes, codepage)),
        None => Err(ConvertLossyError::UnknownConversion),
    }
}

/// Converts `input` from one encoding to another, as far as the library
/// can: where no native converter is needed the output is there, else the
/// answer names the two encodings to hand over to one. Malformed input is
/// `InvalidInput`, a label that names nothing an unknown conversion. Empty
/// input needs no converter.
pub fn convert(input: &[u8], from_encoding: &str, to_encoding: &str) -> (result: Result<
    Conversion,
    ConvertError,
>)
    ensures
        view_of_result(result) == converted(
            input@,
            from_encoding.spec_bytes(),
            to_encoding.spec_bytes(),
        ),
{
    convert_inner(input, from_encoding, to_encoding, false)
}

/// Converts `input` from one encoding to another as `convert` does, with
/// U+FFFD for what is malformed. Where strict conversion succeeds, the
/// answer is the same.
pub fn convert_lossy(input: &[u8], from_encoding: &str, to_encoding: &str) -> (result: Result<
    Conversion,
    ConvertLossyError,
>)
    ensures
        view_of_lossy_result(result) == converted_lossy(
            input@,
            from_encoding.spec_bytes(),
            to_encoding.spec_bytes(),
        ),
        converted(input@, from_encoding.spec_bytes(), to_encoding.spec_bytes()) is Ok
            ==> view_of_lossy_result(result) == converted(
            input@,
            from_encoding.spec_bytes(),
            to_encoding.spec_bytes(),
        ),
{
    match convert_inner(input, from_encoding, to_encoding, true) {
        Ok(conversion) => Ok(conversion),
        Err(_) => Err(ConvertLossyError::UnknownConversion),
    }
}

/// Removes from the start of `input` the mark that belongs to the encoding
/// of `encoding`, where that names a Unicode encoding.
pub fn try_strip_utf8_bom(input: &mut &[u8], encoding: &str)
    ensures
        final(input)@ == without_own_mark(old(input)@, encoding.spec_bytes()),
{
    match UtfEncoding::parse(encoding) {
        Some(utf) => {
            utf.strip_bom(input);
        },
        None => {},
    }
}

/// Decodes `input` in the encoding of `encoding`, as far as the library
/// can: the text of a Unicode encoding, without the mark of the encoding,
/// else the code page to hand over to a native converter. Empty input
/// needs no converter.
pub fn decode(input: &[u8], encoding: &str) -> (result: Result<Decoding, ConvertError>)
    ensures
        match decoded_text(input@, encoding.spec_bytes()) {
            Ok(expected) => result matches Ok(d) && d@ == expected,
            Err(e) => result matches Err(f) && f == e,
        },
{
    let mut body: &[u8] = input;
    try_strip_utf8_bom(&mut body, encoding);
    match resolve(encoding) {
        Some(Encoding::Utf(utf)) => match decode_utf(body, utf) {
            Ok(text) => Ok(Decoding::Done(text)),
            Err(e) => Err(e),
        },
        Some(Encoding::CodePage(codepage)) => {
            if input.len() == 0 {
                Ok(Decoding::Done(String::new()))
            } else {
                Ok(Decoding::Native(codepage))
            }
        },
        None => Err(ConvertError::UnknownConversion),
    }
}

/// Decodes `input` as `decode` does, with U+FFFD for what is malformed.
/// Where strict decoding succeeds, the answer is the same; where it fails
/// on the input, U+FFFD occurs in the text.
pub fn decode_lossy(input: &[u8], encoding: &str) -> (result: Result<Decoding, ConvertLossyError>)
    ensures
        match decoded_text_lossy(input@, encoding.spec_bytes()) {
            Ok(expected) => result matches Ok(d) && d@ == expected,
            Err(e) => result matches Err(f) && f == e,
        },
        decoded_text(input@, encoding.spec_bytes()) matches Ok(expected) ==> result matches Ok(d)
            && d@ == expected,
        decoded_text(input@, encoding.spec_bytes()) matches Err(ConvertError::InvalidInput)
            ==> result matches Ok(Decoding::Done(s)) && s@.contains(replacement()),
{
    let mut body: &[u8] = input;
    try_strip_utf8_bom(&mut body, encoding);
    match resolve(encoding) {
        Some(Encoding::Utf(utf)) => Ok(Decoding::Done(decode_utf_lossy(body, utf))),
        Some(Encoding::CodePage(codepage)) => {
            if input.len() == 0 {
                Ok(Decoding::Done(String::new()))
            } else {
                Ok(Decoding::Native(codepage))
            }
        },
        None => Err(ConvertLossyError::UnknownConversion),
    }
}

} // verus!
