//! The calls into `widestring`, the constants of `windows_sys`, and the
//! parts of std that come without a specification. What each contract says
//! is assumed, not proved.

use vstd::prelude::*;
use vstd::string::StringSliceAdditionalSpecFns;
use vstd::utf8::{decode_utf8, valid_utf8};

use crate::scalars::{
    lossy_text, replacement, strict_text, utf16_encode, utf16_items, utf32_encode, utf32_items,
};

verus! {

/// The error of `widestring::decode_utf16`: an unpaired surrogate.
#[verifier::external_type_specification]
#[verifier::external_body]
pub struct ExDecodeUtf16Error(widestring::error::DecodeUtf16Error);

/// The error of `widestring::decode_utf32`: a unit that is no character.
#[verifier::external_type_specification]
#[verifier::external_body]
pub struct ExDecodeUtf32Error(widestring::error::DecodeUtf32Error);

/// The error of `core::str::from_utf8`.
#[verifier::external_type_specification]
#[verifier::external_body]
pub struct ExUtf8Error(core::str::Utf8Error);

/// What `String::from_utf8_lossy` makes of a byte string: its text, with
/// U+FFFD in the place of every malformed sequence.
pub uninterp spec fn utf8_lossy_text(bytes: Seq<u8>) -> Seq<char>;

/// `core::str::from_utf8` accepts exactly the well-formed UTF-8 byte strings,
/// and hands back the same bytes as a string.
pub assume_specification[ core::str::from_utf8 ](v: &[u8]) -> (text: Result<
    &str,
    core::str::Utf8Error,
>)
    ensures
        text is Ok <==> valid_utf8(v@),
        text matches Ok(s) ==> s.spec_bytes() == v@,
;

/// `String::from_utf8_lossy`, as an owned string. Of well-formed UTF-8 it
/// changes nothing; in any other input it replaces what is malformed, so
/// that U+FFFD occurs in the text.
#[verifier::external_body]
pub(crate) fn utf8_lossy(bytes: &[u8]) -> (text: String)
    ensures
        text@ == utf8_lossy_text(bytes@),
        valid_utf8(bytes@) ==> text@ == decode_utf8(bytes@),
        !valid_utf8(bytes@) ==> text@.contains(replacement()),
{
    String::from_utf8_lossy(bytes).into_owned()
}

/// `widestring::decode_utf16`, collected into a string: the text of the
/// units where every item is a character, else the error of the first item
/// that is none.
#[verifier::external_body]
pub(crate) fn decode_utf16(units: &[u16]) -> (text: Result<
    String,
    widestring::error::DecodeUtf16Error,
>)
    ensures
        match strict_text(utf16_items(units@)) {
            Some(t) => text matches Ok(s) && s@ == t,
            None => text is Err,
        },
{
    widestring::decode_utf16(units.iter().copied()).collect()
}

/// `widestring::decode_utf16_lossy`, collected into a string: U+FFFD stands
/// for each unpaired surrogate.
#[verifier::external_body]
pub(crate) fn decode_utf16_lossy(units: &[u16]) -> (text: String)
    ensures
        text@ == lossy_text(utf16_items(units@)),
{
    widestring::decode_utf16_lossy(units.iter().copied()).collect()
}

/// `widestring::decode_utf32`, collected into a string: the text of the
/// units where each of them is a character, else the error of the first that
/// is none.
#[verifier::external_body]
pub(crate) fn decode_utf32(units: &[u32]) -> (text: Result<
    String,
    widestring::error::DecodeUtf32Error,
>)
    ensures
        match strict_text(utf32_items(units@)) {
            Some(t) => text matches Ok(s) && s@ == t,
            None => text is Err,
        },
{
    widestring::decode_utf32(units.iter().copied()).collect()
}

/// `widestring::decode_utf32_lossy`, collected into a string: U+FFFD stands
/// for each unit that is no character.
#[verifier::external_body]
pub(crate) fn decode_utf32_lossy(units: &[u32]) -> (text: String)
    ensures
        text@ == lossy_text(utf32_items(units@)),
{
    widestring::decode_utf32_lossy(units.iter().copied()).collect()
}

/// `widestring::encode_utf16` over the characters of a string.
#[verifier::external_body]
pub(crate) fn encode_utf16(text: &str) -> (units: Vec<u16>)
    ensures
        units@ == utf16_encode(text@),
{
    widestring::encode_utf16(text.chars()).collect()
}

/// `widestring::encode_utf32` over the characters of a string.
#[verifier::external_body]
pub(crate) fn encode_utf32(text: &str) -> (units: Vec<u32>)
    ensures
        units@ == utf32_encode(text@),
{
    widestring::encode_utf32(text.chars()).collect()
}

/// `windows_sys`'s `MB_ERR_INVALID_CHARS`: the flag that makes the system
/// fail on malformed input on the way to wide characters.
#[verifier::external_body]
pub(crate) fn mb_err_invalid_chars() -> (flag: u32)
    ensures
        flag == 8,
{
    windows_sys::Win32::Globalization::MB_ERR_INVALID_CHARS
}

/// `windows_sys`'s `WC_ERR_INVALID_CHARS`: the flag that makes the system
/// fail on malformed wide characters on the way out of them.
#[verifier::external_body]
pub(crate) fn wc_err_invalid_chars() -> (flag: u32)
    ensures
        flag == 128,
{
    windows_sys::Win32::Globalization::WC_ERR_INVALID_CHARS
}

/// `windows_sys`'s `ERROR_INVALID_PARAMETER`.
#[verifier::external_body]
pub(crate) fn error_invalid_parameter() -> (code: u32)
    ensures
        code == 87,
{
    windows_sys::Win32::Foundation::ERROR_INVALID_PARAMETER
}

/// `windows_sys`'s `ERROR_INVALID_FLAGS`.
#[verifier::external_body]
pub(crate) fn error_invalid_flags() -> (code: u32)
    ensures
        code == 1004,
{
    windows_sys::Win32::Foundation::ERROR_INVALID_FLAGS
}

} // verus!
