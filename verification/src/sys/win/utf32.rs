//! UTF-32 on either side of wide characters.

use vstd::prelude::*;

use crate::bridge;
use crate::error::ConvertError;
use crate::scalars::{lossy_text, strict_text, utf16_encode, utf16_items, utf32_encode, utf32_items};
use crate::sys::win::utf16::partial_unit;
use crate::units::{bytes32, read_units32, units32, write_units32};
use crate::utf::decode::strict_utf32;

verus! {

/// The text of UTF-32 input as wide characters, with U+FFFD for each unit
/// that is no character and for a last incomplete unit.
pub fn utf32_to_wide_lossy(input: &[u8], le: bool) -> (wide: Vec<u16>)
    ensures
        wide@ == utf16_encode(lossy_text(utf32_items(units32(input@, le)))) + partial_unit(
            input@.len(),
            4,
        ),
{
    let units = read_units32(input, le);
    let text = bridge::decode_utf32_lossy(units.as_slice());
    let mut wide = bridge::encode_utf16(text.as_str());
    if input.len() % 4 != 0 {
        wide.push(0xFFFD);
        assert(wide@ =~= utf16_encode(text@) + seq![0xFFFDu16]);
    } else {
        assert(wide@ =~= utf16_encode(text@) + Seq::<u16>::empty());
    }
    wide
}

/// The text of well-formed UTF-32 input as wide characters; `InvalidInput`
/// for input that does not divide into units or holds a unit that is no
/// character.
pub fn utf32_to_wide(input: &[u8], le: bool) -> (wide: Result<Vec<u16>, ConvertError>)
    ensures
        match strict_utf32(input@, le) {
            Some(text) => wide matches Ok(w) && w@ == utf16_encode(text),
            None => wide matches Err(e) && e == ConvertError::InvalidInput,
        },
{
    if input.len() % 4 != 0 {
        return Err(ConvertError::InvalidInput);
    }
    let units = read_units32(input, le);
    match bridge::decode_utf32(units.as_slice()) {
        Ok(text) => Ok(bridge::encode_utf16(text.as_str())),
        Err(_) => Err(ConvertError::InvalidInput),
    }
}

/// Wide characters as UTF-32, with U+FFFD for each surrogate without its
/// partner.
pub fn wide_to_utf32_lossy(input: &[u16], le: bool) -> (bytes: Vec<u8>)
    ensures
        bytes@ == bytes32(utf32_encode(lossy_text(utf16_items(input@))), le),
{
    let text = bridge::decode_utf16_lossy(input);
    let units = bridge::encode_utf32(text.as_str());
    let mut bytes: Vec<u8> = Vec::new();
    write_units32(&mut bytes, units.as_slice(), le);
    assert(bytes@ =~= bytes32(units@, le));
    bytes
}

/// Well-formed wide characters as UTF-32; `InvalidInput` for a surrogate
/// without its partner.
pub fn wide_to_utf32(input: &[u16], le: bool) -> (bytes: Result<Vec<u8>, ConvertError>)
    ensures
        match strict_text(utf16_items(input@)) {
            Some(text) => bytes matches Ok(b) && b@ == bytes32(utf32_encode(text), le),
            None => bytes matches Err(e) && e == ConvertError::InvalidInput,
        },
{
    match bridge::decode_utf16(input) {
        Ok(text) => {
            let units = bridge::encode_utf32(text.as_str());
            let mut bytes: Vec<u8> = Vec::new();
            write_units32(&mut bytes, units.as_slice(), le);
            assert(bytes@ =~= bytes32(units@, le));
            Ok(bytes)
        },
        Err(_) => Err(ConvertError::InvalidInput),
    }
}

} // verus!
