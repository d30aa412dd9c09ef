//! UTF-16 input as wide characters.

use vstd::prelude::*;

use crate::bridge;
use crate::error::ConvertError;
use crate::units::{read_units16, units16};
use crate::utf::decode::strict_utf16;

verus! {

/// The unit U+FFFD where `len` bytes do not divide into units of `width`
/// bytes.
pub open spec fn partial_unit(len: nat, width: nat) -> Seq<u16> {
    if len % width != 0 {
        seq![0xFFFDu16]
    } else {
        Seq::empty()
    }
}

/// The units of UTF-16 input as they are, surrogates and all, and U+FFFD
/// for a last odd byte.
pub fn utf16_to_wide_lossy(input: &[u8], le: bool) -> (wide: Vec<u16>)
    ensures
        wide@ == units16(input@, le) + partial_unit(input@.len(), 2),
{
    let mut wide = read_units16(input, le);
    if input.len() % 2 != 0 {
        wide.push(0xFFFD);
        assert(wide@ =~= units16(input@, le) + seq![0xFFFDu16]);
    } else {
        assert(wide@ =~= units16(input@, le) + Seq::<u16>::empty());
    }
    wide
}

/// The units of well-formed UTF-16 input; `InvalidInput` for an odd number
/// of bytes or a surrogate without its partner.
pub fn utf16_to_wide(input: &[u8], le: bool) -> (wide: Result<Vec<u16>, ConvertError>)
    ensures
        match strict_utf16(input@, le) {
            Some(_) => wide matches Ok(w) && w@ == units16(input@, le),
            None => wide matches Err(e) && e == ConvertError::InvalidInput,
        },
{
    if input.len() % 2 != 0 {
        return Err(ConvertError::InvalidInput);
    }
    let wide = read_units16(input, le);
    match bridge::decode_utf16(wide.as_slice()) {
        Ok(_) => Ok(wide),
        Err(_) => Err(ConvertError::InvalidInput),
    }
}

} // verus!
