//! The Unicode encodings that are converted without a native converter, and
//! what each of them does with a byte-order mark at the start of its input.

use vstd::prelude::*;
use vstd::string::StringSliceAdditionalSpecFns;

use crate::bom::{
    get_utf16_bom, get_utf32_bom, get_utf8_bom, utf16_bom_of, utf32_bom_of, utf8_bom_of,
    ByteOrderMark,
};
use crate::encoding::{
    bytes_eq_ignore_ascii_case, bytes_of_option, bytes_start_with, eq_ignore_ascii_case,
    trim_encoding_prefix, trim_prefix,
};

pub mod decode;
pub mod decode_lossy;
pub mod encode;

pub use decode::decode_utf;
pub use decode_lossy::decode_utf_lossy;
pub use encode::{encode_utf, string_to_utf16, string_to_utf32};

verus! {

/// The width of the code units of a Unicode encoding.
#[derive(Debug, Clone, Copy, PartialEq, Eq, Structural)]
pub enum UtfType {
    /// Code units of one byte.
    Utf8,
    /// Code units of two bytes.
    Utf16,
    /// Code units of four bytes.
    Utf32,
}

/// A Unicode encoding: the width of its code units and the byte order that
/// its label names, `NotPresent` where the label names none.
#[derive(Debug, Clone, Copy, PartialEq, Eq, Structural)]
pub struct UtfEncoding {
    /// The width of the code units.
    pub utf_type: UtfType,
    /// The byte order named by the label.
    pub byte_order: ByteOrderMark,
}

/// The byte order that the end of a label names: `le` or `be`, in whatever
/// case, or nothing.
pub open spec fn byte_order_of(rest: Option<Seq<u8>>) -> Option<ByteOrderMark> {
    match rest {
        Some(r) => if eq_ignore_ascii_case(r, "le".spec_bytes()) {
            Some(ByteOrderMark::Le)
        } else if eq_ignore_ascii_case(r, "be".spec_bytes()) {
            Some(ByteOrderMark::Be)
        } else if r.len() == 0 {
            Some(ByteOrderMark::NotPresent)
        } else {
            None
        },
        None => None,
    }
}

/// The encoding of a given width whose label ends in `rest`.
pub open spec fn with_byte_order(utf_type: UtfType, rest: Option<Seq<u8>>) -> Option<UtfEncoding> {
    match byte_order_of(rest) {
        Some(byte_order) => Some(UtfEncoding { utf_type, byte_order }),
        None => None,
    }
}

/// The Unicode encoding that a label names: `utf`, then `8`, `16` or `32`,
/// then the byte order if any, with at most one separator between them and
/// the case of letters ignored throughout.
pub open spec fn parse_label(label: Seq<u8>) -> Option<UtfEncoding> {
    match trim_prefix(label, "utf".spec_bytes()) {
        Some(rest) => if "8".spec_bytes().is_prefix_of(rest) {
            with_byte_order(UtfType::Utf8, trim_prefix(rest, "8".spec_bytes()))
        } else if "16".spec_bytes().is_prefix_of(rest) {
            with_byte_order(UtfType::Utf16, trim_prefix(rest, "16".spec_bytes()))
        } else if "32".spec_bytes().is_prefix_of(rest) {
            with_byte_order(UtfType::Utf32, trim_prefix(rest, "32".spec_bytes()))
        } else {
            None
        },
        None => None,
    }
}

/// Whether a label names an encoding that needs a mark, or a default, to
/// give its byte order: UTF-16 or UTF-32 without one.
pub open spec fn label_is_ambiguous(label: Seq<u8>) -> bool {
    parse_label(label) matches Some(encoding) && encoding.ambiguous()
}

/// Whether a label names UTF-16 or UTF-32 without a byte order.
pub fn is_byte_order_ambiguous(label: &str) -> (ambiguous: bool)
    ensures
        ambiguous == label_is_ambiguous(label.spec_bytes()),
{
    match UtfEncoding::parse(label) {
        Some(encoding) => encoding.is_ambiguous(),
        None => false,
    }
}

/// Reads the byte order at the end of a label.
fn parse_byte_order(utf_type: UtfType, rest: Option<&str>) -> (encoding: Option<UtfEncoding>)
    ensures
        encoding == with_byte_order(utf_type, bytes_of_option(rest)),
{
    match rest {
        Some(r) => {
            let bytes = r.as_bytes();
            if bytes_eq_ignore_ascii_case(bytes, "le".as_bytes()) {
                Some(UtfEncoding { utf_type, byte_order: ByteOrderMark::Le })
            } else if bytes_eq_ignore_ascii_case(bytes, "be".as_bytes()) {
                Some(UtfEncoding { utf_type, byte_order: ByteOrderMark::Be })
            } else if bytes.len() == 0 {
                Some(UtfEncoding { utf_type, byte_order: ByteOrderMark::NotPresent })
            } else {
                None
            }
        },
        None => None,
    }
}

impl UtfEncoding {
    /// Reads a label as the name of a Unicode encoding.
    pub fn parse(s: &str) -> (encoding: Option<Self>)
        ensures
            encoding == parse_label(s.spec_bytes()),
    {
        let rest = match trim_encoding_prefix(s, "utf") {
            Some(rest) => rest,
            None => {
                return None;
            },
        };
        let bytes = rest.as_bytes();
        if bytes_start_with(bytes, "8".as_bytes()) {
            parse_byte_order(UtfType::Utf8, trim_encoding_prefix(rest, "8"))
        } else if bytes_start_with(bytes, "16".as_bytes()) {
            parse_byte_order(UtfType::Utf16, trim_encoding_prefix(rest, "16"))
        } else if bytes_start_with(bytes, "32".as_bytes()) {
            parse_byte_order(UtfType::Utf32, trim_encoding_prefix(rest, "32"))
        } else {
            None
        }
    }

    /// An encoding is ambiguous where its code units have more than one byte
    /// and its label names no byte order.
    pub open spec fn ambiguous(self) -> bool {
        self.utf_type != UtfType::Utf8 && self.byte_order == ByteOrderMark::NotPresent
    }

    /// Whether a reader needs a mark, or a default, to know the byte order.
    pub fn is_ambiguous(&self) -> (ambiguous: bool)
        ensures
            ambiguous == self.ambiguous(),
    {
        !self.is_utf8() && !self.byte_order.is_present()
    }

    /// The width of the code units.
    pub fn utf_type(&self) -> (utf_type: UtfType)
        ensures
            utf_type == self.utf_type,
    {
        self.utf_type
    }

    /// The byte order named by the label.
    pub fn byte_order(&self) -> (byte_order: ByteOrderMark)
        ensures
            byte_order == self.byte_order,
    {
        self.byte_order
    }

    /// Whether this is UTF-8.
    pub fn is_utf8(&self) -> (yes: bool)
        ensures
            yes == (self.utf_type == UtfType::Utf8),
    {
        matches!(self.utf_type, UtfType::Utf8)
    }

    /// Whether this is UTF-16, of whatever byte order.
    pub fn is_utf16(&self) -> (yes: bool)
        ensures
            yes == (self.utf_type == UtfType::Utf16),
    {
        matches!(self.utf_type, UtfType::Utf16)
    }

    /// Whether this is UTF-32, of whatever byte order.
    pub fn is_utf32(&self) -> (yes: bool)
        ensures
            yes == (self.utf_type == UtfType::Utf32),
    {
        matches!(self.utf_type, UtfType::Utf32)
    }

    /// How many bytes `strip_bom` removes from the start of `bytes`: the
    /// length of the UTF-8 mark where this is UTF-8 and the mark is there, the
    /// length of the mark of the named byte order where this is UTF-16 or
    /// UTF-32 with a byte order and that very mark is there, and 0 otherwise.
    pub open spec fn stripped_len(self, bytes: Seq<u8>) -> nat {
        match self.utf_type {
            UtfType::Utf8 => if utf8_bom_of(bytes) != ByteOrderMark::NotPresent {
                3
            } else {
                0
            },
            UtfType::Utf16 => if self.byte_order != ByteOrderMark::NotPresent && utf16_bom_of(bytes)
                == self.byte_order {
                2
            } else {
                0
            },
            UtfType::Utf32 => if self.byte_order != ByteOrderMark::NotPresent && utf32_bom_of(bytes)
                == self.byte_order {
                4
            } else {
                0
            },
        }
    }

    /// Removes from the start of `input` the mark that belongs to this
    /// encoding, and says whether there was one.
    pub fn strip_bom(&self, input: &mut &[u8]) -> (stripped: bool)
        ensures
            final(input)@ == old(input)@.skip(self.stripped_len(old(input)@) as int),
            stripped == (self.stripped_len(old(input)@) > 0),
    {
        let bytes: &[u8] = *input;
        let n: usize = match self.utf_type {
            UtfType::Utf8 => if get_utf8_bom(bytes).is_present() {
                3
            } else {
                0
            },
            UtfType::Utf16 => if self.byte_order.is_present() && get_utf16_bom(bytes)
                == self.byte_order {
                2
            } else {
                0
            },
            UtfType::Utf32 => if self.byte_order.is_present() && get_utf32_bom(bytes)
                == self.byte_order {
                4
            } else {
                0
            },
        };
        *input = &bytes[n..bytes.len()];
        n > 0
    }

    /// The byte order in which input in this encoding is to be read: the one
    /// that the label names, else the one of the mark that `bytes` starts
    /// with, else `NotPresent`.
    pub open spec fn input_byte_order(self, bytes: Seq<u8>) -> ByteOrderMark {
        if !self.ambiguous() {
            self.byte_order
        } else if self.utf_type == UtfType::Utf16 {
            utf16_bom_of(bytes)
        } else {
            utf32_bom_of(bytes)
        }
    }

    /// How many bytes `consume_input_bom` removes from the start of `bytes`:
    /// the length of the mark where this encoding is ambiguous and `bytes`
    /// starts with a mark of its width, 0 otherwise.
    pub open spec fn consumed_len(self, bytes: Seq<u8>) -> nat {
        if self.ambiguous() && self.input_byte_order(bytes) != ByteOrderMark::NotPresent {
            if self.utf_type == UtfType::Utf16 {
                2
            } else {
                4
            }
        } else {
            0
        }
    }

    /// Settles the byte order of the input. Only an ambiguous encoding looks
    /// at the input, and removes the mark that it finds there.
    pub fn consume_input_bom(&self, input: &mut &[u8]) -> (byte_order: ByteOrderMark)
        ensures
            byte_order == self.input_byte_order(old(input)@),
            final(input)@ == old(input)@.skip(self.consumed_len(old(input)@) as int),
    {
        let bytes: &[u8] = *input;
        if !self.is_ambiguous() {
            assert(bytes@.skip(0) =~= bytes@);
            return self.byte_order;
        }
        let (mark, len): (ByteOrderMark, usize) = match self.utf_type {
            UtfType::Utf16 => (get_utf16_bom(bytes), 2),
            _ => (get_utf32_bom(bytes), 4),
        };
        if mark.is_present() {
            *input = &bytes[len..bytes.len()];
            mark
        } else {
            assert(bytes@.skip(0) =~= bytes@);
            self.byte_order
        }
    }
}

} // verus!
