//! Lossy decoding: U+FFFD stands for whatever is malformed, and nothing fails.

use vstd::prelude::*;
use vstd::string::StringExecFns;

use crate::bridge;
use crate::bridge::utf8_lossy_text;
use crate::scalars::{
    lemma_lossy_is_strict, lemma_lossy_shows_failure, lossy_text, replacement, utf16_items,
    utf32_items,
};
use crate::units::{read_units16, read_units32, units16, units32};
use crate::utf::decode::{decoded, input_body, input_is_le, strict_utf16, strict_utf32};
use crate::utf::{UtfEncoding, UtfType};

verus! {

/// One U+FFFD for the bytes after the last whole code unit, if there are any.
pub open spec fn partial_tail(len: nat, width: nat) -> Seq<char> {
    if len % width != 0 {
        seq![replacement()]
    } else {
        Seq::empty()
    }
}

/// The text of UTF-16 in the given byte order, malformed parts replaced.
pub open spec fn lossy_utf16(body: Seq<u8>, le: bool) -> Seq<char> {
    lossy_text(utf16_items(units16(body, le))) + partial_tail(body.len(), 2)
}

/// The text of UTF-32 in the given byte order, malformed parts replaced.
pub open spec fn lossy_utf32(body: Seq<u8>, le: bool) -> Seq<char> {
    lossy_text(utf32_items(units32(body, le))) + partial_tail(body.len(), 4)
}

/// The text that `bytes` holds in a Unicode encoding, malformed parts replaced.
pub open spec fn decoded_lossy(bytes: Seq<u8>, encoding: UtfEncoding) -> Seq<char> {
    let body = input_body(bytes, encoding);
    let le = input_is_le(bytes, encoding);
    match encoding.utf_type {
        UtfType::Utf8 => utf8_lossy_text(body),
        UtfType::Utf16 => lossy_utf16(body, le),
        UtfType::Utf32 => lossy_utf32(body, le),
    }
}

/// Appends U+FFFD to `text` where `len` bytes do not divide into units of
/// `width` bytes.
pub(crate) fn push_partial_tail(text: &mut String, len: usize, width: usize)
    requires
        width > 0,
    ensures
        final(text)@ == old(text)@ + partial_tail(len as nat, width as nat),
{
    if len % width != 0 {
        proof {
            reveal_strlit("\u{FFFD}");
        }
        text.append("\u{FFFD}");
        assert("\u{FFFD}"@ =~= seq![replacement()]);
    } else {
        assert(text@ + Seq::<char>::empty() =~= text@);
    }
}

pub(crate) fn decode_utf16_lossy_inner(input: &[u8], le: bool) -> (text: String)
    ensures
        text@ == lossy_utf16(input@, le),
{
    let units = read_units16(input, le);
    let mut text = bridge::decode_utf16_lossy(units.as_slice());
    push_partial_tail(&mut text, input.len(), 2);
    text
}

pub(crate) fn decode_utf32_lossy_inner(input: &[u8], le: bool) -> (text: String)
    ensures
        text@ == lossy_utf32(input@, le),
{
    let units = read_units32(input, le);
    let mut text = bridge::decode_utf32_lossy(units.as_slice());
    push_partial_tail(&mut text, input.len(), 4);
    text
}

/// What is malformed shows: where UTF-16 or UTF-32 does not decode
/// strictly, U+FFFD occurs in what lossy decoding gives.
pub proof fn lemma_failure_shows(body: Seq<u8>, le: bool)
    ensures
        strict_utf16(body, le) is None ==> lossy_utf16(body, le).contains(replacement()),
        strict_utf32(body, le) is None ==> lossy_utf32(body, le).contains(replacement()),
{
    if strict_utf16(body, le) is None {
        let whole = lossy_text(utf16_items(units16(body, le)));
        let text = lossy_utf16(body, le);
        if body.len() % 2 != 0 {
            assert(text[text.len() - 1] == replacement());
        } else {
            lemma_lossy_shows_failure(utf16_items(units16(body, le)));
            let i = choose|i: int| 0 <= i < whole.len() && whole[i] == replacement();
            assert(text[i] == replacement());
        }
    }
    if strict_utf32(body, le) is None {
        let whole = lossy_text(utf32_items(units32(body, le)));
        let text = lossy_utf32(body, le);
        if body.len() % 4 != 0 {
            assert(text[text.len() - 1] == replacement());
        } else {
            lemma_lossy_shows_failure(utf32_items(units32(body, le)));
            let i = choose|i: int| 0 <= i < whole.len() && whole[i] == replacement();
            assert(text[i] == replacement());
        }
    }
}

/// Decodes `input` in a Unicode encoding and never fails: each malformed
/// unit, each surrogate without its partner and a last incomplete unit
/// becomes one U+FFFD. Where strict decoding succeeds, the text is the
/// same; where it fails, U+FFFD occurs in the text.
pub fn decode_utf_lossy(input: &[u8], encoding: UtfEncoding) -> (text: String)
    ensures
        text@ == decoded_lossy(input@, encoding),
        decoded(input@, encoding) matches Some(t) ==> text@ == t,
        decoded(input@, encoding) is None ==> text@.contains(replacement()),
{
    let mut body: &[u8] = input;
    let byte_order = encoding.consume_input_bom(&mut body);
    let le = byte_order.is_le(true);
    proof {
        lemma_failure_shows(body@, le);
    }
    match encoding.utf_type {
        UtfType::Utf16 => {
            proof {
                if decoded(input@, encoding) is Some {
                    lemma_lossy_is_strict(utf16_items(units16(body@, le)));
                    assert(lossy_utf16(body@, le) =~= lossy_text(utf16_items(units16(body@, le))));
                }
            }
            decode_utf16_lossy_inner(body, le)
        },
        UtfType::Utf32 => {
            proof {
                if decoded(input@, encoding) is Some {
                    lemma_lossy_is_strict(utf32_items(units32(body@, le)));
                    assert(lossy_utf32(body@, le) =~= lossy_text(utf32_items(units32(body@, le))));
                }
            }
            decode_utf32_lossy_inner(body, le)
        },
        UtfType::Utf8 => bridge::utf8_lossy(body),
    }
}

} // verus!
