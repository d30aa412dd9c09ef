//! Lossy decoding of UTF-16 and UTF-32 straight from a label, where the
//! mark in the input outranks the byte order that the label names.

use vstd::prelude::*;
use vstd::string::{StringExecFns, StringSliceAdditionalSpecFns};

use crate::bom::{get_utf16_bom, get_utf32_bom, utf16_bom_of, utf32_bom_of, ByteOrderMark};
use crate::codepage::lit;
use crate::encoding::{
    bytes_eq_ignore_ascii_case, bytes_of_each, eq_ignore_ascii_case, match_encoding_parts,
    match_parts,
};
use crate::utf::decode_lossy::{
    decode_utf16_lossy_inner, decode_utf32_lossy_inner, lossy_utf16, lossy_utf32,
};
use crate::utf::encode::mark_char;

verus! {

/// The byte order in which such input is read: that of the mark, else big
/// endian where the label ends in `be`, whatever the case, else little endian.
pub open spec fn read_as_le(mark: ByteOrderMark, rest: Seq<u8>) -> bool {
    match mark {
        ByteOrderMark::Le => true,
        ByteOrderMark::Be => false,
        ByteOrderMark::NotPresent => !eq_ignore_ascii_case(rest, lit("be")),
    }
}

/// What follows the mark of `len` bytes, or all of `bytes` without a mark.
pub open spec fn after_mark(bytes: Seq<u8>, mark: ByteOrderMark, len: int) -> Seq<u8> {
    if mark != ByteOrderMark::NotPresent {
        bytes.skip(len)
    } else {
        bytes
    }
}

/// U+FEFF where the input had a mark and the caller wants to keep it.
pub open spec fn kept_mark(mark: ByteOrderMark, keep_bom: bool) -> Seq<char> {
    if keep_bom && mark != ByteOrderMark::NotPresent {
        seq![mark_char()]
    } else {
        Seq::empty()
    }
}

/// The text of UTF-32 input under a label that starts with `utf` and `32`,
/// malformed parts replaced; `None` under any other label.
pub open spec fn utf32_text_lossy(bytes: Seq<u8>, label: Seq<u8>, keep_bom: bool) -> Option<
    Seq<char>,
> {
    match match_parts(label, bytes_of_each(seq!["utf", "32"])) {
        Some(rest) => {
            let mark = utf32_bom_of(bytes);
            Some(
                kept_mark(mark, keep_bom) + lossy_utf32(
                    after_mark(bytes, mark, 4),
                    read_as_le(mark, rest),
                ),
            )
        },
        None => None,
    }
}

/// The text of UTF-16 input under a label that starts with `utf` and `16`,
/// malformed parts replaced; `None` under any other label.
pub open spec fn utf16_text_lossy(bytes: Seq<u8>, label: Seq<u8>) -> Option<Seq<char>> {
    match match_parts(label, bytes_of_each(seq!["utf", "16"])) {
        Some(rest) => {
            let mark = utf16_bom_of(bytes);
            Some(lossy_utf16(after_mark(bytes, mark, 2), read_as_le(mark, rest)))
        },
        None => None,
    }
}

/// Whether a decoded text is the expected one, if one is expected at all.
pub open spec fn is_text(result: Option<String>, text: Option<Seq<char>>) -> bool {
    match text {
        Some(t) => result matches Some(s) && s@ == t,
        None => result is None,
    }
}

/// Decodes UTF-32 lossily where `encoding` starts with `utf` and `32`. A mark
/// at the start of the input gives the byte order and is no part of the
/// text, unless `keep_bom` asks for it to stay as U+FEFF.
pub fn try_decode_utf32_lossy(input: &[u8], encoding: &str, keep_bom: bool) -> (result: Option<
    String,
>)
    ensures
        is_text(result, utf32_text_lossy(input@, encoding.spec_bytes(), keep_bom)),
{
    let parts: [&str; 2] = ["utf", "32"];
    assert(parts@ =~= seq!["utf", "32"]);
    let rest = match match_encoding_parts(encoding, &parts) {
        Some(rest) => rest,
        None => {
            return None;
        },
    };
    let mark = get_utf32_bom(input);
    let le = match mark {
        ByteOrderMark::Le => true,
        ByteOrderMark::Be => false,
        ByteOrderMark::NotPresent => !bytes_eq_ignore_ascii_case(
            rest.as_bytes(),
            "be".as_bytes(),
        ),
    };
    let body: &[u8] = if mark.is_present() {
        &input[4..input.len()]
    } else {
        input
    };
    let mut text = String::new();
    if keep_bom && mark.is_present() {
        proof {
            reveal_strlit("\u{feff}");
        }
        text.append("\u{feff}");
        assert(text@ =~= seq![mark_char()]);
    }
    let decoded = decode_utf32_lossy_inner(body, le);
    text.append(decoded.as_str());
    Some(text)
}

/// Decodes UTF-16 lossily where `encoding` starts with `utf` and `16`. A mark
/// at the start of the input gives the byte order and is no part of the text.
pub fn try_decode_utf16_lossy(input: &[u8], encoding: &str) -> (result: Option<String>)
    ensures
        is_text(result, utf16_text_lossy(input@, encoding.spec_bytes())),
{
    let parts: [&str; 2] = ["utf", "16"];
    assert(parts@ =~= seq!["utf", "16"]);
    let rest = match match_encoding_parts(encoding, &parts) {
        Some(rest) => rest,
        None => {
            return None;
        },
    };
    let mark = get_utf16_bom(input);
    let le = match mark {
        ByteOrderMark::Le => true,
        ByteOrderMark::Be => false,
        ByteOrderMark::NotPresent => !bytes_eq_ignore_ascii_case(
            rest.as_bytes(),
            "be".as_bytes(),
        ),
    };
    let body: &[u8] = if mark.is_present() {
        &input[2..input.len()]
    } else {
        input
    };
    Some(decode_utf16_lossy_inner(body, le))
}

} // verus!
