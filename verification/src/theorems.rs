//! What holds of conversion as a whole, proved from the specifications of
//! its parts.

use vstd::prelude::*;
use vstd::utf8::{
    decode_utf8, decode_utf8_encode_utf8, encode_utf8_decode_utf8, encode_utf8_valid_utf8,
};

use crate::bom::{utf16_mark, utf32_mark};
use crate::dispatch::{
    converted, converted_lossy, names_utf8, resolved, route_of, same_label, transcoded,
    ConversionView, Encoding, Route,
};
use crate::error::ConvertError;
use crate::scalars::{
    lemma_char_is_scalar_value, lemma_lossy_is_strict, lemma_utf16_decode_of_encode,
    lemma_utf16_encode_of_decode, lemma_utf32_decode_of_encode, lemma_utf32_encode_of_decode,
    lossy_text, replacement, strict_text, utf16_encode, utf16_items, utf16_units_of,
    utf32_encode, utf32_items,
};
use crate::labels::{
    lemma_same_spelling_same_label, same_spelling, theorem_labels_agree,
    theorem_same_spelling_same_encoding, wide_codepage_of,
};
use crate::sys::win::first_step_by_label;
use crate::sys::win::wide::{brings_mark, first_step, StepView};
use crate::units::{
    lemma_bytes16_concat, lemma_bytes16_of_units16, lemma_bytes32_concat,
    lemma_bytes32_of_units32, lemma_units16_of_bytes16, lemma_units32_of_bytes32, units16,
    units32,
};
use crate::utf::decode::{decoded, input_body, input_is_le, strict_utf16, strict_utf32};
use crate::utf::decode_lossy::{decoded_lossy, lemma_failure_shows, lossy_utf16, lossy_utf32};
use crate::utf::encode::{
    encoded, lemma_utf16_mark_is_char, lemma_utf32_mark_is_char, mark_char, needs_mark,
    starts_with_mark, utf16_bytes, utf32_bytes,
};
use crate::utf::{parse_label, UtfEncoding, UtfType};

verus! {

/// Text written in an encoding that names its byte order reads back as the
/// same text.
pub proof fn theorem_decode_of_encode(text: Seq<char>, encoding: UtfEncoding)
    requires
        !encoding.ambiguous(),
    ensures
        decoded(encoded(text, encoding), encoding) == Some(text),
{
    let bytes = encoded(text, encoding);
    let le = encoding.byte_order.le_or(true);
    assert(input_body(bytes, encoding) =~= bytes);
    match encoding.utf_type {
        UtfType::Utf8 => {
            encode_utf8_valid_utf8(text);
            encode_utf8_decode_utf8(text);
        },
        UtfType::Utf16 => {
            assert(bytes =~= utf16_bytes(text, le));
            lemma_units16_of_bytes16(utf16_encode(text), le);
            lemma_utf16_decode_of_encode(text);
        },
        UtfType::Utf32 => {
            assert(bytes =~= utf32_bytes(text, le));
            lemma_units32_of_bytes32(utf32_encode(text), le);
            lemma_utf32_decode_of_encode(text);
        },
    }
}

/// Well-formed input in an encoding that names its byte order is the only
/// way to write its text in that encoding.
pub proof fn theorem_encode_of_decode(bytes: Seq<u8>, encoding: UtfEncoding)
    requires
        !encoding.ambiguous(),
        decoded(bytes, encoding) is Some,
    ensures
        encoded(decoded(bytes, encoding)->0, encoding) == bytes,
{
    let text = decoded(bytes, encoding)->0;
    let le = encoding.byte_order.le_or(true);
    assert(input_body(bytes, encoding) =~= bytes);
    match encoding.utf_type {
        UtfType::Utf8 => {
            decode_utf8_encode_utf8(bytes);
        },
        UtfType::Utf16 => {
            lemma_utf16_encode_of_decode(units16(bytes, le));
            lemma_bytes16_of_units16(bytes, le);
            assert(encoded(text, encoding) =~= utf16_bytes(text, le));
        },
        UtfType::Utf32 => {
            lemma_utf32_encode_of_decode(units32(bytes, le));
            lemma_bytes32_of_units32(bytes, le);
            assert(encoded(text, encoding) =~= utf32_bytes(text, le));
        },
    }
}

/// Round trip: between two Unicode encodings that name their byte order,
/// converting well-formed input there and back gives the input again, byte
/// for byte.
pub proof fn theorem_round_trip(bytes: Seq<u8>, from: UtfEncoding, to: UtfEncoding)
    requires
        !from.ambiguous(),
        !to.ambiguous(),
        transcoded(bytes, from, to) is Ok,
    ensures
        transcoded(transcoded(bytes, from, to)->Ok_0, to, from) == Ok::<Seq<u8>, ConvertError>(
            bytes,
        ),
{
    let text = decoded(bytes, from)->0;
    theorem_decode_of_encode(text, to);
    theorem_encode_of_decode(bytes, from);
}

/// Label equivalence: conversion between Unicode encodings does not depend
/// on how their labels are spelled. Labels that differ, byte by byte, in
/// nothing but the case of letters and the choice of separator take the
/// same route and give the same result.
pub proof fn theorem_spelling_does_not_count(
    bytes: Seq<u8>,
    from: Seq<u8>,
    to: Seq<u8>,
    other_from: Seq<u8>,
    other_to: Seq<u8>,
)
    requires
        same_spelling(from, other_from),
        same_spelling(to, other_to),
        parse_label(from) is Some,
        parse_label(to) is Some,
    ensures
        route_of(from, to) == route_of(other_from, other_to),
        converted(bytes, from, to) == converted(bytes, other_from, other_to),
        converted_lossy(bytes, from, to) == converted_lossy(bytes, other_from, other_to),
{
    theorem_same_spelling_same_encoding(from, other_from);
    theorem_same_spelling_same_encoding(to, other_to);
    lemma_same_spelling_same_label(from, other_from);
    lemma_same_spelling_same_label(to, other_to);
}

/// Round trip, by labels: where both labels name a Unicode encoding with its
/// byte order and the input converts, converting the output back gives the
/// input again.
pub proof fn theorem_round_trip_by_label(bytes: Seq<u8>, from: Seq<u8>, to: Seq<u8>)
    requires
        parse_label(from) matches Some(encoding) && !encoding.ambiguous(),
        parse_label(to) matches Some(encoding) && !encoding.ambiguous(),
        converted(bytes, from, to) is Ok,
    ensures
        converted(bytes, from, to) matches Ok(ConversionView::Done(output)) && converted(
            output,
            to,
            from,
        ) == Ok::<ConversionView, ConvertError>(ConversionView::Done(bytes)),
{
    match route_of(from, to) {
        Route::Codec { from: a, to: b } => {
            theorem_round_trip(bytes, a, b);
        },
        _ => {},
    }
}

/// Identity: between two labels that name UTF-8, in whatever spelling, and
/// between a label and itself, the output is the input, well formed or not.
pub proof fn theorem_identity(bytes: Seq<u8>, from: Seq<u8>, to: Seq<u8>)
    requires
        same_label(from, to) || (names_utf8(from) && names_utf8(to)),
    ensures
        converted(bytes, from, to) == Ok::<ConversionView, ConvertError>(
            ConversionView::Done(bytes),
        ),
        converted_lossy(bytes, from, to) == Ok::<ConversionView, ConvertError>(
            ConversionView::Done(bytes),
        ),
{
}

/// Unknown encoding: a label that names nothing, beside a different label,
/// is an unknown conversion, whatever the input.
pub proof fn theorem_unknown_label(bytes: Seq<u8>, from: Seq<u8>, to: Seq<u8>)
    requires
        resolved(from) is None || resolved(to) is None,
        !same_label(from, to),
    ensures
        converted(bytes, from, to) == Err::<ConversionView, ConvertError>(
            ConvertError::UnknownConversion,
        ),
        converted_lossy(bytes, from, to) == Err::<ConversionView, ConvertError>(
            ConvertError::UnknownConversion,
        ),
{
}

/// Empty input decodes to the empty text in every Unicode encoding.
pub proof fn lemma_empty_decodes(encoding: UtfEncoding)
    ensures
        decoded(Seq::empty(), encoding) == Some(Seq::<char>::empty()),
{
    let bytes = Seq::<u8>::empty();
    let le = encoding.input_byte_order(bytes).le_or(true);
    assert(encoding.consumed_len(bytes) == 0) by {
        assert(!utf16_mark(true).is_prefix_of(bytes));
        assert(!utf16_mark(false).is_prefix_of(bytes));
        assert(!utf32_mark(true).is_prefix_of(bytes));
        assert(!utf32_mark(false).is_prefix_of(bytes));
    }
    assert(input_body(bytes, encoding) =~= bytes);
    match encoding.utf_type {
        UtfType::Utf8 => {
            assert(decode_utf8(bytes) =~= Seq::<char>::empty());
        },
        UtfType::Utf16 => {
            assert(units16(bytes, le) =~= Seq::<u16>::empty());
            assert(strict_text(utf16_items(units16(bytes, le)))->0 =~= Seq::<char>::empty());
        },
        UtfType::Utf32 => {
            assert(units32(bytes, le) =~= Seq::<u32>::empty());
            assert(strict_text(utf32_items(units32(bytes, le)))->0 =~= Seq::<char>::empty());
        },
    }
}

/// The empty text is no bytes in every Unicode encoding that names its byte
/// order.
pub proof fn lemma_empty_encodes(encoding: UtfEncoding)
    requires
        !encoding.ambiguous(),
    ensures
        encoded(Seq::empty(), encoding) == Seq::<u8>::empty(),
{
    let text = Seq::<char>::empty();
    assert(utf16_encode(text) =~= Seq::<u16>::empty());
    assert(utf32_encode(text) =~= Seq::<u32>::empty());
    assert(encoded(text, encoding) =~= Seq::<u8>::empty());
}

/// Empty input: for every pair of labels that name encodings, with or
/// without a native converter behind them, empty input gives empty output,
/// unless the target is a Unicode encoding without a byte order, whose
/// output always starts with a mark.
pub proof fn theorem_empty_input(from: Seq<u8>, to: Seq<u8>)
    requires
        route_of(from, to) != Route::Unknown,
        resolved(to) matches Some(Encoding::Utf(target)) ==> !target.ambiguous() || route_of(
            from,
            to,
        ) == Route::Identity,
    ensures
        converted(Seq::empty(), from, to) == Ok::<ConversionView, ConvertError>(
            ConversionView::Done(Seq::empty()),
        ),
{
    match route_of(from, to) {
        Route::Codec { from: a, to: b } => {
            lemma_empty_decodes(a);
            lemma_empty_encodes(b);
        },
        Route::Native(a, b) => {
            if let Encoding::Utf(target) = b {
                lemma_empty_encodes(target);
            }
        },
        _ => {},
    }
}

/// Empty input needs no native converter: whatever the labels, the library
/// answers for it by itself.
pub proof fn theorem_empty_input_stays(from: Seq<u8>, to: Seq<u8>)
    ensures
        !(converted(Seq::empty(), from, to) matches Ok(ConversionView::Native(_, _))),
        !(converted_lossy(Seq::empty(), from, to) matches Ok(ConversionView::Native(_, _))),
{
}

/// Mark generation: text without a mark of its own, written in an encoding
/// without a byte order, comes out little endian behind a new mark.
pub proof fn theorem_mark_generated(text: Seq<char>, encoding: UtfEncoding)
    requires
        encoding.ambiguous(),
        !starts_with_mark(text),
    ensures
        encoding.utf_type == UtfType::Utf16 ==> encoded(text, encoding) == utf16_mark(true)
            + utf16_bytes(text, true),
        encoding.utf_type == UtfType::Utf32 ==> encoded(text, encoding) == utf32_mark(true)
            + utf32_bytes(text, true),
{
}

/// No second mark: text that starts with a mark is written with that one
/// mark, and text without one is written as if it had brought one. Only
/// text in an encoding that names its byte order comes out without a mark.
pub proof fn theorem_one_mark(text: Seq<char>, encoding: UtfEncoding)
    requires
        !starts_with_mark(text),
    ensures
        encoding.ambiguous() ==> encoded(seq![mark_char()] + text, encoding) == encoded(
            text,
            encoding,
        ),
        !encoding.ambiguous() ==> !needs_mark(text, encoding),
{
    if encoding.ambiguous() {
        let marked = seq![mark_char()] + text;
        let le = true;
        assert(marked.drop_first() =~= text);
        assert(starts_with_mark(marked));
        if encoding.utf_type == UtfType::Utf16 {
            lemma_utf16_mark_is_char(le);
            assert(seq![mark_char()].drop_first() =~= Seq::<char>::empty());
            assert(utf16_encode(Seq::<char>::empty()) =~= Seq::<u16>::empty());
            assert(utf16_encode(marked) =~= utf16_encode(seq![mark_char()]) + utf16_encode(text));
            lemma_bytes16_concat(
                utf16_encode(seq![mark_char()]),
                utf16_encode(text),
                le,
            );
            assert(encoded(marked, encoding) =~= utf16_mark(le) + utf16_bytes(text, le));
        } else {
            lemma_utf32_mark_is_char(le);
            assert(utf32_encode(marked) =~= utf32_encode(seq![mark_char()]) + utf32_encode(text));
            lemma_bytes32_concat(
                utf32_encode(seq![mark_char()]),
                utf32_encode(text),
                le,
            );
            assert(encoded(marked, encoding) =~= utf32_mark(le) + utf32_bytes(text, le));
        }
    }
}

/// The units of a text start with the mark where the text does.
pub proof fn lemma_units_bring_mark(text: Seq<char>)
    ensures
        brings_mark(utf16_encode(text)) == starts_with_mark(text),
{
    if text.len() > 0 {
        let first: char = text[0];
        let units = utf16_units_of(first);
        lemma_char_is_scalar_value(first);
        assert(utf16_encode(text) == units + utf16_encode(text.drop_first()));
        assert(utf16_encode(text)[0] == units[0]);
        if (first as u32) < 0x10000 {
            assert(units[0] == (first as u32) as u16);
        } else {
            assert(0xD800 <= units[0] <= 0xDBFF);
        }
    }
}

/// Both ways agree: between UTF-16 and UTF-32, strict conversion through
/// wide characters ends at its first step, with the output of conversion
/// through the codec, or with the same error.
pub proof fn theorem_wide_path_agrees(
    bytes: Seq<u8>,
    from: Seq<u8>,
    to: Seq<u8>,
    from_codepage: u32,
    to_codepage: u32,
)
    requires
        parse_label(from) matches Some(encoding) && encoding.utf_type != UtfType::Utf8,
        parse_label(to) matches Some(encoding) && encoding.utf_type != UtfType::Utf8
            && to_codepage == wide_codepage_of(encoding),
    ensures
        first_step(bytes, from, to, from_codepage, to_codepage, false) == match transcoded(
            bytes,
            parse_label(from)->0,
            parse_label(to)->0,
        ) {
            Ok(output) => Ok::<StepView, ConvertError>(StepView::Done(output)),
            Err(e) => Err::<StepView, ConvertError>(e),
        },
{
    let source = parse_label(from)->0;
    let body = input_body(bytes, source);
    let le = input_is_le(bytes, source);
    if decoded(bytes, source) is Some {
        let text = decoded(bytes, source)->0;
        if source.utf_type == UtfType::Utf16 {
            lemma_utf16_encode_of_decode(units16(body, le));
        }
        lemma_units_bring_mark(text);
        lemma_utf16_decode_of_encode(text);
    }
}

/// Both ways agree, by labels: between two labels that name UTF-16 or UTF-32
/// with different code pages, strict conversion through wide characters
/// ends at its first step, with the output of conversion through the codec,
/// or with the same error.
pub proof fn theorem_wide_path_agrees_by_label(bytes: Seq<u8>, from: Seq<u8>, to: Seq<u8>)
    requires
        parse_label(from) matches Some(encoding) && encoding.utf_type != UtfType::Utf8,
        parse_label(to) matches Some(encoding) && encoding.utf_type != UtfType::Utf8,
        wide_codepage_of(parse_label(from)->0) != wide_codepage_of(parse_label(to)->0),
    ensures
        first_step_by_label(bytes, from, to, false) == match transcoded(
            bytes,
            parse_label(from)->0,
            parse_label(to)->0,
        ) {
            Ok(output) => Ok::<StepView, ConvertError>(StepView::Done(output)),
            Err(e) => Err::<StepView, ConvertError>(e),
        },
{
    theorem_labels_agree(from);
    theorem_labels_agree(to);
    theorem_wide_path_agrees(
        bytes,
        from,
        to,
        wide_codepage_of(parse_label(from)->0),
        wide_codepage_of(parse_label(to)->0),
    );
}

/// Lossy decoding of UTF-16 and UTF-32 agrees with strict decoding wherever
/// that succeeds.
pub proof fn theorem_lossy_agrees(bytes: Seq<u8>, encoding: UtfEncoding)
    requires
        encoding.utf_type != UtfType::Utf8,
        decoded(bytes, encoding) is Some,
    ensures
        decoded_lossy(bytes, encoding) == decoded(bytes, encoding)->0,
{
    let body = input_body(bytes, encoding);
    let le = input_is_le(bytes, encoding);
    if encoding.utf_type == UtfType::Utf16 {
        lemma_lossy_is_strict(utf16_items(units16(body, le)));
        assert(lossy_utf16(body, le) =~= lossy_text(utf16_items(units16(body, le))));
    } else {
        lemma_lossy_is_strict(utf32_items(units32(body, le)));
        assert(lossy_utf32(body, le) =~= lossy_text(utf32_items(units32(body, le))));
    }
}

/// Lossy substitution, in general: where UTF-16 or UTF-32 input does not
/// decode strictly, U+FFFD occurs in what lossy decoding gives.
pub proof fn theorem_lossy_shows_failure(bytes: Seq<u8>, encoding: UtfEncoding)
    requires
        encoding.utf_type != UtfType::Utf8,
        decoded(bytes, encoding) is None,
    ensures
        decoded_lossy(bytes, encoding).contains(replacement()),
{
    lemma_failure_shows(input_body(bytes, encoding), input_is_le(bytes, encoding));
}

/// Lossy substitution: input that ends inside a code unit fails strictly,
/// and decodes lossily to a text that ends in U+FFFD.
pub proof fn theorem_partial_unit(body: Seq<u8>, le: bool)
    ensures
        body.len() % 2 != 0 ==> strict_utf16(body, le) is None && lossy_utf16(body, le).last()
            == replacement(),
        body.len() % 4 != 0 ==> strict_utf32(body, le) is None && lossy_utf32(body, le).last()
            == replacement(),
{
}

} // verus!
