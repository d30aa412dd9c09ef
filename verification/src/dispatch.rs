//! The choice of a way to convert: hand the bytes back, go through the
//! Unicode codec, or leave the work to a native converter.

use vstd::prelude::*;
use vstd::slice::slice_to_vec;
use vstd::string::StringSliceAdditionalSpecFns;

use crate::codepage::{
    codepage_of, encoding_to_codepage, CODEPAGE_UTF16, CODEPAGE_UTF16BE, CODEPAGE_UTF32,
    CODEPAGE_UTF32BE, CODEPAGE_UTF8,
};
use crate::encoding::{ascii_lower, bytes_equal, is_separator, to_ascii_lower};
use crate::error::ConvertError;
use crate::labels::wide_codepage_of;
use crate::utf::decode::decoded;
use crate::utf::decode_lossy::decoded_lossy;
use crate::utf::encode::encoded;
use crate::utf::{decode_utf, decode_utf_lossy, encode_utf, parse_label, UtfEncoding, UtfType};

verus! {

/// What a label names: a Unicode encoding, which the library converts by
/// itself, or a code page, which stands for an encoding of a native
/// converter.
#[derive(Debug, Clone, Copy, PartialEq, Eq, Structural)]
pub enum Encoding {
    /// UTF-8, UTF-16 or UTF-32.
    Utf(UtfEncoding),
    /// Any other encoding, by its code page.
    CodePage(u32),
}

impl Encoding {
    /// The code page of an encoding: its own, or the one of the Unicode
    /// encoding in its byte order, little endian where it names none.
    pub open spec fn codepage_of(self) -> u32 {
        match self {
            Encoding::Utf(utf) => if utf.utf_type == UtfType::Utf8 {
                CODEPAGE_UTF8
            } else {
                wide_codepage_of(utf)
            },
            Encoding::CodePage(codepage) => codepage,
        }
    }

    /// The code page under which a converter that works by code pages
    /// knows this encoding.
    pub fn codepage(&self) -> (codepage: u32)
        ensures
            codepage == self.codepage_of(),
    {
        match self {
            Encoding::Utf(utf) => {
                let le = utf.byte_order.is_le(true);
                match utf.utf_type {
                    UtfType::Utf8 => CODEPAGE_UTF8,
                    UtfType::Utf16 => if le {
                        CODEPAGE_UTF16
                    } else {
                        CODEPAGE_UTF16BE
                    },
                    UtfType::Utf32 => if le {
                        CODEPAGE_UTF32
                    } else {
                        CODEPAGE_UTF32BE
                    },
                }
            },
            Encoding::CodePage(codepage) => *codepage,
        }
    }
}

/// How a pair of labels is served.
#[derive(Debug, Clone, Copy, PartialEq, Eq, Structural)]
pub enum Route {
    /// The output is the input, byte for byte.
    Identity,
    /// Both labels name a Unicode encoding: decode, then encode.
    Codec { from: UtfEncoding, to: UtfEncoding },
    /// Both labels name an encoding, and at least one of them is no Unicode
    /// encoding: the pair is for a native converter, from the first to the
    /// second.
    Native(Encoding, Encoding),
    /// One of the labels names nothing.
    Unknown,
}

/// The outcome of a conversion as far as the library can take it.
#[derive(Debug, PartialEq, Eq)]
pub enum Conversion {
    /// The output.
    Done(Vec<u8>),
    /// The input is for a native converter between these two encodings.
    Native { from: Encoding, to: Encoding },
}

/// A conversion with what its output holds.
pub enum ConversionView {
    /// The output.
    Done(Seq<u8>),
    /// The two encodings that a native converter is asked to convert between.
    Native(Encoding, Encoding),
}

impl View for Conversion {
    type V = ConversionView;

    open spec fn view(&self) -> ConversionView {
        match self {
            Conversion::Done(bytes) => ConversionView::Done(bytes@),
            Conversion::Native { from, to } => ConversionView::Native(*from, *to),
        }
    }
}

/// A label with what does not count taken away: no separators, and ASCII
/// letters in lower case.
pub open spec fn canonical(label: Seq<u8>) -> Seq<u8>
    decreases label.len(),
{
    if label.len() == 0 {
        Seq::empty()
    } else if is_separator(label.last()) {
        canonical(label.drop_last())
    } else {
        canonical(label.drop_last()).push(ascii_lower(label.last()))
    }
}

/// Two labels are the same where they differ in nothing but the case of
/// ASCII letters and in where separators stand.
pub open spec fn same_label(a: Seq<u8>, b: Seq<u8>) -> bool {
    canonical(a) == canonical(b)
}

/// Whether a label names UTF-8, in whatever spelling.
pub open spec fn names_utf8(label: Seq<u8>) -> bool {
    parse_label(label) matches Some(encoding) && encoding.utf_type == UtfType::Utf8
}

/// What a label names: a Unicode encoding where it reads as one, else the
/// code page that it has, else nothing.
pub open spec fn resolved(label: Seq<u8>) -> Option<Encoding> {
    match parse_label(label) {
        Some(encoding) => Some(Encoding::Utf(encoding)),
        None => match codepage_of(label) {
            Some(codepage) => Some(Encoding::CodePage(codepage)),
            None => None,
        },
    }
}

/// The route of a pair of labels. The same label twice, or UTF-8 on both
/// sides, asks for no conversion at all. Any other pair has to name two
/// encodings.
pub open spec fn route_of(from: Seq<u8>, to: Seq<u8>) -> Route {
    if same_label(from, to) || (names_utf8(from) && names_utf8(to)) {
        Route::Identity
    } else {
        match (resolved(from), resolved(to)) {
            (Some(Encoding::Utf(from)), Some(Encoding::Utf(to))) => Route::Codec { from, to },
            (Some(from), Some(to)) => Route::Native(from, to),
            _ => Route::Unknown,
        }
    }
}

/// What strict conversion between two Unicode encodings gives.
pub open spec fn transcoded(bytes: Seq<u8>, from: UtfEncoding, to: UtfEncoding) -> Result<
    Seq<u8>,
    ConvertError,
> {
    match decoded(bytes, from) {
        Some(text) => Ok(encoded(text, to)),
        None => Err(ConvertError::InvalidInput),
    }
}

/// The empty text in an encoding: nothing, or the mark alone where a
/// Unicode encoding names no byte order.
pub open spec fn empty_text_in(encoding: Encoding) -> Seq<u8> {
    match encoding {
        Encoding::Utf(utf) => encoded(Seq::empty(), utf),
        Encoding::CodePage(_) => Seq::empty(),
    }
}

/// What is done with a pair for a native converter: empty input is the
/// empty text and needs no converter; any other input is handed over.
pub open spec fn handed_over(bytes: Seq<u8>, from: Encoding, to: Encoding) -> ConversionView {
    if bytes.len() == 0 {
        ConversionView::Done(empty_text_in(to))
    } else {
        ConversionView::Native(from, to)
    }
}

/// How far the library takes a strict conversion.
pub open spec fn converted(bytes: Seq<u8>, from: Seq<u8>, to: Seq<u8>) -> Result<
    ConversionView,
    ConvertError,
> {
    match route_of(from, to) {
        Route::Identity => Ok(ConversionView::Done(bytes)),
        Route::Codec { from, to } => match transcoded(bytes, from, to) {
            Ok(output) => Ok(ConversionView::Done(output)),
            Err(e) => Err(e),
        },
        Route::Native(from, to) => Ok(handed_over(bytes, from, to)),
        Route::Unknown => Err(ConvertError::UnknownConversion),
    }
}

/// How far the library takes a lossy conversion.
pub open spec fn converted_lossy(bytes: Seq<u8>, from: Seq<u8>, to: Seq<u8>) -> Result<
    ConversionView,
    ConvertError,
> {
    match route_of(from, to) {
        Route::Identity => Ok(ConversionView::Done(bytes)),
        Route::Codec { from, to } => Ok(
            ConversionView::Done(encoded(decoded_lossy(bytes, from), to)),
        ),
        Route::Native(from, to) => Ok(handed_over(bytes, from, to)),
        Route::Unknown => Err(ConvertError::UnknownConversion),
    }
}

/// A conversion, or the error in its place.
pub open spec fn view_of_result(result: Result<Conversion, ConvertError>) -> Result<
    ConversionView,
    ConvertError,
> {
    match result {
        Ok(conversion) => Ok(conversion@),
        Err(e) => Err(e),
    }
}

/// A label with what does not count taken away.
pub fn canonical_label(label: &[u8]) -> (out: Vec<u8>)
    ensures
        out@ == canonical(label@),
{
    let mut out: Vec<u8> = Vec::new();
    let mut i: usize = 0;
    while i < label.len()
        invariant
            i <= label.len(),
            out@ == canonical(label@.take(i as int)),
        decreases label.len() - i,
    {
        let byte: u8 = label[i];
        let ghost longer = label@.take(i + 1);
        assert(longer.drop_last() =~= label@.take(i as int));
        assert(longer.last() == byte);
        if !(byte == 0x2D || byte == 0x5F || byte == 0x20) {
            out.push(to_ascii_lower(byte));
        }
        i += 1;
    }
    assert(label@.take(i as int) =~= label@);
    out
}

/// Whether two labels differ in nothing but the case of ASCII letters and
/// in where separators stand.
pub fn labels_match(a: &str, b: &str) -> (same: bool)
    ensures
        same == same_label(a.spec_bytes(), b.spec_bytes()),
{
    let left = canonical_label(a.as_bytes());
    let right = canonical_label(b.as_bytes());
    bytes_equal(left.as_slice(), right.as_slice())
}

/// Finds what a label names.
pub fn resolve(label: &str) -> (encoding: Option<Encoding>)
    ensures
        encoding == resolved(label.spec_bytes()),
{
    match UtfEncoding::parse(label) {
        Some(utf) => Some(Encoding::Utf(utf)),
        None => match encoding_to_codepage(label) {
            Some(codepage) => Some(Encoding::CodePage(codepage)),
            None => None,
        },
    }
}

/// Chooses the route of a pair of labels.
pub fn route(from_encoding: &str, to_encoding: &str) -> (route: Route)
    ensures
        route == route_of(from_encoding.spec_bytes(), to_encoding.spec_bytes()),
{
    if labels_match(from_encoding, to_encoding) {
        return Route::Identity;
    }
    match (resolve(from_encoding), resolve(to_encoding)) {
        (Some(Encoding::Utf(from)), Some(Encoding::Utf(to))) => {
            if from.is_utf8() && to.is_utf8() {
                Route::Identity
            } else {
                Route::Codec { from, to }
            }
        },
        (Some(from), Some(to)) => Route::Native(from, to),
        (from, to) => {
            let from_utf8 = match from {
                Some(Encoding::Utf(utf)) => utf.is_utf8(),
                _ => false,
            };
            let to_utf8 = match to {
                Some(Encoding::Utf(utf)) => utf.is_utf8(),
                _ => false,
            };
            if from_utf8 && to_utf8 {
                Route::Identity
            } else {
                Route::Unknown
            }
        },
    }
}

/// The empty text in an encoding.
fn empty_text(encoding: Encoding) -> (bytes: Vec<u8>)
    ensures
        bytes@ == empty_text_in(encoding),
{
    match encoding {
        Encoding::Utf(utf) => {
            let text = String::new();
            encode_utf(text.as_str(), utf)
        },
        Encoding::CodePage(_) => Vec::new(),
    }
}

/// Converts `input` as far as that needs no native converter. The same
/// label twice, or UTF-8 on both sides, gives the input back unread. A
/// label that names nothing is an unknown conversion. Between two Unicode
/// encodings the input is decoded, strictly or with replacements as `lossy`
/// says, and encoded again. Any other pair is for a native converter,
/// unless the input is empty.
pub fn convert_inner(input: &[u8], from_encoding: &str, to_encoding: &str, lossy: bool) -> (result:
    Result<Conversion, ConvertError>)
    ensures
        view_of_result(result) == if lossy {
            converted_lossy(input@, from_encoding.spec_bytes(), to_encoding.spec_bytes())
        } else {
            converted(input@, from_encoding.spec_bytes(), to_encoding.spec_bytes())
        },
        converted(input@, from_encoding.spec_bytes(), to_encoding.spec_bytes()) is Ok
            ==> view_of_result(result) == converted(
            input@,
            from_encoding.spec_bytes(),
            to_encoding.spec_bytes(),
        ),
{
    match route(from_encoding, to_encoding) {
        Route::Identity => Ok(Conversion::Done(slice_to_vec(input))),
        Route::Codec { from, to } => {
            let text = if lossy {
                decode_utf_lossy(input, from)
            } else {
                match decode_utf(input, from) {
                    Ok(text) => text,
                    Err(e) => {
                        return Err(e);
                    },
                }
            };
            Ok(Conversion::Done(encode_utf(text.as_str(), to)))
        },
        Route::Native(from, to) => {
            if input.len() == 0 {
                Ok(Conversion::Done(empty_text(to)))
            } else {
                Ok(Conversion::Native { from, to })
            }
        },
        Route::Unknown => Err(ConvertError::UnknownConversion),
    }
}

} // verus!
