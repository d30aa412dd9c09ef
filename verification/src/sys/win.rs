//! Conversion through wide characters, for a system that converts between a
//! code page and UTF-16.

use vstd::prelude::*;
use vstd::slice::slice_to_vec;
use vstd::string::StringSliceAdditionalSpecFns;

use crate::codepage::{codepage_of, encoding_to_codepage, CODEPAGE_UTF8};
use crate::error::{ConvertError, ConvertLossyError};
use crate::utf::decode::decoded;
use crate::utf::decode_lossy::decoded_lossy;
use crate::utf::{decode_utf, decode_utf_lossy, parse_label, UtfEncoding};

pub mod utf16;
pub mod utf32;
pub mod wide;

use wide::{first_step, lossy_step_view, step_view, Step, StepView};

verus! {

/// Where the conversion of `bytes` between two labels stands at its
/// start. A label without a code page makes an unknown conversion; two
/// labels of one code page give the input back.
pub open spec fn first_step_by_label(bytes: Seq<u8>, from: Seq<u8>, to: Seq<u8>, lossy: bool) -> Result<
    StepView,
    ConvertError,
> {
    match (codepage_of(from), codepage_of(to)) {
        (Some(from_codepage), Some(to_codepage)) => if from_codepage == to_codepage {
            Ok(StepView::Done(bytes))
        } else {
            first_step(bytes, from, to, from_codepage, to_codepage, lossy)
        },
        _ => Err(ConvertError::UnknownConversion),
    }
}

/// Starts the strict conversion of `input` from one label to another.
pub fn convert(input: &[u8], from_encoding: &str, to_encoding: &str) -> (step: Result<
    Step,
    ConvertError,
>)
    ensures
        step_view(step) == first_step_by_label(
            input@,
            from_encoding.spec_bytes(),
            to_encoding.spec_bytes(),
            false,
        ),
{
    let from_codepage = match encoding_to_codepage(from_encoding) {
        Some(codepage) => codepage,
        None => {
            return Err(ConvertError::UnknownConversion);
        },
    };
    let to_codepage = match encoding_to_codepage(to_encoding) {
        Some(codepage) => codepage,
        None => {
            return Err(ConvertError::UnknownConversion);
        },
    };
    if from_codepage == to_codepage {
        return Ok(Step::Done(slice_to_vec(input)));
    }
    wide::convert(input, from_encoding, to_encoding, from_codepage, to_codepage)
}

/// Starts the lossy conversion of `input` from one label to another.
pub fn convert_lossy(input: &[u8], from_encoding: &str, to_encoding: &str) -> (step: Result<
    Step,
    ConvertLossyError,
>)
    ensures
        lossy_step_view(step) == first_step_by_label(
            input@,
            from_encoding.spec_bytes(),
            to_encoding.spec_bytes(),
            true,
        ),
        step is Ok <==> codepage_of(from_encoding.spec_bytes()) is Some && codepage_of(
            to_encoding.spec_bytes(),
        ) is Some,
{
    let from_codepage = match encoding_to_codepage(from_encoding) {
        Some(codepage) => codepage,
        None => {
            return Err(ConvertLossyError::UnknownConversion);
        },
    };
    let to_codepage = match encoding_to_codepage(to_encoding) {
        Some(codepage) => codepage,
        None => {
            return Err(ConvertLossyError::UnknownConversion);
        },
    };
    if from_codepage == to_codepage {
        return Ok(Step::Done(slice_to_vec(input)));
    }
    wide::convert_lossy(input, from_encoding, to_encoding, from_codepage, to_codepage)
}

/// Where decoding stands at its start.
#[derive(Debug)]
pub enum TextStep {
    /// The text.
    Text(String),
    /// A conversion to UTF-8, whose output is the text.
    Convert(Step),
}

/// A decoding step with what it holds.
pub enum TextStepView {
    /// The text.
    Text(Seq<char>),
    /// A conversion to UTF-8.
    Convert(StepView),
}

impl View for TextStep {
    type V = TextStepView;

    open spec fn view(&self) -> TextStepView {
        match self {
            TextStep::Text(text) => TextStepView::Text(text@),
            TextStep::Convert(step) => TextStepView::Convert(step@),
        }
    }
}

/// Where the strict decoding of `bytes` stands at its start: under a label
/// that names a Unicode encoding, at its end; under any other label with a
/// code page, at the start of a conversion to UTF-8.
pub open spec fn first_text_step(bytes: Seq<u8>, label: Seq<u8>) -> Result<
    TextStepView,
    ConvertError,
> {
    match parse_label(label) {
        Some(encoding) => match decoded(bytes, encoding) {
            Some(text) => Ok(TextStepView::Text(text)),
            None => Err(ConvertError::InvalidInput),
        },
        None => match codepage_of(label) {
            Some(codepage) => match first_step(
                bytes,
                label,
                "utf-8".spec_bytes(),
                codepage,
                CODEPAGE_UTF8,
                false,
            ) {
                Ok(step) => Ok(TextStepView::Convert(step)),
                Err(e) => Err(e),
            },
            None => Err(ConvertError::UnknownConversion),
        },
    }
}

/// Where the lossy decoding of `bytes` stands at its start.
pub open spec fn first_text_step_lossy(bytes: Seq<u8>, label: Seq<u8>) -> Result<
    TextStepView,
    ConvertError,
> {
    match parse_label(label) {
        Some(encoding) => Ok(TextStepView::Text(decoded_lossy(bytes, encoding))),
        None => match codepage_of(label) {
            Some(codepage) => match first_step(
                bytes,
                label,
                "utf-8".spec_bytes(),
                codepage,
                CODEPAGE_UTF8,
                true,
            ) {
                Ok(step) => Ok(TextStepView::Convert(step)),
                Err(e) => Err(e),
            },
            None => Err(ConvertError::UnknownConversion),
        },
    }
}

/// Starts the strict decoding of `input`.
pub fn decode(input: &[u8], encoding: &str) -> (step: Result<TextStep, ConvertError>)
    ensures
        match first_text_step(input@, encoding.spec_bytes()) {
            Ok(expected) => step matches Ok(s) && s@ == expected,
            Err(e) => step matches Err(f) && f == e,
        },
{
    if let Some(utf) = UtfEncoding::parse(encoding) {
        return match decode_utf(input, utf) {
            Ok(text) => Ok(TextStep::Text(text)),
            Err(e) => Err(e),
        };
    }
    let from_codepage = match encoding_to_codepage(encoding) {
        Some(codepage) => codepage,
        None => {
            return Err(ConvertError::UnknownConversion);
        },
    };
    match wide::convert(input, encoding, "utf-8", from_codepage, CODEPAGE_UTF8) {
        Ok(step) => Ok(TextStep::Convert(step)),
        Err(e) => Err(e),
    }
}

/// Starts the lossy decoding of `input`.
pub fn decode_lossy(input: &[u8], encoding: &str) -> (step: Result<TextStep, ConvertLossyError>)
    ensures
        match first_text_step_lossy(input@, encoding.spec_bytes()) {
            Ok(expected) => step matches Ok(s) && s@ == expected,
            Err(_) => step is Err,
        },
{
    if let Some(utf) = UtfEncoding::parse(encoding) {
        return Ok(TextStep::Text(decode_utf_lossy(input, utf)));
    }
    let from_codepage = match encoding_to_codepage(encoding) {
        Some(codepage) => codepage,
        None => {
            return Err(ConvertLossyError::UnknownConversion);
        },
    };
    match wide::convert_lossy(input, encoding, "utf-8", from_codepage, CODEPAGE_UTF8) {
        Ok(step) => Ok(TextStep::Convert(step)),
        Err(e) => Err(e),
    }
}

} // verus!
