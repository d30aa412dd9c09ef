//! Conversion in two stages, into wide characters and out of them. A stage
//! between UTF-16 or UTF-32 and wide characters is done here; any other is
//! a call of the system, made twice: once for the size, once for the data.

use vstd::prelude::*;
use vstd::string::StringSliceAdditionalSpecFns;

use crate::bom::{utf16_mark, utf32_mark, utf8_mark};
use crate::bridge;
use crate::codepage::{
    is_no_flag_codepage, no_flag_codepage, CODEPAGE_UTF16, CODEPAGE_UTF16BE, CODEPAGE_UTF32,
    CODEPAGE_UTF32BE, CODEPAGE_UTF8,
};
use crate::error::{ConvertError, ConvertLossyError};
use crate::scalars::{lossy_text, strict_text, utf16_encode, utf16_items, utf32_encode, utf32_items};
use crate::sys::win::utf16::{partial_unit, utf16_to_wide, utf16_to_wide_lossy};
use crate::sys::win::utf32::{
    utf32_to_wide, utf32_to_wide_lossy, wide_to_utf32, wide_to_utf32_lossy,
};
use crate::units::{bytes16, bytes32, units16, units32, write_units16, write_units32};
use crate::utf::decode::{input_body, input_is_le, strict_utf16, strict_utf32};
use crate::utf::encode::optional_mark;
use crate::utf::{
    is_byte_order_ambiguous, label_is_ambiguous, parse_label, UtfEncoding, UtfType,
};

verus! {

/// The flag that makes the system fail on malformed input.
pub const MB_ERR_INVALID_CHARS: u32 = 8;

/// The flag that makes the system fail on malformed wide characters.
pub const WC_ERR_INVALID_CHARS: u32 = 128;

/// The system's code for a parameter that it does not accept.
pub const ERROR_INVALID_PARAMETER: u32 = 87;

/// The system's code for flags that it does not accept.
pub const ERROR_INVALID_FLAGS: u32 = 1004;

/// The code page of GB18030.
pub const CODEPAGE_GB18030: u32 = 54936;

/// What the two calls of the system are made with.
#[derive(Debug, Clone, Copy, PartialEq, Eq, Structural)]
pub struct SystemCall {
    /// The code page on the other side of the wide characters.
    pub codepage: u32,
    /// The flags of the call that asks for the size.
    pub size_flags: u32,
    /// The flags of the call that fills the buffer.
    pub fill_flags: u32,
}

/// The stage into wide characters.
#[derive(Debug)]
pub enum WideSource {
    /// The wide characters.
    Ready(Vec<u16>),
    /// The system has to make them from the input.
    System(SystemCall),
}

/// The stage out of wide characters.
#[derive(Debug)]
pub enum WideTarget {
    /// The output.
    Ready(Vec<u8>),
    /// The system has to make the output, which follows `prefix`.
    System { call: SystemCall, prefix: Vec<u8> },
}

/// Where a conversion stands.
#[derive(Debug)]
pub enum Step {
    /// The output.
    Done(Vec<u8>),
    /// The system has to turn the input into wide characters; `resume`
    /// takes them.
    Decode(SystemCall),
    /// The system has to turn `wide` into the output, which follows `prefix`.
    Encode { wide: Vec<u16>, call: SystemCall, prefix: Vec<u8> },
}

/// A step with what its vectors hold.
pub enum StepView {
    /// The output.
    Done(Seq<u8>),
    /// The call for the stage into wide characters.
    Decode(SystemCall),
    /// The wide characters, the call for the stage out of them, and what
    /// the output starts with.
    Encode(Seq<u16>, SystemCall, Seq<u8>),
}

impl View for Step {
    type V = StepView;

    open spec fn view(&self) -> StepView {
        match self {
            Step::Done(bytes) => StepView::Done(bytes@),
            Step::Decode(call) => StepView::Decode(*call),
            Step::Encode { wide, call, prefix } => StepView::Encode(wide@, *call, prefix@),
        }
    }
}

/// The call that turns input of a code page into wide characters. Strict
/// conversion asks the system to fail on malformed input, where the code
/// page takes flags at all; the call that fills the buffer asks for nothing.
pub open spec fn decode_call(codepage: u32, lossy: bool) -> SystemCall {
    SystemCall {
        codepage,
        size_flags: if lossy || no_flag_codepage(codepage) {
            0
        } else {
            MB_ERR_INVALID_CHARS
        },
        fill_flags: 0,
    }
}

/// The call that turns wide characters into a code page. Only UTF-8 and
/// GB18030 can be asked to fail on malformed wide characters, and only
/// strict conversion asks.
pub open spec fn encode_call(codepage: u32, lossy: bool) -> SystemCall {
    let flags = if lossy || (codepage != CODEPAGE_UTF8 && codepage != CODEPAGE_GB18030) {
        0
    } else {
        WC_ERR_INVALID_CHARS
    };
    SystemCall { codepage, size_flags: flags, fill_flags: flags }
}

/// What a failed size call means: a code page or flags that the system does
/// not accept make an unknown conversion, anything else invalid input.
pub open spec fn failure_of(last_error: u32) -> ConvertError {
    if last_error == ERROR_INVALID_PARAMETER || last_error == ERROR_INVALID_FLAGS {
        ConvertError::UnknownConversion
    } else {
        ConvertError::InvalidInput
    }
}

/// Whether a code page is UTF-16 or UTF-32, which need no system.
pub open spec fn is_wide_codepage(codepage: u32) -> bool {
    ||| codepage == CODEPAGE_UTF16
    ||| codepage == CODEPAGE_UTF16BE
    ||| codepage == CODEPAGE_UTF32
    ||| codepage == CODEPAGE_UTF32BE
}

/// The output in UTF-16 or UTF-32, where the wide characters allow it.
/// UTF-16 takes them as they are. UTF-32 takes their text: lossy conversion
/// with U+FFFD for a surrogate without its partner, strict conversion not
/// at all where there is one.
pub open spec fn wide_as_utf(wide: Seq<u16>, codepage: u32, add_bom: bool, lossy: bool) -> Option<
    Seq<u8>,
> {
    if codepage == CODEPAGE_UTF16 || codepage == CODEPAGE_UTF16BE {
        let le = codepage == CODEPAGE_UTF16;
        Some(optional_mark(utf16_mark(le), add_bom) + bytes16(wide, le))
    } else {
        let le = codepage == CODEPAGE_UTF32;
        let mark = optional_mark(utf32_mark(le), add_bom);
        if lossy {
            Some(mark + bytes32(utf32_encode(lossy_text(utf16_items(wide))), le))
        } else {
            match strict_text(utf16_items(wide)) {
                Some(text) => Some(mark + bytes32(utf32_encode(text), le)),
                None => None,
            }
        }
    }
}

/// The stage out of wide characters. Into UTF-16 or UTF-32 it is done
/// here. Into any other code page no wide characters give no output, and
/// any others go to the system; a mark is put before UTF-8 where one is
/// asked for.
pub open spec fn encode_step(wide: Seq<u16>, codepage: u32, add_bom: bool, lossy: bool) -> Result<
    StepView,
    ConvertError,
> {
    if is_wide_codepage(codepage) {
        match wide_as_utf(wide, codepage, add_bom, lossy) {
            Some(bytes) => Ok(StepView::Done(bytes)),
            None => Err(ConvertError::InvalidInput),
        }
    } else if wide.len() == 0 {
        Ok(StepView::Done(Seq::empty()))
    } else {
        Ok(
            StepView::Encode(
                wide,
                encode_call(codepage, lossy),
                optional_mark(utf8_mark(), codepage == CODEPAGE_UTF8 && add_bom),
            ),
        )
    }
}

/// Whether wide characters start with U+FEFF, the mark.
pub open spec fn brings_mark(wide: Seq<u16>) -> bool {
    wide.len() > 0 && wide[0] == 0xFEFF
}

/// The stage out of wide characters, for a label. A new mark is asked for
/// where the label names UTF-16 or UTF-32 without a byte order and the
/// wide characters bring no mark of their own.
pub open spec fn resumed(wide: Seq<u16>, to: Seq<u8>, to_codepage: u32, lossy: bool) -> Result<
    StepView,
    ConvertError,
> {
    encode_step(wide, to_codepage, label_is_ambiguous(to) && !brings_mark(wide), lossy)
}

/// The source of a conversion where it is UTF-16 or UTF-32, which need no
/// system.
pub open spec fn wide_source_of(from: Seq<u8>) -> Option<UtfEncoding> {
    match parse_label(from) {
        Some(encoding) => if encoding.utf_type != UtfType::Utf8 {
            Some(encoding)
        } else {
            None
        },
        None => None,
    }
}

/// The wide characters of input in UTF-16 or UTF-32, where the input
/// allows it. Strict conversion wants well-formed input. Lossy conversion
/// takes UTF-16 as it is and the text of UTF-32 with U+FFFD for what is
/// malformed, and U+FFFD for a last incomplete unit.
pub open spec fn utf_as_wide(bytes: Seq<u8>, encoding: UtfEncoding, lossy: bool) -> Option<
    Seq<u16>,
> {
    let body = input_body(bytes, encoding);
    let le = input_is_le(bytes, encoding);
    if encoding.utf_type == UtfType::Utf16 {
        if lossy {
            Some(units16(body, le) + partial_unit(body.len(), 2))
        } else if strict_utf16(body, le) is Some {
            Some(units16(body, le))
        } else {
            None
        }
    } else {
        if lossy {
            Some(
                utf16_encode(lossy_text(utf32_items(units32(body, le)))) + partial_unit(
                    body.len(),
                    4,
                ),
            )
        } else {
            match strict_utf32(body, le) {
                Some(text) => Some(utf16_encode(text)),
                None => None,
            }
        }
    }
}

/// Where a conversion between two code pages stands at its start.
pub open spec fn first_step(
    bytes: Seq<u8>,
    from: Seq<u8>,
    to: Seq<u8>,
    from_codepage: u32,
    to_codepage: u32,
    lossy: bool,
) -> Result<StepView, ConvertError> {
    match wide_source_of(from) {
        Some(encoding) => match utf_as_wide(bytes, encoding, lossy) {
            Some(wide) => resumed(wide, to, to_codepage, lossy),
            None => Err(ConvertError::InvalidInput),
        },
        None => if bytes.len() == 0 {
            resumed(Seq::empty(), to, to_codepage, lossy)
        } else {
            Ok(StepView::Decode(decode_call(from_codepage, lossy)))
        },
    }
}

/// A step, or the error in its place.
pub open spec fn step_view(result: Result<Step, ConvertError>) -> Result<StepView, ConvertError> {
    match result {
        Ok(step) => Ok(step@),
        Err(e) => Err(e),
    }
}

/// A step of lossy conversion, or the error in its place.
pub open spec fn lossy_step_view(result: Result<Step, ConvertLossyError>) -> Result<
    StepView,
    ConvertError,
> {
    match result {
        Ok(step) => Ok(step@),
        Err(_) => Err(ConvertError::UnknownConversion),
    }
}

/// Says what a failed size call means.
pub fn system_failure(last_error: u32) -> (error: ConvertError)
    ensures
        error == failure_of(last_error),
{
    if last_error == bridge::error_invalid_parameter() || last_error
        == bridge::error_invalid_flags() {
        ConvertError::UnknownConversion
    } else {
        ConvertError::InvalidInput
    }
}

/// Plans the stage from a code page into wide characters. Empty input
/// gives no wide characters, without a call.
pub fn decode_wide(input: &[u8], codepage: u32, lossy: bool) -> (source: WideSource)
    ensures
        match source {
            WideSource::Ready(wide) => input@.len() == 0 && wide@.len() == 0,
            WideSource::System(call) => input@.len() > 0 && call == decode_call(codepage, lossy),
        },
{
    if input.len() == 0 {
        return WideSource::Ready(Vec::new());
    }
    let flags: u32 = if lossy || is_no_flag_codepage(codepage) {
        0
    } else {
        bridge::mb_err_invalid_chars()
    };
    WideSource::System(SystemCall { codepage, size_flags: flags, fill_flags: 0 })
}

/// Does or plans the stage out of wide characters.
pub fn encode_wide(input: &[u16], codepage: u32, add_bom: bool, lossy: bool) -> (target: Result<
    WideTarget,
    ConvertError,
>)
    ensures
        match encode_step(input@, codepage, add_bom, lossy) {
            Ok(StepView::Done(bytes)) => target matches Ok(WideTarget::Ready(b)) && b@ == bytes,
            Ok(StepView::Encode(_, expected, mark)) => target matches Ok(
                WideTarget::System { call, prefix },
            ) && call == expected && prefix@ == mark,
            Ok(StepView::Decode(_)) => false,
            Err(e) => target matches Err(f) && f == e,
        },
{
    if codepage == CODEPAGE_UTF16 || codepage == CODEPAGE_UTF16BE {
        let le = codepage == CODEPAGE_UTF16;
        let mut output: Vec<u8> = Vec::new();
        if add_bom {
            let mut mark: Vec<u16> = Vec::new();
            mark.push(0xFEFF);
            write_units16(&mut output, mark.as_slice(), le);
            assert(output@ =~= utf16_mark(le));
        }
        write_units16(&mut output, input, le);
        return Ok(WideTarget::Ready(output));
    }
    if codepage == CODEPAGE_UTF32 || codepage == CODEPAGE_UTF32BE {
        let le = codepage == CODEPAGE_UTF32;
        let mut output: Vec<u8> = Vec::new();
        if add_bom {
            let mut mark: Vec<u32> = Vec::new();
            mark.push(0xFEFF);
            write_units32(&mut output, mark.as_slice(), le);
            assert(output@ =~= utf32_mark(le));
        }
        let mut body = if lossy {
            wide_to_utf32_lossy(input, le)
        } else {
            match wide_to_utf32(input, le) {
                Ok(body) => body,
                Err(e) => {
                    return Err(e);
                },
            }
        };
        output.append(&mut body);
        return Ok(WideTarget::Ready(output));
    }
    let mut prefix: Vec<u8> = Vec::new();
    if codepage == CODEPAGE_UTF8 && add_bom {
        prefix.push(0xEF);
        prefix.push(0xBB);
        prefix.push(0xBF);
        assert(prefix@ =~= utf8_mark());
    }
    if input.len() == 0 {
        return Ok(WideTarget::Ready(Vec::new()));
    }
    let flags: u32 = if lossy || (codepage != CODEPAGE_UTF8 && codepage != CODEPAGE_GB18030) {
        0
    } else {
        bridge::wc_err_invalid_chars()
    };
    Ok(WideTarget::System { call: SystemCall { codepage, size_flags: flags, fill_flags: flags }, prefix })
}

/// Goes on with a conversion once its wide characters are there: does or
/// plans the stage out of them. Output without a byte order of its own
/// starts with exactly one mark: the one that the wide characters bring, or
/// a new one.
pub fn resume(wide: Vec<u16>, to_encoding: &str, to_codepage: u32, lossy: bool) -> (step: Result<
    Step,
    ConvertError,
>)
    ensures
        step_view(step) == resumed(wide@, to_encoding.spec_bytes(), to_codepage, lossy),
{
    let brings_mark = wide.len() > 0 && wide[0] == 0xFEFF;
    let add_bom = is_byte_order_ambiguous(to_encoding) && !brings_mark;
    match encode_wide(wide.as_slice(), to_codepage, add_bom, lossy) {
        Ok(WideTarget::Ready(bytes)) => Ok(Step::Done(bytes)),
        Ok(WideTarget::System { call, prefix }) => Ok(Step::Encode { wide, call, prefix }),
        Err(e) => Err(e),
    }
}

/// The wide characters of input in UTF-16 or UTF-32.
fn utf_to_wide(input: &[u8], encoding: UtfEncoding, lossy: bool) -> (wide: Result<
    Vec<u16>,
    ConvertError,
>)
    requires
        encoding.utf_type != UtfType::Utf8,
    ensures
        match utf_as_wide(input@, encoding, lossy) {
            Some(units) => wide matches Ok(w) && w@ == units,
            None => wide matches Err(e) && e == ConvertError::InvalidInput,
        },
{
    let mut body: &[u8] = input;
    let byte_order = encoding.consume_input_bom(&mut body);
    let le = byte_order.is_le(true);
    if encoding.is_utf16() {
        if lossy {
            Ok(utf16_to_wide_lossy(body, le))
        } else {
            utf16_to_wide(body, le)
        }
    } else {
        if lossy {
            Ok(utf32_to_wide_lossy(body, le))
        } else {
            utf32_to_wide(body, le)
        }
    }
}

/// Starts a conversion between two code pages, strict or lossy.
fn start(
    input: &[u8],
    from_encoding: &str,
    to_encoding: &str,
    from_codepage: u32,
    to_codepage: u32,
    lossy: bool,
) -> (step: Result<Step, ConvertError>)
    ensures
        step_view(step) == first_step(
            input@,
            from_encoding.spec_bytes(),
            to_encoding.spec_bytes(),
            from_codepage,
            to_codepage,
            lossy,
        ),
{
    let source = match UtfEncoding::parse(from_encoding) {
        Some(encoding) => if encoding.is_utf16() || encoding.is_utf32() {
            Some(encoding)
        } else {
            None
        },
        None => None,
    };
    let wide = match source {
        Some(encoding) => match utf_to_wide(input, encoding, lossy) {
            Ok(wide) => wide,
            Err(e) => {
                return Err(e);
            },
        },
        None => match decode_wide(input, from_codepage, lossy) {
            WideSource::Ready(wide) => {
                assert(wide@ =~= Seq::<u16>::empty());
                wide
            },
            WideSource::System(call) => {
                return Ok(Step::Decode(call));
            },
        },
    };
    resume(wide, to_encoding, to_codepage, lossy)
}

/// Starts the strict conversion of `input` between two code pages.
pub fn convert(
    input: &[u8],
    from_encoding: &str,
    to_encoding: &str,
    from_codepage: u32,
    to_codepage: u32,
) -> (step: Result<Step, ConvertError>)
    ensures
        step_view(step) == first_step(
            input@,
            from_encoding.spec_bytes(),
            to_encoding.spec_bytes(),
            from_codepage,
            to_codepage,
            false,
        ),
{
    start(input, from_encoding, to_encoding, from_codepage, to_codepage, false)
}

/// Lossy conversion into UTF-16 or UTF-32, and out of them, never fails.
pub proof fn lemma_lossy_first_step(
    bytes: Seq<u8>,
    from: Seq<u8>,
    to: Seq<u8>,
    from_codepage: u32,
    to_codepage: u32,
)
    ensures
        first_step(bytes, from, to, from_codepage, to_codepage, true) is Ok,
{
}

/// Starts the lossy conversion of `input` between two code pages. Nothing
/// that is done here can fail.
pub fn convert_lossy(
    input: &[u8],
    from_encoding: &str,
    to_encoding: &str,
    from_codepage: u32,
    to_codepage: u32,
) -> (step: Result<Step, ConvertLossyError>)
    ensures
        step is Ok,
        lossy_step_view(step) == first_step(
            input@,
            from_encoding.spec_bytes(),
            to_encoding.spec_bytes(),
            from_codepage,
            to_codepage,
            true,
        ),
{
    proof {
        lemma_lossy_first_step(
            input@,
            from_encoding.spec_bytes(),
            to_encoding.spec_bytes(),
            from_codepage,
            to_codepage,
        );
    }
    match start(input, from_encoding, to_encoding, from_codepage, to_codepage, true) {
        Ok(step) => Ok(step),
        Err(_) => Err(ConvertLossyError::UnknownConversion),
    }
}

} // verus!
