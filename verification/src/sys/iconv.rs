//! Conversion through a streaming converter that is opened for a pair of
//! names and then fed the input, possibly in several calls.

use vstd::prelude::*;
use vstd::string::StringSliceAdditionalSpecFns;

use crate::error::{ConvertError, ConvertLossyError};

pub mod handle;

use handle::{has_nul, opened_to_name, Iconv, LossyIconv, Stream};

verus! {

/// A conversion that is ready to run: the names to open the converter
/// with, and the state of the loop that feeds it.
pub struct Session {
    /// The name of the source encoding.
    pub from_name: String,
    /// The name of the target encoding, with its suffix where there is one.
    pub to_name: String,
    /// The loop, before its first call.
    pub stream: Stream,
}

/// Whether a session is the one that conversion of `len` bytes between two
/// labels starts with.
pub open spec fn is_session(
    session: Session,
    len: nat,
    from: Seq<char>,
    to: Seq<char>,
    lossy: bool,
) -> bool {
    &&& session.from_name@ == from
    &&& session.to_name@ == opened_to_name(to, lossy)
    &&& session.stream == Stream::start(len as usize, lossy)
}

/// Prepares the strict conversion of `input`. A label that holds a zero
/// byte cannot name anything: an unknown conversion.
pub fn convert(input: &[u8], from_encoding: &str, to_encoding: &str) -> (result: Result<
    Session,
    ConvertError,
>)
    ensures
        match result {
            Ok(session) => !has_nul(from_encoding.spec_bytes()) && !has_nul(
                to_encoding.spec_bytes(),
            ) && is_session(session, input@.len(), from_encoding@, to_encoding@, false),
            Err(e) => e == ConvertError::UnknownConversion && (has_nul(from_encoding.spec_bytes())
                || has_nul(to_encoding.spec_bytes())),
        },
{
    match Iconv::new(from_encoding, to_encoding) {
        Ok(iconv) => {
            let stream = iconv.0.start(input);
            Ok(Session { from_name: iconv.0.from_name, to_name: iconv.0.to_name, stream })
        },
        Err(_) => Err(ConvertError::UnknownConversion),
    }
}

/// Prepares the lossy conversion of `input`: the converter is asked to drop
/// or approximate what the target cannot hold, and a fault ends the loop
/// with what was converted so far.
pub fn convert_lossy(input: &[u8], from_encoding: &str, to_encoding: &str) -> (result: Result<
    Session,
    ConvertLossyError,
>)
    ensures
        match result {
            Ok(session) => !has_nul(from_encoding.spec_bytes()) && !has_nul(
                to_encoding.spec_bytes(),
            ) && is_session(session, input@.len(), from_encoding@, to_encoding@, true),
            Err(_) => has_nul(from_encoding.spec_bytes()) || has_nul(to_encoding.spec_bytes()),
        },
{
    match LossyIconv::new(from_encoding, to_encoding) {
        Ok(iconv) => {
            let stream = iconv.0.start(input);
            Ok(Session { from_name: iconv.0.from_name, to_name: iconv.0.to_name, stream })
        },
        Err(e) => Err(e),
    }
}

/// Prepares the strict decoding of `input`: a conversion to UTF-8.
pub fn decode(input: &[u8], encoding: &str) -> (result: Result<Session, ConvertError>)
    ensures
        match result {
            Ok(session) => !has_nul(encoding.spec_bytes()) && is_session(
                session,
                input@.len(),
                encoding@,
                "UTF-8"@,
                false,
            ),
            Err(e) => e == ConvertError::UnknownConversion && has_nul(encoding.spec_bytes()),
        },
{
    proof {
        lemma_utf8_name();
    }
    convert(input, encoding, "UTF-8")
}

/// Prepares the lossy decoding of `input`: a lossy conversion to UTF-8.
pub fn decode_lossy(input: &[u8], encoding: &str) -> (result: Result<Session, ConvertLossyError>)
    ensures
        match result {
            Ok(session) => !has_nul(encoding.spec_bytes()) && is_session(
                session,
                input@.len(),
                encoding@,
                "UTF-8"@,
                true,
            ),
            Err(_) => has_nul(encoding.spec_bytes()),
        },
{
    proof {
        lemma_utf8_name();
    }
    convert_lossy(input, encoding, "UTF-8")
}

/// The name `UTF-8` holds no zero byte.
proof fn lemma_utf8_name()
    ensures
        !has_nul("UTF-8".spec_bytes()),
{
    reveal_strlit("UTF-8");
    let name = "UTF-8";
    assert(vstd::string::is_ascii(name));
    vstd::string::is_ascii_spec_bytes(name);
    let bytes = name.spec_bytes();
    assert(bytes.len() == 5);
    assert forall|i: int| 0 <= i < bytes.len() implies bytes[i] != 0 by {
        assert(bytes[i] == name@[i] as u8);
    }
}

} // verus!
