//! The names that a streaming converter is opened with, and the loop that
//! feeds it: an output buffer that grows when the converter runs out of
//! room, counts of what was consumed and written that are kept whatever a
//! call reports, and one last call without input that flushes the converter.

use vstd::prelude::*;
use vstd::string::{StringExecFns, StringSliceAdditionalSpecFns};

use crate::error::{ConvertError, ConvertLossyError};

verus! {

/// Whether a zero byte occurs.
pub open spec fn has_nul(bytes: Seq<u8>) -> bool {
    exists|i: int| 0 <= i < bytes.len() && #[trigger] bytes[i] == 0
}

/// Whether two slashes occur side by side.
pub open spec fn has_double_slash(bytes: Seq<u8>) -> bool {
    exists|i: int| 0 <= i < bytes.len() - 1 && #[trigger] bytes[i] == 0x2F && bytes[i + 1] == 0x2F
}

/// The name that the target is opened under: in lossy mode, a target that
/// brings no suffix of its own gets the one that asks the converter to drop
/// or approximate what it cannot convert.
pub open spec fn opened_to_name(to: Seq<char>, lossy: bool) -> Seq<char> {
    if lossy && !has_double_slash(vstd::utf8::encode_utf8(to)) {
        to + "//IGNORE//TRANSLIT"@
    } else {
        to
    }
}

/// The names that a converter is opened with.
pub struct IconvHandle {
    /// The name of the source encoding.
    pub from_name: String,
    /// The name of the target encoding, with its suffix where there is one.
    pub to_name: String,
    /// Whether a fault in the middle of the input is final.
    pub lossy: bool,
}

/// A converter for strict conversion.
pub struct Iconv(pub IconvHandle);

/// A converter for lossy conversion.
pub struct LossyIconv(pub IconvHandle);

/// What a call of the converter signals.
#[derive(Debug, Clone, Copy, PartialEq, Eq, Structural)]
pub enum Signal {
    /// The call did what it was asked.
    Success,
    /// The output buffer has too little room.
    OutputFull,
    /// Any other fault: input that is malformed or incomplete, or text that
    /// the target cannot hold.
    Fault,
}

/// What one call of the converter reports.
#[derive(Debug, Clone, Copy, PartialEq, Eq, Structural)]
pub struct Report {
    /// How many bytes of input the call consumed.
    pub consumed: usize,
    /// How many bytes of output the call wrote.
    pub written: usize,
    /// What the call signalled.
    pub signal: Signal,
}

/// What follows a call.
#[derive(Debug, Clone, Copy, PartialEq, Eq, Structural)]
pub enum Next {
    /// Another call, with the input that is left and the room that is spare.
    Call,
    /// The output is complete: its first `Stream::written` bytes.
    Finished,
    /// Strict conversion met a fault: the input is invalid.
    Invalid,
}

/// The state of the loop.
#[derive(Debug, Clone, Copy, PartialEq, Eq, Structural)]
pub struct Stream {
    /// The length of the input.
    pub input_len: usize,
    /// How much of the input has been consumed.
    pub consumed: usize,
    /// How much output has been written.
    pub written: usize,
    /// The size of the output buffer.
    pub capacity: usize,
    /// Whether a fault ends the loop with the output so far, not with an error.
    pub lossy: bool,
}

/// The signal of a call, from whether it failed and what the system's last
/// error code then was: a failure with the code for too little room asks
/// for a larger buffer, any other failure is a fault.
pub open spec fn signal_from(failed: bool, e2big: bool) -> Signal {
    if !failed {
        Signal::Success
    } else if e2big {
        Signal::OutputFull
    } else {
        Signal::Fault
    }
}

/// Whether the system's last error code, if it has one, is 7: too little
/// room in the output buffer.
pub fn is_last_error_e2big(raw_os_error: Option<i32>) -> (e2big: bool)
    ensures
        e2big == (raw_os_error == Some(7i32)),
{
    match raw_os_error {
        Some(code) => code == 7,
        None => false,
    }
}

/// Says what a call signalled.
pub fn signal_of(failed: bool, e2big: bool) -> (signal: Signal)
    ensures
        signal == signal_from(failed, e2big),
{
    if !failed {
        Signal::Success
    } else if e2big {
        Signal::OutputFull
    } else {
        Signal::Fault
    }
}

/// Whether any byte is zero.
fn contains_nul(bytes: &[u8]) -> (found: bool)
    ensures
        found == has_nul(bytes@),
{
    let mut i: usize = 0;
    while i < bytes.len()
        invariant
            i <= bytes.len(),
            forall|j: int| 0 <= j < i ==> #[trigger] bytes@[j] != 0,
        decreases bytes.len() - i,
    {
        if bytes[i] == 0 {
            return true;
        }
        i += 1;
    }
    false
}

/// Whether two slashes stand side by side.
fn contains_double_slash(bytes: &[u8]) -> (found: bool)
    ensures
        found == has_double_slash(bytes@),
{
    if bytes.len() < 2 {
        return false;
    }
    let mut i: usize = 0;
    while i < bytes.len() - 1
        invariant
            bytes.len() >= 2,
            i <= bytes.len() - 1,
            forall|j: int| 0 <= j < i ==> !(#[trigger] bytes@[j] == 0x2F && bytes@[j + 1] == 0x2F),
        decreases bytes.len() - i,
    {
        if bytes[i] == 0x2F && bytes[i + 1] == 0x2F {
            return true;
        }
        i += 1;
    }
    false
}

impl IconvHandle {
    /// The names to open a converter with. A label with a zero byte names
    /// nothing: an unknown conversion.
    pub fn new(from_encoding: &str, to_encoding: &str, lossy: bool) -> (result: Result<
        Self,
        ConvertLossyError,
    >)
        ensures
            match result {
                Ok(handle) => {
                    &&& !has_nul(from_encoding.spec_bytes())
                    &&& !has_nul(to_encoding.spec_bytes())
                    &&& handle.from_name@ == from_encoding@
                    &&& handle.to_name@ == opened_to_name(to_encoding@, lossy)
                    &&& handle.lossy == lossy
                },
                Err(_) => has_nul(from_encoding.spec_bytes()) || has_nul(to_encoding.spec_bytes()),
            },
    {
        if contains_nul(from_encoding.as_bytes()) {
            return Err(ConvertLossyError::UnknownConversion);
        }
        if contains_nul(to_encoding.as_bytes()) {
            return Err(ConvertLossyError::UnknownConversion);
        }
        let mut to_name = to_encoding.to_owned();
        if lossy && !contains_double_slash(to_encoding.as_bytes()) {
            to_name.append("//IGNORE//TRANSLIT");
        }
        Ok(IconvHandle { from_name: from_encoding.to_owned(), to_name, lossy })
    }

    /// Starts the loop for an input.
    pub fn start(&self, input: &[u8]) -> (stream: Stream)
        ensures
            stream == Stream::start(input@.len() as usize, self.lossy),
    {
        Stream::new(input.len(), self.lossy)
    }

    /// Says what the loop comes to for an input whose calls reported
    /// `reports`, in order: the length of the output, or the length of the
    /// output so far and `InvalidInput`. `None` where the reports are not
    /// those of a loop that ran to its end: one of them reports more than
    /// its call was offered, or they stop before the loop ends or go on
    /// after it.
    pub fn convert(&self, input: &[u8], reports: &[Report]) -> (result: Option<
        Result<usize, (usize, ConvertError)>,
    >)
        ensures
            result == outcome(Stream::start(input@.len() as usize, self.lossy), reports@),
    {
        let mut stream = Stream::new(input.len(), self.lossy);
        let ghost start = stream;
        let mut i: usize = 0;
        while i < reports.len()
            invariant
                i <= reports.len(),
                start == Stream::start(input@.len() as usize, self.lossy),
                stream == state_at(start, reports@, i as int),
                stream.wf(),
                forall|k: int|
                    0 <= k < i ==> (#[trigger] state_at(start, reports@, k)).wf() && state_at(
                        start,
                        reports@,
                        k,
                    ).admits(reports@[k]),
                forall|k: int|
                    0 <= k < i ==> (#[trigger] state_at(start, reports@, k)).next(reports@[k])
                        == Next::Call,
            decreases reports.len() - i,
        {
            let report: Report = reports[i];
            if !stream.accepts(&report) {
                assert(!state_at(start, reports@, i as int).admits(reports@[i as int]));
                return None;
            }
            let next = stream.advance(report);
            assert(stream == state_at(start, reports@, i + 1));
            match next {
                Next::Call => {},
                Next::Finished => {
                    if i + 1 == reports.len() {
                        return Some(Ok(stream.written));
                    }
                    assert(state_at(start, reports@, i as int).next(reports@[i as int])
                        != Next::Call);
                    return None;
                },
                Next::Invalid => {
                    if i + 1 == reports.len() {
                        return Some(Err((stream.written, ConvertError::InvalidInput)));
                    }
                    assert(state_at(start, reports@, i as int).next(reports@[i as int])
                        != Next::Call);
                    return None;
                },
            }
            i += 1;
        }
        proof {
            if reports@.len() > 0 {
                assert(state_at(start, reports@, reports@.len() - 1).next(reports@.last())
                    == Next::Call);
            }
        }
        None
    }
}

impl Iconv {
    /// The names to open a strict converter with.
    pub fn new(from_encoding: &str, to_encoding: &str) -> (result: Result<Self, ConvertLossyError>)
        ensures
            match result {
                Ok(iconv) => {
                    &&& !has_nul(from_encoding.spec_bytes())
                    &&& !has_nul(to_encoding.spec_bytes())
                    &&& iconv.0.from_name@ == from_encoding@
                    &&& iconv.0.to_name@ == to_encoding@
                    &&& !iconv.0.lossy
                },
                Err(_) => has_nul(from_encoding.spec_bytes()) || has_nul(to_encoding.spec_bytes()),
            },
    {
        match IconvHandle::new(from_encoding, to_encoding, false) {
            Ok(handle) => Ok(Iconv(handle)),
            Err(e) => Err(e),
        }
    }

    /// Says what strict conversion comes to for an input whose calls
    /// reported `reports`, in order: the length of the output, or
    /// `InvalidInput`. `None` where the reports are not those of a loop that
    /// ran to its end.
    pub fn convert(&self, input: &[u8], reports: &[Report]) -> (result: Option<
        Result<usize, ConvertError>,
    >)
        ensures
            result == match outcome(
                Stream::start(input@.len() as usize, self.0.lossy),
                reports@,
            ) {
                Some(Ok(written)) => Some(Ok::<usize, ConvertError>(written)),
                Some(Err((_, e))) => Some(Err::<usize, ConvertError>(e)),
                None => None,
            },
    {
        match self.0.convert(input, reports) {
            Some(Ok(written)) => Some(Ok(written)),
            Some(Err((_, e))) => Some(Err(e)),
            None => None,
        }
    }
}

impl LossyIconv {
    /// The names to open a lossy converter with.
    pub fn new(from_encoding: &str, to_encoding: &str) -> (result: Result<Self, ConvertLossyError>)
        ensures
            match result {
                Ok(iconv) => {
                    &&& !has_nul(from_encoding.spec_bytes())
                    &&& !has_nul(to_encoding.spec_bytes())
                    &&& iconv.0.from_name@ == from_encoding@
                    &&& iconv.0.to_name@ == opened_to_name(to_encoding@, true)
                    &&& iconv.0.lossy
                },
                Err(_) => has_nul(from_encoding.spec_bytes()) || has_nul(to_encoding.spec_bytes()),
            },
    {
        match IconvHandle::new(from_encoding, to_encoding, true) {
            Ok(handle) => Ok(LossyIconv(handle)),
            Err(e) => Err(e),
        }
    }

    /// Says what lossy conversion comes to for an input whose calls
    /// reported `reports`, in order: the length of the output, which is the
    /// output so far where the loop ended on a fault. `None` where the
    /// reports are not those of a loop that ran to its end.
    pub fn convert(&self, input: &[u8], reports: &[Report]) -> (result: Option<usize>)
        ensures
            result == match outcome(
                Stream::start(input@.len() as usize, self.0.lossy),
                reports@,
            ) {
                Some(Ok(written)) => Some(written),
                Some(Err((written, _))) => Some(written),
                None => None,
            },
    {
        match self.0.convert(input, reports) {
            Some(Ok(written)) => Some(written),
            Some(Err((written, _))) => Some(written),
            None => None,
        }
    }
}

/// The state of a loop after the first `count` of its calls.
pub open spec fn state_at(start: Stream, reports: Seq<Report>, count: int) -> Stream
    decreases count,
{
    if count <= 0 {
        start
    } else {
        state_at(start, reports, count - 1).after(reports[count - 1])
    }
}

/// Whether `reports` are those of the calls of a loop that ran to its end:
/// each can come from its call, each but the last is followed by another
/// call, and the last is not.
pub open spec fn is_run(start: Stream, reports: Seq<Report>) -> bool {
    &&& reports.len() > 0
    &&& forall|k: int|
        0 <= k < reports.len() ==> (#[trigger] state_at(start, reports, k)).wf() && state_at(
            start,
            reports,
            k,
        ).admits(reports[k])
    &&& forall|k: int|
        0 <= k < reports.len() - 1 ==> (#[trigger] state_at(start, reports, k)).next(reports[k])
            == Next::Call
    &&& state_at(start, reports, reports.len() - 1).next(reports.last()) != Next::Call
}

/// How a loop ended whose calls reported `reports`.
pub open spec fn ending(start: Stream, reports: Seq<Report>) -> Next {
    state_at(start, reports, reports.len() - 1).next(reports.last())
}

/// What a loop comes to whose calls reported `reports`: the length of its
/// output, or the length of the output so far and `InvalidInput`; nothing
/// where the reports are not those of a loop that ran to its end.
pub open spec fn outcome(start: Stream, reports: Seq<Report>) -> Option<
    Result<usize, (usize, ConvertError)>,
> {
    if is_run(start, reports) {
        let written = state_at(start, reports, reports.len() as int).written;
        if ending(start, reports) == Next::Finished {
            Some(Ok(written))
        } else {
            Some(Err((written, ConvertError::InvalidInput)))
        }
    } else {
        None
    }
}

/// How much the first `count` reports say was written.
pub open spec fn written_in(reports: Seq<Report>, count: int) -> int
    decreases count,
{
    if count <= 0 {
        0
    } else {
        written_in(reports, count - 1) + reports[count - 1].written
    }
}

/// How much the first `count` reports say was consumed.
pub open spec fn consumed_in(reports: Seq<Report>, count: int) -> int
    decreases count,
{
    if count <= 0 {
        0
    } else {
        consumed_in(reports, count - 1) + reports[count - 1].consumed
    }
}

/// Nothing that a call reports is lost: after any number of calls the
/// counts of the loop are the sums of what the calls reported.
pub proof fn lemma_counts_add_up(start: Stream, reports: Seq<Report>, count: int)
    requires
        0 <= count <= reports.len(),
        forall|k: int|
            0 <= k < count ==> (#[trigger] state_at(start, reports, k)).wf() && state_at(
                start,
                reports,
                k,
            ).admits(reports[k]),
    ensures
        state_at(start, reports, count).written == start.written + written_in(reports, count),
        state_at(start, reports, count).consumed == start.consumed + consumed_in(reports, count),
        state_at(start, reports, count).input_len == start.input_len,
        state_at(start, reports, count).lossy == start.lossy,
    decreases count,
{
    if count > 0 {
        lemma_counts_add_up(start, reports, count - 1);
        let before = state_at(start, reports, count - 1);
        assert(before.wf() && before.admits(reports[count - 1]));
    }
}

/// The flush: a strict loop that ends well ends with the one call that had
/// no input left and succeeded. Every call before it that had no input
/// left ran out of room. All input is consumed, and the output is all that
/// the calls reported written, the flush included.
pub proof fn theorem_flush(start: Stream, reports: Seq<Report>)
    requires
        is_run(start, reports),
        !start.lossy,
        ending(start, reports) == Next::Finished,
    ensures
        reports.last().signal == Signal::Success,
        state_at(start, reports, reports.len() - 1).left() == 0,
        forall|k: int|
            0 <= k < reports.len() - 1 && (#[trigger] state_at(start, reports, k)).left() == 0
                ==> reports[k].signal == Signal::OutputFull,
        outcome(start, reports) == Some(
            Ok::<usize, (usize, ConvertError)>(
                (start.written + written_in(reports, reports.len() as int)) as usize,
            ),
        ),
        start.consumed + consumed_in(reports, reports.len() as int) == start.input_len,
{
    let n = reports.len() as int;
    lemma_counts_add_up(start, reports, n);
    lemma_counts_add_up(start, reports, n - 1);
    let last = state_at(start, reports, n - 1);
    assert(last.wf() && last.admits(reports[n - 1]));
    assert forall|k: int|
        0 <= k < n - 1 && (#[trigger] state_at(start, reports, k)).left() == 0 implies reports[k].signal
        == Signal::OutputFull by {
        lemma_counts_add_up(start, reports, k);
        assert(state_at(start, reports, k).next(reports[k]) == Next::Call);
    }
}

/// A loop whose calls report no fault but too little room, and that can
/// always grow and never stalls, ends well, strict or lossy, and with the
/// flush.
pub proof fn theorem_no_fault_ends_well(start: Stream, reports: Seq<Report>)
    requires
        is_run(start, reports),
        forall|k: int| 0 <= k < reports.len() ==> (#[trigger] reports[k]).signal != Signal::Fault,
        forall|k: int|
            0 <= k < reports.len() ==> (#[trigger] state_at(start, reports, k)).capacity
                < usize::MAX,
        forall|k: int|
            0 <= k < reports.len() && (#[trigger] state_at(start, reports, k)).left() > 0
                && reports[k].signal == Signal::Success ==> reports[k].consumed > 0,
    ensures
        ending(start, reports) == Next::Finished,
        reports.last().signal == Signal::Success,
        state_at(start, reports, reports.len() - 1).left() == 0,
        outcome(start, reports) == Some(
            Ok::<usize, (usize, ConvertError)>(
                (start.written + written_in(reports, reports.len() as int)) as usize,
            ),
        ),
{
    let n = reports.len() as int;
    lemma_counts_add_up(start, reports, n);
    let last = state_at(start, reports, n - 1);
    assert(last.wf() && last.admits(reports[n - 1]));
    assert(reports[n - 1].signal != Signal::Fault);
    assert(last.capacity < usize::MAX);
}

/// Empty input: the flush is the only call, and the output is what it wrote.
pub proof fn theorem_empty_input_is_one_call(lossy: bool, report: Report)
    requires
        report.signal == Signal::Success,
        Stream::start(0, lossy).admits(report),
    ensures
        outcome(Stream::start(0, lossy), seq![report]) == Some(
            Ok::<usize, (usize, ConvertError)>(report.written),
        ),
{
    let start = Stream::start(0, lossy);
    let reports = seq![report];
    assert(state_at(start, reports, 0) == start);
    assert(state_at(start, reports, 1) == start.after(report));
    assert(is_run(start, reports));
}

/// The size that a full output buffer grows to: twice its size, at least
/// one byte, at most what an index can reach.
pub open spec fn grown(capacity: usize) -> usize {
    if capacity == 0 {
        1
    } else if capacity > usize::MAX / 2 {
        usize::MAX
    } else {
        (2 * capacity) as usize
    }
}

impl Stream {
    /// The counts are within their bounds.
    pub open spec fn wf(self) -> bool {
        self.consumed <= self.input_len && self.written <= self.capacity
    }

    /// The state before the first call: nothing consumed, nothing written,
    /// and an output buffer as large as the input.
    pub open spec fn start(input_len: usize, lossy: bool) -> Stream {
        Stream { input_len, consumed: 0, written: 0, capacity: input_len, lossy }
    }

    /// The input that is left. Where none is left, the next call is the one
    /// that flushes the converter.
    pub open spec fn left(self) -> nat {
        (self.input_len - self.consumed) as nat
    }

    /// The room that is left in the output buffer.
    pub open spec fn room(self) -> nat {
        (self.capacity - self.written) as nat
    }

    /// Whether a report can come from a call in this state: no more consumed
    /// than was offered, no more written than there was room.
    pub open spec fn admits(self, report: Report) -> bool {
        report.consumed <= self.left() && report.written <= self.room()
    }

    /// The state after a call. The counts of the report are added whatever
    /// it signals; only a full buffer changes anything else: it grows.
    pub open spec fn after(self, report: Report) -> Stream {
        Stream {
            input_len: self.input_len,
            consumed: (self.consumed + report.consumed) as usize,
            written: (self.written + report.written) as usize,
            capacity: if report.signal == Signal::OutputFull {
                grown(self.capacity)
            } else {
                self.capacity
            },
            lossy: self.lossy,
        }
    }

    /// How the loop ends where it ends on a fault: lossy conversion keeps
    /// the output so far, strict conversion fails.
    pub open spec fn stopped(self) -> Next {
        if self.lossy {
            Next::Finished
        } else {
            Next::Invalid
        }
    }

    /// What follows a call. A full buffer calls again, unless it cannot
    /// grow. Any other fault stops the loop. Without a fault, the call that
    /// had no input left was the flush, and the output is complete; a call
    /// that had input and consumed none of it stops the loop as a fault
    /// does; any other call is followed by the next.
    pub open spec fn next(self, report: Report) -> Next {
        match report.signal {
            Signal::OutputFull => if self.capacity == usize::MAX {
                self.stopped()
            } else {
                Next::Call
            },
            Signal::Fault => self.stopped(),
            Signal::Success => if self.left() == 0 {
                Next::Finished
            } else if report.consumed == 0 {
                self.stopped()
            } else {
                Next::Call
            },
        }
    }

    /// Starts the loop for an input of `input_len` bytes.
    pub fn new(input_len: usize, lossy: bool) -> (stream: Stream)
        ensures
            stream == Stream::start(input_len, lossy),
            stream.wf(),
    {
        Stream { input_len, consumed: 0, written: 0, capacity: input_len, lossy }
    }

    /// How much input is left to offer. Zero asks for the flush call.
    pub fn remaining(&self) -> (left: usize)
        requires
            self.wf(),
        ensures
            left == self.left(),
    {
        self.input_len - self.consumed
    }

    /// How much room the output buffer has to offer.
    pub fn spare(&self) -> (room: usize)
        requires
            self.wf(),
        ensures
            room == self.room(),
    {
        self.capacity - self.written
    }

    /// Whether the counts are within their bounds and a report can come
    /// from a call in this state: what a caller checks before `advance`.
    pub fn accepts(&self, report: &Report) -> (ok: bool)
        ensures
            ok == (self.wf() && self.admits(*report)),
    {
        self.consumed <= self.input_len && self.written <= self.capacity && report.consumed
            <= self.input_len - self.consumed && report.written <= self.capacity - self.written
    }

    /// Takes in what a call reported, and says what follows. Whenever
    /// another call follows, either less input is left than before, or as
    /// much input and a larger buffer: the loop cannot go on for ever. A
    /// buffer that grows at most doubles, or grows to one byte; where it
    /// doubles, so does at least the room that the call left.
    pub fn advance(&mut self, report: Report) -> (next: Next)
        requires
            old(self).wf(),
            old(self).admits(report),
        ensures
            *final(self) == old(self).after(report),
            next == old(self).next(report),
            final(self).wf(),
            next == Next::Call ==> final(self).left() < old(self).left() || (final(self).left()
                == old(self).left() && final(self).capacity > old(self).capacity),
            final(self).capacity >= old(self).capacity,
            final(self).capacity <= 2 * old(self).capacity || final(self).capacity == 1,
            report.signal == Signal::OutputFull && 0 < old(self).capacity <= usize::MAX / 2
                ==> final(self).room() >= 2 * (old(self).capacity - final(self).written),
    {
        let was_flush = self.input_len == self.consumed;
        let cannot_grow = self.capacity == usize::MAX;
        self.consumed = self.consumed + report.consumed;
        self.written = self.written + report.written;
        let stopped = if self.lossy {
            Next::Finished
        } else {
            Next::Invalid
        };
        match report.signal {
            Signal::OutputFull => {
                self.capacity = if self.capacity == 0 {
                    1
                } else if self.capacity > usize::MAX / 2 {
                    usize::MAX
                } else {
                    2 * self.capacity
                };
                if cannot_grow {
                    stopped
                } else {
                    Next::Call
                }
            },
            Signal::Fault => stopped,
            Signal::Success => {
                if was_flush {
                    Next::Finished
                } else if report.consumed == 0 {
                    stopped
                } else {
                    Next::Call
                }
            },
        }
    }

    /// The result of a loop that has ended: the length of the output, or
    /// `InvalidInput`.
    pub fn finish(&self, next: Next) -> (result: Result<usize, ConvertError>)
        requires
            next != Next::Call,
        ensures
            next == Next::Finished ==> result == Ok::<usize, ConvertError>(self.written),
            next == Next::Invalid ==> result == Err::<usize, ConvertError>(
                ConvertError::InvalidInput,
            ),
    {
        match next {
            Next::Invalid => Err(ConvertError::InvalidInput),
            _ => Ok(self.written),
        }
    }
}

} // verus!
