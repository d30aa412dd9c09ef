use iconv_native::dispatch::Conversion;
use iconv_native::sys::iconv::handle::{
    is_last_error_e2big, signal_of, Iconv, IconvHandle, LossyIconv, Next, Report, Signal, Stream,
};
use iconv_native::sys::win::utf16::{utf16_to_wide, utf16_to_wide_lossy};
use iconv_native::sys::win::utf32::{
    utf32_to_wide, utf32_to_wide_lossy, wide_to_utf32, wide_to_utf32_lossy,
};
use iconv_native::sys::win::wide::{
    decode_wide, encode_wide, resume, system_failure, Step, SystemCall, WideSource, WideTarget,
};
use iconv_native::sys::win::{convert, convert_lossy, decode, decode_lossy, TextStep};
use iconv_native::{ConvertError, ConvertLossyError};

fn report(consumed: usize, written: usize, signal: Signal) -> Report {
    Report { consumed, written, signal }
}

fn done(step: Result<Step, ConvertError>) -> Vec<u8> {
    match step {
        Ok(Step::Done(bytes)) => bytes,
        other => panic!("not done: {other:?}"),
    }
}

#[test]
fn names_of_a_strict_and_a_lossy_converter() {
    let iconv = Iconv::new("gb18030", "utf-8").ok().unwrap();
    assert_eq!(iconv.0.from_name, "gb18030");
    assert_eq!(iconv.0.to_name, "utf-8");
    assert!(!iconv.0.lossy);
    let lossy = LossyIconv::new("gb18030", "utf-8").ok().unwrap();
    assert_eq!(lossy.0.from_name, "gb18030");
    assert_eq!(lossy.0.to_name, "utf-8//IGNORE//TRANSLIT");
    assert!(lossy.0.lossy);
    let own = LossyIconv::new("utf-8", "ascii//TRANSLIT").ok().unwrap();
    assert_eq!(own.0.to_name, "ascii//TRANSLIT");
    let one_slash = IconvHandle::new("utf-8", "a/b/c", true).ok().unwrap();
    assert_eq!(one_slash.to_name, "a/b/c//IGNORE//TRANSLIT");
    let strict = IconvHandle::new("utf-8", "ascii", false).ok().unwrap();
    assert_eq!(strict.to_name, "ascii");
}

#[test]
fn a_label_with_a_zero_byte_names_nothing() {
    assert!(matches!(
        Iconv::new("utf\0-8", "utf-16"),
        Err(ConvertLossyError::UnknownConversion)
    ));
    assert!(matches!(
        LossyIconv::new("utf-8", "utf-16\0"),
        Err(ConvertLossyError::UnknownConversion)
    ));
    assert!(matches!(
        iconv_native::sys::iconv::convert(b"x", "a\0", "b"),
        Err(ConvertError::UnknownConversion)
    ));
    assert!(matches!(
        iconv_native::sys::iconv::decode_lossy(b"x", "\0"),
        Err(ConvertLossyError::UnknownConversion)
    ));
}

#[test]
fn a_session_starts_with_a_buffer_as_large_as_the_input() {
    let session = iconv_native::sys::iconv::convert(b"abcdef", "latin1", "utf-8").ok().unwrap();
    assert_eq!(session.from_name, "latin1");
    assert_eq!(session.to_name, "utf-8");
    assert_eq!(
        session.stream,
        Stream { input_len: 6, consumed: 0, written: 0, capacity: 6, lossy: false }
    );
    let session = iconv_native::sys::iconv::decode_lossy(b"abc", "latin1").ok().unwrap();
    assert_eq!(session.to_name, "UTF-8//IGNORE//TRANSLIT");
    assert_eq!(session.stream.capacity, 3);
    assert!(session.stream.lossy);
    let session = iconv_native::sys::iconv::decode(b"", "latin1").ok().unwrap();
    assert_eq!(session.to_name, "UTF-8");
    assert_eq!(session.stream.remaining(), 0);
    let session = iconv_native::sys::iconv::convert_lossy(b"ab", "a", "b//x").ok().unwrap();
    assert_eq!(session.to_name, "b//x");
}

#[test]
fn the_loop_grows_the_buffer_and_keeps_the_counts() {
    let mut stream = Stream::new(4, false);
    assert_eq!(stream.remaining(), 4);
    assert_eq!(stream.spare(), 4);
    // Two bytes of input filled the buffer.
    assert_eq!(stream.advance(report(2, 4, Signal::OutputFull)), Next::Call);
    assert_eq!(
        stream,
        Stream { input_len: 4, consumed: 2, written: 4, capacity: 8, lossy: false }
    );
    assert_eq!(stream.remaining(), 2);
    assert_eq!(stream.spare(), 4);
    // No progress at all, but the buffer grows again.
    assert_eq!(stream.advance(report(0, 0, Signal::OutputFull)), Next::Call);
    assert_eq!(stream.capacity, 16);
    // The rest of the input goes through.
    assert_eq!(stream.advance(report(2, 5, Signal::Success)), Next::Call);
    assert_eq!(stream.remaining(), 0);
    assert_eq!(stream.written, 9);
    // The flush call writes a byte more and ends the loop.
    assert_eq!(stream.advance(report(0, 1, Signal::Success)), Next::Finished);
    assert_eq!(stream.finish(Next::Finished), Ok(10));
}

#[test]
fn the_flush_call_may_need_more_room() {
    let mut stream = Stream::new(0, false);
    assert_eq!(stream.remaining(), 0);
    assert_eq!(stream.spare(), 0);
    assert_eq!(stream.advance(report(0, 0, Signal::OutputFull)), Next::Call);
    assert_eq!(stream.capacity, 1);
    assert_eq!(stream.advance(report(0, 1, Signal::OutputFull)), Next::Call);
    assert_eq!(stream.capacity, 2);
    assert_eq!(stream.advance(report(0, 1, Signal::Success)), Next::Finished);
    assert_eq!(stream.finish(Next::Finished), Ok(2));
}

#[test]
fn empty_input_is_one_flush_call() {
    let mut stream = Stream::new(0, true);
    assert_eq!(stream.advance(report(0, 0, Signal::Success)), Next::Finished);
    assert_eq!(stream.finish(Next::Finished), Ok(0));
}

#[test]
fn a_fault_is_final_in_strict_mode_only() {
    let mut strict = Stream::new(6, false);
    assert_eq!(strict.advance(report(3, 3, Signal::Fault)), Next::Invalid);
    assert_eq!(strict.consumed, 3);
    assert_eq!(strict.written, 3);
    assert_eq!(strict.finish(Next::Invalid), Err(ConvertError::InvalidInput));

    let mut lossy = Stream::new(6, true);
    assert_eq!(lossy.advance(report(3, 3, Signal::Fault)), Next::Finished);
    assert_eq!(lossy.finish(Next::Finished), Ok(3));
}

#[test]
fn a_call_without_progress_ends_the_loop() {
    let mut strict = Stream::new(6, false);
    assert_eq!(strict.advance(report(0, 0, Signal::Success)), Next::Invalid);
    let mut lossy = Stream::new(6, true);
    assert_eq!(lossy.advance(report(2, 2, Signal::Success)), Next::Call);
    assert_eq!(lossy.advance(report(0, 1, Signal::Success)), Next::Finished);
    assert_eq!(lossy.finish(Next::Finished), Ok(3));
}

#[test]
fn a_buffer_that_cannot_grow_ends_the_loop() {
    let mut stream =
        Stream { input_len: 8, consumed: 0, written: 0, capacity: usize::MAX / 2 + 1, lossy: false };
    assert_eq!(stream.advance(report(1, 1, Signal::OutputFull)), Next::Call);
    assert_eq!(stream.capacity, usize::MAX);
    assert_eq!(stream.advance(report(1, 1, Signal::OutputFull)), Next::Invalid);
    assert_eq!(stream.capacity, usize::MAX);
    assert_eq!(stream.consumed, 2);
}

#[test]
fn utf16_as_wide_characters() {
    assert_eq!(utf16_to_wide_lossy(b"h\0i", true), vec![0x68, 0xFFFD]);
    assert_eq!(utf16_to_wide_lossy(b"\0\xd8", true), vec![0xD800]);
    assert_eq!(utf16_to_wide_lossy(b"\0h\0i", false), vec![0x68, 0x69]);
    assert_eq!(utf16_to_wide(b"h\0i\0", true), Ok(vec![0x68, 0x69]));
    assert_eq!(utf16_to_wide(b"\x3d\xd8\x00\xde", true), Ok(vec![0xD83D, 0xDE00]));
    assert_eq!(utf16_to_wide(b"h\0i", true), Err(ConvertError::InvalidInput));
    assert_eq!(utf16_to_wide(b"\0\xd8", true), Err(ConvertError::InvalidInput));
    assert_eq!(utf16_to_wide(b"", false), Ok(vec![]));
}

#[test]
fn utf32_as_wide_characters_and_back() {
    assert_eq!(utf32_to_wide(b"\0\x01\xf6\0\0\0\0h", false), Ok(vec![0xD83D, 0xDE00, 0x68]));
    assert_eq!(utf32_to_wide(b"h\0\0", true), Err(ConvertError::InvalidInput));
    assert_eq!(utf32_to_wide(b"\0\0\x11\0", true), Err(ConvertError::InvalidInput));
    assert_eq!(utf32_to_wide_lossy(b"\0\0\x11\0h\0\0\0h", true), vec![0xFFFD, 0x68, 0xFFFD]);
    assert_eq!(utf32_to_wide_lossy(b"\0\x01\xf6\0", false), vec![0xD83D, 0xDE00]);
    assert_eq!(wide_to_utf32(&[0xD83D, 0xDE00, 0x68], false), Ok(b"\0\x01\xf6\0\0\0\0h".to_vec()));
    assert_eq!(wide_to_utf32(&[0x68], true), Ok(b"h\0\0\0".to_vec()));
    assert_eq!(wide_to_utf32(&[0xD83D], true), Err(ConvertError::InvalidInput));
    assert_eq!(wide_to_utf32_lossy(&[0xD83D, 0x68], true), b"\xfd\xff\0\0h\0\0\0".to_vec());
    assert_eq!(wide_to_utf32_lossy(&[0xDE00], false), b"\0\0\xff\xfd".to_vec());
}

#[test]
fn the_stage_into_wide_characters() {
    assert!(matches!(decode_wide(b"", 936, false), WideSource::Ready(w) if w.is_empty()));
    assert!(matches!(
        decode_wide(b"x", 936, false),
        WideSource::System(SystemCall { codepage: 936, size_flags: 8, fill_flags: 0 })
    ));
    assert!(matches!(
        decode_wide(b"x", 936, true),
        WideSource::System(SystemCall { codepage: 936, size_flags: 0, fill_flags: 0 })
    ));
    assert!(matches!(
        decode_wide(b"x", 50220, false),
        WideSource::System(SystemCall { codepage: 50220, size_flags: 0, fill_flags: 0 })
    ));
    assert!(matches!(
        decode_wide(b"x", 65001, false),
        WideSource::System(SystemCall { codepage: 65001, size_flags: 8, fill_flags: 0 })
    ));
}

#[test]
fn the_stage_out_of_wide_characters() {
    let wide: [u16; 2] = [0x68, 0xD83D];
    assert!(matches!(
        encode_wide(&wide, 1200, false, false),
        Ok(WideTarget::Ready(b)) if b == b"h\0\x3d\xd8"
    ));
    assert!(matches!(
        encode_wide(&wide, 1201, true, false),
        Ok(WideTarget::Ready(b)) if b == b"\xfe\xff\0h\xd8\x3d"
    ));
    assert!(matches!(encode_wide(&wide, 12000, true, false), Err(ConvertError::InvalidInput)));
    assert!(matches!(
        encode_wide(&wide, 12000, true, true),
        Ok(WideTarget::Ready(b)) if b == b"\xff\xfe\0\0h\0\0\0\xfd\xff\0\0"
    ));
    assert!(matches!(
        encode_wide(&wide[..1], 12001, true, false),
        Ok(WideTarget::Ready(b)) if b == b"\0\0\xfe\xff\0\0\0h"
    ));
    assert!(matches!(
        encode_wide(&[], 12001, true, false),
        Ok(WideTarget::Ready(b)) if b == b"\0\0\xfe\xff"
    ));
    assert!(matches!(
        encode_wide(&wide, 65001, false, false),
        Ok(WideTarget::System {
            call: SystemCall { codepage: 65001, size_flags: 128, fill_flags: 128 },
            prefix
        }) if prefix.is_empty()
    ));
    assert!(matches!(
        encode_wide(&wide, 65001, true, true),
        Ok(WideTarget::System {
            call: SystemCall { codepage: 65001, size_flags: 0, fill_flags: 0 },
            prefix
        }) if prefix == b"\xef\xbb\xbf"
    ));
    assert!(matches!(
        encode_wide(&wide, 54936, true, false),
        Ok(WideTarget::System {
            call: SystemCall { codepage: 54936, size_flags: 128, fill_flags: 128 },
            prefix
        }) if prefix.is_empty()
    ));
    assert!(matches!(
        encode_wide(&wide, 936, false, false),
        Ok(WideTarget::System {
            call: SystemCall { codepage: 936, size_flags: 0, fill_flags: 0 },
            prefix
        }) if prefix.is_empty()
    ));
    assert!(matches!(encode_wide(&[], 936, false, false), Ok(WideTarget::Ready(b)) if b.is_empty()));
    assert!(matches!(encode_wide(&[], 65001, true, false), Ok(WideTarget::Ready(b)) if b.is_empty()));
}

#[test]
fn what_a_failed_size_call_means() {
    assert_eq!(system_failure(87), ConvertError::UnknownConversion);
    assert_eq!(system_failure(1004), ConvertError::UnknownConversion);
    assert_eq!(system_failure(1113), ConvertError::InvalidInput);
    assert_eq!(system_failure(122), ConvertError::InvalidInput);
    assert_eq!(system_failure(0), ConvertError::InvalidInput);
}

#[test]
fn conversion_by_code_page() {
    assert_eq!(done(convert(b"h\0", "utf-16le", "utf-32be")), b"\0\0\0h");
    assert_eq!(done(convert(b"\xfe\xff\0h", "utf-16", "utf-32")), b"\xff\xfe\0\0h\0\0\0");
    assert_eq!(done(convert(b"\0\0\0h", "utf-32be", "utf-16")), b"\xff\xfeh\0");
    assert_eq!(done(convert(b"\0h", "utf-16be", "utf-16le")), b"h\0");
    // One code page under two labels: the input comes back.
    assert_eq!(done(convert(b"\xff\xfeh\0\0", "utf-16", "utf-16le")), b"\xff\xfeh\0\0");
    assert_eq!(done(convert(b"\xff", "cp936", "gbk")), b"\xff");
    assert_eq!(done(convert(b"", "gbk", "utf-16le")), b"");
    assert_eq!(done(convert(b"", "gbk", "big5")), b"");
    assert!(matches!(convert(b"h\0i", "utf-16le", "utf-32"), Err(ConvertError::InvalidInput)));
    assert!(matches!(convert(b"x", "klingon", "utf-8"), Err(ConvertError::UnknownConversion)));
    assert!(matches!(convert(b"x", "utf-8", "klingon"), Err(ConvertError::UnknownConversion)));
    assert!(matches!(
        convert_lossy(b"x", "klingon", "utf-8"),
        Err(ConvertLossyError::UnknownConversion)
    ));
    assert!(matches!(
        convert(b"x", "gbk", "utf-8"),
        Ok(Step::Decode(SystemCall { codepage: 936, size_flags: 8, fill_flags: 0 }))
    ));
    assert!(matches!(
        convert_lossy(b"x", "utf-8", "utf-16"),
        Ok(Step::Decode(SystemCall { codepage: 65001, size_flags: 0, fill_flags: 0 }))
    ));
    assert!(matches!(
        convert(b"h\0", "utf-16le", "gb18030"),
        Ok(Step::Encode {
            wide,
            call: SystemCall { codepage: 54936, size_flags: 128, fill_flags: 128 },
            prefix
        }) if wide == [0x68] && prefix.is_empty()
    ));
    assert!(matches!(
        convert_lossy(b"h\0i", "utf-16le", "utf-8"),
        Ok(Step::Encode {
            wide,
            call: SystemCall { codepage: 65001, size_flags: 0, fill_flags: 0 },
            prefix
        }) if wide == [0x68, 0xFFFD] && prefix.is_empty()
    ));
    assert!(matches!(
        convert_lossy(b"h\0i", "utf-16le", "utf-32le"),
        Ok(Step::Done(bytes)) if bytes == b"h\0\0\0\xfd\xff\0\0"
    ));
}

#[test]
fn conversion_goes_on_with_the_wide_characters_of_the_system() {
    assert_eq!(done(resume(vec![0x68], "utf-16", 1200, false)), b"\xff\xfeh\0");
    assert_eq!(done(resume(vec![0x68], "utf-16be", 1201, false)), b"\0h");
    // Wide characters that bring a mark get no second one.
    assert_eq!(done(resume(vec![0xFEFF, 0x68], "utf-16", 1200, false)), b"\xff\xfeh\0");
    assert_eq!(done(resume(vec![0xFEFF], "utf-32", 12000, true)), b"\xff\xfe\0\0");
    assert_eq!(done(resume(vec![0x68, 0xFEFF], "utf-16", 1200, false)), b"\xff\xfeh\0\xff\xfe");
    assert_eq!(done(resume(vec![], "utf-16", 1200, false)), b"\xff\xfe");
    assert_eq!(done(resume(vec![], "gbk", 936, false)), b"");
    assert!(matches!(
        resume(vec![0xD800], "utf-32", 12000, false),
        Err(ConvertError::InvalidInput)
    ));
    assert!(matches!(
        resume(vec![0x68], "utf-8", 65001, false),
        Ok(Step::Encode { wide, call: SystemCall { codepage: 65001, size_flags: 128, fill_flags: 128 }, prefix })
            if wide == [0x68] && prefix.is_empty()
    ));
}

#[test]
fn decoding_by_code_page() {
    assert!(matches!(decode(b"\0h", "utf-16be"), Ok(TextStep::Text(t)) if t == "h"));
    assert!(matches!(decode(b"h", "utf-8"), Ok(TextStep::Text(t)) if t == "h"));
    assert!(matches!(decode(b"h\0i", "utf-16"), Err(ConvertError::InvalidInput)));
    assert!(matches!(decode_lossy(b"h\0i", "utf-16"), Ok(TextStep::Text(t)) if t == "h\u{fffd}"));
    assert!(matches!(decode(b"x", "klingon"), Err(ConvertError::UnknownConversion)));
    assert!(matches!(decode_lossy(b"x", "klingon"), Err(ConvertLossyError::UnknownConversion)));
    assert!(matches!(
        decode(b"x", "gbk"),
        Ok(TextStep::Convert(Step::Decode(SystemCall {
            codepage: 936,
            size_flags: 8,
            fill_flags: 0
        })))
    ));
    assert!(matches!(
        decode_lossy(b"x", "big5"),
        Ok(TextStep::Convert(Step::Decode(SystemCall {
            codepage: 950,
            size_flags: 0,
            fill_flags: 0
        })))
    ));
    assert!(matches!(decode(b"", "gbk"), Ok(TextStep::Convert(Step::Done(b))) if b.is_empty()));
}

#[test]
fn both_ways_agree_between_utf16_and_utf32() {
    let inputs: [&[u8]; 6] = [
        b"",
        b"h\0i\0",
        b"\xff\xfeh\0i\0",
        b"\xfe\xff\0h\0i",
        b"\xff\xfe\0\0h\0\0\0",
        b"\x3d\xd8\x00\xde",
    ];
    let labels = ["utf-16", "utf-16le", "utf-16be", "utf-32", "utf-32le", "utf-32be"];
    for input in inputs {
        for from in labels {
            for to in labels {
                if iconv_native::codepage::encoding_to_codepage(from)
                    == iconv_native::codepage::encoding_to_codepage(to)
                {
                    continue;
                }
                let through_codec = iconv_native::convert(input, from, to);
                match convert(input, from, to) {
                    Ok(Step::Done(bytes)) => {
                        assert_eq!(Ok(Conversion::Done(bytes)), through_codec, "{from} {to}")
                    }
                    Ok(other) => panic!("{from} {to}: {other:?}"),
                    Err(e) => assert_eq!(Err(e), through_codec, "{from} {to}"),
                }
            }
        }
    }
}

#[test]
fn what_a_call_signals() {
    assert!(is_last_error_e2big(Some(7)));
    assert!(!is_last_error_e2big(Some(84)));
    assert!(!is_last_error_e2big(Some(22)));
    assert!(!is_last_error_e2big(Some(0)));
    assert!(!is_last_error_e2big(None));
    assert_eq!(signal_of(false, false), Signal::Success);
    // A stale error code means nothing after a call that succeeded.
    assert_eq!(signal_of(false, true), Signal::Success);
    assert_eq!(signal_of(true, true), Signal::OutputFull);
    assert_eq!(signal_of(true, false), Signal::Fault);
}

#[test]
fn the_room_that_a_call_left_doubles_with_the_buffer() {
    let mut stream = Stream { input_len: 10, consumed: 0, written: 0, capacity: 8, lossy: false };
    assert_eq!(stream.advance(report(3, 6, Signal::OutputFull)), Next::Call);
    // Two bytes of room were left: there are ten now.
    assert_eq!(stream.capacity, 16);
    assert_eq!(stream.spare(), 10);
    assert_eq!(stream.remaining(), 7);
}

#[test]
fn reports_that_a_state_accepts() {
    let stream = Stream { input_len: 10, consumed: 4, written: 3, capacity: 8, lossy: false };
    assert!(stream.accepts(&report(6, 5, Signal::Success)));
    assert!(stream.accepts(&report(0, 0, Signal::Fault)));
    assert!(!stream.accepts(&report(7, 0, Signal::Success)));
    assert!(!stream.accepts(&report(0, 6, Signal::OutputFull)));
    let broken = Stream { input_len: 1, consumed: 2, written: 0, capacity: 8, lossy: false };
    assert!(!broken.accepts(&report(0, 0, Signal::Success)));
    let broken = Stream { input_len: 1, consumed: 0, written: 9, capacity: 8, lossy: false };
    assert!(!broken.accepts(&report(0, 0, Signal::Success)));
}

#[test]
fn what_a_loop_comes_to() {
    let strict = IconvHandle::new("gb18030", "utf-8", false).ok().unwrap();
    let lossy = IconvHandle::new("gb18030", "utf-8", true).ok().unwrap();
    // Two calls that ran out of room, the rest of the input, the flush.
    let reports = [
        report(2, 4, Signal::OutputFull),
        report(0, 0, Signal::OutputFull),
        report(2, 5, Signal::Success),
        report(0, 1, Signal::Success),
    ];
    assert_eq!(strict.convert(b"abcd", &reports), Some(Ok(10)));
    assert_eq!(lossy.convert(b"abcd", &reports), Some(Ok(10)));
    // The flush is missing, or something follows it.
    assert_eq!(strict.convert(b"abcd", &reports[..3]), None);
    assert_eq!(strict.convert(b"abcd", &[]), None);
    let mut longer = reports.to_vec();
    longer.push(report(0, 0, Signal::Success));
    assert_eq!(strict.convert(b"abcd", &longer), None);
    // A call cannot consume more than it was offered, nor write more than
    // there was room.
    assert_eq!(strict.convert(b"ab", &[report(3, 0, Signal::Success)]), None);
    assert_eq!(strict.convert(b"ab", &[report(1, 3, Signal::Success)]), None);
}

#[test]
fn empty_input_is_the_flush_alone() {
    let strict = IconvHandle::new("gb18030", "utf-8", false).ok().unwrap();
    assert_eq!(strict.convert(b"", &[report(0, 0, Signal::Success)]), Some(Ok(0)));
    // A flush that has something to write asks for room first.
    let reports = [
        report(0, 0, Signal::OutputFull),
        report(0, 1, Signal::OutputFull),
        report(0, 1, Signal::Success),
    ];
    assert_eq!(strict.convert(b"", &reports), Some(Ok(2)));
}

#[test]
fn a_fault_ends_the_loop_with_the_output_so_far() {
    let strict = Iconv::new("gb18030", "utf-8").ok().unwrap();
    let lossy = LossyIconv::new("gb18030", "utf-8").ok().unwrap();
    let reports = [report(2, 2, Signal::Success), report(1, 3, Signal::Fault)];
    assert_eq!(
        strict.0.convert(b"abcdef", &reports),
        Some(Err((5, ConvertError::InvalidInput)))
    );
    assert_eq!(strict.convert(b"abcdef", &reports), Some(Err(ConvertError::InvalidInput)));
    assert_eq!(lossy.0.convert(b"abcdef", &reports), Some(Ok(5)));
    assert_eq!(lossy.convert(b"abcdef", &reports), Some(5));
    assert_eq!(lossy.convert(b"abcdef", &reports[..1]), None);
    let whole = [report(6, 6, Signal::Success), report(0, 0, Signal::Success)];
    assert_eq!(strict.convert(b"abcdef", &whole), Some(Ok(6)));
    assert_eq!(lossy.convert(b"abcdef", &whole), Some(6));
}
