use iconv_native::bom::{get_utf16_bom, get_utf32_bom, get_utf8_bom, ByteOrderMark};
use iconv_native::units::{read_units16, read_units32, write_units16, write_units32};
use iconv_native::utf::{
    decode_utf, decode_utf_lossy, encode_utf, string_to_utf16, string_to_utf32, UtfEncoding,
};
use iconv_native::wide::{try_decode_utf16_lossy, try_decode_utf32_lossy};
use iconv_native::ConvertError;

fn enc(label: &str) -> UtfEncoding {
    UtfEncoding::parse(label).unwrap()
}

#[test]
fn marks_are_found_bit_exact() {
    assert_eq!(get_utf8_bom(b"\xef\xbb\xbf"), ByteOrderMark::Le);
    assert_eq!(get_utf8_bom(b"\xef\xbb"), ByteOrderMark::NotPresent);
    assert_eq!(get_utf8_bom(b"\xef\xbb\xbe"), ByteOrderMark::NotPresent);
    assert_eq!(get_utf8_bom(b""), ByteOrderMark::NotPresent);
    assert_eq!(get_utf16_bom(b"\xff\xfe"), ByteOrderMark::Le);
    assert_eq!(get_utf16_bom(b"\xfe\xff"), ByteOrderMark::Be);
    assert_eq!(get_utf16_bom(b"\xff"), ByteOrderMark::NotPresent);
    assert_eq!(get_utf16_bom(b"\xff\xff"), ByteOrderMark::NotPresent);
    assert_eq!(get_utf32_bom(b"\xff\xfe\0\0"), ByteOrderMark::Le);
    assert_eq!(get_utf32_bom(b"\0\0\xfe\xff"), ByteOrderMark::Be);
    assert_eq!(get_utf32_bom(b"\xff\xfe\0"), ByteOrderMark::NotPresent);
    assert_eq!(get_utf32_bom(b"\xff\xfe\0\x01"), ByteOrderMark::NotPresent);
    assert_eq!(get_utf32_bom(b"\xfe\xff\0\0"), ByteOrderMark::NotPresent);
}

#[test]
fn units_in_both_byte_orders() {
    assert_eq!(read_units16(b"\x12\x34\x56\x78\x9a", true), vec![0x3412, 0x7856]);
    assert_eq!(read_units16(b"\x12\x34\x56\x78\x9a", false), vec![0x1234, 0x5678]);
    assert_eq!(read_units16(b"\x12", true), Vec::<u16>::new());
    assert_eq!(read_units32(b"\x12\x34\x56\x78\x9a\xbc", true), vec![0x78563412]);
    assert_eq!(read_units32(b"\x12\x34\x56\x78", false), vec![0x12345678]);
    let mut out = vec![0xAAu8];
    write_units16(&mut out, &[0x1234, 0xFFFE], true);
    assert_eq!(out, vec![0xAA, 0x34, 0x12, 0xFE, 0xFF]);
    let mut out = vec![];
    write_units16(&mut out, &[0x1234, 0xFFFE], false);
    assert_eq!(out, vec![0x12, 0x34, 0xFF, 0xFE]);
    let mut out = vec![0x01u8];
    write_units32(&mut out, &[0x12345678, 0xFFFFFFFF], true);
    assert_eq!(out, vec![0x01, 0x78, 0x56, 0x34, 0x12, 0xFF, 0xFF, 0xFF, 0xFF]);
    let mut out = vec![];
    write_units32(&mut out, &[0x12345678], false);
    assert_eq!(out, vec![0x12, 0x34, 0x56, 0x78]);
}

#[test]
fn strict_decoding() {
    assert_eq!(decode_utf(b"h\0i\0", enc("utf-16le")), Ok("hi".to_string()));
    assert_eq!(decode_utf(b"\0h\0i", enc("utf-16be")), Ok("hi".to_string()));
    assert_eq!(decode_utf(b"h\0i\0", enc("utf-16")), Ok("hi".to_string()));
    assert_eq!(decode_utf(b"\xfe\xff\0h\0i", enc("utf-16")), Ok("hi".to_string()));
    assert_eq!(decode_utf(b"\xff\xfeh\0i\0", enc("utf-16")), Ok("hi".to_string()));
    assert_eq!(decode_utf(b"\xff\xfeh\0", enc("utf-16le")), Ok("\u{feff}h".to_string()));
    assert_eq!(decode_utf(b"\x3d\xd8\x00\xde", enc("utf-16le")), Ok("\u{1f600}".to_string()));
    assert_eq!(decode_utf(b"\0\0\0h", enc("utf-32be")), Ok("h".to_string()));
    assert_eq!(decode_utf(b"\0\0\xfe\xff\0\x01\xf6\0", enc("utf-32")), Ok("\u{1f600}".to_string()));
    assert_eq!(decode_utf(b"h\xc3\xa9", enc("utf-8")), Ok("h\u{e9}".to_string()));
    assert_eq!(decode_utf(b"\xef\xbb\xbfh", enc("utf-8")), Ok("\u{feff}h".to_string()));
    assert_eq!(decode_utf(b"", enc("utf-32")), Ok(String::new()));
}

#[test]
fn strict_decoding_fails_on_malformed_input() {
    let cases: [(&[u8], &str); 9] = [
        (b"h\0i", "utf-16le"),
        (b"\x00\xd8", "utf-16le"),
        (b"\x00\xdc\x00\xd8", "utf-16le"),
        (b"\x00\xd8h\0", "utf-16le"),
        (b"\0\0\0", "utf-32be"),
        (b"\0\x11\0\0", "utf-32be"),
        (b"\0\0\xd8\0", "utf-32be"),
        (b"\xc3", "utf-8"),
        (b"\xf4\x90\x80\x80", "utf-8"),
    ];
    for (input, label) in cases {
        assert_eq!(
            decode_utf(input, enc(label)),
            Err(ConvertError::InvalidInput),
            "{input:?} {label}"
        );
    }
}

#[test]
fn lossy_decoding() {
    assert_eq!(decode_utf_lossy(b"h\0i", enc("utf-16le")), "h\u{fffd}");
    assert_eq!(decode_utf_lossy(b"\x00\xd8", enc("utf-16le")), "\u{fffd}");
    assert_eq!(decode_utf_lossy(b"\x00\xdc\x00\xd8", enc("utf-16le")), "\u{fffd}\u{fffd}");
    assert_eq!(decode_utf_lossy(b"\x00\xd8h\0", enc("utf-16le")), "\u{fffd}h");
    assert_eq!(decode_utf_lossy(b"\x00\xd8\x00\xd8\x00\xdc", enc("utf-16le")), "\u{fffd}\u{10000}");
    assert_eq!(decode_utf_lossy(b"\0\0\0", enc("utf-32be")), "\u{fffd}");
    assert_eq!(decode_utf_lossy(b"\0\x11\0\0\0\0\0h\0", enc("utf-32be")), "\u{fffd}h\u{fffd}");
    assert_eq!(decode_utf_lossy(b"\0\0\xd8\0", enc("utf-32be")), "\u{fffd}");
    assert_eq!(decode_utf_lossy(b"a\xc3", enc("utf-8")), "a\u{fffd}");
    assert_eq!(decode_utf_lossy(b"\xfe\xff\0h\0", enc("utf-16")), "h\u{fffd}");
    assert_eq!(decode_utf_lossy(b"", enc("utf-16")), "");
    assert_eq!(decode_utf_lossy(b"h\0i\0", enc("utf-16")), "hi");
}

#[test]
fn encoding_with_and_without_mark() {
    assert_eq!(string_to_utf16("hi", false, true), b"h\0i\0");
    assert_eq!(string_to_utf16("hi", false, false), b"\0h\0i");
    assert_eq!(string_to_utf16("hi", true, true), b"\xff\xfeh\0i\0");
    assert_eq!(string_to_utf16("hi", true, false), b"\xfe\xff\0h\0i");
    assert_eq!(string_to_utf16("\u{1f600}", false, false), b"\xd8\x3d\xde\x00");
    assert_eq!(string_to_utf16("", true, false), b"\xfe\xff");
    assert_eq!(string_to_utf32("h", false, true), b"h\0\0\0");
    assert_eq!(string_to_utf32("h", false, false), b"\0\0\0h");
    assert_eq!(string_to_utf32("h", true, true), b"\xff\xfe\0\0h\0\0\0");
    assert_eq!(string_to_utf32("h", true, false), b"\0\0\xfe\xff\0\0\0h");
    assert_eq!(string_to_utf32("\u{10ffff}", false, false), b"\0\x10\xff\xff");
    assert_eq!(string_to_utf32("", false, true), b"");
}

#[test]
fn encoding_by_encoding() {
    assert_eq!(encode_utf("h\u{e9}", enc("utf-8")), b"h\xc3\xa9");
    assert_eq!(encode_utf("h", enc("utf-16")), b"\xff\xfeh\0");
    assert_eq!(encode_utf("h", enc("utf-16be")), b"\0h");
    assert_eq!(encode_utf("h", enc("utf-32")), b"\xff\xfe\0\0h\0\0\0");
    assert_eq!(encode_utf("\u{feff}h", enc("utf-16")), b"\xff\xfeh\0");
    assert_eq!(encode_utf("\u{feff}h", enc("utf-16be")), b"\xfe\xff\0h");
    assert_eq!(encode_utf("\u{feff}", enc("utf-32")), b"\xff\xfe\0\0");
    assert_eq!(encode_utf("\u{feff}h", enc("utf-8")), b"\xef\xbb\xbfh");
    assert_eq!(encode_utf("", enc("utf-8")), b"");
    assert_eq!(encode_utf("", enc("utf-16")), b"\xff\xfe");
    assert_eq!(encode_utf("", enc("utf-16le")), b"");
}

#[test]
fn lossy_decoding_by_label() {
    assert_eq!(try_decode_utf16_lossy(b"h\0i\0", "utf-16"), Some("hi".to_string()));
    assert_eq!(try_decode_utf16_lossy(b"\0h\0i", "UTF_16-BE"), Some("hi".to_string()));
    assert_eq!(try_decode_utf16_lossy(b"\0h\0i", "utf-16Be"), Some("hi".to_string()));
    // The mark outranks the label.
    assert_eq!(try_decode_utf16_lossy(b"\xff\xfeh\0", "utf-16be"), Some("h".to_string()));
    assert_eq!(try_decode_utf16_lossy(b"\xfe\xff\0h", "utf-16le"), Some("h".to_string()));
    assert_eq!(try_decode_utf16_lossy(b"h\0i", "utf16le"), Some("h\u{fffd}".to_string()));
    assert_eq!(try_decode_utf16_lossy(b"\0\xd8", "utf16"), Some("\u{fffd}".to_string()));
    assert_eq!(try_decode_utf16_lossy(b"h\0", "utf-32"), None);
    assert_eq!(try_decode_utf16_lossy(b"h\0", "utf-8"), None);
    assert_eq!(try_decode_utf16_lossy(b"h\0", "ucs-2"), None);

    assert_eq!(try_decode_utf32_lossy(b"h\0\0\0", "utf-32", false), Some("h".to_string()));
    assert_eq!(try_decode_utf32_lossy(b"h\0\0\0", "utf-32", true), Some("h".to_string()));
    assert_eq!(try_decode_utf32_lossy(b"\0\0\0h", "utf-32be", true), Some("h".to_string()));
    assert_eq!(
        try_decode_utf32_lossy(b"\xff\xfe\0\0h\0\0\0", "utf-32be", true),
        Some("\u{feff}h".to_string())
    );
    assert_eq!(
        try_decode_utf32_lossy(b"\0\0\xfe\xff\0\0\0h", "utf-32", false),
        Some("h".to_string())
    );
    assert_eq!(
        try_decode_utf32_lossy(b"\0\0\xfe\xff\0\0\0h\0", "utf-32", true),
        Some("\u{feff}h\u{fffd}".to_string())
    );
    assert_eq!(
        try_decode_utf32_lossy(b"\0\0\x11\0", "utf-32le", false),
        Some("\u{fffd}".to_string())
    );
    assert_eq!(try_decode_utf32_lossy(b"h\0\0\0", "utf-16", true), None);
}
