use iconv_native::bom::ByteOrderMark;
use iconv_native::utf::{is_byte_order_ambiguous, UtfEncoding, UtfType};

#[test]
fn test_utf_encoding_parse() {
    let testcases = [
        ("utf-8", UtfType::Utf8, ByteOrderMark::NotPresent),
        ("utf-16", UtfType::Utf16, ByteOrderMark::NotPresent),
        ("utf-32", UtfType::Utf32, ByteOrderMark::NotPresent),
        ("utf-16le", UtfType::Utf16, ByteOrderMark::Le),
        ("utf-16be", UtfType::Utf16, ByteOrderMark::Be),
        ("utf-32le", UtfType::Utf32, ByteOrderMark::Le),
        ("utf-32be", UtfType::Utf32, ByteOrderMark::Be),
    ];
    for (input, utf_type, byte_order) in testcases.iter() {
        let encoding = UtfEncoding::parse(input).expect(&input);
        assert_eq!(encoding.utf_type, *utf_type, "{input}");
        assert_eq!(encoding.byte_order, *byte_order, "{input}");
    }
}

#[test]
fn test_utf_encoding_parse_invalid() {
    let testcases = ["utf", "utf-9", "utf-16lebe", "wtf-32"];
    for input in testcases.iter() {
        let encoding = UtfEncoding::parse(input);
        assert!(encoding.is_none(), "{input}");
    }
}

#[test]
fn test_utf_encoding_is_ambiguous() {
    let testcases = [
        ("utf-8", false),
        ("utf-16", true),
        ("utf-32", true),
        ("utf-16le", false),
        ("utf-16be", false),
        ("utf-32le", false),
        ("utf-32be", false),
    ];
    for (input, expected) in testcases.iter() {
        let encoding = UtfEncoding::parse(input).expect(&input);
        assert_eq!(encoding.is_ambiguous(), *expected, "{input}");
    }
}

#[test]
fn test_utf_encoding_consume_input_bom() {
    let testcases = [
        (
            "utf-8",
            &b"hello"[..],
            ByteOrderMark::NotPresent,
            &b"hello"[..],
        ),
        ("utf-16", b"hello", ByteOrderMark::NotPresent, b"hello"),
        ("utf-16", b"\xff\xfehello", ByteOrderMark::Le, b"hello"),
        ("utf-16", b"\xfe\xffhello", ByteOrderMark::Be, b"hello"),
        ("utf-16be", b"hello", ByteOrderMark::Be, b"hello"),
        (
            "utf-16be",
            b"\xff\xfehello",
            ByteOrderMark::Be,
            b"\xff\xfehello",
        ),
        (
            "utf-16be",
            b"\xfe\xffhello",
            ByteOrderMark::Be,
            b"\xfe\xffhello",
        ),
        ("utf-16le", b"hello", ByteOrderMark::Le, b"hello"),
        (
            "utf-16le",
            b"\xff\xfehello",
            ByteOrderMark::Le,
            b"\xff\xfehello",
        ),
        (
            "utf-16le",
            b"\xfe\xffhello",
            ByteOrderMark::Le,
            b"\xfe\xffhello",
        ),
        ("utf-32", b"hello", ByteOrderMark::NotPresent, b"hello"),
        (
            "utf-32",
            b"\xff\xfe\x00\x00hello",
            ByteOrderMark::Le,
            b"hello",
        ),
        (
            "utf-32",
            b"\x00\x00\xfe\xffhello",
            ByteOrderMark::Be,
            b"hello",
        ),
        ("utf-32be", b"hello", ByteOrderMark::Be, b"hello"),
        (
            "utf-32be",
            b"\xff\xfe\x00\x00hello",
            ByteOrderMark::Be,
            b"\xff\xfe\x00\x00hello",
        ),
        (
            "utf-32be",
            b"\x00\x00\xfe\xffhello",
            ByteOrderMark::Be,
            b"\x00\x00\xfe\xffhello",
        ),
        ("utf-32le", b"hello", ByteOrderMark::Le, b"hello"),
        (
            "utf-32le",
            b"\xff\xfe\x00\x00hello",
            ByteOrderMark::Le,
            b"\xff\xfe\x00\x00hello",
        ),
        (
            "utf-32le",
            b"\x00\x00\xfe\xffhello",
            ByteOrderMark::Le,
            b"\x00\x00\xfe\xffhello",
        ),
    ];
    for (idx, (encoding, input, expected_bom, expected_input)) in
        testcases.into_iter().enumerate()
    {
        let idx = idx.to_string();
        let mut input = input;
        let encoding = UtfEncoding::parse(encoding).expect(&idx);
        let bom = encoding.consume_input_bom(&mut input);
        assert_eq!(bom, expected_bom, "{idx}");
        assert_eq!(input, expected_input, "{idx}");
    }
}

#[test]
fn parse_reads_every_spelling_of_utf8() {
    let expected = UtfEncoding {
        utf_type: UtfType::Utf8,
        byte_order: ByteOrderMark::NotPresent,
    };
    for label in ["utf8", "uTf-8", "UTF_8", "Utf 8"] {
        assert_eq!(UtfEncoding::parse(label), Some(expected), "{label}");
    }
}

#[test]
fn parse_reads_the_byte_order_in_any_case() {
    assert_eq!(
        UtfEncoding::parse("UTF-16LE").map(|e| e.byte_order()),
        Some(ByteOrderMark::Le)
    );
    assert_eq!(
        UtfEncoding::parse("utf_32-BE").map(|e| e.byte_order()),
        Some(ByteOrderMark::Be)
    );
    let utf16 = |byte_order| Some(UtfEncoding { utf_type: UtfType::Utf16, byte_order });
    assert_eq!(UtfEncoding::parse("utf-16Le"), utf16(ByteOrderMark::Le));
    assert_eq!(UtfEncoding::parse("utf-16lE"), utf16(ByteOrderMark::Le));
    assert_eq!(UtfEncoding::parse("utf-16bE"), utf16(ByteOrderMark::Be));
    assert_eq!(UtfEncoding::parse("UTF 16 Be"), utf16(ByteOrderMark::Be));
    assert_eq!(
        UtfEncoding::parse("Utf32_lE").map(|e| (e.utf_type(), e.byte_order())),
        Some((UtfType::Utf32, ByteOrderMark::Le))
    );
    assert_eq!(UtfEncoding::parse("utf-16--le"), None);
    assert_eq!(UtfEncoding::parse("utf-16l"), None);
    assert_eq!(UtfEncoding::parse("utf-16lee"), None);
    assert_eq!(UtfEncoding::parse("utf-16me"), None);
}

#[test]
fn getters_report_the_fields() {
    let encoding = UtfEncoding::parse("utf-32be").unwrap();
    assert_eq!(encoding.utf_type(), UtfType::Utf32);
    assert_eq!(encoding.byte_order(), ByteOrderMark::Be);
    assert!(encoding.is_utf32());
    assert!(!encoding.is_utf16());
    assert!(!encoding.is_utf8());
    assert!(UtfEncoding::parse("utf8").unwrap().is_utf8());
    assert!(UtfEncoding::parse("utf16").unwrap().is_utf16());
}

#[test]
fn strip_bom_takes_only_the_mark_of_the_encoding() {
    let cases: [(&str, &[u8], bool, &[u8]); 9] = [
        ("utf-8", b"\xef\xbb\xbfhi", true, b"hi"),
        ("utf-8", b"hi", false, b"hi"),
        ("utf-8", b"\xef\xbb", false, b"\xef\xbb"),
        ("utf-16le", b"\xff\xfeh\0", true, b"h\0"),
        ("utf-16le", b"\xfe\xff\0h", false, b"\xfe\xff\0h"),
        ("utf-16be", b"\xfe\xff\0h", true, b"\0h"),
        ("utf-16", b"\xff\xfeh\0", false, b"\xff\xfeh\0"),
        ("utf-32be", b"\0\0\xfe\xff\0\0\0h", true, b"\0\0\0h"),
        ("utf-32le", b"\xff\xfe\0\0", true, b""),
    ];
    for (label, input, stripped, rest) in cases {
        let encoding = UtfEncoding::parse(label).unwrap();
        let mut bytes = input;
        assert_eq!(encoding.strip_bom(&mut bytes), stripped, "{label}");
        assert_eq!(bytes, rest, "{label}");
    }
}

#[test]
fn byte_order_mark_queries() {
    assert!(ByteOrderMark::Le.is_present());
    assert!(ByteOrderMark::Be.is_present());
    assert!(!ByteOrderMark::NotPresent.is_present());
    assert!(ByteOrderMark::Le.is_le(false));
    assert!(!ByteOrderMark::Be.is_le(true));
    assert!(ByteOrderMark::NotPresent.is_le(true));
    assert!(!ByteOrderMark::NotPresent.is_le(false));
}

#[test]
fn ambiguity_by_label() {
    for label in ["utf-16", "UTF_32", "utf16", "Utf 32-"] {
        assert!(is_byte_order_ambiguous(label), "{label}");
    }
    for label in ["utf-8", "utf-16le", "utf-32BE", "latin1", "", "utf", "utf-16x"] {
        assert!(!is_byte_order_ambiguous(label), "{label}");
    }
}
