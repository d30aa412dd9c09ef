use iconv_native::encoding::{
    match_encoding_parts, match_encoding_parts_exact, trim_encoding_prefix,
};

#[test]
fn test_trim_encoding_prefix() {
    let testcases = [
        ("utf8", "UTf", Some("8")),
        ("uTf-8", "utf", Some("8")),
        ("UTF_8", "utf", Some("8")),
        ("UTf 8", "utf", Some("8")),
        ("utf", "utf", Some("")),
        ("ut", "utf", None),
    ];

    for (input, prefix, expected) in testcases {
        assert_eq!(
            trim_encoding_prefix(input, prefix),
            expected,
            "{input}, {prefix}, {expected:?}"
        );
    }
}

#[test]
fn test_match_encoding_parts() {
    let testcases = [
        ("utf8", &["utf"][..], Some("8")),
        ("uTf-8", &["utf", "8"], Some("")),
        ("utf_7", &["utf", "8"], None),
        ("utf-16be", &["utf"], Some("16be")),
        ("utf-16be", &["utf", "16"], Some("be")),
        ("utf-16be", &["utf", "16", "be"], Some("")),
        ("utf-16be", &["utf", "16", "le"], None),
        ("utf-16be", &["utf", "8"], None),
        ("utf-16-BE", &["utf", "16", "be"], Some("")),
    ];
    for (input, parts, expected) in testcases {
        assert_eq!(
            match_encoding_parts(input, parts),
            expected,
            "{input}, {parts:?}, {expected:?}"
        );
    }
}

#[test]
fn test_match_encoding_parts_exact() {
    let testcases = [
        ("utf8", &["utf"][..], false),
        ("uTf-8", &["utf", "8"], true),
        ("utf_7", &["utf", "8"], false),
        ("utf-16be", &["utf"], false),
        ("utf-16be", &["utf", "16"], false),
        ("utf-16be", &["utf", "16", "be"], true),
        ("utf-16be", &["utf", "16", "le"], false),
        ("utf-16be", &["utf", "8"], false),
        ("utf-16-BE", &["utf", "16", "be"], true),
    ];
    for (input, parts, expected) in testcases {
        assert_eq!(
            match_encoding_parts_exact(input, parts),
            expected,
            "{input}, {parts:?}, {expected}"
        );
    }
}

#[test]
fn trim_takes_one_separator_only() {
    assert_eq!(trim_encoding_prefix("utf--8", "utf"), Some("-8"));
    assert_eq!(trim_encoding_prefix("utf_ 8", "UTF"), Some(" 8"));
    assert_eq!(trim_encoding_prefix("utf.8", "utf"), Some(".8"));
}

#[test]
fn trim_with_empty_prefix_and_empty_input() {
    assert_eq!(trim_encoding_prefix("", ""), Some(""));
    assert_eq!(trim_encoding_prefix("-x", ""), Some("x"));
    assert_eq!(trim_encoding_prefix("", "a"), None);
}

#[test]
fn trim_stops_inside_a_character() {
    // "é" is C3 A9: a prefix of one byte would end inside it.
    assert_eq!(trim_encoding_prefix("\u{e9}x", "a"), None);
    assert_eq!(trim_encoding_prefix("a\u{e9}", "a"), Some("\u{e9}"));
    assert_eq!(trim_encoding_prefix("\u{e9}-b", "\u{e9}"), Some("b"));
}

#[test]
fn match_with_no_parts_gives_the_input() {
    let none: [&str; 0] = [];
    assert_eq!(match_encoding_parts("anything", &none), Some("anything"));
    assert!(match_encoding_parts_exact("", &none));
    assert!(!match_encoding_parts_exact("x", &none));
}
