use iconv_native::codepage::{encoding_to_codepage, is_no_flag_codepage, parse_decimal};

#[test]
fn test_encoding_to_codepage_separator() {
    let testcases = [(65001, &["utf8", "UTF-8", "uTF_8"][..])];
    for (expected, inputs) in testcases {
        for input in inputs {
            assert_eq!(
                encoding_to_codepage(input),
                Some(expected),
                "{expected} {input}"
            );
        }
    }
}

#[test]
fn test_encoding_to_codepage_all_official_names() {
    // https://learn.microsoft.com/en-us/windows/win32/intl/code-page-identifiers
    let testcases = [
        (52936, "hz-gb-2312"),
        (708, "ASMO-708"),
        (950, "big5"),
        (21025, "cp1025"),
        (866, "cp866"),
        (875, "cp875"),
        (50221, "csISO2022JP"),
        (720, "DOS-720"),
        (862, "DOS-862"),
        (51936, "EUC-CN"),
        (20932, "EUC-JP"),
        (51932, "euc-jp"),
        (51949, "euc-kr"),
        (54936, "GB18030"),
        (936, "gb2312"),
        (936, "gbk"),
        (52936, "hz-gb-2312"),
        (858, "IBM00858"),
        (20924, "IBM00924"),
        (1047, "IBM01047"),
        (1140, "IBM01140"),
        (1141, "IBM01141"),
        (1142, "IBM01142"),
        (1143, "IBM01143"),
        (1144, "IBM01144"),
        (1145, "IBM01145"),
        (1146, "IBM01146"),
        (1147, "IBM01147"),
        (1148, "IBM01148"),
        (1149, "IBM01149"),
        (37, "IBM037"),
        (1026, "IBM1026"),
        (20273, "IBM273"),
        (20277, "IBM277"),
        (20278, "IBM278"),
        (20280, "IBM280"),
        (20284, "IBM284"),
        (20285, "IBM285"),
        (20290, "IBM290"),
        (20297, "IBM297"),
        (20420, "IBM420"),
        (20423, "IBM423"),
        (20424, "IBM424"),
        (437, "IBM437"),
        (500, "IBM500"),
        (737, "ibm737"),
        (775, "ibm775"),
        (850, "ibm850"),
        (852, "ibm852"),
        (855, "IBM855"),
        (857, "ibm857"),
        (860, "IBM860"),
        (861, "ibm861"),
        (863, "IBM863"),
        (864, "IBM864"),
        (865, "IBM865"),
        (869, "ibm869"),
        (870, "IBM870"),
        (20871, "IBM871"),
        (20880, "IBM880"),
        (20905, "IBM905"),
        (20838, "IBM-Thai"),
        (50220, "iso-2022-jp"),
        // (50222, "iso-2022-jp"),
        (50225, "iso-2022-kr"),
        (28591, "iso-8859-1"),
        (28603, "iso-8859-13"),
        (28605, "iso-8859-15"),
        (28592, "iso-8859-2"),
        (28593, "iso-8859-3"),
        (28594, "iso-8859-4"),
        (28595, "iso-8859-5"),
        (28596, "iso-8859-6"),
        (28597, "iso-8859-7"),
        (28598, "iso-8859-8"),
        (38598, "iso-8859-8-i"),
        (28599, "iso-8859-9"),
        (1361, "Johab"),
        (20866, "koi8-r"),
        (21866, "koi8-u"),
        (949, "ks_c_5601-1987"),
        (10000, "macintosh"),
        (932, "shift_jis"),
        (1201, "unicodeFFFE"),
        (20127, "us-ascii"),
        (1200, "utf-16"),
        (12000, "utf-32"),
        (12001, "utf-32BE"),
        (65000, "utf-7"),
        (65001, "utf-8"),
        (1250, "windows-1250"),
        (1251, "windows-1251"),
        (1252, "windows-1252"),
        (1253, "windows-1253"),
        (1254, "windows-1254"),
        (1255, "windows-1255"),
        (1256, "windows-1256"),
        (1257, "windows-1257"),
        (1258, "windows-1258"),
        (874, "windows-874"),
        (20002, "x_Chinese-Eten"),
        (20000, "x-Chinese_CNS"),
        (20001, "x-cp20001"),
        (20003, "x-cp20003"),
        (20004, "x-cp20004"),
        (20005, "x-cp20005"),
        (20261, "x-cp20261"),
        (20269, "x-cp20269"),
        (20936, "x-cp20936"),
        (20949, "x-cp20949"),
        (50227, "x-cp50227"),
        (20833, "x-EBCDIC-KoreanExtended"),
        (29001, "x-Europa"),
        (20105, "x-IA5"),
        (20106, "x-IA5-German"),
        (20108, "x-IA5-Norwegian"),
        (20107, "x-IA5-Swedish"),
        (57006, "x-iscii-as"),
        (57003, "x-iscii-be"),
        (57002, "x-iscii-de"),
        (57010, "x-iscii-gu"),
        (57008, "x-iscii-ka"),
        (57009, "x-iscii-ma"),
        (57007, "x-iscii-or"),
        (57011, "x-iscii-pa"),
        (57004, "x-iscii-ta"),
        (57005, "x-iscii-te"),
        (10004, "x-mac-arabic"),
        (10029, "x-mac-ce"),
        (10008, "x-mac-chinesesimp"),
        (10002, "x-mac-chinesetrad"),
        (10082, "x-mac-croatian"),
        (10007, "x-mac-cyrillic"),
        (10006, "x-mac-greek"),
        (10005, "x-mac-hebrew"),
        (10079, "x-mac-icelandic"),
        (10001, "x-mac-japanese"),
        (10003, "x-mac-korean"),
        (10010, "x-mac-romanian"),
        (10021, "x-mac-thai"),
        (10081, "x-mac-turkish"),
        (10017, "x-mac-ukrainian"),
    ];
    for (expected, input) in testcases {
        assert_eq!(encoding_to_codepage(input), Some(expected), "{input}");
    }
}

#[test]
fn test_encoding_to_codepage_invalid() {
    assert_eq!(encoding_to_codepage("invalid_encoding"), None);
}

#[test]
fn codepage_of_a_plain_number() {
    assert_eq!(encoding_to_codepage("cp+866"), Some(866));
    assert_eq!(encoding_to_codepage("CP_000437"), Some(437));
    assert_eq!(encoding_to_codepage("windows 1252"), Some(1252));
    assert_eq!(encoding_to_codepage("x_cp 4294967295"), Some(4294967295));
    assert_eq!(encoding_to_codepage("cp4294967296"), None);
    assert_eq!(encoding_to_codepage("cp"), None);
    assert_eq!(encoding_to_codepage("cp-"), None);
    assert_eq!(encoding_to_codepage("cp+"), None);
    assert_eq!(encoding_to_codepage("cp12a"), None);
    assert_eq!(encoding_to_codepage("cp--12"), None);
    assert_eq!(encoding_to_codepage("dos"), None);
}

#[test]
fn codepage_of_the_utf_family() {
    assert_eq!(encoding_to_codepage("utf-16le"), Some(1200));
    assert_eq!(encoding_to_codepage("UTF16-LE"), Some(1200));
    assert_eq!(encoding_to_codepage("utf-16be"), Some(1201));
    assert_eq!(encoding_to_codepage("utf-32le"), Some(12000));
    assert_eq!(encoding_to_codepage("utf_32_BE"), Some(12001));
    assert_eq!(encoding_to_codepage("utf-16Be"), Some(1201));
    assert_eq!(encoding_to_codepage("utf-16lE"), Some(1200));
    assert_eq!(encoding_to_codepage("Utf-32 bE"), Some(12001));
    assert_eq!(encoding_to_codepage("utf-32Le"), Some(12000));
    assert_eq!(encoding_to_codepage("utf-16b"), None);
    assert_eq!(encoding_to_codepage("utf-64"), None);
    assert_eq!(encoding_to_codepage("utf-1"), None);
    assert_eq!(encoding_to_codepage("utf"), None);
    assert_eq!(encoding_to_codepage("utf-8le"), None);
}

#[test]
fn codepage_of_the_ibm_family() {
    assert_eq!(encoding_to_codepage("ibm272"), Some(272));
    assert_eq!(encoding_to_codepage("ibm273"), Some(20273));
    assert_eq!(encoding_to_codepage("ibm424"), Some(20424));
    assert_eq!(encoding_to_codepage("ibm425"), Some(425));
    assert_eq!(encoding_to_codepage("ibm870"), Some(870));
    assert_eq!(encoding_to_codepage("ibm871"), Some(20871));
    assert_eq!(encoding_to_codepage("ibm905"), Some(20905));
    assert_eq!(encoding_to_codepage("ibm906"), Some(906));
    assert_eq!(encoding_to_codepage("ibm923"), Some(923));
    assert_eq!(encoding_to_codepage("ibm924"), Some(20924));
    assert_eq!(encoding_to_codepage("ibm-THAI"), Some(20838));
    assert_eq!(encoding_to_codepage("ibm-x"), None);
}

#[test]
fn codepage_of_other_families() {
    assert_eq!(encoding_to_codepage("euc-JP"), Some(20932));
    assert_eq!(encoding_to_codepage("euc-Jp"), Some(51932));
    assert_eq!(encoding_to_codepage("EUC_KR"), Some(51949));
    assert_eq!(encoding_to_codepage("euc-tw"), None);
    assert_eq!(encoding_to_codepage("GBK"), Some(936));
    assert_eq!(encoding_to_codepage("gb-Gbk"), None);
    assert_eq!(encoding_to_codepage("iso-2022-JP"), Some(50220));
    assert_eq!(encoding_to_codepage("ISO_2022_Kr"), Some(50225));
    assert_eq!(encoding_to_codepage("iso-2022-cn"), None);
    assert_eq!(encoding_to_codepage("iso-8859-8-I"), Some(38598));
    assert_eq!(encoding_to_codepage("iso-8859-8-e"), Some(28598));
    assert_eq!(encoding_to_codepage("iso-8859-10"), None);
    assert_eq!(encoding_to_codepage("iso-1"), None);
    assert_eq!(encoding_to_codepage("x-ia5-"), Some(20105));
    assert_eq!(encoding_to_codepage("x-mac-klingon"), None);
    assert_eq!(encoding_to_codepage("x-files"), None);
    assert_eq!(encoding_to_codepage("KOI8_R"), Some(20866));
    assert_eq!(encoding_to_codepage(""), None);
}

#[test]
fn codepage_of_a_label_outside_ascii() {
    assert_eq!(encoding_to_codepage("utf-8\u{e9}"), None);
    assert_eq!(encoding_to_codepage("\u{fc}tf-8"), None);
}

#[test]
fn no_flag_codepages() {
    for codepage in [50220, 50221, 50222, 50225, 50227, 50229, 65000, 42, 57002, 57006, 57011] {
        assert!(is_no_flag_codepage(codepage), "{codepage}");
    }
    for codepage in [0, 41, 43, 50223, 50226, 57001, 57012, 65001, 1200, 936] {
        assert!(!is_no_flag_codepage(codepage), "{codepage}");
    }
}

#[test]
fn decimal_numbers() {
    assert_eq!(parse_decimal(b"0"), Some(0));
    assert_eq!(parse_decimal(b"+0012"), Some(12));
    assert_eq!(parse_decimal(b"4294967295"), Some(u32::MAX));
    assert_eq!(parse_decimal(b"4294967296"), None);
    assert_eq!(parse_decimal(b"99999999999999999999999"), None);
    assert_eq!(parse_decimal(b""), None);
    assert_eq!(parse_decimal(b"+"), None);
    assert_eq!(parse_decimal(b"-1"), None);
    assert_eq!(parse_decimal(b"++1"), None);
    assert_eq!(parse_decimal(b"1 "), None);
    assert_eq!(parse_decimal(b"1_0"), None);
}
