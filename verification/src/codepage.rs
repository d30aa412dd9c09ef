//! The code page identifier that a label names: a decision tree over the
//! parts of the label, with no dictionary of whole names.

use vstd::prelude::*;
use vstd::string::StringSliceAdditionalSpecFns;

use crate::encoding::{
    bytes_equal, bytes_eq_ignore_ascii_case, bytes_of_each, bytes_of_option,
    eq_ignore_ascii_case, match_encoding_parts, match_encoding_parts_exact, match_exact,
    match_parts, trim_encoding_prefix, trim_prefix, trim_prefix_bytes,
};

verus! {

/// The code page of UTF-8.
pub const CODEPAGE_UTF8: u32 = 65001;

/// The code page of UTF-16, little endian.
pub const CODEPAGE_UTF16: u32 = 1200;

/// The code page of UTF-16, big endian.
pub const CODEPAGE_UTF16BE: u32 = 1201;

/// The code page of UTF-32, little endian.
pub const CODEPAGE_UTF32: u32 = 12000;

/// The code page of UTF-32, big endian.
pub const CODEPAGE_UTF32BE: u32 = 12001;

/// The bytes of a string.
pub open spec fn lit(text: &str) -> Seq<u8> {
    text.spec_bytes()
}

/// Whether every byte is ASCII.
pub open spec fn is_ascii_label(label: Seq<u8>) -> bool {
    forall|i: int| 0 <= i < label.len() ==> #[trigger] label[i] < 0x80
}

/// Whether a byte is a decimal digit.
pub open spec fn is_digit(byte: u8) -> bool {
    0x30 <= byte <= 0x39
}

/// The number that a run of decimal digits writes.
pub open spec fn decimal_value(digits: Seq<u8>) -> nat
    decreases digits.len(),
{
    if digits.len() == 0 {
        0
    } else {
        (10 * decimal_value(digits.drop_last()) + (digits.last() - 0x30)) as nat
    }
}

/// A text without the `+` that it may start with.
pub open spec fn unsigned_part(text: Seq<u8>) -> Seq<u8> {
    if text.len() > 0 && text[0] == 0x2B {
        text.drop_first()
    } else {
        text
    }
}

/// The number that `text` writes: decimal digits, at least one, after at
/// most one `+`, with a value that fits in 32 bits. `None` for anything else.
pub open spec fn parse_number(text: Seq<u8>) -> Option<u32> {
    let digits = unsigned_part(text);
    if digits.len() > 0 && (forall|i: int| 0 <= i < digits.len() ==> is_digit(#[trigger] digits[i]))
        && decimal_value(digits) <= u32::MAX {
        Some(decimal_value(digits) as u32)
    } else {
        None
    }
}

/// The first of two results that is there.
pub open spec fn or_else(first: Option<Seq<u8>>, second: Option<Seq<u8>>) -> Option<Seq<u8>> {
    match first {
        Some(rest) => Some(rest),
        None => second,
    }
}

/// Whether the parts, given as strings, match all of a label.
pub open spec fn parts_match(label: Seq<u8>, parts: Seq<&str>) -> bool {
    match_exact(label, bytes_of_each(parts))
}

/// What follows `asmo`, `dos`, `windows`, `cp` or `x` and `cp`: the first of
/// these that the label starts with decides.
pub open spec fn numbered_rest(label: Seq<u8>) -> Option<Seq<u8>> {
    or_else(
        trim_prefix(label, lit("asmo")),
        or_else(
            trim_prefix(label, lit("dos")),
            or_else(
                trim_prefix(label, lit("windows")),
                or_else(
                    trim_prefix(label, lit("cp")),
                    match_parts(label, bytes_of_each(seq!["x", "cp"])),
                ),
            ),
        ),
    )
}

/// The code page of a label that starts with `euc`. Two code pages go by
/// the name `jp`: written `JP`, all in upper case, it is 20932; in any other
/// case it is 51932.
pub open spec fn euc_codepage(rest: Seq<u8>) -> Option<u32> {
    if eq_ignore_ascii_case(rest, lit("cn")) {
        Some(51936u32)
    } else if rest == lit("JP") {
        Some(20932u32)
    } else if eq_ignore_ascii_case(rest, lit("jp")) {
        Some(51932u32)
    } else if eq_ignore_ascii_case(rest, lit("kr")) {
        Some(51949u32)
    } else {
        None
    }
}

/// The code page of a label that starts with `utf`: `7` or `8`, or two
/// digits and the byte order, `le` or `be` in whatever case.
pub open spec fn utf_codepage(rest: Seq<u8>) -> Option<u32> {
    if rest == lit("7") {
        Some(65000u32)
    } else if rest == lit("8") {
        Some(CODEPAGE_UTF8)
    } else if rest.len() < 2 {
        None
    } else {
        let digits = rest.take(2);
        match trim_prefix(rest, digits) {
            Some(order) => {
                let le = eq_ignore_ascii_case(order, lit("le")) || order.len() == 0;
                let be = eq_ignore_ascii_case(order, lit("be"));
                if digits == lit("16") && le {
                    Some(CODEPAGE_UTF16)
                } else if digits == lit("32") && le {
                    Some(CODEPAGE_UTF32)
                } else if digits == lit("16") && be {
                    Some(CODEPAGE_UTF16BE)
                } else if digits == lit("32") && be {
                    Some(CODEPAGE_UTF32BE)
                } else {
                    None
                }
            },
            None => None,
        }
    }
}

/// The code page of a label that starts with `gb`.
pub open spec fn gb_codepage(rest: Seq<u8>) -> Option<u32> {
    if rest == lit("k") || rest == lit("K") || rest == lit("2312") {
        Some(936u32)
    } else if rest == lit("18030") {
        Some(54936u32)
    } else {
        None
    }
}

/// The code page of an IBM number: the EBCDIC pages 273 to 424, 871 to 905
/// and 924 are numbered 20000 higher.
pub open spec fn ibm_number(number: u32) -> u32 {
    if number == 924 || 273 <= number <= 424 || 871 <= number <= 905 {
        (number + 20000) as u32
    } else {
        number
    }
}

/// The code page of a label that starts with `ibm`.
pub open spec fn ibm_codepage(rest: Seq<u8>) -> Option<u32> {
    if eq_ignore_ascii_case(rest, lit("thai")) {
        Some(20838u32)
    } else {
        match parse_number(rest) {
            Some(number) => Some(ibm_number(number)),
            None => None,
        }
    }
}

/// The code page of a label that starts with `iso` and `2022`: `jp` or
/// `kr`, in whatever case.
pub open spec fn iso_2022_codepage(rest: Seq<u8>) -> Option<u32> {
    if eq_ignore_ascii_case(rest, lit("jp")) {
        Some(50220u32)
    } else if eq_ignore_ascii_case(rest, lit("kr")) {
        Some(50225u32)
    } else {
        None
    }
}

/// The code page of a label that starts with `iso` and `8859`.
pub open spec fn iso_8859_codepage(rest: Seq<u8>) -> Option<u32> {
    if rest == lit("1") {
        Some(28591u32)
    } else if rest == lit("2") {
        Some(28592u32)
    } else if rest == lit("3") {
        Some(28593u32)
    } else if rest == lit("4") {
        Some(28594u32)
    } else if rest == lit("5") {
        Some(28595u32)
    } else if rest == lit("6") {
        Some(28596u32)
    } else if rest == lit("7") {
        Some(28597u32)
    } else if rest == lit("9") {
        Some(28599u32)
    } else if rest == lit("13") {
        Some(28603u32)
    } else if rest == lit("15") {
        Some(28605u32)
    } else {
        match trim_prefix(rest, lit("8")) {
            Some(variant) => if variant == lit("i") || variant == lit("I") {
                Some(38598u32)
            } else {
                Some(28598u32)
            },
            None => None,
        }
    }
}

/// The code page of a label that starts with `iso`.
pub open spec fn iso_codepage(rest: Seq<u8>) -> Option<u32> {
    match trim_prefix(rest, lit("2022")) {
        Some(tail) => iso_2022_codepage(tail),
        None => match trim_prefix(rest, lit("8859")) {
            Some(tail) => iso_8859_codepage(tail),
            None => None,
        },
    }
}

/// The code page of a label that is one of a few names of several parts.
pub open spec fn special_codepage(label: Seq<u8>) -> Option<u32> {
    if parts_match(label, seq!["hz", "gb", "2312"]) {
        Some(52936u32)
    } else if parts_match(label, seq!["big", "5"]) {
        Some(950u32)
    } else if parts_match(label, seq!["johab"]) {
        Some(1361u32)
    } else if parts_match(label, seq!["koi8", "r"]) {
        Some(20866u32)
    } else if parts_match(label, seq!["koi8", "u"]) {
        Some(21866u32)
    } else if parts_match(label, seq!["ks", "c", "5601", "1987"]) {
        Some(949u32)
    } else if parts_match(label, seq!["macintosh"]) {
        Some(10000u32)
    } else if parts_match(label, seq!["shift", "jis"]) {
        Some(932u32)
    } else if parts_match(label, seq!["unicode", "fffe"]) {
        Some(1201u32)
    } else if parts_match(label, seq!["us", "ascii"]) {
        Some(20127u32)
    } else if parts_match(label, seq!["x", "chinese", "eten"]) {
        Some(20002u32)
    } else if parts_match(label, seq!["x", "chinese", "cns"]) {
        Some(20000u32)
    } else if parts_match(label, seq!["x", "EBCDIC", "KoreanExtended"]) {
        Some(20833u32)
    } else if parts_match(label, seq!["x", "Europa"]) {
        Some(29001u32)
    } else {
        None
    }
}

/// The code page of a label that starts with `x` and `ia5`.
pub open spec fn x_ia5_codepage(rest: Seq<u8>) -> Option<u32> {
    if parts_match(rest, seq![""]) {
        Some(20105u32)
    } else if parts_match(rest, seq!["german"]) {
        Some(20106u32)
    } else if parts_match(rest, seq!["norwegian"]) {
        Some(20108u32)
    } else if parts_match(rest, seq!["swedish"]) {
        Some(20107u32)
    } else {
        None
    }
}

/// The code page of a label that starts with `x` and `iscii`.
pub open spec fn x_iscii_codepage(rest: Seq<u8>) -> Option<u32> {
    if parts_match(rest, seq!["as"]) {
        Some(57006u32)
    } else if parts_match(rest, seq!["be"]) {
        Some(57003u32)
    } else if parts_match(rest, seq!["de"]) {
        Some(57002u32)
    } else if parts_match(rest, seq!["gu"]) {
        Some(57010u32)
    } else if parts_match(rest, seq!["ka"]) {
        Some(57008u32)
    } else if parts_match(rest, seq!["ma"]) {
        Some(57009u32)
    } else if parts_match(rest, seq!["or"]) {
        Some(57007u32)
    } else if parts_match(rest, seq!["pa"]) {
        Some(57011u32)
    } else if parts_match(rest, seq!["ta"]) {
        Some(57004u32)
    } else if parts_match(rest, seq!["te"]) {
        Some(57005u32)
    } else {
        None
    }
}

/// The code page of a label that starts with `x` and `mac`.
pub open spec fn x_mac_codepage(rest: Seq<u8>) -> Option<u32> {
    if parts_match(rest, seq!["arabic"]) {
        Some(10004u32)
    } else if parts_match(rest, seq!["ce"]) {
        Some(10029u32)
    } else if parts_match(rest, seq!["chinesesimp"]) {
        Some(10008u32)
    } else if parts_match(rest, seq!["chinesetrad"]) {
        Some(10002u32)
    } else if parts_match(rest, seq!["croatian"]) {
        Some(10082u32)
    } else if parts_match(rest, seq!["cyrillic"]) {
        Some(10007u32)
    } else if parts_match(rest, seq!["greek"]) {
        Some(10006u32)
    } else if parts_match(rest, seq!["hebrew"]) {
        Some(10005u32)
    } else if parts_match(rest, seq!["icelandic"]) {
        Some(10079u32)
    } else if parts_match(rest, seq!["japanese"]) {
        Some(10001u32)
    } else if parts_match(rest, seq!["korean"]) {
        Some(10003u32)
    } else if parts_match(rest, seq!["romanian"]) {
        Some(10010u32)
    } else if parts_match(rest, seq!["thai"]) {
        Some(10021u32)
    } else if parts_match(rest, seq!["turkish"]) {
        Some(10081u32)
    } else if parts_match(rest, seq!["ukrainian"]) {
        Some(10017u32)
    } else {
        None
    }
}

/// The code page of a label that starts with `x`.
pub open spec fn x_codepage(rest: Seq<u8>) -> Option<u32> {
    match trim_prefix(rest, lit("ia5")) {
        Some(tail) => x_ia5_codepage(tail),
        None => match trim_prefix(rest, lit("iscii")) {
            Some(tail) => x_iscii_codepage(tail),
            None => match trim_prefix(rest, lit("mac")) {
                Some(tail) => x_mac_codepage(tail),
                None => None,
            },
        },
    }
}

/// The code page of a label that starts with the name of a family.
pub open spec fn family_codepage(label: Seq<u8>) -> Option<u32> {
    match trim_prefix(label, lit("euc")) {
        Some(rest) => euc_codepage(rest),
        None => match trim_prefix(label, lit("utf")) {
            Some(rest) => utf_codepage(rest),
            None => match trim_prefix(label, lit("gb")) {
                Some(rest) => gb_codepage(rest),
                None => match trim_prefix(label, lit("ibm")) {
                    Some(rest) => ibm_codepage(rest),
                    None => match trim_prefix(label, lit("iso")) {
                        Some(rest) => iso_codepage(rest),
                        None => match special_codepage(label) {
                            Some(codepage) => Some(codepage),
                            None => match trim_prefix(label, lit("x")) {
                                Some(rest) => x_codepage(rest),
                                None => None,
                            },
                        },
                    },
                },
            },
        },
    }
}

/// The code page that a label names. A label with a byte outside ASCII
/// names none. `cp1025` and `csISO2022JP` come first; then a number behind
/// `asmo`, `dos`, `windows`, `cp` or `x-cp` is the code page itself; then
/// the families `euc`, `utf`, `gb`, `ibm`, `iso`, a few names of several
/// parts, and the families behind `x`.
pub open spec fn codepage_of(label: Seq<u8>) -> Option<u32> {
    if !is_ascii_label(label) {
        None
    } else if parts_match(label, seq!["cp", "1025"]) {
        Some(21025u32)
    } else if eq_ignore_ascii_case(label, lit("csISO2022JP")) {
        Some(50221u32)
    } else {
        match numbered_rest(label) {
            Some(rest) => parse_number(rest),
            None => family_codepage(label),
        }
    }
}

/// Code pages that take no flags: the ISO-2022 pages, UTF-7, the symbol
/// page and the ISCII pages.
pub open spec fn no_flag_codepage(codepage: u32) -> bool {
    ||| codepage == 50220
    ||| codepage == 50221
    ||| codepage == 50222
    ||| codepage == 50225
    ||| codepage == 50227
    ||| codepage == 50229
    ||| codepage == 65000
    ||| codepage == 42
    ||| 57002 <= codepage <= 57011
}

/// A longer run of digits writes no smaller number.
proof fn lemma_decimal_value_grows(digits: Seq<u8>, k: int)
    requires
        0 <= k <= digits.len(),
        forall|i: int| 0 <= i < digits.len() ==> is_digit(#[trigger] digits[i]),
    ensures
        decimal_value(digits.take(k)) <= decimal_value(digits),
    decreases digits.len() - k,
{
    if k == digits.len() {
        assert(digits.take(k) =~= digits);
    } else {
        lemma_decimal_value_grows(digits, k + 1);
        let longer = digits.take(k + 1);
        assert(longer.drop_last() =~= digits.take(k));
        assert(is_digit(digits[k]));
        assert(longer.last() == digits[k]);
    }
}

/// Whether every byte is ASCII.
fn bytes_are_ascii(bytes: &[u8]) -> (ascii: bool)
    ensures
        ascii == is_ascii_label(bytes@),
{
    let mut i: usize = 0;
    while i < bytes.len()
        invariant
            i <= bytes.len(),
            forall|j: int| 0 <= j < i ==> #[trigger] bytes@[j] < 0x80,
        decreases bytes.len() - i,
    {
        if bytes[i] >= 0x80 {
            return false;
        }
        i += 1;
    }
    true
}

/// Reads a decimal number of 32 bits: digits after at most one `+`.
pub fn parse_decimal(text: &[u8]) -> (number: Option<u32>)
    ensures
        number == parse_number(text@),
{
    let start: usize = if text.len() > 0 && text[0] == 0x2B {
        1
    } else {
        0
    };
    let digits = &text[start..text.len()];
    assert(digits@ =~= unsigned_part(text@));
    if digits.len() == 0 {
        return None;
    }
    let mut value: u64 = 0;
    let mut i: usize = 0;
    while i < digits.len()
        invariant
            i <= digits.len(),
            digits@.len() > 0,
            digits@ == unsigned_part(text@),
            forall|j: int| 0 <= j < i ==> is_digit(#[trigger] digits@[j]),
            value == decimal_value(digits@.take(i as int)),
            value <= u32::MAX,
        decreases digits.len() - i,
    {
        let byte: u8 = digits[i];
        if byte < 0x30 || byte > 0x39 {
            assert(!is_digit(digits@[i as int]));
            return None;
        }
        let ghost longer = digits@.take(i + 1);
        assert(longer.drop_last() =~= digits@.take(i as int));
        assert(longer.last() == byte);
        let next: u64 = value * 10 + (byte - 0x30) as u64;
        assert(next == decimal_value(longer));
        if next > 0xFFFF_FFFF {
            proof {
                if forall|j: int| 0 <= j < digits@.len() ==> is_digit(#[trigger] digits@[j]) {
                    lemma_decimal_value_grows(digits@, i + 1);
                }
            }
            return None;
        }
        value = next;
        i += 1;
    }
    assert(digits@.take(i as int) =~= digits@);
    Some(value as u32)
}

/// Whether a text is exactly the given one.
fn text_is(text: &str, literal: &str) -> (same: bool)
    ensures
        same == (text.spec_bytes() == lit(literal)),
{
    bytes_equal(text.as_bytes(), literal.as_bytes())
}

/// Whether a text is the given one, ASCII case ignored.
fn text_is_ignoring_case(text: &str, literal: &str) -> (same: bool)
    ensures
        same == eq_ignore_ascii_case(text.spec_bytes(), lit(literal)),
{
    bytes_eq_ignore_ascii_case(text.as_bytes(), literal.as_bytes())
}

/// Whether one part matches all of a label.
fn matches1(label: &str, a: &str) -> (exact: bool)
    ensures
        exact == parts_match(label.spec_bytes(), seq![a]),
{
    let parts: [&str; 1] = [a];
    assert(parts@ =~= seq![a]);
    match_encoding_parts_exact(label, &parts)
}

/// Whether two parts match all of a label.
fn matches2(label: &str, a: &str, b: &str) -> (exact: bool)
    ensures
        exact == parts_match(label.spec_bytes(), seq![a, b]),
{
    let parts: [&str; 2] = [a, b];
    assert(parts@ =~= seq![a, b]);
    match_encoding_parts_exact(label, &parts)
}

/// Whether three parts match all of a label.
fn matches3(label: &str, a: &str, b: &str, c: &str) -> (exact: bool)
    ensures
        exact == parts_match(label.spec_bytes(), seq![a, b, c]),
{
    let parts: [&str; 3] = [a, b, c];
    assert(parts@ =~= seq![a, b, c]);
    match_encoding_parts_exact(label, &parts)
}

/// Whether four parts match all of a label.
fn matches4(label: &str, a: &str, b: &str, c: &str, d: &str) -> (exact: bool)
    ensures
        exact == parts_match(label.spec_bytes(), seq![a, b, c, d]),
{
    let parts: [&str; 4] = [a, b, c, d];
    assert(parts@ =~= seq![a, b, c, d]);
    match_encoding_parts_exact(label, &parts)
}

fn find_numbered_rest<'a>(encoding: &'a str) -> (rest: Option<&'a str>)
    ensures
        bytes_of_option(rest) == numbered_rest(encoding.spec_bytes()),
{
    if let Some(rest) = trim_encoding_prefix(encoding, "asmo") {
        return Some(rest);
    }
    if let Some(rest) = trim_encoding_prefix(encoding, "dos") {
        return Some(rest);
    }
    if let Some(rest) = trim_encoding_prefix(encoding, "windows") {
        return Some(rest);
    }
    if let Some(rest) = trim_encoding_prefix(encoding, "cp") {
        return Some(rest);
    }
    match_encoding_parts(encoding, &["x", "cp"])
}

fn find_euc_codepage(rest: &str) -> (codepage: Option<u32>)
    ensures
        codepage == euc_codepage(rest.spec_bytes()),
{
    if text_is_ignoring_case(rest, "cn") {
        Some(51936)
    } else if text_is(rest, "JP") {
        Some(20932)
    } else if text_is_ignoring_case(rest, "jp") {
        Some(51932)
    } else if text_is_ignoring_case(rest, "kr") {
        Some(51949)
    } else {
        None
    }
}

fn find_utf_codepage(rest: &str) -> (codepage: Option<u32>)
    ensures
        codepage == utf_codepage(rest.spec_bytes()),
{
    if text_is(rest, "7") {
        return Some(65000);
    }
    if text_is(rest, "8") {
        return Some(CODEPAGE_UTF8);
    }
    let bytes = rest.as_bytes();
    if bytes.len() < 2 {
        return None;
    }
    let digits = &bytes[0..2];
    assert(digits@ =~= bytes@.take(2));
    let order = match trim_prefix_bytes(bytes, digits) {
        Some(order) => order,
        None => {
            return None;
        },
    };
    let le = bytes_eq_ignore_ascii_case(order, "le".as_bytes()) || order.len() == 0;
    let be = bytes_eq_ignore_ascii_case(order, "be".as_bytes());
    let is_16 = bytes_equal(digits, "16".as_bytes());
    let is_32 = bytes_equal(digits, "32".as_bytes());
    if is_16 && le {
        Some(CODEPAGE_UTF16)
    } else if is_32 && le {
        Some(CODEPAGE_UTF32)
    } else if is_16 && be {
        Some(CODEPAGE_UTF16BE)
    } else if is_32 && be {
        Some(CODEPAGE_UTF32BE)
    } else {
        None
    }
}

fn find_gb_codepage(rest: &str) -> (codepage: Option<u32>)
    ensures
        codepage == gb_codepage(rest.spec_bytes()),
{
    if text_is(rest, "k") || text_is(rest, "K") || text_is(rest, "2312") {
        Some(936)
    } else if text_is(rest, "18030") {
        Some(54936)
    } else {
        None
    }
}

fn find_ibm_codepage(rest: &str) -> (codepage: Option<u32>)
    ensures
        codepage == ibm_codepage(rest.spec_bytes()),
{
    if text_is_ignoring_case(rest, "thai") {
        return Some(20838);
    }
    match parse_decimal(rest.as_bytes()) {
        Some(number) => {
            if number == 924 || (273 <= number && number <= 424) || (871 <= number && number
                <= 905) {
                Some(number + 20000)
            } else {
                Some(number)
            }
        },
        None => None,
    }
}

fn find_iso_2022_codepage(rest: &str) -> (codepage: Option<u32>)
    ensures
        codepage == iso_2022_codepage(rest.spec_bytes()),
{
    if text_is_ignoring_case(rest, "jp") {
        Some(50220)
    } else if text_is_ignoring_case(rest, "kr") {
        Some(50225)
    } else {
        None
    }
}

fn find_iso_8859_codepage(rest: &str) -> (codepage: Option<u32>)
    ensures
        codepage == iso_8859_codepage(rest.spec_bytes()),
{
    if text_is(rest, "1") {
        Some(28591)
    } else if text_is(rest, "2") {
        Some(28592)
    } else if text_is(rest, "3") {
        Some(28593)
    } else if text_is(rest, "4") {
        Some(28594)
    } else if text_is(rest, "5") {
        Some(28595)
    } else if text_is(rest, "6") {
        Some(28596)
    } else if text_is(rest, "7") {
        Some(28597)
    } else if text_is(rest, "9") {
        Some(28599)
    } else if text_is(rest, "13") {
        Some(28603)
    } else if text_is(rest, "15") {
        Some(28605)
    } else {
        match trim_encoding_prefix(rest, "8") {
            Some(variant) => if text_is(variant, "i") || text_is(variant, "I") {
                Some(38598)
            } else {
                Some(28598)
            },
            None => None,
        }
    }
}

fn find_iso_codepage(rest: &str) -> (codepage: Option<u32>)
    ensures
        codepage == iso_codepage(rest.spec_bytes()),
{
    if let Some(tail) = trim_encoding_prefix(rest, "2022") {
        return find_iso_2022_codepage(tail);
    }
    if let Some(tail) = trim_encoding_prefix(rest, "8859") {
        return find_iso_8859_codepage(tail);
    }
    None
}

fn find_special_codepage(encoding: &str) -> (codepage: Option<u32>)
    ensures
        codepage == special_codepage(encoding.spec_bytes()),
{
    if matches3(encoding, "hz", "gb", "2312") {
        Some(52936)
    } else if matches2(encoding, "big", "5") {
        Some(950)
    } else if matches1(encoding, "johab") {
        Some(1361)
    } else if matches2(encoding, "koi8", "r") {
        Some(20866)
    } else if matches2(encoding, "koi8", "u") {
        Some(21866)
    } else if matches4(encoding, "ks", "c", "5601", "1987") {
        Some(949)
    } else if matches1(encoding, "macintosh") {
        Some(10000)
    } else if matches2(encoding, "shift", "jis") {
        Some(932)
    } else if matches2(encoding, "unicode", "fffe") {
        Some(1201)
    } else if matches2(encoding, "us", "ascii") {
        Some(20127)
    } else if matches3(encoding, "x", "chinese", "eten") {
        Some(20002)
    } else if matches3(encoding, "x", "chinese", "cns") {
        Some(20000)
    } else if matches3(encoding, "x", "EBCDIC", "KoreanExtended") {
        Some(20833)
    } else if matches2(encoding, "x", "Europa") {
        Some(29001)
    } else {
        None
    }
}

fn find_x_ia5_codepage(rest: &str) -> (codepage: Option<u32>)
    ensures
        codepage == x_ia5_codepage(rest.spec_bytes()),
{
    if matches1(rest, "") {
        Some(20105)
    } else if matches1(rest, "german") {
        Some(20106)
    } else if matches1(rest, "norwegian") {
        Some(20108)
    } else if matches1(rest, "swedish") {
        Some(20107)
    } else {
        None
    }
}

fn find_x_iscii_codepage(rest: &str) -> (codepage: Option<u32>)
    ensures
        codepage == x_iscii_codepage(rest.spec_bytes()),
{
    if matches1(rest, "as") {
        Some(57006)
    } else if matches1(rest, "be") {
        Some(57003)
    } else if matches1(rest, "de") {
        Some(57002)
    } else if matches1(rest, "gu") {
        Some(57010)
    } else if matches1(rest, "ka") {
        Some(57008)
    } else if matches1(rest, "ma") {
        Some(57009)
    } else if matches1(rest, "or") {
        Some(57007)
    } else if matches1(rest, "pa") {
        Some(57011)
    } else if matches1(rest, "ta") {
        Some(57004)
    } else if matches1(rest, "te") {
        Some(57005)
    } else {
        None
    }
}

fn find_x_mac_codepage(rest: &str) -> (codepage: Option<u32>)
    ensures
        codepage == x_mac_codepage(rest.spec_bytes()),
{
    if matches1(rest, "arabic") {
        Some(10004)
    } else if matches1(rest, "ce") {
        Some(10029)
    } else if matches1(rest, "chinesesimp") {
        Some(10008)
    } else if matches1(rest, "chinesetrad") {
        Some(10002)
    } else if matches1(rest, "croatian") {
        Some(10082)
    } else if matches1(rest, "cyrillic") {
        Some(10007)
    } else if matches1(rest, "greek") {
        Some(10006)
    } else if matches1(rest, "hebrew") {
        Some(10005)
    } else if matches1(rest, "icelandic") {
        Some(10079)
    } else if matches1(rest, "japanese") {
        Some(10001)
    } else if matches1(rest, "korean") {
        Some(10003)
    } else if matches1(rest, "romanian") {
        Some(10010)
    } else if matches1(rest, "thai") {
        Some(10021)
    } else if matches1(rest, "turkish") {
        Some(10081)
    } else if matches1(rest, "ukrainian") {
        Some(10017)
    } else {
        None
    }
}

fn find_x_codepage(rest: &str) -> (codepage: Option<u32>)
    ensures
        codepage == x_codepage(rest.spec_bytes()),
{
    if let Some(tail) = trim_encoding_prefix(rest, "ia5") {
        return find_x_ia5_codepage(tail);
    }
    if let Some(tail) = trim_encoding_prefix(rest, "iscii") {
        return find_x_iscii_codepage(tail);
    }
    if let Some(tail) = trim_encoding_prefix(rest, "mac") {
        return find_x_mac_codepage(tail);
    }
    None
}

fn find_family_codepage(encoding: &str) -> (codepage: Option<u32>)
    ensures
        codepage == family_codepage(encoding.spec_bytes()),
{
    if let Some(rest) = trim_encoding_prefix(encoding, "euc") {
        return find_euc_codepage(rest);
    }
    if let Some(rest) = trim_encoding_prefix(encoding, "utf") {
        return find_utf_codepage(rest);
    }
    if let Some(rest) = trim_encoding_prefix(encoding, "gb") {
        return find_gb_codepage(rest);
    }
    if let Some(rest) = trim_encoding_prefix(encoding, "ibm") {
        return find_ibm_codepage(rest);
    }
    if let Some(rest) = trim_encoding_prefix(encoding, "iso") {
        return find_iso_codepage(rest);
    }
    if let Some(codepage) = find_special_codepage(encoding) {
        return Some(codepage);
    }
    if let Some(rest) = trim_encoding_prefix(encoding, "x") {
        return find_x_codepage(rest);
    }
    None
}

/// Finds the code page that a label names.
pub fn encoding_to_codepage(encoding: &str) -> (codepage: Option<u32>)
    ensures
        codepage == codepage_of(encoding.spec_bytes()),
{
    if !bytes_are_ascii(encoding.as_bytes()) {
        return None;
    }
    if matches2(encoding, "cp", "1025") {
        return Some(21025);
    }
    if text_is_ignoring_case(encoding, "csISO2022JP") {
        return Some(50221);
    }
    if let Some(rest) = find_numbered_rest(encoding) {
        return parse_decimal(rest.as_bytes());
    }
    find_family_codepage(encoding)
}

/// Whether a code page takes no flags.
pub fn is_no_flag_codepage(codepage: u32) -> (no_flag: bool)
    ensures
        no_flag == no_flag_codepage(codepage),
{
    codepage == 50220 || codepage == 50221 || codepage == 50222 || codepage == 50225 || codepage
        == 50227 || codepage == 50229 || codepage == 65000 || codepage == 42 || (57002 <= codepage
        && codepage <= 57011)
}

} // verus!
