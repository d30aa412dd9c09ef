//! What holds of the readers of labels: labels that differ only in case and
//! in the choice of separator name the same Unicode encoding, and the reader
//! for Unicode encodings and the one for code pages agree on UTF-16 and
//! UTF-32.

use vstd::prelude::*;
use vstd::string::{is_ascii, is_ascii_spec_bytes, StringSliceAdditionalSpecFns};

use crate::codepage::{
    codepage_of, family_codepage, is_ascii_label, is_digit, lit, numbered_rest, parts_match,
    utf_codepage, CODEPAGE_UTF16, CODEPAGE_UTF16BE, CODEPAGE_UTF32, CODEPAGE_UTF32BE,
};
use crate::dispatch::same_label;
use crate::encoding::{
    ascii_lower, bytes_of_each, eq_ignore_ascii_case, has_prefix, is_separator, match_parts,
    skip_separator, trim_prefix,
};
use crate::utf::{byte_order_of, parse_label, with_byte_order, UtfEncoding, UtfType};

verus! {

/// The code page of UTF-16 or UTF-32 in the byte order of an encoding, little
/// endian where it names none.
pub open spec fn wide_codepage_of(encoding: UtfEncoding) -> u32 {
    if encoding.utf_type == UtfType::Utf16 {
        if encoding.byte_order.le_or(true) {
            CODEPAGE_UTF16
        } else {
            CODEPAGE_UTF16BE
        }
    } else {
        if encoding.byte_order.le_or(true) {
            CODEPAGE_UTF32
        } else {
            CODEPAGE_UTF32BE
        }
    }
}

/// The bytes of the words that labels are made of.
proof fn lemma_words()
    ensures
        lit("utf") == seq![0x75u8, 0x74u8, 0x66u8],
        lit("7") == seq![0x37u8],
        lit("8") == seq![0x38u8],
        lit("16") == seq![0x31u8, 0x36u8],
        lit("32") == seq![0x33u8, 0x32u8],
        lit("le") == seq![0x6Cu8, 0x65u8],
        lit("be") == seq![0x62u8, 0x65u8],
{
    reveal_strlit("utf");
    reveal_strlit("7");
    reveal_strlit("8");
    reveal_strlit("16");
    reveal_strlit("32");
    reveal_strlit("le");
    reveal_strlit("be");
    assert(is_ascii("utf") && is_ascii("7") && is_ascii("8") && is_ascii("16") && is_ascii("32"));
    assert(is_ascii("le") && is_ascii("be"));
    is_ascii_spec_bytes("utf");
    is_ascii_spec_bytes("7");
    is_ascii_spec_bytes("8");
    is_ascii_spec_bytes("16");
    is_ascii_spec_bytes("32");
    is_ascii_spec_bytes("le");
    is_ascii_spec_bytes("be");
    assert(lit("utf") =~= seq![0x75u8, 0x74u8, 0x66u8]);
    assert(lit("7") =~= seq![0x37u8]);
    assert(lit("8") =~= seq![0x38u8]);
    assert(lit("16") =~= seq![0x31u8, 0x36u8]);
    assert(lit("32") =~= seq![0x33u8, 0x32u8]);
    assert(lit("le") =~= seq![0x6Cu8, 0x65u8]);
    assert(lit("be") =~= seq![0x62u8, 0x65u8]);
}

/// The first bytes of the words that no label of a Unicode encoding starts
/// with.
proof fn lemma_other_words()
    ensures
        lit("cp").len() > 0 && lit("cp")[0] == 0x63,
        lit("asmo").len() > 0 && lit("asmo")[0] == 0x61,
        lit("dos").len() > 0 && lit("dos")[0] == 0x64,
        lit("windows").len() > 0 && lit("windows")[0] == 0x77,
        lit("euc").len() > 0 && lit("euc")[0] == 0x65,
        lit("x").len() > 0 && lit("x")[0] == 0x78,
        lit("csISO2022JP").len() > 0 && lit("csISO2022JP")[0] == 0x63,
{
    reveal_strlit("cp");
    reveal_strlit("asmo");
    reveal_strlit("dos");
    reveal_strlit("windows");
    reveal_strlit("euc");
    reveal_strlit("x");
    reveal_strlit("csISO2022JP");
    assert(is_ascii("cp") && is_ascii("asmo") && is_ascii("dos") && is_ascii("windows"));
    assert(is_ascii("euc") && is_ascii("x") && is_ascii("csISO2022JP"));
    is_ascii_spec_bytes("cp");
    is_ascii_spec_bytes("asmo");
    is_ascii_spec_bytes("dos");
    is_ascii_spec_bytes("windows");
    is_ascii_spec_bytes("euc");
    is_ascii_spec_bytes("x");
    is_ascii_spec_bytes("csISO2022JP");
}

/// A label does not start with a word whose first letter is another.
proof fn lemma_other_first_letter(label: Seq<u8>, word: Seq<u8>)
    requires
        label.len() > 0,
        word.len() > 0,
        ascii_lower(label[0]) != ascii_lower(word[0]),
    ensures
        trim_prefix(label, word) is None,
        !eq_ignore_ascii_case(label, word),
{
    if has_prefix(label, word) {
        assert(label.take(word.len() as int)[0] == label[0]);
    }
}

/// What is all ASCII after a separator was skipped was all ASCII before.
proof fn lemma_ascii_before_skip(bytes: Seq<u8>)
    requires
        is_ascii_label(skip_separator(bytes)),
    ensures
        is_ascii_label(bytes),
{
    if bytes.len() > 0 && is_separator(bytes[0]) {
        assert forall|i: int| 0 <= i < bytes.len() implies #[trigger] bytes[i] < 0x80 by {
            if i > 0 {
                assert(bytes.drop_first()[i - 1] == bytes[i]);
            }
        }
    }
}

/// A byte string is all ASCII where its two parts are.
proof fn lemma_ascii_parts(bytes: Seq<u8>, at: int)
    requires
        0 <= at <= bytes.len(),
        is_ascii_label(bytes.take(at)),
        is_ascii_label(bytes.skip(at)),
    ensures
        is_ascii_label(bytes),
{
    assert forall|i: int| 0 <= i < bytes.len() implies #[trigger] bytes[i] < 0x80 by {
        if i < at {
            assert(bytes.take(at)[i] == bytes[i]);
        } else {
            assert(bytes.skip(at)[i - at] == bytes[i]);
        }
    }
}

/// What equals an ASCII word, case ignored, is all ASCII.
proof fn lemma_ascii_like_word(bytes: Seq<u8>, word: Seq<u8>)
    requires
        eq_ignore_ascii_case(bytes, word),
        is_ascii_label(word),
    ensures
        is_ascii_label(bytes),
{
    assert forall|i: int| 0 <= i < bytes.len() implies #[trigger] bytes[i] < 0x80 by {
        assert(ascii_lower(bytes[i]) == ascii_lower(word[i]));
        assert(word[i] < 0x80);
    }
}

/// The word for the width of an encoding of more than one byte.
pub open spec fn width_word(encoding: UtfEncoding) -> Seq<u8> {
    if encoding.utf_type == UtfType::Utf16 {
        lit("16")
    } else {
        lit("32")
    }
}

/// What follows `utf` in a label.
pub open spec fn after_utf(label: Seq<u8>) -> Seq<u8> {
    skip_separator(label.skip(3))
}

/// What follows the width in a label.
pub open spec fn after_width(label: Seq<u8>) -> Seq<u8> {
    skip_separator(after_utf(label).skip(2))
}

/// The shape of a label that names UTF-16 or UTF-32: `utf`, the width, the
/// byte order.
proof fn lemma_shape(label: Seq<u8>)
    requires
        parse_label(label) matches Some(encoding) && encoding.utf_type != UtfType::Utf8,
    ensures
        label.len() >= 3,
        eq_ignore_ascii_case(label.take(3), lit("utf")),
        trim_prefix(label, lit("utf")) == Some(after_utf(label)),
        after_utf(label).len() >= 2,
        after_utf(label).take(2) == width_word(parse_label(label)->0),
        trim_prefix(after_utf(label), width_word(parse_label(label)->0)) == Some(
            after_width(label),
        ),
        byte_order_of(Some(after_width(label))) == Some(parse_label(label)->0.byte_order),
{
    lemma_words();
    let encoding = parse_label(label)->0;
    let rest = after_utf(label);
    let word = width_word(encoding);
    if lit("8").is_prefix_of(rest) {
    } else if lit("16").is_prefix_of(rest) {
        assert(rest.take(2) =~= lit("16"));
    } else {
        assert(lit("32").is_prefix_of(rest));
        assert(rest.take(2) =~= lit("32"));
    }
}

/// Every byte of a label of that shape is ASCII.
proof fn lemma_shape_is_ascii(label: Seq<u8>, encoding: UtfEncoding)
    requires
        label.len() >= 3,
        eq_ignore_ascii_case(label.take(3), lit("utf")),
        after_utf(label).len() >= 2,
        after_utf(label).take(2) == width_word(encoding),
        byte_order_of(Some(after_width(label))) is Some,
    ensures
        is_ascii_label(label),
{
    lemma_words();
    let rest = after_utf(label);
    let order = after_width(label);
    assert(is_ascii_label(lit("le")) && is_ascii_label(lit("be")));
    if eq_ignore_ascii_case(order, lit("le")) {
        lemma_ascii_like_word(order, lit("le"));
    } else if eq_ignore_ascii_case(order, lit("be")) {
        lemma_ascii_like_word(order, lit("be"));
    }
    assert(is_ascii_label(order));
    lemma_ascii_before_skip(rest.skip(2));
    assert(is_ascii_label(rest.take(2)));
    lemma_ascii_parts(rest, 2);
    lemma_ascii_before_skip(label.skip(3));
    assert(is_ascii_label(lit("utf")));
    lemma_ascii_like_word(label.take(3), lit("utf"));
    lemma_ascii_parts(label, 3);
}

/// A label that starts with `u` is in none of the families that come before
/// `utf`.
proof fn lemma_no_earlier_family(label: Seq<u8>)
    requires
        label.len() > 0,
        ascii_lower(label[0]) == 0x75,
    ensures
        !parts_match(label, seq!["cp", "1025"]),
        !eq_ignore_ascii_case(label, lit("csISO2022JP")),
        numbered_rest(label) is None,
        trim_prefix(label, lit("euc")) is None,
{
    lemma_other_words();
    lemma_other_first_letter(label, lit("cp"));
    lemma_other_first_letter(label, lit("asmo"));
    lemma_other_first_letter(label, lit("dos"));
    lemma_other_first_letter(label, lit("windows"));
    lemma_other_first_letter(label, lit("euc"));
    lemma_other_first_letter(label, lit("x"));
    lemma_other_first_letter(label, lit("csISO2022JP"));
    let cp_parts = bytes_of_each(seq!["cp", "1025"]);
    assert(cp_parts[0] == lit("cp"));
    assert(match_parts(label, cp_parts) is None);
    let x_parts = bytes_of_each(seq!["x", "cp"]);
    assert(x_parts[0] == lit("x"));
    assert(match_parts(label, x_parts) is None);
}

/// The code page of what follows `utf`, where that is a width of more than
/// one byte and a byte order.
proof fn lemma_utf_family(rest: Seq<u8>, order: Seq<u8>, encoding: UtfEncoding)
    requires
        encoding.utf_type != UtfType::Utf8,
        rest.len() >= 2,
        rest.take(2) == width_word(encoding),
        trim_prefix(rest, width_word(encoding)) == Some(order),
        byte_order_of(Some(order)) == Some(encoding.byte_order),
    ensures
        utf_codepage(rest) == Some(wide_codepage_of(encoding)),
{
    lemma_words();
    assert(rest.take(2)[0] == rest[0]);
    assert(rest != lit("7"));
    assert(rest != lit("8"));
    assert(lit("16") != lit("32")) by {
        assert(lit("16")[0] != lit("32")[0]);
    }
    if eq_ignore_ascii_case(order, lit("le")) {
        assert(order.len() == 2);
    } else if eq_ignore_ascii_case(order, lit("be")) {
        assert(order.len() == 2);
    }
}

/// A label that starts with `utf`, case ignored, starts with `u` or `U`.
proof fn lemma_first_letter(label: Seq<u8>)
    requires
        label.len() >= 3,
        eq_ignore_ascii_case(label.take(3), lit("utf")),
    ensures
        ascii_lower(label[0]) == 0x75,
{
    lemma_words();
    assert(label.take(3)[0] == label[0]);
}

/// The code page of an ASCII label that only the family `utf` takes.
proof fn lemma_only_utf_family(label: Seq<u8>, rest: Seq<u8>)
    requires
        is_ascii_label(label),
        !parts_match(label, seq!["cp", "1025"]),
        !eq_ignore_ascii_case(label, lit("csISO2022JP")),
        numbered_rest(label) is None,
        trim_prefix(label, lit("euc")) is None,
        trim_prefix(label, lit("utf")) == Some(rest),
    ensures
        codepage_of(label) == utf_codepage(rest),
{
    assert(family_codepage(label) == utf_codepage(rest));
}

/// A label that names UTF-16 or UTF-32 names the code page of that encoding.
pub proof fn theorem_labels_agree(label: Seq<u8>)
    requires
        parse_label(label) matches Some(encoding) && encoding.utf_type != UtfType::Utf8,
    ensures
        codepage_of(label) == Some(wide_codepage_of(parse_label(label)->0)),
{
    let encoding = parse_label(label)->0;
    lemma_shape(label);
    lemma_shape_is_ascii(label, encoding);
    lemma_first_letter(label);
    lemma_no_earlier_family(label);
    lemma_utf_family(after_utf(label), after_width(label), encoding);
    lemma_only_utf_family(label, after_utf(label));
}

/// A byte of a label with its spelling taken away: ASCII letters in lower
/// case, and `-` for any separator.
pub open spec fn folded(byte: u8) -> u8 {
    if is_separator(byte) {
        0x2D
    } else {
        ascii_lower(byte)
    }
}

/// Two labels are spelled alike where they differ, byte by byte, in nothing
/// but the case of ASCII letters and the choice of separator.
pub open spec fn same_spelling(a: Seq<u8>, b: Seq<u8>) -> bool {
    &&& a.len() == b.len()
    &&& forall|i: int| 0 <= i < a.len() ==> folded(#[trigger] a[i]) == folded(b[i])
}

/// Labels that are spelled alike are the same label.
pub proof fn lemma_same_spelling_same_label(a: Seq<u8>, b: Seq<u8>)
    requires
        same_spelling(a, b),
    ensures
        same_label(a, b),
    decreases a.len(),
{
    if a.len() > 0 {
        let x = a.drop_last();
        let y = b.drop_last();
        assert forall|i: int| 0 <= i < x.len() implies folded(#[trigger] x[i]) == folded(y[i]) by {
            assert(folded(a[i]) == folded(b[i]));
        }
        lemma_same_spelling_same_label(x, y);
        assert(folded(a[a.len() - 1]) == folded(b[b.len() - 1]));
        lemma_folded(a.last(), b.last());
    }
}

/// A word of letters and digits: no byte of it is a separator.
pub open spec fn is_word(word: Seq<u8>) -> bool {
    forall|i: int| 0 <= i < word.len() ==> !is_separator(#[trigger] word[i])
}

/// Whether two results of trimming are the same label, or both nothing.
pub open spec fn same_rest(a: Option<Seq<u8>>, b: Option<Seq<u8>>) -> bool {
    match (a, b) {
        (Some(x), Some(y)) => same_spelling(x, y),
        (None, None) => true,
        _ => false,
    }
}

/// What two bytes share that count as the same in a label.
proof fn lemma_folded(x: u8, y: u8)
    requires
        folded(x) == folded(y),
    ensures
        is_separator(x) == is_separator(y),
        !is_separator(x) ==> ascii_lower(x) == ascii_lower(y),
        (0x80 <= x <= 0xBF) == (0x80 <= y <= 0xBF),
        is_digit(x) ==> y == x,
{
}

/// A word of digits only.
pub open spec fn is_number(word: Seq<u8>) -> bool {
    forall|i: int| 0 <= i < word.len() ==> is_digit(#[trigger] word[i])
}

/// The same label equals the same words, case ignored.
proof fn lemma_same_spelling_word(a: Seq<u8>, b: Seq<u8>, word: Seq<u8>)
    requires
        same_spelling(a, b),
        is_word(word),
    ensures
        eq_ignore_ascii_case(a, word) == eq_ignore_ascii_case(b, word),
{
    if a.len() == word.len() {
        assert forall|i: int| 0 <= i < a.len() implies (ascii_lower(#[trigger] a[i]) == ascii_lower(
            word[i],
        )) == (ascii_lower(b[i]) == ascii_lower(word[i])) by {
            lemma_folded(a[i], b[i]);
            assert(!is_separator(word[i]));
        }
        if eq_ignore_ascii_case(a, word) {
            assert forall|i: int| 0 <= i < b.len() implies ascii_lower(#[trigger] b[i])
                == ascii_lower(word[i]) by {
                assert(ascii_lower(a[i]) == ascii_lower(word[i]));
            }
        }
        if eq_ignore_ascii_case(b, word) {
            assert forall|i: int| 0 <= i < a.len() implies ascii_lower(#[trigger] a[i])
                == ascii_lower(word[i]) by {
                assert(ascii_lower(b[i]) == ascii_lower(word[i]));
            }
        }
    }
}

/// Parts of the same label, taken at the same places, are the same label.
proof fn lemma_same_spelling_parts(a: Seq<u8>, b: Seq<u8>, from: int, to: int)
    requires
        same_spelling(a, b),
        0 <= from <= to <= a.len(),
    ensures
        same_spelling(a.subrange(from, to), b.subrange(from, to)),
{
    let x = a.subrange(from, to);
    let y = b.subrange(from, to);
    assert forall|i: int| 0 <= i < x.len() implies folded(#[trigger] x[i]) == folded(y[i]) by {
        assert(folded(a[from + i]) == folded(b[from + i]));
    }
}

/// The same label starts with the same words, and goes on as the same
/// label after them.
proof fn lemma_same_spelling_trim(a: Seq<u8>, b: Seq<u8>, word: Seq<u8>)
    requires
        same_spelling(a, b),
        is_word(word),
    ensures
        same_rest(trim_prefix(a, word), trim_prefix(b, word)),
{
    let n = word.len() as int;
    if n <= a.len() {
        lemma_same_spelling_parts(a, b, 0, n);
        assert(a.take(n) =~= a.subrange(0, n));
        assert(b.take(n) =~= b.subrange(0, n));
        lemma_same_spelling_word(a.take(n), b.take(n), word);
        if n < a.len() {
            assert(folded(a[n]) == folded(b[n]));
            lemma_folded(a[n], b[n]);
        }
        assert(has_prefix(a, word) == has_prefix(b, word));
        if has_prefix(a, word) {
            lemma_same_spelling_parts(a, b, n, a.len() as int);
            assert(a.skip(n) =~= a.subrange(n, a.len() as int));
            assert(b.skip(n) =~= b.subrange(n, b.len() as int));
            let x = a.skip(n);
            let y = b.skip(n);
            if x.len() > 0 {
                assert(folded(x[0]) == folded(y[0]));
                lemma_folded(x[0], y[0]);
                if is_separator(x[0]) {
                    lemma_same_spelling_parts(x, y, 1, x.len() as int);
                    assert(x.drop_first() =~= x.subrange(1, x.len() as int));
                    assert(y.drop_first() =~= y.subrange(1, y.len() as int));
                }
            }
        }
    }
}

/// The same label starts with the same numbers.
proof fn lemma_same_spelling_number(a: Seq<u8>, b: Seq<u8>, number: Seq<u8>)
    requires
        same_spelling(a, b),
        is_number(number),
    ensures
        number.is_prefix_of(a) == number.is_prefix_of(b),
{
    let n = number.len() as int;
    if n <= a.len() {
        if number.is_prefix_of(a) {
            assert forall|i: int| 0 <= i < n implies number[i] == #[trigger] b.subrange(0, n)[i] by {
                assert(a.subrange(0, n)[i] == number[i]);
                assert(folded(a[i]) == folded(b[i]));
                assert(is_digit(number[i]));
                lemma_folded(a[i], b[i]);
            }
            assert(number =~= b.subrange(0, n));
        }
        if number.is_prefix_of(b) {
            assert forall|i: int| 0 <= i < n implies number[i] == #[trigger] a.subrange(0, n)[i] by {
                assert(b.subrange(0, n)[i] == number[i]);
                assert(folded(a[i]) == folded(b[i]));
                assert(is_digit(number[i]));
                lemma_folded(b[i], a[i]);
            }
            assert(number =~= a.subrange(0, n));
        }
    }
}

/// The same ends of a label name the same byte order.
proof fn lemma_same_byte_order(utf_type: UtfType, a: Option<Seq<u8>>, b: Option<Seq<u8>>)
    requires
        same_rest(a, b),
    ensures
        with_byte_order(utf_type, a) == with_byte_order(utf_type, b),
{
    lemma_words();
    if a is Some {
        assert(is_word(lit("le")) && is_word(lit("be")));
        lemma_same_spelling_word(a->0, b->0, lit("le"));
        lemma_same_spelling_word(a->0, b->0, lit("be"));
    }
}

/// The words of a label of a Unicode encoding are words, and its widths
/// are numbers.
proof fn lemma_kinds_of_words()
    ensures
        is_word(lit("utf")),
        is_word(lit("8")) && is_number(lit("8")),
        is_word(lit("16")) && is_number(lit("16")),
        is_word(lit("32")) && is_number(lit("32")),
{
    lemma_words();
}

/// Label equivalence: two labels that are spelled alike name the same
/// Unicode encoding, or both none.
pub proof fn theorem_same_spelling_same_encoding(a: Seq<u8>, b: Seq<u8>)
    requires
        same_spelling(a, b),
    ensures
        parse_label(a) == parse_label(b),
{
    lemma_kinds_of_words();
    lemma_same_spelling_trim(a, b, lit("utf"));
    if trim_prefix(a, lit("utf")) is Some {
        let x = trim_prefix(a, lit("utf"))->0;
        let y = trim_prefix(b, lit("utf"))->0;
        lemma_same_spelling_number(x, y, lit("8"));
        lemma_same_spelling_number(x, y, lit("16"));
        lemma_same_spelling_number(x, y, lit("32"));
        lemma_same_spelling_trim(x, y, lit("8"));
        lemma_same_spelling_trim(x, y, lit("16"));
        lemma_same_spelling_trim(x, y, lit("32"));
        lemma_same_byte_order(UtfType::Utf8, trim_prefix(x, lit("8")), trim_prefix(y, lit("8")));
        lemma_same_byte_order(
            UtfType::Utf16,
            trim_prefix(x, lit("16")),
            trim_prefix(y, lit("16")),
        );
        lemma_same_byte_order(
            UtfType::Utf32,
            trim_prefix(x, lit("32")),
            trim_prefix(y, lit("32")),
        );
    }
}

} // verus!
