//! Matching of encoding labels: ASCII case is ignored, and one of `-`, `_` or
//! a space may follow each expected part.
//!
//! Labels are compared byte by byte, so the specifications speak of the bytes
//! of a string, not of its characters.

use vstd::prelude::*;
use vstd::string::StringSliceAdditionalSpecFns;
use vstd::utf8::*;

verus! {

/// `-`, `_` and the space may stand between the parts of a label.
pub open spec fn is_separator(byte: u8) -> bool {
    byte == 0x2D || byte == 0x5F || byte == 0x20
}

/// The lower-case form of an ASCII letter; any other byte is left as it is.
pub open spec fn ascii_lower(byte: u8) -> u8 {
    if 0x41 <= byte <= 0x5A {
        (byte + 0x20) as u8
    } else {
        byte
    }
}

/// Equality of byte strings up to the case of ASCII letters.
pub open spec fn eq_ignore_ascii_case(a: Seq<u8>, b: Seq<u8>) -> bool {
    &&& a.len() == b.len()
    &&& forall|i: int| 0 <= i < a.len() ==> ascii_lower(#[trigger] a[i]) == ascii_lower(b[i])
}

/// Whether a character may start at `index`: at the end of `bytes`, or at a
/// byte that does not continue a UTF-8 sequence.
pub open spec fn at_boundary(bytes: Seq<u8>, index: int) -> bool {
    0 <= index <= bytes.len() && (index < bytes.len() ==> !is_continuation_byte(bytes[index]))
}

/// Whether `input` starts with `prefix`, ASCII case ignored, and a character
/// may start right after it.
pub open spec fn has_prefix(input: Seq<u8>, prefix: Seq<u8>) -> bool {
    &&& at_boundary(input, prefix.len() as int)
    &&& eq_ignore_ascii_case(input.take(prefix.len() as int), prefix)
}

/// `bytes` without its first byte, where that is a separator.
pub open spec fn skip_separator(bytes: Seq<u8>) -> Seq<u8> {
    if bytes.len() > 0 && is_separator(bytes[0]) {
        bytes.drop_first()
    } else {
        bytes
    }
}

/// What is left of `input` after `prefix` and at most one separator, or
/// `None` where `input` does not start with `prefix`.
pub open spec fn trim_prefix(input: Seq<u8>, prefix: Seq<u8>) -> Option<Seq<u8>> {
    if has_prefix(input, prefix) {
        Some(skip_separator(input.skip(prefix.len() as int)))
    } else {
        None
    }
}

/// What is left of `input` after each of `parts` in turn has been trimmed
/// from its start, or `None` as soon as one of them is not there.
pub open spec fn match_parts(input: Seq<u8>, parts: Seq<Seq<u8>>) -> Option<Seq<u8>>
    decreases parts.len(),
{
    if parts.len() == 0 {
        Some(input)
    } else {
        match trim_prefix(input, parts[0]) {
            Some(rest) => match_parts(rest, parts.drop_first()),
            None => None,
        }
    }
}

/// Whether `parts` match all of `input`.
pub open spec fn match_exact(input: Seq<u8>, parts: Seq<Seq<u8>>) -> bool {
    match_parts(input, parts) == Some(Seq::<u8>::empty())
}

/// The bytes of each string of a list.
pub open spec fn bytes_of_each(parts: Seq<&str>) -> Seq<Seq<u8>> {
    Seq::new(parts.len(), |i: int| parts[i].spec_bytes())
}

/// The bytes of a string that may be absent.
pub open spec fn bytes_of_option(text: Option<&str>) -> Option<Seq<u8>> {
    match text {
        Some(s) => Some(s.spec_bytes()),
        None => None,
    }
}

/// A character may start after a leading ASCII byte of a string.
proof fn lemma_boundary_after_ascii(bytes: Seq<u8>)
    requires
        valid_utf8(bytes),
        bytes.len() > 0,
        bytes[0] < 0x80,
    ensures
        is_char_boundary(bytes, 1),
{
    reveal_with_fuel(is_char_boundary, 2);
    assert(is_leading_byte_width_1(bytes[0]));
    assert(length_of_first_scalar(bytes) == 1);
}

/// In a UTF-8 string, `at_boundary` is the character boundary of std.
pub proof fn lemma_at_boundary_is_char_boundary(bytes: Seq<u8>, index: int)
    requires
        valid_utf8(bytes),
        0 <= index <= bytes.len(),
    ensures
        at_boundary(bytes, index) == is_char_boundary(bytes, index),
{
    if index == bytes.len() {
        is_char_boundary_start_end_of_seq(bytes);
    } else {
        is_char_boundary_iff_not_is_continuation_byte(bytes, index);
    }
}

/// The lower-case form of an ASCII letter; any other byte is left as it is.
pub fn to_ascii_lower(byte: u8) -> (lower: u8)
    ensures
        lower == ascii_lower(byte),
{
    if 0x41 <= byte && byte <= 0x5A {
        byte + 0x20
    } else {
        byte
    }
}

/// Compares two byte strings up to the case of ASCII letters.
pub fn bytes_eq_ignore_ascii_case(a: &[u8], b: &[u8]) -> (same: bool)
    ensures
        same == eq_ignore_ascii_case(a@, b@),
{
    if a.len() != b.len() {
        return false;
    }
    let mut i: usize = 0;
    while i < a.len()
        invariant
            a.len() == b.len(),
            i <= a.len(),
            forall|j: int| 0 <= j < i ==> ascii_lower(#[trigger] a@[j]) == ascii_lower(b@[j]),
        decreases a.len() - i,
    {
        if to_ascii_lower(a[i]) != to_ascii_lower(b[i]) {
            return false;
        }
        i += 1;
    }
    true
}

/// Compares two byte strings.
pub fn bytes_equal(a: &[u8], b: &[u8]) -> (same: bool)
    ensures
        same == (a@ == b@),
{
    if a.len() != b.len() {
        return false;
    }
    let mut i: usize = 0;
    while i < a.len()
        invariant
            a.len() == b.len(),
            i <= a.len(),
            forall|j: int| 0 <= j < i ==> a@[j] == b@[j],
        decreases a.len() - i,
    {
        if a[i] != b[i] {
            return false;
        }
        i += 1;
    }
    assert(a@ =~= b@);
    true
}

/// Whether `input` starts with exactly the bytes of `prefix`.
pub fn bytes_start_with(input: &[u8], prefix: &[u8]) -> (found: bool)
    ensures
        found == prefix@.is_prefix_of(input@),
{
    if prefix.len() > input.len() {
        return false;
    }
    let found = bytes_equal(&input[0..prefix.len()], prefix);
    found
}

/// Whether `input` starts with `prefix`, ASCII case ignored, at a point where
/// a character may start.
pub fn bytes_have_prefix(input: &[u8], prefix: &[u8]) -> (found: bool)
    ensures
        found == has_prefix(input@, prefix@),
{
    let n = prefix.len();
    if n > input.len() {
        return false;
    }
    if n < input.len() && 0x80 <= input[n] && input[n] <= 0xBF {
        return false;
    }
    let mut i: usize = 0;
    while i < n
        invariant
            n == prefix.len(),
            n <= input.len(),
            i <= n,
            forall|j: int| 0 <= j < i ==> ascii_lower(#[trigger] input@[j]) == ascii_lower(prefix@[j]),
        decreases n - i,
    {
        if to_ascii_lower(input[i]) != to_ascii_lower(prefix[i]) {
            assert(input@.take(n as int)[i as int] == input@[i as int]);
            return false;
        }
        i += 1;
    }
    assert forall|j: int| 0 <= j < n implies ascii_lower(#[trigger] input@.take(n as int)[j])
        == ascii_lower(prefix@[j]) by {
        assert(input@.take(n as int)[j] == input@[j]);
    }
    true
}

/// Removes `prefix` from the start of `input`, ASCII case ignored, and one
/// separator after it where there is one. `None` where the input does not
/// start with the prefix.
pub fn trim_prefix_bytes<'i>(input: &'i [u8], prefix: &[u8]) -> (rest: Option<&'i [u8]>)
    ensures
        match trim_prefix(input@, prefix@) {
            Some(bytes) => rest matches Some(r) && r@ == bytes,
            None => rest is None,
        },
{
    if !bytes_have_prefix(input, prefix) {
        return None;
    }
    let n = prefix.len();
    if n < input.len() && (input[n] == 0x2D || input[n] == 0x5F || input[n] == 0x20) {
        let rest = &input[n + 1..input.len()];
        assert(rest@ =~= input@.skip(n as int).drop_first());
        Some(rest)
    } else {
        let rest = &input[n..input.len()];
        assert(rest@ =~= input@.skip(n as int));
        Some(rest)
    }
}

/// Removes `prefix` from the start of `ascii_input`, ASCII case ignored, and
/// one separator after it where there is one. `None` where the input does
/// not start with the prefix.
pub fn trim_encoding_prefix<'i>(ascii_input: &'i str, prefix: &str) -> (rest: Option<&'i str>)
    ensures
        bytes_of_option(rest) == trim_prefix(ascii_input.spec_bytes(), prefix.spec_bytes()),
{
    broadcast use encode_utf8_valid_utf8;

    if !bytes_have_prefix(ascii_input.as_bytes(), prefix.as_bytes()) {
        return None;
    }
    let n = prefix.as_bytes().len();
    proof {
        lemma_at_boundary_is_char_boundary(ascii_input.spec_bytes(), n as int);
    }
    let (_, tail) = ascii_input.split_at(n);
    let tail_bytes = tail.as_bytes();
    if tail_bytes.len() > 0 && (tail_bytes[0] == 0x2D || tail_bytes[0] == 0x5F || tail_bytes[0]
        == 0x20) {
        proof {
            lemma_boundary_after_ascii(tail.spec_bytes());
        }
        let (_, rest) = tail.split_at(1);
        Some(rest)
    } else {
        Some(tail)
    }
}

/// Trims each of `parts` in turn from the start of `input`. `None` as soon as
/// one of them is not there; with no parts at all, the input itself.
pub fn match_encoding_parts<'i>(input: &'i str, parts: &[&str]) -> (rest: Option<&'i str>)
    ensures
        bytes_of_option(rest) == match_parts(input.spec_bytes(), bytes_of_each(parts@)),
{
    let ghost all = bytes_of_each(parts@);
    let mut current = input;
    let mut i: usize = 0;
    assert(all.skip(0) =~= all);
    while i < parts.len()
        invariant
            i <= parts.len(),
            all == bytes_of_each(parts@),
            match_parts(input.spec_bytes(), all) == match_parts(
                current.spec_bytes(),
                all.skip(i as int),
            ),
        decreases parts.len() - i,
    {
        let ghost left = all.skip(i as int);
        assert(left[0] == parts@[i as int].spec_bytes());
        assert(left.drop_first() =~= all.skip(i + 1));
        match trim_encoding_prefix(current, parts[i]) {
            Some(rest) => {
                current = rest;
            },
            None => {
                return None;
            },
        }
        i += 1;
    }
    assert(all.skip(i as int).len() == 0);
    Some(current)
}

/// Whether `parts`, trimmed in turn, use up all of `input`.
pub fn match_encoding_parts_exact(input: &str, parts: &[&str]) -> (exact: bool)
    ensures
        exact == match_exact(input.spec_bytes(), bytes_of_each(parts@)),
{
    match match_encoding_parts(input, parts) {
        Some(rest) => {
            let empty = rest.as_bytes().len() == 0;
            assert(empty == (rest.spec_bytes() =~= Seq::<u8>::empty()));
            empty
        },
        None => false,
    }
}

} // verus!
