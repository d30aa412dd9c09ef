//! What sequences of 16-bit and 32-bit code units mean as text, and the code
//! units of a text.
//!
//! Decoding yields one item for each character or malformed unit: the
//! character, or nothing. Strict decoding wants every item to be a
//! character; lossy decoding puts U+FFFD in the place of each that is not.

use vstd::prelude::*;

verus! {

/// U+FFFD, which stands for what could not be decoded.
pub open spec fn replacement() -> char {
    '\u{FFFD}'
}

/// A code unit that is half of a surrogate pair.
pub open spec fn is_surrogate(unit: u16) -> bool {
    0xD800 <= unit <= 0xDFFF
}

/// The first half of a surrogate pair.
pub open spec fn is_high_surrogate(unit: u16) -> bool {
    0xD800 <= unit <= 0xDBFF
}

/// The second half of a surrogate pair.
pub open spec fn is_low_surrogate(unit: u16) -> bool {
    0xDC00 <= unit <= 0xDFFF
}

/// The character that a surrogate pair stands for.
pub open spec fn pair_scalar(high: u16, low: u16) -> char {
    (0x10000 + (high - 0xD800) * 0x400 + (low - 0xDC00)) as char
}

/// The first item of a non-empty sequence of 16-bit units, and how many
/// units it takes: a unit that is no surrogate is a character; a high
/// surrogate with a low one after it is a character of two units; any other
/// surrogate is malformed, alone.
pub open spec fn utf16_first(units: Seq<u16>) -> (Option<char>, int) {
    let unit = units[0];
    if !is_surrogate(unit) {
        (Some(unit as char), 1)
    } else if is_high_surrogate(unit) && units.len() >= 2 && is_low_surrogate(units[1]) {
        (Some(pair_scalar(unit, units[1])), 2)
    } else {
        (None, 1)
    }
}

/// The items of a sequence of 16-bit units.
pub open spec fn utf16_items(units: Seq<u16>) -> Seq<Option<char>>
    decreases units.len(),
{
    if units.len() == 0 {
        Seq::empty()
    } else {
        seq![utf16_first(units).0] + utf16_items(units.skip(utf16_first(units).1))
    }
}

/// A value that is a character: not above U+10FFFF, and no surrogate.
pub open spec fn is_scalar_value(unit: u32) -> bool {
    unit <= 0x10FFFF && !(0xD800 <= unit <= 0xDFFF)
}

/// The items of a sequence of 32-bit units: each unit is a character or
/// malformed by itself.
pub open spec fn utf32_items(units: Seq<u32>) -> Seq<Option<char>> {
    Seq::new(
        units.len(),
        |i: int|
            if is_scalar_value(units[i]) {
                Some(units[i] as char)
            } else {
                None
            },
    )
}

/// The text of a sequence of items, where each of them is a character.
pub open spec fn strict_text(items: Seq<Option<char>>) -> Option<Seq<char>> {
    if forall|i: int| 0 <= i < items.len() ==> (#[trigger] items[i]) is Some {
        Some(Seq::new(items.len(), |i: int| items[i]->0))
    } else {
        None
    }
}

/// The text of a sequence of items, with U+FFFD for each that is no character.
pub open spec fn lossy_text(items: Seq<Option<char>>) -> Seq<char> {
    Seq::new(
        items.len(),
        |i: int|
            match items[i] {
                Some(c) => c,
                None => replacement(),
            },
    )
}

/// The 16-bit units of a character: one, or a surrogate pair from U+10000 on.
pub open spec fn utf16_units_of(c: char) -> Seq<u16> {
    let v = c as u32;
    if v < 0x10000 {
        seq![v as u16]
    } else {
        seq![(0xD800 + (v - 0x10000) / 0x400) as u16, (0xDC00 + (v - 0x10000) % 0x400) as u16]
    }
}

/// The 16-bit units of a text.
pub open spec fn utf16_encode(text: Seq<char>) -> Seq<u16>
    decreases text.len(),
{
    if text.len() == 0 {
        Seq::empty()
    } else {
        utf16_units_of(text[0]) + utf16_encode(text.drop_first())
    }
}

/// The 32-bit units of a text: one for each character.
pub open spec fn utf32_encode(text: Seq<char>) -> Seq<u32> {
    Seq::new(text.len(), |i: int| text[i] as u32)
}

/// Where strict decoding succeeds, lossy decoding gives the same text.
pub proof fn lemma_lossy_is_strict(items: Seq<Option<char>>)
    requires
        strict_text(items) is Some,
    ensures
        lossy_text(items) == strict_text(items)->0,
{
    assert(lossy_text(items) =~= strict_text(items)->0);
}

/// Where strict decoding fails, U+FFFD occurs in what lossy decoding gives.
pub proof fn lemma_lossy_shows_failure(items: Seq<Option<char>>)
    requires
        strict_text(items) is None,
    ensures
        lossy_text(items).contains(replacement()),
{
    let i = choose|i: int| 0 <= i < items.len() && !((#[trigger] items[i]) is Some);
    assert(lossy_text(items)[i] == replacement());
}

/// The text of an item followed by more items.
pub proof fn lemma_strict_text_cons(first: Option<char>, more: Seq<Option<char>>)
    ensures
        strict_text(seq![first] + more) == match (first, strict_text(more)) {
            (Some(c), Some(text)) => Some(seq![c] + text),
            _ => None::<Seq<char>>,
        },
{
    let items = seq![first] + more;
    match (first, strict_text(more)) {
        (Some(c), Some(text)) => {
            assert forall|i: int| 0 <= i < items.len() implies (#[trigger] items[i]) is Some by {
                if i > 0 {
                    assert(items[i] == more[i - 1]);
                }
            }
            assert(strict_text(items)->0 =~= seq![c] + text);
        },
        (None, _) => {
            assert(items[0] is None);
        },
        (Some(c), None) => {
            let i = choose|i: int| 0 <= i < more.len() && !((#[trigger] more[i]) is Some);
            assert(items[i + 1] == more[i]);
        },
    }
}

/// The units of a character decode to that character.
proof fn lemma_utf16_first_of_units(c: char, more: Seq<u16>)
    ensures
        utf16_first(utf16_units_of(c) + more) == (Some(c), utf16_units_of(c).len() as int),
        (utf16_units_of(c) + more).skip(utf16_units_of(c).len() as int) == more,
{
    let units = utf16_units_of(c) + more;
    let v = c as u32;
    if v < 0x10000 {
        assert(units[0] == v as u16);
        assert((v as u16) as char == c);
    } else {
        let x = (v - 0x10000) as int;
        assert(0 <= x <= 0xFFFFF);
        assert(x == 0x400 * (x / 0x400) + x % 0x400);
        assert(units[0] == (0xD800 + x / 0x400) as u16);
        assert(units[1] == (0xDC00 + x % 0x400) as u16);
        assert(pair_scalar(units[0], units[1]) == c);
    }
    assert(units.skip(utf16_units_of(c).len() as int) =~= more);
}

/// Decoding the units of a text gives every character of it.
pub proof fn lemma_utf16_decode_of_encode(text: Seq<char>)
    ensures
        strict_text(utf16_items(utf16_encode(text))) == Some(text),
    decreases text.len(),
{
    if text.len() == 0 {
        assert(strict_text(utf16_items(utf16_encode(text)))->0 =~= text);
    } else {
        let rest = text.drop_first();
        lemma_utf16_first_of_units(text[0], utf16_encode(rest));
        lemma_utf16_decode_of_encode(rest);
        lemma_strict_text_cons(Some(text[0]), utf16_items(utf16_encode(rest)));
        assert(seq![text[0]] + rest =~= text);
    }
}

/// The units of what a first item decodes to are the units it was read from.
proof fn lemma_utf16_units_of_first(units: Seq<u16>)
    requires
        units.len() > 0,
        utf16_first(units).0 is Some,
    ensures
        utf16_units_of(utf16_first(units).0->0) == units.take(utf16_first(units).1),
{
    let unit = units[0];
    if !is_surrogate(unit) {
        let c = unit as char;
        assert(c as u32 == unit);
        assert(utf16_units_of(c) =~= units.take(1));
    } else {
        let low = units[1];
        let x = (unit - 0xD800) * 0x400 + (low - 0xDC00);
        assert(0 <= x <= 0xFFFFF);
        let c = pair_scalar(unit, low);
        assert(c as u32 == 0x10000 + x);
        assert(x / 0x400 == unit - 0xD800 && x % 0x400 == low - 0xDC00) by {
            assert(0 <= low - 0xDC00 < 0x400);
        }
        assert(utf16_units_of(c) =~= units.take(2));
    }
}

/// Where 16-bit units decode strictly, the units of the text are those units.
pub proof fn lemma_utf16_encode_of_decode(units: Seq<u16>)
    requires
        strict_text(utf16_items(units)) is Some,
    ensures
        utf16_encode(strict_text(utf16_items(units))->0) == units,
    decreases units.len(),
{
    let text = strict_text(utf16_items(units))->0;
    if units.len() == 0 {
        assert(text.len() == 0);
    } else {
        let (first, n) = utf16_first(units);
        let more = units.skip(n);
        lemma_strict_text_cons(first, utf16_items(more));
        lemma_utf16_units_of_first(units);
        lemma_utf16_encode_of_decode(more);
        let rest = strict_text(utf16_items(more))->0;
        assert(text == seq![first->0] + rest);
        assert(text.drop_first() =~= rest);
        assert(units.take(n) + units.skip(n) =~= units);
    }
}

/// A character is a scalar value, and is the character of its value.
pub proof fn lemma_char_is_scalar_value(c: char)
    ensures
        is_scalar_value(c as u32),
        (c as u32) as char == c,
{
}

/// Decoding the 32-bit units of a text gives every character of it.
pub proof fn lemma_utf32_decode_of_encode(text: Seq<char>)
    ensures
        strict_text(utf32_items(utf32_encode(text))) == Some(text),
{
    let items = utf32_items(utf32_encode(text));
    assert forall|i: int| 0 <= i < items.len() implies (#[trigger] items[i]) == Some(text[i]) by {
        lemma_char_is_scalar_value(text[i]);
    }
    assert(strict_text(items)->0 =~= text);
}

/// Where 32-bit units decode strictly, the units of the text are those units.
pub proof fn lemma_utf32_encode_of_decode(units: Seq<u32>)
    requires
        strict_text(utf32_items(units)) is Some,
    ensures
        utf32_encode(strict_text(utf32_items(units))->0) == units,
{
    let items = utf32_items(units);
    let text = strict_text(items)->0;
    assert forall|i: int| 0 <= i < units.len() implies text[i] as u32 == units[i] by {
        assert(items[i] is Some);
    }
    assert(utf32_encode(text) =~= units);
}

} // verus!
