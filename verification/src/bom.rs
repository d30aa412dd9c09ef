//! Byte-order marks: the marker bytes of each UTF width, and their detection
//! at the start of a byte string.

use vstd::prelude::*;

verus! {

/// What a byte-order mark says, or that there is none.
#[derive(Debug, Clone, Copy, PartialEq, Eq, Structural)]
pub enum ByteOrderMark {
    /// Little endian.
    Le,
    /// Big endian.
    Be,
    /// No mark.
    NotPresent,
}

impl ByteOrderMark {
    /// Whether this stands for a mark at all.
    pub fn is_present(&self) -> (present: bool)
        ensures
            present == (*self != ByteOrderMark::NotPresent),
    {
        !matches!(self, ByteOrderMark::NotPresent)
    }

    /// The byte order that this mark stands for, `default` where there is no mark.
    pub open spec fn le_or(self, default: bool) -> bool {
        match self {
            ByteOrderMark::Le => true,
            ByteOrderMark::Be => false,
            ByteOrderMark::NotPresent => default,
        }
    }

    /// Whether the byte order is little endian, `default` deciding where there
    /// is no mark.
    pub fn is_le(&self, default: bool) -> (le: bool)
        ensures
            le == self.le_or(default),
    {
        match self {
            ByteOrderMark::Le => true,
            ByteOrderMark::Be => false,
            ByteOrderMark::NotPresent => default,
        }
    }
}

/// The UTF-8 mark, `EF BB BF`.
pub open spec fn utf8_mark() -> Seq<u8> {
    seq![0xEFu8, 0xBBu8, 0xBFu8]
}

/// The UTF-16 mark in the given byte order: `FF FE` or `FE FF`.
pub open spec fn utf16_mark(le: bool) -> Seq<u8> {
    if le {
        seq![0xFFu8, 0xFEu8]
    } else {
        seq![0xFEu8, 0xFFu8]
    }
}

/// The UTF-32 mark in the given byte order: `FF FE 00 00` or `00 00 FE FF`.
pub open spec fn utf32_mark(le: bool) -> Seq<u8> {
    if le {
        seq![0xFFu8, 0xFEu8, 0u8, 0u8]
    } else {
        seq![0u8, 0u8, 0xFEu8, 0xFFu8]
    }
}

/// The mark that `bytes` starts with when read as UTF-8. A UTF-8 mark has no
/// byte order; it is reported as `Le`.
pub open spec fn utf8_bom_of(bytes: Seq<u8>) -> ByteOrderMark {
    if utf8_mark().is_prefix_of(bytes) {
        ByteOrderMark::Le
    } else {
        ByteOrderMark::NotPresent
    }
}

/// The mark that `bytes` starts with when read as UTF-16.
pub open spec fn utf16_bom_of(bytes: Seq<u8>) -> ByteOrderMark {
    if utf16_mark(true).is_prefix_of(bytes) {
        ByteOrderMark::Le
    } else if utf16_mark(false).is_prefix_of(bytes) {
        ByteOrderMark::Be
    } else {
        ByteOrderMark::NotPresent
    }
}

/// The mark that `bytes` starts with when read as UTF-32.
pub open spec fn utf32_bom_of(bytes: Seq<u8>) -> ByteOrderMark {
    if utf32_mark(true).is_prefix_of(bytes) {
        ByteOrderMark::Le
    } else if utf32_mark(false).is_prefix_of(bytes) {
        ByteOrderMark::Be
    } else {
        ByteOrderMark::NotPresent
    }
}

/// Looks for the UTF-8 mark at the start of `input`.
pub fn get_utf8_bom(input: &[u8]) -> (mark: ByteOrderMark)
    ensures
        mark == utf8_bom_of(input@),
{
    if input.len() >= 3 && input[0] == 0xEF && input[1] == 0xBB && input[2] == 0xBF {
        assert(input@.subrange(0, 3) =~= utf8_mark());
        ByteOrderMark::Le
    } else {
        assert(!utf8_mark().is_prefix_of(input@)) by {
            if utf8_mark().is_prefix_of(input@) {
                let head = input@.subrange(0, 3);
                assert(head[0] == 0xEF && head[1] == 0xBB && head[2] == 0xBF);
            }
        }
        ByteOrderMark::NotPresent
    }
}

/// Looks for a UTF-16 mark of either byte order at the start of `input`.
pub fn get_utf16_bom(input: &[u8]) -> (mark: ByteOrderMark)
    ensures
        mark == utf16_bom_of(input@),
{
    if input.len() >= 2 && input[0] == 0xFF && input[1] == 0xFE {
        assert(input@.subrange(0, 2) =~= utf16_mark(true));
        ByteOrderMark::Le
    } else if input.len() >= 2 && input[0] == 0xFE && input[1] == 0xFF {
        assert(input@.subrange(0, 2) =~= utf16_mark(false));
        assert(!utf16_mark(true).is_prefix_of(input@)) by {
            if utf16_mark(true).is_prefix_of(input@) {
                assert(input@.subrange(0, 2)[0] == 0xFF);
            }
        }
        ByteOrderMark::Be
    } else {
        assert(!utf16_mark(true).is_prefix_of(input@)) by {
            if utf16_mark(true).is_prefix_of(input@) {
                let head = input@.subrange(0, 2);
                assert(head[0] == 0xFF && head[1] == 0xFE);
            }
        }
        assert(!utf16_mark(false).is_prefix_of(input@)) by {
            if utf16_mark(false).is_prefix_of(input@) {
                let head = input@.subrange(0, 2);
                assert(head[0] == 0xFE && head[1] == 0xFF);
            }
        }
        ByteOrderMark::NotPresent
    }
}

/// Looks for a UTF-32 mark of either byte order at the start of `input`.
pub fn get_utf32_bom(input: &[u8]) -> (mark: ByteOrderMark)
    ensures
        mark == utf32_bom_of(input@),
{
    if input.len() >= 4 && input[0] == 0xFF && input[1] == 0xFE && input[2] == 0 && input[3] == 0 {
        assert(input@.subrange(0, 4) =~= utf32_mark(true));
        ByteOrderMark::Le
    } else if input.len() >= 4 && input[0] == 0 && input[1] == 0 && input[2] == 0xFE && input[3]
        == 0xFF {
        assert(input@.subrange(0, 4) =~= utf32_mark(false));
        assert(!utf32_mark(true).is_prefix_of(input@)) by {
            if utf32_mark(true).is_prefix_of(input@) {
                assert(input@.subrange(0, 4)[0] == 0xFF);
            }
        }
        ByteOrderMark::Be
    } else {
        assert(!utf32_mark(true).is_prefix_of(input@)) by {
            if utf32_mark(true).is_prefix_of(input@) {
                let head = input@.subrange(0, 4);
                assert(head[0] == 0xFF && head[1] == 0xFE && head[2] == 0 && head[3] == 0);
            }
        }
        assert(!utf32_mark(false).is_prefix_of(input@)) by {
            if utf32_mark(false).is_prefix_of(input@) {
                let head = input@.subrange(0, 4);
                assert(head[0] == 0 && head[1] == 0 && head[2] == 0xFE && head[3] == 0xFF);
            }
        }
        ByteOrderMark::NotPresent
    }
}

} // verus!
