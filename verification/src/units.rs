//! Code units of two and four bytes, in either byte order.

use vstd::prelude::*;

verus! {

/// The 16-bit unit whose two bytes are `a` then `b`.
pub open spec fn unit16(a: u8, b: u8, le: bool) -> u16 {
    if le {
        (a + 256 * b) as u16
    } else {
        (256 * a + b) as u16
    }
}

/// The byte at place `at` (0 or 1) of a 16-bit unit.
pub open spec fn byte_of16(unit: u16, at: int, le: bool) -> u8 {
    if (at == 0) == le {
        (unit % 256) as u8
    } else {
        (unit / 256) as u8
    }
}

/// The 16-bit units that `bytes` holds, two bytes each; a last odd byte is
/// left out.
pub open spec fn units16(bytes: Seq<u8>, le: bool) -> Seq<u16> {
    Seq::new((bytes.len() / 2) as nat, |i: int| unit16(bytes[2 * i], bytes[2 * i + 1], le))
}

/// The bytes of a sequence of 16-bit units.
pub open spec fn bytes16(units: Seq<u16>, le: bool) -> Seq<u8> {
    Seq::new(2 * units.len(), |i: int| byte_of16(units[i / 2], i % 2, le))
}

/// The 32-bit unit whose four bytes are `a`, `b`, `c`, then `d`.
pub open spec fn unit32(a: u8, b: u8, c: u8, d: u8, le: bool) -> u32 {
    if le {
        (a + 256 * b + 65536 * c + 16777216 * d) as u32
    } else {
        (16777216 * a + 65536 * b + 256 * c + d) as u32
    }
}

/// The byte at place `at` (0 to 3) of a 32-bit unit.
pub open spec fn byte_of32(unit: u32, at: int, le: bool) -> u8 {
    let k = if le {
        at
    } else {
        3 - at
    };
    if k == 0 {
        (unit % 256) as u8
    } else if k == 1 {
        (unit / 256 % 256) as u8
    } else if k == 2 {
        (unit / 65536 % 256) as u8
    } else {
        (unit / 16777216) as u8
    }
}

/// The 32-bit units that `bytes` holds, four bytes each; up to three last
/// bytes are left out.
pub open spec fn units32(bytes: Seq<u8>, le: bool) -> Seq<u32> {
    Seq::new(
        (bytes.len() / 4) as nat,
        |i: int| unit32(bytes[4 * i], bytes[4 * i + 1], bytes[4 * i + 2], bytes[4 * i + 3], le),
    )
}

/// The bytes of a sequence of 32-bit units.
pub open spec fn bytes32(units: Seq<u32>, le: bool) -> Seq<u8> {
    Seq::new(4 * units.len(), |i: int| byte_of32(units[i / 4], i % 4, le))
}

/// Reading the bytes of 16-bit units gives the units back.
pub proof fn lemma_units16_of_bytes16(units: Seq<u16>, le: bool)
    ensures
        units16(bytes16(units, le), le) == units,
{
    let bytes = bytes16(units, le);
    assert forall|i: int| 0 <= i < units.len() implies units16(bytes, le)[i] == units[i] by {
        assert(bytes[2 * i] == byte_of16(units[i], 0, le));
        assert(bytes[2 * i + 1] == byte_of16(units[i], 1, le));
    }
    assert(units16(bytes, le) =~= units);
}

/// Writing the 16-bit units of an even number of bytes gives the bytes back.
pub proof fn lemma_bytes16_of_units16(bytes: Seq<u8>, le: bool)
    requires
        bytes.len() % 2 == 0,
    ensures
        bytes16(units16(bytes, le), le) == bytes,
{
    let units = units16(bytes, le);
    assert forall|i: int| 0 <= i < bytes.len() implies bytes16(units, le)[i] == bytes[i] by {
        let j = i / 2;
        assert(units[j] == unit16(bytes[2 * j], bytes[2 * j + 1], le));
    }
    assert(bytes16(units, le) =~= bytes);
}

/// The bytes of two runs of 16-bit units, one after the other.
pub proof fn lemma_bytes16_concat(a: Seq<u16>, b: Seq<u16>, le: bool)
    ensures
        bytes16(a + b, le) == bytes16(a, le) + bytes16(b, le),
{
    assert forall|i: int| 0 <= i < 2 * (a.len() + b.len()) implies bytes16(a + b, le)[i] == (
    bytes16(a, le) + bytes16(b, le))[i] by {
        if i >= 2 * a.len() {
            assert((i - 2 * a.len()) / 2 == i / 2 - a.len());
            assert((i - 2 * a.len()) % 2 == i % 2);
        }
    }
    assert(bytes16(a + b, le) =~= bytes16(a, le) + bytes16(b, le));
}

/// A number below 2^32 is the sum of its four base-256 digits.
proof fn lemma_sum_of_digits(v: int)
    requires
        0 <= v <= 0xFFFF_FFFF,
    ensures
        v == v % 256 + 256 * (v / 256 % 256) + 65536 * (v / 65536 % 256) + 16777216 * (v
            / 16777216),
        0 <= v / 16777216 < 256,
{
    let q1 = v / 256;
    let q2 = q1 / 256;
    let q3 = q2 / 256;
    assert(v == 256 * q1 + v % 256);
    assert(q1 == 256 * q2 + q1 % 256);
    assert(q2 == 256 * q3 + q2 % 256);
    assert(v / 65536 == q2) by {
        assert(v == 65536 * q2 + (256 * (q1 % 256) + v % 256));
    }
    assert(v / 16777216 == q3) by {
        assert(v == 16777216 * q3 + (65536 * (q2 % 256) + 256 * (q1 % 256) + v % 256));
    }
}

/// A 32-bit unit is the unit of its four bytes.
proof fn lemma_unit32_of_bytes(unit: u32, le: bool)
    ensures
        unit32(
            byte_of32(unit, 0, le),
            byte_of32(unit, 1, le),
            byte_of32(unit, 2, le),
            byte_of32(unit, 3, le),
            le,
        ) == unit,
{
    lemma_sum_of_digits(unit as int);
}

/// Reading the bytes of 32-bit units gives the units back.
pub proof fn lemma_units32_of_bytes32(units: Seq<u32>, le: bool)
    ensures
        units32(bytes32(units, le), le) == units,
{
    let bytes = bytes32(units, le);
    assert forall|i: int| 0 <= i < units.len() implies units32(bytes, le)[i] == units[i] by {
        lemma_unit32_of_bytes(units[i], le);
        assert(bytes[4 * i] == byte_of32(units[i], 0, le));
        assert(bytes[4 * i + 1] == byte_of32(units[i], 1, le));
        assert(bytes[4 * i + 2] == byte_of32(units[i], 2, le));
        assert(bytes[4 * i + 3] == byte_of32(units[i], 3, le));
    }
    assert(units32(bytes, le) =~= units);
}

/// The lowest of the base-256 digits of a number, and the digits above it.
proof fn lemma_low_digit(low: int, rest: int)
    requires
        0 <= low < 256,
    ensures
        (low + 256 * rest) % 256 == low,
        (low + 256 * rest) / 256 == rest,
{
}

/// The four base-256 digits of a number.
proof fn lemma_digits(d0: int, d1: int, d2: int, d3: int)
    requires
        0 <= d0 < 256,
        0 <= d1 < 256,
        0 <= d2 < 256,
        0 <= d3 < 256,
    ensures
        ({
            let v = d0 + 256 * d1 + 65536 * d2 + 16777216 * d3;
            &&& 0 <= v <= 0xFFFF_FFFF
            &&& v % 256 == d0
            &&& v / 256 % 256 == d1
            &&& v / 65536 % 256 == d2
            &&& v / 16777216 == d3
        }),
{
    let v = d0 + 256 * d1 + 65536 * d2 + 16777216 * d3;
    let r1 = d1 + 256 * d2 + 65536 * d3;
    let r2 = d2 + 256 * d3;
    assert(v == d0 + 256 * r1);
    lemma_low_digit(d0, r1);
    assert(r1 == d1 + 256 * r2);
    lemma_low_digit(d1, r2);
    lemma_low_digit(d2, d3);
    assert(v / 256 == r1);
    assert(r1 / 256 == r2);
    assert(v / 65536 == r2) by {
        assert(v == (d0 + 256 * d1) + 65536 * r2);
        assert(0 <= d0 + 256 * d1 < 65536);
    }
    assert(v / 16777216 == d3) by {
        assert(v == (d0 + 256 * d1 + 65536 * d2) + 16777216 * d3);
        assert(0 <= d0 + 256 * d1 + 65536 * d2 < 16777216);
    }
}

/// Each byte of a 32-bit unit is the byte that the unit was made of.
proof fn lemma_byte_of_unit32(a: u8, b: u8, c: u8, d: u8, le: bool)
    ensures
        byte_of32(unit32(a, b, c, d, le), 0, le) == a,
        byte_of32(unit32(a, b, c, d, le), 1, le) == b,
        byte_of32(unit32(a, b, c, d, le), 2, le) == c,
        byte_of32(unit32(a, b, c, d, le), 3, le) == d,
{
    if le {
        lemma_digits(a as int, b as int, c as int, d as int);
    } else {
        lemma_digits(d as int, c as int, b as int, a as int);
    }
}

/// Writing the 32-bit units of a multiple of four bytes gives the bytes back.
pub proof fn lemma_bytes32_of_units32(bytes: Seq<u8>, le: bool)
    requires
        bytes.len() % 4 == 0,
    ensures
        bytes32(units32(bytes, le), le) == bytes,
{
    let units = units32(bytes, le);
    assert forall|i: int| 0 <= i < bytes.len() implies bytes32(units, le)[i] == bytes[i] by {
        let j = i / 4;
        lemma_byte_of_unit32(bytes[4 * j], bytes[4 * j + 1], bytes[4 * j + 2], bytes[4 * j + 3], le);
        assert(units[j] == unit32(
            bytes[4 * j],
            bytes[4 * j + 1],
            bytes[4 * j + 2],
            bytes[4 * j + 3],
            le,
        ));
        assert(i == 4 * j + i % 4);
    }
    assert(bytes32(units, le) =~= bytes);
}

/// The bytes of two runs of 32-bit units, one after the other.
pub proof fn lemma_bytes32_concat(a: Seq<u32>, b: Seq<u32>, le: bool)
    ensures
        bytes32(a + b, le) == bytes32(a, le) + bytes32(b, le),
{
    assert forall|i: int| 0 <= i < 4 * (a.len() + b.len()) implies bytes32(a + b, le)[i] == (
    bytes32(a, le) + bytes32(b, le))[i] by {
        if i >= 4 * a.len() {
            assert((i - 4 * a.len()) / 4 == i / 4 - a.len());
            assert((i - 4 * a.len()) % 4 == i % 4);
        }
    }
    assert(bytes32(a + b, le) =~= bytes32(a, le) + bytes32(b, le));
}

/// Reads `input` as 16-bit units of the given byte order. A last odd byte
/// is left out.
pub fn read_units16(input: &[u8], le: bool) -> (units: Vec<u16>)
    ensures
        units@ == units16(input@, le),
{
    let n: usize = input.len() / 2;
    let mut units: Vec<u16> = Vec::with_capacity(n);
    let mut i: usize = 0;
    while i < n
        invariant
            n == input.len() / 2,
            i <= n,
            units@.len() == i,
            forall|j: int| 0 <= j < i ==> units@[j] == unit16(input@[2 * j], input@[2 * j + 1], le),
        decreases n - i,
    {
        let a: u8 = input[2 * i];
        let b: u8 = input[2 * i + 1];
        let unit: u16 = if le {
            a as u16 + 256 * (b as u16)
        } else {
            256 * (a as u16) + b as u16
        };
        units.push(unit);
        i += 1;
    }
    assert(units@ =~= units16(input@, le));
    units
}

/// Reads `input` as 32-bit units of the given byte order. Up to three last
/// bytes are left out.
pub fn read_units32(input: &[u8], le: bool) -> (units: Vec<u32>)
    ensures
        units@ == units32(input@, le),
{
    let n: usize = input.len() / 4;
    let mut units: Vec<u32> = Vec::with_capacity(n);
    let mut i: usize = 0;
    while i < n
        invariant
            n == input.len() / 4,
            i <= n,
            units@.len() == i,
            forall|j: int|
                0 <= j < i ==> units@[j] == unit32(
                    input@[4 * j],
                    input@[4 * j + 1],
                    input@[4 * j + 2],
                    input@[4 * j + 3],
                    le,
                ),
        decreases n - i,
    {
        let a: u32 = input[4 * i] as u32;
        let b: u32 = input[4 * i + 1] as u32;
        let c: u32 = input[4 * i + 2] as u32;
        let d: u32 = input[4 * i + 3] as u32;
        let unit: u32 = if le {
            a + 256 * b + 65536 * c + 16777216 * d
        } else {
            16777216 * a + 65536 * b + 256 * c + d
        };
        units.push(unit);
        i += 1;
    }
    assert(units@ =~= units32(input@, le));
    units
}

/// Appends the bytes of 16-bit units, in the given byte order, to `out`.
pub fn write_units16(out: &mut Vec<u8>, units: &[u16], le: bool)
    ensures
        final(out)@ == old(out)@ + bytes16(units@, le),
{
    let ghost before = out@;
    let mut i: usize = 0;
    while i < units.len()
        invariant
            i <= units.len(),
            out@.len() == before.len() + 2 * i,
            forall|j: int| 0 <= j < before.len() ==> out@[j] == before[j],
            forall|j: int|
                before.len() <= j < out@.len() ==> #[trigger] out@[j] == byte_of16(
                    units@[(j - before.len()) / 2],
                    (j - before.len()) % 2,
                    le,
                ),
        decreases units.len() - i,
    {
        let unit: u16 = units[i];
        let low: u8 = (unit % 256) as u8;
        let high: u8 = (unit / 256) as u8;
        if le {
            out.push(low);
            out.push(high);
        } else {
            out.push(high);
            out.push(low);
        }
        i += 1;
    }
    assert(out@ =~= before + bytes16(units@, le));
}

/// Appends the bytes of 32-bit units, in the given byte order, to `out`.
pub fn write_units32(out: &mut Vec<u8>, units: &[u32], le: bool)
    ensures
        final(out)@ == old(out)@ + bytes32(units@, le),
{
    let ghost before = out@;
    let mut i: usize = 0;
    while i < units.len()
        invariant
            i <= units.len(),
            out@.len() == before.len() + 4 * i,
            forall|j: int| 0 <= j < before.len() ==> out@[j] == before[j],
            forall|j: int|
                before.len() <= j < out@.len() ==> #[trigger] out@[j] == byte_of32(
                    units@[(j - before.len()) / 4],
                    (j - before.len()) % 4,
                    le,
                ),
        decreases units.len() - i,
    {
        let unit: u32 = units[i];
        let b0: u8 = (unit % 256) as u8;
        let b1: u8 = (unit / 256 % 256) as u8;
        let b2: u8 = (unit / 65536 % 256) as u8;
        let b3: u8 = (unit / 16777216) as u8;
        if le {
            out.push(b0);
            out.push(b1);
            out.push(b2);
            out.push(b3);
        } else {
            out.push(b3);
            out.push(b2);
            out.push(b1);
            out.push(b0);
        }
        i += 1;
    }
    assert(out@ =~= before + bytes32(units@, le));
}

} // verus!
