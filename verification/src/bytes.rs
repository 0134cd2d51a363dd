//! Reading the little-endian fields of the binary layouts that Windows hands
//! out.

use vstd::prelude::*;
use vstd::slice::slice_subrange;

verus! {

/// The number that `s` spells with its least significant byte first.
pub open spec fn le_value(s: Seq<u8>) -> nat
    decreases s.len(),
{
    if s.len() == 0 {
        0
    } else {
        s[0] as nat + 256 * le_value(s.drop_first())
    }
}

/// The little-endian number in the `size` bytes of `data` that start at `at`.
pub open spec fn field(data: Seq<u8>, at: int, size: int) -> nat {
    le_value(data.subrange(at, at + size))
}

/// The number that the bits of `n` stand for in two's complement of 64 bits.
pub open spec fn signed_64(n: nat) -> int {
    if n < 0x8000_0000_0000_0000 {
        n as int
    } else {
        n - 0x1_0000_0000_0000_0000
    }
}

/// The signed little-endian number in the eight bytes of `data` at `at`.
pub open spec fn signed_field(data: Seq<u8>, at: int) -> int {
    signed_64(field(data, at, 8))
}

/// The 16-bit units that `s` holds, an odd byte at its end left out.
pub open spec fn le_units(s: Seq<u8>) -> Seq<u16> {
    Seq::new((s.len() / 2) as nat, |i: int| field(s, 2 * i, 2) as u16)
}

/// How many numbers `len` bytes can spell.
spec fn le_range(len: nat) -> nat
    decreases len,
{
    if len == 0 {
        1
    } else {
        256 * le_range((len - 1) as nat)
    }
}

proof fn lemma_le_value_range(s: Seq<u8>)
    ensures
        le_value(s) < le_range(s.len()),
    decreases s.len(),
{
    if s.len() > 0 {
        lemma_le_value_range(s.drop_first());
    }
}

proof fn lemma_le_ranges()
    ensures
        le_range(2) == 0x1_0000,
        le_range(4) == 0x1_0000_0000,
        le_range(8) == 0x1_0000_0000_0000_0000,
        le_range(15) == 0x100_0000_0000_0000_0000_0000_0000_0000,
        le_range(16) == 0x1_0000_0000_0000_0000_0000_0000_0000_0000,
{
    reveal_with_fuel(le_range, 17);
}

proof fn lemma_le_range_monotone(a: nat, b: nat)
    requires
        a <= b,
    ensures
        le_range(a) <= le_range(b),
    decreases b,
{
    if a < b {
        lemma_le_range_monotone(a, (b - 1) as nat);
    }
}

/// A field of two, four, eight or sixteen bytes fits the integer type of that
/// size.
pub proof fn field_fits(data: Seq<u8>, at: int, size: int)
    requires
        0 <= at,
        at + size <= data.len(),
    ensures
        size == 2 ==> field(data, at, size) <= u16::MAX,
        size == 4 ==> field(data, at, size) <= u32::MAX,
        size == 8 ==> field(data, at, size) <= u64::MAX,
        size == 16 ==> field(data, at, size) <= u128::MAX,
{
    if size == 2 || size == 4 || size == 8 || size == 16 {
        lemma_le_value_range(data.subrange(at, at + size));
        lemma_le_ranges();
    }
}

/// Reads the `size` bytes at `at` as one number.
fn read_le(data: &[u8], at: usize, size: usize) -> (r: u128)
    requires
        size <= 16,
        at + size <= data@.len(),
    ensures
        r == field(data@, at as int, size as int),
{
    assert(data@.len() == data.len());
    let mut value: u128 = 0;
    let mut i: usize = size;
    while i > 0
        invariant
            i <= size <= 16,
            at + size <= data@.len(),
            at + size <= usize::MAX,
            value == le_value(data@.subrange(at + i, at + size)),
        decreases i,
    {
        i = i - 1;
        proof {
            let tail = data@.subrange(at + i, at + size);
            assert(tail.drop_first() =~= data@.subrange(at + i + 1, at + size));
            lemma_le_value_range(tail.drop_first());
            lemma_le_range_monotone((size - i - 1) as nat, 15);
            lemma_le_ranges();
        }
        value = value * 256 + data[at + i] as u128;
    }
    value
}

/// Reads the two bytes at `at`.
pub fn read_u16(data: &[u8], at: usize) -> (r: u16)
    requires
        at + 2 <= data@.len(),
    ensures
        r == field(data@, at as int, 2),
{
    proof {
        field_fits(data@, at as int, 2);
    }
    read_le(data, at, 2) as u16
}

/// Reads the four bytes at `at`.
pub fn read_u32(data: &[u8], at: usize) -> (r: u32)
    requires
        at + 4 <= data@.len(),
    ensures
        r == field(data@, at as int, 4),
{
    proof {
        field_fits(data@, at as int, 4);
    }
    read_le(data, at, 4) as u32
}

/// Reads the eight bytes at `at`.
pub fn read_u64(data: &[u8], at: usize) -> (r: u64)
    requires
        at + 8 <= data@.len(),
    ensures
        r == field(data@, at as int, 8),
{
    proof {
        field_fits(data@, at as int, 8);
    }
    read_le(data, at, 8) as u64
}

/// Reads the eight bytes at `at` as a signed number.
pub fn read_i64(data: &[u8], at: usize) -> (r: i64)
    requires
        at + 8 <= data@.len(),
    ensures
        r == signed_field(data@, at as int),
{
    let value: u64 = read_u64(data, at);
    assert(value < 0x8000_0000_0000_0000 ==> (value as i64) == value) by (bit_vector);
    assert(value >= 0x8000_0000_0000_0000 ==> (value as i64) == value
        - 0x1_0000_0000_0000_0000) by (bit_vector);
    value as i64
}

/// Reads the sixteen bytes at `at`.
pub fn read_u128(data: &[u8], at: usize) -> (r: u128)
    requires
        at + 16 <= data@.len(),
    ensures
        r == field(data@, at as int, 16),
{
    read_le(data, at, 16)
}

/// Reads the 16-bit units in the `len` bytes at `at`.
pub fn read_units(data: &[u8], at: usize, len: usize) -> (r: Vec<u16>)
    requires
        at + len <= data@.len(),
    ensures
        r@ == le_units(data@.subrange(at as int, at + len)),
{
    assert(data@.len() == data.len());
    let text: &[u8] = slice_subrange(data, at, at + len);
    let count: usize = len / 2;
    let mut units: Vec<u16> = Vec::new();
    for i in 0..count
        invariant
            count == text@.len() / 2,
            text@.len() <= usize::MAX,
            units@.len() == i,
            forall|k: int| 0 <= k < i ==> units@[k] == #[trigger] le_units(text@)[k],
    {
        proof {
            field_fits(text@, 2 * i as int, 2);
        }
        let unit: u16 = read_u16(text, 2 * i);
        units.push(unit);
    }
    units
}

} // verus!
