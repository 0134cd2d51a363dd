//! How numbers and text lie in memory, stated from the side that writes them.

use vstd::prelude::*;

use crate::bytes::{field, le_units, le_value, signed_field};

verus! {

/// How many numbers `size` bytes can hold.
pub open spec fn capacity(size: nat) -> nat
    decreases size,
{
    if size == 0 {
        1
    } else {
        256 * capacity((size - 1) as nat)
    }
}

/// The `size` bytes of the number `n`, the least significant one first.
pub open spec fn number_bytes(n: nat, size: nat) -> Seq<u8>
    decreases size,
{
    if size == 0 {
        Seq::empty()
    } else {
        seq![(n % 256) as u8] + number_bytes(n / 256, (size - 1) as nat)
    }
}

/// The eight bytes of a number in two's complement.
pub open spec fn signed_bytes(n: i64) -> Seq<u8> {
    if n >= 0 {
        number_bytes(n as nat, 8)
    } else {
        number_bytes((n + 0x1_0000_0000_0000_0000) as nat, 8)
    }
}

/// The bytes of 16-bit text.
pub open spec fn text_bytes(text: Seq<u16>) -> Seq<u8>
    decreases text.len(),
{
    if text.len() == 0 {
        Seq::empty()
    } else {
        text_bytes(text.drop_last()) + number_bytes(text.last() as nat, 2)
    }
}

pub(crate) proof fn lemma_number_bytes(n: nat, size: nat)
    requires
        n < capacity(size),
    ensures
        number_bytes(n, size).len() == size,
        le_value(number_bytes(n, size)) == n,
    decreases size,
{
    if size > 0 {
        lemma_number_bytes(n / 256, (size - 1) as nat);
        assert(number_bytes(n, size).drop_first() =~= number_bytes(n / 256, (size - 1) as nat));
    }
}

pub(crate) proof fn lemma_capacities()
    ensures
        capacity(2) == 0x1_0000,
        capacity(4) == 0x1_0000_0000,
        capacity(8) == 0x1_0000_0000_0000_0000,
        capacity(16) == 0x1_0000_0000_0000_0000_0000_0000_0000_0000,
{
    reveal_with_fuel(capacity, 17);
}

/// What was written as a number is read as that number.
pub(crate) proof fn lemma_field_is_read(data: Seq<u8>, at: int, n: nat, size: nat)
    requires
        0 <= at,
        at + size <= data.len(),
        n < capacity(size),
        data.subrange(at, at + size) == number_bytes(n, size),
    ensures
        field(data, at, size as int) == n,
{
    lemma_number_bytes(n, size);
}

/// What was written as a signed number is read as that number.
pub(crate) proof fn lemma_signed_field_is_read(data: Seq<u8>, at: int, n: i64)
    requires
        0 <= at,
        at + 8 <= data.len(),
        data.subrange(at, at + 8) == signed_bytes(n),
    ensures
        signed_field(data, at) == n,
{
    lemma_capacities();
    if n >= 0 {
        lemma_field_is_read(data, at, n as nat, 8);
    } else {
        lemma_field_is_read(data, at, (n + 0x1_0000_0000_0000_0000) as nat, 8);
    }
}

pub(crate) proof fn lemma_signed_bytes(n: i64)
    ensures
        signed_bytes(n).len() == 8,
{
    lemma_capacities();
    if n >= 0 {
        lemma_number_bytes(n as nat, 8);
    } else {
        lemma_number_bytes((n + 0x1_0000_0000_0000_0000) as nat, 8);
    }
}

/// What was written as text is read as that text.
pub(crate) proof fn lemma_text_is_read(text: Seq<u16>)
    ensures
        text_bytes(text).len() == 2 * text.len(),
        le_units(text_bytes(text)) == text,
    decreases text.len(),
{
    lemma_capacities();
    if text.len() > 0 {
        let front = text.drop_last();
        let bytes = text_bytes(text);
        let last = number_bytes(text.last() as nat, 2);
        lemma_text_is_read(front);
        lemma_number_bytes(text.last() as nat, 2);
        assert forall|i: int| 0 <= i < text.len() implies #[trigger] le_units(bytes)[i] == text[i] by {
            if i < front.len() {
                assert(bytes.subrange(2 * i, 2 * i + 2) =~= text_bytes(front).subrange(
                    2 * i,
                    2 * i + 2,
                ));
                assert(le_units(text_bytes(front))[i] == front[i]);
            } else {
                assert(bytes.subrange(2 * i, 2 * i + 2) =~= last);
            }
        }
        assert(le_units(bytes) =~= text);
    } else {
        assert(le_units(text_bytes(text)) =~= text);
    }
}

} // verus!
