//! Text and numbers in text, stated from the side that reads them.

use vstd::prelude::*;

use crate::text::{
    decimal_text, encode_utf16, hex_text, is_first_nul, is_low_surrogate, is_white_space,
    to_decimal, to_hex, trimmed, trimmed_end, trimmed_start, utf16, utf16_char, utf16_keeps_text,
    utf16_lossy, wide_c_string, ContainsNul,
};

verus! {

/// Text that follows other text is decoded on its own, unless it starts with the
/// second half of a pair.
pub proof fn text_is_decoded_piece_by_piece(a: Seq<u16>, b: Seq<u16>)
    requires
        b.len() > 0 ==> !(0xdc00 <= b[0] < 0xe000),
    ensures
        utf16_lossy(a + b) == utf16_lossy(a) + utf16_lossy(b),
    decreases a.len(),
{
    let all = a + b;
    if a.len() == 0 {
        assert(all =~= b);
        assert(utf16_lossy(a) + utf16_lossy(b) =~= utf16_lossy(b));
    } else if 0xd800 <= a[0] < 0xdc00 && a.len() > 1 && is_low_surrogate(a[1]) {
        text_is_decoded_piece_by_piece(a.skip(2), b);
        assert(all.skip(2) =~= a.skip(2) + b);
        assert(utf16_lossy(all) =~= utf16_lossy(a) + utf16_lossy(b));
    } else {
        text_is_decoded_piece_by_piece(a.drop_first(), b);
        assert(all.drop_first() =~= a.drop_first() + b);
        assert(all[0] == a[0]);
        if a.len() > 1 {
            assert(all[1] == a[1]);
        } else if b.len() > 0 {
            assert(all[1] == b[0]);
        }
        assert(utf16_lossy(all) =~= utf16_lossy(a) + utf16_lossy(b));
    }
}

pub(crate) proof fn lemma_one_unit(u: u16)
    requires
        !(0xd800 <= u < 0xe000),
    ensures
        utf16_lossy(seq![u]) == seq![u as char],
{
    reveal_with_fuel(utf16_lossy, 2);
    assert(seq![u].drop_first() =~= Seq::<u16>::empty());
    assert(utf16_lossy(seq![u]) =~= seq![u as char]);
}

proof fn lemma_char_start(c: char)
    ensures
        utf16_char(c).len() >= 1,
        !(0xdc00 <= utf16_char(c)[0] < 0xe000),
{
    let n = c as u32;
    assert(n <= 0x10ffff);
}

pub(crate) proof fn lemma_utf16_start(s: Seq<char>)
    ensures
        utf16(s).len() >= s.len(),
        utf16(s).len() > 0 ==> !(0xdc00 <= utf16(s)[0] < 0xe000),
    decreases s.len(),
{
    if s.len() > 0 {
        lemma_utf16_start(s.drop_last());
        lemma_char_start(s.last());
        if s.len() > 1 {
            assert(utf16(s.drop_last()).len() > 0);
        } else {
            assert(utf16(s.drop_last()).len() == 0) by {
                assert(s.drop_last() =~= Seq::empty());
            }
        }
    }
}

/// What was encoded decodes to itself.
pub proof fn encoded_text_decodes_to_itself(s: &str, r: Vec<u16>)
    requires
        call_ensures(encode_utf16, (s,), r),
    ensures
        utf16_lossy(r@) == s@,
        s@.len() == 0 <==> r@.len() == 0,
{
    utf16_keeps_text(s@);
    lemma_utf16_start(s@);
    if s@.len() == 0 {
        assert(utf16(s@).len() == 0);
    }
}

/// The number that the digits of `text` stand for; letters count from ten on.
pub open spec fn number_in(text: Seq<char>, base: nat) -> nat
    decreases text.len(),
{
    if text.len() == 0 {
        0
    } else {
        let c = text.last();
        let digit = if '0' <= c <= '9' {
            (c as nat - '0' as nat) as nat
        } else {
            (c as nat - 'A' as nat + 10) as nat
        };
        number_in(text.drop_last(), base) * base + digit
    }
}

/// A number is written with the digits from 0 to 9, without a zero at the start
/// unless it is the only digit, and reads as itself.
pub proof fn decimal_numbers_read_as_themselves(n: u64, r: String)
    requires
        call_ensures(to_decimal, (n,), r),
    ensures
        number_in(r@, 10) == n,
        r@.len() > 0,
        forall|i: int| 0 <= i < r@.len() ==> '0' <= #[trigger] r@[i] <= '9',
        r@[0] == '0' ==> r@.len() == 1,
{
    lemma_decimal(n as nat);
}

proof fn lemma_decimal(n: nat)
    ensures
        number_in(decimal_text(n), 10) == n,
        decimal_text(n).len() > 0,
        forall|i: int| 0 <= i < decimal_text(n).len() ==> '0' <= #[trigger] decimal_text(n)[i] <= '9',
        decimal_text(n)[0] == '0' ==> n == 0 && decimal_text(n).len() == 1,
    decreases n,
{
    reveal_with_fuel(number_in, 2);
    if n >= 10 {
        lemma_decimal(n / 10);
        let front = decimal_text(n / 10);
        assert(decimal_text(n).drop_last() =~= front);
        assert(decimal_text(n)[0] == front[0]);
    } else {
        assert(decimal_text(n).drop_last() =~= Seq::empty());
    }
}

/// A number in the hexadecimal system is written with the digits from 0 to 9 and
/// from A to F, without a zero at the start unless it is the only digit, and
/// reads as itself.
pub proof fn hexadecimal_numbers_read_as_themselves(n: u32, r: String)
    requires
        call_ensures(to_hex, (n,), r),
    ensures
        number_in(r@, 16) == n,
        r@.len() > 0,
        forall|i: int|
            0 <= i < r@.len() ==> '0' <= #[trigger] r@[i] <= '9' || 'A' <= r@[i] <= 'F',
        r@[0] == '0' ==> r@.len() == 1,
{
    lemma_hexadecimal(n as nat);
}

pub(crate) proof fn lemma_hexadecimal(n: nat)
    ensures
        number_in(hex_text(n), 16) == n,
        hex_text(n).len() > 0,
        forall|i: int|
            0 <= i < hex_text(n).len() ==> '0' <= #[trigger] hex_text(n)[i] <= '9' || 'A'
                <= hex_text(n)[i] <= 'F',
        hex_text(n)[0] == '0' ==> n == 0 && hex_text(n).len() == 1,
    decreases n,
{
    reveal_with_fuel(number_in, 2);
    if n >= 16 {
        lemma_hexadecimal(n / 16);
        let front = hex_text(n / 16);
        assert(hex_text(n).drop_last() =~= front);
        assert(hex_text(n)[0] == front[0]);
    } else {
        assert(hex_text(n).drop_last() =~= Seq::empty());
    }
}

/// Trimming takes white space off both ends and nothing else: what is left is a
/// part of the text that neither starts nor ends with white space, and all around
/// it is white space.
pub proof fn trimming_takes_white_space_off(s: Seq<char>) -> (r: (int, int))
    ensures
        0 <= r.0 <= r.1 <= s.len(),
        trimmed(s) == s.subrange(r.0, r.1),
        forall|i: int| 0 <= i < r.0 || r.1 <= i < s.len() ==> is_white_space(#[trigger] s[i]),
        r.0 < r.1 ==> !is_white_space(s[r.0]) && !is_white_space(s[r.1 - 1]),
{
    let start = lemma_trimmed_start(s);
    let rest = s.skip(start);
    let end = lemma_trimmed_end(rest);
    assert(trimmed(s) =~= s.subrange(start, start + end));
    assert forall|i: int| start + end <= i < s.len() implies is_white_space(#[trigger] s[i]) by {
        assert(rest[i - start] == s[i]);
    }
    if end > 0 {
        assert(rest[0] == s[start]);
        assert(rest[end - 1] == s[start + end - 1]);
    }
    (start, start + end)
}

proof fn lemma_trimmed_start(s: Seq<char>) -> (start: int)
    ensures
        0 <= start <= s.len(),
        trimmed_start(s) == s.skip(start),
        forall|i: int| 0 <= i < start ==> is_white_space(#[trigger] s[i]),
        start < s.len() ==> !is_white_space(s[start]),
    decreases s.len(),
{
    if s.len() > 0 && is_white_space(s[0]) {
        let rest = s.drop_first();
        let start = lemma_trimmed_start(rest);
        assert(rest.skip(start) =~= s.skip(start + 1));
        assert forall|i: int| 0 <= i < start + 1 implies is_white_space(#[trigger] s[i]) by {
            if i > 0 {
                assert(rest[i - 1] == s[i]);
            }
        }
        if start + 1 < s.len() {
            assert(rest[start] == s[start + 1]);
        }
        start + 1
    } else {
        assert(s.skip(0) =~= s);
        0
    }
}

proof fn lemma_trimmed_end(s: Seq<char>) -> (end: int)
    ensures
        0 <= end <= s.len(),
        trimmed_end(s) == s.take(end),
        forall|i: int| end <= i < s.len() ==> is_white_space(#[trigger] s[i]),
        end > 0 ==> !is_white_space(s[end - 1]),
    decreases s.len(),
{
    if s.len() > 0 && is_white_space(s.last()) {
        let rest = s.drop_last();
        let end = lemma_trimmed_end(rest);
        assert(rest.take(end) =~= s.take(end));
        assert forall|i: int| end <= i < s.len() implies is_white_space(#[trigger] s[i]) by {
            if i < rest.len() {
                assert(rest[i] == s[i]);
            }
        }
        if end > 0 {
            assert(rest[end - 1] == s[end - 1]);
        }
        end
    } else {
        assert(s.take(s.len() as int) =~= s);
        s.len() as int
    }
}

/// A text is handed to the system with one NUL at its end. One that holds a NUL
/// before its end is refused, and the first is named.
pub proof fn a_nul_ends_a_text(
    units: Vec<u16>,
    r: Result<Vec<u16>, ContainsNul>,
    i: int,
)
    requires
        call_ensures(wide_c_string, (units,), r),
        0 <= i <= units@.len(),
        forall|k: int| 0 <= k < i ==> #[trigger] units@[k] != 0,
        i < units@.len() ==> units@[i] == 0,
    ensures
        i == units@.len() ==> (r matches Ok(text) && text@ == units@.push(0)),
        i == units@.len() - 1 ==> (r matches Ok(text) && text@ == units@),
        i < units@.len() - 1 ==> (r matches Err(e) && e.position == i),
{
    if i < units@.len() {
        assert(is_first_nul(units@, i));
    }
    if let Err(e) = r {
        assert(is_first_nul(units@, e.position as int));
        assert(units@[e.position as int] == 0);
    }
}

} // verus!
