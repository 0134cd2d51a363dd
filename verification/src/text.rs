//! Text in the two encodings that the library meets: Rust strings, seen as
//! sequences of characters, and the 16-bit text of Windows, seen as sequences
//! of UTF-16 code units.

use vstd::prelude::*;
use vstd::string::*;

verus! {

/// `str == str`: two strings compare equal exactly when they hold the same
/// characters in the same order.
#[verifier::external_body]
pub(crate) fn same_text(a: &str, b: &str) -> (r: bool)
    ensures
        r == (a@ == b@),
{
    a == b
}

/// `String::push` appends one character.
pub assume_specification[ String::push ](s: &mut String, c: char)
    ensures
        final(s)@ == old(s)@.push(c),
;

/// The characters with the Unicode property `White_Space`.
pub open spec fn is_white_space(c: char) -> bool {
    let n = c as u32;
    ||| 0x9 <= n <= 0xd
    ||| n == 0x20
    ||| n == 0x85
    ||| n == 0xa0
    ||| n == 0x1680
    ||| 0x2000 <= n <= 0x200a
    ||| n == 0x2028
    ||| n == 0x2029
    ||| n == 0x202f
    ||| n == 0x205f
    ||| n == 0x3000
}

/// `s` without the white space it begins with.
pub open spec fn trimmed_start(s: Seq<char>) -> Seq<char>
    decreases s.len(),
{
    if s.len() > 0 && is_white_space(s[0]) {
        trimmed_start(s.drop_first())
    } else {
        s
    }
}

/// `s` without the white space it ends with.
pub open spec fn trimmed_end(s: Seq<char>) -> Seq<char>
    decreases s.len(),
{
    if s.len() > 0 && is_white_space(s.last()) {
        trimmed_end(s.drop_last())
    } else {
        s
    }
}

/// `s` without the white space at either end.
pub open spec fn trimmed(s: Seq<char>) -> Seq<char> {
    trimmed_end(trimmed_start(s))
}

/// `str::trim` removes leading and trailing `White_Space` characters and
/// nothing else.
pub assume_specification[ str::trim ](s: &str) -> (r: &str)
    ensures
        r@ == trimmed(s@),
;

pub open spec fn is_high_surrogate(u: u16) -> bool {
    0xd800 <= u < 0xdc00
}

pub open spec fn is_low_surrogate(u: u16) -> bool {
    0xdc00 <= u < 0xe000
}

/// The character that a surrogate pair stands for.
pub open spec fn surrogate_pair(high: u16, low: u16) -> char {
    (0x10000 + (high - 0xd800) * 0x400 + (low - 0xdc00)) as char
}

/// The characters that 16-bit text stands for, with U+FFFD in the place of
/// every surrogate that has no partner.
pub open spec fn utf16_lossy(units: Seq<u16>) -> Seq<char>
    decreases units.len(),
{
    if units.len() == 0 {
        Seq::empty()
    } else if is_high_surrogate(units[0]) && units.len() > 1 && is_low_surrogate(units[1]) {
        seq![surrogate_pair(units[0], units[1])] + utf16_lossy(units.skip(2))
    } else if is_high_surrogate(units[0]) || is_low_surrogate(units[0]) {
        seq!['\u{fffd}'] + utf16_lossy(units.drop_first())
    } else {
        seq![units[0] as char] + utf16_lossy(units.drop_first())
    }
}

/// `String::from_utf16_lossy` decodes UTF-16 and puts U+FFFD wherever a
/// surrogate is unpaired.
pub assume_specification[ String::from_utf16_lossy ](v: &[u16]) -> (r: String)
    ensures
        r@ == utf16_lossy(v@),
;

/// The UTF-16 code units of one character.
pub open spec fn utf16_char(c: char) -> Seq<u16> {
    let n = c as u32;
    if n < 0x10000 {
        seq![n as u16]
    } else {
        seq![(0xd800 + (n - 0x10000) / 0x400) as u16, (0xdc00 + (n - 0x10000) % 0x400) as u16]
    }
}

/// The UTF-16 code units of a string.
pub open spec fn utf16(s: Seq<char>) -> Seq<u16>
    decreases s.len(),
{
    if s.len() == 0 {
        Seq::empty()
    } else {
        utf16(s.drop_last()) + utf16_char(s.last())
    }
}

/// The UTF-16 code units of `s`.
pub fn encode_utf16(s: &str) -> (r: Vec<u16>)
    ensures
        r@ == utf16(s@),
{
    let mut units: Vec<u16> = Vec::new();
    for c in it: s.chars()
        invariant
            it.seq() == s@,
            units@ == utf16(s@.take(it.index())),
    {
        proof {
            assert(s@.take(it.index() + 1).drop_last() =~= s@.take(it.index()));
        }
        let n: u32 = c as u32;
        if n < 0x10000 {
            units.push(n as u16);
        } else {
            units.push((0xd800 + (n - 0x10000) / 0x400) as u16);
            units.push((0xdc00 + (n - 0x10000) % 0x400) as u16);
        }
    }
    proof {
        assert(s@.take(s@.len() as int) =~= s@);
    }
    units
}

/// `at` is the place of the first NUL in `units`.
pub open spec fn is_first_nul(units: Seq<u16>, at: int) -> bool {
    &&& 0 <= at < units.len()
    &&& units[at] == 0
    &&& forall|k: int| 0 <= k < at ==> units[k] != 0
}

/// `units` with a NUL at its end, where it has none there.
pub open spec fn nul_terminated(units: Seq<u16>) -> Seq<u16> {
    if units.len() > 0 && units.last() == 0 {
        units
    } else {
        units.push(0)
    }
}

/// `widestring::U16CString::from_vec`, with the string handed out again by
/// `into_vec_with_nul`: a NUL may stand at the end and nowhere else. The error
/// is the place of the first NUL.
#[verifier::external_body]
fn u16_c_string(units: Vec<u16>) -> (r: Result<Vec<u16>, usize>)
    ensures
        match r {
            Ok(terminated) => terminated@ == nul_terminated(units@) && forall|at: int|
                #[trigger] is_first_nul(units@, at) ==> at == units@.len() - 1,
            Err(at) => is_first_nul(units@, at as int) && at < units@.len() - 1,
        },
{
    match widestring::U16CString::from_vec(units) {
        Ok(string) => Ok(string.into_vec_with_nul()),
        Err(e) => Err(e.nul_position()),
    }
}

/// A text that cannot be handed to the system because of a NUL within it.
#[derive(Debug, Clone, Copy, PartialEq, Eq, Structural)]
pub struct ContainsNul {
    pub position: usize,
}

/// Puts a NUL at the end of `units`, as the system expects of a text. A NUL
/// that is already there is enough; one before the end is an error.
pub fn wide_c_string(units: Vec<u16>) -> (r: Result<Vec<u16>, ContainsNul>)
    ensures
        match r {
            Ok(terminated) => terminated@ == nul_terminated(units@) && forall|at: int|
                #[trigger] is_first_nul(units@, at) ==> at == units@.len() - 1,
            Err(e) => is_first_nul(units@, e.position as int) && e.position < units@.len() - 1,
        },
{
    match u16_c_string(units) {
        Ok(terminated) => Ok(terminated),
        Err(position) => Err(ContainsNul { position }),
    }
}

/// The digit of the hexadecimal system for `n`, in upper case.
pub open spec fn hex_digit(n: int) -> char {
    if n < 10 {
        (n + 0x30) as char
    } else {
        (n + 0x37) as char
    }
}

/// `n` in the hexadecimal system, in upper case and without leading zeros.
pub open spec fn hex_text(n: nat) -> Seq<char>
    decreases n,
{
    if n < 16 {
        seq![hex_digit(n as int)]
    } else {
        hex_text(n / 16).push(hex_digit((n % 16) as int))
    }
}

/// Writes `n` in the hexadecimal system.
pub fn to_hex(n: u32) -> (r: String)
    ensures
        r@ == hex_text(n as nat),
    decreases n,
{
    let digit: u8 = (n % 16) as u8;
    let c: char = if digit < 10 {
        (digit + 0x30) as char
    } else {
        (digit + 0x37) as char
    };
    let mut text: String = if n < 16 {
        String::new()
    } else {
        to_hex(n / 16)
    };
    text.push(c);
    assert(text@ =~= hex_text(n as nat));
    text
}

/// `n` in the decimal system, without leading zeros.
pub open spec fn decimal_text(n: nat) -> Seq<char>
    decreases n,
{
    if n < 10 {
        seq![(n + 0x30) as char]
    } else {
        decimal_text(n / 10).push(((n % 10) + 0x30) as char)
    }
}

/// Writes `n` in the decimal system.
pub fn to_decimal(n: u64) -> (r: String)
    ensures
        r@ == decimal_text(n as nat),
    decreases n,
{
    let digit: u8 = (n % 10) as u8;
    let mut text: String = if n < 10 {
        String::new()
    } else {
        to_decimal(n / 10)
    };
    text.push((digit + 0x30) as char);
    assert(text@ =~= decimal_text(n as nat));
    text
}

proof fn lemma_utf16_of_front(s: Seq<char>)
    requires
        s.len() > 0,
    ensures
        utf16(s) == utf16_char(s[0]) + utf16(s.drop_first()),
    decreases s.len(),
{
    if s.len() == 1 {
        assert(s.drop_last() =~= Seq::<char>::empty());
        assert(s.drop_first() =~= Seq::<char>::empty());
        assert(utf16(s) =~= utf16_char(s[0]) + utf16(s.drop_first()));
    } else {
        lemma_utf16_of_front(s.drop_last());
        assert(s.drop_last().drop_first() =~= s.drop_first().drop_last());
        assert(utf16(s) =~= utf16_char(s[0]) + utf16(s.drop_first()));
    }
}

proof fn lemma_utf16_char(c: char)
    ensures
        ({
            let units = utf16_char(c);
            ||| units.len() == 1 && !is_high_surrogate(units[0]) && !is_low_surrogate(units[0])
                && units[0] as char == c
            ||| units.len() == 2 && is_high_surrogate(units[0]) && is_low_surrogate(units[1])
                && surrogate_pair(units[0], units[1]) == c
        }),
{
    let n = c as u32;
    assert(n <= 0x10ffff);
}

/// Text survives the way to the system and back: decoding the UTF-16 code units
/// of a string gives the string.
pub proof fn utf16_keeps_text(s: Seq<char>)
    ensures
        utf16_lossy(utf16(s)) == s,
    decreases s.len(),
{
    if s.len() == 0 {
        assert(utf16_lossy(utf16(s)) =~= s);
    } else {
        let units = utf16(s);
        let rest = utf16(s.drop_first());
        lemma_utf16_of_front(s);
        lemma_utf16_char(s[0]);
        utf16_keeps_text(s.drop_first());
        assert(seq![s[0]] + s.drop_first() =~= s);
        if utf16_char(s[0]).len() == 1 {
            assert(units.drop_first() =~= rest);
            assert(units[0] == utf16_char(s[0])[0]);
        } else {
            assert(units.skip(2) =~= rest);
            assert(units[0] == utf16_char(s[0])[0]);
            assert(units[1] == utf16_char(s[0])[1]);
        }
    }
}

} // verus!
