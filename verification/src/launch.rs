//! Handing the arguments of a run over to the guest: the bytes travel as text
//! in an environment variable.

use base64::Engine;
use vstd::prelude::*;

verus! {

/// Why a text holds no bytes.
#[derive(Debug, Clone, Copy, PartialEq, Eq, Structural)]
pub enum ArgumentsError {
    /// The character with this value at this place does not belong there.
    InvalidByte { index: usize, byte: u8 },
    /// So many characters stand for no whole number of bytes.
    InvalidLength { length: usize },
    /// The last character stands for more bits than there is room for.
    InvalidLastSymbol { index: usize, byte: u8 },
    /// There is padding where none may be.
    InvalidPadding,
}

/// The text that `base64::prelude::BASE64_URL_SAFE_NO_PAD` encodes `bytes` to.
pub uninterp spec fn base64_text(bytes: Seq<u8>) -> Seq<char>;

/// What `base64::prelude::BASE64_URL_SAFE_NO_PAD` decodes `text` to.
pub uninterp spec fn base64_bytes(text: Seq<char>) -> Result<Seq<u8>, ArgumentsError>;

/// The characters of the URL-safe alphabet.
pub open spec fn is_url_safe(c: char) -> bool {
    'a' <= c <= 'z' || 'A' <= c <= 'Z' || '0' <= c <= '9' || c == '-' || c == '_'
}

/// The text of so many bytes fits in memory.
pub open spec fn is_encodable(len: nat) -> bool {
    4 * (len / 3) + 4 <= isize::MAX
}

/// Decoding gave `bytes`.
pub open spec fn decoded(bytes: Seq<u8>) -> Result<Seq<u8>, ArgumentsError> {
    Ok(bytes)
}

/// `base64::Engine::encode` of `BASE64_URL_SAFE_NO_PAD`: four characters of the
/// URL-safe alphabet for three bytes, and no padding. The same engine decodes
/// the text to the same bytes.
#[verifier::external_body]
fn encode_base64(bytes: &Vec<u8>) -> (r: String)
    requires
        is_encodable(bytes@.len()),
    ensures
        r@ == base64_text(bytes@),
        r@.len() == (4 * bytes@.len() + 2) / 3,
        forall|i: int| 0 <= i < r@.len() ==> is_url_safe(#[trigger] r@[i]),
        base64_bytes(r@) == decoded(bytes@),
{
    base64::prelude::BASE64_URL_SAFE_NO_PAD.encode(bytes)
}

/// `base64::Engine::decode` of `BASE64_URL_SAFE_NO_PAD`.
#[verifier::external_body]
fn decode_base64(text: &str) -> (r: Result<Vec<u8>, ArgumentsError>)
    ensures
        match r {
            Ok(bytes) => base64_bytes(text@) == decoded(bytes@),
            Err(e) => base64_bytes(text@) matches Err(reason) && e == reason,
        },
{
    base64::prelude::BASE64_URL_SAFE_NO_PAD.decode(text).map_err(|e| match e {
        base64::DecodeError::InvalidByte(index, byte) => ArgumentsError::InvalidByte { index, byte },
        base64::DecodeError::InvalidLength(length) => ArgumentsError::InvalidLength { length },
        base64::DecodeError::InvalidLastSymbol(index, byte) => {
            ArgumentsError::InvalidLastSymbol { index, byte }
        },
        base64::DecodeError::InvalidPadding => ArgumentsError::InvalidPadding,
    })
}

/// Turns the arguments of a run into text for the environment.
pub fn encode_arguments(bytes: &Vec<u8>) -> (r: String)
    requires
        is_encodable(bytes@.len()),
    ensures
        r@ == base64_text(bytes@),
        r@.len() == (4 * bytes@.len() + 2) / 3,
        forall|i: int| 0 <= i < r@.len() ==> is_url_safe(#[trigger] r@[i]),
        base64_bytes(r@) == decoded(bytes@),
{
    encode_base64(bytes)
}

/// Turns the text from the environment into the arguments of a run.
pub fn decode_arguments(text: &str) -> (r: Result<Vec<u8>, ArgumentsError>)
    ensures
        match r {
            Ok(bytes) => base64_bytes(text@) == decoded(bytes@),
            Err(e) => base64_bytes(text@) matches Err(reason) && e == reason,
        },
{
    decode_base64(text)
}

} // verus!
