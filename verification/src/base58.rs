//! Base58 (the Bitcoin alphabet), as identifiers and keys are written.
use rust_base58::FromBase58;
use vstd::prelude::*;

use crate::errors::CommonError;

verus! {

/// Whether `c` is a digit of the Bitcoin base58 alphabet: `1` to `9`, the
/// capital letters but `I` and `O`, the small letters but `l`.
pub open spec fn is_base58_char(c: char) -> bool {
    ||| ('1' <= c && c <= '9')
    ||| ('A' <= c && c <= 'Z' && c != 'I' && c != 'O')
    ||| ('a' <= c && c <= 'z' && c != 'l')
}

/// Whether every character of `s` is a base58 digit.
pub open spec fn is_base58(s: Seq<char>) -> bool {
    forall|i: int| 0 <= i < s.len() ==> #[trigger] is_base58_char(s[i])
}

/// What `rust_base58`'s `from_base58` makes of a text: the decoded bytes, or
/// the message of its error.
pub uninterp spec fn base58_decoded(text: Seq<char>) -> Result<Seq<u8>, Seq<char>>;

/// Decodes base58 text by `rust_base58::FromBase58::from_base58` on a
/// `str`. The claim: it succeeds exactly when every character is in the
/// alphabet (the crate looks each byte up in the alphabet and fails on the
/// first one that is missing), and its result, the bytes or the error's
/// message, is the one that `base58_decoded` names.
#[verifier::external_body]
fn from_base58_text(text: &str) -> (r: Result<Vec<u8>, String>)
    ensures
        r is Ok <==> is_base58(text@),
        match r {
            Ok(b) => base58_decoded(text@) == Ok::<Seq<u8>, Seq<char>>(b@),
            Err(m) => base58_decoded(text@) == Err::<Seq<u8>, Seq<char>>(m@),
        },
{
    match text.from_base58() {
        Ok(b) => Ok(b),
        Err(e) => Err(e.to_string()),
    }
}

/// Base58 decoding, with the library's errors.
pub struct Base58 {}

impl Base58 {
    /// Decodes base58 text; a text with a character out of the alphabet is
    /// an `InvalidStructure` error that carries the decoder's message.
    pub fn decode(doc: &str) -> (r: Result<Vec<u8>, CommonError>)
        ensures
            r is Ok <==> is_base58(doc@),
            match r {
                Ok(b) => base58_decoded(doc@) == Ok::<Seq<u8>, Seq<char>>(b@),
                Err(CommonError::InvalidStructure(m)) => base58_decoded(doc@) == Err::<
                    Seq<u8>,
                    Seq<char>,
                >(m@),
                Err(CommonError::InvalidState(_)) => false,
            },
    {
        match from_base58_text(doc) {
            Ok(b) => Ok(b),
            Err(m) => Err(CommonError::InvalidStructure(m)),
        }
    }
}

} // verus!
