//! The text encoding under the record store.
//!
//! The platform's native store holds strings, so envelope bytes travel
//! through a reversible binary-to-text encoding — standard base64.  The one
//! hard requirement on it is exact round-trip byte equality, which is what
//! the contracts here pin down.

use base64::Engine;
use vstd::prelude::*;

verus! {

/// The text the standard base64 encoding assigns to a byte sequence.
pub uninterp spec fn b64_of(bytes: Seq<u8>) -> Seq<char>;

/// Relies on base64's `Engine::encode` with the standard engine: the
/// canonical padded base64 text of the bytes, a function of the bytes alone.
#[verifier::external_body]
fn b64_encode(bytes: &[u8]) -> (r: String)
    ensures
        r@ == b64_of(bytes@),
{
    base64::prelude::BASE64_STANDARD.encode(bytes)
}

/// Relies on base64's `Engine::decode` with the standard engine, which is
/// strict: it accepts exactly the canonical padded encodings.  On success
/// the decoded bytes encode back to the input, and no other bytes do; on
/// failure no bytes encode to the input.
#[verifier::external_body]
fn b64_decode(text: &str) -> (r: Option<Vec<u8>>)
    ensures
        match r {
            Some(d) => b64_of(d@) == text@ && (forall|b: Seq<u8>| b64_of(b) == text@ ==> b == d@),
            None => forall|b: Seq<u8>| b64_of(b) != text@,
        },
{
    match base64::prelude::BASE64_STANDARD.decode(text) {
        Ok(d) => Some(d),
        Err(_) => None,
    }
}

/// The text under which a record's bytes are put into the string store.
pub fn encode_record(bytes: &[u8]) -> (r: String)
    ensures
        r@ == b64_of(bytes@),
{
    b64_encode(bytes)
}

/// The bytes a stored text stands for.  Text that is not a canonical
/// encoding stands for no bytes at all: the vault treats such a record as
/// absent rather than corrupted.
pub fn decode_stored(text: &str) -> (r: Option<Vec<u8>>)
    ensures
        match r {
            Some(d) => b64_of(d@) == text@ && (forall|b: Seq<u8>| b64_of(b) == text@ ==> b == d@),
            None => forall|b: Seq<u8>| b64_of(b) != text@,
        },
{
    b64_decode(text)
}

/// The encoding round-trips exactly: decoding the text written for any bytes
/// yields those bytes again.
pub fn record_text_round_trip(bytes: &[u8]) -> (r: Vec<u8>)
    ensures
        r@ == bytes@,
{
    let text = encode_record(bytes);
    match decode_stored(text.as_str()) {
        Some(d) => d,
        None => {
            proof {
                assert(false);
            }
            Vec::new()
        },
    }
}

} // verus!
