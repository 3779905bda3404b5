//! The on-disk byte layout of a stored credential:
//! `[iv_len: u8][iv: iv_len bytes][ciphertext+tag: remaining bytes]`.
//!
//! The codec only validates framing; whether the ciphertext authenticates is
//! decided downstream by the cipher.

use vstd::prelude::*;

verus! {

/// Fixed initialization-vector length, in bytes, of the supported AEAD mode.
pub const IV_LEN: usize = 12;

/// Why stored bytes cannot be used as a credential envelope.
#[derive(Clone, Copy, Debug, PartialEq, Eq)]
pub enum CorruptedData {
    /// The stored value is empty: no IV length byte.
    MissingIvLen,
    /// The IV length byte differs from [`IV_LEN`]; carries the actual value.
    InvalidIvLen(usize),
    /// After the length byte there is no room for an IV plus at least one
    /// ciphertext byte; carries the length of what follows the length byte.
    DataTooSmall(usize),
    /// Framing was sound but the ciphertext did not authenticate.
    DecryptionFailure,
}

/// The exact bytes of the envelope for a given IV and ciphertext.
pub open spec fn envelope_bytes(iv: Seq<u8>, ciphertext: Seq<u8>) -> Seq<u8> {
    seq![iv.len() as u8] + iv + ciphertext
}

/// Whether raw stored bytes frame a well-formed envelope.
pub open spec fn parse_ok(raw: Seq<u8>) -> bool {
    &&& raw.len() > 0
    &&& raw[0] == IV_LEN as u8
    &&& raw.len() > IV_LEN + 1
}

/// The IV carried by a well-formed envelope.
pub open spec fn env_iv(raw: Seq<u8>) -> Seq<u8> {
    raw.subrange(1, 1 + IV_LEN as int)
}

/// The ciphertext (with its tag) carried by a well-formed envelope.
pub open spec fn env_ct(raw: Seq<u8>) -> Seq<u8> {
    raw.subrange(1 + IV_LEN as int, raw.len() as int)
}

/// The diagnosis reported for bytes that do not frame an envelope.
pub open spec fn parse_err(raw: Seq<u8>) -> CorruptedData {
    if raw.len() == 0 {
        CorruptedData::MissingIvLen
    } else if raw[0] != IV_LEN as u8 {
        CorruptedData::InvalidIvLen(raw[0] as usize)
    } else {
        CorruptedData::DataTooSmall((raw.len() - 1) as usize)
    }
}

/// Serializes an IV and a ciphertext into the envelope byte layout.
///
/// The IV length is fixed by the cipher; a caller that hands anything else in
/// has a defect, so the length is a precondition rather than a runtime error.
pub fn serialize(iv: &[u8], ciphertext: &[u8]) -> (r: Vec<u8>)
    requires
        iv@.len() == IV_LEN,
    ensures
        r@ == envelope_bytes(iv@, ciphertext@),
{
    let mut out: Vec<u8> = Vec::new();
    out.push(iv.len() as u8);
    let mut i: usize = 0;
    while i < iv.len()
        invariant
            iv@.len() == IV_LEN,
            i <= iv@.len(),
            out@ == seq![iv@.len() as u8] + iv@.take(i as int),
        decreases iv@.len() - i,
    {
        out.push(iv[i]);
        i = i + 1;
    }
    assert(iv@.take(iv@.len() as int) == iv@);
    let mut j: usize = 0;
    while j < ciphertext.len()
        invariant
            iv@.len() == IV_LEN,
            j <= ciphertext@.len(),
            out@ == seq![iv@.len() as u8] + iv@ + ciphertext@.take(j as int),
        decreases ciphertext@.len() - j,
    {
        out.push(ciphertext[j]);
        j = j + 1;
    }
    assert(ciphertext@.take(ciphertext@.len() as int) == ciphertext@);
    out
}

/// Splits raw stored bytes into IV and ciphertext, or classifies why the
/// bytes cannot be an envelope.  Framing only: an authentication failure is
/// not detected here.
pub fn parse_and_validate(raw: &[u8]) -> (r: Result<(Vec<u8>, Vec<u8>), CorruptedData>)
    ensures
        match r {
            Ok(parts) => {
                &&& parse_ok(raw@)
                &&& parts.0@ == env_iv(raw@)
                &&& parts.1@ == env_ct(raw@)
            },
            Err(e) => !parse_ok(raw@) && e == parse_err(raw@),
        },
{
    if raw.len() == 0 {
        return Err(CorruptedData::MissingIvLen);
    }
    let iv_len = raw[0] as usize;
    if iv_len != IV_LEN {
        return Err(CorruptedData::InvalidIvLen(iv_len));
    }
    let rest_len = raw.len() - 1;
    if rest_len <= iv_len {
        return Err(CorruptedData::DataTooSmall(rest_len));
    }
    let mut iv: Vec<u8> = Vec::new();
    let mut i: usize = 1;
    while i < 1 + IV_LEN
        invariant
            raw@.len() > IV_LEN + 1,
            1 <= i <= 1 + IV_LEN,
            iv@ == raw@.subrange(1, i as int),
        decreases 1 + IV_LEN - i,
    {
        iv.push(raw[i]);
        assert(iv@ =~= raw@.subrange(1, i + 1));
        i = i + 1;
    }
    let mut ciphertext: Vec<u8> = Vec::new();
    let mut j: usize = 1 + IV_LEN;
    while j < raw.len()
        invariant
            raw@.len() > IV_LEN + 1,
            1 + IV_LEN <= j <= raw@.len(),
            ciphertext@ == raw@.subrange(1 + IV_LEN as int, j as int),
        decreases raw@.len() - j,
    {
        ciphertext.push(raw[j]);
        assert(ciphertext@ =~= raw@.subrange(1 + IV_LEN as int, j + 1));
        j = j + 1;
    }
    Ok((iv, ciphertext))
}

/// Serialization and parsing are inverse: an envelope built from a
/// cipher-length IV and a non-empty ciphertext frames well and parses back
/// into exactly that IV and ciphertext.
pub proof fn lemma_parse_of_envelope(iv: Seq<u8>, ciphertext: Seq<u8>)
    requires
        iv.len() == IV_LEN,
        ciphertext.len() >= 1,
    ensures
        parse_ok(envelope_bytes(iv, ciphertext)),
        env_iv(envelope_bytes(iv, ciphertext)) == iv,
        env_ct(envelope_bytes(iv, ciphertext)) == ciphertext,
{
    let raw = envelope_bytes(iv, ciphertext);
    assert(env_iv(raw) =~= iv);
    assert(env_ct(raw) =~= ciphertext);
}

} // verus!
