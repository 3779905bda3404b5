//! The per-(service, user) credential handle and its operations.
//!
//! A credential owns nothing but its two identifying strings; all state
//! lives with the platform, so any number of handles for the same pair may
//! coexist and operate on it.

use vstd::prelude::*;
use crate::envelope::{env_ct, env_iv, parse_and_validate, parse_err, parse_ok, serialize};
use crate::envelope::{lemma_parse_of_envelope, CorruptedData};
use crate::errors::KeyringError;
use crate::keys::get_or_create_key;
use crate::platform::{envelope_for, keys_extended, Platform};

verus! {

/// A handle on the credential stored for one (service, user) pair.
#[derive(Clone, Debug)]
pub struct Cred {
    /// The service: names both the record namespace and the key alias.
    pub service: String,
    /// The user: the key of the record within the service's namespace.
    pub user: String,
}

/// What a successful read of the credential for (service, user) means: a
/// record was stored, the service key was provisioned at most once on the
/// way, and the record is an envelope that decrypts under that key to the
/// value read.
pub open spec fn read_success<P: Platform>(
    pre: P,
    post: P,
    service: Seq<char>,
    user: Seq<char>,
    v: Seq<u8>,
) -> bool {
    &&& pre.records().contains_key((service, user))
    &&& keys_extended(pre.keys(), post.keys(), service)
    &&& envelope_for::<P>(post.keys()[service], pre.records()[(service, user)], v)
}

/// What each failed read of the credential for (service, user) means, by
/// error: `NoEntry` exactly when no record is stored; `BadDataFormat` when a
/// record is stored but its bytes cannot be trusted, carrying those bytes
/// and the reason (a framing diagnosis, or `DecryptionFailure` when framing
/// was sound but the ciphertext does not authenticate under the service
/// key); `PlatformFailure` when a collaborator failed.
pub open spec fn read_failure<P: Platform>(
    pre: P,
    post: P,
    service: Seq<char>,
    user: Seq<char>,
    e: KeyringError,
) -> bool {
    match e {
        KeyringError::NoEntry => !pre.records().contains_key((service, user)) && post.keys()
            == pre.keys(),
        KeyringError::BadDataFormat(raw, reason) => {
            &&& pre.records().contains_key((service, user))
            &&& raw@ == pre.records()[(service, user)]
            &&& if !parse_ok(raw@) {
                reason == parse_err(raw@) && post.keys() == pre.keys()
            } else {
                &&& reason is DecryptionFailure
                &&& keys_extended(pre.keys(), post.keys(), service)
                &&& P::dec(post.keys()[service], env_iv(raw@), env_ct(raw@)) is None
            }
        },
        KeyringError::PlatformFailure(_) => true,
        KeyringError::NotSupportedByStore(_) => false,
    }
}

impl Cred {
    /// Binds a credential handle to a service and user.
    pub fn new(service: &str, user: &str) -> (r: Cred)
        ensures
            r.service@ == service@,
            r.user@ == user@,
    {
        Cred { service: service.to_owned(), user: user.to_owned() }
    }

    /// Encrypts the secret under the service's key and persists the envelope
    /// as the one record for (service, user), replacing any previous record.
    ///
    /// On success: the service key was provisioned at most once; exactly
    /// this credential's record changed; and what is now stored is an
    /// envelope that decrypts, under the service key, to exactly `secret`.
    pub fn set_secret<P: Platform>(&self, p: &mut P, secret: &[u8]) -> (r: Result<
        (),
        KeyringError,
    >)
        requires
            old(p).wf(),
        ensures
            final(p).wf(),
            match r {
                Ok(_) => {
                    &&& keys_extended(old(p).keys(), final(p).keys(), self.service@)
                    &&& final(p).records().contains_key((self.service@, self.user@))
                    &&& final(p).records() == old(p).records().insert(
                        (self.service@, self.user@),
                        final(p).records()[(self.service@, self.user@)],
                    )
                    &&& envelope_for::<P>(
                        final(p).keys()[self.service@],
                        final(p).records()[(self.service@, self.user@)],
                        secret@,
                    )
                },
                Err(e) => e is PlatformFailure,
            },
    {
        let key = match get_or_create_key(p, self.service.as_str()) {
            Ok(k) => k,
            Err(e) => return Err(e),
        };
        let ivct = match p.encrypt(&key, secret) {
            Ok(x) => x,
            Err(e) => return Err(e),
        };
        let env = serialize(ivct.0.as_slice(), ivct.1.as_slice());
        proof {
            lemma_parse_of_envelope(ivct.0@, ivct.1@);
        }
        match p.put_record(self.service.as_str(), self.user.as_str(), env.as_slice()) {
            Ok(_) => Ok(()),
            Err(e) => Err(e),
        }
    }

    /// Reads the record for (service, user), validates its framing, and
    /// decrypts it under the service's key.
    ///
    /// Returns the plaintext exactly as it was stored; `NoEntry` when no
    /// record exists; `BadDataFormat` with the raw bytes and the precise
    /// reason when the record cannot be trusted.  Stored records are never
    /// changed by a read.
    pub fn get_secret<P: Platform>(&self, p: &mut P) -> (r: Result<Vec<u8>, KeyringError>)
        requires
            old(p).wf(),
        ensures
            final(p).wf(),
            final(p).records() == old(p).records(),
            match r {
                Ok(v) => read_success(*old(p), *final(p), self.service@, self.user@, v@),
                Err(e) => read_failure(*old(p), *final(p), self.service@, self.user@, e),
            },
    {
        let data = match p.get_record(self.service.as_str(), self.user.as_str()) {
            Err(e) => return Err(e),
            Ok(None) => return Err(KeyringError::NoEntry),
            Ok(Some(data)) => data,
        };
        let parts = match parse_and_validate(data.as_slice()) {
            Err(reason) => return Err(KeyringError::BadDataFormat(data, reason)),
            Ok(parts) => parts,
        };
        let key = match get_or_create_key(p, self.service.as_str()) {
            Ok(k) => k,
            Err(e) => return Err(e),
        };
        match p.decrypt(&key, parts.0.as_slice(), parts.1.as_slice()) {
            Some(plaintext) => Ok(plaintext),
            None => Err(KeyringError::BadDataFormat(data, CorruptedData::DecryptionFailure)),
        }
    }

    /// Removes the record for (service, user), as one committed batch.
    ///
    /// Deleting is idempotent: it succeeds, and means the same, whether or
    /// not a record was stored.  Keys are never touched.
    pub fn delete_credential<P: Platform>(&self, p: &mut P) -> (r: Result<(), KeyringError>)
        requires
            old(p).wf(),
        ensures
            final(p).wf(),
            final(p).keys() == old(p).keys(),
            match r {
                Ok(_) => final(p).records() == old(p).records().remove(
                    (self.service@, self.user@),
                ),
                Err(e) => e is PlatformFailure,
            },
    {
        p.remove_record(self.service.as_str(), self.user.as_str())
    }

    /// Reads the credential purely to validate its presence and integrity,
    /// discarding the plaintext: on success the result is always `None`.
    /// A probe, not a retrieval path; callers wanting the secret call
    /// [`Cred::get_secret`].
    pub fn get_credential<P: Platform>(&self, p: &mut P) -> (r: Result<Option<Cred>, KeyringError>)
        requires
            old(p).wf(),
        ensures
            final(p).wf(),
            final(p).records() == old(p).records(),
            match r {
                Ok(opt) => opt is None && exists|v: Seq<u8>|
                    read_success(*old(p), *final(p), self.service@, self.user@, v),
                Err(e) => read_failure(*old(p), *final(p), self.service@, self.user@, e),
            },
    {
        match self.get_secret(p) {
            Ok(_) => Ok(None),
            Err(e) => Err(e),
        }
    }

    /// The (service, user) pair this handle selects.
    pub fn get_specifiers(&self) -> (r: Option<(String, String)>)
        ensures
            r matches Some(su) && su.0@ == self.service@ && su.1@ == self.user@,
    {
        Some((self.service.clone(), self.user.clone()))
    }
}

} // verus!
