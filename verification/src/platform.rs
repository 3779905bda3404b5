//! The platform collaborators the vault orchestrates, specified at their
//! interface boundary: a key provider that holds one symmetric key per
//! service, an AEAD cipher, and a per-service string-keyed record store.
//!
//! The vault never sees key bytes; a key is an opaque handle whose only
//! specification-level attribute is its identity.  The cipher is modelled by
//! a decryption relation `dec`: what plaintext, if any, a given key identity
//! recovers from a given IV and ciphertext.  The record store is modelled as
//! a map from (service, user) to the stored envelope bytes.

use vstd::prelude::*;
use crate::envelope::IV_LEN;
use crate::errors::KeyringError;

verus! {

/// Name of the AES algorithm as the platform key generator knows it.
pub const KEY_ALGORITHM_AES: &'static str = "AES";

/// Name of the platform key-store provider.
pub const PROVIDER: &'static str = "AndroidKeyStore";

/// Key purpose flag: the key may encrypt.
pub const PURPOSE_ENCRYPT: i32 = 1;

/// Key purpose flag: the key may decrypt.
pub const PURPOSE_DECRYPT: i32 = 2;

/// Block mode requested for generated keys.
pub const BLOCK_MODE_GCM: &'static str = "GCM";

/// Padding requested for generated keys.
pub const ENCRYPTION_PADDING_NONE: &'static str = "NoPadding";

/// Mode under which the per-service namespace file is opened.
pub const MODE_PRIVATE: i32 = 0;

/// Cipher operation mode: encrypt.
pub const ENCRYPT_MODE: i32 = 1;

/// Cipher operation mode: decrypt.
pub const DECRYPT_MODE: i32 = 2;

/// The cipher transformation every envelope is produced under.
pub const CIPHER_TRANSFORMATION: &'static str = "AES/GCM/NoPadding";

/// What a freshly generated service key is asked to be.
#[derive(Clone, Copy, Debug, PartialEq, Eq, Structural)]
pub struct KeySpec {
    /// Bitwise or of the purpose flags the key is generated for.
    pub purposes: i32,
    /// Whether the GCM block mode is requested.
    pub block_mode_gcm: bool,
    /// Whether the no-padding scheme is requested.
    pub encryption_padding_none: bool,
    /// Whether use of the key demands the user's presence.
    pub user_authentication_required: bool,
}

/// An opaque handle to a symmetric key held by the platform.
pub trait KeyHandle {
    /// The abstract identity of the key this handle refers to.  Two handles
    /// with the same identity decrypt the same envelopes.
    spec fn id(&self) -> nat;
}

/// The platform services the vault runs on: key provider, cipher and record
/// store, with the behaviour each one is relied on for.
///
/// Any method may fail with `PlatformFailure`: the collaborators are outside
/// services and no call to them is owed success.  What each contract pins
/// down is everything that holds whenever a call does succeed.
pub trait Platform {
    /// The opaque key handle this platform hands out.
    type Key: KeyHandle;

    /// Well-formedness of the platform state; established by construction
    /// and preserved by every operation.
    spec fn wf(&self) -> bool;

    /// Which services have a provisioned key, and its identity.
    spec fn keys(&self) -> Map<Seq<char>, nat>;

    /// The stored envelope bytes, per (service, user).
    spec fn records(&self) -> Map<(Seq<char>, Seq<char>), Seq<u8>>;

    /// The cipher's decryption relation: the plaintext, if any, that the key
    /// with this identity recovers from this IV and ciphertext.  Encrypting
    /// and decrypting are both specified against this one relation.
    spec fn dec(key: nat, iv: Seq<u8>, ciphertext: Seq<u8>) -> Option<Seq<u8>>;

    /// Fetches the key provisioned under the service alias, or reports that
    /// none exists.
    fn get_key(&self, service: &str) -> (r: Result<Option<Self::Key>, KeyringError>)
        requires
            self.wf(),
        ensures
            match r {
                Ok(Some(k)) => self.keys().contains_key(service@) && k.id()
                    == self.keys()[service@],
                Ok(None) => !self.keys().contains_key(service@),
                Err(e) => e is PlatformFailure,
            },
    ;

    /// Generates a key under the service alias to the given specification and
    /// provisions it there.  Stored records are untouched.
    fn generate_key(&mut self, service: &str, kspec: &KeySpec) -> (r: Result<
        Self::Key,
        KeyringError,
    >)
        requires
            old(self).wf(),
        ensures
            final(self).wf(),
            final(self).records() == old(self).records(),
            match r {
                Ok(k) => final(self).keys() == old(self).keys().insert(service@, k.id()),
                Err(e) => final(self).keys() == old(self).keys() && e is PlatformFailure,
            },
    ;

    /// Encrypts a plaintext under the given key.  On success the cipher has
    /// produced a fresh IV of the fixed length and a non-empty ciphertext
    /// (the authentication tag is appended to it), and decrypting that pair
    /// under the same key identity recovers exactly the plaintext.
    fn encrypt(&mut self, key: &Self::Key, plaintext: &[u8]) -> (r: Result<
        (Vec<u8>, Vec<u8>),
        KeyringError,
    >)
        requires
            old(self).wf(),
        ensures
            final(self).wf(),
            final(self).keys() == old(self).keys(),
            final(self).records() == old(self).records(),
            match r {
                Ok(ivct) => ivct.0@.len() == IV_LEN && ivct.1@.len() >= 1 && Self::dec(
                    key.id(),
                    ivct.0@,
                    ivct.1@,
                ) == Some(plaintext@),
                Err(e) => e is PlatformFailure,
            },
    ;

    /// Decrypts a ciphertext under the given key and IV.  Returns the
    /// plaintext exactly when the decryption relation yields one; `None`
    /// means the ciphertext did not authenticate under this key.
    fn decrypt(&self, key: &Self::Key, iv: &[u8], ciphertext: &[u8]) -> (r: Option<Vec<u8>>)
        requires
            self.wf(),
        ensures
            match Self::dec(key.id(), iv@, ciphertext@) {
                Some(p) => r matches Some(v) && v@ == p,
                None => r is None,
            },
    ;

    /// Reads the record stored for (service, user), or reports that none is
    /// stored.
    fn get_record(&self, service: &str, user: &str) -> (r: Result<Option<Vec<u8>>, KeyringError>)
        requires
            self.wf(),
        ensures
            match r {
                Ok(Some(v)) => self.records().contains_key((service@, user@)) && v@
                    == self.records()[(service@, user@)],
                Ok(None) => !self.records().contains_key((service@, user@)),
                Err(e) => e is PlatformFailure,
            },
    ;

    /// Stores a record for (service, user), replacing any previous one, as
    /// one committed batch.
    fn put_record(&mut self, service: &str, user: &str, value: &[u8]) -> (r: Result<
        (),
        KeyringError,
    >)
        requires
            old(self).wf(),
        ensures
            final(self).wf(),
            final(self).keys() == old(self).keys(),
            match r {
                Ok(_) => final(self).records() == old(self).records().insert(
                    (service@, user@),
                    value@,
                ),
                Err(e) => e is PlatformFailure,
            },
    ;

    /// Removes the record for (service, user), as one committed batch.
    /// Succeeds whether or not a record was stored.
    fn remove_record(&mut self, service: &str, user: &str) -> (r: Result<(), KeyringError>)
        requires
            old(self).wf(),
        ensures
            final(self).wf(),
            final(self).keys() == old(self).keys(),
            match r {
                Ok(_) => final(self).records() == old(self).records().remove((service@, user@)),
                Err(e) => e is PlatformFailure,
            },
    ;
}

/// How the key map may change across an operation that provisions the key
/// for `service` at most once: either the service already had a key and the
/// map is untouched, or exactly this service's key was added.
pub open spec fn keys_extended(
    before: Map<Seq<char>, nat>,
    after: Map<Seq<char>, nat>,
    service: Seq<char>,
) -> bool {
    &&& after.contains_key(service)
    &&& before.contains_key(service) ==> after == before
    &&& !before.contains_key(service) ==> after == before.insert(service, after[service])
}

/// Whether `env` is a well-framed envelope whose ciphertext decrypts, under
/// the key with identity `key`, to exactly `plaintext`.
pub open spec fn envelope_for<P: Platform>(key: nat, env: Seq<u8>, plaintext: Seq<u8>) -> bool {
    &&& crate::envelope::parse_ok(env)
    &&& P::dec(key, crate::envelope::env_iv(env), crate::envelope::env_ct(env)) == Some(plaintext)
}

} // verus!
