//! Key lifecycle: each service's symmetric key is provisioned lazily, on
//! first use, and fetched fresh on every later use.
//!
//! The provider's check-then-generate sequence is not atomic, so the
//! production platform serializes this path behind one process-wide lock for
//! all services; here the exclusive borrow of the platform plays that role,
//! and the contract pins what the lock protects: a service's key, once
//! provisioned, is never replaced.

use vstd::prelude::*;
use crate::errors::KeyringError;
use crate::platform::{keys_extended, KeyHandle, KeySpec, Platform};
use crate::platform::{PURPOSE_DECRYPT, PURPOSE_ENCRYPT};

verus! {

/// The one specification every service key is generated to: encrypt and
/// decrypt purposes, GCM block mode, no padding, no user-presence demand.
pub fn aead_key_spec() -> (r: KeySpec)
    ensures
        r.purposes == PURPOSE_DECRYPT | PURPOSE_ENCRYPT,
        r.block_mode_gcm,
        r.encryption_padding_none,
        !r.user_authentication_required,
{
    KeySpec {
        purposes: PURPOSE_DECRYPT | PURPOSE_ENCRYPT,
        block_mode_gcm: true,
        encryption_padding_none: true,
        user_authentication_required: false,
    }
}

/// Returns the key provisioned under the service alias, generating one to
/// [`aead_key_spec`] exactly when the alias has none yet.
///
/// On success the returned handle is the service's provisioned key: if the
/// alias already had a key, the key map is untouched and the handle refers
/// to that key; otherwise exactly this alias was added.  Stored records are
/// never touched.
pub fn get_or_create_key<P: Platform>(p: &mut P, service: &str) -> (r: Result<
    P::Key,
    KeyringError,
>)
    requires
        old(p).wf(),
    ensures
        final(p).wf(),
        final(p).records() == old(p).records(),
        match r {
            Ok(k) => keys_extended(old(p).keys(), final(p).keys(), service@) && k.id()
                == final(p).keys()[service@],
            Err(e) => final(p).keys() == old(p).keys() && e is PlatformFailure,
        },
{
    match p.get_key(service) {
        Err(e) => Err(e),
        Ok(Some(k)) => Ok(k),
        Ok(None) => {
            let kspec = aead_key_spec();
            match p.generate_key(service, &kspec) {
                Err(e) => Err(e),
                Ok(k) => Ok(k),
            }
        },
    }
}

} // verus!
