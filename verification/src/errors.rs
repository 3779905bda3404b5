//! The error taxonomy of the vault, as seen by its callers.

use vstd::prelude::*;
use crate::envelope::CorruptedData;

verus! {

/// Every failure a credential operation can report.
#[derive(Clone, Debug, PartialEq, Eq)]
pub enum KeyringError {
    /// No record exists for this (service, user); a normal outcome, not a
    /// platform fault.
    NoEntry,
    /// Stored bytes exist but cannot be trusted; carries the raw bytes for
    /// diagnostics and the reason they were rejected.
    BadDataFormat(Vec<u8>, CorruptedData),
    /// The underlying key-management, cipher or store collaborator failed;
    /// carries a description of the cause.
    PlatformFailure(String),
    /// The caller asked for a configuration this store does not offer.
    NotSupportedByStore(String),
}

impl KeyringError {
    /// A short description of the error, for logs and messages.
    pub fn describe(&self) -> (r: String)
        ensures
            r@.len() > 0,
    {
        let s = match self {
            KeyringError::NoEntry => "no entry for this service and user",
            KeyringError::BadDataFormat(_, _) => "stored data is corrupted",
            KeyringError::PlatformFailure(_) => "platform service failed",
            KeyringError::NotSupportedByStore(_) => "configuration not supported by this store",
        };
        proof {
            reveal_strlit("no entry for this service and user");
            reveal_strlit("stored data is corrupted");
            reveal_strlit("platform service failed");
            reveal_strlit("configuration not supported by this store");
        }
        s.to_owned()
    }
}

} // verus!
