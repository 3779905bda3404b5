//! A credential vault for the Android platform: secrets are encrypted with a
//! per-service key held by the platform key store and persisted, one envelope
//! per (service, user) pair, in a per-service string key-value namespace.
//!
//! This crate holds the verified core: the envelope codec, the key lifecycle,
//! the credential operations and the store builder, all written against an
//! abstract platform interface.  The JNI glue that binds the interface to the
//! real Android services lives outside the verified library.

pub mod envelope;
pub mod errors;
pub mod platform;
pub mod keys;
pub mod cred;
pub mod laws;
pub mod memory;
pub mod methods;
pub mod text;
pub mod android_log;
pub mod store;

pub use cred::Cred;
pub use envelope::CorruptedData;
pub use errors::KeyringError;
pub use memory::MemoryBackend;
pub use platform::{KeyHandle, KeySpec, Platform};
pub use store::Store;
