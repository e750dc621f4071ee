use vstd::prelude::*;

verus! {

/// State-store specific error type. Backend-specific errors are wrapped
/// with their message; the other variants classify what went wrong.
#[derive(Debug)]
pub enum StoreError {
    /// An error happened in the underlying database backend.
    Backend(String),
    /// An error happened while serializing or deserializing some data.
    Json(String),
    /// An error happened while deserializing an identifier, e.g. a user
    /// id.
    Identifier(String),
    /// The store is locked with a passphrase and an incorrect passphrase
    /// was given.
    StoreLocked,
    /// An unencrypted store was tried to be unlocked with a passphrase.
    UnencryptedStore,
    /// The store failed to encrypt or decrypt some data.
    Encryption(String),
    /// The store failed to encode or decode some data.
    Codec(String),
    /// The database format has changed in a backwards incompatible way:
    /// the current version, then the latest version.
    UnsupportedDatabaseVersion(usize, usize),
    /// Redacting an event in the store has failed.
    Redaction(String),
}

impl StoreError {
    /// Wraps a backend error message.
    pub fn backend(error: String) -> (r: Self)
        ensures
            r == StoreError::Backend(error),
    {
        StoreError::Backend(error)
    }
}

/// The error handed to embedding applications: a request-level failure
/// with its message.
#[derive(Debug)]
pub enum ClientError {
    /// A generic failure, described by its message.
    Generic {
        /// What went wrong.
        msg: String,
    },
}

impl ClientError {
    /// Wraps an error message.
    pub fn new(msg: String) -> (r: Self)
        ensures
            r == (ClientError::Generic { msg }),
    {
        ClientError::Generic { msg }
    }
}

} // verus!
