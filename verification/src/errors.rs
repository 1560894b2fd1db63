//! Failure outcomes of the lifecycle guards.

use vstd::prelude::*;

verus! {

/// A guard precondition violation around a storage operation.
///
/// Every variant names the condition under which a guard refuses to go ahead;
/// the caller reports it and aborts before any mutating provider call.
#[derive(Clone, Copy, Debug, PartialEq, Eq, Structural)]
pub enum StoreError {
    /// Create was asked for a container name that is already taken.
    AlreadyExists,
    /// The named container is not among the provider's containers.
    NoSuchBucket,
    /// Delete was asked for a container that still holds items.
    NotEmpty,
    /// The named key is not among the container's items.
    NoSuchKey,
}

impl StoreError {
    /// A fixed description of the violated condition, for reporting.
    pub fn describe(&self) -> (r: &'static str)
        ensures
            r@ == self.describe_spec(),
    {
        match self {
            StoreError::AlreadyExists => "bucket already exists",
            StoreError::NoSuchBucket => "bucket does not exist",
            StoreError::NotEmpty => "bucket is not empty",
            StoreError::NoSuchKey => "key does not exist in bucket",
        }
    }

    /// What `describe` returns for each variant.
    pub open spec fn describe_spec(self) -> Seq<char> {
        match self {
            StoreError::AlreadyExists => "bucket already exists"@,
            StoreError::NoSuchBucket => "bucket does not exist"@,
            StoreError::NotEmpty => "bucket is not empty"@,
            StoreError::NoSuchKey => "key does not exist in bucket"@,
        }
    }
}

/// A failure of the remote-session orchestration.
#[derive(Clone, Copy, Debug, PartialEq, Eq, Structural)]
pub enum SessionError {
    /// The credential-file path configuration value is unset.
    MissingKeyConfig,
    /// The permission hardening of the credential file did not complete.
    HardenFailed,
    /// The instance has no reachable public endpoint.
    NoEndpoint,
    /// The directory synchronization process failed.
    SyncFailed,
    /// The interactive remote shell process could not be spawned.
    ShellFailed,
}

} // verus!
