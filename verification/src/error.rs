//! The error taxonomy of the storage subsystem.

use vstd::prelude::*;

verus! {

/// Everything that can go wrong while registering pools and materializing
/// datasets.
#[derive(Clone, Copy, PartialEq, Eq, Structural, Debug)]
pub enum Error {
    /// The host could not describe the named pool.
    PoolQuery,
    /// A pool or dataset name did not parse as the expected identifier.
    Identity,
    /// A filesystem operation failed.
    Filesystem,
    /// Installing a zone failed.
    ZoneConfiguration,
    /// Booting or driving a running zone failed.
    ZoneManagement,
    /// The requested service kind has no startup procedure.
    UnsupportedServiceKind,
    /// The addressed pool is not in the inventory.
    NotFound,
    /// A persisted dataset configuration is missing or corrupt.
    Persistence,
    /// Reserved: a wait on an external service ran out of time.
    Timeout,
}

impl Error {
    /// A short description, for logs and operator-facing messages.
    pub fn describe(&self) -> &'static str {
        match self {
            Error::PoolQuery => "failed to query the storage pool",
            Error::Identity => "name does not parse as an identifier",
            Error::Filesystem => "filesystem operation failed",
            Error::ZoneConfiguration => "failed to configure a zone",
            Error::ZoneManagement => "failed to manage a running zone",
            Error::UnsupportedServiceKind => "no startup procedure for this service kind",
            Error::NotFound => "object not found",
            Error::Persistence => "persisted configuration is missing or corrupt",
            Error::Timeout => "timed out waiting for a service",
        }
    }
}

} // verus!
