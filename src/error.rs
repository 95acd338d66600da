//! Error taxonomy of the library.
use vstd::prelude::*;

use crate::text::concat2;

verus! {

/// Failures of the privileged-session subsystem.
#[derive(Debug)]
pub enum ElevationError {
    /// An explicit authentication attempt was rejected, or the session expired.
    AccessDenied,
    /// A specific operation was rejected although the session is valid.
    PermissionDenied,
    /// Spawning the elevation mechanism failed; the text describes why.
    IoError(String),
    /// An execution was requested without a prior authentication.
    AuthenticationRequired,
    /// The lock that serialises elevated work could not be taken.
    FailedToAcquireElevationLock,
    /// The elevation mechanism is not installed.
    SudoNotAvailable,
}

/// Failures while resolving architectures and profiles.
#[derive(Debug)]
pub enum ProfileError {
    NoArchitecturesAvailable,
    ArchitectureNotFound(String),
    NoProfilesAvailableForArchitecture(String),
}

/// Failures of chroot operations.
#[derive(Debug)]
pub enum ChrootError {
    /// Local I/O failed; the text describes why.
    Io(String),
    /// An external command ran and reported failure.
    Command(String),
    /// The privileged-session subsystem refused or failed.
    Elevation(ElevationError),
    /// Entering the chroot failed.
    ElevationError(String),
    /// The chroot carries no profile information.
    NoProfile,
}

/// The text that describes an elevation failure.
pub open spec fn elevation_message(e: ElevationError) -> Seq<char> {
    match e {
        ElevationError::AccessDenied => "Access denied by a user"@,
        ElevationError::PermissionDenied => "Permission Denied"@,
        ElevationError::IoError(m) => "IO Error: "@ + m@,
        ElevationError::AuthenticationRequired => "Authentication required. Please call pre_authenticate_operations() first"@,
        ElevationError::FailedToAcquireElevationLock => "Failed to acquire elevation lock"@,
        ElevationError::SudoNotAvailable => "Sudo not available"@,
    }
}

impl ElevationError {
    /// The text that describes this failure.
    pub fn message(&self) -> (r: String)
        ensures
            r@ == elevation_message(*self),
    {
        match self {
            ElevationError::AccessDenied => String::from_str("Access denied by a user"),
            ElevationError::PermissionDenied => String::from_str("Permission Denied"),
            ElevationError::IoError(m) => concat2("IO Error: ", m.as_str()),
            ElevationError::AuthenticationRequired => String::from_str(
                "Authentication required. Please call pre_authenticate_operations() first",
            ),
            ElevationError::FailedToAcquireElevationLock => String::from_str(
                "Failed to acquire elevation lock",
            ),
            ElevationError::SudoNotAvailable => String::from_str("Sudo not available"),
        }
    }
}

} // verus!
