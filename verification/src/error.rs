//! Error types of drive detection and of flashing.

use vstd::prelude::*;

verus! {

/// Why enumerating the system's drives failed.
#[derive(Clone, Debug)]
pub enum SpeedIsoDetectError {
    /// An I/O error, by its message.
    IoError(String),
    /// A platform query failed, with its message.
    PlatformError(String),
    /// Disk details need administrative privileges.
    PermissionDenied,
    /// The platform has no drive enumeration.
    UnsupportedPlatform,
}

/// Why a flashing operation failed.
#[derive(Clone, Debug)]
pub enum SpeedIsoCoreError {
    /// An I/O error during flashing, by its message.
    IoError(String),
    /// The target drive is missing, protected, or unsafe to overwrite.
    UnsafeTarget { id: String, reason: String },
    /// Locking or dismounting the target volume failed.
    VolumeLockFailed(String),
    /// The image (first) is larger than the drive (second), in bytes.
    ImageTooLarge(u64, u64),
    /// The read-back checksum differs from the source checksum.
    VerificationFailed { source_hash: String, target_hash: String },
    /// The aligned buffer could not be set up.
    BufferError(String),
    /// Drive enumeration failed.
    DetectError(SpeedIsoDetectError),
}

} // verus!
