//! SpeedISO: sector-aligned raw-image flashing engine, streaming SHA-256
//! integrity checking and drive-safety classification.

pub mod buffer;
pub mod text;
pub mod hasher;
pub mod boot;
pub mod error;
pub mod progress;
pub mod model;
pub mod flasher;
pub mod detect;
pub mod display;
pub mod laws;

pub use buffer::{AlignedBuffer, DEFAULT_ALIGNMENT, DEFAULT_BUFFER_SIZE};
pub use boot::PartitionScheme;
pub use detect::{PlatformSnapshot, detect_disks};
pub use error::{SpeedIsoCoreError, SpeedIsoDetectError};
pub use flasher::{ReadRequest, VerifySession, WriteSession, check_capacity, find_target, select_target};
pub use hasher::StreamingHasher;
pub use model::{BusType, DiskInfo};
pub use progress::FlashingPhase;
pub mod detection_laws;
