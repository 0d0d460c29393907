//! Partitioning schemes for bootable media.

use vstd::prelude::*;

verus! {

/// Partition table layout written to a bootable drive.
#[derive(Clone, Copy, Debug, PartialEq, Eq, Structural)]
pub enum PartitionScheme {
    Mbr,
    Gpt,
}

} // verus!
