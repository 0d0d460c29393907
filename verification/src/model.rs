//! Storage drives as the detector reports them, and the write-safety rule.

use vstd::prelude::*;

verus! {

/// The bus a drive is attached through.
#[derive(Clone, Copy, Debug, PartialEq, Eq, Structural)]
pub enum BusType {
    Usb,
    Nvme,
    Sata,
    Scsi,
    SdCard,
    Unknown,
}

/// The display text of a bus type.
pub open spec fn bus_label(b: BusType) -> Seq<char> {
    match b {
        BusType::Usb => "USB"@,
        BusType::Nvme => "NVMe"@,
        BusType::Sata => "SATA"@,
        BusType::Scsi => "SCSI"@,
        BusType::SdCard => "SD Card"@,
        BusType::Unknown => "Unknown"@,
    }
}

impl BusType {
    /// The display text of this bus type.
    pub fn label(&self) -> (s: &'static str)
        ensures
            s@ == bus_label(*self),
    {
        match self {
            BusType::Usb => "USB",
            BusType::Nvme => "NVMe",
            BusType::Sata => "SATA",
            BusType::Scsi => "SCSI",
            BusType::SdCard => "SD Card",
            BusType::Unknown => "Unknown",
        }
    }
}

/// A physical storage drive.
#[derive(Clone, Debug)]
pub struct DiskInfo {
    /// Device path, e.g. "/dev/sdb", "\\.\PhysicalDrive2", "/dev/disk2".
    pub id: String,
    /// Model / vendor text.
    pub name: String,
    pub size_bytes: u64,
    pub is_removable: bool,
    pub bus_type: BusType,
    pub mount_points: Vec<String>,
    /// True if the drive holds the root, boot or system volume.
    pub is_system: bool,
    pub is_read_only: bool,
}

/// A drive's description as plain mathematical values.
pub struct DiskModel {
    pub id: Seq<char>,
    pub name: Seq<char>,
    pub size_bytes: u64,
    pub is_removable: bool,
    pub bus_type: BusType,
    pub mount_points: Seq<Seq<char>>,
    pub is_system: bool,
    pub is_read_only: bool,
}

/// The characters of each string of a sequence.
pub open spec fn string_views(v: Seq<String>) -> Seq<Seq<char>> {
    v.map_values(|s: String| s@)
}

impl DiskInfo {
    /// This drive's description as plain values.
    pub open spec fn model(&self) -> DiskModel {
        DiskModel {
            id: self.id@,
            name: self.name@,
            size_bytes: self.size_bytes,
            is_removable: self.is_removable,
            bus_type: self.bus_type,
            mount_points: string_views(self.mount_points@),
            is_system: self.is_system,
            is_read_only: self.is_read_only,
        }
    }
}

/// The descriptions of a sequence of drives.
pub open spec fn disk_models(v: Seq<DiskInfo>) -> Seq<DiskModel> {
    v.map_values(|d: DiskInfo| d.model())
}

/// The safety rule: a drive may be written only if it is removable, holds no
/// system or boot volume, and is not read-only.
pub open spec fn safe_target(d: DiskInfo) -> bool {
    d.is_removable && !d.is_system && !d.is_read_only
}

/// The safety rule on a drive description.
pub open spec fn safe_model(m: DiskModel) -> bool {
    m.is_removable && !m.is_system && !m.is_read_only
}

impl DiskInfo {
    /// Whether this drive may be overwritten.
    pub fn is_safe_target(&self) -> (r: bool)
        ensures
            r == safe_target(*self),
    {
        self.is_removable && !self.is_system && !self.is_read_only
    }
}

} // verus!
