//! Drive enumeration: the platform layer gathers what the operating system
//! reports; these modules turn it into drive descriptions.

pub mod linux;
pub mod macos;
pub mod windows;

use vstd::prelude::*;
use crate::error::SpeedIsoDetectError;
use crate::model::{DiskInfo, DiskModel, disk_models};
use self::linux::{LinuxBlockDevice, is_virtual_block_device, is_virtual_device, size_attr_overflows, linux_disks, linux_models, mount_table, size_overflows};
use self::macos::{mac_model, macos_disk_from_info};
use self::windows::{DriveLetter, WindowsDriveProbe, windows_disks, windows_models};

verus! {

/// What `diskutil info <id>` printed for a candidate disk, or `None` when the
/// command could not be run.
#[derive(Clone, Debug)]
pub struct MacDiskReport {
    pub id: String,
    pub info: Option<String>,
}

/// What the operating system reported about its drives.
#[derive(Clone, Debug)]
pub enum PlatformSnapshot {
    /// `/sys/block` (whether it exists, and its readable entries) and the text
    /// of `/proc/mounts` (`None` when unreadable).
    Linux { sys_block_exists: bool, devices: Vec<LinuxBlockDevice>, mounts: Option<String> },
    /// The `diskutil info` reports of the candidates `diskutil list` named.
    MacOs { reports: Vec<MacDiskReport> },
    /// The probed physical drives, the drive letters and the `SystemDrive`
    /// setting ("C:" when unset).
    Windows { probes: Vec<WindowsDriveProbe>, letters: Vec<DriveLetter>, system_drive: String },
    /// A platform without drive enumeration.
    Unsupported,
}

/// The descriptions of the candidates whose `diskutil info` ran.
pub open spec fn mac_models(reports: Seq<MacDiskReport>) -> Seq<DiskModel>
    decreases reports.len(),
{
    if reports.len() == 0 {
        Seq::empty()
    } else {
        let prev = mac_models(reports.drop_last());
        match reports.last().info {
            Some(info) => prev.push(mac_model(reports.last().id@, info@)),
            None => prev,
        }
    }
}

/// A snapshot whose sysfs size attributes all fit in bytes.
pub open spec fn snapshot_in_range(s: PlatformSnapshot) -> bool {
    match s {
        PlatformSnapshot::Linux { sys_block_exists, devices, mounts } => sys_block_exists ==> forall|i: int|
            0 <= i < devices@.len() && !is_virtual_device(devices@[i].name@) ==> !size_overflows(
                #[trigger] devices@[i].size,
            ),
        _ => true,
    }
}

/// Whether every sysfs size attribute of a snapshot fits in bytes, as
/// `detect_disks` requires.
pub fn snapshot_sizes_fit(s: &PlatformSnapshot) -> (r: bool)
    ensures
        r == snapshot_in_range(*s),
{
    match s {
        PlatformSnapshot::Linux { sys_block_exists, devices, mounts } => {
            if !*sys_block_exists {
                return true;
            }
            let n = devices.len();
            for i in 0..n
                invariant
                    n == devices@.len(),
                    *sys_block_exists,
                    *s == (PlatformSnapshot::Linux {
                        sys_block_exists: *sys_block_exists,
                        devices: *devices,
                        mounts: *mounts,
                    }),
                    forall|j: int|
                        0 <= j < i && !is_virtual_device(devices@[j].name@) ==> !size_overflows(
                            #[trigger] devices@[j].size,
                        ),
            {
                if !is_virtual_block_device(devices[i].name.as_str()) && size_attr_overflows(
                    &devices[i].size,
                ) {
                    assert(size_overflows(devices@[i as int].size));
                    assert(!is_virtual_device(devices@[i as int].name@));
                    return false;
                }
            }
            true
        },
        _ => true,
    }
}

/// The drives a snapshot describes, or why there are none.
pub open spec fn detected(s: PlatformSnapshot) -> Result<Seq<DiskModel>, SpeedIsoDetectError> {
    match s {
        PlatformSnapshot::Linux { sys_block_exists, devices, mounts } => if sys_block_exists {
            Ok(linux_models(devices@, mount_table(mounts)))
        } else {
            Ok(Seq::empty())
        },
        PlatformSnapshot::MacOs { reports } => Ok(mac_models(reports@)),
        PlatformSnapshot::Windows { probes, letters, system_drive } => Ok(
            windows_models(probes@, letters@, crate::text::unicode_upper(system_drive@)),
        ),
        PlatformSnapshot::Unsupported => Err(SpeedIsoDetectError::UnsupportedPlatform),
    }
}

/// The storage drives of the system the snapshot was taken on.
pub fn detect_disks(snapshot: &PlatformSnapshot) -> (r: Result<Vec<DiskInfo>, SpeedIsoDetectError>)
    requires
        snapshot_in_range(*snapshot),
    ensures
        match (r, detected(*snapshot)) {
            (Ok(v), Ok(m)) => disk_models(v@) == m,
            (Err(e), Err(f)) => e == f,
            _ => false,
        },
{
    match snapshot {
        PlatformSnapshot::Linux { sys_block_exists, devices, mounts } => {
            if *sys_block_exists {
                Ok(linux_disks(devices, mounts))
            } else {
                let v: Vec<DiskInfo> = Vec::new();
                assert(disk_models(v@) =~= Seq::<DiskModel>::empty());
                Ok(v)
            }
        },
        PlatformSnapshot::MacOs { reports } => {
            let mut out: Vec<DiskInfo> = Vec::new();
            let n = reports.len();
            assert(disk_models(out@) =~= Seq::<DiskModel>::empty());
            for i in 0..n
                invariant
                    n == reports@.len(),
                    disk_models(out@) == mac_models(reports@.subrange(0, i as int)),
            {
                let ghost pre = reports@.subrange(0, i + 1);
                assert(pre.drop_last() =~= reports@.subrange(0, i as int));
                let rep = &reports[i];
                match &rep.info {
                    Some(info) => {
                        let ghost prev = disk_models(out@);
                        let d = macos_disk_from_info(rep.id.as_str(), info.as_str());
                        out.push(d);
                        assert(disk_models(out@) =~= prev.push(d.model()));
                    },
                    None => {},
                }
            }
            assert(reports@.subrange(0, n as int) =~= reports@);
            Ok(out)
        },
        PlatformSnapshot::Windows { probes, letters, system_drive } => Ok(
            windows_disks(probes, letters, system_drive.as_str()),
        ),
        PlatformSnapshot::Unsupported => Err(SpeedIsoDetectError::UnsupportedPlatform),
    }
}

} // verus!
