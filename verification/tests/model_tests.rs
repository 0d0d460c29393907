use speediso::display::safety_status;
use speediso::{BusType, DiskInfo, FlashingPhase, PartitionScheme};

#[test]
fn test_is_safe_target_logic() {
    let safe_usb = DiskInfo {
        id: "\\\\.\\PhysicalDrive1".into(),
        name: "Kingston DataTraveler 3.0".into(),
        size_bytes: 32_000_000_000,
        is_removable: true,
        bus_type: BusType::Usb,
        mount_points: vec!["E:".into()],
        is_system: false,
        is_read_only: false,
    };
    assert!(safe_usb.is_safe_target());

    let system_nvme = DiskInfo {
        id: "\\\\.\\PhysicalDrive0".into(),
        name: "Samsung SSD 980 PRO 1TB".into(),
        size_bytes: 1_000_000_000_000,
        is_removable: false,
        bus_type: BusType::Nvme,
        mount_points: vec!["C:".into()],
        is_system: true,
        is_read_only: false,
    };
    assert!(!system_nvme.is_safe_target());

    let readonly_usb = DiskInfo {
        id: "\\\\.\\PhysicalDrive2".into(),
        name: "Locked USB".into(),
        size_bytes: 16_000_000_000,
        is_removable: true,
        bus_type: BusType::Usb,
        mount_points: vec!["F:".into()],
        is_system: false,
        is_read_only: true,
    };
    assert!(!readonly_usb.is_safe_target());
}

fn disk(removable: bool, system: bool, read_only: bool) -> DiskInfo {
    DiskInfo {
        id: "/dev/sdz".into(),
        name: "Test".into(),
        size_bytes: 0,
        is_removable: removable,
        bus_type: BusType::Unknown,
        mount_points: vec![],
        is_system: system,
        is_read_only: read_only,
    }
}

#[test]
fn safe_target_needs_all_three_conditions() {
    for removable in [false, true] {
        for system in [false, true] {
            for ro in [false, true] {
                let d = disk(removable, system, ro);
                assert_eq!(d.is_safe_target(), removable && !system && !ro);
            }
        }
    }
}

#[test]
fn safety_status_priority() {
    assert_eq!(safety_status(&disk(true, false, false)), "[SAFE TO WRITE]");
    assert_eq!(safety_status(&disk(true, true, true)), "[PROTECTED - SYSTEM]");
    assert_eq!(safety_status(&disk(true, false, true)), "[PROTECTED - READ-ONLY]");
    assert_eq!(safety_status(&disk(false, false, false)), "[PROTECTED - INTERNAL]");
}

#[test]
fn bus_and_phase_labels() {
    assert_eq!(BusType::Usb.label(), "USB");
    assert_eq!(BusType::Nvme.label(), "NVMe");
    assert_eq!(BusType::Sata.label(), "SATA");
    assert_eq!(BusType::Scsi.label(), "SCSI");
    assert_eq!(BusType::SdCard.label(), "SD Card");
    assert_eq!(BusType::Unknown.label(), "Unknown");
    assert_eq!(FlashingPhase::Writing.label(), "Writing Image");
    assert_eq!(FlashingPhase::Verifying.label(), "Verifying Integrity");
    assert_eq!(FlashingPhase::Complete.label(), "Complete");
    assert!(PartitionScheme::Mbr != PartitionScheme::Gpt);
}
