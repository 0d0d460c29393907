use speediso::detect::linux::{is_virtual_block_device, LinuxBlockDevice};
use speediso::detect::macos::{macos_candidate_ids, macos_disk_from_info};
use speediso::detect::windows::{
    bus_type_from_code, describe_storage, extract_string, parse_logical_drive_strings,
    read_only_from_reply, size_from_reply, DriveLetter, DriveScan, StorageDescriptor,
    WindowsDriveProbe,
};
use speediso::detect::{snapshot_sizes_fit, MacDiskReport};
use speediso::{detect_disks, BusType, PlatformSnapshot, SpeedIsoDetectError};

fn dev(name: &str, removable: Option<&str>, size: Option<&str>, vendor: Option<&str>, model: Option<&str>, sys: &str) -> LinuxBlockDevice {
    LinuxBlockDevice {
        name: name.into(),
        removable: removable.map(|s| s.to_string()),
        read_only: Some("0\n".into()),
        size: size.map(|s| s.to_string()),
        vendor: vendor.map(|s| s.to_string()),
        model: model.map(|s| s.to_string()),
        sys_path: sys.into(),
    }
}

#[test]
fn linux_snapshot_is_described() {
    let devices = vec![
        dev("sda", Some("0\n"), Some("1953525168\n"), Some("ATA     \n"), Some("Samsung SSD\n"),
            "/sys/devices/pci0000:00/0000:00:17.0/ata1/host0/target0:0:0/0:0:0:0/block/sda"),
        dev("loop0", Some("0\n"), Some("100\n"), None, None, "/sys/devices/virtual/block/loop0"),
        dev("sdb", Some("1\n"), Some("60088320\n"), Some("SanDisk \n"), Some("Ultra\n"),
            "/sys/devices/pci0000:00/0000:00:14.0/usb2/2-1/2-1:1.0/host1/target1:0:0/1:0:0:0/block/sdb"),
        dev("nvme0n1", Some("0\n"), Some("2000\n"), None, Some("WD Black\n"),
            "/sys/devices/pci0000:00/0000:00:1d.0/0000:3d:00.0/nvme/nvme0/nvme0n1"),
        dev("mmcblk0", None, None, None, None, "/sys/devices/platform/soc/mmc0/block/mmcblk0"),
    ];
    let mounts = Some(
        "/dev/sda1 / ext4 rw 0 0\n/dev/sda2 /boot/efi vfat rw 0 0\n/dev/sdb1 /media/usb vfat rw 0 0\nproc /proc proc rw 0 0\n"
            .to_string(),
    );
    let snap = PlatformSnapshot::Linux { sys_block_exists: true, devices, mounts };
    assert!(snapshot_sizes_fit(&snap));
    let disks = detect_disks(&snap).unwrap();
    assert_eq!(disks.len(), 4);

    assert_eq!(disks[0].id, "/dev/sda");
    assert_eq!(disks[0].name, "ATA Samsung SSD");
    assert_eq!(disks[0].size_bytes, 1_000_204_886_016);
    assert_eq!(disks[0].bus_type, BusType::Sata);
    assert_eq!(disks[0].mount_points, vec!["/".to_string(), "/boot/efi".to_string()]);
    assert!(disks[0].is_system);
    assert!(!disks[0].is_removable);
    assert!(!disks[0].is_safe_target());

    assert_eq!(disks[1].id, "/dev/sdb");
    assert_eq!(disks[1].name, "SanDisk Ultra");
    assert_eq!(disks[1].size_bytes, 30_765_219_840);
    assert_eq!(disks[1].bus_type, BusType::Usb);
    assert!(disks[1].is_removable);
    assert!(!disks[1].is_system);
    assert_eq!(disks[1].mount_points, vec!["/media/usb".to_string()]);
    assert!(disks[1].is_safe_target());

    assert_eq!(disks[2].bus_type, BusType::Nvme);
    assert_eq!(disks[2].name, "WD Black");
    assert_eq!(disks[2].size_bytes, 1_024_000);

    assert_eq!(disks[3].bus_type, BusType::SdCard);
    assert_eq!(disks[3].name, "mmcblk0");
    assert_eq!(disks[3].size_bytes, 0);
    assert!(!disks[3].is_removable);
}

#[test]
fn linux_without_sys_block_has_no_drives() {
    let snap = PlatformSnapshot::Linux { sys_block_exists: false, devices: vec![], mounts: None };
    assert!(detect_disks(&snap).unwrap().is_empty());
}

#[test]
fn linux_size_overflow_is_detected() {
    let devices = vec![dev("sdc", None, Some("36028797018963968"), None, None, "")];
    let snap = PlatformSnapshot::Linux { sys_block_exists: true, devices, mounts: None };
    assert!(!snapshot_sizes_fit(&snap));
}

#[test]
fn virtual_devices_are_recognised() {
    assert!(is_virtual_block_device("loop3"));
    assert!(is_virtual_block_device("ram0"));
    assert!(is_virtual_block_device("zram0"));
    assert!(is_virtual_block_device("sr0"));
    assert!(!is_virtual_block_device("sda"));
}

#[test]
fn unsupported_platform_is_an_error() {
    match detect_disks(&PlatformSnapshot::Unsupported) {
        Err(SpeedIsoDetectError::UnsupportedPlatform) => {},
        other => panic!("unexpected {:?}", other),
    }
}

#[test]
fn macos_info_is_parsed() {
    let info = "   Device Identifier:         disk4\n   Device / Media Name:       SanDisk Cruzer\n   Disk Size:                 32.0 GB (32015679488 Bytes) (exactly 62530624 512-Byte-Units)\n   Removable Media:           Removable\n   Protocol:                  USB\n   Mount Point:               /Volumes/USB\n   Read-Only Media:           No\n";
    let d = macos_disk_from_info("/dev/disk4", info);
    assert_eq!(d.id, "/dev/disk4");
    assert_eq!(d.name, "SanDisk Cruzer");
    assert_eq!(d.size_bytes, 32_015_679_488);
    assert!(d.is_removable);
    assert_eq!(d.bus_type, BusType::Usb);
    assert_eq!(d.mount_points, vec!["/Volumes/USB".to_string()]);
    assert!(!d.is_system);
    assert!(!d.is_read_only);

    let internal = "Protocol: PCI-Express\nMount Point: /\nMount Point: Not mounted\nRead-Only Media: Yes\n";
    let d = macos_disk_from_info("/dev/disk0", internal);
    assert_eq!(d.name, "Disk /dev/disk0");
    assert_eq!(d.bus_type, BusType::Nvme);
    assert!(d.is_system);
    assert!(d.is_read_only);
    assert_eq!(d.mount_points, vec!["/".to_string()]);
    assert_eq!(d.size_bytes, 0);
}

#[test]
fn macos_listing_names_whole_disks() {
    let list = "/dev/disk0 (internal, physical):\n   #:  TYPE NAME SIZE IDENTIFIER\n   0:  GUID_partition_scheme *500.3 GB disk0\n/dev/disk2 (external, physical):\n/dev/disk2s1 (synthesized):\n";
    assert_eq!(macos_candidate_ids(list), vec!["/dev/disk0".to_string(), "/dev/disk2".to_string()]);
}

#[test]
fn macos_external_disk_is_detected() {
    let list = "/dev/disk2 (external, physical):\n";
    let ids = macos_candidate_ids(list);
    let reports: Vec<MacDiskReport> = ids
        .into_iter()
        .map(|id| MacDiskReport { id, info: Some("   Protocol:                  USB\n".to_string()) })
        .collect();
    let disks = detect_disks(&PlatformSnapshot::MacOs { reports }).unwrap();
    assert_eq!(disks.len(), 1);
    assert_eq!(disks[0].id, "/dev/disk2");
    assert_eq!(disks[0].bus_type, BusType::Usb);
    assert!(disks[0].is_safe_target());
}

#[test]
fn macos_reports_become_drives() {
    let reports = vec![
        MacDiskReport { id: "/dev/disk2".into(), info: Some("Protocol: SATA\n".into()) },
        MacDiskReport { id: "/dev/disk3".into(), info: None },
    ];
    let disks = detect_disks(&PlatformSnapshot::MacOs { reports }).unwrap();
    assert_eq!(disks.len(), 1);
    assert_eq!(disks[0].bus_type, BusType::Sata);
}

fn descriptor(vendor: &str, product: &str, code: i32, removable: u8) -> StorageDescriptor {
    let mut buffer = vec![0u8; 64];
    buffer[10..10 + vendor.len()].copy_from_slice(vendor.as_bytes());
    buffer[30..30 + product.len()].copy_from_slice(product.as_bytes());
    StorageDescriptor { bus_type_code: code, removable_media: removable, buffer, vendor_offset: 10, product_offset: 30 }
}

#[test]
fn windows_descriptors_are_described() {
    let (bus, removable, name) = describe_storage(&Some(descriptor("Kingston ", "DataTraveler", 7, 0)), 1);
    assert_eq!(bus, BusType::Usb);
    assert!(removable);
    assert_eq!(name, "Kingston DataTraveler");
    let (bus, removable, name) = describe_storage(&Some(descriptor("", "", 17, 0)), 2);
    assert_eq!(bus, BusType::Nvme);
    assert!(!removable);
    assert_eq!(name, "Generic Storage Device 2");
    let (bus, removable, name) = describe_storage(&None, 3);
    assert_eq!((bus, removable), (BusType::Unknown, false));
    assert_eq!(name, "Physical Drive 3");
    assert_eq!(bus_type_from_code(11), BusType::Sata);
    assert_eq!(bus_type_from_code(10), BusType::Scsi);
    assert_eq!(bus_type_from_code(13), BusType::SdCard);
    assert_eq!(bus_type_from_code(99), BusType::Unknown);
}

#[test]
fn extract_string_reads_nul_terminated_text() {
    let buf = b"\0\0  WDC \0rest".to_vec();
    assert_eq!(extract_string(&buf, 2), "WDC");
    assert_eq!(extract_string(&buf, 0), "");
    assert_eq!(extract_string(&buf, 100), "");
    assert_eq!(extract_string(b"xyzzy", 2), "zzy");
    assert_eq!(extract_string(b"\0A\xffB\0", 1), "A\u{FFFD}B");
}

#[test]
fn logical_drive_strings_are_split() {
    let units: Vec<u16> = "C:\\\0D:\\\0\0".encode_utf16().collect();
    let n = units.len() as u32;
    assert_eq!(parse_logical_drive_strings(&units, n), vec!["C:".to_string(), "D:".to_string()]);
    assert!(parse_logical_drive_strings(&units, 0).is_empty());
    assert!(parse_logical_drive_strings(&units, n + 1).is_empty());
}

#[test]
fn drive_scan_stops_after_four_failures() {
    let mut scan = DriveScan::new();
    let mut probed = Vec::new();
    let opens = [true, false, true, false, false, false, false, true];
    let mut k = 0;
    while let Some(i) = scan.next_index() {
        probed.push(i);
        scan.record(opens[k]);
        k += 1;
    }
    assert_eq!(probed, vec![0, 1, 2, 3, 4, 5, 6]);
}

#[test]
fn drive_scan_covers_at_most_64_drives() {
    let mut scan = DriveScan::new();
    let mut count = 0;
    while let Some(_) = scan.next_index() {
        scan.record(true);
        count += 1;
    }
    assert_eq!(count, 64);
}

#[test]
fn windows_drives_are_described() {
    let probes = vec![
        WindowsDriveProbe { index: 0, size_bytes: Some(500), storage: Some(descriptor("Samsung", "SSD", 17, 0)), is_read_only: false },
        WindowsDriveProbe { index: 1, size_bytes: None, storage: Some(descriptor("", "Stick", 0, 0)), is_read_only: true },
    ];
    let letters = vec![
        DriveLetter { letter: "c:".into(), disk_number: 0, is_removable_drive: false },
        DriveLetter { letter: "E:".into(), disk_number: 1, is_removable_drive: true },
    ];
    let snap = PlatformSnapshot::Windows { probes, letters, system_drive: "C:".into() };
    let disks = detect_disks(&snap).unwrap();
    assert_eq!(disks[0].id, "\\\\.\\PhysicalDrive0");
    assert_eq!(disks[0].name, "Samsung SSD");
    assert_eq!(disks[0].size_bytes, 500);
    assert!(disks[0].is_system);
    assert!(!disks[0].is_removable);
    assert_eq!(disks[0].mount_points, vec!["c:".to_string()]);
    assert_eq!(disks[1].id, "\\\\.\\PhysicalDrive1");
    assert_eq!(disks[1].name, "Stick");
    assert_eq!(disks[1].bus_type, BusType::Unknown);
    assert_eq!(disks[1].size_bytes, 0);
    assert!(disks[1].is_removable);
    assert!(!disks[1].is_system);
    assert!(disks[1].is_read_only);
}

#[test]
fn windows_size_and_read_only_replies() {
    assert_eq!(size_from_reply(true, 4096), Some(4096));
    assert_eq!(size_from_reply(true, 0), None);
    assert_eq!(size_from_reply(false, 4096), None);
    assert_eq!(size_from_reply(true, -5), None);
    assert!(read_only_from_reply(Some(19)));
    assert!(!read_only_from_reply(Some(5)));
    assert!(!read_only_from_reply(None));
}
