use speediso::{
    check_capacity, select_target, AlignedBuffer, BusType, DiskInfo, ReadRequest, SpeedIsoCoreError,
    StreamingHasher, VerifySession, WriteSession,
};

fn disk(id: &str, removable: bool, system: bool, read_only: bool, size: u64) -> DiskInfo {
    DiskInfo {
        id: id.into(),
        name: "Drive".into(),
        size_bytes: size,
        is_removable: removable,
        bus_type: BusType::Usb,
        mount_points: vec![],
        is_system: system,
        is_read_only: read_only,
    }
}

fn reason_of(r: Result<usize, SpeedIsoCoreError>) -> (String, String) {
    match r {
        Err(SpeedIsoCoreError::UnsafeTarget { id, reason }) => (id, reason),
        other => panic!("expected UnsafeTarget, got {:?}", other),
    }
}

#[test]
fn selects_first_case_insensitive_match() {
    let disks = vec![
        disk("/dev/sda", false, true, false, 0),
        disk("/dev/SDB", true, false, false, 0),
        disk("/dev/sdb", false, false, false, 0),
    ];
    assert_eq!(select_target(&disks, "/dev/sdb").unwrap(), 1);
}

#[test]
fn missing_target_is_refused() {
    let disks = vec![disk("/dev/sda", true, false, false, 0)];
    let (id, reason) = reason_of(select_target(&disks, "/dev/sdq"));
    assert_eq!(id, "/dev/sdq");
    assert_eq!(reason, "Target drive not found on system");
}

#[test]
fn unsafe_targets_give_their_reason() {
    let disks = vec![
        disk("sys", true, true, true, 0),
        disk("fixed", false, false, true, 0),
        disk("ro", true, false, true, 0),
    ];
    assert_eq!(reason_of(select_target(&disks, "SYS")).1, "Drive is a protected OS system/boot volume");
    assert_eq!(reason_of(select_target(&disks, "fixed")).1, "Drive is a fixed internal disk");
    assert_eq!(reason_of(select_target(&disks, "ro")).1, "Drive is read-only");
    assert_eq!(reason_of(select_target(&disks, "SYS")).0, "SYS");
}

#[test]
fn image_larger_than_drive_is_refused() {
    let d = disk("x", true, false, false, 1000);
    assert!(check_capacity(&d, 1000).is_ok());
    match check_capacity(&d, 1001) {
        Err(SpeedIsoCoreError::ImageTooLarge(a, b)) => {
            assert_eq!(a, 1001);
            assert_eq!(b, 1000);
        },
        other => panic!("unexpected {:?}", other),
    }
    let unknown = disk("y", true, false, false, 0);
    assert!(check_capacity(&unknown, u64::MAX).is_ok());
}

#[test]
fn write_pass_pads_chunks_and_checksums_data() {
    let mut buf = AlignedBuffer::new(8192).unwrap();
    for b in buf.as_mut_slice().iter_mut() {
        *b = 0xAA;
    }
    let mut session = WriteSession::new(5000);
    let len = session.absorb_chunk(&mut buf, 5000);
    assert_eq!(len, 8192);
    assert!(buf.as_slice()[..5000].iter().all(|&b| b == 0xAA));
    assert!(buf.as_slice()[5000..8192].iter().all(|&b| b == 0));
    assert_eq!(session.bytes_written(), 5000);
    assert_eq!(session.total_bytes(), 5000);
    assert_eq!(session.remaining_bytes(), 0);
    let sum = session.finish();
    let mut h = StreamingHasher::new();
    h.update(&vec![0xAAu8; 5000]);
    assert_eq!(sum, h.finalize_hex());
}

#[test]
fn full_sector_chunks_are_not_padded() {
    let mut buf = AlignedBuffer::new(8192).unwrap();
    let mut session = WriteSession::new(10000);
    assert_eq!(session.absorb_chunk(&mut buf, 4096), 4096);
    assert_eq!(session.remaining_bytes(), 10000 - 4096);
    assert_eq!(session.absorb_chunk(&mut buf, 0), 0);
}

#[test]
fn verify_pass_reads_in_aligned_pieces() {
    let buf = AlignedBuffer::new(8192).unwrap();
    let mut v = VerifySession::new(20000, 8192);
    let mut reads = Vec::new();
    while let Some(q) = v.next_read() {
        reads.push(q);
        v.absorb_read(&buf, q);
    }
    assert_eq!(
        reads,
        vec![
            ReadRequest { to_read: 8192, aligned_read: 8192 },
            ReadRequest { to_read: 8192, aligned_read: 8192 },
            ReadRequest { to_read: 3616, aligned_read: 4096 },
        ]
    );
    let mut h = StreamingHasher::new();
    h.update(&vec![0u8; 20000]);
    assert!(v.conclude(h.finalize_hex()).is_ok());
}

#[test]
fn verify_pass_of_empty_image_reads_nothing() {
    let v = VerifySession::new(0, 4096);
    assert!(v.next_read().is_none());
}

#[test]
fn mismatching_readback_fails_verification() {
    let mut buf = AlignedBuffer::new(4096).unwrap();
    buf.as_mut_slice()[0] = 1;
    let mut v = VerifySession::new(10, 4096);
    let q = v.next_read().unwrap();
    assert_eq!(q, ReadRequest { to_read: 10, aligned_read: 4096 });
    v.absorb_read(&buf, q);
    let mut h = StreamingHasher::new();
    h.update(&[0u8; 10]);
    let source = h.finalize_hex();
    match v.conclude(source.clone()) {
        Err(SpeedIsoCoreError::VerificationFailed { source_hash, target_hash }) => {
            assert_eq!(source_hash, source);
            assert_ne!(target_hash, source);
            assert_eq!(target_hash.len(), 64);
        },
        other => panic!("unexpected {:?}", other),
    }
}
