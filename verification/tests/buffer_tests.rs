use speediso::buffer::round_up_to_sector_exec;
use speediso::{AlignedBuffer, DEFAULT_ALIGNMENT};

#[test]
fn test_aligned_buffer_creation_and_alignment() {
    let buf = AlignedBuffer::new(1024).expect("Allocation failed");
    assert_eq!(buf.capacity(), DEFAULT_ALIGNMENT); // Rounded up to 4096
    assert_eq!(buf.as_slice().as_ptr() as usize % DEFAULT_ALIGNMENT, 0);

    let buf_2mb = AlignedBuffer::with_default_capacity().expect("Allocation failed");
    assert_eq!(buf_2mb.capacity(), 2 * 1024 * 1024);
    assert_eq!(buf_2mb.as_slice().as_ptr() as usize % DEFAULT_ALIGNMENT, 0);
}

#[test]
fn capacities_round_up_to_sectors() {
    assert_eq!(AlignedBuffer::new(0).unwrap().capacity(), 0);
    assert_eq!(AlignedBuffer::new(4096).unwrap().capacity(), 4096);
    assert_eq!(AlignedBuffer::new(4097).unwrap().capacity(), 8192);
    assert_eq!(round_up_to_sector_exec(1), 4096);
    assert_eq!(round_up_to_sector_exec(8191), 8192);
    assert_eq!(round_up_to_sector_exec(8192), 8192);
}

#[test]
fn new_buffers_are_zeroed_and_writable() {
    let mut buf = AlignedBuffer::new(5000).unwrap();
    assert!(buf.as_slice().iter().all(|&b| b == 0));
    assert_eq!(buf.as_slice().len(), 8192);
    {
        let s = buf.as_mut_slice();
        s[0] = 7;
        s[8191] = 9;
    }
    assert_eq!(buf.as_slice()[0], 7);
    assert_eq!(buf.as_slice()[8191], 9);
    buf.fill_zero(0, 1);
    assert_eq!(buf.as_slice()[0], 0);
    assert_eq!(buf.as_slice()[8191], 9);
    assert_eq!(buf.as_slice().as_ptr() as usize % DEFAULT_ALIGNMENT, 0);
}

#[test]
fn oversized_layout_is_refused() {
    let r = AlignedBuffer::new(usize::MAX - 8191);
    match r {
        Err(msg) => assert!(msg.starts_with("Invalid memory layout: ")),
        Ok(_) => panic!("a layout larger than isize::MAX must be refused"),
    }
}
