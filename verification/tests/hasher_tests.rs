use speediso::hasher::to_hex_lower;
use speediso::StreamingHasher;

#[test]
fn test_streaming_hasher() {
    let mut hasher = StreamingHasher::new();
    hasher.update(b"SpeedISO");
    hasher.update(b"BareMetalSpeed");
    let hash = hasher.finalize_hex();
    assert!(!hash.is_empty());
    assert_eq!(hash.len(), 64);
}

#[test]
fn known_digests() {
    let h = StreamingHasher::new();
    assert_eq!(h.finalize_hex(), "e3b0c44298fc1c149afbf4c8996fb92427ae41e4649b934ca495991b7852b855");
    let mut h = StreamingHasher::default();
    h.update(b"abc");
    assert_eq!(h.bytes_processed(), 3);
    assert_eq!(h.finalize_hex(), "ba7816bf8f01cfea414140de5dae2223b00361a396177a9cb410ff61f20015ad");
}

#[test]
fn chunking_does_not_change_the_digest() {
    let mut a = StreamingHasher::new();
    a.update(b"SpeedISO");
    a.update(b"BareMetalSpeed");
    assert_eq!(a.bytes_processed(), 22);
    let mut b = StreamingHasher::new();
    b.update(b"SpeedISOBareMetalSpeed");
    assert_eq!(a.finalize_hex(), b.finalize_hex());
}

#[test]
fn hex_is_lowercase_two_digits_per_byte() {
    assert_eq!(to_hex_lower(&[0x00, 0x0f, 0xab, 0xff]), "000fabff");
    assert_eq!(to_hex_lower(&[]), "");
}

#[test]
fn every_split_gives_the_same_checksum() {
    let data: Vec<u8> = (0..200u32).map(|i| (i * 7 % 251) as u8).collect();
    let mut whole = StreamingHasher::new();
    whole.update(&data);
    let expected = whole.finalize_hex();
    for split in [1usize, 3, 64, 65, 199] {
        let mut h = StreamingHasher::new();
        for chunk in data.chunks(split) {
            h.update(chunk);
        }
        assert_eq!(h.bytes_processed(), 200);
        assert_eq!(h.finalize_hex(), expected);
    }
}
