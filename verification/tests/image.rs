use flashboy::image::{HEADER_LEN, chunk_at, validate_image_len};

fn patterned(len: usize) -> Vec<u8> {
    let mut v = Vec::with_capacity(len);
    for i in 0..len {
        v.push((i % 251) as u8);
    }
    v
}

#[test]
fn rejects_lengths_outside_geometry() {
    assert!(!validate_image_len(0));
    assert!(!validate_image_len(1024));
    assert!(!validate_image_len(16 * 1024));
    assert!(!validate_image_len(16 * 1024 + 1));
    assert!(!validate_image_len(48 * 1024));
    assert!(!validate_image_len(2 * 1024 * 1024 + 1));
    assert!(!validate_image_len(4 * 1024 * 1024));
    assert!(!validate_image_len(2 * 1024 * 1024 - 1));
}

#[test]
fn accepts_powers_of_two_in_range() {
    assert!(validate_image_len(32 * 1024));
    assert!(validate_image_len(64 * 1024));
    assert!(validate_image_len(128 * 1024));
    assert!(validate_image_len(256 * 1024));
    assert!(validate_image_len(512 * 1024));
    assert!(validate_image_len(1024 * 1024));
    assert!(validate_image_len(2 * 1024 * 1024));
}

#[test]
fn small_image_layout() {
    // 32 KiB image: header packet is 31.
    let img = patterned(32 * 1024);

    // Packets 0..=31 carry raw image bytes.
    for p in [0usize, 1, 30, 31] {
        let c = chunk_at(&img, p);
        assert_eq!(c.len(), 1024);
        assert_eq!(&c[..], &img[p * 1024..(p + 1) * 1024]);
    }

    // Packets 32..=2046 are blank 0xFF filler.
    for p in [32usize, 33, 500, 2046] {
        let c = chunk_at(&img, p);
        assert_eq!(c.len(), 1024);
        assert!(c.iter().all(|&b| b == 0xFF));
    }

    // Packet 2047 is 0xFF except its trailing 544 bytes, which carry the
    // image's own trailing 544 bytes: the header block saved from packet 31.
    let last = chunk_at(&img, 2047);
    assert_eq!(last.len(), 1024);
    assert!(last[..1024 - HEADER_LEN].iter().all(|&b| b == 0xFF));
    assert_eq!(&last[1024 - HEADER_LEN..], &img[img.len() - HEADER_LEN..]);

    // The relocated block equals the tail of packet 31.
    let p31 = chunk_at(&img, 31);
    assert_eq!(&last[1024 - HEADER_LEN..], &p31[1024 - HEADER_LEN..]);
}

#[test]
fn full_image_header_stays_in_place() {
    // 2 MiB image: header packet is 2047 and no relocation occurs.
    let img = patterned(2 * 1024 * 1024);
    let last = chunk_at(&img, 2047);
    assert_eq!(&last[..], &img[2047 * 1024..]);
    assert_eq!(&last[1024 - HEADER_LEN..], &img[img.len() - HEADER_LEN..]);
}

#[test]
fn full_zero_image_has_no_padding() {
    let img = vec![0u8; 2 * 1024 * 1024];
    for p in [0usize, 1, 31, 32, 1000, 2046, 2047] {
        let c = chunk_at(&img, p);
        assert_eq!(c.len(), 1024);
        assert!(c.iter().all(|&b| b == 0x00));
    }
}
