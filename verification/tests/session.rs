use flashboy::codec::Opcode;
use flashboy::image::HEADER_LEN;
use flashboy::session::{
    Error, FlashBoy, PRODUCT_ID, ProgramRun, VENDOR_ID, check_response, product_string_matches,
};

#[test]
fn device_identity_constants() {
    assert_eq!(VENDOR_ID, 0x1781);
    assert_eq!(PRODUCT_ID, 0x09A2);
}

#[test]
fn product_string_detection() {
    assert!(product_string_matches(&String::from("FlashBoy")));
    assert!(product_string_matches(&String::from("FlashBoy Plus v1.0")));
    assert!(product_string_matches(&String::from("My FlashBoy")));
    assert!(!product_string_matches(&String::from("")));
    assert!(!product_string_matches(&String::from("flashboy")));
    assert!(!product_string_matches(&String::from("Atmel AVR device")));
}

#[test]
fn open_without_device_reports_not_found() {
    // No device is attached here, so every open attempt must collapse to
    // the single not-found outcome.
    assert!(matches!(FlashBoy::open(), Err(Error::FlashboyNotFound(_))));
}

#[test]
fn check_response_maps_errors_per_command() {
    let mut ok_erase = vec![0u8; 65];
    ok_erase[0] = 0xA1;
    assert!(check_response(&ok_erase, Opcode::Erase).is_ok());

    let mut bad = vec![0u8; 65];
    bad[0] = 0x42;
    assert!(matches!(
        check_response(&bad, Opcode::Erase),
        Err(Error::UnexpectedEraseResponse { code: 0x42 })
    ));
    assert!(matches!(
        check_response(&bad, Opcode::Write1024),
        Err(Error::UnexpectedWriteResponse { code: 0x42 })
    ));

    let mut ok_write = vec![0u8; 65];
    ok_write[0] = 0xB4;
    assert!(check_response(&ok_write, Opcode::Write1024).is_ok());
}

#[test]
fn run_rejects_invalid_lengths_before_any_chunks_exist() {
    assert!(matches!(
        ProgramRun::new(vec![0u8; 16 * 1024]),
        Err(Error::InvalidImage)
    ));
    assert!(matches!(
        ProgramRun::new(vec![0u8; 48 * 1024]),
        Err(Error::InvalidImage)
    ));
    assert!(matches!(
        ProgramRun::new(vec![0u8; 4 * 1024 * 1024]),
        Err(Error::InvalidImage)
    ));
    assert!(ProgramRun::new(vec![0u8; 32 * 1024]).is_ok());
}

#[test]
fn run_always_hands_out_exactly_2048_packets() {
    let mut img = Vec::with_capacity(32 * 1024);
    for i in 0..32 * 1024 {
        img.push((i % 251) as u8);
    }
    let mut run = ProgramRun::new(img).unwrap();
    let mut count = 0usize;
    while let Some(chunk) = run.next_chunk() {
        assert_eq!(chunk.len(), 1024);
        count += 1;
    }
    assert_eq!(count, 2048);
    assert_eq!(run.packets_sent(), 2048);
    assert!(run.next_chunk().is_none());
}

#[test]
fn run_relocates_header_of_short_image() {
    let mut img = Vec::with_capacity(32 * 1024);
    for i in 0..32 * 1024 {
        img.push((i % 251) as u8);
    }
    let tail: Vec<u8> = img[img.len() - HEADER_LEN..].to_vec();
    let mut run = ProgramRun::new(img.clone()).unwrap();
    let mut p = 0usize;
    while let Some(chunk) = run.next_chunk() {
        if p <= 31 {
            assert_eq!(&chunk[..], &img[p * 1024..(p + 1) * 1024]);
        } else if p < 2047 {
            assert!(chunk.iter().all(|&b| b == 0xFF));
        } else {
            assert!(chunk[..1024 - HEADER_LEN].iter().all(|&b| b == 0xFF));
            assert_eq!(&chunk[1024 - HEADER_LEN..], &tail[..]);
        }
        p += 1;
    }
    assert_eq!(p, 2048);
}

#[test]
fn full_zero_image_flashes_as_raw_zero_chunks() {
    let img = vec![0u8; 2 * 1024 * 1024];
    let mut run = ProgramRun::new(img).unwrap();
    let mut count = 0usize;
    while let Some(chunk) = run.next_chunk() {
        assert!(chunk.iter().all(|&b| b == 0x00));
        count += 1;
    }
    assert_eq!(count, 2048);
}
