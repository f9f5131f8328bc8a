use rust_packets::frame::{
    build_template, finish_template, FrameConfig, FrameError, CHECKSUM_OFFSET, DESTINATION_PORT,
    FILLER, FRAME_LEN, PAYLOAD_LEN, SOURCE_PORT, TIMESTAMP_OFFSET,
};

fn probe_config() -> FrameConfig {
    FrameConfig {
        source_mac: [0x0c, 0x42, 0xa1, 0xdd, 0x57, 0x30],
        destination_mac: [0xff; 6],
        source_port: SOURCE_PORT,
        destination_port: DESTINATION_PORT,
    }
}

#[test]
fn template_is_padded_with_zeros() {
    let natural: Vec<u8> = (0..100u8).map(|i| i + 1).collect();
    let f = finish_template(natural.clone()).unwrap();
    let b = f.as_bytes();
    assert_eq!(b.len(), FRAME_LEN);
    assert_eq!(&b[..40], &natural[..40]);
    assert_eq!(&b[40..42], &[0, 0]);
    assert_eq!(&b[42..100], &natural[42..100]);
    assert!(b[100..].iter().all(|&x| x == 0));
}

#[test]
fn template_of_exact_length_is_kept() {
    let natural = vec![7u8; FRAME_LEN];
    let f = finish_template(natural).unwrap();
    let b = f.as_bytes();
    assert_eq!(b.len(), FRAME_LEN);
    assert_eq!(b[CHECKSUM_OFFSET], 0);
    assert_eq!(b[CHECKSUM_OFFSET + 1], 0);
    assert_eq!(b[39], 7);
    assert_eq!(b[1023], 7);
}

#[test]
fn template_too_long_is_refused() {
    assert_eq!(finish_template(vec![0u8; FRAME_LEN + 1]).err(), Some(FrameError::TooLong));
}

#[test]
fn template_of_empty_encoding() {
    let f = finish_template(Vec::new()).unwrap();
    assert_eq!(f.as_bytes(), &[0u8; FRAME_LEN][..]);
}

#[test]
fn built_template_has_probe_layout() {
    let f = build_template(&probe_config()).unwrap();
    let b = f.as_bytes();
    assert_eq!(b.len(), FRAME_LEN);
    assert_eq!(&b[0..6], &[0xff; 6]);
    assert_eq!(&b[6..12], &[0x0c, 0x42, 0xa1, 0xdd, 0x57, 0x30]);
    assert_eq!(&b[12..14], &[0x08, 0x00]);
    assert_eq!(b[14] >> 4, 4);
    assert_eq!(b[23], 17);
    assert_eq!(&b[34..36], &1336u16.to_be_bytes());
    assert_eq!(&b[36..38], &1337u16.to_be_bytes());
    assert_eq!(&b[38..40], &((8 + PAYLOAD_LEN) as u16).to_be_bytes());
    assert_eq!(&b[40..42], &[0, 0]);
    assert!(b[42..42 + PAYLOAD_LEN].iter().all(|&x| x == FILLER));
    assert!(b[42 + PAYLOAD_LEN..].iter().all(|&x| x == 0));
}

#[test]
fn stamp_changes_only_the_timestamp_field() {
    let mut f = build_template(&probe_config()).unwrap();
    let before = f.as_bytes().to_vec();
    f.stamp(0x1122334455667788);
    let after = f.as_bytes();
    assert_eq!(&after[..TIMESTAMP_OFFSET], &before[..TIMESTAMP_OFFSET]);
    assert_eq!(&after[42..50], &[0x11, 0x22, 0x33, 0x44, 0x55, 0x66, 0x77, 0x88]);
    assert_eq!(&after[50..], &before[50..]);
    assert_eq!(f.timestamp(), 0x1122334455667788);
}

#[test]
fn checksum_stays_zero_for_any_stamp_or_payload() {
    for fill in [0u8, 0x41, 0xff] {
        let mut f = finish_template(vec![fill; 942]).unwrap();
        for t in [0u64, 1, 0xffff, u64::MAX] {
            f.stamp(t);
            assert_eq!(&f.as_bytes()[40..42], &[0, 0]);
            assert_eq!(f.as_bytes().len(), FRAME_LEN);
        }
    }
}
