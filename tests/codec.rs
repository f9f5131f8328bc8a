use rust_packets::timestamp::{decode_timestamp, encode_timestamp};

#[test]
fn encode_is_big_endian() {
    assert_eq!(encode_timestamp(0x0102030405060708), [1, 2, 3, 4, 5, 6, 7, 8]);
    assert_eq!(encode_timestamp(0), [0; 8]);
    assert_eq!(encode_timestamp(u64::MAX), [0xff; 8]);
}

#[test]
fn decode_reads_at_offset() {
    let b = [9u8, 9, 0, 0, 0, 0, 0, 0, 1, 0];
    assert_eq!(decode_timestamp(&b, 2), 256);
    assert_eq!(decode_timestamp(&[0x01, 0, 0, 0, 0, 0, 0, 0], 0), 1u64 << 56);
}

#[test]
fn encode_decode_round_trip() {
    for n in [0u64, 1, 255, 256, 1_000_000, 1_700_000_000_123_456_789, u64::MAX - 1, u64::MAX] {
        let b = encode_timestamp(n);
        assert_eq!(decode_timestamp(&b, 0), n);
        assert_eq!(b, n.to_be_bytes());
    }
}
