use rust_packets::receive::{latency, ReceiveError, Receiver};

fn payload(t: u64) -> Vec<u8> {
    let mut p = t.to_be_bytes().to_vec();
    p.extend(std::iter::repeat(0x41u8).take(892));
    p
}

#[test]
fn latency_of_simulated_clocks() {
    assert_eq!(latency(1_000_000, 1_200_000), Some(200_000));
    assert_eq!(latency(5, 5), Some(0));
    assert_eq!(latency(6, 5), None);
}

#[test]
fn receiver_records_simulated_latency() {
    let mut r = Receiver::new(1);
    assert!(!r.is_done());
    assert_eq!(r.on_datagram(&payload(1_000_000), 1_200_000), Ok(200_000));
    assert_eq!(r.samples(), &[200_000]);
    assert!(r.is_done());
}

#[test]
fn duplicate_timestamp_is_fatal() {
    let mut r = Receiver::new(3);
    assert_eq!(r.on_datagram(&payload(10), 15), Ok(5));
    assert_eq!(r.on_datagram(&payload(10), 20), Err(ReceiveError::DuplicateTimestamp));
    assert_eq!(r.samples(), &[5]);
}

#[test]
fn first_datagram_may_carry_zero() {
    let mut r = Receiver::new(2);
    assert_eq!(r.on_datagram(&payload(0), 7), Ok(7));
    assert_eq!(r.on_datagram(&payload(3), 7), Ok(4));
    assert_eq!(r.samples(), &[7, 4]);
}

#[test]
fn short_datagram_is_refused() {
    let mut r = Receiver::new(1);
    assert_eq!(r.on_datagram(&[1, 2, 3, 4, 5, 6, 7], 100), Err(ReceiveError::ShortDatagram));
    assert!(r.samples().is_empty());
}

#[test]
fn clock_skew_is_refused() {
    let mut r = Receiver::new(1);
    assert_eq!(r.on_datagram(&payload(200), 100), Err(ReceiveError::ClockSkew));
    assert!(r.samples().is_empty());
    assert!(!r.is_done());
}
