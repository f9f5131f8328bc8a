use rust_packets::frame::finish_template;
use rust_packets::transmit::{Transmitter, TxAction, TxEvent};

#[test]
fn transmitter_paces_stamps_and_counts() {
    let frame = finish_template(vec![0x41; 942]).unwrap();
    let mut tx = Transmitter::new(frame, 2, 200);
    assert_eq!(tx.pending(), TxAction::Sleep { micros: 200 });
    assert_eq!(tx.step(TxEvent::SendSucceeded), TxAction::Sleep { micros: 200 });
    assert_eq!(tx.step(TxEvent::Woke { now_nanos: 0x0a0b }), TxAction::Send);
    assert_eq!(&tx.frame_bytes()[42..50], &0x0a0bu64.to_be_bytes());
    assert_eq!(tx.step(TxEvent::Woke { now_nanos: 99 }), TxAction::Send);
    assert_eq!(&tx.frame_bytes()[42..50], &0x0a0bu64.to_be_bytes());
    assert_eq!(tx.step(TxEvent::SendFailed), TxAction::Sleep { micros: 200 });
    assert_eq!(tx.step(TxEvent::Woke { now_nanos: 0x0c0d }), TxAction::Send);
    assert_eq!(&tx.frame_bytes()[40..50], &[0, 0, 0, 0, 0, 0, 0, 0, 0x0c, 0x0d]);
    assert_eq!(tx.step(TxEvent::SendSucceeded), TxAction::Finish);
    assert_eq!(tx.sent(), 1);
    assert_eq!(tx.failed(), 1);
    assert_eq!(tx.step(TxEvent::Woke { now_nanos: 1 }), TxAction::Finish);
}

#[test]
fn transmitter_with_no_samples_finishes_at_once() {
    let frame = finish_template(Vec::new()).unwrap();
    let tx = Transmitter::new(frame, 0, 200);
    assert_eq!(tx.pending(), TxAction::Finish);
}
