//! Turning received datagrams into latency samples.
use vstd::prelude::*;
use crate::frame::{frame_shape, stamped, FRAME_LEN, TIMESTAMP_OFFSET};
use crate::timestamp::{be_value, decode_timestamp, timestamp_round_trip, TIMESTAMP_LEN};

verus! {

/// Why a received datagram ends the run.
#[derive(Clone, Copy, Debug, PartialEq, Eq, Structural)]
pub enum ReceiveError {
    /// The datagram is too short to hold a timestamp.
    ShortDatagram,
    /// The timestamp equals the one received just before it.
    DuplicateTimestamp,
    /// The timestamp lies after the receive time.
    ClockSkew,
}

/// Elapsed time from `t_send` to `t_recv`, or `None` when `t_recv` is earlier.
pub open spec fn latency_spec(t_send: u64, t_recv: u64) -> Option<u64> {
    if t_recv >= t_send {
        Some((t_recv - t_send) as u64)
    } else {
        None
    }
}

/// The send time that a datagram payload carries in its first eight bytes.
pub open spec fn payload_stamp(payload: Seq<u8>) -> u64 {
    be_value(payload.subrange(0, TIMESTAMP_LEN as int)) as u64
}

/// What a datagram received at `now` yields, given the previous send time.
pub open spec fn receive_outcome(previous: Option<u64>, payload: Seq<u8>, now: u64) -> Result<
    u64,
    ReceiveError,
> {
    if payload.len() < TIMESTAMP_LEN {
        Err(ReceiveError::ShortDatagram)
    } else if previous == Some(payload_stamp(payload)) {
        Err(ReceiveError::DuplicateTimestamp)
    } else {
        match latency_spec(payload_stamp(payload), now) {
            Some(l) => Ok(l),
            None => Err(ReceiveError::ClockSkew),
        }
    }
}

/// Latency from send time `t_send` to receive time `t_recv`, same units.
pub fn latency(t_send: u64, t_recv: u64) -> (r: Option<u64>)
    ensures
        r == latency_spec(t_send, t_recv),
{
    if t_recv >= t_send {
        Some(t_recv - t_send)
    } else {
        None
    }
}

/// What a receiver has seen so far.
pub ghost struct ReceiverState {
    pub total: nat,
    pub previous: Option<u64>,
    pub samples: Seq<u64>,
}

/// The receiving side of a run: expects `total` datagrams and keeps one
/// latency sample per datagram, in arrival order.
pub struct Receiver {
    total: u64,
    previous: Option<u64>,
    samples: Vec<u64>,
}

impl View for Receiver {
    type V = ReceiverState;

    closed spec fn view(&self) -> ReceiverState {
        ReceiverState { total: self.total as nat, previous: self.previous, samples: self.samples@ }
    }
}

impl Receiver {
    /// A receiver that expects `total` datagrams.
    pub fn new(total: u64) -> (r: Receiver)
        ensures
            r@.total == total,
            r@.previous is None,
            r@.samples.len() == 0,
    {
        Receiver { total, previous: None, samples: Vec::new() }
    }

    /// Whether every expected datagram has been recorded.
    pub fn is_done(&self) -> (r: bool)
        ensures
            r == (self@.samples.len() >= self@.total),
    {
        self.samples.len() as u64 >= self.total
    }

    /// Handles one datagram payload received at time `now`. On success the
    /// latency is appended to the samples and returned; on any error nothing
    /// changes, and the run is to end.
    pub fn on_datagram(&mut self, payload: &[u8], now: u64) -> (r: Result<u64, ReceiveError>)
        requires
            old(self)@.samples.len() < old(self)@.total,
        ensures
            r == receive_outcome(old(self)@.previous, payload@, now),
            r is Ok ==> final(self)@ == (ReceiverState {
                total: old(self)@.total,
                previous: Some(payload_stamp(payload@)),
                samples: old(self)@.samples.push(r->Ok_0),
            }),
            r is Err ==> final(self)@ == old(self)@,
    {
        if payload.len() < TIMESTAMP_LEN {
            return Err(ReceiveError::ShortDatagram);
        }
        let t_send = decode_timestamp(payload, 0);
        if self.previous == Some(t_send) {
            return Err(ReceiveError::DuplicateTimestamp);
        }
        match latency(t_send, now) {
            Some(l) => {
                self.previous = Some(t_send);
                self.samples.push(l);
                Ok(l)
            },
            None => Err(ReceiveError::ClockSkew),
        }
    }

    /// The latency samples recorded so far, in arrival order.
    pub fn samples(&self) -> (r: &[u64])
        ensures
            r@ == self@.samples,
    {
        self.samples.as_slice()
    }
}

/// A datagram whose timestamp equals the one received just before it ends
/// the run with `DuplicateTimestamp`, whatever its arrival time; by
/// `on_datagram`'s contract no sample is recorded for it.
pub proof fn duplicate_stamp_is_fatal(payload: Seq<u8>, now: u64)
    requires
        payload.len() >= TIMESTAMP_LEN,
    ensures
        receive_outcome(Some(payload_stamp(payload)), payload, now) == Err::<u64, ReceiveError>(
            ReceiveError::DuplicateTimestamp,
        ),
{
}

/// The payload of a frame stamped with `t` carries `t` back to the receiver;
/// received at `t + d`, it yields the latency `d`.
pub proof fn stamp_reads_back(f: Seq<u8>, t: u64, d: u64)
    requires
        frame_shape(f),
        t + d <= u64::MAX,
    ensures
        payload_stamp(stamped(f, t).subrange(TIMESTAMP_OFFSET as int, FRAME_LEN as int)) == t,
        latency_spec(t, (t + d) as u64) == Some(d),
{
    timestamp_round_trip(t, Seq::new(8, |i: int| 0u8));
    let p = stamped(f, t).subrange(TIMESTAMP_OFFSET as int, FRAME_LEN as int);
    assert(p.subrange(0, TIMESTAMP_LEN as int) =~= crate::timestamp::be_bytes(t as nat, 8));
}

} // verus!
