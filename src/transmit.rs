//! The paced transmit loop as a state machine: the caller performs each
//! action (sleep, send, finish) and reports back what happened.
use vstd::prelude::*;
use crate::frame::{frame_shape, stamped, Frame};

verus! {

/// What the caller reports to the transmitter.
#[derive(Clone, Copy, Debug, PartialEq, Eq, Structural)]
pub enum TxEvent {
    /// The pacing sleep is over; `now_nanos` is the clock read right after it.
    Woke { now_nanos: u64 },
    /// The frame was handed to the link.
    SendSucceeded,
    /// Handing the frame to the link failed.
    SendFailed,
}

/// What the transmitter asks the caller to do next.
#[derive(Clone, Copy, Debug, PartialEq, Eq, Structural)]
pub enum TxAction {
    /// Sleep for the pacing interval, then report `Woke`.
    Sleep { micros: u64 },
    /// Transmit the frame as it now stands, then report the outcome.
    Send,
    /// All iterations are done.
    Finish,
}

/// Where the transmit loop stands.
#[derive(Clone, Copy, Debug, PartialEq, Eq, Structural)]
pub enum TxPhase {
    Pacing,
    Sending,
    Finished,
}

/// What a transmitter holds, as plain values.
pub ghost struct TxState {
    pub frame: Seq<u8>,
    pub total: nat,
    pub interval_micros: u64,
    pub sent: nat,
    pub failed: nat,
    pub phase: TxPhase,
}

impl TxState {
    /// Iterations completed so far, whether the send succeeded or not.
    pub open spec fn attempted(self) -> nat {
        self.sent + self.failed
    }

    pub open spec fn wf(self) -> bool {
        &&& frame_shape(self.frame)
        &&& self.attempted() <= self.total
        &&& (self.phase == TxPhase::Finished <==> self.attempted() == self.total)
    }

    /// The action that the state waits on.
    pub open spec fn pending(self) -> TxAction {
        match self.phase {
            TxPhase::Pacing => TxAction::Sleep { micros: self.interval_micros },
            TxPhase::Sending => TxAction::Send,
            TxPhase::Finished => TxAction::Finish,
        }
    }

    /// The state after one send attempt, with the given counts.
    pub open spec fn after_attempt(self, sent: nat, failed: nat) -> TxState {
        TxState {
            sent,
            failed,
            phase: if sent + failed == self.total {
                TxPhase::Finished
            } else {
                TxPhase::Pacing
            },
            ..self
        }
    }

    /// The next state on event `e`; an event that the phase does not wait
    /// on changes nothing.
    pub open spec fn next(self, e: TxEvent) -> TxState {
        match (self.phase, e) {
            (TxPhase::Pacing, TxEvent::Woke { now_nanos }) => TxState {
                frame: stamped(self.frame, now_nanos),
                phase: TxPhase::Sending,
                ..self
            },
            (TxPhase::Sending, TxEvent::SendSucceeded) => self.after_attempt(
                self.sent + 1,
                self.failed,
            ),
            (TxPhase::Sending, TxEvent::SendFailed) => self.after_attempt(
                self.sent,
                self.failed + 1,
            ),
            _ => self,
        }
    }
}

/// A send is newly asked for only right after the transmitter asked for a
/// sleep of its full pacing interval, and the frame then carries the clock
/// read after that sleep: every transmission is preceded by its own pacing
/// sleep, with no catch-up.
pub proof fn send_follows_pacing_sleep(s: TxState, e: TxEvent)
    requires
        s.wf(),
        s.pending() != TxAction::Send,
        s.next(e).pending() == TxAction::Send,
    ensures
        s.pending() == (TxAction::Sleep { micros: s.interval_micros }),
        e is Woke,
        s.next(e).frame == stamped(s.frame, e->now_nanos),
{
}

/// Owns the frame buffer and paces `total` transmissions of it.
pub struct Transmitter {
    frame: Frame,
    total: u64,
    interval_micros: u64,
    sent: u64,
    failed: u64,
    phase: TxPhase,
}

impl View for Transmitter {
    type V = TxState;

    closed spec fn view(&self) -> TxState {
        TxState {
            frame: self.frame@,
            total: self.total as nat,
            interval_micros: self.interval_micros,
            sent: self.sent as nat,
            failed: self.failed as nat,
            phase: self.phase,
        }
    }
}

impl Transmitter {
    /// A transmitter that sends `frame` `total` times, sleeping
    /// `interval_micros` before each send.
    pub fn new(frame: Frame, total: u64, interval_micros: u64) -> (r: Transmitter)
        requires
            frame.wf(),
        ensures
            r@.wf(),
            r@ == (TxState {
                frame: frame@,
                total: total as nat,
                interval_micros,
                sent: 0,
                failed: 0,
                phase: if total == 0 {
                    TxPhase::Finished
                } else {
                    TxPhase::Pacing
                },
            }),
    {
        let phase = if total == 0 {
            TxPhase::Finished
        } else {
            TxPhase::Pacing
        };
        Transmitter { frame, total, interval_micros, sent: 0, failed: 0, phase }
    }

    /// The action that the transmitter waits on.
    pub fn pending(&self) -> (r: TxAction)
        ensures
            r == self@.pending(),
    {
        match self.phase {
            TxPhase::Pacing => TxAction::Sleep { micros: self.interval_micros },
            TxPhase::Sending => TxAction::Send,
            TxPhase::Finished => TxAction::Finish,
        }
    }

    /// Takes one event and returns the next action. A send is asked for only
    /// right after a pacing sleep, with the clock read after that sleep
    /// stamped into the frame.
    pub fn step(&mut self, e: TxEvent) -> (r: TxAction)
        requires
            old(self)@.wf(),
        ensures
            final(self)@ == old(self)@.next(e),
            final(self)@.wf(),
            r == final(self)@.pending(),
    {
        match (self.phase, e) {
            (TxPhase::Pacing, TxEvent::Woke { now_nanos }) => {
                self.frame.stamp(now_nanos);
                self.phase = TxPhase::Sending;
            },
            (TxPhase::Sending, TxEvent::SendSucceeded) => {
                self.sent = self.sent + 1;
                self.finish_attempt();
            },
            (TxPhase::Sending, TxEvent::SendFailed) => {
                self.failed = self.failed + 1;
                self.finish_attempt();
            },
            _ => {},
        }
        self.pending()
    }

    fn finish_attempt(&mut self)
        requires
            old(self).sent as nat + old(self).failed as nat <= old(self).total as nat,
        ensures
            final(self)@ == (TxState {
                phase: if old(self)@.attempted() == old(self)@.total {
                    TxPhase::Finished
                } else {
                    TxPhase::Pacing
                },
                ..old(self)@
            }),
    {
        if self.sent as u128 + self.failed as u128 == self.total as u128 {
            self.phase = TxPhase::Finished;
        } else {
            self.phase = TxPhase::Pacing;
        }
    }

    /// The frame as it would now be transmitted.
    pub fn frame_bytes(&self) -> (r: &[u8])
        requires
            self@.wf(),
        ensures
            r@ == self@.frame,
            frame_shape(r@),
    {
        self.frame.as_bytes()
    }

    /// Number of successful sends so far.
    pub fn sent(&self) -> (r: u64)
        ensures
            r == self@.sent,
    {
        self.sent
    }

    /// Number of failed sends so far.
    pub fn failed(&self) -> (r: u64)
        ensures
            r == self@.failed,
    {
        self.failed
    }
}

} // verus!
