//! The synthetic UDP-in-IPv4-in-Ethernet frame that every send reuses.
use packet::Builder;
use vstd::prelude::*;
use crate::timestamp::{
    be_bytes, be_value, decode_timestamp, encode_timestamp, lemma_be_bytes_len, TIMESTAMP_LEN,
};

verus! {

/// Length in bytes of every transmitted frame.
pub const FRAME_LEN: usize = 1024;

/// Length in bytes of the UDP payload handed to the encoder.
pub const PAYLOAD_LEN: usize = 900;

/// Byte that fills the payload around the timestamp.
pub const FILLER: u8 = 0x41;

/// UDP source port of the probe traffic.
pub const SOURCE_PORT: u16 = 1336;

/// UDP destination port of the probe traffic.
pub const DESTINATION_PORT: u16 = 1337;

/// Offset of the two UDP checksum bytes: Ethernet (14) + IPv4 (20) + 6.
pub const CHECKSUM_OFFSET: usize = 40;

/// Offset of the payload, which starts with the timestamp field.
pub const TIMESTAMP_OFFSET: usize = 42;

/// The bytes that the frame encoder produces for the given hardware addresses,
/// UDP ports and payload.
pub uninterp spec fn udp_frame_of(
    source_mac: Seq<u8>,
    destination_mac: Seq<u8>,
    source_port: u16,
    destination_port: u16,
    payload: Seq<u8>,
) -> Seq<u8>;

/// The two big-endian bytes of `v`.
pub open spec fn be16(v: u16) -> Seq<u8> {
    seq![(v / 256) as u8, (v % 256) as u8]
}

/// The fields of an encoded UDP-in-IPv4-in-Ethernet frame that are copied
/// from its inputs: destination and source hardware address, EtherType IPv4,
/// the UDP ports and the payload right after the 42 header bytes.
pub open spec fn encoded_layout(
    f: Seq<u8>,
    source_mac: Seq<u8>,
    destination_mac: Seq<u8>,
    source_port: u16,
    destination_port: u16,
    payload: Seq<u8>,
) -> bool {
    &&& f.len() == TIMESTAMP_OFFSET + payload.len()
    &&& f.subrange(0, 6) == destination_mac
    &&& f.subrange(6, 12) == source_mac
    &&& f[12] == 0x08 && f[13] == 0x00
    &&& f.subrange(34, 36) == be16(source_port)
    &&& f.subrange(36, 38) == be16(destination_port)
    &&& f.subrange(TIMESTAMP_OFFSET as int, f.len() as int) == payload
}

/// Relies on packet's Ethernet, IPv4 and UDP builders (packet::ether::Builder
/// and the builders it chains to). Every step succeeds on a growable buffer;
/// the frame is the 14-byte Ethernet, 20-byte IPv4 and 8-byte UDP headers
/// followed by the payload, with the addresses, EtherType and ports written
/// at their fixed offsets, and depends on the addresses, ports and payload
/// alone.
#[verifier::external_body]
fn encode_udp_frame(
    source_mac: [u8; 6],
    destination_mac: [u8; 6],
    source_port: u16,
    destination_port: u16,
    payload: &Vec<u8>,
) -> (r: Result<Vec<u8>, packet::Error>)
    ensures
        r is Ok,
        r is Ok ==> encoded_layout(
            r->Ok_0@,
            source_mac@,
            destination_mac@,
            source_port,
            destination_port,
            payload@,
        ),
        r is Ok ==> r->Ok_0@ == udp_frame_of(
            source_mac@,
            destination_mac@,
            source_port,
            destination_port,
            payload@,
        ),
{
    packet::ether::Builder::default().source(source_mac.into())?.destination(
        destination_mac.into(),
    )?.protocol(packet::ether::Protocol::Ipv4)?.ip()?.v4()?.udp()?.source(
        source_port,
    )?.destination(destination_port)?.payload(payload.iter())?.build()
}

#[verifier::external_type_specification]
#[verifier::external_body]
pub struct ExPacketError(packet::Error);

/// Addressing of the probe frame.
#[derive(Clone, Copy, Debug)]
pub struct FrameConfig {
    pub source_mac: [u8; 6],
    pub destination_mac: [u8; 6],
    pub source_port: u16,
    pub destination_port: u16,
}

/// Why a frame template could not be built.
#[derive(Clone, Copy, Debug, PartialEq, Eq, Structural)]
pub enum FrameError {
    /// The encoder rejected a header field.
    Encoding,
    /// The encoded frame is longer than `FRAME_LEN`; it is never truncated.
    TooLong,
}

/// `PAYLOAD_LEN` filler bytes.
pub open spec fn filler_payload() -> Seq<u8> {
    Seq::new(PAYLOAD_LEN as nat, |i: int| FILLER)
}

/// The encoded frame that a configuration describes.
pub open spec fn natural_frame(cfg: FrameConfig) -> Seq<u8> {
    udp_frame_of(
        cfg.source_mac@,
        cfg.destination_mac@,
        cfg.source_port,
        cfg.destination_port,
        filler_payload(),
    )
}

/// `natural` padded with zero bytes to `FRAME_LEN`, its checksum bytes zeroed.
pub open spec fn template_bytes(natural: Seq<u8>) -> Seq<u8> {
    (natural + Seq::new((FRAME_LEN - natural.len()) as nat, |i: int| 0u8)).update(
        CHECKSUM_OFFSET as int,
        0,
    ).update(CHECKSUM_OFFSET + 1, 0)
}

/// `f` with the timestamp field set to the big-endian bytes of `t`.
pub open spec fn stamped(f: Seq<u8>, t: u64) -> Seq<u8> {
    f.subrange(0, TIMESTAMP_OFFSET as int) + be_bytes(t as nat, 8) + f.subrange(
        TIMESTAMP_OFFSET + TIMESTAMP_LEN,
        f.len() as int,
    )
}

/// `f` stamped with each time of `ts` in turn.
pub open spec fn stamped_all(f: Seq<u8>, ts: Seq<u64>) -> Seq<u8>
    decreases ts.len(),
{
    if ts.len() == 0 {
        f
    } else {
        stamped(stamped_all(f, ts.drop_last()), ts.last())
    }
}

/// A frame of exactly `FRAME_LEN` bytes whose checksum bytes are zero.
pub open spec fn frame_shape(f: Seq<u8>) -> bool {
    &&& f.len() == FRAME_LEN
    &&& f[CHECKSUM_OFFSET as int] == 0
    &&& f[CHECKSUM_OFFSET + 1] == 0
}

/// The frame buffer: built once, then only its timestamp field changes.
pub struct Frame {
    bytes: Vec<u8>,
}

impl View for Frame {
    type V = Seq<u8>;

    closed spec fn view(&self) -> Seq<u8> {
        self.bytes@
    }
}

impl Frame {
    /// Exactly `FRAME_LEN` bytes, checksum bytes zero.
    pub open spec fn wf(&self) -> bool {
        frame_shape(self@)
    }

    /// The bytes to transmit.
    pub fn as_bytes(&self) -> (r: &[u8])
        requires
            self.wf(),
        ensures
            r@ == self@,
            frame_shape(r@),
    {
        self.bytes.as_slice()
    }

    /// Writes `t` into the timestamp field, leaving every other byte alone.
    pub fn stamp(&mut self, t: u64)
        requires
            old(self).wf(),
        ensures
            final(self).wf(),
            final(self)@ == stamped(old(self)@, t),
            frame_shape(final(self)@),
    {
        let enc = encode_timestamp(t);
        let mut i: usize = 0;
        while i < TIMESTAMP_LEN
            invariant
                i <= 8,
                enc@ == be_bytes(t as nat, 8),
                enc@.len() == 8,
                frame_shape(self.bytes@),
                self.bytes@.len() == old(self).bytes@.len(),
                forall|j: int|
                    0 <= j < FRAME_LEN && !(TIMESTAMP_OFFSET <= j < TIMESTAMP_OFFSET + i)
                        ==> self.bytes@[j] == old(self).bytes@[j],
                forall|j: int|
                    0 <= j < i ==> self.bytes@[TIMESTAMP_OFFSET + j] == enc@[j],
            decreases 8 - i,
        {
            self.bytes.set(TIMESTAMP_OFFSET + i, enc[i]);
            i = i + 1;
        }
        assert(self@ =~= stamped(old(self)@, t));
    }

    /// The time currently held in the timestamp field.
    pub fn timestamp(&self) -> (r: u64)
        requires
            self.wf(),
        ensures
            r as nat == be_value(self@.subrange(
                TIMESTAMP_OFFSET as int,
                TIMESTAMP_OFFSET + TIMESTAMP_LEN,
            )),
    {
        decode_timestamp(self.bytes.as_slice(), TIMESTAMP_OFFSET)
    }
}

/// Turns an encoded frame into the frame template: pads it with zero bytes to
/// exactly `FRAME_LEN` and zeroes its checksum bytes. A frame longer than
/// `FRAME_LEN` is refused rather than truncated.
pub fn finish_template(natural: Vec<u8>) -> (r: Result<Frame, FrameError>)
    ensures
        r is Ok <==> natural@.len() <= FRAME_LEN,
        r is Ok ==> r->Ok_0@ == template_bytes(natural@) && r->Ok_0.wf(),
        r is Err ==> r->Err_0 == FrameError::TooLong,
{
    if natural.len() > FRAME_LEN {
        return Err(FrameError::TooLong);
    }
    let mut bytes = natural;
    let ghost n0 = bytes@;
    while bytes.len() < FRAME_LEN
        invariant
            n0.len() <= bytes@.len() <= FRAME_LEN,
            bytes@.subrange(0, n0.len() as int) == n0,
            forall|j: int| n0.len() <= j < bytes@.len() ==> bytes@[j] == 0,
        decreases FRAME_LEN - bytes@.len(),
    {
        bytes.push(0);
    }
    bytes.set(CHECKSUM_OFFSET, 0);
    bytes.set(CHECKSUM_OFFSET + 1, 0);
    let f = Frame { bytes };
    assert(f@ =~= template_bytes(n0));
    Ok(f)
}

/// Builds the frame template for `cfg`: the encoder's frame with a payload of
/// `PAYLOAD_LEN` filler bytes, padded and with its checksum zeroed as
/// `finish_template` does. It always succeeds: the encoded frame is 942
/// bytes, within `FRAME_LEN`.
pub fn build_template(cfg: &FrameConfig) -> (r: Result<Frame, FrameError>)
    ensures
        r is Ok,
        natural_frame(*cfg).len() == TIMESTAMP_OFFSET + PAYLOAD_LEN,
        encoded_layout(
            natural_frame(*cfg),
            cfg.source_mac@,
            cfg.destination_mac@,
            cfg.source_port,
            cfg.destination_port,
            filler_payload(),
        ),
        r is Ok ==> r->Ok_0@ == template_bytes(natural_frame(*cfg)) && r->Ok_0.wf(),
{
    let mut payload: Vec<u8> = Vec::new();
    while payload.len() < PAYLOAD_LEN
        invariant
            payload@.len() <= PAYLOAD_LEN,
            forall|j: int| 0 <= j < payload@.len() ==> payload@[j] == FILLER,
        decreases PAYLOAD_LEN - payload@.len(),
    {
        payload.push(FILLER);
    }
    assert(payload@ =~= filler_payload());
    match encode_udp_frame(
        cfg.source_mac,
        cfg.destination_mac,
        cfg.source_port,
        cfg.destination_port,
        &payload,
    ) {
        Ok(natural) => finish_template(natural),
        Err(_) => Err(FrameError::Encoding),
    }
}

/// Every frame that leaves the transmitter is exactly `FRAME_LEN` bytes long
/// and carries zero checksum bytes, whatever the encoded frame it was built
/// from (so whatever its payload) and whatever times were stamped into it.
pub proof fn stamped_frames_keep_shape(natural: Seq<u8>, ts: Seq<u64>)
    requires
        natural.len() <= FRAME_LEN,
    ensures
        frame_shape(template_bytes(natural)),
        frame_shape(stamped_all(template_bytes(natural), ts)),
    decreases ts.len(),
{
    if ts.len() > 0 {
        stamped_frames_keep_shape(natural, ts.drop_last());
        lemma_stamp_keeps_shape(stamped_all(template_bytes(natural), ts.drop_last()), ts.last());
    }
}

proof fn lemma_stamp_keeps_shape(f: Seq<u8>, t: u64)
    requires
        frame_shape(f),
    ensures
        frame_shape(stamped(f, t)),
{
    lemma_be_bytes_len(t as nat, 8);
}

} // verus!
