//! Implements the `PING` HTTP/2 frame.

use vstd::prelude::*;
use crate::http::{HttpResult, StreamId};
use crate::http::frame::{
    Flag, Frame, FrameBuilder, FrameHeader, FrameIR, RawFrame, RawFrameView, lemma_piece_written,
    lemma_raw_frame_round_trip, spec_pack_header, spec_raw_from_buf,
};
use crate::http::frame::octets::spec_u32_octets;
use crate::http::frame::octets::{lemma_u64_round_trip, spec_u64_at, spec_u64_octets, unpack_u64};

verus! {

/// Ping frames are always 8 bytes.
pub const PING_FRAME_LEN: u32 = 8;

/// The frame type of the `PING` frame.
pub const PING_FRAME_TYPE: u8 = 0x6;

/// The one flag of the `PING` frame: ACK.
pub struct PingFlag;

impl Flag for PingFlag {
    open spec fn spec_bitmask(&self) -> u8 {
        0x1
    }

    fn bitmask(&self) -> (r: u8) {
        0x1
    }
}

/// The struct represents the `PING` HTTP/2 frame.
#[derive(Clone, Copy, Debug, PartialEq, Eq, Structural)]
pub struct PingFrame {
    pub opaque_data: u64,
    pub flags: u8,
}

/// The `PING` frame that a raw frame holds: the length is 8, the type is
/// `PING` and the stream id is zero; the flags are kept as they are.
pub open spec fn spec_ping_from_raw(raw: RawFrameView) -> Option<PingFrame> {
    if raw.header.0 == PING_FRAME_LEN && raw.header.1 == PING_FRAME_TYPE && raw.header.3 == 0
        && raw.payload.len() == 8 {
        Some(PingFrame { opaque_data: spec_u64_at(raw.payload, 0), flags: raw.header.2 })
    } else {
        None
    }
}

impl PingFrame {
    /// Create a new `PING` frame.
    pub fn new() -> (r: Self)
        ensures
            r == (PingFrame { opaque_data: 0, flags: 0 }),
    {
        PingFrame { opaque_data: 0, flags: 0 }
    }

    /// Create a new `PING` frame with ACK set.
    pub fn new_ack(opaque_data: u64) -> (r: Self)
        ensures
            r == (PingFrame { opaque_data, flags: 1 }),
    {
        PingFrame { opaque_data, flags: 1 }
    }

    /// Create a new `PING` frame with the given opaque data.
    pub fn with_data(opaque_data: u64) -> (r: Self)
        ensures
            r == (PingFrame { opaque_data, flags: 0 }),
    {
        PingFrame { opaque_data, flags: 0 }
    }

    /// Whether the ACK flag is set.
    pub open spec fn spec_is_ack(&self) -> bool {
        0x1u8 & self.flags != 0
    }

    #[verifier::when_used_as_spec(spec_is_ack)]
    pub fn is_ack(&self) -> (r: bool)
        ensures
            r == self.spec_is_ack(),
    {
        self.is_set(PingFlag)
    }

    pub fn opaque_data(&self) -> (r: u64)
        ensures
            r == self.opaque_data,
    {
        self.opaque_data
    }

    /// The raw frame that carries this frame.
    pub open spec fn spec_raw(&self) -> RawFrameView {
        RawFrameView {
            header: (PING_FRAME_LEN, PING_FRAME_TYPE, self.flags, 0),
            payload: spec_u64_octets(self.opaque_data),
        }
    }
}

impl Frame for PingFrame {
    type FlagType = PingFlag;

    open spec fn spec_flags(&self) -> u8 {
        self.flags
    }

    open spec fn spec_header(&self) -> FrameHeader {
        (PING_FRAME_LEN, PING_FRAME_TYPE, self.flags, 0)
    }

    open spec fn spec_payload_len(&self) -> nat {
        8
    }

    fn from_raw(raw: &RawFrame) -> (r: Option<Self>)
        ensures
            r == spec_ping_from_raw(raw@),
    {
        let (payload_len, frame_type, flags, stream_id) = raw.header();
        if payload_len != PING_FRAME_LEN {
            return None;
        }
        if frame_type != PING_FRAME_TYPE {
            return None;
        }
        if stream_id != 0x0 {
            return None;
        }
        if raw.payload().len() != 8 {
            return None;
        }
        let data: u64 = unpack_u64(raw.payload(), 0);
        Some(PingFrame { opaque_data: data, flags })
    }

    fn is_set(&self, flag: PingFlag) -> (r: bool) {
        (flag.bitmask() & self.flags) != 0
    }

    fn get_stream_id(&self) -> (r: StreamId) {
        0
    }

    fn get_header(&self) -> (r: FrameHeader) {
        (PING_FRAME_LEN, PING_FRAME_TYPE, self.flags, 0)
    }
}

impl FrameIR for PingFrame {
    open spec fn serializable(&self) -> bool {
        true
    }

    open spec fn wire(&self) -> Seq<u8> {
        self.spec_raw().wire()
    }

    /// The header, the high half of the opaque data, and the low half.
    open spec fn pieces(&self) -> Seq<Seq<u8>> {
        seq![
            spec_pack_header(self.spec_header()),
            spec_u32_octets((self.opaque_data / 0x1_0000_0000) as u32),
            spec_u32_octets((self.opaque_data % 0x1_0000_0000) as u32),
        ]
    }

    fn serialize_into<B: FrameBuilder>(self, builder: &mut B) -> (r: HttpResult<()>) {
        let ghost start = builder.written();
        let ghost all = self.pieces();
        let ghost mid = *builder;
        assert(all.take(0) =~= Seq::<Seq<u8>>::empty());
        let head = builder.write_header(self.get_header());
        proof {
            lemma_piece_written(*old(builder), all, 0, mid, head, *builder);
        }
        head?;
        let ghost mid = *builder;
        let high = builder.write_u32((self.opaque_data / 0x1_0000_0000) as u32);
        proof {
            lemma_piece_written(*old(builder), all, 1, mid, high, *builder);
        }
        high?;
        let ghost mid = *builder;
        let low = builder.write_u32((self.opaque_data % 0x1_0000_0000) as u32);
        proof {
            lemma_piece_written(*old(builder), all, 2, mid, low, *builder);
        }
        low?;
        assert(builder.written() =~= start + self.wire());
        Ok(())
    }
}

/// A `PING` frame that is written out and parsed back is the same frame.
pub proof fn lemma_ping_round_trip(frame: PingFrame)
    ensures
        frame.spec_raw().wf(),
        spec_raw_from_buf(frame.wire()) == Some(frame.spec_raw()),
        spec_ping_from_raw(frame.spec_raw()) == Some(frame),
{
    lemma_raw_frame_round_trip(frame.spec_raw());
    let payload = frame.spec_raw().payload;
    assert(payload.subrange(0, 8) =~= payload);
    lemma_u64_round_trip(frame.opaque_data, payload, 0);
}

} // verus!
