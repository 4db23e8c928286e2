//! Implements the `GOAWAY` HTTP/2 frame.

use vstd::prelude::*;
use vstd::slice::{slice_subrange, slice_to_vec};
use crate::http::{HttpError, HttpResult, StreamId};
use crate::http::frame::{Flag, Frame, FrameBuilder, FrameHeader, FrameIR, RawFrame, RawFrameView, lemma_raw_frame_round_trip, spec_raw_from_buf, lemma_piece_written, spec_pack_header};
use crate::http::frame::octets::{lemma_u32_round_trip, spec_u32_at, spec_u32_octets, unpack_u32};

verus! {

/// The frame type of the `GOAWAY` frame.
pub const GOAWAY_FRAME_TYPE: u8 = 0x7;

/// The `GOAWAY` frame defines no flags.
pub struct NoFlag;

impl Flag for NoFlag {
    open spec fn spec_bitmask(&self) -> u8 {
        0x0
    }

    fn bitmask(&self) -> (r: u8) {
        0x0
    }
}

/// A `GOAWAY` frame: the peer is about to close the connection.
#[derive(Clone, Debug, PartialEq)]
pub struct GoawayFrame {
    /// The id of the last stream that the sender has or might have handled.
    pub last_stream_id: StreamId,
    /// The error code, as it stands on the wire.
    pub raw_error_code: u32,
    /// The debug data; empty where there is none.
    pub debug_data: Vec<u8>,
    /// The flags byte of the frame.
    pub flags: u8,
}

/// The mathematical model of a `GOAWAY` frame.
pub struct GoawayFrameView {
    pub last_stream_id: StreamId,
    pub raw_error_code: u32,
    pub debug_data: Seq<u8>,
    pub flags: u8,
}

impl GoawayFrameView {
    /// The frame can stand on the wire: the last stream id fits in 31 bits
    /// and the payload length in 24.
    pub open spec fn wf(self) -> bool {
        self.last_stream_id < 0x8000_0000 && 8 + self.debug_data.len() < 0x100_0000
    }

    /// The raw frame that carries this frame.
    pub open spec fn raw(self) -> RawFrameView {
        RawFrameView {
            header: ((8 + self.debug_data.len()) as u32, GOAWAY_FRAME_TYPE, self.flags, 0),
            payload: spec_u32_octets(self.last_stream_id % 0x8000_0000) + spec_u32_octets(
                self.raw_error_code,
            ) + self.debug_data,
        }
    }
}

/// The `GOAWAY` frame that a raw frame holds: the type is `GOAWAY`, the
/// stream id is zero and the payload has at least eight bytes: the last
/// stream id, without its reserved bit, and the error code. What follows is
/// debug data.
pub open spec fn spec_goaway_from_raw(raw: RawFrameView) -> Option<GoawayFrameView> {
    if !raw.wf() || raw.header.1 != GOAWAY_FRAME_TYPE || raw.header.3 != 0 || raw.payload.len()
        < 8 {
        None
    } else {
        Some(
            GoawayFrameView {
                last_stream_id: spec_u32_at(raw.payload, 0) % 0x8000_0000,
                raw_error_code: spec_u32_at(raw.payload, 4),
                debug_data: raw.payload.skip(8),
                flags: raw.header.2,
            },
        )
    }
}

impl View for GoawayFrame {
    type V = GoawayFrameView;

    open spec fn view(&self) -> GoawayFrameView {
        GoawayFrameView {
            last_stream_id: self.last_stream_id,
            raw_error_code: self.raw_error_code,
            debug_data: self.debug_data@,
            flags: self.flags,
        }
    }
}

impl GoawayFrame {
    /// Creates a new `GOAWAY` frame with the given last stream id and error
    /// code, and no debug data.
    pub fn new(last_stream_id: StreamId, raw_error_code: u32) -> (r: GoawayFrame)
        ensures
            r@ == (GoawayFrameView {
                last_stream_id,
                raw_error_code,
                debug_data: Seq::empty(),
                flags: 0,
            }),
    {
        GoawayFrame { last_stream_id, raw_error_code, debug_data: Vec::new(), flags: 0 }
    }

    /// Creates a new `GOAWAY` frame with the given parts.
    pub fn with_debug_data(
        last_stream_id: StreamId,
        raw_error_code: u32,
        debug_data: Vec<u8>,
    ) -> (r: GoawayFrame)
        ensures
            r@ == (GoawayFrameView {
                last_stream_id,
                raw_error_code,
                debug_data: debug_data@,
                flags: 0,
            }),
    {
        GoawayFrame { last_stream_id, raw_error_code, debug_data, flags: 0 }
    }

    /// Returns the error code, as it stands on the wire.
    pub fn raw_error_code(&self) -> (r: u32)
        ensures
            r == self.raw_error_code,
    {
        self.raw_error_code
    }

    /// Returns the id of the last stream that the sender has or might have
    /// handled.
    pub fn last_stream_id(&self) -> (r: StreamId)
        ensures
            r == self.last_stream_id,
    {
        self.last_stream_id
    }

    /// Returns the debug data; empty where there is none.
    pub fn debug_data(&self) -> (r: &[u8])
        ensures
            r@ == self.debug_data@,
    {
        self.debug_data.as_slice()
    }

    /// Whether the frame can stand on the wire.
    pub fn is_wf(&self) -> (r: bool)
        ensures
            r == self@.wf(),
    {
        self.last_stream_id < 0x8000_0000 && self.debug_data.len() < 0x100_0000 - 8
    }
}

impl Frame for GoawayFrame {
    type FlagType = NoFlag;

    open spec fn spec_flags(&self) -> u8 {
        self.flags
    }

    open spec fn spec_header(&self) -> FrameHeader {
        self@.raw().header
    }

    open spec fn spec_payload_len(&self) -> nat {
        8 + self@.debug_data.len()
    }

    fn from_raw(raw: &RawFrame) -> (r: Option<GoawayFrame>)
        ensures
            match r {
                Some(frame) => spec_goaway_from_raw(raw@) == Some(frame@),
                None => spec_goaway_from_raw(raw@).is_none(),
            },
    {
        if !raw.is_consistent() {
            return None;
        }
        let (_len, frame_type, flags, stream_id) = raw.header();
        if frame_type != GOAWAY_FRAME_TYPE {
            return None;
        }
        if stream_id != 0x0 {
            return None;
        }
        let payload: &[u8] = raw.payload();
        if payload.len() < 8 {
            return None;
        }
        let last_stream_id: u32 = unpack_u32(payload, 0) % 0x8000_0000;
        let raw_error_code: u32 = unpack_u32(payload, 4);
        let rest: &[u8] = slice_subrange(payload, 8, payload.len());
        assert(rest@ =~= payload@.skip(8));
        Some(
            GoawayFrame { last_stream_id, raw_error_code, debug_data: slice_to_vec(rest), flags },
        )
    }

    fn is_set(&self, flag: NoFlag) -> (r: bool) {
        (flag.bitmask() & self.flags) != 0
    }

    fn get_stream_id(&self) -> (r: StreamId) {
        0
    }

    fn get_header(&self) -> (r: FrameHeader) {
        let len: u32 = 8 + self.debug_data.len() as u32;
        (len, GOAWAY_FRAME_TYPE, self.flags, 0)
    }
}

impl FrameIR for GoawayFrame {
    open spec fn serializable(&self) -> bool {
        self@.wf()
    }

    open spec fn wire(&self) -> Seq<u8> {
        self@.raw().wire()
    }

    /// The header, the id of the last stream, the error code, and the debug
    /// data.
    open spec fn pieces(&self) -> Seq<Seq<u8>> {
        seq![
            spec_pack_header(self.spec_header()),
            spec_u32_octets(self.last_stream_id % 0x8000_0000),
            spec_u32_octets(self.raw_error_code),
            self.debug_data@,
        ]
    }

    fn serialize_into<B: FrameBuilder>(self, builder: &mut B) -> (r: HttpResult<()>) {
        if !self.is_wf() {
            return Err(HttpError::MalformedFrame);
        }
        let ghost start = builder.written();
        let ghost all = self.pieces();
        assert(all.take(0) =~= Seq::<Seq<u8>>::empty());
        let ghost mid = *builder;
        let head = builder.write_header(self.get_header());
        proof {
            lemma_piece_written(*old(builder), all, 0, mid, head, *builder);
        }
        head?;
        let ghost mid = *builder;
        let last = builder.write_u32(self.last_stream_id % 0x8000_0000);
        proof {
            lemma_piece_written(*old(builder), all, 1, mid, last, *builder);
        }
        last?;
        let ghost mid = *builder;
        let code = builder.write_u32(self.raw_error_code);
        proof {
            lemma_piece_written(*old(builder), all, 2, mid, code, *builder);
        }
        code?;
        let ghost mid = *builder;
        let debug = builder.write_all(self.debug_data.as_slice());
        proof {
            lemma_piece_written(*old(builder), all, 3, mid, debug, *builder);
        }
        debug?;
        assert(builder.written() =~= start + self.wire());
        Ok(())
    }
}

/// A well-formed `GOAWAY` frame that is written out and parsed back is the
/// same frame.
pub proof fn lemma_goaway_round_trip(frame: GoawayFrameView)
    requires
        frame.wf(),
    ensures
        frame.raw().wf(),
        spec_raw_from_buf(frame.raw().wire()) == Some(frame.raw()),
        spec_goaway_from_raw(frame.raw()) == Some(frame),
{
    let raw = frame.raw();
    lemma_raw_frame_round_trip(raw);
    assert(raw.payload.subrange(0, 4) =~= spec_u32_octets(frame.last_stream_id));
    assert(raw.payload.subrange(4, 8) =~= spec_u32_octets(frame.raw_error_code));
    lemma_u32_round_trip(frame.last_stream_id, raw.payload, 0);
    lemma_u32_round_trip(frame.raw_error_code, raw.payload, 4);
    assert(raw.payload.skip(8) =~= frame.debug_data);
}

} // verus!
