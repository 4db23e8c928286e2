//! Implements the `RST_STREAM` HTTP/2 frame.

use vstd::prelude::*;
use crate::http::{HttpError, HttpResult, StreamId};
use crate::http::frame::{Flag, Frame, FrameBuilder, FrameHeader, FrameIR, RawFrame, RawFrameView, lemma_raw_frame_round_trip, spec_raw_from_buf, lemma_piece_written, spec_pack_header};
use crate::http::frame::goaway::NoFlag;
use crate::http::frame::octets::{lemma_u32_round_trip, spec_u32_at, spec_u32_octets, unpack_u32};

verus! {

/// The payload of an `RST_STREAM` frame is always 4 bytes.
pub const RST_STREAM_FRAME_LEN: u32 = 4;

/// The frame type of the `RST_STREAM` frame.
pub const RST_STREAM_FRAME_TYPE: u8 = 0x3;

/// An `RST_STREAM` frame: one stream is ended at once.
#[derive(Clone, Copy, Debug, PartialEq, Eq, Structural)]
pub struct RstStreamFrame {
    /// The error code, as it stands on the wire.
    pub raw_error_code: u32,
    /// The id of the stream that is reset.
    pub stream_id: StreamId,
    /// The flags byte of the frame.
    pub flags: u8,
}

/// The `RST_STREAM` frame that a raw frame holds: the type is `RST_STREAM`,
/// the stream id is not zero and the payload is the four bytes of the error
/// code.
pub open spec fn spec_rst_stream_from_raw(raw: RawFrameView) -> Option<RstStreamFrame> {
    if !raw.wf() || raw.header.1 != RST_STREAM_FRAME_TYPE || raw.header.3 == 0
        || raw.payload.len() != 4 {
        None
    } else {
        Some(
            RstStreamFrame {
                raw_error_code: spec_u32_at(raw.payload, 0),
                stream_id: raw.header.3,
                flags: raw.header.2,
            },
        )
    }
}

impl RstStreamFrame {
    /// Creates a new `RST_STREAM` frame for the given stream, with the given
    /// error code.
    pub fn new(stream_id: StreamId, raw_error_code: u32) -> (r: RstStreamFrame)
        ensures
            r == (RstStreamFrame { raw_error_code, stream_id, flags: 0 }),
    {
        RstStreamFrame { raw_error_code, stream_id, flags: 0 }
    }

    /// Returns the error code, as it stands on the wire.
    pub fn raw_error_code(&self) -> (r: u32)
        ensures
            r == self.raw_error_code,
    {
        self.raw_error_code
    }

    /// The frame can stand on the wire: it belongs to a stream.
    pub open spec fn spec_wf(&self) -> bool {
        0 < self.stream_id < 0x8000_0000
    }

    /// The raw frame that carries this frame.
    pub open spec fn spec_raw(&self) -> RawFrameView {
        RawFrameView {
            header: (RST_STREAM_FRAME_LEN, RST_STREAM_FRAME_TYPE, self.flags, self.stream_id),
            payload: spec_u32_octets(self.raw_error_code),
        }
    }
}

impl Frame for RstStreamFrame {
    type FlagType = NoFlag;

    open spec fn spec_flags(&self) -> u8 {
        self.flags
    }

    open spec fn spec_header(&self) -> FrameHeader {
        self.spec_raw().header
    }

    open spec fn spec_payload_len(&self) -> nat {
        4
    }

    fn from_raw(raw: &RawFrame) -> (r: Option<RstStreamFrame>)
        ensures
            r == spec_rst_stream_from_raw(raw@),
    {
        if !raw.is_consistent() {
            return None;
        }
        let (_len, frame_type, flags, stream_id) = raw.header();
        if frame_type != RST_STREAM_FRAME_TYPE {
            return None;
        }
        if stream_id == 0x0 {
            return None;
        }
        let payload: &[u8] = raw.payload();
        if payload.len() != 4 {
            return None;
        }
        Some(RstStreamFrame { raw_error_code: unpack_u32(payload, 0), stream_id, flags })
    }

    fn is_set(&self, flag: NoFlag) -> (r: bool) {
        (flag.bitmask() & self.flags) != 0
    }

    fn get_stream_id(&self) -> (r: StreamId) {
        self.stream_id
    }

    fn get_header(&self) -> (r: FrameHeader) {
        (RST_STREAM_FRAME_LEN, RST_STREAM_FRAME_TYPE, self.flags, self.stream_id)
    }
}

impl FrameIR for RstStreamFrame {
    open spec fn serializable(&self) -> bool {
        self.spec_wf()
    }

    open spec fn wire(&self) -> Seq<u8> {
        self.spec_raw().wire()
    }

    /// The header and the error code.
    open spec fn pieces(&self) -> Seq<Seq<u8>> {
        seq![spec_pack_header(self.spec_header()), spec_u32_octets(self.raw_error_code)]
    }

    fn serialize_into<B: FrameBuilder>(self, builder: &mut B) -> (r: HttpResult<()>) {
        if self.stream_id == 0 || self.stream_id >= 0x8000_0000 {
            return Err(HttpError::MalformedFrame);
        }
        let ghost start = builder.written();
        let ghost all = self.pieces();
        assert(all.take(0) =~= Seq::<Seq<u8>>::empty());
        let ghost mid = *builder;
        let head = builder.write_header(self.get_header());
        proof {
            lemma_piece_written(*old(builder), all, 0, mid, head, *builder);
        }
        head?;
        let ghost mid = *builder;
        let code = builder.write_u32(self.raw_error_code);
        proof {
            lemma_piece_written(*old(builder), all, 1, mid, code, *builder);
        }
        code?;
        assert(builder.written() =~= start + self.wire());
        Ok(())
    }
}

/// A well-formed `RST_STREAM` frame that is written out and parsed back is
/// the same frame.
pub proof fn lemma_rst_stream_round_trip(frame: RstStreamFrame)
    requires
        frame.spec_wf(),
    ensures
        frame.spec_raw().wf(),
        spec_raw_from_buf(frame.spec_raw().wire()) == Some(frame.spec_raw()),
        spec_rst_stream_from_raw(frame.spec_raw()) == Some(frame),
{
    let raw = frame.spec_raw();
    lemma_raw_frame_round_trip(raw);
    assert(raw.payload.subrange(0, 4) =~= raw.payload);
    lemma_u32_round_trip(frame.raw_error_code, raw.payload, 0);
}

} // verus!
