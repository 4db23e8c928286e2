//! Implements the `WINDOW_UPDATE` HTTP/2 frame.

use vstd::prelude::*;
use crate::http::{HttpError, HttpResult, StreamId};
use crate::http::frame::{Flag, Frame, FrameBuilder, FrameHeader, FrameIR, RawFrame, RawFrameView, lemma_raw_frame_round_trip, spec_raw_from_buf, lemma_piece_written, spec_pack_header};
use crate::http::frame::goaway::NoFlag;
use crate::http::frame::octets::{lemma_u32_round_trip, spec_u32_at, spec_u32_octets, unpack_u32};

verus! {

/// The payload of a `WINDOW_UPDATE` frame is always 4 bytes.
pub const WINDOW_UPDATE_FRAME_LEN: u32 = 4;

/// The frame type of the `WINDOW_UPDATE` frame.
pub const WINDOW_UPDATE_FRAME_TYPE: u8 = 0x8;

/// A `WINDOW_UPDATE` frame: the sender can take that many more bytes, on
/// one stream or, with stream id zero, on the whole connection.
#[derive(Clone, Copy, Debug, PartialEq, Eq, Structural)]
pub struct WindowUpdateFrame {
    /// The id of the stream, or zero for the connection.
    pub stream_id: StreamId,
    /// The number of bytes by which the window grows.
    pub increment: u32,
    /// The flags byte of the frame.
    pub flags: u8,
}

/// The `WINDOW_UPDATE` frame that a raw frame holds: the type is
/// `WINDOW_UPDATE` and the payload is four bytes: the increment, without its
/// reserved bit, which must not be zero.
pub open spec fn spec_window_update_from_raw(raw: RawFrameView) -> Option<WindowUpdateFrame> {
    if !raw.wf() || raw.header.1 != WINDOW_UPDATE_FRAME_TYPE || raw.payload.len() != 4
        || spec_u32_at(raw.payload, 0) % 0x8000_0000 == 0 {
        None
    } else {
        Some(
            WindowUpdateFrame {
                stream_id: raw.header.3,
                increment: spec_u32_at(raw.payload, 0) % 0x8000_0000,
                flags: raw.header.2,
            },
        )
    }
}

impl WindowUpdateFrame {
    /// Creates a new `WINDOW_UPDATE` frame for the connection.
    pub fn for_connection(increment: u32) -> (r: WindowUpdateFrame)
        ensures
            r == (WindowUpdateFrame { stream_id: 0, increment, flags: 0 }),
    {
        WindowUpdateFrame { stream_id: 0, increment, flags: 0 }
    }

    /// Creates a new `WINDOW_UPDATE` frame for the given stream.
    pub fn for_stream(stream_id: StreamId, increment: u32) -> (r: WindowUpdateFrame)
        ensures
            r == (WindowUpdateFrame { stream_id, increment, flags: 0 }),
    {
        WindowUpdateFrame { stream_id, increment, flags: 0 }
    }

    /// Returns the number of bytes by which the window grows.
    pub fn increment(&self) -> (r: u32)
        ensures
            r == self.increment,
    {
        self.increment
    }

    /// The frame can stand on the wire: the stream id and the increment fit
    /// in 31 bits, and the increment is not zero.
    pub open spec fn spec_wf(&self) -> bool {
        self.stream_id < 0x8000_0000 && 0 < self.increment < 0x8000_0000
    }

    /// The raw frame that carries this frame.
    pub open spec fn spec_raw(&self) -> RawFrameView {
        RawFrameView {
            header: (
                WINDOW_UPDATE_FRAME_LEN,
                WINDOW_UPDATE_FRAME_TYPE,
                self.flags,
                self.stream_id,
            ),
            payload: spec_u32_octets(self.increment),
        }
    }
}

impl Frame for WindowUpdateFrame {
    type FlagType = NoFlag;

    open spec fn spec_flags(&self) -> u8 {
        self.flags
    }

    open spec fn spec_header(&self) -> FrameHeader {
        self.spec_raw().header
    }

    open spec fn spec_payload_len(&self) -> nat {
        4
    }

    fn from_raw(raw: &RawFrame) -> (r: Option<WindowUpdateFrame>)
        ensures
            r == spec_window_update_from_raw(raw@),
    {
        if !raw.is_consistent() {
            return None;
        }
        let (_len, frame_type, flags, stream_id) = raw.header();
        if frame_type != WINDOW_UPDATE_FRAME_TYPE {
            return None;
        }
        let payload: &[u8] = raw.payload();
        if payload.len() != 4 {
            return None;
        }
        let increment: u32 = unpack_u32(payload, 0) % 0x8000_0000;
        if increment == 0 {
            return None;
        }
        Some(WindowUpdateFrame { stream_id, increment, flags })
    }

    fn is_set(&self, flag: NoFlag) -> (r: bool) {
        (flag.bitmask() & self.flags) != 0
    }

    fn get_stream_id(&self) -> (r: StreamId) {
        self.stream_id
    }

    fn get_header(&self) -> (r: FrameHeader) {
        (WINDOW_UPDATE_FRAME_LEN, WINDOW_UPDATE_FRAME_TYPE, self.flags, self.stream_id)
    }
}

impl FrameIR for WindowUpdateFrame {
    open spec fn serializable(&self) -> bool {
        self.spec_wf()
    }

    open spec fn wire(&self) -> Seq<u8> {
        self.spec_raw().wire()
    }

    /// The header and the increment.
    open spec fn pieces(&self) -> Seq<Seq<u8>> {
        seq![spec_pack_header(self.spec_header()), spec_u32_octets(self.increment)]
    }

    fn serialize_into<B: FrameBuilder>(self, builder: &mut B) -> (r: HttpResult<()>) {
        if self.stream_id >= 0x8000_0000 || self.increment == 0 || self.increment >= 0x8000_0000 {
            return Err(HttpError::MalformedFrame);
        }
        let ghost start = builder.written();
        let ghost all = self.pieces();
        assert(all.take(0) =~= Seq::<Seq<u8>>::empty());
        let ghost mid = *builder;
        let head = builder.write_header(self.get_header());
        proof {
            lemma_piece_written(*old(builder), all, 0, mid, head, *builder);
        }
        head?;
        let ghost mid = *builder;
        let size = builder.write_u32(self.increment);
        proof {
            lemma_piece_written(*old(builder), all, 1, mid, size, *builder);
        }
        size?;
        assert(builder.written() =~= start + self.wire());
        Ok(())
    }
}

/// A well-formed `WINDOW_UPDATE` frame that is written out and parsed back
/// is the same frame.
pub proof fn lemma_window_update_round_trip(frame: WindowUpdateFrame)
    requires
        frame.spec_wf(),
    ensures
        frame.spec_raw().wf(),
        spec_raw_from_buf(frame.spec_raw().wire()) == Some(frame.spec_raw()),
        spec_window_update_from_raw(frame.spec_raw()) == Some(frame),
{
    let raw = frame.spec_raw();
    lemma_raw_frame_round_trip(raw);
    assert(raw.payload.subrange(0, 4) =~= raw.payload);
    lemma_u32_round_trip(frame.increment, raw.payload, 0);
}

} // verus!
