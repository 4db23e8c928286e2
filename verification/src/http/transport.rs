//! The transport under a connection: a duplex byte stream, and the sender
//! and the receiver of frames that work on one.

use vstd::prelude::*;
use crate::http::{HttpError, HttpResult};
use crate::http::connection::{ReceiveFrame, SendFrame};
use crate::http::frame::{
    FrameHeader, FrameIR, RawFrame, RawFrameView, serialize_frame, spec_unpack_header, unpack_header,
};

verus! {

/// The model of what a read from a transport gives.
pub open spec fn spec_bytes_result(r: HttpResult<Vec<u8>>) -> HttpResult<Seq<u8>> {
    match r {
        Ok(bytes) => Ok(bytes@),
        Err(e) => Err(e),
    }
}

/// A duplex byte stream that can be split into a half that sends and a half
/// that receives.
pub trait TransportStream: Sized {
    /// Whether the stream takes all bytes that are sent on it.
    spec fn reliable(&self) -> bool;

    /// Whether a call of `send_bytes` with `bytes` may turn the stream
    /// `pre` into `post` and give `r`.
    spec fn wrote(pre: Self, bytes: Seq<u8>, r: HttpResult<()>, post: Self) -> bool;

    /// Whether a call of `recv_exact` for `len` bytes may turn the stream
    /// `pre` into `post` and give `r`.
    spec fn read(pre: Self, len: nat, r: HttpResult<Seq<u8>>, post: Self) -> bool;

    /// Whether a call of `try_split` on the stream `this` may give `r`.
    spec fn split(this: Self, r: HttpResult<Self>) -> bool;

    /// Sends all of the bytes.
    fn send_bytes(&mut self, buf: &[u8]) -> (r: HttpResult<()>)
        ensures
            final(self).reliable() == old(self).reliable(),
            old(self).reliable() ==> r is Ok,
            Self::wrote(*old(self), buf@, r, *final(self)),
    ;

    /// Receives exactly `len` bytes.
    fn recv_exact(&mut self, len: usize) -> (r: HttpResult<Vec<u8>>)
        ensures
            r matches Ok(bytes) ==> bytes@.len() == len,
            Self::read(*old(self), len as nat, spec_bytes_result(r), *final(self)),
    ;

    /// Returns another handle on the same stream, so that one handle can
    /// send while the other receives.
    fn try_split(&self) -> (r: HttpResult<Self>)
        ensures
            Self::split(*self, r),
    ;
}

/// A sender of frames that serializes each frame and writes it to a
/// transport.
pub struct TransportSender<TS: TransportStream> {
    /// The transport that the frames are written to.
    pub ts: TS,
    /// The frames that were written, each as it stands on the wire.
    pub log: Ghost<Seq<Seq<u8>>>,
}

impl<TS: TransportStream> TransportSender<TS> {
    /// Creates a new sender on the given transport. Nothing has been sent.
    pub fn new(ts: TS) -> (r: TransportSender<TS>)
        ensures
            r.ts == ts,
            r.sent() == Seq::<Seq<u8>>::empty(),
    {
        TransportSender { ts, log: Ghost(Seq::empty()) }
    }
}

impl<TS: TransportStream> SendFrame for TransportSender<TS> {
    open spec fn sent(&self) -> Seq<Seq<u8>> {
        self.log@
    }

    open spec fn reliable(&self) -> bool {
        self.ts.reliable()
    }

    /// The frame is written to the transport in one piece, and is recorded
    /// where the transport has taken it.
    open spec fn handed_over(pre: Self, wire: Seq<u8>, r: HttpResult<()>, post: Self) -> bool {
        &&& TS::wrote(pre.ts, wire, r, post.ts)
        &&& post.log@ == (if r is Ok {
            pre.log@.push(wire)
        } else {
            pre.log@
        })
    }

    /// A frame that cannot stand on the wire is refused as malformed and the
    /// transport is not touched; any other is written to the transport in
    /// one piece, and an error of the transport is handed on.
    fn send_frame<F: FrameIR>(&mut self, frame: F) -> (r: HttpResult<()>)
        ensures
            !frame.serializable() ==> (r matches Err(e) && e is MalformedFrame),
    {
        let ghost wire = frame.wire();
        match serialize_frame(frame) {
            None => Err(HttpError::MalformedFrame),
            Some(bytes) => {
                let r = self.ts.send_bytes(bytes.as_slice());
                if r.is_ok() {
                    self.log = Ghost(self.log@.push(wire));
                }
                r
            },
        }
    }
}

/// A receiver of frames that reads each frame from a transport: nine bytes
/// of header, and as many bytes of payload as the header says.
pub struct TransportReceiveFrame<TS: TransportStream> {
    /// The transport that the frames are read from.
    pub ts: TS,
}

impl<TS: TransportStream> TransportReceiveFrame<TS> {
    /// Creates a new receiver on the given transport.
    pub fn new(ts: TS) -> (r: TransportReceiveFrame<TS>)
        ensures
            r.ts == ts,
    {
        TransportReceiveFrame { ts }
    }
}

/// Whether reading the payload of a frame with the given header may turn
/// the transport `pre` into `post` and give `r`: as many bytes as the header
/// says are read, and an error of the transport is handed on.
pub open spec fn payload_read<TS: TransportStream>(
    pre: TS,
    header: FrameHeader,
    r: HttpResult<RawFrameView>,
    post: TS,
) -> bool {
    exists|payload: HttpResult<Seq<u8>>|
        {
            &&& #[trigger] TS::read(pre, header.0 as nat, payload, post)
            &&& match payload {
                Err(e) => r == Err::<RawFrameView, HttpError>(e),
                Ok(payload) => r == Ok::<RawFrameView, HttpError>(
                    RawFrameView { header, payload },
                ),
            }
        }
}

/// Whether reading one frame may turn the transport `pre` into `post` and
/// give `r`: nine bytes are read and unpacked as a frame header, and the
/// payload is read; an error of the transport at the first read is handed
/// on.
pub open spec fn frame_read<TS: TransportStream>(
    pre: TS,
    r: HttpResult<RawFrameView>,
    post: TS,
) -> bool {
    exists|head: HttpResult<Seq<u8>>, mid: TS|
        {
            &&& #[trigger] TS::read(pre, 9, head, mid)
            &&& match head {
                Err(e) => r == Err::<RawFrameView, HttpError>(e) && post == mid,
                Ok(head) => head.len() == 9 && payload_read(
                    mid,
                    spec_unpack_header(head),
                    r,
                    post,
                ),
            }
        }
}

impl<TS: TransportStream> ReceiveFrame for TransportReceiveFrame<TS> {
    open spec fn received(pre: Self, r: HttpResult<RawFrameView>, post: Self) -> bool {
        frame_read(pre.ts, r, post.ts)
    }

    fn recv_frame(&mut self) -> (r: HttpResult<RawFrame>)
        ensures
            r matches Ok(raw) ==> raw@.wf(),
    {
        let head = self.ts.recv_exact(9);
        let ghost head_view = spec_bytes_result(head);
        let ghost mid = self.ts;
        match head {
            Err(e) => {
                proof {
                    assert(TS::read(old(self).ts, 9, head_view, mid));
                }
                Err(e)
            },
            Ok(bytes) => {
                let buf: [u8; 9] = [
                    bytes[0],
                    bytes[1],
                    bytes[2],
                    bytes[3],
                    bytes[4],
                    bytes[5],
                    bytes[6],
                    bytes[7],
                    bytes[8],
                ];
                assert(buf@ =~= bytes@);
                let header: FrameHeader = unpack_header(&buf);
                let payload = self.ts.recv_exact(header.0 as usize);
                let ghost payload_view = spec_bytes_result(payload);
                proof {
                    assert(TS::read(old(self).ts, 9, head_view, mid));
                    assert(TS::read(mid, header.0 as nat, payload_view, self.ts));
                }
                match payload {
                    Err(e) => Err(e),
                    Ok(payload) => Ok(RawFrame { header, payload }),
                }
            },
        }
    }
}

} // verus!
