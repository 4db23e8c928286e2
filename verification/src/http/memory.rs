//! Senders, receivers and transports that work in memory: a buffer that
//! captures the frames that are sent, a queue of frames to receive, and a
//! transport over two byte buffers.

use vstd::prelude::*;
use vstd::slice::slice_to_vec;
use crate::http::{HttpError, HttpResult, TransportError};
use crate::http::connection::{
    ConnectionView, HttpConnection, HttpFrameView, ReceiveFrame, SendFrame, lemma_ping_answered,
    lemma_settings_acknowledged, next_frame_handled, raw_frame_handled, spec_frame_from_raw,
    spec_ping_ack_wire, spec_settings_ack_wire,
};
use crate::http::frame::ping::PingFrame;
use crate::http::frame::settings::SettingsFrameView;
use crate::http::session::SessionEvent;
use crate::http::frame::{
    FrameBuilder, FrameIR, RawFrame, RawFrameView, serialize_frame, spec_unpack_header,
};
use crate::http::transport::{TransportSender, TransportStream, frame_read, payload_read};

verus! {

/// A sender that keeps every frame that it is given, as the frame stands on
/// the wire.
pub struct FrameBuffer {
    /// The frames that were sent, oldest first.
    pub sent: Vec<Vec<u8>>,
}

impl FrameBuffer {
    /// Creates a new buffer without frames.
    pub fn new() -> (r: FrameBuffer)
        ensures
            r.sent@ == Seq::<Vec<u8>>::empty(),
            r.sent() == Seq::<Seq<u8>>::empty(),
    {
        let r = FrameBuffer { sent: Vec::new() };
        assert(r.sent() =~= Seq::<Seq<u8>>::empty());
        r
    }
}

impl SendFrame for FrameBuffer {
    open spec fn sent(&self) -> Seq<Seq<u8>> {
        Seq::new(self.sent@.len(), |i: int| self.sent@[i]@)
    }

    open spec fn reliable(&self) -> bool {
        true
    }

    /// The frame is kept as the last of those sent, and the frames before it
    /// stay.
    open spec fn handed_over(pre: Self, wire: Seq<u8>, r: HttpResult<()>, post: Self) -> bool {
        &&& r is Ok
        &&& post.sent@.len() == pre.sent@.len() + 1
        &&& post.sent@.drop_last() == pre.sent@
        &&& post.sent@.last()@ == wire
    }

    /// A frame that cannot stand on the wire is refused as malformed; any
    /// other is kept.
    fn send_frame<F: FrameIR>(&mut self, frame: F) -> (r: HttpResult<()>)
        ensures
            r is Ok == frame.serializable(),
            r matches Err(e) ==> e is MalformedFrame,
    {
        match serialize_frame(frame) {
            None => Err(HttpError::MalformedFrame),
            Some(bytes) => {
                self.sent.push(bytes);
                assert(self.sent@.drop_last() =~= old(self).sent@);
                assert(self.sent() =~= old(self).sent().push(frame.wire()));
                Ok(())
            },
        }
    }
}

/// A builder with room for a limited number of bytes. A write that does not
/// fit fails, and leaves the builder as it is.
pub struct BoundedBuffer {
    /// The bytes that were written.
    pub bytes: Vec<u8>,
    /// The number of bytes for which the builder has room in all.
    pub limit: usize,
}

impl BoundedBuffer {
    /// Creates a new builder without bytes, with room for `limit` bytes.
    pub fn new(limit: usize) -> (r: BoundedBuffer)
        ensures
            r.bytes@ == Seq::<u8>::empty(),
            r.limit == limit,
    {
        BoundedBuffer { bytes: Vec::new(), limit }
    }
}

impl FrameBuilder for BoundedBuffer {
    open spec fn written(&self) -> Seq<u8> {
        self.bytes@
    }

    open spec fn fallible(&self) -> bool {
        true
    }

    /// Bytes that fit are added at the end. For bytes that do not fit, the
    /// write fails with an I/O error and nothing changes.
    open spec fn wrote(pre: Self, buf: Seq<u8>, r: HttpResult<()>, post: Self) -> bool {
        if pre.bytes@.len() + buf.len() <= pre.limit {
            r is Ok && post.limit == pre.limit && post.bytes@ == pre.bytes@ + buf
        } else {
            (r matches Err(e) && e is IoError) && post == pre
        }
    }

    fn write_all(&mut self, buf: &[u8]) -> (r: HttpResult<()>) {
        if self.bytes.len() > self.limit || buf.len() > self.limit - self.bytes.len() {
            return Err(HttpError::IoError(TransportError { detail: "no room".to_owned() }));
        }
        self.bytes.extend_from_slice(buf);
        assert(self.bytes@ =~= old(self).bytes@ + buf@);
        Ok(())
    }
}

/// A receiver that hands out the frames of a queue, oldest first.
pub struct FrameQueue {
    /// The frames that are still to be received, oldest first.
    pub frames: Vec<RawFrame>,
}

impl FrameQueue {
    /// Creates a new queue that hands out the given frames, in order.
    pub fn new(frames: Vec<RawFrame>) -> (r: FrameQueue)
        ensures
            r.frames == frames,
    {
        FrameQueue { frames }
    }

    /// Returns the number of frames that are still to be received.
    pub fn len(&self) -> (r: usize)
        ensures
            r == self.frames@.len(),
    {
        self.frames.len()
    }
}

impl ReceiveFrame for FrameQueue {
    /// The first frame of the queue is taken out and given. An empty queue
    /// gives an I/O error and stays as it is.
    open spec fn received(pre: Self, r: HttpResult<RawFrameView>, post: Self) -> bool {
        if pre.frames@.len() == 0 {
            (r matches Err(e) && e is IoError) && post == pre
        } else {
            r == Ok::<RawFrameView, HttpError>(pre.frames@[0]@) && post.frames@
                == pre.frames@.skip(1)
        }
    }

    fn recv_frame(&mut self) -> (r: HttpResult<RawFrame>) {
        if self.frames.len() == 0 {
            return Err(
                HttpError::IoError(TransportError { detail: "no frame to receive".to_owned() }),
            );
        }
        let raw: RawFrame = self.frames.remove(0);
        assert(self.frames@ =~= old(self).frames@.skip(1));
        Ok(raw)
    }
}

/// A transport over two byte buffers: what is received is taken from
/// `input`, and what is sent is added to `output`.
pub struct MemoryTransport {
    /// The bytes that are still to be received.
    pub input: Vec<u8>,
    /// The bytes that were sent.
    pub output: Vec<u8>,
}

impl MemoryTransport {
    /// Creates a new transport that receives the given bytes and has sent
    /// nothing.
    pub fn new(input: Vec<u8>) -> (r: MemoryTransport)
        ensures
            r.input == input,
            r.output@ == Seq::<u8>::empty(),
    {
        MemoryTransport { input, output: Vec::new() }
    }
}

impl TransportStream for MemoryTransport {
    open spec fn reliable(&self) -> bool {
        true
    }

    /// The bytes are added to the output.
    open spec fn wrote(pre: Self, bytes: Seq<u8>, r: HttpResult<()>, post: Self) -> bool {
        r is Ok && post.input == pre.input && post.output@ == pre.output@ + bytes
    }

    /// The first `len` bytes of the input are taken out and given. An input
    /// of fewer bytes gives an I/O error and stays as it is.
    open spec fn read(pre: Self, len: nat, r: HttpResult<Seq<u8>>, post: Self) -> bool {
        if pre.input@.len() < len {
            (r matches Err(e) && e is IoError) && post == pre
        } else {
            &&& r == Ok::<Seq<u8>, HttpError>(pre.input@.take(len as int))
            &&& post.input@ == pre.input@.skip(len as int)
            &&& post.output == pre.output
        }
    }

    /// The other handle has the same input and has sent nothing.
    open spec fn split(this: Self, r: HttpResult<Self>) -> bool {
        r matches Ok(other) && other.input@ == this.input@ && other.output@ == Seq::<u8>::empty()
    }

    fn send_bytes(&mut self, buf: &[u8]) -> (r: HttpResult<()>) {
        self.output.extend_from_slice(buf);
        assert(self.output@ =~= old(self).output@ + buf@);
        Ok(())
    }

    fn recv_exact(&mut self, len: usize) -> (r: HttpResult<Vec<u8>>) {
        if self.input.len() < len {
            return Err(
                HttpError::IoError(TransportError { detail: "not enough bytes".to_owned() }),
            );
        }
        let rest: Vec<u8> = self.input.split_off(len);
        let taken: Vec<u8> = slice_to_vec(self.input.as_slice());
        assert(taken@ =~= old(self).input@.take(len as int));
        assert(rest@ =~= old(self).input@.skip(len as int));
        self.input = rest;
        Ok(taken)
    }

    fn try_split(&self) -> (r: HttpResult<Self>) {
        Ok(MemoryTransport { input: slice_to_vec(self.input.as_slice()), output: Vec::new() })
    }
}

/// The raw frame at the start of the bytes, if the bytes start with a
/// whole frame: nine bytes of header, and the payload that the header
/// announces.
pub open spec fn spec_first_frame(input: Seq<u8>) -> Option<RawFrameView> {
    if input.len() >= 9 && input.len() >= 9 + spec_unpack_header(input.take(9)).0 {
        Some(
            RawFrameView {
                header: spec_unpack_header(input.take(9)),
                payload: input.skip(9).take(spec_unpack_header(input.take(9)).0 as int),
            },
        )
    } else {
        None
    }
}

/// Reading a frame from a transport in memory gives the frame at the start
/// of its input, and fails where the input does not start with a whole
/// frame.
pub proof fn lemma_memory_frame_read(
    source: MemoryTransport,
    received: HttpResult<RawFrameView>,
    after: MemoryTransport,
)
    requires
        frame_read(source, received, after),
    ensures
        match spec_first_frame(source.input@) {
            Some(raw) => received == Ok::<RawFrameView, HttpError>(raw),
            None => received is Err,
        },
{
    let input = source.input@;
    let (head, mid) = choose|head: HttpResult<Seq<u8>>, mid: MemoryTransport|
        {
            &&& #[trigger] MemoryTransport::read(source, 9, head, mid)
            &&& match head {
                Err(e) => received == Err::<RawFrameView, HttpError>(e) && after == mid,
                Ok(head) => head.len() == 9 && payload_read(
                    mid,
                    spec_unpack_header(head),
                    received,
                    after,
                ),
            }
        };
    if input.len() >= 9 {
        let header = spec_unpack_header(input.take(9));
        let payload = choose|payload: HttpResult<Seq<u8>>|
            {
                &&& #[trigger] MemoryTransport::read(mid, header.0 as nat, payload, after)
                &&& match payload {
                    Err(e) => received == Err::<RawFrameView, HttpError>(e),
                    Ok(payload) => received == Ok::<RawFrameView, HttpError>(
                        RawFrameView { header, payload },
                    ),
                }
            };
    }
}

/// A connection over a transport in memory that sends a frame does not
/// fail, and adds the bytes of the frame, and nothing else, to the output of
/// the transport.
pub proof fn lemma_memory_frame_written(
    pre: ConnectionView<TransportSender<MemoryTransport>>,
    wire: Seq<u8>,
    r: HttpResult<()>,
    post: ConnectionView<TransportSender<MemoryTransport>>,
)
    requires
        pre.frame_sent(wire, r, post),
    ensures
        r is Ok,
        post.sender.ts.output@ == pre.sender.ts.output@ + wire,
        post.sender.ts.input == pre.sender.ts.input,
        post == (ConnectionView { sender: post.sender, ..pre }),
{
}

/// A connection over a queue of frames and a buffer acknowledges the
/// settings of the peer before it returns from handling them: where the
/// first frame of the queue is a `SETTINGS` frame without ACK, handling the
/// next frame goes well, takes that frame out of the queue, and adds
/// exactly one frame to those sent, the acknowledgement.
pub proof fn lemma_memory_settings_acknowledged(
    pre: HttpConnection<FrameBuffer, FrameQueue>,
    frame: SettingsFrameView,
    r: HttpResult<()>,
    post: HttpConnection<FrameBuffer, FrameQueue>,
    told: Seq<SessionEvent>,
)
    requires
        next_frame_handled(pre, r, post, told),
        pre.receiver.frames@.len() > 0,
        spec_frame_from_raw(pre.receiver.frames@[0]@) == Some(HttpFrameView::SettingsFrame(frame)),
        !frame.is_ack(),
    ensures
        r is Ok,
        told == Seq::<SessionEvent>::empty(),
        post.receiver.frames@ == pre.receiver.frames@.skip(1),
        post.sender.sent() == pre.sender.sent().push(spec_settings_ack_wire()),
{
    let received = choose|received: HttpResult<RawFrameView>|
        {
            &&& #[trigger] FrameQueue::received(pre.receiver, received, post.receiver)
            &&& match received {
                Ok(raw) => raw_frame_handled(pre@, raw, r, post@, told),
                Err(e) => r == Err::<(), HttpError>(e) && post@ == pre@.closed() && told == Seq::<
                    SessionEvent,
                >::empty(),
            }
        };
    lemma_settings_acknowledged(pre@, frame, r, post@, told);
}

/// A connection over a queue of frames and a buffer answers a ping before
/// it returns from handling it: where the first frame of the queue is a
/// `PING` frame without ACK, handling the next frame goes well, takes that
/// frame out of the queue, and adds exactly one frame to those sent, a
/// `PING` frame with ACK and the same opaque data.
pub proof fn lemma_memory_ping_answered(
    pre: HttpConnection<FrameBuffer, FrameQueue>,
    frame: PingFrame,
    r: HttpResult<()>,
    post: HttpConnection<FrameBuffer, FrameQueue>,
    told: Seq<SessionEvent>,
)
    requires
        next_frame_handled(pre, r, post, told),
        pre.receiver.frames@.len() > 0,
        spec_frame_from_raw(pre.receiver.frames@[0]@) == Some(HttpFrameView::PingFrame(frame)),
        !frame.spec_is_ack(),
    ensures
        r is Ok,
        told == Seq::<SessionEvent>::empty(),
        post.receiver.frames@ == pre.receiver.frames@.skip(1),
        post.sender.sent() == pre.sender.sent().push(spec_ping_ack_wire(frame.opaque_data)),
{
    let received = choose|received: HttpResult<RawFrameView>|
        {
            &&& #[trigger] FrameQueue::received(pre.receiver, received, post.receiver)
            &&& match received {
                Ok(raw) => raw_frame_handled(pre@, raw, r, post@, told),
                Err(e) => r == Err::<(), HttpError>(e) && post@ == pre@.closed() && told == Seq::<
                    SessionEvent,
                >::empty(),
            }
        };
    lemma_ping_answered(pre@, frame, r, post@, told);
}

} // verus!
