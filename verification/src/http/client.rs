//! The module contains a number of reusable components for implementing the
//! client side of an HTTP/2 connection.

use vstd::prelude::*;
use crate::http::{
    Header, HttpError, HttpResult, HttpScheme, MessageView, Request, Response, StreamId,
    client_preface,
};
use crate::http::connection::{
    ConnectionView, EndStream, HttpConnection, ReceiveFrame, SendFrame, data_sent, headers_sent,
    is_settings_preface, lemma_preface_accepted, next_frame_handled, next_settings_expected,
    settings_expected, spec_settings_wire,
};
use crate::http::frame::{FrameIR, RawFrameView};
use crate::http::frame::settings::SettingsFrame;
use crate::http::memory::{FrameBuffer, FrameQueue};
use crate::http::session::{
    DefaultSessionState, DefaultStream, DefaultStreamView, Session, SessionEvent, SessionState, Stream, StreamEvent,
    StreamState, closed_streams, has_id, ids_unique, is_first, lemma_closed_remote_stays,
    lemma_end_of_stream_flags, lemma_move_keeps_ids_unique, lemma_not_first_without_id,
    lemma_step_keeps_ids_unique, live_streams, session_run, stream_moved, stream_stepped,
};

verus! {

/// Returns the bytes with which a client opens a connection: the client
/// preface, and after it the settings of the client, a `SETTINGS` frame
/// without settings and without ACK.
pub fn client_hello() -> (r: Vec<u8>)
    ensures
        r@ == client_preface() + spec_settings_wire(),
{
    let preface: [u8; 24] = [
        0x50, 0x52, 0x49, 0x20, 0x2a, 0x20, 0x48, 0x54, 0x54, 0x50, 0x2f, 0x32, 0x2e, 0x30, 0x0d,
        0x0a, 0x0d, 0x0a, 0x53, 0x4d, 0x0d, 0x0a, 0x0d, 0x0a,
    ];
    assert(preface@ =~= client_preface());
    let mut out: Vec<u8> = Vec::new();
    out.extend_from_slice(preface.as_slice());
    assert(out@ =~= client_preface());
    let frame = SettingsFrame::new();
    assert(frame.wire() == spec_settings_wire());
    let written = frame.serialize_into(&mut out);
    assert(written is Ok);
    out
}

/// Whether sending a request may turn the connection `pre` into `post` and
/// give `r`: the headers are sent, with `END_STREAM` where the body is
/// empty; where that has gone well and there is a body, the body is sent as
/// one `DATA` frame with `END_STREAM`.
pub open spec fn request_sent<S: SendFrame>(
    pre: ConnectionView<S>,
    stream_id: StreamId,
    headers: Seq<(Seq<u8>, Seq<u8>)>,
    body: Seq<u8>,
    r: HttpResult<()>,
    post: ConnectionView<S>,
) -> bool {
    if body.len() == 0 {
        headers_sent(pre, headers, stream_id, EndStream::Yes, r, post)
    } else {
        exists|first: HttpResult<()>, mid: ConnectionView<S>|
            {
                &&& #[trigger] headers_sent(pre, headers, stream_id, EndStream::No, first, mid)
                &&& if first is Err {
                    r == first && post == mid
                } else {
                    data_sent(mid, body, stream_id, EndStream::Yes, r, post)
                }
            }
    }
}

/// The ids of the streams that a client starts: odd numbers, each larger
/// than the one before, up to the largest that fits in 31 bits.
pub struct ClientStreamIds {
    /// The id that the next stream gets.
    pub next: StreamId,
}

impl ClientStreamIds {
    /// Whether the next id is one that a client may give: odd.
    pub open spec fn wf(&self) -> bool {
        self.next % 2 == 1
    }

    /// Creates the ids of a new connection. The first stream gets the id 1.
    pub fn new() -> (r: ClientStreamIds)
        ensures
            r.next == 1,
            r.wf(),
    {
        ClientStreamIds { next: 1 }
    }

    /// Returns the id for the next stream, or `None` where the ids of the
    /// connection are used up or the next id is not odd.
    pub fn allocate(&mut self) -> (r: Option<StreamId>)
        ensures
            match r {
                Some(id) => {
                    &&& old(self).wf()
                    &&& id == old(self).next
                    &&& id % 2 == 1
                    &&& 0 < id < 0x8000_0000
                    &&& final(self).next == id + 2
                    &&& final(self).wf()
                },
                None => {
                    &&& !(old(self).wf() && old(self).next < 0x8000_0000)
                    &&& *final(self) == *old(self)
                },
            },
    {
        if self.next % 2 != 1 || self.next >= 0x8000_0000 {
            return None;
        }
        let id: StreamId = self.next;
        self.next = id + 2;
        Some(id)
    }
}

/// Whether `post` is `pre` after a stream with the given id was created in
/// a session: where `pre` holds a stream with the id, nothing has changed;
/// otherwise a new open stream with the id stands at the end.
pub open spec fn stream_added<St: Stream>(pre: Seq<St>, id: StreamId, post: Seq<St>) -> bool {
    if has_id(pre, id) {
        post == pre
    } else {
        &&& post.len() == pre.len() + 1
        &&& post.drop_last() == pre
        &&& post.last().spec_id() == id
        &&& post.last().spec_state() == StreamState::Open
        &&& St::created(post.last())
    }
}

/// Whether starting a request may turn the ids `pre_ids`, the connection
/// `pre` and the streams `pre_streams` of a client into `post_ids`, `post`
/// and `post_streams` and give `r`. Where the ids are used up, or the next
/// id is not odd, this is a protocol error and nothing happens. Otherwise
/// the request gets the next id, the ids move on by two, a stream with the
/// id is created in the session, and the request is sent on it; the id is
/// returned where that has gone well, and the error of the sending where it
/// has not.
pub open spec fn request_started<S: SendFrame, St: Stream>(
    pre_ids: ClientStreamIds,
    pre: ConnectionView<S>,
    pre_streams: Seq<St>,
    headers: Seq<(Seq<u8>, Seq<u8>)>,
    body: Seq<u8>,
    r: HttpResult<StreamId>,
    post_ids: ClientStreamIds,
    post: ConnectionView<S>,
    post_streams: Seq<St>,
) -> bool {
    if !(pre_ids.wf() && pre_ids.next < 0x8000_0000) {
        &&& r matches Err(e) && e is ProtocolError
        &&& post_ids == pre_ids
        &&& post == pre
        &&& post_streams == pre_streams
    } else {
        &&& post_ids.next == pre_ids.next + 2
        &&& stream_added(pre_streams, pre_ids.next, post_streams)
        &&& exists|sent: HttpResult<()>|
            {
                &&& #[trigger] request_sent(pre, pre_ids.next, headers, body, sent, post)
                &&& match sent {
                    Ok(_) => r == Ok::<StreamId, HttpError>(pre_ids.next),
                    Err(e) => r == Err::<StreamId, HttpError>(e),
                }
            }
    }
}

/// The response that a stream holds: the headers that arrived last, or no
/// headers where none arrived, and the body that has arrived.
pub open spec fn spec_response_of(stream: DefaultStreamView) -> MessageView {
    MessageView {
        stream_id: stream.stream_id,
        headers: match stream.headers {
            Some(headers) => headers,
            None => Seq::empty(),
        },
        body: stream.body,
    }
}

/// The struct extends the `HttpConnection` API with client-specific methods
/// (such as `send_request`) and wires the `HttpConnection` to the client
/// `Session` callbacks.
pub struct ClientConnection<S: SendFrame, R: ReceiveFrame, Sess: Session> {
    /// The underlying `HttpConnection` that will be used for any HTTP/2
    /// communication.
    pub conn: HttpConnection<S, R>,
    /// The `Session` associated with this connection. It is essentially a
    /// set of callbacks that are triggered by the connection when different
    /// states in the HTTP/2 communication arise.
    pub session: Sess,
}

impl<S: SendFrame, R: ReceiveFrame, Sess: Session> ClientConnection<S, R, Sess> {
    /// Creates a new `ClientConnection` that will use the given
    /// `HttpConnection` for all its underlying HTTP/2 communication.
    ///
    /// The given `session` instance will receive all events that arise from
    /// reading frames from the underlying HTTP/2 connection.
    pub fn with_connection(conn: HttpConnection<S, R>, session: Sess) -> (r: ClientConnection<
        S,
        R,
        Sess,
    >)
        ensures
            r.conn == conn,
            r.session == session,
    {
        ClientConnection { conn, session }
    }

    /// Returns the scheme of the underlying `HttpConnection`.
    pub fn scheme(&self) -> (r: HttpScheme)
        ensures
            r == self.conn.scheme,
    {
        self.conn.scheme
    }

    /// Performs the initialization of the `ClientConnection`.
    ///
    /// This means that it expects the next frame that it receives to be the
    /// server preface, i.e. a `SETTINGS` frame without ACK, and handles it.
    /// Any other frame is a preamble mismatch.
    pub fn init(&mut self) -> (r: HttpResult<()>)
        ensures
            exists|told: Seq<SessionEvent>|
                {
                    &&& #[trigger] next_settings_expected(old(self).conn, r, final(self).conn, told)
                    &&& session_run(old(self).session, told, final(self).session)
                },
    {
        self.read_preface()
    }

    /// Reads and handles the server preface from the underlying HTTP/2
    /// connection.
    ///
    /// According to the HTTP/2 spec, a server preface consists of a single
    /// settings frame.
    fn read_preface(&mut self) -> (r: HttpResult<()>)
        ensures
            exists|told: Seq<SessionEvent>|
                {
                    &&& #[trigger] next_settings_expected(old(self).conn, r, final(self).conn, told)
                    &&& session_run(old(self).session, told, final(self).session)
                },
    {
        self.conn.expect_settings(&mut self.session)
    }

    /// A method that sends the given `Request` to the server.
    ///
    /// The headers go out as one `HEADERS` frame and the body, where there
    /// is one, as one `DATA` frame that ends the stream.
    pub fn send_request(&mut self, req: Request) -> (r: HttpResult<()>)
        ensures
            final(self).session == old(self).session,
            final(self).conn.receiver == old(self).conn.receiver,
            request_sent(
                old(self).conn@,
                req.stream_id,
                req.headers.deep_view(),
                req.body@,
                r,
                final(self).conn@,
            ),
    {
        let end_of_stream: bool = req.body.len() == 0;
        if end_of_stream {
            return self.conn.send_headers(req.headers, req.stream_id, EndStream::Yes);
        }
        let first = self.conn.send_headers(req.headers, req.stream_id, EndStream::No);
        let ghost mid = self.conn@;
        match first {
            Err(e) => {
                assert(headers_sent(
                    old(self).conn@,
                    req.headers.deep_view(),
                    req.stream_id,
                    EndStream::No,
                    first,
                    mid,
                ));
                Err(e)
            },
            Ok(_) => {
                assert(headers_sent(
                    old(self).conn@,
                    req.headers.deep_view(),
                    req.stream_id,
                    EndStream::No,
                    first,
                    mid,
                ));
                // The entire request body goes out at once.
                self.conn.send_data(req.body, req.stream_id, EndStream::Yes)
            },
        }
    }

    /// Fully handles the next incoming frame. Events are passed on to the
    /// internal `session` instance.
    pub fn handle_next_frame(&mut self) -> (r: HttpResult<()>)
        ensures
            exists|told: Seq<SessionEvent>|
                {
                    &&& #[trigger] next_frame_handled(old(self).conn, r, final(self).conn, told)
                    &&& session_run(old(self).session, told, final(self).session)
                },
    {
        self.conn.handle_next_frame(&mut self.session)
    }
}

impl<S: SendFrame, R: ReceiveFrame, St: Stream> ClientConnection<S, R, ClientSession<St>> {
    /// Starts a request on a new stream: takes the next id from `ids`,
    /// creates the stream in the session, and sends the request. Returns
    /// the id of the stream.
    ///
    /// Where the ids are used up, this is a protocol error, and nothing is
    /// created or sent. Where the sending fails, its error is returned; the
    /// id is spent and the stream stays in the session.
    pub fn start_request(&mut self, ids: &mut ClientStreamIds, headers: Vec<Header>, body: Vec<u8>) -> (r:
        HttpResult<StreamId>)
        ensures
            final(self).conn.receiver == old(self).conn.receiver,
            request_started(
                *old(ids),
                old(self).conn@,
                old(self).session.streams(),
                headers.deep_view(),
                body@,
                r,
                *final(ids),
                final(self).conn@,
                final(self).session.streams(),
            ),
    {
        let stream_id: StreamId = match ids.allocate() {
            Some(id) => id,
            None => {
                return Err(HttpError::ProtocolError);
            },
        };
        self.session.new_stream(stream_id);
        let sent = self.send_request(Request { stream_id, headers, body });
        assert(request_sent(
            old(self).conn@,
            stream_id,
            headers.deep_view(),
            body@,
            sent,
            self.conn@,
        ));
        match sent {
            Ok(_) => Ok(stream_id),
            Err(e) => Err(e),
        }
    }
}

impl<S: SendFrame, R: ReceiveFrame> ClientConnection<S, R, ClientSession<DefaultStream>> {
    /// Takes the streams that are closed out of the session and returns the
    /// response that each of them holds, in the order in which the streams
    /// were created. The other streams stay, in their order.
    pub fn take_responses(&mut self) -> (r: Vec<Response>)
        ensures
            final(self).conn == old(self).conn,
            final(self).session.streams() == live_streams(old(self).session.streams()),
            r@.len() == closed_streams(old(self).session.streams()).len(),
            forall|i: int|
                0 <= i < r@.len() ==> (#[trigger] r@[i])@ == spec_response_of(
                    closed_streams(old(self).session.streams())[i]@,
                ),
    {
        let mut closed: Vec<DefaultStream> = self.session.get_closed();
        let ghost all = closed@;
        let mut responses: Vec<Response> = Vec::new();
        while closed.len() > 0
            invariant
                responses@.len() + closed@.len() == all.len(),
                closed@ == all.skip(responses@.len() as int),
                forall|i: int|
                    0 <= i < responses@.len() ==> (#[trigger] responses@[i])@ == spec_response_of(
                        all[i]@,
                    ),
            decreases closed@.len(),
        {
            let stream: DefaultStream = closed.remove(0);
            let ghost model = stream@;
            let DefaultStream { stream_id, headers, body, .. } = stream;
            let headers: Vec<Header> = match headers {
                Some(headers) => headers,
                None => {
                    let empty: Vec<Header> = Vec::new();
                    assert(empty.deep_view() =~= Seq::empty());
                    empty
                },
            };
            let response = Response { stream_id, headers, body };
            assert(response@ == spec_response_of(model));
            responses.push(response);
            assert(closed@ =~= all.skip(responses@.len() as int));
        }
        responses
    }
}

/// A simple implementation of the `Session` trait.
///
/// Relies on the `DefaultSessionState` to keep track of its currently open
/// streams.
///
/// The purpose of the type is to make it easier for client implementations
/// to only handle stream-level events by providing a `Stream`
/// implementation, instead of having to implement the entire session
/// management (tracking active streams, etc.).
pub struct ClientSession<S: Stream = DefaultStream> {
    pub state: DefaultSessionState<S>,
}

impl<S: Stream> ClientSession<S> {
    /// The streams of the session, in the order in which they were created.
    pub open spec fn streams(&self) -> Seq<S> {
        self.state.streams@
    }

    /// Returns a new `ClientSession` with no active streams.
    pub fn new() -> (r: ClientSession<S>)
        ensures
            r.streams() == Seq::<S>::empty(),
    {
        ClientSession { state: DefaultSessionState::new() }
    }

    /// Returns a reference to a stream with the given ID, if such a stream
    /// is found in the `ClientSession`.
    pub fn get_stream(&self, stream_id: StreamId) -> (r: Option<&S>)
        ensures
            match r {
                Some(stream) => exists|i: int|
                    {
                        &&& #[trigger] is_first(self.streams(), i, stream_id)
                        &&& self.streams()[i] == *stream
                    },
                None => !has_id(self.streams(), stream_id),
            },
    {
        match self.state.position(stream_id) {
            Some(i) => {
                assert(is_first(self.streams(), i as int, stream_id));
                Some(&self.state.streams[i])
            },
            None => None,
        }
    }

    /// Returns the stream with the given ID for a change, if such a stream
    /// is found in the `ClientSession`.
    pub fn get_stream_mut(&mut self, stream_id: StreamId) -> (r: Option<&mut S>)
        ensures
            match r {
                Some(stream) => exists|i: int|
                    {
                        &&& #[trigger] is_first(old(self).streams(), i, stream_id)
                        &&& old(self).streams()[i] == *stream
                        &&& final(self).streams() == old(self).streams().update(i, *final(stream))
                    },
                None => !has_id(old(self).streams(), stream_id) && final(self).streams() == old(
                    self,
                ).streams(),
            },
    {
        match self.state.position(stream_id) {
            Some(i) => {
                assert(is_first(self.streams(), i as int, stream_id));
                Some(&mut self.state.streams[i])
            },
            None => None,
        }
    }

    /// Creates a new stream with the given ID in the session, unless there
    /// is one already.
    pub fn new_stream(&mut self, stream_id: StreamId)
        ensures
            ids_unique(old(self).streams()) ==> ids_unique(final(self).streams()),
            if has_id(old(self).streams(), stream_id) {
                final(self).streams() == old(self).streams()
            } else {
                &&& final(self).streams().len() == old(self).streams().len() + 1
                &&& final(self).streams().drop_last() == old(self).streams()
                &&& final(self).streams().last().spec_id() == stream_id
                &&& final(self).streams().last().spec_state() == StreamState::Open
                &&& S::created(final(self).streams().last())
            },
    {
        let stream: S = S::new(stream_id);
        let inserted: bool = self.state.insert_stream(stream);
        proof {
            if inserted {
                assert(self.streams().drop_last() =~= old(self).streams());
            }
        }
    }

    /// Returns all streams that are closed and tracked by the session, in
    /// the order in which they were created.
    ///
    /// The streams are moved out of the session; the others stay, in their
    /// order.
    pub fn get_closed(&mut self) -> (r: Vec<S>)
        ensures
            r@ == closed_streams(old(self).streams()),
            final(self).streams() == live_streams(old(self).streams()),
    {
        self.state.get_closed()
    }
}

impl<S: Stream> Session for ClientSession<S> {
    /// Data and headers go to the stream that they name; at the end of a
    /// stream, the stream that is named is closed. An event for a stream
    /// that the session does not hold changes nothing.
    open spec fn step(pre: Self, event: SessionEvent, post: Self) -> bool {
        match event {
            SessionEvent::DataChunk(stream_id, data) => stream_stepped(
                pre.streams(),
                stream_id,
                StreamEvent::Data(data),
                post.streams(),
            ),
            SessionEvent::Headers(stream_id, headers) => stream_stepped(
                pre.streams(),
                stream_id,
                StreamEvent::Headers(headers),
                post.streams(),
            ),
            SessionEvent::EndOfStream(stream_id) => stream_moved(
                pre.streams(),
                stream_id,
                |state: StreamState| StreamState::Closed,
                post.streams(),
            ),
        }
    }

    fn new_data_chunk(&mut self, stream_id: StreamId, data: &[u8]) {
        match self.get_stream_mut(stream_id) {
            None => {
                // A frame for a stream that the session does not hold.
            },
            Some(stream) => {
                // Now let the stream handle the data chunk
                stream.new_data_chunk(data);
            },
        }
        proof {
            lemma_not_first_without_id(old(self).streams(), stream_id);
        }
    }

    fn new_headers(&mut self, stream_id: StreamId, headers: Vec<Header>) {
        match self.get_stream_mut(stream_id) {
            None => {
                // A frame for a stream that the session does not hold.
            },
            Some(stream) => {
                // Now let the stream handle the headers
                stream.set_headers(headers);
            },
        }
        proof {
            lemma_not_first_without_id(old(self).streams(), stream_id);
        }
    }

    fn end_of_stream(&mut self, stream_id: StreamId) {
        match self.get_stream_mut(stream_id) {
            None => {
                // A frame for a stream that the session does not hold.
            },
            Some(stream) => {
                stream.close();
            },
        }
        proof {
            lemma_not_first_without_id(old(self).streams(), stream_id);
        }
    }
}

/// Whatever is reported to a client session, its streams keep their ids and
/// their order, and ids that were unique stay unique.
pub proof fn lemma_client_step_keeps_ids<S: Stream>(
    pre: ClientSession<S>,
    event: SessionEvent,
    post: ClientSession<S>,
)
    requires
        ClientSession::step(pre, event, post),
    ensures
        post.streams().len() == pre.streams().len(),
        forall|i: int|
            0 <= i < pre.streams().len() ==> (#[trigger] post.streams()[i]).spec_id()
                == pre.streams()[i].spec_id(),
        ids_unique(pre.streams()) ==> ids_unique(post.streams()),
{
    match event {
        SessionEvent::DataChunk(id, data) => {
            lemma_step_keeps_ids_unique(
                pre.streams(),
                id,
                StreamEvent::Data(data),
                post.streams(),
            );
        },
        SessionEvent::Headers(id, headers) => {
            lemma_step_keeps_ids_unique(
                pre.streams(),
                id,
                StreamEvent::Headers(headers),
                post.streams(),
            );
        },
        SessionEvent::EndOfStream(id) => {
            lemma_move_keeps_ids_unique(
                pre.streams(),
                id,
                |state: StreamState| StreamState::Closed,
                post.streams(),
            );
        },
    }
}

/// After the end of a stream has been reported to a client session, the
/// stream is closed; and it is still closed, under its id, after data or
/// headers have been reported for any stream.
pub proof fn lemma_client_stream_stays_closed<S: Stream>(
    start: ClientSession<S>,
    id: StreamId,
    ended: ClientSession<S>,
    event: SessionEvent,
    later: ClientSession<S>,
    i: int,
)
    requires
        ClientSession::step(start, SessionEvent::EndOfStream(id), ended),
        is_first(start.streams(), i, id),
        event is DataChunk || event is Headers,
        ClientSession::step(ended, event, later),
    ensures
        ended.streams()[i].spec_state() == StreamState::Closed,
        later.streams()[i].spec_state() == StreamState::Closed,
        later.streams()[i].spec_id() == id,
{
    let next = |state: StreamState| StreamState::Closed;
    lemma_end_of_stream_flags(start.streams(), id, next, ended.streams(), i);
    match event {
        SessionEvent::DataChunk(other, data) => {
            lemma_closed_remote_stays(
                ended.streams(),
                other,
                StreamEvent::Data(data),
                later.streams(),
                i,
            );
            if !is_first(ended.streams(), i, other) {
                assert(later.streams()[i] == ended.streams()[i]);
            }
        },
        SessionEvent::Headers(other, headers) => {
            lemma_closed_remote_stays(
                ended.streams(),
                other,
                StreamEvent::Headers(headers),
                later.streams(),
                i,
            );
            if !is_first(ended.streams(), i, other) {
                assert(later.streams()[i] == ended.streams()[i]);
            }
        },
        SessionEvent::EndOfStream(_) => {},
    }
}

/// With a queue of frames to receive and a buffer for what is sent, a
/// connection takes the settings of the peer's preface if and only if the
/// first frame of the queue is a `SETTINGS` frame without ACK.
pub proof fn lemma_memory_init_succeeds(
    pre: HttpConnection<FrameBuffer, FrameQueue>,
    r: HttpResult<()>,
    post: HttpConnection<FrameBuffer, FrameQueue>,
    told: Seq<SessionEvent>,
)
    requires
        next_settings_expected(pre, r, post, told),
    ensures
        r is Ok <==> pre.receiver.frames@.len() > 0 && is_settings_preface(
            pre.receiver.frames@[0]@,
        ),
{
    let received = choose|received: HttpResult<RawFrameView>|
        {
            &&& #[trigger] FrameQueue::received(pre.receiver, received, post.receiver)
            &&& match received {
                Ok(raw) => settings_expected(pre@, raw, r, post@, told),
                Err(e) => r == Err::<(), HttpError>(e) && post@ == pre@.closed() && told == Seq::<
                    SessionEvent,
                >::empty(),
            }
        };
    match received {
        Ok(raw) => {
            lemma_preface_accepted(pre@, raw, r, post@, told);
        },
        Err(_) => {},
    }
}

} // verus!
