//! The module contains a number of reusable components for implementing the
//! server side of an HTTP/2 connection.

use vstd::prelude::*;
use crate::http::{Header, HttpResult, HttpScheme, StreamId};
use crate::http::connection::{
    ConnectionView, DataChunkView, DataPrioritizer, EndStream, HttpConnection, ReceiveFrame,
    SendFrame, SendStatus, choice_sent, headers_sent, next_frame_handled, next_settings_expected,
    settings_sent, spec_chunk_result,
};
use crate::http::priority::{SimplePrioritizer, streams_walked};
use crate::http::session::{
    DefaultSessionState, DefaultStream, Session, SessionEvent, SessionState, Stream, StreamEvent,
    StreamState, has_id, ids_unique, is_first, lemma_closed_remote_stays, lemma_end_of_stream_flags,
    lemma_move_keeps_ids_unique, lemma_not_first_without_id, lemma_step_keeps_ids_unique,
    session_run, stream_moved, stream_stepped,
};

verus! {

/// The `ServerSession` requires an instance of a type that implements this
/// trait in order to create a new `Stream` instance once it detects that a
/// client has initiated a new stream. The factory should take care to
/// provide an appropriate `Stream` implementation that will be able to
/// handle reading the request and generating the response, according to the
/// needs of the underlying application.
pub trait StreamFactory: Sized {
    type Stream: Stream;

    /// Whether a call of `create` with `id` may turn the factory `pre` into
    /// `post` and give `stream`.
    spec fn created(pre: Self, id: StreamId, stream: Self::Stream, post: Self) -> bool;

    /// Create a new `Stream` with the given ID.
    fn create(&mut self, id: StreamId) -> (r: Self::Stream)
        ensures
            r.spec_id() == id,
            Self::created(*old(self), id, r, *final(self)),
    ;
}

/// Whether `event` turns the streams `pre` and the factory `pre_factory` of
/// a server into `post` and `post_factory`.
///
/// Data goes to the stream that it names, and the end of a stream closes
/// the stream that is named on the remote side; for a stream that is not
/// there, nothing changes. Headers go to the stream that they name; where
/// it is not there, the factory is asked once for a stream with that id,
/// which gets the headers and is inserted at the end.
pub open spec fn server_step<State: SessionState, F: StreamFactory<Stream = State::Stream>>(
    pre: State,
    pre_factory: F,
    event: SessionEvent,
    post: State,
    post_factory: F,
) -> bool {
    match event {
        SessionEvent::DataChunk(stream_id, data) => {
            &&& post_factory == pre_factory
            &&& stream_stepped(pre.streams(), stream_id, StreamEvent::Data(data), post.streams())
        },
        SessionEvent::Headers(stream_id, headers) => {
            if has_id(pre.streams(), stream_id) {
                &&& post_factory == pre_factory
                &&& stream_stepped(
                    pre.streams(),
                    stream_id,
                    StreamEvent::Headers(headers),
                    post.streams(),
                )
            } else {
                exists|minted: State::Stream, inserted: State::Stream|
                    {
                        &&& #[trigger] F::created(pre_factory, stream_id, minted, post_factory)
                        &&& minted.spec_id() == stream_id
                        &&& #[trigger] State::Stream::step(
                            minted,
                            StreamEvent::Headers(headers),
                            inserted,
                        )
                        &&& inserted.spec_id() == stream_id
                        &&& post.streams() == pre.streams().push(inserted)
                    }
            }
        },
        SessionEvent::EndOfStream(stream_id) => {
            &&& post_factory == pre_factory
            &&& stream_moved(
                pre.streams(),
                stream_id,
                |state: StreamState| state.spec_close_remote(),
                post.streams(),
            )
        },
    }
}

/// Hands a chunk of data to the stream that it names.
fn route_data_chunk<State, F>(state: &mut State, factory: &mut F, stream_id: StreamId, data: &[u8]) where
    State: SessionState,
    F: StreamFactory<Stream = State::Stream>,

    ensures
        server_step(
            *old(state),
            *old(factory),
            SessionEvent::DataChunk(stream_id, data@),
            *final(state),
            *final(factory),
        ),
{
    match state.get_stream_mut(stream_id) {
        None => {
            // A frame for a stream that the session does not hold.
        },
        Some(stream) => {
            // Now let the stream handle the data chunk
            stream.new_data_chunk(data);
        },
    }
    proof {
        lemma_not_first_without_id(old(state).streams(), stream_id);
    }
}

/// Hands headers to the stream that they name. Where there is none, the
/// factory makes one, which gets the headers and is inserted.
fn route_headers<State, F>(
    state: &mut State,
    factory: &mut F,
    stream_id: StreamId,
    headers: Vec<Header>,
) where State: SessionState, F: StreamFactory<Stream = State::Stream>
    ensures
        server_step(
            *old(state),
            *old(factory),
            SessionEvent::Headers(stream_id, headers.deep_view()),
            *final(state),
            *final(factory),
        ),
{
    let ghost h = headers.deep_view();
    let ghost event = SessionEvent::Headers(stream_id, h);
    proof {
        lemma_not_first_without_id(old(state).streams(), stream_id);
        assert(event->Headers_0 == stream_id && event->Headers_1 == h);
    }
    match state.get_stream_mut(stream_id) {
        Some(stream) => {
            // This corresponds to having received trailers.
            stream.set_headers(headers);
            return ;
        },
        None => {},
    }
    // New stream initiated by the client
    let mut stream = factory.create(stream_id);
    let ghost minted = stream;
    stream.set_headers(headers);
    let ghost inserted = stream;
    let _inserted: bool = state.insert_stream(stream);
    proof {
        assert(F::created(*old(factory), stream_id, minted, *factory));
        assert(State::Stream::step(minted, StreamEvent::Headers(h), inserted));
        assert(state.streams() == old(state).streams().push(inserted));
    }
}

/// Closes the stream that is named on the remote side.
fn route_end_of_stream<State, F>(state: &mut State, factory: &mut F, stream_id: StreamId) where
    State: SessionState,
    F: StreamFactory<Stream = State::Stream>,

    ensures
        server_step(
            *old(state),
            *old(factory),
            SessionEvent::EndOfStream(stream_id),
            *final(state),
            *final(factory),
        ),
{
    match state.get_stream_mut(stream_id) {
        None => {
            // A frame for a stream that the session does not hold.
        },
        Some(stream) => {
            stream.close_remote();
        },
    }
    proof {
        lemma_not_first_without_id(old(state).streams(), stream_id);
    }
}

/// An implementation of the `Session` trait for a server-side HTTP/2
/// connection, over a session state and a factory that are held elsewhere.
pub struct ServerSession<'a, State, F> where
    State: SessionState,
    F: StreamFactory<Stream = State::Stream>,
 {
    pub state: &'a mut State,
    pub factory: &'a mut F,
}

impl<'a, State, F> ServerSession<'a, State, F> where
    State: SessionState,
    F: StreamFactory<Stream = State::Stream>,
 {
    /// The session state that the session works on, as it is now.
    pub open spec fn spec_state(self) -> State {
        *self.state
    }

    /// The factory that the session works with, as it is now.
    pub open spec fn spec_factory(self) -> F {
        *self.factory
    }

    pub fn new(state: &'a mut State, factory: &'a mut F) -> (r: ServerSession<'a, State, F>)
        ensures
            *r.state == *old(state),
            *r.factory == *old(factory),
            *final(r.state) == *final(state),
            *final(r.factory) == *final(factory),
    {
        ServerSession { state, factory }
    }
}

impl<'a, State, F> Session for ServerSession<'a, State, F> where
    State: SessionState,
    F: StreamFactory<Stream = State::Stream>,
 {
    open spec fn step(pre: Self, event: SessionEvent, post: Self) -> bool {
        server_step(
            pre.spec_state(),
            pre.spec_factory(),
            event,
            post.spec_state(),
            post.spec_factory(),
        )
    }

    fn new_data_chunk(&mut self, stream_id: StreamId, data: &[u8])
        ensures
            *final(final(self).state) == *final(old(self).state),
            *final(final(self).factory) == *final(old(self).factory),
    {
        route_data_chunk(self.state, self.factory, stream_id, data);
    }

    fn new_headers(&mut self, stream_id: StreamId, headers: Vec<Header>)
        ensures
            *final(final(self).state) == *final(old(self).state),
            *final(final(self).factory) == *final(old(self).factory),
    {
        route_headers(self.state, self.factory, stream_id, headers);
    }

    fn end_of_stream(&mut self, stream_id: StreamId)
        ensures
            *final(final(self).state) == *final(old(self).state),
            *final(final(self).factory) == *final(old(self).factory),
    {
        route_end_of_stream(self.state, self.factory, stream_id);
    }
}

/// The streams of a server-side connection and the factory that makes the
/// streams that the client starts. This is the session of a
/// `ServerConnection`.
pub struct ServerStreams<State, F> where
    State: SessionState,
    F: StreamFactory<Stream = State::Stream>,
 {
    /// The state of the session. Maintains the status of the connection
    /// streams.
    pub state: State,
    /// Creates `Stream` instances for client-initiated streams.
    pub factory: F,
}

impl<State, F> ServerStreams<State, F> where
    State: SessionState,
    F: StreamFactory<Stream = State::Stream>,
 {
    /// Puts a session state and a factory together.
    pub fn new(state: State, factory: F) -> (r: ServerStreams<State, F>)
        ensures
            r.state == state,
            r.factory == factory,
    {
        ServerStreams { state, factory }
    }
}

impl<State, F> Session for ServerStreams<State, F> where
    State: SessionState,
    F: StreamFactory<Stream = State::Stream>,
 {
    open spec fn step(pre: Self, event: SessionEvent, post: Self) -> bool {
        server_step(pre.state, pre.factory, event, post.state, post.factory)
    }

    fn new_data_chunk(&mut self, stream_id: StreamId, data: &[u8]) {
        route_data_chunk(&mut self.state, &mut self.factory, stream_id, data);
    }

    fn new_headers(&mut self, stream_id: StreamId, headers: Vec<Header>) {
        route_headers(&mut self.state, &mut self.factory, stream_id, headers);
    }

    fn end_of_stream(&mut self, stream_id: StreamId) {
        route_end_of_stream(&mut self.state, &mut self.factory, stream_id);
    }
}

/// Whatever is reported to a server, the streams that it has keep their
/// ids and their order, a stream that is made for new headers comes last,
/// and ids that were unique stay unique.
pub proof fn lemma_server_step_keeps_ids<State, F>(
    pre: State,
    pre_factory: F,
    event: SessionEvent,
    post: State,
    post_factory: F,
) where State: SessionState, F: StreamFactory<Stream = State::Stream>
    requires
        server_step(pre, pre_factory, event, post, post_factory),
    ensures
        post.streams().len() >= pre.streams().len(),
        forall|i: int|
            0 <= i < pre.streams().len() ==> (#[trigger] post.streams()[i]).spec_id()
                == pre.streams()[i].spec_id(),
        ids_unique(pre.streams()) ==> ids_unique(post.streams()),
{
    match event {
        SessionEvent::DataChunk(id, data) => {
            lemma_step_keeps_ids_unique(
                pre.streams(),
                id,
                StreamEvent::Data(data),
                post.streams(),
            );
        },
        SessionEvent::Headers(id, headers) => {
            if has_id(pre.streams(), id) {
                lemma_step_keeps_ids_unique(
                    pre.streams(),
                    id,
                    StreamEvent::Headers(headers),
                    post.streams(),
                );
            } else {
                assert forall|i: int| 0 <= i < pre.streams().len() implies (
                #[trigger] post.streams()[i]).spec_id() == pre.streams()[i].spec_id() by {
                    assert(post.streams()[i] == pre.streams()[i]);
                }
                if ids_unique(pre.streams()) {
                    assert forall|i: int, j: int|
                        0 <= i < j < post.streams().len() implies #[trigger] post.streams()[i].spec_id()
                        != #[trigger] post.streams()[j].spec_id() by {
                        assert(post.streams()[i] == pre.streams()[i]);
                        if j < pre.streams().len() {
                            assert(post.streams()[j] == pre.streams()[j]);
                        }
                    }
                }
            }
        },
        SessionEvent::EndOfStream(id) => {
            lemma_move_keeps_ids_unique(
                pre.streams(),
                id,
                |state: StreamState| state.spec_close_remote(),
                post.streams(),
            );
        },
    }
}

/// After the end of a stream has been reported to a server, the stream is
/// closed on the remote side; and it is still so, under its id, after data
/// or headers have been reported for any stream.
pub proof fn lemma_server_stream_stays_closed<State, F>(
    start: State,
    start_factory: F,
    id: StreamId,
    ended: State,
    ended_factory: F,
    event: SessionEvent,
    later: State,
    later_factory: F,
    i: int,
) where State: SessionState, F: StreamFactory<Stream = State::Stream>
    requires
        server_step(start, start_factory, SessionEvent::EndOfStream(id), ended, ended_factory),
        is_first(start.streams(), i, id),
        event is DataChunk || event is Headers,
        server_step(ended, ended_factory, event, later, later_factory),
    ensures
        ended.streams()[i].spec_state().spec_is_closed_remote(),
        later.streams()[i].spec_state().spec_is_closed_remote(),
        later.streams()[i].spec_id() == id,
{
    let next = |state: StreamState| state.spec_close_remote();
    lemma_end_of_stream_flags(start.streams(), id, next, ended.streams(), i);
    match event {
        SessionEvent::DataChunk(other, data) => {
            lemma_closed_remote_stays(
                ended.streams(),
                other,
                StreamEvent::Data(data),
                later.streams(),
                i,
            );
        },
        SessionEvent::Headers(other, headers) => {
            if has_id(ended.streams(), other) {
                lemma_closed_remote_stays(
                    ended.streams(),
                    other,
                    StreamEvent::Headers(headers),
                    later.streams(),
                    i,
                );
            } else {
                assert(later.streams()[i] == ended.streams()[i]);
            }
        },
        SessionEvent::EndOfStream(_) => {},
    }
}

/// Whether initializing a server may turn its connection `pre` into `post`
/// and give `r`, with the session told of the events `told`: the server
/// sends its own settings, an empty `SETTINGS` frame; where that has gone
/// well, it reads the next frame and takes it for the settings of the
/// client's preface.
pub open spec fn server_initialized<S: SendFrame, R: ReceiveFrame>(
    pre: HttpConnection<S, R>,
    r: HttpResult<()>,
    post: HttpConnection<S, R>,
    told: Seq<SessionEvent>,
) -> bool {
    exists|first: HttpResult<()>, mid: HttpConnection<S, R>|
        {
            &&& #[trigger] settings_sent(pre@, first, mid@)
            &&& mid.receiver == pre.receiver
            &&& if first is Err {
                r == first && post == mid && told == Seq::<SessionEvent>::empty()
            } else {
                next_settings_expected(mid, r, post, told)
            }
        }
}

/// Whether queuing the next chunk of data may turn the streams `pre` and
/// the connection `pre_conn` of a server into `post` and `post_conn` and
/// give `r`: the streams are walked, in order, with room for 8192 bytes,
/// and what the walk gives is sent as one `DATA` frame.
pub open spec fn next_data_sent<St: Stream, S: SendFrame>(
    pre: Seq<St>,
    pre_conn: ConnectionView<S>,
    r: HttpResult<SendStatus>,
    post: Seq<St>,
    post_conn: ConnectionView<S>,
) -> bool {
    exists|chosen: HttpResult<Option<DataChunkView>>|
        {
            &&& #[trigger] streams_walked(pre, 8192, chosen, post)
            &&& choice_sent(pre_conn, chosen, r, post_conn)
        }
}

/// The struct provides a more convenient API for server-related
/// functionality of an HTTP/2 connection, such as sending a response back to
/// the client.
pub struct ServerConnection<S, R, F, State = DefaultSessionState<DefaultStream>> where
    S: SendFrame,
    R: ReceiveFrame,
    State: SessionState,
    F: StreamFactory<Stream = State::Stream>,
 {
    /// The underlying `HttpConnection` that will be used for any HTTP/2
    /// communication.
    pub conn: HttpConnection<S, R>,
    /// The state of the session associated to this client connection, and
    /// the factory that creates `Stream` instances for client-initiated
    /// streams. This allows the client of the `ServerConnection` to
    /// implement custom handling of a newly initiated stream.
    pub streams: ServerStreams<State, F>,
}

impl<S, R, F, State> ServerConnection<S, R, F, State> where
    S: SendFrame,
    R: ReceiveFrame,
    State: SessionState,
    F: StreamFactory<Stream = State::Stream>,
 {
    /// Creates a new `ServerConnection` that will use the given
    /// `HttpConnection` for its underlying HTTP/2 communication. The `state`
    /// and `factory` represent, respectively, the initial state of the
    /// connection and an instance of the `StreamFactory` type (allowing the
    /// client to handle newly created streams).
    pub fn with_connection(conn: HttpConnection<S, R>, state: State, factory: F) -> (r:
        ServerConnection<S, R, F, State>)
        ensures
            r.conn == conn,
            r.streams.state == state,
            r.streams.factory == factory,
    {
        ServerConnection { conn, streams: ServerStreams::new(state, factory) }
    }

    /// Returns the scheme of the underlying `HttpConnection`.
    pub fn scheme(&self) -> (r: HttpScheme)
        ensures
            r == self.conn.scheme,
    {
        self.conn.scheme
    }

    /// Initializes the `ServerConnection` by sending the server's settings
    /// and processing the client's. If the next frame of the client is not
    /// a `SETTINGS` frame without ACK, this is a preamble mismatch.
    pub fn init(&mut self) -> (r: HttpResult<()>)
        ensures
            exists|told: Seq<SessionEvent>|
                {
                    &&& #[trigger] server_initialized(old(self).conn, r, final(self).conn, told)
                    &&& session_run(old(self).streams, told, final(self).streams)
                },
    {
        let first = self.send_settings();
        let ghost mid = self.conn;
        proof {
            assert(settings_sent(old(self).conn@, first, mid@));
        }
        match first {
            Err(e) => {
                let r: HttpResult<()> = Err(e);
                assert(server_initialized(
                    old(self).conn,
                    r,
                    self.conn,
                    Seq::<SessionEvent>::empty(),
                ));
                r
            },
            Ok(_) => {
                let r = self.read_preface();
                proof {
                    let told = choose|told: Seq<SessionEvent>|
                        {
                            &&& #[trigger] next_settings_expected(mid, r, self.conn, told)
                            &&& session_run(old(self).streams, told, self.streams)
                        };
                    assert(server_initialized(old(self).conn, r, self.conn, told));
                }
                r
            },
        }
    }

    /// Sends the settings of the server: a `SETTINGS` frame without
    /// settings and without ACK.
    pub fn send_settings(&mut self) -> (r: HttpResult<()>)
        ensures
            final(self).streams == old(self).streams,
            final(self).conn.receiver == old(self).conn.receiver,
            settings_sent(old(self).conn@, r, final(self).conn@),
    {
        self.conn.send_settings()
    }

    /// Reads and handles the settings frame of the client preface. If the
    /// settings frame is not the next frame received on the underlying
    /// connection, returns an error.
    fn read_preface(&mut self) -> (r: HttpResult<()>)
        ensures
            exists|told: Seq<SessionEvent>|
                {
                    &&& #[trigger] next_settings_expected(old(self).conn, r, final(self).conn, told)
                    &&& session_run(old(self).streams, told, final(self).streams)
                },
    {
        self.conn.expect_settings(&mut self.streams)
    }

    /// Fully handles the next incoming frame. Events are passed on to the
    /// streams of the connection; streams that the client starts are made
    /// by the factory.
    pub fn handle_next_frame(&mut self) -> (r: HttpResult<()>)
        ensures
            exists|told: Seq<SessionEvent>|
                {
                    &&& #[trigger] next_frame_handled(old(self).conn, r, final(self).conn, told)
                    &&& session_run(old(self).streams, told, final(self).streams)
                },
    {
        self.conn.handle_next_frame(&mut self.streams)
    }

    /// Starts a response on the stream with the given ID by sending the
    /// given headers.
    ///
    /// The body of the response is expected to be provided by the `Stream`
    /// instance stored within the connection's state. (The body does not
    /// have to be ready when this method is called, as long as the `Stream`
    /// instance knows how to provide it to the connection later on.)
    pub fn start_response(&mut self, headers: Vec<Header>, stream_id: StreamId, end_stream: EndStream) -> (r:
        HttpResult<()>)
        ensures
            final(self).streams == old(self).streams,
            final(self).conn.receiver == old(self).conn.receiver,
            headers_sent(
                old(self).conn@,
                headers.deep_view(),
                stream_id,
                end_stream,
                r,
                final(self).conn@,
            ),
    {
        self.conn.send_headers(headers, stream_id, end_stream)
    }

    /// Queues a new DATA frame onto the underlying `SendFrame`.
    ///
    /// The data is that of the first stream, in the order of the state,
    /// that has data to send, up to 8 KiB of it.
    pub fn send_next_data(&mut self) -> (r: HttpResult<SendStatus>)
        ensures
            final(self).streams.factory == old(self).streams.factory,
            final(self).conn.receiver == old(self).conn.receiver,
            next_data_sent(
                old(self).streams.state.streams(),
                old(self).conn@,
                r,
                final(self).streams.state.streams(),
                final(self).conn@,
            ),
    {
        // A default "maximum" chunk size of 8 KiB is set on all data frames.
        let mut buf: Vec<u8> = vec![0u8; 8192];
        let mut prioritizer = SimplePrioritizer::new(
            &mut self.streams.state,
            buf.as_mut_slice(),
        );
        let ghost before = prioritizer;
        let chosen = prioritizer.get_next_chunk();
        proof {
            assert(before.buf@.len() == 8192);
            assert(before.state.streams() == old(self).streams.state.streams());
            assert(SimplePrioritizer::chose(before, spec_chunk_result(chosen), prioritizer));
            assert(streams_walked(
                old(self).streams.state.streams(),
                8192,
                spec_chunk_result(chosen),
                prioritizer.state.streams(),
            ));
        }
        match chosen {
            Ok(chunk) => self.conn.send_chunk(chunk),
            Err(e) => Err(e),
        }
    }
}

} // verus!
