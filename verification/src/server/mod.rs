//! The module contains a simple HTTP/2 server implementation.

use vstd::prelude::*;
use crate::http::{
    Header, HttpError, HttpResult, HttpScheme, MessageView, Response, StreamId, client_preface,
    is_client_preface,
};
use crate::http::connection::{
    ConnectionSettings, ConnectionState, ConnectionView, DataChunkView, EndStream, HttpConnection,
    ReceiveFrame, spec_data_frame, spec_headers_frame,
    SendFrame, SendStatus, choice_sent, headers_sent, is_settings_preface, lemma_preface_accepted,
    lemma_failed_receive_sends_nothing, lemma_settings_acknowledged,
    lemma_settings_expected_of_received, next_frame_handled, next_settings_expected,
    spec_frame_from_raw, spec_settings_ack_wire, spec_settings_wire,
    settings_expected, settings_sent,
};
use crate::http::frame::{RawFrameView, flag_set};
use crate::http::memory::{MemoryTransport, lemma_memory_frame_read, spec_first_frame};
use crate::http::priority::{stream_passed, stream_picked, streams_walked};
use crate::http::server::{ServerConnection, StreamFactory, next_data_sent, server_initialized};
use crate::http::session::{
    DefaultSessionState, DefaultStream, DefaultStreamView, SessionEvent, SessionState, Stream,
    has_id, is_first, lemma_not_first_without_id, live_streams, session_run,
};
use crate::http::transport::{TransportReceiveFrame, TransportSender, TransportStream, frame_read};

verus! {

/// The struct represents a fully received request.
pub struct ServerRequest<'a> {
    pub stream_id: StreamId,
    pub headers: &'a [Header],
    pub body: &'a [u8],
}

/// A simple implementation of the `http::server::StreamFactory` trait that
/// creates new `DefaultStream` instances.
pub struct SimpleFactory;

impl StreamFactory for SimpleFactory {
    type Stream = DefaultStream;

    /// The stream is one to which nothing has happened yet.
    open spec fn created(pre: Self, id: StreamId, stream: DefaultStream, post: Self) -> bool {
        stream@ == DefaultStream::spec_with_id(id)
    }

    fn create(&mut self, id: StreamId) -> (r: DefaultStream) {
        DefaultStream::with_id(id)
    }
}

/// The connection of a simple server over a transport.
pub type SimpleConnection<TS> = ServerConnection<
    TransportSender<TS>,
    TransportReceiveFrame<TS>,
    SimpleFactory,
    DefaultSessionState<DefaultStream>,
>;

/// Whether `req` is the request that the stream holds: its id, its headers,
/// none where none have arrived, and its body.
pub open spec fn is_request_of(req: ServerRequest, stream: DefaultStream) -> bool {
    &&& req.stream_id == stream.stream_id
    &&& req.headers.deep_view() == (match stream@.headers {
        Some(headers) => headers,
        None => Seq::empty(),
    })
    &&& req.body@ == stream.body@
}

/// Whether `response` is what a handler of type `H` may give for the request
/// that the stream holds.
pub open spec fn answered<H: FnMut(ServerRequest) -> Response>(
    stream: DefaultStream,
    response: Response,
) -> bool {
    exists|handler: H, req: ServerRequest|
        is_request_of(req, stream) && #[trigger] call_ensures(handler, (req,), response)
}

/// Whether `responses` are what a handler of type `H` may give for the
/// requests of the streams that are closed on the remote side, one for
/// each, in the order of the streams.
pub open spec fn requests_answered<H: FnMut(ServerRequest) -> Response>(
    streams: Seq<DefaultStream>,
    responses: Seq<Response>,
) -> bool
    decreases streams.len(),
{
    if streams.len() == 0 {
        responses.len() == 0
    } else if streams.last().state.spec_is_closed_remote() {
        &&& responses.len() > 0
        &&& requests_answered::<H>(streams.drop_last(), responses.drop_last())
        &&& answered::<H>(streams.last(), responses.last())
    } else {
        requests_answered::<H>(streams.drop_last(), responses)
    }
}

/// Whether the handler type takes every request.
pub open spec fn takes_every_request<H: FnMut(ServerRequest) -> Response>() -> bool {
    forall|handler: H, req: ServerRequest| #[trigger] call_requires(handler, (req,))
}

/// Whether `post` is `pre` after `body` was staged as the outbound data of
/// the first stream with the given id; the other streams are as they were.
pub open spec fn stream_staged(
    pre: Seq<DefaultStream>,
    id: StreamId,
    body: Seq<u8>,
    post: Seq<DefaultStream>,
) -> bool {
    &&& post.len() == pre.len()
    &&& forall|i: int|
        0 <= i < pre.len() ==> if is_first(pre, i, id) {
            (#[trigger] post[i])@ == (DefaultStreamView { data: Some(body), sent: 0, ..pre[i]@ })
        } else {
            post[i] == pre[i]
        }
}

/// Whether preparing `responses`, in order, may turn the connection `pre`
/// and the streams `pre_streams` into `post` and `post_streams` and give
/// `r`. For each response, the headers are sent on its stream, without
/// `END_STREAM`, and its body is staged as the outbound data of the stream.
/// A response for a stream that is not there is an error and ends the work,
/// as does a failure to send headers.
pub open spec fn responses_prepared<S: SendFrame>(
    pre: ConnectionView<S>,
    pre_streams: Seq<DefaultStream>,
    responses: Seq<MessageView>,
    r: HttpResult<()>,
    post: ConnectionView<S>,
    post_streams: Seq<DefaultStream>,
) -> bool
    decreases responses.len(), 1nat,
{
    if responses.len() == 0 {
        r is Ok && post == pre && post_streams == pre_streams
    } else if !has_id(pre_streams, responses[0].stream_id) {
        (r matches Err(e) && e is UnknownStreamId) && post == pre && post_streams == pre_streams
    } else {
        exists|first: HttpResult<()>, mid: ConnectionView<S>|
            {
                &&& #[trigger] headers_sent(
                    pre,
                    responses[0].headers,
                    responses[0].stream_id,
                    EndStream::No,
                    first,
                    mid,
                )
                &&& if first is Err {
                    r == first && post == mid && post_streams == pre_streams
                } else {
                    body_staged(mid, pre_streams, responses, r, post, post_streams)
                }
            }
    }
}

/// Whether staging the body of the first response and preparing the other
/// responses may turn the connection `pre` and the streams `pre_streams`
/// into `post` and `post_streams` and give `r`.
pub open spec fn body_staged<S: SendFrame>(
    pre: ConnectionView<S>,
    pre_streams: Seq<DefaultStream>,
    responses: Seq<MessageView>,
    r: HttpResult<()>,
    post: ConnectionView<S>,
    post_streams: Seq<DefaultStream>,
) -> bool
    decreases responses.len(), 0nat,
{
    if responses.len() == 0 {
        false
    } else {
        exists|mid_streams: Seq<DefaultStream>|
            {
                &&& #[trigger] stream_staged(
                    pre_streams,
                    responses[0].stream_id,
                    responses[0].body,
                    mid_streams,
                )
                &&& responses_prepared(
                    pre,
                    mid_streams,
                    responses.skip(1),
                    r,
                    post,
                    post_streams,
                )
            }
    }
}

/// The models of the responses.
pub open spec fn spec_messages(responses: Seq<Response>) -> Seq<MessageView> {
    Seq::new(responses.len(), |i: int| responses[i]@)
}

/// What is left to do for a stream before it is closed on the local side:
/// nothing for a stream that is; otherwise to hand out the outbound data
/// that is pending, and to close.
pub open spec fn work_left(stream: DefaultStream) -> nat {
    if stream.state.spec_is_closed_local() {
        0
    } else {
        1 + stream@.pending().len()
    }
}

/// What is left to do for all the streams together.
pub open spec fn total_work_left(streams: Seq<DefaultStream>) -> nat
    decreases streams.len(),
{
    if streams.len() == 0 {
        0
    } else {
        total_work_left(streams.drop_last()) + work_left(streams.last())
    }
}

/// Where no stream has more left to do than before and one has less, there
/// is less left to do for all together.
pub proof fn lemma_less_work_left(pre: Seq<DefaultStream>, post: Seq<DefaultStream>, at: int)
    requires
        post.len() == pre.len(),
        0 <= at < pre.len(),
        work_left(post[at]) < work_left(pre[at]),
        forall|i: int| 0 <= i < pre.len() ==> work_left(#[trigger] post[i]) <= work_left(pre[i]),
    ensures
        total_work_left(post) < total_work_left(pre),
    decreases pre.len(),
{
    let last = pre.len() - 1;
    if at == last {
        lemma_no_more_work_left(pre.drop_last(), post.drop_last());
    } else {
        assert(post.drop_last()[at] == post[at]);
        assert(pre.drop_last()[at] == pre[at]);
        assert forall|i: int| 0 <= i < pre.drop_last().len() implies work_left(
            #[trigger] post.drop_last()[i],
        ) <= work_left(pre.drop_last()[i]) by {
            assert(post.drop_last()[i] == post[i]);
        }
        lemma_less_work_left(pre.drop_last(), post.drop_last(), at);
    }
}

/// Where no stream has more left to do than before, there is no more left
/// to do for all together.
pub proof fn lemma_no_more_work_left(pre: Seq<DefaultStream>, post: Seq<DefaultStream>)
    requires
        post.len() == pre.len(),
        forall|i: int| 0 <= i < pre.len() ==> work_left(#[trigger] post[i]) <= work_left(pre[i]),
    ensures
        total_work_left(post) <= total_work_left(pre),
    decreases pre.len(),
{
    if pre.len() > 0 {
        assert forall|i: int| 0 <= i < pre.drop_last().len() implies work_left(
            #[trigger] post.drop_last()[i],
        ) <= work_left(pre.drop_last()[i]) by {
            assert(post.drop_last()[i] == post[i]);
        }
        lemma_no_more_work_left(pre.drop_last(), post.drop_last());
    }
}

/// A walk over the streams that takes a chunk leaves less to do.
pub proof fn lemma_walk_makes_progress(
    pre: Seq<DefaultStream>,
    chosen: HttpResult<Option<crate::http::connection::DataChunkView>>,
    post: Seq<DefaultStream>,
)
    requires
        streams_walked(pre, 8192, chosen, post),
        chosen matches Ok(Some(_)),
    ensures
        total_work_left(post) < total_work_left(pre),
{
    let chunk = chosen->Ok_0->Some_0;
    let at = choose|at: int|
        {
            &&& 0 <= at < pre.len()
            &&& #[trigger] stream_picked(pre[at], 8192, chunk, post[at])
            &&& forall|i: int| 0 <= i < at ==> stream_passed(pre[i], 8192, #[trigger] post[i])
            &&& forall|i: int| at < i < pre.len() ==> #[trigger] post[i] == pre[i]
        };
    assert(work_left(post[at]) < work_left(pre[at]));
    assert forall|i: int| 0 <= i < pre.len() implies work_left(#[trigger] post[i]) <= work_left(
        pre[i],
    ) by {
        if i < at {
            assert(stream_passed(pre[i], 8192, post[i]));
        }
    }
    lemma_less_work_left(pre, post, at);
}

/// Whether flushing the streams in at most `rounds` more rounds after the
/// first may turn the connection `pre` and the streams `pre_streams` into
/// `post` and `post_streams` and give `r`: a round queues the next chunk of
/// data; the work ends with the first round that finds nothing to send or
/// fails.
pub open spec fn flushed_in<S: SendFrame>(
    rounds: nat,
    pre: ConnectionView<S>,
    pre_streams: Seq<DefaultStream>,
    r: HttpResult<()>,
    post: ConnectionView<S>,
    post_streams: Seq<DefaultStream>,
) -> bool
    decreases rounds,
{
    exists|status: HttpResult<SendStatus>, mid: ConnectionView<S>, mid_streams: Seq<DefaultStream>|
        {
            &&& #[trigger] next_data_sent(pre_streams, pre, status, mid_streams, mid)
            &&& match status {
                Err(e) => r == Err::<(), HttpError>(e) && post == mid && post_streams
                    == mid_streams,
                Ok(SendStatus::Nothing) => r is Ok && post == mid && post_streams == mid_streams,
                Ok(SendStatus::Sent) => rounds > 0 && flushed_in(
                    (rounds - 1) as nat,
                    mid,
                    mid_streams,
                    r,
                    post,
                    post_streams,
                ),
            }
        }
}

/// Whether flushing the streams may turn the connection `pre` and the
/// streams `pre_streams` into `post` and `post_streams` and give `r`.
pub open spec fn flushed<S: SendFrame>(
    pre: ConnectionView<S>,
    pre_streams: Seq<DefaultStream>,
    r: HttpResult<()>,
    post: ConnectionView<S>,
    post_streams: Seq<DefaultStream>,
) -> bool {
    exists|rounds: nat| #[trigger] flushed_in(rounds, pre, pre_streams, r, post, post_streams)
}

/// A flush that follows a round that has sent a chunk is a flush from
/// before that round.
pub proof fn lemma_flushed_after_round<S: SendFrame>(
    pre: ConnectionView<S>,
    pre_streams: Seq<DefaultStream>,
    mid: ConnectionView<S>,
    mid_streams: Seq<DefaultStream>,
    r: HttpResult<()>,
    post: ConnectionView<S>,
    post_streams: Seq<DefaultStream>,
)
    requires
        next_data_sent(
            pre_streams,
            pre,
            Ok::<SendStatus, HttpError>(SendStatus::Sent),
            mid_streams,
            mid,
        ),
        flushed(mid, mid_streams, r, post, post_streams),
    ensures
        flushed(pre, pre_streams, r, post, post_streams),
{
    let rounds = choose|rounds: nat| #[trigger]
        flushed_in(rounds, mid, mid_streams, r, post, post_streams);
    assert(flushed_in(rounds + 1, pre, pre_streams, r, post, post_streams));
}

/// Whether handling the next frame and answering the requests may turn the
/// server `pre` into `post` and give `r`. The next frame is read and
/// handled; the handler is asked for a response to each request whose
/// stream is closed on the remote side; the responses are prepared; the
/// streams are flushed; and the streams that are closed on both sides are
/// dropped. The first step that fails ends the work, and its error is
/// handed on.
pub open spec fn next_handled<TS: TransportStream, H: FnMut(ServerRequest) -> Response>(
    pre: SimpleServer<TS, H>,
    r: HttpResult<()>,
    post: SimpleServer<TS, H>,
) -> bool {
    exists|told: Seq<SessionEvent>, read: HttpResult<()>, mid: SimpleConnection<TS>|
        {
            &&& #[trigger] next_frame_handled(pre.conn.conn, read, mid.conn, told)
            &&& session_run(pre.conn.streams, told, mid.streams)
            &&& post.conn.conn.receiver == mid.conn.receiver
            &&& if read is Err {
                r == read && post.conn.conn@ == mid.conn@ && post.conn.streams.state.streams@
                    == mid.streams.state.streams@
            } else {
                requests_handled::<H, TransportSender<TS>>(
                    mid.conn@,
                    mid.streams.state.streams@,
                    r,
                    post.conn.conn@,
                    post.conn.streams.state.streams@,
                )
            }
        }
}

/// Whether answering the requests may turn the connection `pre` and the
/// streams `pre_streams` of a server into `post` and `post_streams` and
/// give `r`: see `next_handled`.
pub open spec fn requests_handled<H: FnMut(ServerRequest) -> Response, S: SendFrame>(
    pre: ConnectionView<S>,
    pre_streams: Seq<DefaultStream>,
    r: HttpResult<()>,
    post: ConnectionView<S>,
    post_streams: Seq<DefaultStream>,
) -> bool {
    exists|
        responses: Seq<Response>,
        prepared: HttpResult<()>,
        mid: ConnectionView<S>,
        mid_streams: Seq<DefaultStream>,
    |
        {
            &&& requests_answered::<H>(pre_streams, responses)
            &&& #[trigger] responses_prepared(
                pre,
                pre_streams,
                spec_messages(responses),
                prepared,
                mid,
                mid_streams,
            )
            &&& if prepared is Err {
                r == prepared && post == mid && post_streams == mid_streams
            } else {
                streams_flushed_and_reaped(mid, mid_streams, r, post, post_streams)
            }
        }
}

/// Whether flushing the streams and dropping those that are closed on both
/// sides may turn the connection `pre` and the streams `pre_streams` of a
/// server into `post` and `post_streams` and give `r`.
pub open spec fn streams_flushed_and_reaped<S: SendFrame>(
    pre: ConnectionView<S>,
    pre_streams: Seq<DefaultStream>,
    r: HttpResult<()>,
    post: ConnectionView<S>,
    post_streams: Seq<DefaultStream>,
) -> bool {
    exists|mid_streams: Seq<DefaultStream>|
        {
            &&& #[trigger] flushed(pre, pre_streams, r, post, mid_streams)
            &&& if r is Err {
                post_streams == mid_streams
            } else {
                post_streams == live_streams(mid_streams)
            }
        }
}

/// The struct implements a simple HTTP/2 server that allows users to
/// register a request handler (a callback taking a `ServerRequest` and
/// returning a `Response`) which is run on all received requests.
///
/// The `handle_next` method needs to be called regularly in order to have
/// the server process received frames, as well as send out the responses.
pub struct SimpleServer<TS, H> where TS: TransportStream, H: FnMut(ServerRequest) -> Response {
    pub conn: SimpleConnection<TS>,
    pub handler: H,
}

/// Whether starting a server on the transport `stream` may give `r`.
///
/// The 24 bytes of the client preface are read; other bytes are a preamble
/// mismatch. The transport is split, and the server initializes a fresh
/// connection over the two halves: it sends its settings and takes the next
/// frame for the settings of the client. An error of the transport at any
/// step is handed on.
pub open spec fn server_started<TS: TransportStream, H: FnMut(ServerRequest) -> Response>(
    stream: TS,
    handler: H,
    r: HttpResult<SimpleServer<TS, H>>,
) -> bool {
    exists|preface: HttpResult<Seq<u8>>, sender: TS|
        {
            &&& #[trigger] TS::read(stream, 24, preface, sender)
            &&& match preface {
                Err(e) => r matches Err(e2) && e2 == e,
                Ok(bytes) => if bytes != client_preface() {
                    r matches Err(e) && e is PreambleMismatch
                } else {
                    preface_accepted(sender, handler, r)
                },
            }
        }
}

/// Whether starting a server on the transport `sender`, from which the
/// client preface has been read, may give `r`.
pub open spec fn preface_accepted<TS: TransportStream, H: FnMut(ServerRequest) -> Response>(
    sender: TS,
    handler: H,
    r: HttpResult<SimpleServer<TS, H>>,
) -> bool {
    exists|half: HttpResult<TS>|
        {
            &&& #[trigger] TS::split(sender, half)
            &&& match half {
                Err(e) => r matches Err(e2) && e2 == e,
                Ok(receiver) => connection_started(sender, receiver, handler, r),
            }
        }
}

/// Whether `conn` is a fresh connection of a simple server over the two
/// halves of a transport.
pub open spec fn is_fresh_connection<TS: TransportStream>(
    conn: SimpleConnection<TS>,
    sender: TS,
    receiver: TS,
) -> bool {
    &&& conn.conn.sender.ts == sender
    &&& conn.conn.receiver.ts == receiver
    &&& conn.streams.state.streams@ == Seq::<DefaultStream>::empty()
    &&& conn.conn.sender.log@ == Seq::<Seq<u8>>::empty()
    &&& conn.conn@ == (ConnectionView {
        sender: conn.conn.sender,
        encoder_table: Seq::empty(),
        decoder_table: Seq::empty(),
        decoder_max_size: 4096,
        scheme: HttpScheme::Http,
        settings: ConnectionSettings::spec_default(),
        goaway: None,
        state: ConnectionState::PrefacePending,
    })
}

/// Whether initializing a fresh connection over the two halves of a
/// transport may give `r`: what the initialization gives, with the server
/// around the connection where it has gone well.
pub open spec fn connection_started<TS: TransportStream, H: FnMut(ServerRequest) -> Response>(
    sender: TS,
    receiver: TS,
    handler: H,
    r: HttpResult<SimpleServer<TS, H>>,
) -> bool {
    exists|
        fresh: SimpleConnection<TS>,
        told: Seq<SessionEvent>,
        done: HttpResult<()>,
        conn: SimpleConnection<TS>,
    |
        {
            &&& is_fresh_connection(fresh, sender, receiver)
            &&& #[trigger] server_initialized(fresh.conn, done, conn.conn, told)
            &&& session_run(fresh.streams, told, conn.streams)
            &&& match done {
                Err(e) => r matches Err(e2) && e2 == e,
                Ok(_) => r matches Ok(server) && server.conn == conn && server.handler == handler,
            }
        }
}

/// Whether greeting a client whose first bytes `preface` were read from the
/// transport `stream` may give `r`. Bytes other than the client preface are
/// a preamble mismatch. Otherwise the transport is split, a fresh
/// connection is made over its halves, and the settings of the server are
/// sent; a failure of the split or of the sending is handed on, and
/// otherwise the server is given, with the settings of the client still to
/// be taken.
pub open spec fn client_greeted<TS: TransportStream, H: FnMut(ServerRequest) -> Response>(
    preface: Seq<u8>,
    stream: TS,
    handler: H,
    r: HttpResult<SimpleServer<TS, H>>,
) -> bool {
    if preface != client_preface() {
        r matches Err(e) && e is PreambleMismatch
    } else {
        exists|half: HttpResult<TS>|
            {
                &&& #[trigger] TS::split(stream, half)
                &&& match half {
                    Err(e) => r matches Err(e2) && e2 == e,
                    Ok(receiver) => settings_offered(stream, receiver, handler, r),
                }
            }
    }
}

/// Whether sending the settings of the server on a fresh connection over
/// the two halves of a transport may give `r`.
pub open spec fn settings_offered<TS: TransportStream, H: FnMut(ServerRequest) -> Response>(
    sender: TS,
    receiver: TS,
    handler: H,
    r: HttpResult<SimpleServer<TS, H>>,
) -> bool {
    exists|fresh: SimpleConnection<TS>, sent: HttpResult<()>, conn: SimpleConnection<TS>|
        {
            &&& is_fresh_connection(fresh, sender, receiver)
            &&& #[trigger] settings_sent(fresh.conn@, sent, conn.conn@)
            &&& conn.conn.receiver == fresh.conn.receiver
            &&& conn.streams == fresh.streams
            &&& match sent {
                Err(e) => r matches Err(e2) && e2 == e,
                Ok(_) => r matches Ok(server) && server.conn == conn && server.handler == handler,
            }
        }
}

/// Whether taking the settings of the client may turn the server `pre`
/// into `post` and give `r`: the next frame is read and taken for the
/// settings of the client's preface.
pub open spec fn settings_taken<TS: TransportStream, H: FnMut(ServerRequest) -> Response>(
    pre: SimpleServer<TS, H>,
    r: HttpResult<()>,
    post: SimpleServer<TS, H>,
) -> bool {
    &&& post.handler == pre.handler
    &&& exists|told: Seq<SessionEvent>|
        {
            &&& #[trigger] next_settings_expected(pre.conn.conn, r, post.conn.conn, told)
            &&& session_run(pre.conn.streams, told, post.conn.streams)
        }
}

/// A server that has read the client preface, has greeted the client, and
/// has taken the settings of the client is a server that has started.
pub proof fn lemma_greeted_server_started<TS: TransportStream, H: FnMut(ServerRequest) -> Response>(
    stream: TS,
    preface: Seq<u8>,
    sender: TS,
    handler: H,
    greeted: SimpleServer<TS, H>,
    server: SimpleServer<TS, H>,
)
    requires
        TS::read(stream, 24, Ok::<Seq<u8>, HttpError>(preface), sender),
        client_greeted(preface, sender, handler, Ok::<SimpleServer<TS, H>, HttpError>(greeted)),
        settings_taken(greeted, Ok::<(), HttpError>(()), server),
    ensures
        server_started(stream, handler, Ok::<SimpleServer<TS, H>, HttpError>(server)),
{
    let r = Ok::<SimpleServer<TS, H>, HttpError>(server);
    let mid = Ok::<SimpleServer<TS, H>, HttpError>(greeted);
    let done = Ok::<(), HttpError>(());
    let half = choose|half: HttpResult<TS>|
        {
            &&& #[trigger] TS::split(sender, half)
            &&& match half {
                Err(e) => mid matches Err(e2) && e2 == e,
                Ok(receiver) => settings_offered(sender, receiver, handler, mid),
            }
        };
    let receiver = half->Ok_0;
    let (fresh, sent, conn) = choose|
        fresh: SimpleConnection<TS>,
        sent: HttpResult<()>,
        conn: SimpleConnection<TS>,
    |
        {
            &&& is_fresh_connection(fresh, sender, receiver)
            &&& #[trigger] settings_sent(fresh.conn@, sent, conn.conn@)
            &&& conn.conn.receiver == fresh.conn.receiver
            &&& conn.streams == fresh.streams
            &&& match sent {
                Err(e) => mid matches Err(e2) && e2 == e,
                Ok(_) => mid matches Ok(server) && server.conn == conn && server.handler
                    == handler,
            }
        };
    let told = choose|told: Seq<SessionEvent>|
        {
            &&& #[trigger] next_settings_expected(greeted.conn.conn, done, server.conn.conn, told)
            &&& session_run(greeted.conn.streams, told, server.conn.streams)
        };
    assert(server_initialized(fresh.conn, done, server.conn.conn, told));
    assert(connection_started(sender, receiver, handler, r));
    assert(preface_accepted(sender, handler, r));
}

/// A server starts only after it has read the 24 bytes of the client
/// preface from its transport and has taken a `SETTINGS` frame without ACK,
/// read from the transport, for the settings of the client.
pub proof fn lemma_server_started<TS: TransportStream, H: FnMut(ServerRequest) -> Response>(
    stream: TS,
    handler: H,
    r: HttpResult<SimpleServer<TS, H>>,
)
    requires
        server_started(stream, handler, r),
        r is Ok,
    ensures
        exists|sender: TS| #[trigger]
            TS::read(stream, 24, Ok::<Seq<u8>, HttpError>(client_preface()), sender),
        exists|raw: RawFrameView, before: TS, after: TS|
            {
                &&& #[trigger] frame_read(before, Ok::<RawFrameView, HttpError>(raw), after)
                &&& is_settings_preface(raw)
            },
{
    let (preface, sender) = choose|preface: HttpResult<Seq<u8>>, sender: TS|
        {
            &&& #[trigger] TS::read(stream, 24, preface, sender)
            &&& match preface {
                Err(e) => r matches Err(e2) && e2 == e,
                Ok(bytes) => if bytes != client_preface() {
                    r matches Err(e) && e is PreambleMismatch
                } else {
                    preface_accepted(sender, handler, r)
                },
            }
        };
    assert(preface == Ok::<Seq<u8>, HttpError>(client_preface()));
    let half = choose|half: HttpResult<TS>|
        {
            &&& #[trigger] TS::split(sender, half)
            &&& match half {
                Err(e) => r matches Err(e2) && e2 == e,
                Ok(receiver) => connection_started(sender, receiver, handler, r),
            }
        };
    let receiver = half->Ok_0;
    let (fresh, told, done, conn) = choose|
        fresh: SimpleConnection<TS>,
        told: Seq<SessionEvent>,
        done: HttpResult<()>,
        conn: SimpleConnection<TS>,
    |
        {
            &&& is_fresh_connection(fresh, sender, receiver)
            &&& #[trigger] server_initialized(fresh.conn, done, conn.conn, told)
            &&& session_run(fresh.streams, told, conn.streams)
            &&& match done {
                Err(e) => r matches Err(e2) && e2 == e,
                Ok(_) => r matches Ok(server) && server.conn == conn && server.handler == handler,
            }
        };
    let (first, mid) = choose|
        first: HttpResult<()>,
        mid: HttpConnection<TransportSender<TS>, TransportReceiveFrame<TS>>,
    |
        {
            &&& #[trigger] settings_sent(fresh.conn@, first, mid@)
            &&& mid.receiver == fresh.conn.receiver
            &&& if first is Err {
                done == first && conn.conn == mid && told == Seq::<SessionEvent>::empty()
            } else {
                next_settings_expected(mid, done, conn.conn, told)
            }
        };
    lemma_settings_expected_of_received(mid, done, conn.conn, told);
    let raw = choose|raw: RawFrameView|
        {
            &&& #[trigger] TransportReceiveFrame::<TS>::received(
                mid.receiver,
                Ok::<RawFrameView, HttpError>(raw),
                conn.conn.receiver,
            )
            &&& is_settings_preface(raw)
        };
    assert(frame_read(
        mid.receiver.ts,
        Ok::<RawFrameView, HttpError>(raw),
        conn.conn.receiver.ts,
    ));
}

/// Whether the bytes start with the 24 bytes of the client preface,
/// followed by one whole frame that is a `SETTINGS` frame without ACK.
pub open spec fn holds_client_hello(input: Seq<u8>) -> bool {
    &&& input.len() >= 24
    &&& input.take(24) == client_preface()
    &&& match spec_first_frame(input.skip(24)) {
        Some(raw) => is_settings_preface(raw),
        None => false,
    }
}

/// Over a transport in memory, a fresh connection of a server is
/// initialized if and only if the input of its receiver starts with one
/// whole frame that is a `SETTINGS` frame without ACK.
pub proof fn lemma_memory_server_initialized(
    fresh: SimpleConnection<MemoryTransport>,
    done: HttpResult<()>,
    conn: SimpleConnection<MemoryTransport>,
    told: Seq<SessionEvent>,
)
    requires
        server_initialized(fresh.conn, done, conn.conn, told),
        fresh.conn@.state != ConnectionState::Closed,
    ensures
        done is Ok <==> (match spec_first_frame(fresh.conn.receiver.ts.input@) {
            Some(raw) => is_settings_preface(raw),
            None => false,
        }),
        done is Ok ==> {
            &&& told == Seq::<SessionEvent>::empty()
            &&& conn.conn.sender.ts.output@ == fresh.conn.sender.ts.output@ + spec_settings_wire()
                + spec_settings_ack_wire()
            &&& conn.conn.sender.log@ == fresh.conn.sender.log@.push(spec_settings_wire()).push(
                spec_settings_ack_wire(),
            )
        },
{
    let (first, mid) = choose|
        first: HttpResult<()>,
        mid: HttpConnection<
            TransportSender<MemoryTransport>,
            TransportReceiveFrame<MemoryTransport>,
        >,
    |
        {
            &&& #[trigger] settings_sent(fresh.conn@, first, mid@)
            &&& mid.receiver == fresh.conn.receiver
            &&& if first is Err {
                done == first && conn.conn == mid && told == Seq::<SessionEvent>::empty()
            } else {
                next_settings_expected(mid, done, conn.conn, told)
            }
        };
    assert(fresh.conn@.sender.reliable());
    assert(first is Ok);
    assert(mid@.sender.reliable());
    let received = choose|received: HttpResult<RawFrameView>|
        {
            &&& #[trigger] TransportReceiveFrame::<MemoryTransport>::received(
                mid.receiver,
                received,
                conn.conn.receiver,
            )
            &&& match received {
                Ok(raw) => settings_expected(mid@, raw, done, conn.conn@, told),
                Err(e) => done == Err::<(), HttpError>(e) && conn.conn@ == mid@.closed() && told
                    == Seq::<SessionEvent>::empty(),
            }
        };
    lemma_memory_frame_read(mid.receiver.ts, received, conn.conn.receiver.ts);
    match received {
        Ok(raw) => {
            lemma_preface_accepted(mid@, raw, done, conn.conn@, told);
            if done is Ok {
                let frame = spec_frame_from_raw(raw)->Some_0->SettingsFrame_0;
                lemma_settings_acknowledged(mid@, frame, done, conn.conn@, told);
                assert(conn.conn.sender.ts.output@ =~= fresh.conn.sender.ts.output@
                    + spec_settings_wire() + spec_settings_ack_wire());
            }
        },
        Err(_) => {},
    }
}

/// Over a transport in memory, the headers of a response reach the
/// transport as one `HEADERS` frame without `END_STREAM`: where the
/// connection is not closed, the id of the stream is one that a stream can
/// have, and the block of the headers fits in one frame, sending them goes
/// well and adds the bytes of that frame, and nothing else, to the output.
pub proof fn lemma_memory_response_headers_written(
    pre: ConnectionView<TransportSender<MemoryTransport>>,
    headers: Seq<(Seq<u8>, Seq<u8>)>,
    stream_id: StreamId,
    r: HttpResult<()>,
    post: ConnectionView<TransportSender<MemoryTransport>>,
)
    requires
        headers_sent(pre, headers, stream_id, EndStream::No, r, post),
        pre.state != ConnectionState::Closed,
        0 < stream_id < 0x8000_0000,
        pre.encoded(headers).len() < 0x100_0000,
    ensures
        r is Ok,
        !spec_headers_frame(pre.encoded(headers), stream_id, EndStream::No).is_end_of_stream(),
        post.sender.ts.output@ == pre.sender.ts.output@ + spec_headers_frame(
            pre.encoded(headers),
            stream_id,
            EndStream::No,
        ).raw().wire(),
{
    assert(!flag_set(0x4u8, 0x1u8)) by (bit_vector);
}

/// Over a transport in memory, a round of a flush that has sent a chunk has
/// added to the output the bytes of one `DATA` frame, with at most 8192
/// bytes of data, and nothing else.
pub proof fn lemma_memory_chunk_written(
    pre_streams: Seq<DefaultStream>,
    pre: ConnectionView<TransportSender<MemoryTransport>>,
    post_streams: Seq<DefaultStream>,
    post: ConnectionView<TransportSender<MemoryTransport>>,
)
    requires
        next_data_sent(
            pre_streams,
            pre,
            Ok::<SendStatus, HttpError>(SendStatus::Sent),
            post_streams,
            post,
        ),
    ensures
        exists|chunk: DataChunkView|
            {
                &&& chunk.data.len() <= 8192
                &&& #[trigger] spec_data_frame(
                    chunk.data,
                    chunk.stream_id,
                    chunk.end_stream,
                ).wf()
                &&& post.sender.ts.output@ == pre.sender.ts.output@ + spec_data_frame(
                    chunk.data,
                    chunk.stream_id,
                    chunk.end_stream,
                ).raw().wire()
            },
{
    let r = Ok::<SendStatus, HttpError>(SendStatus::Sent);
    let chosen = choose|chosen: HttpResult<Option<DataChunkView>>|
        {
            &&& #[trigger] streams_walked(pre_streams, 8192, chosen, post_streams)
            &&& choice_sent(pre, chosen, r, post)
        };
    let chunk = chosen->Ok_0->Some_0;
    let at = choose|at: int|
        {
            &&& 0 <= at < pre_streams.len()
            &&& #[trigger] stream_picked(pre_streams[at], 8192, chunk, post_streams[at])
        };
    assert(!flag_set(0x1u8, 0x8u8) && !flag_set(0x0u8, 0x8u8)) by (bit_vector);
    assert(spec_data_frame(chunk.data, chunk.stream_id, chunk.end_stream).wf());
}

/// Over a transport in memory, a server that has started has written its
/// own settings and the acknowledgement of the settings of the client, and
/// nothing else, and holds no stream.
pub proof fn lemma_memory_server_start_writes<H: FnMut(ServerRequest) -> Response>(
    stream: MemoryTransport,
    handler: H,
    r: HttpResult<SimpleServer<MemoryTransport, H>>,
)
    requires
        server_started(stream, handler, r),
        r is Ok,
    ensures
        r->Ok_0.conn.conn.sender.ts.output@ == stream.output@ + spec_settings_wire()
            + spec_settings_ack_wire(),
        r->Ok_0.conn.streams.state.streams@ == Seq::<DefaultStream>::empty(),
        r->Ok_0.handler == handler,
{
    let (preface, sender) = choose|preface: HttpResult<Seq<u8>>, sender: MemoryTransport|
        {
            &&& #[trigger] MemoryTransport::read(stream, 24, preface, sender)
            &&& match preface {
                Err(e) => r matches Err(e2) && e2 == e,
                Ok(bytes) => if bytes != client_preface() {
                    r matches Err(e) && e is PreambleMismatch
                } else {
                    preface_accepted(sender, handler, r)
                },
            }
        };
    let half = choose|half: HttpResult<MemoryTransport>|
        {
            &&& #[trigger] MemoryTransport::split(sender, half)
            &&& match half {
                Err(e) => r matches Err(e2) && e2 == e,
                Ok(receiver) => connection_started(sender, receiver, handler, r),
            }
        };
    let receiver = half->Ok_0;
    let (fresh, told, done, conn) = choose|
        fresh: SimpleConnection<MemoryTransport>,
        told: Seq<SessionEvent>,
        done: HttpResult<()>,
        conn: SimpleConnection<MemoryTransport>,
    |
        {
            &&& is_fresh_connection(fresh, sender, receiver)
            &&& #[trigger] server_initialized(fresh.conn, done, conn.conn, told)
            &&& session_run(fresh.streams, told, conn.streams)
            &&& match done {
                Err(e) => r matches Err(e2) && e2 == e,
                Ok(_) => r matches Ok(server) && server.conn == conn && server.handler == handler,
            }
        };
    lemma_memory_server_initialized(fresh, done, conn, told);
}

/// Where the receiver of a server fails, or gives a raw frame that is no
/// valid frame of its type, handling the next frame fails, nothing is handed
/// to the sender, and the streams stay as they are.
pub proof fn lemma_failed_read_changes_nothing<
    TS: TransportStream,
    H: FnMut(ServerRequest) -> Response,
>(pre: SimpleServer<TS, H>, r: HttpResult<()>, post: SimpleServer<TS, H>)
    requires
        next_handled(pre, r, post),
        forall|received: HttpResult<RawFrameView>, after: TransportReceiveFrame<TS>| #[trigger]
            TransportReceiveFrame::<TS>::received(pre.conn.conn.receiver, received, after) ==> (
            received matches Ok(raw) ==> spec_frame_from_raw(raw) is None),
    ensures
        r is Err,
        post.conn.conn.sender == pre.conn.conn.sender,
        post.conn.streams.state.streams@ == pre.conn.streams.state.streams@,
{
    let (told, read, mid) = choose|
        told: Seq<SessionEvent>,
        read: HttpResult<()>,
        mid: SimpleConnection<TS>,
    |
        {
            &&& #[trigger] next_frame_handled(pre.conn.conn, read, mid.conn, told)
            &&& session_run(pre.conn.streams, told, mid.streams)
            &&& post.conn.conn.receiver == mid.conn.receiver
            &&& if read is Err {
                r == read && post.conn.conn@ == mid.conn@ && post.conn.streams.state.streams@
                    == mid.streams.state.streams@
            } else {
                requests_handled::<H, TransportSender<TS>>(
                    mid.conn@,
                    mid.streams.state.streams@,
                    r,
                    post.conn.conn@,
                    post.conn.streams.state.streams@,
                )
            }
        };
    lemma_failed_receive_sends_nothing(pre.conn.conn, read, mid.conn, told);
}

/// Over a transport in memory, a server starts if and only if the input
/// starts with the client preface, followed by one whole frame that is a
/// `SETTINGS` frame without ACK.
pub proof fn lemma_memory_server_starts<H: FnMut(ServerRequest) -> Response>(
    stream: MemoryTransport,
    handler: H,
    r: HttpResult<SimpleServer<MemoryTransport, H>>,
)
    requires
        server_started(stream, handler, r),
    ensures
        r is Ok <==> holds_client_hello(stream.input@),
{
    let input = stream.input@;
    let (preface, sender) = choose|preface: HttpResult<Seq<u8>>, sender: MemoryTransport|
        {
            &&& #[trigger] MemoryTransport::read(stream, 24, preface, sender)
            &&& match preface {
                Err(e) => r matches Err(e2) && e2 == e,
                Ok(bytes) => if bytes != client_preface() {
                    r matches Err(e) && e is PreambleMismatch
                } else {
                    preface_accepted(sender, handler, r)
                },
            }
        };
    if input.len() >= 24 && input.take(24) == client_preface() {
        assert(sender.input@ == input.skip(24));
        let half = choose|half: HttpResult<MemoryTransport>|
            {
                &&& #[trigger] MemoryTransport::split(sender, half)
                &&& match half {
                    Err(e) => r matches Err(e2) && e2 == e,
                    Ok(receiver) => connection_started(sender, receiver, handler, r),
                }
            };
        let receiver = half->Ok_0;
        let (fresh, told, done, conn) = choose|
            fresh: SimpleConnection<MemoryTransport>,
            told: Seq<SessionEvent>,
            done: HttpResult<()>,
            conn: SimpleConnection<MemoryTransport>,
        |
            {
                &&& is_fresh_connection(fresh, sender, receiver)
                &&& #[trigger] server_initialized(fresh.conn, done, conn.conn, told)
                &&& session_run(fresh.streams, told, conn.streams)
                &&& match done {
                    Err(e) => r matches Err(e2) && e2 == e,
                    Ok(_) => r matches Ok(server) && server.conn == conn && server.handler
                        == handler,
                }
            };
        assert(r is Ok <==> done is Ok);
        assert(fresh.conn.receiver.ts.input@ == input.skip(24));
        lemma_memory_server_initialized(fresh, done, conn, told);
    }
}

impl<TS, H> SimpleServer<TS, H> where TS: TransportStream, H: FnMut(ServerRequest) -> Response {
    /// Creates a new `SimpleServer` that will use the given `TransportStream`
    /// to communicate to the client. Assumes that the stream is fully
    /// uninitialized -- no preface sent or read yet.
    pub fn new(stream: TS, handler: H) -> (r: HttpResult<SimpleServer<TS, H>>)
        ensures
            server_started(stream, handler, r),
    {
        let mut sender = stream;
        // First assert that the preface is received
        let preface = sender.recv_exact(24);
        let ghost preface_view = crate::http::transport::spec_bytes_result(preface);
        assert(TS::read(stream, 24, preface_view, sender));
        let bytes: Vec<u8> = match preface {
            Err(e) => {
                return Err(e);
            },
            Ok(bytes) => bytes,
        };
        if !is_client_preface(bytes.as_slice()) {
            return Err(HttpError::PreambleMismatch);
        }
        let half = sender.try_split();
        assert(TS::split(sender, half));
        let receiver: TS = match half {
            Err(e) => {
                return Err(e);
            },
            Ok(receiver) => receiver,
        };
        let conn = HttpConnection::new(
            TransportSender::new(sender),
            TransportReceiveFrame::new(receiver),
            HttpScheme::Http,
        );
        let state = DefaultSessionState::<DefaultStream>::new();
        let mut conn = ServerConnection::with_connection(conn, state, SimpleFactory);
        let ghost fresh = conn;
        // Initialize the connection -- send own settings and process the peer's
        let done = conn.init();
        proof {
            let told = choose|told: Seq<SessionEvent>|
                {
                    &&& #[trigger] server_initialized(fresh.conn, done, conn.conn, told)
                    &&& session_run(fresh.streams, told, conn.streams)
                };
            assert(is_fresh_connection(fresh, sender, receiver));
            assert(server_initialized(fresh.conn, done, conn.conn, told));
        }
        match done {
            Err(e) => Err(e),
            Ok(_) => {
                // Set up done
                Ok(SimpleServer { conn, handler })
            },
        }
    }

    /// Greets a client whose first bytes were read from the transport
    /// already: checks that the bytes are the client preface, makes a fresh
    /// connection over the transport, and sends the settings of the server.
    /// The settings of the client are still to be taken: see
    /// `take_settings`.
    pub fn greet(preface: &[u8], stream: TS, handler: H) -> (r: HttpResult<SimpleServer<TS, H>>)
        ensures
            client_greeted(preface@, stream, handler, r),
    {
        if !is_client_preface(preface) {
            return Err(HttpError::PreambleMismatch);
        }
        let half = stream.try_split();
        assert(TS::split(stream, half));
        let receiver: TS = match half {
            Err(e) => {
                return Err(e);
            },
            Ok(receiver) => receiver,
        };
        let conn = HttpConnection::new(
            TransportSender::new(stream),
            TransportReceiveFrame::new(receiver),
            HttpScheme::Http,
        );
        let state = DefaultSessionState::<DefaultStream>::new();
        let mut conn = ServerConnection::with_connection(conn, state, SimpleFactory);
        let ghost fresh = conn;
        let sent = conn.send_settings();
        proof {
            assert(is_fresh_connection(fresh, stream, receiver));
            assert(settings_sent(fresh.conn@, sent, conn.conn@));
        }
        match sent {
            Err(e) => Err(e),
            Ok(_) => Ok(SimpleServer { conn, handler }),
        }
    }

    /// Takes the settings of the client: reads the next frame, which has to
    /// be a `SETTINGS` frame without ACK, and handles it. Any other frame is
    /// a preamble mismatch.
    pub fn take_settings(&mut self) -> (r: HttpResult<()>)
        ensures
            settings_taken(*old(self), r, *final(self)),
    {
        self.conn.conn.expect_settings(&mut self.conn.streams)
    }

    /// Invokes the request handler for each fully received request. Collects
    /// all the responses into the returned `Vec`.
    fn handle_requests(&mut self) -> (r: HttpResult<Vec<Response>>)
        requires
            takes_every_request::<H>(),
        ensures
            final(self).conn == old(self).conn,
            r matches Ok(responses) && requests_answered::<H>(
                old(self).conn.streams.state.streams@,
                responses@,
            ),
    {
        let streams: Vec<&DefaultStream> = self.conn.streams.state.iter();
        let ghost all = self.conn.streams.state.streams@;
        let empty: Vec<Header> = Vec::new();
        let mut responses: Vec<Response> = Vec::new();
        let mut i: usize = 0;
        assert(all.take(0) =~= Seq::<DefaultStream>::empty());
        while i < streams.len()
            invariant
                i <= streams@.len(),
                streams@.len() == all.len(),
                forall|k: int| 0 <= k < streams@.len() ==> *#[trigger] streams@[k] == all[k],
                takes_every_request::<H>(),
                self.conn == old(self).conn,
                empty@.len() == 0,
                all == self.conn.streams.state.streams@,
                requests_answered::<H>(all.take(i as int), responses@),
            decreases streams@.len() - i,
        {
            let stream: &DefaultStream = streams[i];
            proof {
                assert(all.take(i + 1).drop_last() =~= all.take(i as int));
                assert(all.take(i + 1).last() == *stream);
            }
            if stream.is_closed_remote() {
                let headers: &[Header] = match &stream.headers {
                    Some(headers) => {
                        let slice: &[Header] = headers.as_slice();
                        assert(slice.deep_view() =~= headers.deep_view());
                        slice
                    },
                    None => {
                        let slice: &[Header] = empty.as_slice();
                        assert(slice.deep_view() =~= Seq::empty());
                        slice
                    },
                };
                let req = ServerRequest {
                    stream_id: stream.stream_id,
                    headers,
                    body: stream.body.as_slice(),
                };
                assert(is_request_of(req, *stream));
                let ghost before = self.handler;
                let response = (self.handler)(req);
                let ghost previous = responses@;
                responses.push(response);
                proof {
                    assert(call_ensures(before, (req,), response));
                    assert(responses@.drop_last() =~= previous);
                    assert(answered::<H>(*stream, response));
                }
            }
            i += 1;
        }
        assert(all.take(i as int) =~= all);
        Ok(responses)
    }

    /// Handles the next incoming frame, blocking to receive it if nothing is
    /// available on the underlying stream.
    ///
    /// Handling the frame can trigger the handler callback. Any responses
    /// returned by the handler are immediately flushed out to the client
    /// (blocking the call until it's done).
    ///
    /// The handler must be one that takes every request.
    #[verifier::rlimit(60)]
    pub fn handle_next(&mut self) -> (r: HttpResult<()>)
        requires
            takes_every_request::<H>(),
        ensures
            next_handled(*old(self), r, *final(self)),
    {
        let read = self.conn.handle_next_frame();
        let ghost mid = self.conn;
        proof {
            let told = choose|told: Seq<SessionEvent>|
                {
                    &&& #[trigger] next_frame_handled(old(self).conn.conn, read, mid.conn, told)
                    &&& session_run(old(self).conn.streams, told, mid.streams)
                };
            assert(next_frame_handled(old(self).conn.conn, read, mid.conn, told));
        }
        match read {
            Err(e) => {
                return Err(e);
            },
            Ok(_) => {},
        }
        let responses: Vec<Response> = match self.handle_requests() {
            Ok(responses) => responses,
            Err(e) => {
                return Err(e);
            },
        };
        let ghost answers = responses@;
        let prepared = self.prepare_responses(responses);
        let ghost ready = self.conn;
        proof {
            assert(responses_prepared(
                mid.conn@,
                mid.streams.state.streams@,
                spec_messages(answers),
                prepared,
                ready.conn@,
                ready.streams.state.streams@,
            ));
        }
        match prepared {
            Err(e) => {
                return Err(e);
            },
            Ok(_) => {},
        }
        let sent = self.flush_streams();
        let ghost drained = self.conn;
        proof {
            assert(flushed(
                ready.conn@,
                ready.streams.state.streams@,
                sent,
                drained.conn@,
                drained.streams.state.streams@,
            ));
        }
        if sent.is_err() {
            return sent;
        }
        let _reaped = self.reap_streams();
        proof {
            assert(flushed(
                ready.conn@,
                ready.streams.state.streams@,
                sent,
                self.conn.conn@,
                drained.streams.state.streams@,
            ));
            assert(streams_flushed_and_reaped(
                ready.conn@,
                ready.streams.state.streams@,
                sent,
                self.conn.conn@,
                self.conn.streams.state.streams@,
            ));
        }
        sent
    }

    /// Prepares the streams for each of the given responses. Headers for
    /// each response are immediately sent and the data staged into the
    /// streams' outgoing buffer.
    fn prepare_responses(&mut self, responses: Vec<Response>) -> (r: HttpResult<()>)
        ensures
            final(self).handler == old(self).handler,
            final(self).conn.conn.receiver == old(self).conn.conn.receiver,
            responses_prepared(
                old(self).conn.conn@,
                old(self).conn.streams.state.streams@,
                spec_messages(responses@),
                r,
                final(self).conn.conn@,
                final(self).conn.streams.state.streams@,
            ),
    {
        let mut rest: Vec<Response> = responses;
        let ghost all = spec_messages(responses@);
        while rest.len() > 0
            invariant
                self.handler == old(self).handler,
                self.conn.conn.receiver == old(self).conn.conn.receiver,
                all == spec_messages(responses@),
                forall|rf: HttpResult<()>, cf: ConnectionView<TransportSender<TS>>, sf: Seq<DefaultStream>| #[trigger]
                    responses_prepared(
                        self.conn.conn@,
                        self.conn.streams.state.streams@,
                        spec_messages(rest@),
                        rf,
                        cf,
                        sf,
                    ) ==> responses_prepared(
                        old(self).conn.conn@,
                        old(self).conn.streams.state.streams@,
                        all,
                        rf,
                        cf,
                        sf,
                    ),
            decreases rest@.len(),
        {
            let ghost conn0 = self.conn.conn@;
            let ghost streams0 = self.conn.streams.state.streams@;
            let ghost messages = spec_messages(rest@);
            let response: Response = rest.remove(0);
            let ghost message = response@;
            proof {
                assert(messages[0] == message);
                assert(spec_messages(rest@) =~= messages.skip(1));
                lemma_not_first_without_id(streams0, response.stream_id);
            }
            if self.conn.streams.state.get_stream_ref(response.stream_id).is_none() {
                let r: HttpResult<()> = Err(HttpError::UnknownStreamId);
                assert(responses_prepared(conn0, streams0, messages, r, conn0, streams0));
                return r;
            }
            let first = self.conn.start_response(
                response.headers,
                response.stream_id,
                EndStream::No,
            );
            let ghost conn1 = self.conn.conn@;
            proof {
                assert(headers_sent(
                    conn0,
                    message.headers,
                    message.stream_id,
                    EndStream::No,
                    first,
                    conn1,
                ));
            }
            match first {
                Err(e) => {
                    let r: HttpResult<()> = Err(e);
                    assert(responses_prepared(conn0, streams0, messages, r, conn1, streams0));
                    return r;
                },
                Ok(_) => {},
            }
            match self.conn.streams.state.get_stream_mut(response.stream_id) {
                Some(stream) => {
                    stream.set_full_data(response.body);
                },
                None => {},
            }
            proof {
                let streams1 = self.conn.streams.state.streams@;
                assert(stream_staged(streams0, message.stream_id, message.body, streams1));
                assert forall|rf: HttpResult<()>, cf: ConnectionView<TransportSender<TS>>, sf: Seq<DefaultStream>| #[trigger]
                    responses_prepared(
                        conn1,
                        streams1,
                        messages.skip(1),
                        rf,
                        cf,
                        sf,
                    ) implies responses_prepared(conn0, streams0, messages, rf, cf, sf) by {
                    assert(headers_sent(
                        conn0,
                        messages[0].headers,
                        messages[0].stream_id,
                        EndStream::No,
                        first,
                        conn1,
                    ));
                    assert(stream_staged(
                        streams0,
                        messages[0].stream_id,
                        messages[0].body,
                        streams1,
                    ));
                    assert(body_staged(conn1, streams0, messages, rf, cf, sf));
                }
            }
        }
        let r: HttpResult<()> = Ok(());
        proof {
            assert(responses_prepared(
                self.conn.conn@,
                self.conn.streams.state.streams@,
                spec_messages(rest@),
                r,
                self.conn.conn@,
                self.conn.streams.state.streams@,
            ));
        }
        r
    }

    /// Flushes the outgoing buffers of all streams.
    fn flush_streams(&mut self) -> (r: HttpResult<()>)
        ensures
            final(self).handler == old(self).handler,
            final(self).conn.conn.receiver == old(self).conn.conn.receiver,
            flushed(
                old(self).conn.conn@,
                old(self).conn.streams.state.streams@,
                r,
                final(self).conn.conn@,
                final(self).conn.streams.state.streams@,
            ),
    {
        loop
            invariant
                self.handler == old(self).handler,
                self.conn.conn.receiver == old(self).conn.conn.receiver,
                forall|rf: HttpResult<()>, cf: ConnectionView<TransportSender<TS>>, sf: Seq<DefaultStream>| #[trigger]
                    flushed(
                        self.conn.conn@,
                        self.conn.streams.state.streams@,
                        rf,
                        cf,
                        sf,
                    ) ==> flushed(
                        old(self).conn.conn@,
                        old(self).conn.streams.state.streams@,
                        rf,
                        cf,
                        sf,
                    ),
            decreases total_work_left(self.conn.streams.state.streams@),
        {
            let ghost conn0 = self.conn.conn@;
            let ghost streams0 = self.conn.streams.state.streams@;
            let status = self.conn.send_next_data();
            let ghost conn1 = self.conn.conn@;
            let ghost streams1 = self.conn.streams.state.streams@;
            proof {
                assert(next_data_sent(streams0, conn0, status, streams1, conn1));
            }
            match status {
                Err(e) => {
                    let r: HttpResult<()> = Err(e);
                    assert(flushed_in(0, conn0, streams0, r, conn1, streams1));
                    assert(flushed(conn0, streams0, r, conn1, streams1));
                    return r;
                },
                Ok(SendStatus::Nothing) => {
                    let r: HttpResult<()> = Ok(());
                    assert(flushed_in(0, conn0, streams0, r, conn1, streams1));
                    assert(flushed(conn0, streams0, r, conn1, streams1));
                    return r;
                },
                Ok(SendStatus::Sent) => {
                    proof {
                        let chosen = choose|
                            chosen: HttpResult<Option<crate::http::connection::DataChunkView>>,
                        |
                            {
                                &&& #[trigger] streams_walked(streams0, 8192, chosen, streams1)
                                &&& choice_sent(conn0, chosen, status, conn1)
                            };
                        lemma_walk_makes_progress(streams0, chosen, streams1);
                        assert forall|
                            rf: HttpResult<()>,
                            cf: ConnectionView<TransportSender<TS>>,
                            sf: Seq<DefaultStream>,
                        | #[trigger] flushed(conn1, streams1, rf, cf, sf) implies flushed(
                            conn0,
                            streams0,
                            rf,
                            cf,
                            sf,
                        ) by {
                            lemma_flushed_after_round(
                                conn0,
                                streams0,
                                conn1,
                                streams1,
                                rf,
                                cf,
                                sf,
                            );
                        }
                    }
                },
            }
        }
    }

    /// Removes closed streams from the connection state.
    fn reap_streams(&mut self) -> (r: HttpResult<()>)
        ensures
            r is Ok,
            final(self).handler == old(self).handler,
            final(self).conn.conn == old(self).conn.conn,
            final(self).conn.streams.state.streams@ == live_streams(
                old(self).conn.streams.state.streams@,
            ),
    {
        // Moves the streams out of the state and drops them
        let _closed: Vec<DefaultStream> = self.conn.streams.state.get_closed();
        Ok(())
    }
}

} // verus!
