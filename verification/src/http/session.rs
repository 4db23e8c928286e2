//! Sessions and streams: what a connection reports of the frames it reads,
//! the lifecycle of a stream, and the ordered state of the streams of a
//! session.

use vstd::prelude::*;
use vstd::multiset::lemma_multiset_empty_len;
use vstd::seq_lib::{to_multiset_build, to_multiset_len};
use crate::http::{Header, StreamId};

verus! {

/// The states of the lifecycle of a stream.
#[derive(Clone, Copy, Debug, PartialEq, Eq, Structural)]
pub enum StreamState {
    /// Both peers may still send.
    Open,
    /// The peer has finished sending.
    HalfClosedRemote,
    /// The local side has finished sending.
    HalfClosedLocal,
    /// Both sides have finished sending.
    Closed,
}

impl StreamState {
    /// Whether the local side has finished sending.
    pub open spec fn spec_is_closed_local(self) -> bool {
        self == StreamState::HalfClosedLocal || self == StreamState::Closed
    }

    /// Whether the peer has finished sending.
    pub open spec fn spec_is_closed_remote(self) -> bool {
        self == StreamState::HalfClosedRemote || self == StreamState::Closed
    }

    /// The state once the local side has finished sending.
    pub open spec fn spec_close_local(self) -> StreamState {
        if self.spec_is_closed_remote() {
            StreamState::Closed
        } else {
            StreamState::HalfClosedLocal
        }
    }

    /// The state once the peer has finished sending.
    pub open spec fn spec_close_remote(self) -> StreamState {
        if self.spec_is_closed_local() {
            StreamState::Closed
        } else {
            StreamState::HalfClosedRemote
        }
    }

    /// Whether the local side has finished sending.
    #[verifier::when_used_as_spec(spec_is_closed_local)]
    pub fn is_closed_local(self) -> (r: bool)
        ensures
            r == self.spec_is_closed_local(),
    {
        match self {
            StreamState::HalfClosedLocal | StreamState::Closed => true,
            _ => false,
        }
    }

    /// Whether the peer has finished sending.
    #[verifier::when_used_as_spec(spec_is_closed_remote)]
    pub fn is_closed_remote(self) -> (r: bool)
        ensures
            r == self.spec_is_closed_remote(),
    {
        match self {
            StreamState::HalfClosedRemote | StreamState::Closed => true,
            _ => false,
        }
    }

    /// The state once the local side has finished sending.
    #[verifier::when_used_as_spec(spec_close_local)]
    pub fn close_local(self) -> (r: StreamState)
        ensures
            r == self.spec_close_local(),
    {
        if self.is_closed_remote() {
            StreamState::Closed
        } else {
            StreamState::HalfClosedLocal
        }
    }

    /// The state once the peer has finished sending.
    #[verifier::when_used_as_spec(spec_close_remote)]
    pub fn close_remote(self) -> (r: StreamState)
        ensures
            r == self.spec_close_remote(),
    {
        if self.is_closed_local() {
            StreamState::Closed
        } else {
            StreamState::HalfClosedRemote
        }
    }
}

/// What can happen to a stream.
pub enum StreamEvent {
    /// A chunk of the body has arrived.
    Data(Seq<u8>),
    /// Headers have arrived.
    Headers(Seq<(Seq<u8>, Seq<u8>)>),
    /// The stream has been put in the given state.
    State(StreamState),
}

/// What a stream hands out when it is asked for outbound data.
#[derive(Clone, Copy, Debug, PartialEq, Eq, Structural)]
pub enum StreamDataChunk {
    /// A chunk of this many bytes; more data follows.
    Chunk(usize),
    /// A chunk of this many bytes, the last of the stream.
    Last(usize),
    /// Nothing for now; the stream is still open.
    Unavailable,
}

impl StreamDataChunk {
    /// The number of bytes handed out.
    pub open spec fn spec_len(self) -> nat {
        match self {
            StreamDataChunk::Chunk(n) => n as nat,
            StreamDataChunk::Last(n) => n as nat,
            StreamDataChunk::Unavailable => 0,
        }
    }
}

/// Why a stream hands out no data.
#[derive(Clone, Copy, Debug, PartialEq, Eq, Structural)]
pub enum StreamDataError {
    /// The stream is closed on the local side.
    Closed,
    /// The stream failed to produce its data.
    Other,
}

/// The number of bytes that a call for outbound data has handed out.
pub open spec fn spec_chunk_len(r: Result<StreamDataChunk, StreamDataError>) -> nat {
    match r {
        Ok(chunk) => chunk.spec_len(),
        Err(_) => 0,
    }
}

/// One stream of a connection. The session hands it what arrives for it; an
/// implementation decides what to make of headers and data.
pub trait Stream: Sized {
    /// The id of the stream.
    spec fn spec_id(&self) -> StreamId;

    /// The state of the stream.
    spec fn spec_state(&self) -> StreamState;

    /// Whether `stream` is what `new` gives.
    spec fn created(stream: Self) -> bool;

    /// Whether `event` turns the stream `pre` into `post`.
    spec fn step(pre: Self, event: StreamEvent, post: Self) -> bool;

    /// Whether a call for outbound data with room for `room` bytes may turn
    /// the stream `pre` into `post`, give `r` and hand out `bytes`.
    spec fn gave(
        pre: Self,
        room: nat,
        r: Result<StreamDataChunk, StreamDataError>,
        bytes: Seq<u8>,
        post: Self,
    ) -> bool;

    /// Creates a new open stream with the given id.
    fn new(stream_id: StreamId) -> (r: Self)
        ensures
            r.spec_id() == stream_id,
            r.spec_state() == StreamState::Open,
            Self::created(r),
    ;

    /// Returns the id of the stream.
    fn id(&self) -> (r: StreamId)
        ensures
            r == self.spec_id(),
    ;

    /// Returns the state of the stream.
    fn state(&self) -> (r: StreamState)
        ensures
            r == self.spec_state(),
    ;

    /// Handles a new chunk of the body.
    fn new_data_chunk(&mut self, data: &[u8])
        ensures
            final(self).spec_id() == old(self).spec_id(),
            final(self).spec_state() == old(self).spec_state(),
            Self::step(*old(self), StreamEvent::Data(data@), *final(self)),
    ;

    /// Sets the headers of the stream.
    fn set_headers(&mut self, headers: Vec<Header>)
        ensures
            final(self).spec_id() == old(self).spec_id(),
            final(self).spec_state() == old(self).spec_state(),
            Self::step(*old(self), StreamEvent::Headers(headers.deep_view()), *final(self)),
    ;

    /// Puts the stream in the given state.
    fn set_state(&mut self, state: StreamState)
        ensures
            final(self).spec_id() == old(self).spec_id(),
            final(self).spec_state() == state,
            Self::step(*old(self), StreamEvent::State(state), *final(self)),
    ;

    /// Places the next chunk of outbound data at the start of `buf` and tells
    /// how long it is. With the last chunk the stream is closed on the local
    /// side; otherwise its state stays.
    fn get_data_chunk(&mut self, buf: &mut [u8]) -> (r: Result<
        StreamDataChunk,
        StreamDataError,
    >)
        ensures
            final(self).spec_id() == old(self).spec_id(),
            final(buf)@.len() == old(buf)@.len(),
            spec_chunk_len(r) <= old(buf)@.len(),
            final(self).spec_state() == (if r is Ok && r->Ok_0 is Last {
                old(self).spec_state().spec_close_local()
            } else {
                old(self).spec_state()
            }),
            Self::gave(
                *old(self),
                old(buf)@.len(),
                r,
                final(buf)@.take(spec_chunk_len(r) as int),
                *final(self),
            ),
    ;

    /// Closes the stream on both sides.
    fn close(&mut self)
        ensures
            final(self).spec_id() == old(self).spec_id(),
            final(self).spec_state() == StreamState::Closed,
            Self::step(*old(self), StreamEvent::State(StreamState::Closed), *final(self)),
    {
        self.set_state(StreamState::Closed);
    }

    /// Closes the stream on the local side.
    fn close_local(&mut self)
        ensures
            final(self).spec_id() == old(self).spec_id(),
            final(self).spec_state() == old(self).spec_state().spec_close_local(),
            Self::step(
                *old(self),
                StreamEvent::State(old(self).spec_state().spec_close_local()),
                *final(self),
            ),
    {
        let next: StreamState = self.state().close_local();
        self.set_state(next);
    }

    /// Closes the stream on the remote side.
    fn close_remote(&mut self)
        ensures
            final(self).spec_id() == old(self).spec_id(),
            final(self).spec_state() == old(self).spec_state().spec_close_remote(),
            Self::step(
                *old(self),
                StreamEvent::State(old(self).spec_state().spec_close_remote()),
                *final(self),
            ),
    {
        let next: StreamState = self.state().close_remote();
        self.set_state(next);
    }

    /// Returns whether the stream is closed on both sides.
    fn is_closed(&self) -> (r: bool)
        ensures
            r == (self.spec_state() == StreamState::Closed),
    {
        match self.state() {
            StreamState::Closed => true,
            _ => false,
        }
    }

    /// Returns whether the stream is closed on the local side.
    fn is_closed_local(&self) -> (r: bool)
        ensures
            r == self.spec_state().spec_is_closed_local(),
    {
        self.state().is_closed_local()
    }

    /// Returns whether the stream is closed on the remote side.
    fn is_closed_remote(&self) -> (r: bool)
        ensures
            r == self.spec_state().spec_is_closed_remote(),
    {
        self.state().is_closed_remote()
    }
}

/// The mathematical model of a `DefaultStream`.
pub struct DefaultStreamView {
    pub stream_id: StreamId,
    pub headers: Option<Seq<(Seq<u8>, Seq<u8>)>>,
    pub body: Seq<u8>,
    pub state: StreamState,
    pub data: Option<Seq<u8>>,
    pub sent: nat,
}

impl DefaultStreamView {
    /// The outbound data that has not been handed out yet.
    pub open spec fn pending(self) -> Seq<u8> {
        match self.data {
            Some(data) => if self.sent <= data.len() {
                data.skip(self.sent as int)
            } else {
                Seq::empty()
            },
            None => Seq::empty(),
        }
    }
}

/// A stream that keeps in memory what arrives for it, and the outbound data
/// that was staged for it.
#[derive(Clone, Debug, PartialEq)]
pub struct DefaultStream {
    /// The id of the stream.
    pub stream_id: StreamId,
    /// The headers that arrived last, if any did.
    pub headers: Option<Vec<Header>>,
    /// The body that has arrived so far.
    pub body: Vec<u8>,
    /// The state of the stream.
    pub state: StreamState,
    /// The outbound data that was staged, if any was.
    pub data: Option<Vec<u8>>,
    /// How many bytes of the outbound data were handed out.
    pub sent: usize,
}

impl View for DefaultStream {
    type V = DefaultStreamView;

    open spec fn view(&self) -> DefaultStreamView {
        DefaultStreamView {
            stream_id: self.stream_id,
            headers: match self.headers {
                Some(headers) => Some(headers.deep_view()),
                None => None,
            },
            body: self.body@,
            state: self.state,
            data: match self.data {
                Some(data) => Some(data@),
                None => None,
            },
            sent: self.sent as nat,
        }
    }
}

impl DefaultStream {
    /// The model of a stream to which nothing has happened yet.
    pub open spec fn spec_with_id(stream_id: StreamId) -> DefaultStreamView {
        DefaultStreamView {
            stream_id,
            headers: None,
            body: Seq::empty(),
            state: StreamState::Open,
            data: None,
            sent: 0,
        }
    }

    /// Creates a new stream with the id 0.
    pub fn new() -> (r: DefaultStream)
        ensures
            r@ == DefaultStream::spec_with_id(0),
    {
        DefaultStream::with_id(0)
    }

    /// Creates a new open stream with the given id.
    pub fn with_id(stream_id: StreamId) -> (r: DefaultStream)
        ensures
            r@ == DefaultStream::spec_with_id(stream_id),
    {
        DefaultStream {
            stream_id,
            headers: None,
            body: Vec::new(),
            state: StreamState::Open,
            data: None,
            sent: 0,
        }
    }

    /// Stages the whole of the outbound data of the stream. What was staged
    /// before is dropped.
    pub fn set_full_data(&mut self, data: Vec<u8>)
        ensures
            final(self)@ == (DefaultStreamView { data: Some(data@), sent: 0, ..old(self)@ }),
    {
        self.data = Some(data);
        self.sent = 0;
    }
}

impl Stream for DefaultStream {
    open spec fn spec_id(&self) -> StreamId {
        self.stream_id
    }

    open spec fn spec_state(&self) -> StreamState {
        self.state
    }

    open spec fn created(stream: Self) -> bool {
        stream@ == DefaultStream::spec_with_id(stream.stream_id)
    }

    /// Data is added to the body, headers take the place of earlier ones,
    /// and a new state is recorded; all else stays.
    open spec fn step(pre: Self, event: StreamEvent, post: Self) -> bool {
        match event {
            StreamEvent::Data(data) => post@ == (DefaultStreamView {
                body: pre@.body + data,
                ..pre@
            }),
            StreamEvent::Headers(headers) => post@ == (DefaultStreamView {
                headers: Some(headers),
                ..pre@
            }),
            StreamEvent::State(state) => post@ == (DefaultStreamView { state, ..pre@ }),
        }
    }

    /// A stream that is closed on the local side refuses; one without staged
    /// data has nothing for now; any other hands out as much of what is
    /// pending as there is room for, and with the last of it is closed on
    /// the local side.
    open spec fn gave(
        pre: Self,
        room: nat,
        r: Result<StreamDataChunk, StreamDataError>,
        bytes: Seq<u8>,
        post: Self,
    ) -> bool {
        if pre.state.spec_is_closed_local() {
            r == Err::<StreamDataChunk, StreamDataError>(StreamDataError::Closed) && post@ == pre@
        } else if pre@.data is None {
            r == Ok::<StreamDataChunk, StreamDataError>(StreamDataChunk::Unavailable) && post@
                == pre@
        } else {
            let pending = pre@.pending();
            if pending.len() <= room {
                &&& r == Ok::<StreamDataChunk, StreamDataError>(
                    StreamDataChunk::Last(pending.len() as usize),
                )
                &&& bytes == pending
                &&& post@ == (DefaultStreamView {
                    sent: pre@.sent + pending.len(),
                    state: pre.state.spec_close_local(),
                    ..pre@
                })
            } else {
                &&& r == Ok::<StreamDataChunk, StreamDataError>(
                    StreamDataChunk::Chunk(room as usize),
                )
                &&& bytes == pending.take(room as int)
                &&& post@ == (DefaultStreamView { sent: pre@.sent + room, ..pre@ })
            }
        }
    }

    fn new(stream_id: StreamId) -> (r: DefaultStream) {
        DefaultStream::with_id(stream_id)
    }

    fn id(&self) -> (r: StreamId) {
        self.stream_id
    }

    fn state(&self) -> (r: StreamState) {
        self.state
    }

    fn new_data_chunk(&mut self, data: &[u8]) {
        self.body.extend_from_slice(data);
        assert(self.body@ =~= old(self).body@ + data@);
    }

    fn set_headers(&mut self, headers: Vec<Header>) {
        self.headers = Some(headers);
    }

    fn set_state(&mut self, state: StreamState) {
        self.state = state;
    }

    fn get_data_chunk(&mut self, buf: &mut [u8]) -> (r: Result<
        StreamDataChunk,
        StreamDataError,
    >) {
        if self.state.is_closed_local() {
            return Err(StreamDataError::Closed);
        }
        let ghost pre = *self;
        let ghost pending = self@.pending();
        let room: usize = buf.len();
        let (count, last): (usize, bool) = match &self.data {
            None => {
                return Ok(StreamDataChunk::Unavailable);
            },
            Some(data) => {
                let total: usize = data.len();
                let left: usize = if self.sent <= data.len() {
                    data.len() - self.sent
                } else {
                    0
                };
                let count: usize = if left <= room {
                    left
                } else {
                    room
                };
                let mut i: usize = 0;
                while i < count
                    invariant
                        i <= count,
                        count <= left,
                        count <= room,
                        room == buf@.len(),
                        total == data@.len(),
                        left > 0 ==> self.sent + left == data@.len(),
                        Some(*data) == self.data,
                        *self == pre,
                        pending == pre@.pending(),
                        forall|j: int| 0 <= j < i ==> buf@[j] == pending[j],
                    decreases count - i,
                {
                    buf[i] = data[self.sent + i];
                    i += 1;
                }
                (count, left <= room)
            },
        };
        assert(buf@.take(count as int) =~= pending.take(count as int));
        if last {
            assert(pending.take(count as int) =~= pending);
            self.sent = self.sent + count;
            self.state = self.state.close_local();
            Ok(StreamDataChunk::Last(count))
        } else {
            self.sent = self.sent + count;
            Ok(StreamDataChunk::Chunk(count))
        }
    }
}

/// Whether no two streams of the sequence have the same id.
pub open spec fn ids_unique<S: Stream>(streams: Seq<S>) -> bool {
    forall|i: int, j: int|
        0 <= i < j < streams.len() ==> #[trigger] streams[i].spec_id() != #[trigger] streams[j].spec_id()
}

/// Whether a stream of the sequence has the given id.
pub open spec fn has_id<S: Stream>(streams: Seq<S>, id: StreamId) -> bool {
    exists|i: int| 0 <= i < streams.len() && #[trigger] streams[i].spec_id() == id
}

/// Whether the stream is closed on both sides.
pub open spec fn spec_is_closed<S: Stream>(stream: S) -> bool {
    stream.spec_state() == StreamState::Closed
}

/// The streams of the sequence that are closed on both sides, in order.
pub open spec fn closed_streams<S: Stream>(streams: Seq<S>) -> Seq<S> {
    streams.filter(|s: S| spec_is_closed(s))
}

/// The streams of the sequence that are not closed on both sides, in order.
pub open spec fn live_streams<S: Stream>(streams: Seq<S>) -> Seq<S> {
    streams.filter(|s: S| !spec_is_closed(s))
}

/// Whether the stream at `i` is the first of the sequence with the given id.
pub open spec fn is_first<S: Stream>(streams: Seq<S>, i: int, id: StreamId) -> bool {
    0 <= i < streams.len() && streams[i].spec_id() == id && !has_id(streams.take(i), id)
}

/// Whether `post` is `pre` after `event` has happened to the first stream
/// with the given id: that one has made the step and kept its id and its
/// state, the others are as they were. Without such a stream nothing has
/// changed.
pub open spec fn stream_stepped<S: Stream>(
    pre: Seq<S>,
    id: StreamId,
    event: StreamEvent,
    post: Seq<S>,
) -> bool {
    &&& post.len() == pre.len()
    &&& forall|i: int|
        0 <= i < pre.len() ==> if is_first(pre, i, id) {
            &&& S::step(pre[i], event, #[trigger] post[i])
            &&& post[i].spec_id() == id
            &&& post[i].spec_state() == pre[i].spec_state()
        } else {
            post[i] == pre[i]
        }
}

/// Whether `post` is `pre` after the first stream with the given id has
/// been put in the state that `next` gives for its state; its id has stayed,
/// and the other streams are as they were. Without such a stream nothing has
/// changed.
pub open spec fn stream_moved<S: Stream>(
    pre: Seq<S>,
    id: StreamId,
    next: spec_fn(StreamState) -> StreamState,
    post: Seq<S>,
) -> bool {
    &&& post.len() == pre.len()
    &&& forall|i: int|
        0 <= i < pre.len() ==> if is_first(pre, i, id) {
            &&& S::step(pre[i], StreamEvent::State(next(pre[i].spec_state())), #[trigger] post[i])
            &&& post[i].spec_id() == id
            &&& post[i].spec_state() == next(pre[i].spec_state())
        } else {
            post[i] == pre[i]
        }
}

/// In a sequence without a stream of the given id, no stream is the first
/// with that id; and at most one stream of a sequence is.
pub proof fn lemma_not_first_without_id<S: Stream>(streams: Seq<S>, id: StreamId)
    ensures
        !has_id(streams, id) ==> forall|i: int| !is_first(streams, i, id),
        forall|i: int, j: int|
            #[trigger] is_first(streams, i, id) && #[trigger] is_first(streams, j, id) ==> i == j,
{
    assert forall|i: int, j: int| #[trigger]
        is_first(streams, i, id) && #[trigger] is_first(streams, j, id) implies i == j by {
        if i < j {
            assert(streams.take(j)[i].spec_id() == id);
        }
        if j < i {
            assert(streams.take(i)[j].spec_id() == id);
        }
    }
}

/// A stream that is closed on the remote side stays so, and keeps its id,
/// when data or headers arrive for any stream.
pub proof fn lemma_closed_remote_stays<S: Stream>(
    pre: Seq<S>,
    id: StreamId,
    event: StreamEvent,
    post: Seq<S>,
    i: int,
)
    requires
        stream_stepped(pre, id, event, post),
        0 <= i < pre.len(),
        pre[i].spec_state().spec_is_closed_remote(),
    ensures
        post[i].spec_state().spec_is_closed_remote(),
        post[i].spec_id() == pre[i].spec_id(),
{
    if is_first(pre, i, id) {
        assert(S::step(pre[i], event, post[i]));
    } else {
        assert(post[i] == pre[i]);
    }
}

/// After the first stream with the given id was put in a state that is
/// closed on the remote side, it is flagged so, and it is still the first
/// stream with that id.
pub proof fn lemma_end_of_stream_flags<S: Stream>(
    pre: Seq<S>,
    id: StreamId,
    next: spec_fn(StreamState) -> StreamState,
    post: Seq<S>,
    i: int,
)
    requires
        stream_moved(pre, id, next, post),
        is_first(pre, i, id),
        forall|state: StreamState| (#[trigger] next(state)).spec_is_closed_remote(),
    ensures
        post[i].spec_state().spec_is_closed_remote(),
        is_first(post, i, id),
{
    assert(post[i].spec_state() == next(pre[i].spec_state()));
    lemma_not_first_without_id(pre, id);
    assert forall|j: int| 0 <= j < post.take(i).len() implies #[trigger] post.take(
        i,
    )[j].spec_id() != id by {
        assert(!is_first(pre, j, id));
        assert(post[j] == pre[j]);
        assert(pre.take(i)[j].spec_id() != id);
    }
}

/// What a harvest takes and what it leaves. The streams that it takes are
/// closed on both sides, and those that it leaves are not. Every stream is
/// either taken or left, once. A second harvest takes nothing and leaves
/// all.
pub proof fn lemma_harvest<S: Stream>(streams: Seq<S>)
    ensures
        forall|j: int|
            0 <= j < closed_streams(streams).len() ==> spec_is_closed(
                #[trigger] closed_streams(streams)[j],
            ),
        forall|j: int|
            0 <= j < live_streams(streams).len() ==> !spec_is_closed(
                #[trigger] live_streams(streams)[j],
            ),
        closed_streams(streams).to_multiset().add(live_streams(streams).to_multiset())
            == streams.to_multiset(),
        closed_streams(streams).len() + live_streams(streams).len() == streams.len(),
        closed_streams(live_streams(streams)) == Seq::<S>::empty(),
        live_streams(live_streams(streams)) == live_streams(streams),
    decreases streams.len(),
{
    reveal(Seq::filter);
    let closed = closed_streams(streams);
    let live = live_streams(streams);
    assert forall|j: int| 0 <= j < closed.len() implies spec_is_closed(#[trigger] closed[j]) by {
        streams.lemma_filter_pred(|s: S| spec_is_closed(s), j);
    }
    assert forall|j: int| 0 <= j < live.len() implies !spec_is_closed(#[trigger] live[j]) by {
        streams.lemma_filter_pred(|s: S| !spec_is_closed(s), j);
    }
    if streams.len() == 0 {
        to_multiset_len(streams);
        lemma_multiset_empty_len(streams.to_multiset());
        assert(closed =~= streams);
        assert(live =~= streams);
        assert(closed.to_multiset().add(live.to_multiset()) =~= streams.to_multiset());
    } else {
        let front = streams.drop_last();
        let last = streams.last();
        lemma_harvest(front);
        assert(front.push(last) =~= streams);
        to_multiset_build(front, last);
        if spec_is_closed(last) {
            to_multiset_build(closed_streams(front), last);
            assert(closed == closed_streams(front).push(last));
            assert(live == live_streams(front));
        } else {
            to_multiset_build(live_streams(front), last);
            assert(live == live_streams(front).push(last));
            assert(closed == closed_streams(front));
            assert(live.len() > 0);
            assert(live.drop_last() =~= live_streams(front));
        }
        assert(closed.to_multiset().add(live.to_multiset()) =~= streams.to_multiset());
    }
}

/// The streams keep their ids when something happens to one of them, so
/// that ids that were unique stay unique.
pub proof fn lemma_step_keeps_ids_unique<S: Stream>(
    pre: Seq<S>,
    id: StreamId,
    event: StreamEvent,
    post: Seq<S>,
)
    requires
        stream_stepped(pre, id, event, post),
    ensures
        forall|i: int| 0 <= i < pre.len() ==> (#[trigger] post[i]).spec_id() == pre[i].spec_id(),
        ids_unique(pre) ==> ids_unique(post),
{
    assert forall|i: int| 0 <= i < pre.len() implies (#[trigger] post[i]).spec_id()
        == pre[i].spec_id() by {
        if !is_first(pre, i, id) {
            assert(post[i] == pre[i]);
        }
    }
}

/// The streams keep their ids when one of them is put in another state, so
/// that ids that were unique stay unique.
pub proof fn lemma_move_keeps_ids_unique<S: Stream>(
    pre: Seq<S>,
    id: StreamId,
    next: spec_fn(StreamState) -> StreamState,
    post: Seq<S>,
)
    requires
        stream_moved(pre, id, next, post),
    ensures
        forall|i: int| 0 <= i < pre.len() ==> (#[trigger] post[i]).spec_id() == pre[i].spec_id(),
        ids_unique(pre) ==> ids_unique(post),
{
    assert forall|i: int| 0 <= i < pre.len() implies (#[trigger] post[i]).spec_id()
        == pre[i].spec_id() by {
        if !is_first(pre, i, id) {
            assert(post[i] == pre[i]);
        }
    }
}

/// Every stream of a selection from streams with unique ids has the id of
/// no other stream of the selection.
pub proof fn lemma_filter_keeps_ids_unique<S: Stream>(streams: Seq<S>, keep: spec_fn(S) -> bool)
    requires
        ids_unique(streams),
    ensures
        ids_unique(streams.filter(keep)),
        forall|j: int|
            0 <= j < streams.filter(keep).len() ==> has_id(
                streams,
                (#[trigger] streams.filter(keep)[j]).spec_id(),
            ),
    decreases streams.len(),
{
    reveal(Seq::filter);
    if streams.len() > 0 {
        let front = streams.drop_last();
        let last = streams.last();
        assert forall|i: int, j: int| 0 <= i < j < front.len() implies #[trigger] front[i].spec_id()
            != #[trigger] front[j].spec_id() by {
            assert(front[i] == streams[i] && front[j] == streams[j]);
        }
        lemma_filter_keeps_ids_unique(front, keep);
        let kept = front.filter(keep);
        assert forall|j: int| 0 <= j < kept.len() implies (#[trigger] kept[j]).spec_id()
            != last.spec_id() by {
            let k = choose|k: int| 0 <= k < front.len() && #[trigger] front[k].spec_id() == kept[j].spec_id();
            assert(streams[k].spec_id() == kept[j].spec_id());
            assert(streams[streams.len() - 1] == last);
        }
        let all = streams.filter(keep);
        assert forall|j: int| 0 <= j < all.len() implies has_id(
            streams,
            (#[trigger] all[j]).spec_id(),
        ) by {
            if j < kept.len() {
                assert(all[j] == kept[j]);
                let k = choose|k: int|
                    0 <= k < front.len() && #[trigger] front[k].spec_id() == kept[j].spec_id();
                assert(streams[k].spec_id() == all[j].spec_id());
            } else {
                assert(all[j] == last);
                assert(streams[streams.len() - 1].spec_id() == all[j].spec_id());
            }
        }
    }
}

/// A harvest of streams with unique ids takes streams with unique ids and
/// leaves streams with unique ids.
pub proof fn lemma_harvest_keeps_ids_unique<S: Stream>(streams: Seq<S>)
    requires
        ids_unique(streams),
    ensures
        ids_unique(closed_streams(streams)),
        ids_unique(live_streams(streams)),
{
    lemma_filter_keeps_ids_unique(streams, |s: S| spec_is_closed(s));
    lemma_filter_keeps_ids_unique(streams, |s: S| !spec_is_closed(s));
}

/// Streams with unique ids have unique ids after one of them was removed.
pub proof fn lemma_remove_keeps_ids_unique<S: Stream>(streams: Seq<S>, i: int)
    requires
        ids_unique(streams),
        0 <= i < streams.len(),
    ensures
        ids_unique(streams.remove(i)),
{
    let rest = streams.remove(i);
    assert forall|a: int, b: int| 0 <= a < b < rest.len() implies #[trigger] rest[a].spec_id()
        != #[trigger] rest[b].spec_id() by {
        let a0 = if a < i {
            a
        } else {
            a + 1
        };
        let b0 = if b < i {
            b
        } else {
            b + 1
        };
        assert(rest[a] == streams[a0] && rest[b] == streams[b0]);
    }
}

/// The state of the streams of a session: a mapping from stream id to
/// stream that keeps the order in which the streams were inserted.
pub trait SessionState: Sized {
    /// The type of the streams.
    type Stream: Stream;

    /// The streams, in the order in which they were inserted.
    spec fn streams(&self) -> Seq<Self::Stream>;

    /// Inserts the stream at the end, unless a stream with its id is there
    /// already. Returns whether it was inserted.
    fn insert_stream(&mut self, stream: Self::Stream) -> (r: bool)
        ensures
            r == !has_id(old(self).streams(), stream.spec_id()),
            r ==> final(self).streams() == old(self).streams().push(stream),
            !r ==> final(self).streams() == old(self).streams(),
            ids_unique(old(self).streams()) ==> ids_unique(final(self).streams()),
    ;

    /// Returns the first stream with the given id, if there is one.
    fn get_stream_ref(&self, stream_id: StreamId) -> (r: Option<&Self::Stream>)
        ensures
            match r {
                Some(stream) => exists|i: int|
                    {
                        &&& #[trigger] is_first(self.streams(), i, stream_id)
                        &&& self.streams()[i] == *stream
                    },
                None => !has_id(self.streams(), stream_id),
            },
    ;

    /// Returns the first stream with the given id for a change, if there is
    /// one.
    fn get_stream_mut(&mut self, stream_id: StreamId) -> (r: Option<&mut Self::Stream>)
        ensures
            match r {
                Some(stream) => exists|i: int|
                    {
                        &&& #[trigger] is_first(old(self).streams(), i, stream_id)
                        &&& old(self).streams()[i] == *stream
                        &&& final(self).streams() == old(self).streams().update(i, *final(stream))
                    },
                None => !has_id(old(self).streams(), stream_id) && final(self).streams() == old(
                    self,
                ).streams(),
            },
    ;

    /// Removes the first stream with the given id and returns it, if there
    /// is one.
    fn remove_stream(&mut self, stream_id: StreamId) -> (r: Option<Self::Stream>)
        ensures
            match r {
                Some(stream) => exists|i: int|
                    {
                        &&& #[trigger] is_first(old(self).streams(), i, stream_id)
                        &&& old(self).streams()[i] == stream
                        &&& final(self).streams() == old(self).streams().remove(i)
                    },
                None => !has_id(old(self).streams(), stream_id) && final(self).streams() == old(
                    self,
                ).streams(),
            },
    ;

    /// Returns the streams in the order in which they were inserted.
    fn iter(&self) -> (r: Vec<&Self::Stream>)
        ensures
            r@.len() == self.streams().len(),
            forall|i: int| 0 <= i < r@.len() ==> *#[trigger] r@[i] == self.streams()[i],
    ;

    /// Returns the stream at the given place in the order of insertion, for
    /// a change.
    fn stream_at_mut(&mut self, index: usize) -> (r: &mut Self::Stream)
        requires
            index < old(self).streams().len(),
        ensures
            *r == old(self).streams()[index as int],
            final(self).streams() == old(self).streams().update(index as int, *final(r)),
    ;

    /// Returns the number of streams.
    fn len(&self) -> (r: usize)
        ensures
            r == self.streams().len(),
    ;

    /// Removes the streams that are closed on both sides and returns them,
    /// in the order in which they were inserted. The other streams stay, in
    /// their order.
    fn get_closed(&mut self) -> (r: Vec<Self::Stream>)
        ensures
            r@ == closed_streams(old(self).streams()),
            final(self).streams() == live_streams(old(self).streams()),
    ;
}

/// The state of the streams of a session, kept in the order of insertion.
pub struct DefaultSessionState<S: Stream> {
    /// The streams, in the order in which they were inserted.
    pub streams: Vec<S>,
}

impl<S: Stream> DefaultSessionState<S> {
    /// Creates a new state without streams.
    pub fn new() -> (r: DefaultSessionState<S>)
        ensures
            r.streams@ == Seq::<S>::empty(),
    {
        DefaultSessionState { streams: Vec::new() }
    }

    /// Returns the place of the first stream with the given id, if there is
    /// one.
    pub fn position(&self, stream_id: StreamId) -> (r: Option<usize>)
        ensures
            match r {
                Some(i) => is_first(self.streams@, i as int, stream_id),
                None => !has_id(self.streams@, stream_id),
            },
    {
        let mut i: usize = 0;
        while i < self.streams.len()
            invariant
                i <= self.streams.len(),
                forall|j: int| 0 <= j < i ==> self.streams@[j].spec_id() != stream_id,
            decreases self.streams.len() - i,
        {
            if self.streams[i].id() == stream_id {
                return Some(i);
            }
            i += 1;
        }
        None
    }
}

impl<S: Stream> SessionState for DefaultSessionState<S> {
    type Stream = S;

    open spec fn streams(&self) -> Seq<S> {
        self.streams@
    }

    fn insert_stream(&mut self, stream: S) -> (r: bool) {
        match self.position(stream.id()) {
            Some(_) => false,
            None => {
                self.streams.push(stream);
                true
            },
        }
    }

    fn get_stream_ref(&self, stream_id: StreamId) -> (r: Option<&S>) {
        match self.position(stream_id) {
            Some(i) => {
                assert(is_first(self.streams(), i as int, stream_id));
                Some(&self.streams[i])
            },
            None => None,
        }
    }

    fn get_stream_mut(&mut self, stream_id: StreamId) -> (r: Option<&mut S>) {
        match self.position(stream_id) {
            Some(i) => {
                assert(is_first(self.streams(), i as int, stream_id));
                Some(&mut self.streams[i])
            },
            None => None,
        }
    }

    fn remove_stream(&mut self, stream_id: StreamId) -> (r: Option<S>) {
        match self.position(stream_id) {
            Some(i) => {
                assert(is_first(self.streams(), i as int, stream_id));
                Some(self.streams.remove(i))
            },
            None => None,
        }
    }

    fn iter(&self) -> (r: Vec<&S>) {
        let mut out: Vec<&S> = Vec::new();
        let mut i: usize = 0;
        while i < self.streams.len()
            invariant
                i <= self.streams.len(),
                out@.len() == i,
                forall|j: int| 0 <= j < i ==> *#[trigger] out@[j] == self.streams@[j],
            decreases self.streams.len() - i,
        {
            out.push(&self.streams[i]);
            i += 1;
        }
        out
    }

    fn stream_at_mut(&mut self, index: usize) -> (r: &mut S) {
        &mut self.streams[index]
    }

    fn len(&self) -> (r: usize) {
        self.streams.len()
    }

    fn get_closed(&mut self) -> (r: Vec<S>) {
        let ghost orig = self.streams@;
        let ghost mut done: int = 0;
        let mut closed: Vec<S> = Vec::new();
        let mut i: usize = 0;
        proof {
            reveal(Seq::filter);
            assert(orig.take(0) =~= Seq::<S>::empty());
            assert(orig.skip(0) =~= orig);
        }
        while i < self.streams.len()
            invariant
                0 <= done <= orig.len(),
                i <= self.streams@.len(),
                closed@ == closed_streams(orig.take(done)),
                self.streams@.take(i as int) == live_streams(orig.take(done)),
                self.streams@.skip(i as int) == orig.skip(done),
            decreases self.streams@.len() - i,
        {
            proof {
                reveal(Seq::filter);
                assert(self.streams@.skip(i as int).len() > 0);
                assert(done < orig.len());
                assert(self.streams@[i as int] == self.streams@.skip(i as int)[0]);
                assert(orig[done] == orig.skip(done)[0]);
                assert(orig.take(done + 1).drop_last() =~= orig.take(done));
                assert(orig.take(done + 1).last() == orig[done]);
            }
            let ghost before = self.streams@;
            if self.streams[i].is_closed() {
                let stream: S = self.streams.remove(i);
                closed.push(stream);
                proof {
                    assert(self.streams@.take(i as int) =~= before.take(i as int));
                    assert(self.streams@.skip(i as int) =~= before.skip(i as int).skip(1));
                    assert(orig.skip(done).skip(1) =~= orig.skip(done + 1));
                }
            } else {
                i += 1;
                proof {
                    assert(self.streams@.take(i as int) =~= before.take(i - 1).push(orig[done]));
                    assert(self.streams@.skip(i as int) =~= before.skip(i - 1).skip(1));
                    assert(orig.skip(done).skip(1) =~= orig.skip(done + 1));
                }
            }
            proof {
                done = done + 1;
            }
        }
        proof {
            assert(self.streams@.skip(i as int).len() == 0);
            assert(done == orig.len());
            assert(orig.take(done) =~= orig);
            assert(self.streams@.take(i as int) =~= self.streams@);
        }
        closed
    }
}

/// What a connection can report to a session.
pub enum SessionEvent {
    /// A chunk of the body of the given stream has arrived.
    DataChunk(StreamId, Seq<u8>),
    /// Headers of the given stream have arrived.
    Headers(StreamId, Seq<(Seq<u8>, Seq<u8>)>),
    /// The peer has finished sending on the given stream.
    EndOfStream(StreamId),
}

/// The callbacks that a connection invokes while it reads frames. An
/// implementation decides what to make of each.
pub trait Session: Sized {
    /// Whether `event` turns the session `pre` into `post`.
    spec fn step(pre: Self, event: SessionEvent, post: Self) -> bool;

    /// Notifies the session that a new data chunk has arrived on the stream
    /// with the given id.
    fn new_data_chunk(&mut self, stream_id: StreamId, data: &[u8])
        ensures
            Self::step(*old(self), SessionEvent::DataChunk(stream_id, data@), *final(self)),
    ;

    /// Notifies the session that headers have arrived for the stream with
    /// the given id.
    fn new_headers(&mut self, stream_id: StreamId, headers: Vec<Header>)
        ensures
            Self::step(
                *old(self),
                SessionEvent::Headers(stream_id, headers.deep_view()),
                *final(self),
            ),
    ;

    /// Notifies the session that the peer has finished sending on the stream
    /// with the given id.
    fn end_of_stream(&mut self, stream_id: StreamId)
        ensures
            Self::step(*old(self), SessionEvent::EndOfStream(stream_id), *final(self)),
    ;
}

/// Whether the events, one after the other, turn the session `pre` into
/// `post`.
pub open spec fn session_run<Sess: Session>(pre: Sess, events: Seq<SessionEvent>, post: Sess) -> bool
    decreases events.len(),
{
    if events.len() == 0 {
        post == pre
    } else {
        exists|mid: Sess|
            {
                &&& session_run(pre, events.drop_last(), mid)
                &&& #[trigger] Sess::step(mid, events.last(), post)
            }
    }
}

} // verus!
