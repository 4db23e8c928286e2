//! The choice of the stream that sends next. The prioritizer here takes the
//! first stream that has data, in the order of the session state; the
//! interface lets other policies take its place.

use vstd::prelude::*;
use vstd::slice::{slice_subrange, slice_to_vec};
use crate::http::{HttpError, HttpResult, StreamId};
use crate::http::connection::{DataChunk, DataChunkView, DataPrioritizer, EndStream};
use crate::http::session::{SessionState, Stream, StreamDataChunk, StreamDataError, StreamEvent};

verus! {

/// Whether a prioritizer with room for `room` bytes may pass over the
/// stream `pre` and leave it as `post`: a stream that is closed on the local
/// side is left as it is; any other was asked for data and had none for
/// now, or refused as closed and was closed on the local side.
pub open spec fn stream_passed<S: Stream>(pre: S, room: nat, post: S) -> bool {
    if pre.spec_state().spec_is_closed_local() {
        post == pre
    } else {
        ||| S::gave(
            pre,
            room,
            Ok::<StreamDataChunk, StreamDataError>(StreamDataChunk::Unavailable),
            Seq::empty(),
            post,
        )
        ||| exists|mid: S|
            {
                &&& #[trigger] S::gave(
                    pre,
                    room,
                    Err::<StreamDataChunk, StreamDataError>(StreamDataError::Closed),
                    Seq::empty(),
                    mid,
                )
                &&& S::step(
                    mid,
                    StreamEvent::State(mid.spec_state().spec_close_local()),
                    post,
                )
                &&& post.spec_state() == mid.spec_state().spec_close_local()
                &&& post.spec_id() == pre.spec_id()
            }
    }
}

/// Whether a prioritizer with room for `room` bytes may take `chunk` from
/// the stream `pre` and leave it as `post`: the stream is not closed on the
/// local side, the chunk bears its id and the data that the stream has
/// handed out, and it ends the stream exactly where the stream has handed
/// out its last data.
pub open spec fn stream_picked<S: Stream>(pre: S, room: nat, chunk: DataChunkView, post: S) -> bool {
    &&& !pre.spec_state().spec_is_closed_local()
    &&& chunk.stream_id == pre.spec_id()
    &&& chunk.data.len() <= room
    &&& chunk.data.len() <= usize::MAX
    &&& S::gave(
        pre,
        room,
        Ok::<StreamDataChunk, StreamDataError>(
            if chunk.end_stream == EndStream::Yes {
                StreamDataChunk::Last(chunk.data.len() as usize)
            } else {
                StreamDataChunk::Chunk(chunk.data.len() as usize)
            },
        ),
        chunk.data,
        post,
    )
}

/// Whether a prioritizer with room for `room` bytes may fail on the stream
/// `pre` and leave it as `post`: the stream is not closed on the local side
/// and has failed to produce its data.
pub open spec fn stream_failed<S: Stream>(pre: S, room: nat, post: S) -> bool {
    &&& !pre.spec_state().spec_is_closed_local()
    &&& S::gave(
        pre,
        room,
        Err::<StreamDataChunk, StreamDataError>(StreamDataError::Other),
        Seq::empty(),
        post,
    )
}

/// Whether a walk of the prioritizer over the streams `pre`, in order, may
/// leave them as `post` and give `r`. The streams before the first that has
/// data or fails are passed over, and those after it are not touched. The
/// chunk is taken from the first stream that has data; where a stream fails
/// to produce its data, the walk ends with an error; where no stream has
/// data, there is no chunk.
pub open spec fn streams_walked<S: Stream>(
    pre: Seq<S>,
    room: nat,
    r: HttpResult<Option<DataChunkView>>,
    post: Seq<S>,
) -> bool {
    &&& post.len() == pre.len()
    &&& match r {
        Ok(Some(chunk)) => exists|at: int|
            {
                &&& 0 <= at < pre.len()
                &&& #[trigger] stream_picked(pre[at], room, chunk, post[at])
                &&& forall|i: int| 0 <= i < at ==> stream_passed(pre[i], room, #[trigger] post[i])
                &&& forall|i: int| at < i < pre.len() ==> #[trigger] post[i] == pre[i]
            },
        Ok(None) => forall|i: int|
            0 <= i < pre.len() ==> stream_passed(pre[i], room, #[trigger] post[i]),
        Err(e) => e is Other && exists|at: int|
            {
                &&& 0 <= at < pre.len()
                &&& #[trigger] stream_failed(pre[at], room, post[at])
                &&& forall|i: int| 0 <= i < at ==> stream_passed(pre[i], room, #[trigger] post[i])
                &&& forall|i: int| at < i < pre.len() ==> #[trigger] post[i] == pre[i]
            },
    }
}

/// A prioritizer that takes the next chunk from the first stream of a
/// session state that has data to send.
pub struct SimplePrioritizer<'a, 'b, State: SessionState> {
    /// The session state whose streams are walked.
    pub state: &'a mut State,
    /// The buffer in which the streams place their data. Its length is the
    /// largest size of a chunk.
    pub buf: &'b mut [u8],
}

impl<'a, 'b, State: SessionState> SimplePrioritizer<'a, 'b, State> {
    /// Creates a new prioritizer over the given session state, with the
    /// given buffer.
    pub fn new(state: &'a mut State, buf: &'b mut [u8]) -> (r: SimplePrioritizer<
        'a,
        'b,
        State,
    >)
        ensures
            *r.state == *old(state),
            r.buf@ == old(buf)@,
            *final(r.state) == *final(state),
            final(r.buf)@ == final(buf)@,
    {
        SimplePrioritizer { state, buf }
    }
}

impl<'a, 'b, State: SessionState> DataPrioritizer for SimplePrioritizer<'a, 'b, State> {
    open spec fn chose(pre: Self, r: HttpResult<Option<DataChunkView>>, post: Self) -> bool {
        &&& post.buf@.len() == pre.buf@.len()
        &&& streams_walked(pre.state.streams(), pre.buf@.len(), r, post.state.streams())
    }

    fn get_next_chunk(&mut self) -> (r: HttpResult<Option<DataChunk>>)
        ensures
            *final(final(self).state) == *final(old(self).state),
            final(final(self).buf)@ == final(old(self).buf)@,
    {
        let ghost pre = self.state.streams();
        let ghost room = self.buf@.len();
        let count: usize = self.state.len();
        let mut i: usize = 0;
        while i < count
            invariant
                i <= count,
                count == pre.len(),
                pre == old(self).state.streams(),
                room == old(self).buf@.len(),
                *final(self.state) == *final(old(self).state),
                final(self.buf)@ == final(old(self).buf)@,
                self.buf@.len() == room,
                self.state.streams().len() == pre.len(),
                forall|k: int|
                    0 <= k < i ==> stream_passed(pre[k], room, #[trigger] self.state.streams()[k]),
                forall|k: int|
                    i <= k < pre.len() ==> #[trigger] self.state.streams()[k] == pre[k],
            decreases count - i,
        {
            let stream = self.state.stream_at_mut(i);
            if !stream.is_closed_local() {
                let stream_id: StreamId = stream.id();
                let res = stream.get_data_chunk(self.buf);
                match res {
                    Ok(StreamDataChunk::Last(total)) => {
                        let data: Vec<u8> = slice_to_vec(
                            slice_subrange(self.buf, 0, total),
                        );
                        let chunk = DataChunk::new(data, stream_id, EndStream::Yes);
                        proof {
                            assert(data@ =~= self.buf@.take(total as int));
                            assert(stream_picked(
                                pre[i as int],
                                room,
                                chunk@,
                                self.state.streams()[i as int],
                            ));
                        }
                        return Ok(Some(chunk));
                    },
                    Ok(StreamDataChunk::Chunk(total)) => {
                        let data: Vec<u8> = slice_to_vec(
                            slice_subrange(self.buf, 0, total),
                        );
                        let chunk = DataChunk::new(data, stream_id, EndStream::No);
                        proof {
                            assert(data@ =~= self.buf@.take(total as int));
                            assert(stream_picked(
                                pre[i as int],
                                room,
                                chunk@,
                                self.state.streams()[i as int],
                            ));
                        }
                        return Ok(Some(chunk));
                    },
                    Ok(StreamDataChunk::Unavailable) => {
                        // The stream is still open, but has no data for now.
                        proof {
                            assert(self.buf@.take(0) =~= Seq::<u8>::empty());
                        }
                    },
                    Err(StreamDataError::Closed) => {
                        // Close the stream on the local side, so that no
                        // more data is asked of it, and go on.
                        let ghost mid = *stream;
                        stream.close_local();
                        proof {
                            assert(self.buf@.take(0) =~= Seq::<u8>::empty());
                            assert(State::Stream::gave(
                                pre[i as int],
                                room,
                                Err::<StreamDataChunk, StreamDataError>(StreamDataError::Closed),
                                Seq::empty(),
                                mid,
                            ));
                        }
                    },
                    Err(StreamDataError::Other) => {
                        proof {
                            assert(self.buf@.take(0) =~= Seq::<u8>::empty());
                            assert(stream_failed(
                                pre[i as int],
                                room,
                                self.state.streams()[i as int],
                            ));
                        }
                        return Err(HttpError::Other("stream failed to produce data".to_owned()));
                    },
                }
            }
            proof {
                assert(stream_passed(pre[i as int], room, self.state.streams()[i as int]));
            }
            i += 1;
        }
        // Nothing can be sent: no stream has data for now.
        Ok(None)
    }
}

} // verus!
