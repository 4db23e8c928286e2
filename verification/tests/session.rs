use solicit::http::client::ClientSession;
use solicit::http::session::{
    DefaultSessionState, DefaultStream, Session, SessionState, Stream, StreamDataChunk,
    StreamDataError, StreamState,
};

fn state_with(ids: &[u32]) -> DefaultSessionState<DefaultStream> {
    let mut state = DefaultSessionState::new();
    for id in ids {
        assert!(state.insert_stream(DefaultStream::with_id(*id)));
    }
    state
}

fn ids(state: &DefaultSessionState<DefaultStream>) -> Vec<u32> {
    state.iter().into_iter().map(|s| s.id()).collect()
}

#[test]
fn test_stream_state_transitions() {
    assert_eq!(StreamState::Open.close_local(), StreamState::HalfClosedLocal);
    assert_eq!(StreamState::Open.close_remote(), StreamState::HalfClosedRemote);
    assert_eq!(StreamState::HalfClosedLocal.close_local(), StreamState::HalfClosedLocal);
    assert_eq!(StreamState::HalfClosedLocal.close_remote(), StreamState::Closed);
    assert_eq!(StreamState::HalfClosedRemote.close_local(), StreamState::Closed);
    assert_eq!(StreamState::HalfClosedRemote.close_remote(), StreamState::HalfClosedRemote);
    assert_eq!(StreamState::Closed.close_local(), StreamState::Closed);
    assert_eq!(StreamState::Closed.close_remote(), StreamState::Closed);
    assert!(!StreamState::Open.is_closed_local() && !StreamState::Open.is_closed_remote());
    assert!(StreamState::HalfClosedLocal.is_closed_local() && !StreamState::HalfClosedLocal.is_closed_remote());
    assert!(!StreamState::HalfClosedRemote.is_closed_local() && StreamState::HalfClosedRemote.is_closed_remote());
    assert!(StreamState::Closed.is_closed_local() && StreamState::Closed.is_closed_remote());
}

#[test]
fn test_default_stream_starts_open_and_empty() {
    let stream = DefaultStream::with_id(9);
    assert_eq!(stream.id(), 9);
    assert_eq!(stream.state(), StreamState::Open);
    assert_eq!(stream.headers, None);
    assert!(stream.body.is_empty());
    assert_eq!(stream.data, None);
    assert_eq!(DefaultStream::new().id(), 0);
    assert_eq!(<DefaultStream as Stream>::new(4), DefaultStream::with_id(4));
}

#[test]
fn test_default_stream_collects_what_arrives() {
    let mut stream = DefaultStream::with_id(1);
    stream.new_data_chunk(&[1, 2]);
    stream.new_data_chunk(&[]);
    stream.new_data_chunk(&[3]);
    assert_eq!(stream.body, vec![1, 2, 3]);
    stream.set_headers(vec![(b"a".to_vec(), b"b".to_vec())]);
    stream.set_headers(vec![(b"c".to_vec(), b"d".to_vec())]);
    assert_eq!(stream.headers, Some(vec![(b"c".to_vec(), b"d".to_vec())]));
    assert_eq!(stream.state(), StreamState::Open);
    assert_eq!(stream.id(), 1);
}

#[test]
fn test_default_stream_close_flags() {
    let mut stream = DefaultStream::with_id(1);
    stream.close_remote();
    assert!(stream.is_closed_remote() && !stream.is_closed_local() && !stream.is_closed());
    stream.close_remote();
    assert_eq!(stream.state(), StreamState::HalfClosedRemote);
    stream.close_local();
    assert!(stream.is_closed());
    let mut stream = DefaultStream::with_id(1);
    stream.close();
    assert!(stream.is_closed() && stream.is_closed_local() && stream.is_closed_remote());
    stream.set_state(StreamState::Open);
    assert!(!stream.is_closed());
}

#[test]
fn test_stream_that_ended_stays_flagged() {
    let mut stream = DefaultStream::with_id(1);
    stream.close_remote();
    stream.new_data_chunk(&[1]);
    stream.set_headers(vec![]);
    assert!(stream.is_closed_remote());
    assert_eq!(stream.id(), 1);
}

#[test]
fn test_get_data_chunk_without_data() {
    let mut stream = DefaultStream::with_id(1);
    let mut buf = vec![0u8; 4];
    assert_eq!(stream.get_data_chunk(&mut buf), Ok(StreamDataChunk::Unavailable));
    assert_eq!(buf, vec![0; 4]);
    assert_eq!(stream.state(), StreamState::Open);
}

#[test]
fn test_get_data_chunk_in_pieces() {
    let mut stream = DefaultStream::with_id(1);
    stream.set_full_data(vec![1, 2, 3, 4, 5, 6, 7]);
    let mut buf = vec![0u8; 3];
    assert_eq!(stream.get_data_chunk(&mut buf), Ok(StreamDataChunk::Chunk(3)));
    assert_eq!(buf, vec![1, 2, 3]);
    assert_eq!(stream.get_data_chunk(&mut buf), Ok(StreamDataChunk::Chunk(3)));
    assert_eq!(buf, vec![4, 5, 6]);
    assert!(!stream.is_closed_local());
    assert_eq!(stream.get_data_chunk(&mut buf), Ok(StreamDataChunk::Last(1)));
    assert_eq!(buf, vec![7, 5, 6]);
    assert!(stream.is_closed_local());
    assert_eq!(stream.get_data_chunk(&mut buf), Err(StreamDataError::Closed));
    assert_eq!(buf.len(), 3);
}

#[test]
fn test_get_data_chunk_that_fills_the_buffer_exactly_is_the_last() {
    let mut stream = DefaultStream::with_id(1);
    stream.close_remote();
    stream.set_full_data(vec![1, 2]);
    let mut buf = vec![0u8; 2];
    assert_eq!(stream.get_data_chunk(&mut buf), Ok(StreamDataChunk::Last(2)));
    assert_eq!(buf, vec![1, 2]);
    assert!(stream.is_closed());
}

#[test]
fn test_get_data_chunk_of_empty_data_is_the_last() {
    let mut stream = DefaultStream::with_id(1);
    stream.set_full_data(vec![]);
    let mut buf = vec![0u8; 2];
    assert_eq!(stream.get_data_chunk(&mut buf), Ok(StreamDataChunk::Last(0)));
    assert!(stream.is_closed_local());
}

#[test]
fn test_insert_keeps_order_and_refuses_duplicates() {
    let mut state = state_with(&[5, 1, 3]);
    assert_eq!(ids(&state), vec![5, 1, 3]);
    assert_eq!(state.len(), 3);
    let mut twin = DefaultStream::with_id(1);
    twin.new_data_chunk(&[1]);
    assert!(!state.insert_stream(twin));
    assert_eq!(ids(&state), vec![5, 1, 3]);
    assert!(state.get_stream_ref(1).unwrap().body.is_empty());
}

#[test]
fn test_get_and_remove() {
    let mut state = state_with(&[5, 1, 3]);
    assert_eq!(state.get_stream_ref(1).map(|s| s.id()), Some(1));
    assert!(state.get_stream_ref(2).is_none());
    assert!(state.get_stream_mut(2).is_none());
    state.get_stream_mut(3).unwrap().new_data_chunk(&[8]);
    assert_eq!(state.get_stream_ref(3).unwrap().body, vec![8]);
    state.stream_at_mut(0).new_data_chunk(&[9]);
    assert_eq!(state.get_stream_ref(5).unwrap().body, vec![9]);
    assert_eq!(state.position(3), Some(2));
    assert_eq!(state.position(4), None);
    assert_eq!(state.remove_stream(1).map(|s| s.id()), Some(1));
    assert!(state.remove_stream(1).is_none());
    assert_eq!(ids(&state), vec![5, 3]);
}

#[test]
fn test_harvest_takes_closed_streams_in_order() {
    let mut state = state_with(&[1, 3, 5, 7, 9]);
    state.get_stream_mut(7).unwrap().close();
    state.get_stream_mut(1).unwrap().close();
    state.get_stream_mut(3).unwrap().close_remote();
    state.get_stream_mut(5).unwrap().close_local();

    let closed = state.get_closed();

    assert_eq!(closed.iter().map(|s| s.id()).collect::<Vec<_>>(), vec![1, 7]);
    assert!(closed.iter().all(|s| s.is_closed()));
    assert_eq!(ids(&state), vec![3, 5, 9]);
    assert!(state.iter().iter().all(|s| !s.is_closed()));
    // a second harvest takes nothing
    assert!(state.get_closed().is_empty());
    assert_eq!(ids(&state), vec![3, 5, 9]);
}

#[test]
fn test_harvest_of_nothing_and_of_everything() {
    let mut state = state_with(&[]);
    assert!(state.get_closed().is_empty());
    let mut state = state_with(&[2, 4]);
    assert!(state.get_closed().is_empty());
    assert_eq!(ids(&state), vec![2, 4]);
    state.get_stream_mut(2).unwrap().close();
    state.get_stream_mut(4).unwrap().close();
    assert_eq!(state.get_closed().len(), 2);
    assert_eq!(state.len(), 0);
}

#[test]
fn test_client_session_ignores_unknown_streams() {
    let mut session: ClientSession = ClientSession::new();
    session.new_data_chunk(1, &[1]);
    session.new_headers(1, vec![]);
    session.end_of_stream(1);
    assert!(session.get_stream(1).is_none());
    assert_eq!(session.state.len(), 0);
}

#[test]
fn test_client_session_new_stream_twice() {
    let mut session: ClientSession = ClientSession::new();
    session.new_stream(1);
    session.new_data_chunk(1, &[1]);
    session.new_stream(1);
    assert_eq!(session.state.len(), 1);
    assert_eq!(session.get_stream(1).unwrap().body, vec![1]);
    session.get_stream_mut(1).unwrap().close_local();
    assert!(session.get_stream(1).unwrap().is_closed_local());
}

#[test]
fn test_client_session_stream_stays_closed_after_its_end() {
    let mut session: ClientSession = ClientSession::new();
    session.new_stream(1);
    session.new_stream(3);
    session.end_of_stream(1);
    assert!(session.get_stream(1).unwrap().is_closed());
    session.new_data_chunk(1, &[1]);
    session.new_headers(1, vec![]);
    session.new_data_chunk(3, &[1]);
    assert!(session.get_stream(1).unwrap().is_closed());
    assert_eq!(session.get_stream(1).unwrap().id(), 1);
    assert!(!session.get_stream(3).unwrap().is_closed());
}
