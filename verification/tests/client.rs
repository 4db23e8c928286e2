use solicit::http::client::{client_hello, ClientConnection, ClientSession, ClientStreamIds};
use solicit::http::connection::{HttpConnection, HttpFrame};
use solicit::http::frame::data::DataFrame;
use solicit::http::frame::settings::SettingsFrame;
use solicit::http::frame::{serialize_frame, RawFrame};
use solicit::http::memory::{FrameBuffer, FrameQueue};
use solicit::http::session::{DefaultStream, Session, SessionState, Stream};
use solicit::http::{HttpError, HttpScheme, Request, Response};

/// A session for the tests of the connection, which do not look at it.
struct TestSession;

impl TestSession {
    fn new() -> ClientSession<DefaultStream> {
        ClientSession::new()
    }
}

/// Builds a connection that receives the given frames, in order, and keeps
/// what it sends.
fn build_mock_http_conn(frames: Vec<HttpFrame>) -> HttpConnection<FrameBuffer, FrameQueue> {
    let raw: Vec<RawFrame> = frames
        .into_iter()
        .map(|frame| {
            let bytes = serialize_frame(frame).expect("the frame can stand on the wire");
            RawFrame::from_buf(&bytes).expect("one frame")
        })
        .collect();
    HttpConnection::new(FrameBuffer::new(), FrameQueue::new(raw), HttpScheme::Http)
}

/// Takes the oldest frame out of what was sent.
fn take_sent(sent: &mut Vec<Vec<u8>>) -> HttpFrame {
    let bytes = sent.remove(0);
    HttpFrame::parse(&bytes).expect("what was sent is a frame")
}

/// Tests that a client connection is correctly initialized, by reading the
/// server preface (i.e. a settings frame) as the first frame of the connection.
#[test]
fn test_init_client_conn() {
    let frames = vec![HttpFrame::SettingsFrame(SettingsFrame::new())];
    let mut conn = ClientConnection::with_connection(build_mock_http_conn(frames), TestSession::new());

    conn.init().unwrap();

    // We have read the server's response (the settings frame only, since no panic
    // ocurred)
    assert_eq!(conn.conn.receiver.frames.len(), 0);
    // We also sent an ACK already.
    let frame = match take_sent(&mut conn.conn.sender.sent) {
        HttpFrame::SettingsFrame(frame) => frame,
        _ => panic!("ACK not sent!"),
    };
    assert!(frame.is_ack());
}

/// Tests that a client connection fails to initialize when the server does
/// not send a settings frame as its first frame (i.e. server preface).
#[test]
fn test_init_client_conn_no_settings() {
    let frames = vec![HttpFrame::DataFrame(DataFrame::new(1))];
    let mut conn = ClientConnection::with_connection(build_mock_http_conn(frames), TestSession::new());

    // We get an error since the first frame sent by the server was not
    // SETTINGS.
    assert!(conn.init().is_err());
}

/// Tests that a `ClientConnection` correctly sends a `Request` with no
/// body.
#[test]
fn test_client_conn_send_request_no_body() {
    let req = Request {
        stream_id: 1,
        // An incomplete header list, but this does not matter for this test.
        headers: vec![
            (b":method".to_vec(), b"GET".to_vec()),
            (b":path".to_vec(), b"/".to_vec()),
        ],
        body: Vec::new(),
    };
    let mut conn = ClientConnection::with_connection(build_mock_http_conn(vec![]), TestSession::new());

    conn.send_request(req).unwrap();

    let frame = match take_sent(&mut conn.conn.sender.sent) {
        HttpFrame::HeadersFrame(frame) => frame,
        _ => panic!("Headers not sent!"),
    };
    // We sent a headers frame with end of headers and end of stream flags
    assert!(frame.is_headers_end());
    assert!(frame.is_end_of_stream());
    // ...and nothing else!
    assert_eq!(conn.conn.sender.sent.len(), 0);
}

/// Tests that a `ClientConnection` correctly sends a `Request` with a small body (i.e. a body
/// that fits into a single HTTP/2 DATA frame).
#[test]
fn test_client_conn_send_request_with_small_body() {
    let body = vec![1, 2, 3];
    let req = Request {
        stream_id: 1,
        // An incomplete header list, but this does not matter for this test.
        headers: vec![
            (b":method".to_vec(), b"GET".to_vec()),
            (b":path".to_vec(), b"/".to_vec()),
        ],
        body: body.clone(),
    };
    let mut conn = ClientConnection::with_connection(build_mock_http_conn(vec![]), TestSession::new());

    conn.send_request(req).unwrap();

    let frame = match take_sent(&mut conn.conn.sender.sent) {
        HttpFrame::HeadersFrame(frame) => frame,
        _ => panic!("Headers not sent!"),
    };
    // The headers were sent, but didn't close the stream
    assert!(frame.is_headers_end());
    assert!(!frame.is_end_of_stream());
    // A single data frame is found that *did* close the stream
    let frame = match take_sent(&mut conn.conn.sender.sent) {
        HttpFrame::DataFrame(frame) => frame,
        _ => panic!("Headers not sent!"),
    };
    assert!(frame.is_end_of_stream());
    // The data bore the correct payload
    assert_eq!(frame.data, body);
    // ...and nothing else was sent!
    assert_eq!(conn.conn.sender.sent.len(), 0);
}

/// Tests that a `ClientSession` notifies the correct stream when the
/// appropriate callback is invoked.
#[test]
fn test_client_session_notifies_stream() {
    let mut session: ClientSession = ClientSession::new();
    session.new_stream(1);

    // Registering some data to stream 1...
    session.new_data_chunk(1, &[1, 2, 3]);
    // ...works.
    assert_eq!(session.get_stream(1).unwrap().body, vec![1, 2, 3]);
    // Some more...
    session.new_data_chunk(1, &[4]);
    // ...works.
    assert_eq!(session.get_stream(1).unwrap().body, vec![1, 2, 3, 4]);
    // Now headers?
    let headers = vec![(b":method".to_vec(), b"GET".to_vec())];
    session.new_headers(1, headers.clone());
    assert_eq!(session.get_stream(1).unwrap().headers.clone().unwrap(), headers);
    // Add another stream in the mix
    session.new_stream(3);
    // and send it some data
    session.new_data_chunk(3, &[100]);
    assert_eq!(session.get_stream(3).unwrap().body, vec![100]);
    // Finally, the stream 1 ends...
    session.end_of_stream(1);
    // ...and gets closed.
    assert!(session.get_stream(1).unwrap().is_closed());
    // but not the other one.
    assert!(!session.get_stream(3).unwrap().is_closed());
    // Sanity check: both streams still found in the session
    assert_eq!(session.state.iter().len(), 2);
    // The closed stream is returned...
    let closed = session.get_closed();
    assert_eq!(closed.len(), 1);
    assert_eq!(closed[0].id(), 1);
    // ...and is also removed from the session!
    assert_eq!(session.state.iter().len(), 1);
}

/// The ids of the streams of a client are odd and rise by two.
#[test]
fn test_client_stream_ids_are_odd_and_rising() {
    let mut ids = solicit::http::client::ClientStreamIds::new();
    assert_eq!(ids.allocate(), Some(1));
    assert_eq!(ids.allocate(), Some(3));
    assert_eq!(ids.allocate(), Some(5));
    ids.next = 0x7fff_ffff;
    assert_eq!(ids.allocate(), Some(0x7fff_ffff));
    assert_eq!(ids.allocate(), None);
    assert_eq!(ids.next, 0x8000_0001);
    ids.next = 4;
    assert_eq!(ids.allocate(), None);
    assert_eq!(ids.next, 4);
}

/// Starting a request takes the next id, creates the stream, and sends the
/// request on it.
#[test]
fn test_start_request_allocates_creates_and_sends() {
    let mut conn = ClientConnection::with_connection(build_mock_http_conn(vec![]), TestSession::new());
    let mut ids = ClientStreamIds::new();
    let headers = vec![(b":method".to_vec(), b"GET".to_vec()), (b":path".to_vec(), b"/".to_vec())];

    let first = conn.start_request(&mut ids, headers.clone(), Vec::new()).unwrap();

    assert_eq!(first, 1);
    assert_eq!(ids.next, 3);
    assert_eq!(conn.session.state.iter().len(), 1);
    assert!(!conn.session.get_stream(1).unwrap().is_closed());
    assert_eq!(conn.conn.sender.sent, vec![vec![0, 0, 2, 1, 5, 0, 0, 0, 1, 0x82, 0x84]]);

    let second = conn.start_request(&mut ids, headers, vec![7, 8]).unwrap();

    assert_eq!(second, 3);
    assert_eq!(ids.next, 5);
    assert_eq!(conn.session.state.iter().len(), 2);
    assert_eq!(conn.conn.sender.sent.len(), 3);
    assert_eq!(conn.conn.sender.sent[1], vec![0, 0, 2, 1, 4, 0, 0, 0, 3, 0x82, 0x84]);
    assert_eq!(conn.conn.sender.sent[2], vec![0, 0, 2, 0, 1, 0, 0, 0, 3, 7, 8]);
}

/// Where the ids are used up, no request is started.
#[test]
fn test_start_request_without_an_id_left() {
    let mut conn = ClientConnection::with_connection(build_mock_http_conn(vec![]), TestSession::new());
    let mut ids = ClientStreamIds::new();
    ids.next = 0x8000_0001;

    let r = conn.start_request(&mut ids, vec![(b":path".to_vec(), b"/".to_vec())], vec![1]);

    assert!(matches!(r, Err(HttpError::ProtocolError)));
    assert_eq!(ids.next, 0x8000_0001);
    assert_eq!(conn.session.state.iter().len(), 0);
    assert!(conn.conn.sender.sent.is_empty());
}

/// Where the sending fails, the id is spent and the stream stays.
#[test]
fn test_start_request_on_a_closed_connection() {
    let mut conn = ClientConnection::with_connection(build_mock_http_conn(vec![]), TestSession::new());
    let mut ids = ClientStreamIds::new();
    conn.conn.close();

    let r = conn.start_request(&mut ids, vec![(b":path".to_vec(), b"/".to_vec())], Vec::new());

    assert!(matches!(r, Err(HttpError::ProtocolError)));
    assert_eq!(ids.next, 3);
    assert!(conn.session.get_stream(1).is_some());
    assert!(conn.conn.sender.sent.is_empty());
}

/// The responses of the closed streams are taken out in the order of the
/// streams; the open streams stay.
#[test]
fn test_take_responses() {
    let mut conn = ClientConnection::with_connection(build_mock_http_conn(vec![]), TestSession::new());
    conn.session.new_stream(1);
    conn.session.new_stream(3);
    conn.session.new_stream(5);
    let headers = vec![(b":status".to_vec(), b"200".to_vec())];
    conn.session.new_headers(1, headers.clone());
    conn.session.new_data_chunk(1, &[1, 2, 3]);
    conn.session.end_of_stream(1);
    conn.session.new_data_chunk(3, &[9]);
    conn.session.end_of_stream(5);

    let responses: Vec<Response> = conn.take_responses();

    assert_eq!(responses.len(), 2);
    assert_eq!(responses[0].stream_id, 1);
    assert_eq!(responses[0].headers, headers);
    assert_eq!(responses[0].body, vec![1, 2, 3]);
    assert_eq!(responses[1].stream_id, 5);
    assert!(responses[1].headers.is_empty());
    assert!(responses[1].body.is_empty());
    assert_eq!(conn.session.state.iter().len(), 1);
    assert_eq!(conn.session.get_stream(3).unwrap().body, vec![9]);
    assert!(conn.take_responses().is_empty());
}

/// A client opens a connection with the preface and its settings.
#[test]
fn test_client_hello() {
    let mut expected = b"PRI * HTTP/2.0\r\n\r\nSM\r\n\r\n".to_vec();
    expected.extend_from_slice(&[0, 0, 0, 4, 0, 0, 0, 0, 0]);
    assert_eq!(client_hello(), expected);
}
