use solicit::http::connection::{
    ConnectionState, EndStream, HttpConnection, HttpFrame, SendStatus,
};
use solicit::http::frame::data::{DataFlag, DataFrame};
use solicit::http::frame::headers::{HeadersFlag, HeadersFrame};
use solicit::http::frame::ping::PingFrame;
use solicit::http::frame::settings::SettingsFrame;
use solicit::http::frame::{serialize_frame, RawFrame};
use solicit::http::memory::{FrameBuffer, FrameQueue, MemoryTransport};
use solicit::http::server::ServerConnection;
use solicit::http::session::{DefaultSessionState, DefaultStream, SessionState, Stream};
use solicit::http::transport::{TransportReceiveFrame, TransportSender, TransportStream};
use solicit::http::connection::{ReceiveFrame, SendFrame};
use solicit::http::{HttpError, HttpScheme, Response};
use solicit::server::{ServerRequest, SimpleFactory, SimpleServer};

type Conn = ServerConnection<FrameBuffer, FrameQueue, SimpleFactory>;

const PREFACE: &[u8] = b"PRI * HTTP/2.0\r\n\r\nSM\r\n\r\n";
const SETTINGS: [u8; 9] = [0, 0, 0, 4, 0, 0, 0, 0, 0];
const SETTINGS_ACK: [u8; 9] = [0, 0, 0, 4, 1, 0, 0, 0, 0];

fn to_raw(frame: HttpFrame) -> RawFrame {
    let bytes = serialize_frame(frame).expect("the frame can stand on the wire");
    RawFrame::from_buf(&bytes).expect("one frame")
}

fn conn_with(frames: Vec<HttpFrame>) -> Conn {
    let raw: Vec<RawFrame> = frames.into_iter().map(to_raw).collect();
    let conn = HttpConnection::new(FrameBuffer::new(), FrameQueue::new(raw), HttpScheme::Https);
    ServerConnection::with_connection(conn, DefaultSessionState::new(), SimpleFactory)
}

fn headers_frame(fragment: Vec<u8>, stream_id: u32, end_stream: bool) -> HttpFrame {
    let mut frame = HeadersFrame::new(fragment, stream_id);
    frame.set_flag(HeadersFlag::EndHeaders);
    if end_stream {
        frame.set_flag(HeadersFlag::EndStream);
    }
    HttpFrame::HeadersFrame(frame)
}

fn wire(frame: HttpFrame) -> Vec<u8> {
    serialize_frame(frame).expect("the frame can stand on the wire")
}

fn hello(req: ServerRequest) -> Response {
    let mut body = b"hello ".to_vec();
    body.extend_from_slice(req.body);
    Response {
        stream_id: req.stream_id,
        headers: vec![(b":status".to_vec(), b"200".to_vec())],
        body,
    }
}

#[test]
fn test_server_init_sends_settings_and_acknowledges() {
    let mut conn = conn_with(vec![HttpFrame::SettingsFrame(SettingsFrame::new())]);
    assert_eq!(conn.scheme(), HttpScheme::Https);

    conn.init().unwrap();

    assert_eq!(conn.conn.sender.sent, vec![SETTINGS.to_vec(), SETTINGS_ACK.to_vec()]);
    assert_eq!(conn.conn.state, ConnectionState::Open);
    assert_eq!(conn.conn.receiver.len(), 0);
}

#[test]
fn test_server_init_fails_without_settings() {
    for frame in [
        HttpFrame::SettingsFrame(SettingsFrame::new_ack()),
        HttpFrame::PingFrame(PingFrame::new()),
        HttpFrame::DataFrame(DataFrame::new(1)),
    ] {
        let mut conn = conn_with(vec![frame]);
        assert!(matches!(conn.init(), Err(HttpError::PreambleMismatch)));
        // its own settings have gone out all the same
        assert_eq!(conn.conn.sender.sent, vec![SETTINGS.to_vec()]);
    }
    let mut conn = conn_with(vec![]);
    assert!(matches!(conn.init(), Err(HttpError::IoError(_))));
}

#[test]
fn test_server_connection_makes_streams_for_new_ids() {
    let mut data = DataFrame::with_data(1, vec![7, 8]);
    data.set_flag(DataFlag::EndStream);
    let mut conn = conn_with(vec![
        headers_frame(vec![0x82, 0x84], 1, false),
        headers_frame(vec![0x83], 3, true),
        HttpFrame::DataFrame(data),
        headers_frame(vec![0x88], 1, false),
    ]);

    for _ in 0..4 {
        conn.handle_next_frame().unwrap();
    }

    let state = &conn.streams.state;
    assert_eq!(state.iter().iter().map(|s| s.id()).collect::<Vec<_>>(), vec![1, 3]);
    let first = state.get_stream_ref(1).unwrap();
    assert_eq!(first.headers, Some(vec![(b":status".to_vec(), b"200".to_vec())]));
    assert_eq!(first.body, vec![7, 8]);
    assert!(first.is_closed_remote() && !first.is_closed());
    let second = state.get_stream_ref(3).unwrap();
    assert_eq!(second.headers, Some(vec![(b":method".to_vec(), b"POST".to_vec())]));
    assert!(second.is_closed_remote());
}

#[test]
fn test_start_response_and_send_next_data() {
    let mut conn = conn_with(vec![headers_frame(vec![0x82], 1, true)]);
    conn.handle_next_frame().unwrap();

    conn.start_response(vec![(b":status".to_vec(), b"200".to_vec())], 1, EndStream::No).unwrap();
    assert_eq!(conn.send_next_data().unwrap(), SendStatus::Nothing);
    conn.streams.state.get_stream_mut(1).unwrap().set_full_data(vec![1; 8193]);
    assert_eq!(conn.send_next_data().unwrap(), SendStatus::Sent);
    assert_eq!(conn.send_next_data().unwrap(), SendStatus::Sent);
    assert_eq!(conn.send_next_data().unwrap(), SendStatus::Nothing);

    let sent = &conn.conn.sender.sent;
    assert_eq!(sent.len(), 3);
    assert_eq!(sent[0], vec![0, 0, 1, 1, 4, 0, 0, 0, 1, 0x88]);
    assert_eq!(&sent[1][..9], &[0, 0x20, 0, 0, 0, 0, 0, 0, 1]);
    assert_eq!(sent[1].len(), 9 + 8192);
    assert_eq!(sent[2], vec![0, 0, 1, 0, 1, 0, 0, 0, 1, 1]);
    assert!(conn.streams.state.get_stream_ref(1).unwrap().is_closed());
}

#[test]
fn test_memory_transport() {
    let mut transport = MemoryTransport::new(vec![1, 2, 3, 4, 5]);
    assert_eq!(transport.recv_exact(2).unwrap(), vec![1, 2]);
    let mut other = transport.try_split().unwrap();
    assert_eq!(other.recv_exact(0).unwrap(), Vec::<u8>::new());
    assert_eq!(other.recv_exact(3).unwrap(), vec![3, 4, 5]);
    assert!(matches!(other.recv_exact(1), Err(HttpError::IoError(_))));
    assert!(matches!(transport.recv_exact(4), Err(HttpError::IoError(_))));
    assert_eq!(transport.input, vec![3, 4, 5]);
    transport.send_bytes(&[9]).unwrap();
    transport.send_bytes(&[8, 7]).unwrap();
    assert_eq!(transport.output, vec![9, 8, 7]);
    assert!(other.output.is_empty());
}

#[test]
fn test_transport_receiver_reads_header_and_payload() {
    let mut input = vec![0, 0, 2, 0x9, 1, 0x80, 0, 0, 3, 0xaa, 0xbb];
    input.extend_from_slice(&SETTINGS);
    input.extend_from_slice(&[0, 0, 5, 0, 0, 0, 0, 0, 1, 1]);
    let mut receiver = TransportReceiveFrame::new(MemoryTransport::new(input));
    let frame = receiver.recv_frame().unwrap();
    assert_eq!(frame, RawFrame::with_payload((2, 0x9, 1, 3), vec![0xaa, 0xbb]));
    let frame = receiver.recv_frame().unwrap();
    assert_eq!(frame, RawFrame::with_payload((0, 4, 0, 0), vec![]));
    // the payload is cut short
    assert!(matches!(receiver.recv_frame(), Err(HttpError::IoError(_))));
    // the header is cut short
    let mut receiver = TransportReceiveFrame::new(MemoryTransport::new(vec![0, 0, 0, 4]));
    assert!(matches!(receiver.recv_frame(), Err(HttpError::IoError(_))));
}

#[test]
fn test_transport_sender_writes_frames() {
    let mut sender = TransportSender::new(MemoryTransport::new(vec![]));
    sender.send_frame(PingFrame::new_ack(1)).unwrap();
    sender.send_frame(SettingsFrame::new()).unwrap();
    assert!(matches!(sender.send_frame(DataFrame::new(0)), Err(HttpError::MalformedFrame)));
    let mut expected = vec![0, 0, 8, 6, 1, 0, 0, 0, 0, 0, 0, 0, 0, 0, 0, 0, 1];
    expected.extend_from_slice(&SETTINGS);
    assert_eq!(sender.ts.output, expected);
}

fn start(input: Vec<u8>) -> Result<SimpleServer<MemoryTransport, fn(ServerRequest) -> Response>, HttpError> {
    SimpleServer::new(MemoryTransport::new(input), hello as fn(ServerRequest) -> Response)
}

#[test]
fn test_simple_server_starts_after_preface_and_settings() {
    let mut input = PREFACE.to_vec();
    input.extend_from_slice(&SETTINGS);

    let server = start(input).unwrap();

    let mut expected = SETTINGS.to_vec();
    expected.extend_from_slice(&SETTINGS_ACK);
    assert_eq!(server.conn.conn.sender.ts.output, expected);
    assert!(server.conn.conn.receiver.ts.input.is_empty());
    assert_eq!(server.conn.conn.state, ConnectionState::Open);
    assert_eq!(server.conn.scheme(), HttpScheme::Http);
    assert_eq!(server.conn.streams.state.len(), 0);
}

#[test]
fn test_simple_server_refuses_other_first_bytes() {
    let mut input = b"GET / HTTP/1.1\r\nHost: example\r\n".to_vec();
    input.extend_from_slice(&SETTINGS);
    assert!(matches!(start(input), Err(HttpError::PreambleMismatch)));
    let mut input = PREFACE.to_vec();
    input[23] = b'\r';
    input.extend_from_slice(&SETTINGS);
    assert!(matches!(start(input), Err(HttpError::PreambleMismatch)));
}

#[test]
fn test_simple_server_refuses_other_first_frames() {
    for frame in [
        SETTINGS_ACK.to_vec(),
        wire(HttpFrame::PingFrame(PingFrame::new())),
        wire(headers_frame(vec![0x82], 1, true)),
    ] {
        let mut input = PREFACE.to_vec();
        input.extend_from_slice(&frame);
        assert!(matches!(start(input), Err(HttpError::PreambleMismatch)));
    }
    // a frame that is malformed
    let mut input = PREFACE.to_vec();
    input.extend_from_slice(&[0, 0, 1, 4, 0, 0, 0, 0, 0, 0]);
    assert!(matches!(start(input), Err(HttpError::MalformedFrame)));
}

#[test]
fn test_simple_server_hands_on_transport_errors() {
    assert!(matches!(start(PREFACE[..10].to_vec()), Err(HttpError::IoError(_))));
    assert!(matches!(start(PREFACE.to_vec()), Err(HttpError::IoError(_))));
}

#[test]
fn test_simple_server_answers_a_request() {
    let mut input = PREFACE.to_vec();
    input.extend_from_slice(&SETTINGS);
    let mut server = start(input).unwrap();
    server.conn.conn.sender.ts.output.clear();

    // The headers of a request with a body
    server.conn.conn.receiver.ts.input = wire(headers_frame(vec![0x83, 0x84], 1, false));
    server.handle_next().unwrap();
    assert!(server.conn.conn.sender.ts.output.is_empty());
    assert_eq!(server.conn.streams.state.len(), 1);

    // The body, which ends the request
    let mut data = DataFrame::with_data(1, b"world".to_vec());
    data.set_flag(DataFlag::EndStream);
    server.conn.conn.receiver.ts.input = wire(HttpFrame::DataFrame(data));
    server.handle_next().unwrap();

    let mut expected = vec![0, 0, 1, 1, 4, 0, 0, 0, 1, 0x88];
    expected.extend_from_slice(&[0, 0, 11, 0, 1, 0, 0, 0, 1]);
    expected.extend_from_slice(b"hello world");
    assert_eq!(server.conn.conn.sender.ts.output, expected);
    // The stream is closed on both sides, and gone
    assert_eq!(server.conn.streams.state.len(), 0);
}

#[test]
fn test_simple_server_sends_a_long_body_in_chunks() {
    let mut input = PREFACE.to_vec();
    input.extend_from_slice(&SETTINGS);
    let handler = |req: ServerRequest| Response {
        stream_id: req.stream_id,
        headers: vec![(b":status".to_vec(), b"200".to_vec())],
        body: vec![7; 8192 * 2 + 5],
    };
    let mut server = SimpleServer::new(MemoryTransport::new(input), handler).unwrap();
    server.conn.conn.sender.ts.output.clear();

    server.conn.conn.receiver.ts.input = wire(headers_frame(vec![0x82, 0x84], 5, true));
    server.handle_next().unwrap();

    let mut receiver =
        TransportReceiveFrame::new(MemoryTransport::new(server.conn.conn.sender.ts.output.clone()));
    let frames: Vec<RawFrame> = (0..4).map(|_| receiver.recv_frame().unwrap()).collect();
    assert!(receiver.ts.input.is_empty());
    assert_eq!(frames[0].header(), (1, 1, 4, 5));
    assert_eq!(frames[1].header(), (8192, 0, 0, 5));
    assert_eq!(frames[2].header(), (8192, 0, 0, 5));
    assert_eq!(frames[3].header(), (5, 0, 1, 5));
    assert!(frames[1..].iter().all(|f| f.payload().iter().all(|b| *b == 7)));
    assert_eq!(server.conn.streams.state.len(), 0);
}

#[test]
fn test_simple_server_response_for_a_stream_that_is_not_there() {
    let mut input = PREFACE.to_vec();
    input.extend_from_slice(&SETTINGS);
    let handler = |req: ServerRequest| Response {
        stream_id: req.stream_id + 2,
        headers: vec![],
        body: vec![],
    };
    let mut server = SimpleServer::new(MemoryTransport::new(input), handler).unwrap();
    server.conn.conn.sender.ts.output.clear();

    server.conn.conn.receiver.ts.input = wire(headers_frame(vec![0x82, 0x84], 1, true));

    assert!(matches!(server.handle_next(), Err(HttpError::UnknownStreamId)));
    assert!(server.conn.conn.sender.ts.output.is_empty());
}

#[test]
fn test_simple_server_handles_requests_in_the_order_of_their_streams() {
    let mut input = PREFACE.to_vec();
    input.extend_from_slice(&SETTINGS);
    let mut seen: Vec<(u32, Vec<u8>)> = Vec::new();
    {
        let handler = |req: ServerRequest| {
            seen.push((req.stream_id, req.body.to_vec()));
            Response { stream_id: req.stream_id, headers: vec![], body: vec![] }
        };
        let mut server = SimpleServer::new(MemoryTransport::new(input), handler).unwrap();
        server.conn.streams.state.insert_stream(DefaultStream::with_id(3));
        server.conn.streams.state.insert_stream(DefaultStream::with_id(1));
        server.conn.streams.state.insert_stream(DefaultStream::with_id(5));
        server.conn.streams.state.get_stream_mut(1).unwrap().new_data_chunk(&[1]);
        server.conn.streams.state.get_stream_mut(1).unwrap().close_remote();
        server.conn.streams.state.get_stream_mut(3).unwrap().close_remote();
        server.conn.conn.receiver.ts.input = wire(HttpFrame::PingFrame(PingFrame::new_ack(0)));
        server.handle_next().unwrap();
        assert_eq!(server.conn.streams.state.len(), 1);
        assert!(server.conn.streams.state.get_stream_ref(5).is_some());
    }
    assert_eq!(seen, vec![(3, vec![]), (1, vec![1])]);
}

#[test]
fn test_simple_server_hands_on_receiver_errors() {
    let mut input = PREFACE.to_vec();
    input.extend_from_slice(&SETTINGS);
    let mut server = start(input).unwrap();
    assert!(matches!(server.handle_next(), Err(HttpError::IoError(_))));
}

#[test]
fn test_server_send_settings_alone() {
    let mut conn = conn_with(vec![]);
    conn.send_settings().unwrap();
    assert_eq!(conn.conn.sender.sent, vec![SETTINGS.to_vec()]);
}

/// Where reading the next frame fails, the server writes nothing and keeps
/// its streams.
#[test]
fn test_simple_server_writes_nothing_after_a_failed_read() {
    let mut input = PREFACE.to_vec();
    input.extend_from_slice(&SETTINGS);
    let mut server = start(input).unwrap();
    let written = server.conn.conn.sender.ts.output.clone();

    // Half a frame header.
    server.conn.conn.receiver.ts.input = vec![0, 0, 8, 6];
    assert!(matches!(server.handle_next(), Err(HttpError::IoError(_))));
    assert_eq!(server.conn.conn.sender.ts.output, written);

    // A ping of the wrong length.
    server.conn.conn.receiver.ts.input = vec![0, 0, 1, 6, 0, 0, 0, 0, 0, 9];
    assert!(matches!(server.handle_next(), Err(HttpError::MalformedFrame)));
    assert_eq!(server.conn.conn.sender.ts.output, written);
    assert_eq!(server.conn.streams.state.len(), 0);
}

/// A server that greets a client sends its settings before it reads
/// anything more, and takes the settings of the client after that.
#[test]
fn test_simple_server_greets_before_it_takes_settings() {
    let handler = hello as fn(ServerRequest) -> Response;
    let mut server = SimpleServer::greet(PREFACE, MemoryTransport::new(Vec::new()), handler).unwrap();

    assert_eq!(server.conn.conn.sender.ts.output, SETTINGS.to_vec());
    assert_eq!(server.conn.conn.state, ConnectionState::PrefacePending);
    assert_eq!(server.conn.streams.state.len(), 0);

    // Nothing to read yet.
    assert!(matches!(server.take_settings(), Err(HttpError::IoError(_))));

    let mut server = SimpleServer::greet(PREFACE, MemoryTransport::new(Vec::new()), handler).unwrap();
    server.conn.conn.receiver.ts.input = SETTINGS.to_vec();
    server.take_settings().unwrap();

    let mut expected = SETTINGS.to_vec();
    expected.extend_from_slice(&SETTINGS_ACK);
    assert_eq!(server.conn.conn.sender.ts.output, expected);
    assert!(server.conn.conn.receiver.ts.input.is_empty());
    assert_eq!(server.conn.conn.state, ConnectionState::Open);
}

#[test]
fn test_simple_server_greets_only_after_the_client_preface() {
    let handler = hello as fn(ServerRequest) -> Response;
    let r = SimpleServer::greet(b"PRI * HTTP/2.0\r\n\r\nSM\r\n\r", MemoryTransport::new(Vec::new()), handler);
    assert!(matches!(r, Err(HttpError::PreambleMismatch)));
    let r = SimpleServer::greet(b"GET / HTTP/1.1\r\nHost: ab\r\n", MemoryTransport::new(Vec::new()), handler);
    assert!(matches!(r, Err(HttpError::PreambleMismatch)));
}

#[test]
fn test_simple_server_takes_only_settings_first() {
    let handler = hello as fn(ServerRequest) -> Response;
    let mut server = SimpleServer::greet(PREFACE, MemoryTransport::new(Vec::new()), handler).unwrap();
    server.conn.conn.receiver.ts.input = SETTINGS_ACK.to_vec();

    assert!(matches!(server.take_settings(), Err(HttpError::PreambleMismatch)));
    assert_eq!(server.conn.conn.sender.ts.output, SETTINGS.to_vec());
}
