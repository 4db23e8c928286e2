use solicit::http::client::{ClientConnection, ClientSession, ClientStreamIds};
use solicit::http::connection::HttpConnection;
use solicit::http::frame::RawFrame;
use solicit::http::memory::{FrameBuffer, FrameQueue, MemoryTransport};
use solicit::http::session::DefaultStream;
use solicit::http::transport::TransportReceiveFrame;
use solicit::http::connection::ReceiveFrame;
use solicit::http::{Header, HttpScheme, Response};
use solicit::server::{ServerRequest, SimpleServer};

const PREFACE: &[u8] = b"PRI * HTTP/2.0\r\n\r\nSM\r\n\r\n";
const SETTINGS: [u8; 9] = [0, 0, 0, 4, 0, 0, 0, 0, 0];

type Client = ClientConnection<FrameBuffer, FrameQueue, ClientSession<DefaultStream>>;

/// A client and a server in memory, and what carries the bytes between
/// them.
struct Pair<H: FnMut(ServerRequest) -> Response> {
    client: Client,
    ids: ClientStreamIds,
    server: SimpleServer<MemoryTransport, H>,
}

fn header<'a>(headers: &'a [Header], name: &[u8]) -> Option<&'a [u8]> {
    headers.iter().find(|h| h.0 == name).map(|h| &h.1[..])
}

/// Splits bytes into the frames that they hold.
fn frames_of(bytes: Vec<u8>) -> Vec<RawFrame> {
    let mut receiver = TransportReceiveFrame::new(MemoryTransport::new(bytes));
    let mut frames = Vec::new();
    while !receiver.ts.input.is_empty() {
        frames.push(receiver.recv_frame().expect("whole frames"));
    }
    frames
}

impl<H: FnMut(ServerRequest) -> Response> Pair<H> {
    /// Connects a client and a server: the client sends its preface and its
    /// settings, the server answers, and the client takes the settings of
    /// the server.
    fn connect(handler: H) -> Pair<H> {
        let mut hello = PREFACE.to_vec();
        hello.extend_from_slice(&SETTINGS);
        let server = SimpleServer::new(MemoryTransport::new(hello), handler).unwrap();
        let conn = HttpConnection::new(
            FrameBuffer::new(),
            FrameQueue::new(Vec::new()),
            HttpScheme::Http,
        );
        let client = ClientConnection::with_connection(conn, ClientSession::new());
        let mut pair = Pair { client, ids: ClientStreamIds::new(), server };
        pair.deliver_to_client();
        pair.client.init().unwrap();
        // the acknowledgement of the server's settings by the client
        pair.deliver_to_server();
        // the acknowledgement of the client's settings by the server
        pair.deliver_to_client();
        pair.client.handle_next_frame().unwrap();
        pair
    }

    /// Hands to the client what the server has sent.
    fn deliver_to_client(&mut self) {
        let bytes = std::mem::take(&mut self.server.conn.conn.sender.ts.output);
        self.client.conn.receiver.frames.extend(frames_of(bytes));
    }

    /// Hands to the server what the client has sent, frame by frame.
    fn deliver_to_server(&mut self) {
        let frames = std::mem::take(&mut self.client.conn.sender.sent);
        for frame in frames {
            self.server.conn.conn.receiver.ts.input = frame;
            self.server.handle_next().unwrap();
        }
    }

    /// Sends a request and returns the response.
    fn request(&mut self, headers: Vec<Header>, body: Vec<u8>) -> Response {
        let stream_id = self.client.start_request(&mut self.ids, headers, body).unwrap();
        self.deliver_to_server();
        self.deliver_to_client();
        while self.client.conn.receiver.len() > 0 {
            self.client.handle_next_frame().unwrap();
        }
        let mut responses = self.client.take_responses();
        assert_eq!(responses.len(), 1);
        let response = responses.remove(0);
        assert_eq!(response.stream_id, stream_id);
        response
    }

    fn get(&mut self, path: &[u8]) -> Response {
        let headers = vec![
            (b":method".to_vec(), b"GET".to_vec()),
            (b":path".to_vec(), path.to_vec()),
            (b":scheme".to_vec(), b"http".to_vec()),
        ];
        self.request(headers, Vec::new())
    }

    fn post(&mut self, path: &[u8], body: Vec<u8>) -> Response {
        let headers = vec![
            (b":method".to_vec(), b"POST".to_vec()),
            (b":path".to_vec(), path.to_vec()),
            (b":scheme".to_vec(), b"http".to_vec()),
        ];
        self.request(headers, body)
    }
}

/// A handler that answers `/status/<code>` with that status, echoes the
/// body of what is posted, and answers all else with 200.
fn answer(req: ServerRequest) -> Response {
    let path = header(req.headers, b":path").unwrap_or(b"/").to_vec();
    let status = match path.strip_prefix(b"/status/") {
        Some(code) => code.to_vec(),
        None => b"200".to_vec(),
    };
    Response {
        stream_id: req.stream_id,
        headers: vec![(b":status".to_vec(), status), (b"x-path".to_vec(), path)],
        body: req.body.to_vec(),
    }
}

fn status_code(response: &Response) -> u16 {
    let status = header(&response.headers, b":status").expect("a status");
    std::str::from_utf8(status).unwrap().parse().unwrap()
}

#[test]
fn test_get_over_a_connection_in_memory() {
    let mut pair = Pair::connect(answer);
    let paths = ["/get", "/status/404", "/status/418"];

    let statuses: Vec<u16> =
        paths.iter().map(|path| status_code(&pair.get(path.as_bytes()))).collect();

    assert_eq!(statuses, vec![200, 404, 418]);
    assert_eq!(pair.ids.next, 7);
    assert_eq!(pair.server.conn.streams.state.streams.len(), 0);
}

#[test]
fn test_post_over_a_connection_in_memory() {
    let mut pair = Pair::connect(answer);

    let response = pair.post(b"/post", b"Hello, World!".to_vec());

    assert_eq!(response.stream_id, 1);
    let body = std::str::from_utf8(&response.body).unwrap();
    assert!(body.contains("Hello, World!"));
    assert_eq!(header(&response.headers, b"x-path"), Some(&b"/post"[..]));
}

#[test]
fn test_headers_are_compressed_with_shared_tables() {
    let mut pair = Pair::connect(answer);
    let first = pair.get(b"/some/long/path");
    let second = pair.get(b"/some/long/path");
    assert_eq!(first.headers, second.headers);
    assert_eq!(second.stream_id, 3);
}

#[test]
fn test_long_body_over_a_connection_in_memory() {
    let mut pair = Pair::connect(answer);
    let body: Vec<u8> = (0..20000u32).map(|i| (i % 251) as u8).collect();
    let response = pair.post(b"/post", body.clone());
    assert_eq!(response.body, body);
}
