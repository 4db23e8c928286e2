//! The core of the HTTP/2 implementation: shared types, the frame codec, the
//! connection engine and the session state.

use vstd::prelude::*;

pub mod client;
pub mod compression;
pub mod connection;
pub mod frame;
pub mod memory;
pub mod priority;
pub mod server;
pub mod session;
pub mod settings;
pub mod transport;

verus! {

/// An alias for the type that represents the ID of an HTTP/2 stream.
pub type StreamId = u32;

/// An HTTP/2 header: a name and a value, both byte strings.
pub type Header = (Vec<u8>, Vec<u8>);

/// The 24 bytes that a client sends first on every connection.
pub open spec fn client_preface() -> Seq<u8> {
    seq![
        0x50u8, 0x52, 0x49, 0x20, 0x2a, 0x20, 0x48, 0x54, 0x54, 0x50, 0x2f, 0x32, 0x2e, 0x30,
        0x0d, 0x0a, 0x0d, 0x0a, 0x53, 0x4d, 0x0d, 0x0a, 0x0d, 0x0a,
    ]
}

/// The scheme under which a connection runs.
#[derive(Clone, Copy, Debug, PartialEq, Eq, Structural)]
pub enum HttpScheme {
    /// Cleartext HTTP/2.
    Http,
    /// HTTP/2 over TLS.
    Https,
}

impl HttpScheme {
    /// The scheme as it is written in the `:scheme` pseudo-header.
    pub open spec fn spec_bytes(self) -> Seq<u8> {
        match self {
            HttpScheme::Http => seq![0x68u8, 0x74, 0x74, 0x70],
            HttpScheme::Https => seq![0x68u8, 0x74, 0x74, 0x70, 0x73],
        }
    }

    /// Returns the scheme as it is written in the `:scheme` pseudo-header.
    pub fn as_bytes(&self) -> (r: Vec<u8>)
        ensures
            r@ == self.spec_bytes(),
    {
        let mut out: Vec<u8> = Vec::new();
        out.push(0x68);
        out.push(0x74);
        out.push(0x74);
        out.push(0x70);
        match self {
            HttpScheme::Http => {},
            HttpScheme::Https => {
                out.push(0x73);
            },
        }
        assert(out@ =~= self.spec_bytes());
        out
    }
}

/// A failure of the transport under a connection, as the transport describes it.
#[derive(Debug)]
pub struct TransportError {
    /// The transport's own description of what went wrong.
    pub detail: String,
}

/// The errors that the HTTP/2 engine can report.
#[derive(Debug)]
pub enum HttpError {
    /// The transport failed.
    IoError(TransportError),
    /// A frame violated the invariants of its type.
    MalformedFrame,
    /// The peer's preface was not the expected one.
    PreambleMismatch,
    /// A header block could not be decompressed.
    CompressionError,
    /// A frame referred to a stream that the session does not hold.
    UnknownStreamId,
    /// Any other violation at the level of the connection.
    ProtocolError,
    /// A failure while the transport was being set up.
    Other(String),
}

/// The result of an operation of the HTTP/2 engine.
pub type HttpResult<T> = Result<T, HttpError>;

/// A request, ready to be sent on the stream that it names.
#[derive(Debug)]
pub struct Request {
    pub stream_id: StreamId,
    pub headers: Vec<Header>,
    pub body: Vec<u8>,
}

/// A response, as received or as about to be sent on the stream that it names.
#[derive(Debug)]
pub struct Response {
    pub stream_id: StreamId,
    pub headers: Vec<Header>,
    pub body: Vec<u8>,
}

/// The mathematical model of a request or a response.
pub struct MessageView {
    pub stream_id: StreamId,
    pub headers: Seq<(Seq<u8>, Seq<u8>)>,
    pub body: Seq<u8>,
}

impl View for Request {
    type V = MessageView;

    open spec fn view(&self) -> MessageView {
        MessageView {
            stream_id: self.stream_id,
            headers: self.headers.deep_view(),
            body: self.body@,
        }
    }
}

impl View for Response {
    type V = MessageView;

    open spec fn view(&self) -> MessageView {
        MessageView {
            stream_id: self.stream_id,
            headers: self.headers.deep_view(),
            body: self.body@,
        }
    }
}

/// Tells whether the bytes are the 24 bytes that a client sends first.
pub fn is_client_preface(bytes: &[u8]) -> (r: bool)
    ensures
        r == (bytes@ == client_preface()),
{
    let expected: [u8; 24] = [
        0x50, 0x52, 0x49, 0x20, 0x2a, 0x20, 0x48, 0x54, 0x54, 0x50, 0x2f, 0x32, 0x2e, 0x30, 0x0d,
        0x0a, 0x0d, 0x0a, 0x53, 0x4d, 0x0d, 0x0a, 0x0d, 0x0a,
    ];
    assert(expected@ =~= client_preface());
    if bytes.len() != 24 {
        return false;
    }
    let mut i: usize = 0;
    while i < 24
        invariant
            i <= 24,
            bytes@.len() == 24,
            expected@ == client_preface(),
            forall|k: int| 0 <= k < i ==> bytes@[k] == expected@[k],
        decreases 24 - i,
    {
        if bytes[i] != expected[i] {
            return false;
        }
        i += 1;
    }
    assert(bytes@ =~= client_preface());
    true
}

} // verus!
