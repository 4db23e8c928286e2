//! The connection engine: it sends headers and data as frames, reads the
//! frames of the peer and reports them to a session.

use vstd::prelude::*;
use crate::http::{Header, HttpError, HttpResult, HttpScheme, StreamId};
use crate::http::compression::{
    block_is_safe, decode_block, decoder_max_size, decoder_table, encode_headers, encoder_table,
    hpack_decoded, hpack_encoded, new_decoder, new_encoder, spec_block_safe,
};
use crate::http::frame::{Frame, FrameBuilder, FrameIR, RawFrame, RawFrameView, flag_set, lemma_raw_frame_round_trip, spec_raw_from_buf, lemma_piece_written};
use crate::http::frame::data::{
    DATA_FRAME_TYPE, DataFrame, DataFrameView, lemma_data_round_trip, spec_data_from_raw,
};
use crate::http::frame::goaway::{
    GOAWAY_FRAME_TYPE, GoawayFrame, GoawayFrameView, lemma_goaway_round_trip, spec_goaway_from_raw,
};
use crate::http::frame::headers::{
    HEADERS_FRAME_TYPE, HeadersFrame, HeadersFrameView, lemma_headers_round_trip,
    spec_headers_from_raw,
};
use crate::http::frame::ping::{
    PING_FRAME_TYPE, PingFrame, lemma_ping_round_trip, spec_ping_from_raw,
};
use crate::http::frame::rst_stream::{
    RST_STREAM_FRAME_TYPE, RstStreamFrame, lemma_rst_stream_round_trip, spec_rst_stream_from_raw,
};
use crate::http::frame::settings::{
    HttpSetting, SETTINGS_FRAME_TYPE, SettingsFrame, SettingsFrameView,
    lemma_settings_frame_round_trip, spec_settings_from_raw,
};
use crate::http::frame::window_update::{
    WINDOW_UPDATE_FRAME_TYPE, WindowUpdateFrame, lemma_window_update_round_trip,
    spec_window_update_from_raw,
};
use crate::http::session::{Session, SessionEvent, session_run};
use crate::http::settings::Settings;

verus! {

/// The frames that a connection can handle, and a raw frame for all others.
#[derive(Debug, PartialEq)]
pub enum HttpFrame {
    DataFrame(DataFrame),
    HeadersFrame(HeadersFrame),
    RstStreamFrame(RstStreamFrame),
    SettingsFrame(SettingsFrame),
    PingFrame(PingFrame),
    GoawayFrame(GoawayFrame),
    WindowUpdateFrame(WindowUpdateFrame),
    UnknownFrame(RawFrame),
}

/// The mathematical model of an `HttpFrame`.
pub enum HttpFrameView {
    DataFrame(DataFrameView),
    HeadersFrame(HeadersFrameView),
    RstStreamFrame(RstStreamFrame),
    SettingsFrame(SettingsFrameView),
    PingFrame(PingFrame),
    GoawayFrame(GoawayFrameView),
    WindowUpdateFrame(WindowUpdateFrame),
    UnknownFrame(RawFrameView),
}

/// Whether a frame type is one of those that have a typed frame.
pub open spec fn is_known_type(frame_type: u8) -> bool {
    frame_type == DATA_FRAME_TYPE || frame_type == HEADERS_FRAME_TYPE || frame_type
        == RST_STREAM_FRAME_TYPE || frame_type == SETTINGS_FRAME_TYPE || frame_type
        == PING_FRAME_TYPE || frame_type == GOAWAY_FRAME_TYPE || frame_type
        == WINDOW_UPDATE_FRAME_TYPE
}

impl HttpFrameView {
    /// Whether the frame can stand on the wire. A raw frame must not have
    /// the type of a typed frame.
    pub open spec fn wf(self) -> bool {
        match self {
            HttpFrameView::DataFrame(f) => f.wf(),
            HttpFrameView::HeadersFrame(f) => f.wf(),
            HttpFrameView::RstStreamFrame(f) => f.spec_wf(),
            HttpFrameView::SettingsFrame(f) => f.wf(),
            HttpFrameView::PingFrame(_) => true,
            HttpFrameView::GoawayFrame(f) => f.wf(),
            HttpFrameView::WindowUpdateFrame(f) => f.spec_wf(),
            HttpFrameView::UnknownFrame(raw) => raw.wf() && !is_known_type(raw.header.1),
        }
    }

    /// The raw frame that carries this frame.
    pub open spec fn raw(self) -> RawFrameView {
        match self {
            HttpFrameView::DataFrame(f) => f.raw(),
            HttpFrameView::HeadersFrame(f) => f.raw(),
            HttpFrameView::RstStreamFrame(f) => f.spec_raw(),
            HttpFrameView::SettingsFrame(f) => f.raw(),
            HttpFrameView::PingFrame(f) => f.spec_raw(),
            HttpFrameView::GoawayFrame(f) => f.raw(),
            HttpFrameView::WindowUpdateFrame(f) => f.spec_raw(),
            HttpFrameView::UnknownFrame(raw) => raw,
        }
    }
}

/// The frame that a raw frame holds: the typed frame of its type, or the raw
/// frame itself where the type has none. `None` where the raw frame is no
/// valid frame of its type.
pub open spec fn spec_frame_from_raw(raw: RawFrameView) -> Option<HttpFrameView> {
    let frame_type = raw.header.1;
    if frame_type == DATA_FRAME_TYPE {
        match spec_data_from_raw(raw) {
            Some(f) => Some(HttpFrameView::DataFrame(f)),
            None => None,
        }
    } else if frame_type == HEADERS_FRAME_TYPE {
        match spec_headers_from_raw(raw) {
            Some(f) => Some(HttpFrameView::HeadersFrame(f)),
            None => None,
        }
    } else if frame_type == RST_STREAM_FRAME_TYPE {
        match spec_rst_stream_from_raw(raw) {
            Some(f) => Some(HttpFrameView::RstStreamFrame(f)),
            None => None,
        }
    } else if frame_type == SETTINGS_FRAME_TYPE {
        match spec_settings_from_raw(raw) {
            Some(f) => Some(HttpFrameView::SettingsFrame(f)),
            None => None,
        }
    } else if frame_type == PING_FRAME_TYPE {
        match spec_ping_from_raw(raw) {
            Some(f) => Some(HttpFrameView::PingFrame(f)),
            None => None,
        }
    } else if frame_type == GOAWAY_FRAME_TYPE {
        match spec_goaway_from_raw(raw) {
            Some(f) => Some(HttpFrameView::GoawayFrame(f)),
            None => None,
        }
    } else if frame_type == WINDOW_UPDATE_FRAME_TYPE {
        match spec_window_update_from_raw(raw) {
            Some(f) => Some(HttpFrameView::WindowUpdateFrame(f)),
            None => None,
        }
    } else {
        Some(HttpFrameView::UnknownFrame(raw))
    }
}

impl View for HttpFrame {
    type V = HttpFrameView;

    open spec fn view(&self) -> HttpFrameView {
        match self {
            HttpFrame::DataFrame(f) => HttpFrameView::DataFrame(f@),
            HttpFrame::HeadersFrame(f) => HttpFrameView::HeadersFrame(f@),
            HttpFrame::RstStreamFrame(f) => HttpFrameView::RstStreamFrame(*f),
            HttpFrame::SettingsFrame(f) => HttpFrameView::SettingsFrame(f@),
            HttpFrame::PingFrame(f) => HttpFrameView::PingFrame(*f),
            HttpFrame::GoawayFrame(f) => HttpFrameView::GoawayFrame(f@),
            HttpFrame::WindowUpdateFrame(f) => HttpFrameView::WindowUpdateFrame(*f),
            HttpFrame::UnknownFrame(raw) => HttpFrameView::UnknownFrame(raw@),
        }
    }
}

impl HttpFrame {
    /// Parses the raw frame into the typed frame of its type. A raw frame of
    /// a type that has no typed frame is kept as it is. A raw frame that is
    /// no valid frame of its type is refused as malformed.
    pub fn from_raw(raw: RawFrame) -> (r: HttpResult<HttpFrame>)
        ensures
            match r {
                Ok(frame) => spec_frame_from_raw(raw@) == Some(frame@),
                Err(e) => e is MalformedFrame && spec_frame_from_raw(raw@).is_none(),
            },
    {
        let frame_type: u8 = raw.header().1;
        let frame: Option<HttpFrame> = match frame_type {
            0x0 => match DataFrame::from_raw(&raw) {
                Some(f) => Some(HttpFrame::DataFrame(f)),
                None => None,
            },
            0x1 => match HeadersFrame::from_raw(&raw) {
                Some(f) => Some(HttpFrame::HeadersFrame(f)),
                None => None,
            },
            0x3 => match RstStreamFrame::from_raw(&raw) {
                Some(f) => Some(HttpFrame::RstStreamFrame(f)),
                None => None,
            },
            0x4 => match SettingsFrame::from_raw(&raw) {
                Some(f) => Some(HttpFrame::SettingsFrame(f)),
                None => None,
            },
            0x6 => match PingFrame::from_raw(&raw) {
                Some(f) => Some(HttpFrame::PingFrame(f)),
                None => None,
            },
            0x7 => match GoawayFrame::from_raw(&raw) {
                Some(f) => Some(HttpFrame::GoawayFrame(f)),
                None => None,
            },
            0x8 => match WindowUpdateFrame::from_raw(&raw) {
                Some(f) => Some(HttpFrame::WindowUpdateFrame(f)),
                None => None,
            },
            _ => Some(HttpFrame::UnknownFrame(raw)),
        };
        match frame {
            Some(frame) => Ok(frame),
            None => Err(HttpError::MalformedFrame),
        }
    }

    /// Parses a buffer that holds exactly one frame. A buffer that does not,
    /// or whose frame is no valid frame of its type, is refused as malformed.
    pub fn parse(buf: &[u8]) -> (r: HttpResult<HttpFrame>)
        ensures
            match r {
                Ok(frame) => spec_parse_frame(buf@) == Some(frame@),
                Err(e) => e is MalformedFrame && spec_parse_frame(buf@).is_none(),
            },
    {
        match RawFrame::from_buf(buf) {
            Some(raw) => HttpFrame::from_raw(raw),
            None => Err(HttpError::MalformedFrame),
        }
    }
}

/// The frame that a buffer holds, if it holds exactly one valid frame.
pub open spec fn spec_parse_frame(buf: Seq<u8>) -> Option<HttpFrameView> {
    match spec_raw_from_buf(buf) {
        Some(raw) => spec_frame_from_raw(raw),
        None => None,
    }
}

/// A well-formed frame of any type that is written out and parsed back is
/// the same frame.
pub proof fn lemma_frame_round_trip(frame: HttpFrameView)
    requires
        frame.wf(),
    ensures
        frame.raw().wf(),
        spec_frame_from_raw(frame.raw()) == Some(frame),
        spec_parse_frame(frame.raw().wire()) == Some(frame),
{
    match frame {
        HttpFrameView::DataFrame(f) => {
            lemma_data_round_trip(f);
        },
        HttpFrameView::HeadersFrame(f) => {
            lemma_headers_round_trip(f);
        },
        HttpFrameView::RstStreamFrame(f) => {
            lemma_rst_stream_round_trip(f);
        },
        HttpFrameView::SettingsFrame(f) => {
            lemma_settings_frame_round_trip(f);
        },
        HttpFrameView::PingFrame(f) => {
            lemma_ping_round_trip(f);
        },
        HttpFrameView::GoawayFrame(f) => {
            lemma_goaway_round_trip(f);
        },
        HttpFrameView::WindowUpdateFrame(f) => {
            lemma_window_update_round_trip(f);
        },
        HttpFrameView::UnknownFrame(raw) => {
            lemma_raw_frame_round_trip(raw);
        },
    }
}

impl FrameIR for HttpFrame {
    open spec fn serializable(&self) -> bool {
        match self {
            HttpFrame::UnknownFrame(raw) => raw@.wf(),
            _ => self@.wf(),
        }
    }

    open spec fn wire(&self) -> Seq<u8> {
        self@.raw().wire()
    }

    /// The pieces of the typed frame; a frame of an unknown type is written
    /// in one piece.
    open spec fn pieces(&self) -> Seq<Seq<u8>> {
        match self {
            HttpFrame::DataFrame(f) => f.pieces(),
            HttpFrame::HeadersFrame(f) => f.pieces(),
            HttpFrame::RstStreamFrame(f) => f.pieces(),
            HttpFrame::SettingsFrame(f) => f.pieces(),
            HttpFrame::PingFrame(f) => f.pieces(),
            HttpFrame::GoawayFrame(f) => f.pieces(),
            HttpFrame::WindowUpdateFrame(f) => f.pieces(),
            HttpFrame::UnknownFrame(raw) => seq![raw@.wire()],
        }
    }

    fn serialize_into<B: FrameBuilder>(self, builder: &mut B) -> (r: HttpResult<()>) {
        match self {
            HttpFrame::DataFrame(f) => f.serialize_into(builder),
            HttpFrame::HeadersFrame(f) => f.serialize_into(builder),
            HttpFrame::RstStreamFrame(f) => f.serialize_into(builder),
            HttpFrame::SettingsFrame(f) => f.serialize_into(builder),
            HttpFrame::PingFrame(f) => f.serialize_into(builder),
            HttpFrame::GoawayFrame(f) => f.serialize_into(builder),
            HttpFrame::WindowUpdateFrame(f) => f.serialize_into(builder),
            HttpFrame::UnknownFrame(raw) => {
                if !raw.is_consistent() {
                    return Err(HttpError::MalformedFrame);
                }
                let bytes: Vec<u8> = raw.serialize();
                let ghost all = self.pieces();
                assert(all.take(0) =~= Seq::<Seq<u8>>::empty());
                let r = builder.write_all(bytes.as_slice());
                proof {
                    lemma_piece_written(*old(builder), all, 0, *old(builder), r, *builder);
                }
                r
            },
        }
    }
}

/// Where frames go out. An implementation serializes each frame and sees to
/// it that the frame reaches the peer.
pub trait SendFrame: Sized {
    /// The frames that were accepted for sending, each as it stands on the
    /// wire, oldest first.
    spec fn sent(&self) -> Seq<Seq<u8>>;

    /// Whether the sender accepts every frame that can stand on the wire.
    spec fn reliable(&self) -> bool;

    /// Whether handing over a frame that stands on the wire as `wire` may
    /// turn the sender `pre` into `post` and give `r`.
    spec fn handed_over(pre: Self, wire: Seq<u8>, r: HttpResult<()>, post: Self) -> bool;

    /// Queues the given frame for sending to the peer. A frame that cannot
    /// stand on the wire is refused, and the sender stays as it is.
    fn send_frame<F: FrameIR>(&mut self, frame: F) -> (r: HttpResult<()>)
        ensures
            final(self).reliable() == old(self).reliable(),
            old(self).reliable() && frame.serializable() ==> r is Ok,
            r is Ok ==> frame.serializable() && final(self).sent() == old(self).sent().push(
                frame.wire(),
            ),
            frame.serializable() ==> Self::handed_over(
                *old(self),
                frame.wire(),
                r,
                *final(self),
            ),
            !frame.serializable() ==> r is Err && *final(self) == *old(self),
    ;
}

/// Where frames come in.
pub trait ReceiveFrame: Sized {
    /// Whether a call of `recv_frame` may turn the receiver `pre` into
    /// `post` and give `r`.
    spec fn received(pre: Self, r: HttpResult<RawFrameView>, post: Self) -> bool;

    /// Returns the next frame that the peer has sent, as a raw frame.
    fn recv_frame(&mut self) -> (r: HttpResult<RawFrame>)
        ensures
            Self::received(*old(self), spec_raw_result(r), *final(self)),
    ;
}

/// The model of what a receiver gives.
pub open spec fn spec_raw_result(r: HttpResult<RawFrame>) -> HttpResult<RawFrameView> {
    match r {
        Ok(raw) => Ok(raw@),
        Err(e) => Err(e),
    }
}

/// Whether a frame or a chunk is the last of its stream.
#[derive(Clone, Copy, Debug, PartialEq, Eq, Structural)]
pub enum EndStream {
    /// The stream ends.
    Yes,
    /// The stream goes on.
    No,
}

/// What became of a call to send the next chunk of data.
#[derive(Clone, Copy, Debug, PartialEq, Eq, Structural)]
pub enum SendStatus {
    /// A frame was sent.
    Sent,
    /// There was nothing to send.
    Nothing,
}

/// A chunk of the data of one stream, ready to be sent.
#[derive(Debug)]
pub struct DataChunk {
    /// The data of the chunk.
    pub data: Vec<u8>,
    /// The id of the stream that the chunk belongs to.
    pub stream_id: StreamId,
    /// Whether the chunk is the last of its stream.
    pub end_stream: EndStream,
}

/// The mathematical model of a `DataChunk`.
pub struct DataChunkView {
    pub data: Seq<u8>,
    pub stream_id: StreamId,
    pub end_stream: EndStream,
}

impl View for DataChunk {
    type V = DataChunkView;

    open spec fn view(&self) -> DataChunkView {
        DataChunkView { data: self.data@, stream_id: self.stream_id, end_stream: self.end_stream }
    }
}

impl DataChunk {
    /// Creates a new chunk.
    pub fn new(data: Vec<u8>, stream_id: StreamId, end_stream: EndStream) -> (r: DataChunk)
        ensures
            r@ == (DataChunkView { data: data@, stream_id, end_stream }),
    {
        DataChunk { data, stream_id, end_stream }
    }
}

/// The model of what a prioritizer gives.
pub open spec fn spec_chunk_result(r: HttpResult<Option<DataChunk>>) -> HttpResult<
    Option<DataChunkView>,
> {
    match r {
        Ok(Some(chunk)) => Ok(Some(chunk@)),
        Ok(None) => Ok(None),
        Err(e) => Err(e),
    }
}

/// The policy that chooses which stream sends its next chunk of data.
pub trait DataPrioritizer: Sized {
    /// Whether a call of `get_next_chunk` may turn the prioritizer `pre`
    /// into `post` and give `r`.
    spec fn chose(pre: Self, r: HttpResult<Option<DataChunkView>>, post: Self) -> bool;

    /// Returns the next chunk that should be sent, or `None` where no stream
    /// has data to send.
    fn get_next_chunk(&mut self) -> (r: HttpResult<Option<DataChunk>>)
        ensures
            Self::chose(*old(self), spec_chunk_result(r), *final(self)),
    ;
}

/// The settings of a connection that the peer can change.
#[derive(Clone, Copy, Debug, PartialEq, Eq, Structural)]
pub struct ConnectionSettings {
    /// The number of streams that may be open at once.
    pub max_concurrent_streams: u32,
    /// The largest payload that the peer takes in one frame.
    pub max_frame_size: u32,
    /// The size of the flow-control window of a new stream.
    pub initial_window_size: u32,
}

impl ConnectionSettings {
    /// The settings with one more setting of the peer applied. A setting
    /// that has no field here changes nothing. That holds of the header
    /// table size too: with it the peer limits the table of its own decoder,
    /// and so that of the encoder of this side, which has no way to take a
    /// limit; the decoder of this side follows the size updates that header
    /// blocks carry.
    pub open spec fn spec_apply_one(self, setting: HttpSetting) -> ConnectionSettings {
        match setting {
            HttpSetting::MaxConcurrentStreams(val) => ConnectionSettings {
                max_concurrent_streams: val,
                ..self
            },
            HttpSetting::MaxFrameSize(val) => ConnectionSettings { max_frame_size: val, ..self },
            HttpSetting::InitialWindowSize(val) => ConnectionSettings {
                initial_window_size: val,
                ..self
            },
            _ => self,
        }
    }

    /// The settings with the settings of the peer applied, one after the
    /// other.
    pub open spec fn spec_apply(self, settings: Seq<HttpSetting>) -> ConnectionSettings
        decreases settings.len(),
    {
        if settings.len() == 0 {
            self
        } else {
            self.spec_apply(settings.drop_last()).spec_apply_one(settings.last())
        }
    }

    /// The settings of a connection on which the peer has set nothing: one
    /// stream at a time, frames of up to 16384 bytes, windows of 65535 bytes.
    pub open spec fn spec_default() -> ConnectionSettings {
        ConnectionSettings {
            max_concurrent_streams: 1,
            max_frame_size: 16384,
            initial_window_size: 65535,
        }
    }

    /// Applies one setting of the peer.
    pub fn apply_one(&mut self, setting: HttpSetting)
        ensures
            *final(self) == old(self).spec_apply_one(setting),
    {
        match setting {
            HttpSetting::MaxConcurrentStreams(val) => {
                self.max_concurrent_streams = val;
            },
            HttpSetting::MaxFrameSize(val) => {
                self.max_frame_size = val;
            },
            HttpSetting::InitialWindowSize(val) => {
                self.initial_window_size = val;
            },
            _ => {},
        }
    }

    /// Applies the settings of the peer, one after the other.
    pub fn apply(&mut self, settings: &Vec<HttpSetting>)
        ensures
            *final(self) == old(self).spec_apply(settings@),
    {
        let mut i: usize = 0;
        while i < settings.len()
            invariant
                i <= settings.len(),
                *self == old(self).spec_apply(settings@.take(i as int)),
            decreases settings.len() - i,
        {
            proof {
                assert(settings@.take(i + 1).drop_last() =~= settings@.take(i as int));
            }
            self.apply_one(settings[i]);
            i += 1;
        }
        assert(settings@.take(i as int) =~= settings@);
    }
}

impl Settings for ConnectionSettings {
    open spec fn spec_max_concurrent_streams(&self) -> u32 {
        self.max_concurrent_streams
    }

    fn set_max_concurrent_streams(&mut self, max_streams: u32)
        ensures
            *final(self) == (ConnectionSettings { max_concurrent_streams: max_streams, ..*old(self) }),
    {
        self.max_concurrent_streams = max_streams;
    }

    fn max_concurrent_streams(&self) -> (r: u32) {
        self.max_concurrent_streams
    }
}

impl Default for ConnectionSettings {
    fn default() -> (r: ConnectionSettings)
        ensures
            r == ConnectionSettings::spec_default(),
    {
        ConnectionSettings {
            max_concurrent_streams: 1,
            max_frame_size: 16384,
            initial_window_size: 65535,
        }
    }
}

/// The states of a connection.
#[derive(Clone, Copy, Debug, PartialEq, Eq, Structural)]
pub enum ConnectionState {
    /// The settings of the peer have not been seen yet.
    PrefacePending,
    /// The settings of the peer have been seen.
    Open,
    /// The connection has ended: one side has said that it goes away, the
    /// transport has failed, or the connection was closed.
    Closed,
}

/// What the peer has said in a `GOAWAY` frame.
#[derive(Clone, Copy, Debug, PartialEq, Eq, Structural)]
pub struct Goaway {
    /// The id of the last stream that the peer has or might have handled.
    pub last_stream_id: StreamId,
    /// The error code, as it stood on the wire.
    pub raw_error_code: u32,
}

/// The mathematical model of a connection, without its receiver.
pub struct ConnectionView<S: SendFrame> {
    /// The sender of the connection.
    pub sender: S,
    /// The dynamic table of the encoder.
    pub encoder_table: Seq<(Seq<u8>, Seq<u8>)>,
    /// The dynamic table of the decoder.
    pub decoder_table: Seq<(Seq<u8>, Seq<u8>)>,
    /// The size to which the dynamic table of the decoder may grow.
    pub decoder_max_size: nat,
    pub scheme: HttpScheme,
    pub settings: ConnectionSettings,
    pub goaway: Option<Goaway>,
    pub state: ConnectionState,
}

impl<S: SendFrame> ConnectionView<S> {
    /// The header block that the encoder gives for the headers.
    pub open spec fn encoded(self, headers: Seq<(Seq<u8>, Seq<u8>)>) -> Seq<u8> {
        hpack_encoded(self.encoder_table, headers).0
    }

    /// The connection after its encoder has encoded the headers.
    pub open spec fn after_encoding(self, headers: Seq<(Seq<u8>, Seq<u8>)>) -> ConnectionView<S> {
        ConnectionView { encoder_table: hpack_encoded(self.encoder_table, headers).1, ..self }
    }

    /// The headers that the decoder gives for the block, or `None` where it
    /// refuses the block.
    pub open spec fn decoded(self, block: Seq<u8>) -> Option<Seq<(Seq<u8>, Seq<u8>)>> {
        hpack_decoded(self.decoder_table, self.decoder_max_size, block).0
    }

    /// The connection after its decoder has decoded the block.
    pub open spec fn after_decoding(self, block: Seq<u8>) -> ConnectionView<S> {
        ConnectionView {
            decoder_table: hpack_decoded(self.decoder_table, self.decoder_max_size, block).1,
            decoder_max_size: hpack_decoded(self.decoder_table, self.decoder_max_size, block).2,
            ..self
        }
    }

    /// The connection after it was closed.
    pub open spec fn closed(self) -> ConnectionView<S> {
        ConnectionView { state: ConnectionState::Closed, ..self }
    }

    /// Whether `post` is this connection after an attempt to send a frame
    /// that can stand on the wire and that has given `r`: the frame was
    /// handed over to the sender, once; a reliable sender does not fail; on
    /// success the frame is the last of those that the sender has accepted,
    /// and nothing else has changed; a failure of the sender closes the
    /// connection.
    pub open spec fn frame_sent(self, wire: Seq<u8>, r: HttpResult<()>, post: ConnectionView<S>) -> bool {
        &&& S::handed_over(self.sender, wire, r, post.sender)
        &&& post.sender.reliable() == self.sender.reliable()
        &&& self.sender.reliable() ==> r is Ok
        &&& r is Ok ==> post.sender.sent() == self.sender.sent().push(wire)
        &&& if r is Ok {
            post == (ConnectionView { sender: post.sender, ..self })
        } else {
            post == (ConnectionView { sender: post.sender, ..self.closed() })
        }
    }
}

/// The `HEADERS` frame that carries a whole header block.
pub open spec fn spec_headers_frame(
    block: Seq<u8>,
    stream_id: StreamId,
    end_stream: EndStream,
) -> HeadersFrameView {
    HeadersFrameView {
        header_fragment: block,
        stream_id,
        stream_dep: None,
        padding_len: None,
        flags: if end_stream == EndStream::Yes {
            0x5
        } else {
            0x4
        },
    }
}

/// The `DATA` frame that carries a chunk of data.
pub open spec fn spec_data_frame(
    data: Seq<u8>,
    stream_id: StreamId,
    end_stream: EndStream,
) -> DataFrameView {
    DataFrameView {
        data,
        stream_id,
        padding_len: None,
        flags: if end_stream == EndStream::Yes {
            0x1
        } else {
            0x0
        },
    }
}

/// The settings that a side sends first, as they stand on the wire: a
/// `SETTINGS` frame without settings and without ACK.
pub open spec fn spec_settings_wire() -> Seq<u8> {
    (SettingsFrameView { settings: Seq::empty(), flags: 0 }).raw().wire()
}

/// Whether sending the settings of this side may turn the connection `pre`
/// into `post` and give `r`. On a closed connection this is a protocol error
/// and nothing happens. Otherwise one `SETTINGS` frame without settings and
/// without ACK is sent.
pub open spec fn settings_sent<S: SendFrame>(pre: ConnectionView<S>, r: HttpResult<()>, post: ConnectionView<S>) -> bool {
    if pre.state == ConnectionState::Closed {
        (r matches Err(e) && e is ProtocolError) && post == pre
    } else {
        pre.frame_sent(spec_settings_wire(), r, post)
    }
}

/// Whether telling the peer that this side goes away may turn the
/// connection `pre` into `post` and give `r`. On a closed connection and for
/// a stream id that does not fit in 31 bits, this is a protocol error and
/// nothing happens. Otherwise one `GOAWAY` frame without debug data is sent,
/// and the connection is closed.
pub open spec fn goaway_sent<S: SendFrame>(
    pre: ConnectionView<S>,
    last_stream_id: StreamId,
    raw_error_code: u32,
    r: HttpResult<()>,
    post: ConnectionView<S>,
) -> bool {
    if pre.state == ConnectionState::Closed || last_stream_id >= 0x8000_0000 {
        (r matches Err(e) && e is ProtocolError) && post == pre
    } else {
        exists|mid: ConnectionView<S>|
            {
                &&& #[trigger] pre.frame_sent(
                    (GoawayFrameView {
                        last_stream_id,
                        raw_error_code,
                        debug_data: Seq::empty(),
                        flags: 0,
                    }).raw().wire(),
                    r,
                    mid,
                )
                &&& post == mid.closed()
            }
    }
}

/// Whether sending the headers on the given stream may turn the connection
/// `pre` into `post` and give `r`. On a closed connection and for a stream
/// id that is zero or does not fit in 31 bits, this is a protocol error and
/// nothing happens. Otherwise the encoder encodes the headers; a block that
/// does not fit in one frame is a protocol error, and any other is sent as
/// one `HEADERS` frame.
pub open spec fn headers_sent<S: SendFrame>(
    pre: ConnectionView<S>,
    headers: Seq<(Seq<u8>, Seq<u8>)>,
    stream_id: StreamId,
    end_stream: EndStream,
    r: HttpResult<()>,
    post: ConnectionView<S>,
) -> bool {
    if pre.state == ConnectionState::Closed || stream_id == 0 || stream_id >= 0x8000_0000 {
        (r matches Err(e) && e is ProtocolError) && post == pre
    } else if pre.encoded(headers).len() >= 0x100_0000 {
        (r matches Err(e) && e is ProtocolError) && post == pre.after_encoding(headers)
    } else {
        pre.after_encoding(headers).frame_sent(
            spec_headers_frame(pre.encoded(headers), stream_id, end_stream).raw().wire(),
            r,
            post,
        )
    }
}

/// Whether sending the header block on the given stream may turn the
/// connection `pre` into `post` and give `r`. On a closed connection, for a
/// stream id that is zero or does not fit in 31 bits, and for a block that
/// does not fit in one frame, this is a protocol error and nothing happens.
/// Otherwise the block is sent as one `HEADERS` frame.
pub open spec fn header_block_sent<S: SendFrame>(
    pre: ConnectionView<S>,
    block: Seq<u8>,
    stream_id: StreamId,
    end_stream: EndStream,
    r: HttpResult<()>,
    post: ConnectionView<S>,
) -> bool {
    if pre.state == ConnectionState::Closed || stream_id == 0 || stream_id >= 0x8000_0000
        || block.len() >= 0x100_0000 {
        (r matches Err(e) && e is ProtocolError) && post == pre
    } else {
        pre.frame_sent(spec_headers_frame(block, stream_id, end_stream).raw().wire(), r, post)
    }
}

/// Sending headers is encoding them and sending the block that the encoder
/// gives, except that nothing is encoded on a closed connection or for a
/// stream id that is zero or does not fit in 31 bits.
pub proof fn lemma_headers_sent_as_block<S: SendFrame>(
    pre: ConnectionView<S>,
    headers: Seq<(Seq<u8>, Seq<u8>)>,
    stream_id: StreamId,
    end_stream: EndStream,
    r: HttpResult<()>,
    post: ConnectionView<S>,
)
    requires
        pre.state != ConnectionState::Closed,
        0 < stream_id < 0x8000_0000,
    ensures
        headers_sent(pre, headers, stream_id, end_stream, r, post) <==> header_block_sent(
            pre.after_encoding(headers),
            pre.encoded(headers),
            stream_id,
            end_stream,
            r,
            post,
        ),
{
}

/// Whether sending the data on the given stream may turn the connection
/// `pre` into `post` and give `r`. On a closed connection, for a stream id
/// that is zero or does not fit in 31 bits, and for data that does not fit
/// in one frame, this is a protocol error and nothing happens. Otherwise the
/// data is sent as one `DATA` frame.
pub open spec fn data_sent<S: SendFrame>(
    pre: ConnectionView<S>,
    data: Seq<u8>,
    stream_id: StreamId,
    end_stream: EndStream,
    r: HttpResult<()>,
    post: ConnectionView<S>,
) -> bool {
    if pre.state == ConnectionState::Closed || stream_id == 0 || stream_id >= 0x8000_0000
        || data.len() >= 0x100_0000 {
        (r matches Err(e) && e is ProtocolError) && post == pre
    } else {
        pre.frame_sent(spec_data_frame(data, stream_id, end_stream).raw().wire(), r, post)
    }
}

/// What a connection reports to the session for a `DATA` frame: the data,
/// and the end of the stream where the frame is flagged so.
pub open spec fn spec_data_events(frame: DataFrameView) -> Seq<SessionEvent> {
    if frame.is_end_of_stream() {
        seq![
            SessionEvent::DataChunk(frame.stream_id, frame.data),
            SessionEvent::EndOfStream(frame.stream_id),
        ]
    } else {
        seq![SessionEvent::DataChunk(frame.stream_id, frame.data)]
    }
}

/// What a connection reports to the session for a `HEADERS` frame whose
/// block decodes to `headers`: the headers, and the end of the stream where
/// the frame is flagged so.
pub open spec fn spec_headers_events(
    frame: HeadersFrameView,
    headers: Seq<(Seq<u8>, Seq<u8>)>,
) -> Seq<SessionEvent> {
    if frame.is_end_of_stream() {
        seq![
            SessionEvent::Headers(frame.stream_id, headers),
            SessionEvent::EndOfStream(frame.stream_id),
        ]
    } else {
        seq![SessionEvent::Headers(frame.stream_id, headers)]
    }
}

/// The acknowledgement of the settings of the peer, as it stands on the
/// wire.
pub open spec fn spec_settings_ack_wire() -> Seq<u8> {
    (SettingsFrameView { settings: Seq::empty(), flags: 1 }).raw().wire()
}

/// The answer to a ping with the given opaque data, as it stands on the
/// wire.
pub open spec fn spec_ping_ack_wire(opaque_data: u64) -> Seq<u8> {
    (PingFrame { opaque_data, flags: 1 }).spec_raw().wire()
}

/// Whether handling `frame` may turn the connection `pre` into `post` and
/// give `r`, with the session told of the events `told`, in order.
///
/// - `DATA`: the session is told of the data and, where flagged, of the end
///   of the stream.
/// - `HEADERS`: the fragment is taken for a whole header block. A block
///   that holds a reachable table size update with a malformed integer, or
///   that the decoder refuses, is a compression error; otherwise the session
///   is told of the decoded headers and, where flagged, of the end of the
///   stream.
/// - `SETTINGS` without ACK: the settings are applied, the connection is
///   open unless it is closed already, and one acknowledgement is sent.
/// - `PING` without ACK: one ping with ACK and the same opaque data is sent.
/// - `GOAWAY`: it is recorded, and the connection is closed.
/// - All others: nothing happens. Header blocks that go on in
///   `CONTINUATION` frames are not put together: such frames are passed over
///   like frames of other types that have no typed frame.
#[verifier::opaque]
pub open spec fn frame_handled<S: SendFrame>(
    pre: ConnectionView<S>,
    frame: HttpFrameView,
    r: HttpResult<()>,
    post: ConnectionView<S>,
    told: Seq<SessionEvent>,
) -> bool {
    match frame {
        HttpFrameView::DataFrame(f) => {
            &&& r is Ok
            &&& post == pre
            &&& told == spec_data_events(f)
        },
        HttpFrameView::HeadersFrame(f) => {
            if !spec_block_safe(f.header_fragment, 0) {
                &&& r matches Err(e) && e is CompressionError
                &&& post == pre
                &&& told == Seq::<SessionEvent>::empty()
            } else {
                &&& post == pre.after_decoding(f.header_fragment)
                &&& match pre.decoded(f.header_fragment) {
                    Some(headers) => r is Ok && told == spec_headers_events(f, headers),
                    None => (r matches Err(e) && e is CompressionError) && told == Seq::<SessionEvent>::empty(),
                }
            }
        },
        HttpFrameView::SettingsFrame(f) => {
            &&& told == Seq::<SessionEvent>::empty()
            &&& if f.is_ack() {
                r is Ok && post == pre
            } else {
                (ConnectionView {
                    settings: pre.settings.spec_apply(f.settings),
                    state: if pre.state == ConnectionState::Closed {
                        ConnectionState::Closed
                    } else {
                        ConnectionState::Open
                    },
                    ..pre
                }).frame_sent(spec_settings_ack_wire(), r, post)
            }
        },
        HttpFrameView::PingFrame(f) => {
            &&& told == Seq::<SessionEvent>::empty()
            &&& if f.spec_is_ack() {
                r is Ok && post == pre
            } else {
                pre.frame_sent(spec_ping_ack_wire(f.opaque_data), r, post)
            }
        },
        HttpFrameView::GoawayFrame(f) => {
            &&& r is Ok
            &&& told == Seq::<SessionEvent>::empty()
            &&& post == (ConnectionView {
                goaway: Some(
                    Goaway { last_stream_id: f.last_stream_id, raw_error_code: f.raw_error_code },
                ),
                state: ConnectionState::Closed,
                ..pre
            })
        },
        _ => r is Ok && post == pre && told == Seq::<SessionEvent>::empty(),
    }
}

/// Whether handling the raw frame `raw` may turn the connection `pre` into
/// `post` and give `r`: a raw frame that is no valid frame of its type is
/// refused as malformed and nothing happens; any other is handled as the
/// frame that it holds.
pub open spec fn raw_frame_handled<S: SendFrame>(
    pre: ConnectionView<S>,
    raw: RawFrameView,
    r: HttpResult<()>,
    post: ConnectionView<S>,
    told: Seq<SessionEvent>,
) -> bool {
    match spec_frame_from_raw(raw) {
        Some(frame) => frame_handled(pre, frame, r, post, told),
        None => (r matches Err(e) && e is MalformedFrame) && post == pre && told == Seq::<SessionEvent>::empty(),
    }
}

/// Whether `raw` holds a `SETTINGS` frame without ACK.
pub open spec fn is_settings_preface(raw: RawFrameView) -> bool {
    spec_frame_from_raw(raw) matches Some(HttpFrameView::SettingsFrame(f)) && !f.is_ack()
}

/// Whether taking `raw` for the settings of the peer's preface may turn the
/// connection `pre` into `post` and give `r`: a malformed frame is refused
/// as such, a frame other than `SETTINGS` without ACK is a preamble
/// mismatch, and in both cases nothing happens; the settings are handled as
/// ever.
pub open spec fn settings_expected<S: SendFrame>(
    pre: ConnectionView<S>,
    raw: RawFrameView,
    r: HttpResult<()>,
    post: ConnectionView<S>,
    told: Seq<SessionEvent>,
) -> bool {
    match spec_frame_from_raw(raw) {
        Some(frame) => if is_settings_preface(raw) {
            frame_handled(pre, frame, r, post, told)
        } else {
            (r matches Err(e) && e is PreambleMismatch) && post == pre && told == Seq::<SessionEvent>::empty()
        },
        None => (r matches Err(e) && e is MalformedFrame) && post == pre && told == Seq::<SessionEvent>::empty(),
    }
}

/// A `SETTINGS` frame without ACK is answered by exactly one
/// acknowledgement. Where the sender is reliable, or has not failed, the
/// frame is handled without error, the session is told nothing, and the
/// frames sent are those sent before and one more: a `SETTINGS` frame with
/// ACK and without settings.
pub proof fn lemma_settings_acknowledged<S: SendFrame>(
    pre: ConnectionView<S>,
    frame: SettingsFrameView,
    r: HttpResult<()>,
    post: ConnectionView<S>,
    told: Seq<SessionEvent>,
)
    requires
        frame_handled(pre, HttpFrameView::SettingsFrame(frame), r, post, told),
        !frame.is_ack(),
        pre.sender.reliable() || r is Ok,
    ensures
        r is Ok,
        told == Seq::<SessionEvent>::empty(),
        S::handed_over(pre.sender, spec_settings_ack_wire(), r, post.sender),
        post.sender.sent() == pre.sender.sent().push(spec_settings_ack_wire()),
        spec_parse_frame(spec_settings_ack_wire()) == Some(
            HttpFrameView::SettingsFrame(SettingsFrameView { settings: Seq::empty(), flags: 1 }),
        ),
        (SettingsFrameView { settings: Seq::empty(), flags: 1 }).is_ack(),
{
    reveal(frame_handled);
    let ack = SettingsFrameView { settings: Seq::empty(), flags: 1 };
    assert(flag_set(1u8, 0x1u8)) by (bit_vector);
    lemma_frame_round_trip(HttpFrameView::SettingsFrame(ack));
}

/// A `PING` frame without ACK is answered by exactly one `PING` frame with
/// ACK and the same opaque data. Where the sender is reliable, or has not
/// failed, the frame is handled without error, the session is told nothing,
/// and the frames sent are those sent before and that one.
pub proof fn lemma_ping_answered<S: SendFrame>(
    pre: ConnectionView<S>,
    frame: PingFrame,
    r: HttpResult<()>,
    post: ConnectionView<S>,
    told: Seq<SessionEvent>,
)
    requires
        frame_handled(pre, HttpFrameView::PingFrame(frame), r, post, told),
        !frame.spec_is_ack(),
        pre.sender.reliable() || r is Ok,
    ensures
        r is Ok,
        told == Seq::<SessionEvent>::empty(),
        S::handed_over(pre.sender, spec_ping_ack_wire(frame.opaque_data), r, post.sender),
        post.sender.sent() == pre.sender.sent().push(spec_ping_ack_wire(frame.opaque_data)),
        spec_parse_frame(spec_ping_ack_wire(frame.opaque_data)) == Some(
            HttpFrameView::PingFrame(PingFrame { opaque_data: frame.opaque_data, flags: 1 }),
        ),
        (PingFrame { opaque_data: frame.opaque_data, flags: 1 }).spec_is_ack(),
{
    reveal(frame_handled);
    assert(0x1u8 & 1u8 != 0) by (bit_vector);
    lemma_frame_round_trip(
        HttpFrameView::PingFrame(PingFrame { opaque_data: frame.opaque_data, flags: 1 }),
    );
}

/// The settings of the peer's preface are accepted only from a `SETTINGS`
/// frame without ACK, and with a reliable sender from every such frame. Any
/// other frame is refused, as a preamble mismatch where it is a frame at
/// all and as malformed where it is not, and nothing happens.
pub proof fn lemma_preface_accepted<S: SendFrame>(
    pre: ConnectionView<S>,
    raw: RawFrameView,
    r: HttpResult<()>,
    post: ConnectionView<S>,
    told: Seq<SessionEvent>,
)
    requires
        settings_expected(pre, raw, r, post, told),
    ensures
        r is Ok ==> is_settings_preface(raw),
        pre.sender.reliable() && is_settings_preface(raw) ==> r is Ok,
        !is_settings_preface(raw) ==> post == pre && told == Seq::<SessionEvent>::empty(),
        !is_settings_preface(raw) ==> (r matches Err(e) && (if spec_frame_from_raw(raw) is Some {
            e is PreambleMismatch
        } else {
            e is MalformedFrame
        })),
{
    reveal(frame_handled);
}

/// A connection takes the settings of the peer's preface only from a
/// `SETTINGS` frame without ACK that it has received; and with a reliable
/// sender it fails to do so only where the receiver has failed or has given
/// another frame.
pub proof fn lemma_settings_expected_of_received<S: SendFrame, R: ReceiveFrame>(
    pre: HttpConnection<S, R>,
    r: HttpResult<()>,
    post: HttpConnection<S, R>,
    told: Seq<SessionEvent>,
)
    requires
        next_settings_expected(pre, r, post, told),
    ensures
        r is Ok ==> exists|raw: RawFrameView|
            {
                &&& #[trigger] R::received(
                    pre.receiver,
                    Ok::<RawFrameView, HttpError>(raw),
                    post.receiver,
                )
                &&& is_settings_preface(raw)
            },
        r is Err && pre@.sender.reliable() ==> exists|received: HttpResult<RawFrameView>|
            {
                &&& #[trigger] R::received(pre.receiver, received, post.receiver)
                &&& (received matches Ok(raw) ==> !is_settings_preface(raw))
            },
{
    let received = choose|received: HttpResult<RawFrameView>|
        {
            &&& #[trigger] R::received(pre.receiver, received, post.receiver)
            &&& match received {
                Ok(raw) => settings_expected(pre@, raw, r, post@, told),
                Err(e) => r == Err::<(), HttpError>(e) && post@ == pre@.closed() && told == Seq::<
                    SessionEvent,
                >::empty(),
            }
        };
    match received {
        Ok(raw) => {
            lemma_preface_accepted(pre@, raw, r, post@, told);
        },
        Err(_) => {},
    }
}

/// Where the receiver fails, or gives a raw frame that is no valid frame of
/// its type, handling the next frame fails, nothing is handed to the
/// sender, and the session is told nothing.
pub proof fn lemma_failed_receive_sends_nothing<S: SendFrame, R: ReceiveFrame>(
    pre: HttpConnection<S, R>,
    r: HttpResult<()>,
    post: HttpConnection<S, R>,
    told: Seq<SessionEvent>,
)
    requires
        next_frame_handled(pre, r, post, told),
        forall|received: HttpResult<RawFrameView>| #[trigger]
            R::received(pre.receiver, received, post.receiver) ==> (received matches Ok(raw)
                ==> spec_frame_from_raw(raw) is None),
    ensures
        r is Err,
        post.sender == pre.sender,
        told == Seq::<SessionEvent>::empty(),
{
}

/// One event turns a session into what its step gives.
pub proof fn lemma_run_one<Sess: Session>(pre: Sess, event: SessionEvent, post: Sess)
    requires
        Sess::step(pre, event, post),
    ensures
        session_run(pre, seq![event], post),
{
    let events = seq![event];
    assert(events.drop_last() =~= Seq::<SessionEvent>::empty());
    assert(session_run(pre, events.drop_last(), pre));
    assert(events.last() == event);
    assert(Sess::step(pre, events.last(), post));
}

/// Two events, one after the other, turn a session into what the two steps
/// give.
pub proof fn lemma_run_two<Sess: Session>(
    pre: Sess,
    first: SessionEvent,
    mid: Sess,
    second: SessionEvent,
    post: Sess,
)
    requires
        Sess::step(pre, first, mid),
        Sess::step(mid, second, post),
    ensures
        session_run(pre, seq![first, second], post),
{
    let events = seq![first, second];
    lemma_run_one(pre, first, mid);
    assert(events.drop_last() =~= seq![first]);
    assert(events.last() == second);
    assert(Sess::step(mid, events.last(), post));
}

/// The deep model of what a decoder has made of a header block.
pub open spec fn spec_deep_option(decoded: Option<Vec<Header>>) -> Option<Seq<(Seq<u8>, Seq<u8>)>> {
    match decoded {
        Some(headers) => Some(headers.deep_view()),
        None => None,
    }
}

/// What a session is told for a `HEADERS` frame, given what the decoder has
/// made of its block: of the headers and, where the frame is flagged so, of
/// the end of the stream; of nothing where the decoder has refused the
/// block.
pub open spec fn spec_headers_report(
    frame: HeadersFrameView,
    decoded: Option<Seq<(Seq<u8>, Seq<u8>)>>,
) -> Seq<SessionEvent> {
    match decoded {
        Some(headers) => spec_headers_events(frame, headers),
        None => Seq::empty(),
    }
}

/// Reports to the session what a `HEADERS` frame has brought, given what
/// the decoder has made of its block. For a block that the decoder has
/// refused, this is a compression error and the session is told nothing.
pub fn report_headers<Sess: Session>(
    frame: &HeadersFrame,
    decoded: Option<Vec<Header>>,
    session: &mut Sess,
) -> (r: HttpResult<()>)
    ensures
        match decoded {
            Some(_) => r is Ok,
            None => r matches Err(e) && e is CompressionError,
        },
        session_run(
            *old(session),
            spec_headers_report(frame@, spec_deep_option(decoded)),
            *final(session),
        ),
        decoded is None ==> *final(session) == *old(session),
{
    match decoded {
        Some(headers) => {
            let ghost h = headers.deep_view();
            session.new_headers(frame.stream_id, headers);
            let ghost mid = *session;
            if frame.is_end_of_stream() {
                session.end_of_stream(frame.stream_id);
                proof {
                    lemma_run_two(
                        *old(session),
                        SessionEvent::Headers(frame.stream_id, h),
                        mid,
                        SessionEvent::EndOfStream(frame.stream_id),
                        *session,
                    );
                }
            } else {
                proof {
                    lemma_run_one(*old(session), SessionEvent::Headers(frame.stream_id, h), mid);
                }
            }
            Ok(())
        },
        None => Err(HttpError::CompressionError),
    }
}

/// An HTTP/2 connection: a sender and a receiver of frames, the two
/// compression contexts, and what the peer has set and said.
pub struct HttpConnection<S: SendFrame, R: ReceiveFrame> {
    /// Where the frames of the peer come in.
    pub receiver: R,
    /// Where frames go out.
    pub sender: S,
    /// The decoder of the header blocks of the peer.
    pub decoder: hpack::Decoder<'static>,
    /// The encoder of the header blocks that are sent.
    pub encoder: hpack::Encoder<'static>,
    /// The scheme of the connection.
    pub scheme: HttpScheme,
    /// The settings of the peer.
    pub settings: ConnectionSettings,
    /// What the peer has said in a `GOAWAY` frame, if it has sent one.
    pub goaway: Option<Goaway>,
    /// The state of the connection.
    pub state: ConnectionState,
}

impl<S: SendFrame, R: ReceiveFrame> View for HttpConnection<S, R> {
    type V = ConnectionView<S>;

    open spec fn view(&self) -> ConnectionView<S> {
        ConnectionView {
            sender: self.sender,
            encoder_table: encoder_table(self.encoder),
            decoder_table: decoder_table(self.decoder),
            decoder_max_size: decoder_max_size(self.decoder),
            scheme: self.scheme,
            settings: self.settings,
            goaway: self.goaway,
            state: self.state,
        }
    }
}

impl<S: SendFrame, R: ReceiveFrame> HttpConnection<S, R> {
    /// Creates a new connection that sends through `sender` and reads from
    /// `receiver`, with fresh compression contexts and default settings.
    pub fn new(sender: S, receiver: R, scheme: HttpScheme) -> (r: HttpConnection<S, R>)
        ensures
            r.sender == sender,
            r.receiver == receiver,
            r@ == (ConnectionView {
                sender,
                encoder_table: Seq::empty(),
                decoder_table: Seq::empty(),
                decoder_max_size: 4096,
                scheme,
                settings: ConnectionSettings::spec_default(),
                goaway: None,
                state: ConnectionState::PrefacePending,
            }),
    {
        HttpConnection {
            receiver,
            sender,
            decoder: new_decoder(),
            encoder: new_encoder(),
            scheme,
            settings: ConnectionSettings::default(),
            goaway: None,
            state: ConnectionState::PrefacePending,
        }
    }

    /// Creates a new connection with the given scheme.
    pub fn with_connection(sender: S, receiver: R, scheme: HttpScheme) -> (r: HttpConnection<S, R>)
        ensures
            r.sender == sender,
            r.receiver == receiver,
            r@ == (ConnectionView {
                sender,
                encoder_table: Seq::empty(),
                decoder_table: Seq::empty(),
                decoder_max_size: 4096,
                scheme,
                settings: ConnectionSettings::spec_default(),
                goaway: None,
                state: ConnectionState::PrefacePending,
            }),
    {
        HttpConnection::new(sender, receiver, scheme)
    }

    /// Returns whether the connection is closed.
    pub fn is_closed(&self) -> (r: bool)
        ensures
            r == (self.state == ConnectionState::Closed),
    {
        match self.state {
            ConnectionState::Closed => true,
            _ => false,
        }
    }

    /// Closes the connection. Nothing can be sent on it afterwards.
    pub fn close(&mut self)
        ensures
            final(self).receiver == old(self).receiver,
            final(self)@ == old(self)@.closed(),
    {
        self.state = ConnectionState::Closed;
    }

    /// Hands a frame that can stand on the wire to the sender. A failure of
    /// the sender closes the connection.
    fn send<F: FrameIR>(&mut self, frame: F) -> (r: HttpResult<()>)
        requires
            frame.serializable(),
        ensures
            final(self).receiver == old(self).receiver,
            old(self)@.frame_sent(frame.wire(), r, final(self)@),
    {
        let r = self.sender.send_frame(frame);
        if r.is_err() {
            self.state = ConnectionState::Closed;
        }
        r
    }

    /// Sends the settings of this side: a `SETTINGS` frame without settings
    /// and without ACK. On a closed connection this is a protocol error and
    /// nothing is sent.
    pub fn send_settings(&mut self) -> (r: HttpResult<()>)
        ensures
            final(self).receiver == old(self).receiver,
            settings_sent(old(self)@, r, final(self)@),
    {
        if self.is_closed() {
            return Err(HttpError::ProtocolError);
        }
        assert(!flag_set(0u8, 0x1u8)) by (bit_vector);
        self.send(SettingsFrame::new())
    }

    /// Tells the peer that this side goes away, with the id of the last
    /// stream of the peer that it has or might have handled and an error
    /// code, and closes the connection.
    ///
    /// On a closed connection and for a stream id that does not fit in 31
    /// bits, this is a protocol error and nothing is sent.
    pub fn send_goaway(&mut self, last_stream_id: StreamId, raw_error_code: u32) -> (r: HttpResult<
        (),
    >)
        ensures
            final(self).receiver == old(self).receiver,
            goaway_sent(old(self)@, last_stream_id, raw_error_code, r, final(self)@),
    {
        if self.is_closed() || last_stream_id >= 0x8000_0000 {
            return Err(HttpError::ProtocolError);
        }
        let r = self.send(GoawayFrame::new(last_stream_id, raw_error_code));
        self.state = ConnectionState::Closed;
        r
    }

    /// Sends the headers on the given stream, as one `HEADERS` frame with
    /// `END_HEADERS` set, and `END_STREAM` set where `end_stream` says so.
    ///
    /// On a closed connection, for a stream id that is zero or does not fit
    /// in 31 bits, and for headers whose block does not fit in one frame,
    /// this is a protocol error and no frame is sent. In the last case the
    /// encoder has encoded the headers all the same.
    pub fn send_headers(&mut self, headers: Vec<Header>, stream_id: StreamId, end_stream: EndStream) -> (r:
        HttpResult<()>)
        ensures
            final(self).receiver == old(self).receiver,
            headers_sent(old(self)@, headers.deep_view(), stream_id, end_stream, r, final(self)@),
    {
        if self.is_closed() || stream_id == 0 || stream_id >= 0x8000_0000 {
            return Err(HttpError::ProtocolError);
        }
        let fragment: Vec<u8> = encode_headers(&mut self.encoder, &headers);
        self.send_header_block(fragment, stream_id, end_stream)
    }

    /// Sends a header block that an encoder has made, on the given stream,
    /// as one `HEADERS` frame with `END_HEADERS` set, and `END_STREAM` set
    /// where `end_stream` says so.
    ///
    /// On a closed connection, for a stream id that is zero or does not fit
    /// in 31 bits, and for a block that does not fit in one frame, this is a
    /// protocol error and no frame is sent.
    pub fn send_header_block(&mut self, fragment: Vec<u8>, stream_id: StreamId, end_stream: EndStream) -> (r:
        HttpResult<()>)
        ensures
            final(self).receiver == old(self).receiver,
            header_block_sent(old(self)@, fragment@, stream_id, end_stream, r, final(self)@),
    {
        if self.is_closed() || stream_id == 0 || stream_id >= 0x8000_0000 || fragment.len()
            >= 0x100_0000 {
            return Err(HttpError::ProtocolError);
        }
        let flags: u8 = match end_stream {
            EndStream::Yes => 0x5,
            EndStream::No => 0x4,
        };
        let frame = HeadersFrame {
            header_fragment: fragment,
            stream_id,
            stream_dep: None,
            padding_len: None,
            flags,
        };
        proof {
            assert(!flag_set(0x5u8, 0x8u8) && !flag_set(0x5u8, 0x20u8) && !flag_set(0x4u8, 0x8u8)
                && !flag_set(0x4u8, 0x20u8)) by (bit_vector);
            assert(frame@ == spec_headers_frame(fragment@, stream_id, end_stream));
            assert(frame@.wf());
        }
        self.send(frame)
    }

    /// Sends the data on the given stream, as one `DATA` frame, with
    /// `END_STREAM` set where `end_stream` says so.
    ///
    /// On a closed connection, for a stream id that is zero or does not fit
    /// in 31 bits, and for data that does not fit in one frame, this is a
    /// protocol error and no frame is sent.
    pub fn send_data(&mut self, data: Vec<u8>, stream_id: StreamId, end_stream: EndStream) -> (r:
        HttpResult<()>)
        ensures
            final(self).receiver == old(self).receiver,
            data_sent(old(self)@, data@, stream_id, end_stream, r, final(self)@),
    {
        if self.is_closed() || stream_id == 0 || stream_id >= 0x8000_0000 || data.len()
            >= 0x100_0000 {
            return Err(HttpError::ProtocolError);
        }
        let flags: u8 = match end_stream {
            EndStream::Yes => 0x1,
            EndStream::No => 0x0,
        };
        let frame = DataFrame { data, flags, stream_id, padding_len: None };
        proof {
            assert(!flag_set(0x1u8, 0x8u8) && !flag_set(0x0u8, 0x8u8)) by (bit_vector);
            assert(frame@ == spec_data_frame(data@, stream_id, end_stream));
            assert(frame@.wf());
        }
        self.send(frame)
    }

    /// Sends the chunk that a prioritizer has chosen, if it has chosen one.
    pub fn send_chunk(&mut self, chunk: Option<DataChunk>) -> (r: HttpResult<SendStatus>)
        ensures
            final(self).receiver == old(self).receiver,
            chunk_sent(old(self)@, spec_chunk_option(chunk), r, final(self)@),
    {
        match chunk {
            None => Ok(SendStatus::Nothing),
            Some(chunk) => {
                match self.send_data(chunk.data, chunk.stream_id, chunk.end_stream) {
                    Ok(done) => {
                        assert(done == ());
                        Ok(SendStatus::Sent)
                    },
                    Err(e) => Err(e),
                }
            },
        }
    }

    /// Asks the prioritizer for the next chunk of data and sends it as one
    /// `DATA` frame. Returns `Nothing` where the prioritizer has no chunk.
    pub fn send_next_data<P: DataPrioritizer>(&mut self, prioritizer: &mut P) -> (r: HttpResult<
        SendStatus,
    >)
        ensures
            final(self).receiver == old(self).receiver,
            exists|chosen: HttpResult<Option<DataChunkView>>|
                {
                    &&& #[trigger] P::chose(*old(prioritizer), chosen, *final(prioritizer))
                    &&& choice_sent(old(self)@, chosen, r, final(self)@)
                },
    {
        let chosen = prioritizer.get_next_chunk();
        let ghost witness = spec_chunk_result(chosen);
        match chosen {
            Ok(chunk) => {
                let r = self.send_chunk(chunk);
                assert(P::chose(*old(prioritizer), witness, *prioritizer));
                r
            },
            Err(e) => {
                assert(P::chose(*old(prioritizer), witness, *prioritizer));
                Err(e)
            },
        }
    }

    /// Handles one frame of the peer and tells the session of what the
    /// frame brings: see `frame_handled`.
    pub fn handle_frame<Sess: Session>(&mut self, frame: HttpFrame, session: &mut Sess) -> (r:
        HttpResult<()>)
        ensures
            final(self).receiver == old(self).receiver,
            exists|told: Seq<SessionEvent>|
                {
                    &&& #[trigger] frame_handled(old(self)@, frame@, r, final(self)@, told)
                    &&& session_run(*old(session), told, *final(session))
                },
    {
        let ghost none = Seq::<SessionEvent>::empty();
        proof {
            reveal(frame_handled);
        }
        match frame {
            HttpFrame::DataFrame(f) => {
                let end: bool = f.is_end_of_stream();
                session.new_data_chunk(f.stream_id, f.data.as_slice());
                let ghost mid = *session;
                if end {
                    session.end_of_stream(f.stream_id);
                    proof {
                        lemma_run_two(
                            *old(session),
                            SessionEvent::DataChunk(f.stream_id, f.data@),
                            mid,
                            SessionEvent::EndOfStream(f.stream_id),
                            *session,
                        );
                    }
                } else {
                    proof {
                        lemma_run_one(
                            *old(session),
                            SessionEvent::DataChunk(f.stream_id, f.data@),
                            mid,
                        );
                    }
                }
                let r: HttpResult<()> = Ok(());
                assert(frame_handled(old(self)@, frame@, r, self@, spec_data_events(f@)));
                r
            },
            HttpFrame::HeadersFrame(f) => {
                if !block_is_safe(f.header_fragment.as_slice()) {
                    let r: HttpResult<()> = Err(HttpError::CompressionError);
                    assert(frame_handled(old(self)@, frame@, r, self@, none));
                    return r;
                }
                let decoded: Option<Vec<Header>> = match decode_block(
                    &mut self.decoder,
                    f.header_fragment.as_slice(),
                ) {
                    Ok(headers) => Some(headers),
                    Err(_) => None,
                };
                let r = report_headers(&f, decoded, session);
                assert(frame_handled(
                    old(self)@,
                    frame@,
                    r,
                    self@,
                    spec_headers_report(f@, spec_deep_option(decoded)),
                ));
                r
            },
            HttpFrame::SettingsFrame(f) => {
                let r: HttpResult<()> = if f.is_ack() {
                    Ok(())
                } else {
                    self.settings.apply(&f.settings);
                    if !self.is_closed() {
                        self.state = ConnectionState::Open;
                    }
                    self.send(SettingsFrame::new_ack())
                };
                assert(frame_handled(old(self)@, frame@, r, self@, none));
                r
            },
            HttpFrame::PingFrame(f) => {
                let r: HttpResult<()> = if f.is_ack() {
                    Ok(())
                } else {
                    self.send(PingFrame::new_ack(f.opaque_data()))
                };
                assert(frame_handled(old(self)@, frame@, r, self@, none));
                r
            },
            HttpFrame::GoawayFrame(f) => {
                self.goaway = Some(
                    Goaway { last_stream_id: f.last_stream_id, raw_error_code: f.raw_error_code },
                );
                self.state = ConnectionState::Closed;
                let r: HttpResult<()> = Ok(());
                assert(frame_handled(old(self)@, frame@, r, self@, none));
                r
            },
            _ => {
                let r: HttpResult<()> = Ok(());
                assert(frame_handled(old(self)@, frame@, r, self@, none));
                r
            },
        }
    }

    /// Parses a raw frame of the peer and handles it: see
    /// `raw_frame_handled`.
    pub fn handle_raw_frame<Sess: Session>(&mut self, raw: RawFrame, session: &mut Sess) -> (r:
        HttpResult<()>)
        ensures
            final(self).receiver == old(self).receiver,
            exists|told: Seq<SessionEvent>|
                {
                    &&& #[trigger] raw_frame_handled(old(self)@, raw@, r, final(self)@, told)
                    &&& session_run(*old(session), told, *final(session))
                },
    {
        match HttpFrame::from_raw(raw) {
            Ok(frame) => {
                let r = self.handle_frame(frame, session);
                proof {
                    let told = choose|told: Seq<SessionEvent>|
                        {
                            &&& #[trigger] frame_handled(old(self)@, frame@, r, self@, told)
                            &&& session_run(*old(session), told, *session)
                        };
                    assert(raw_frame_handled(old(self)@, raw@, r, self@, told));
                }
                r
            },
            Err(e) => {
                let r: HttpResult<()> = Err(e);
                assert(raw_frame_handled(
                    old(self)@,
                    raw@,
                    r,
                    self@,
                    Seq::<SessionEvent>::empty(),
                ));
                r
            },
        }
    }

    /// Takes a raw frame for the settings of the peer's preface: see
    /// `settings_expected`.
    pub fn expect_settings_frame<Sess: Session>(&mut self, raw: RawFrame, session: &mut Sess) -> (r:
        HttpResult<()>)
        ensures
            final(self).receiver == old(self).receiver,
            exists|told: Seq<SessionEvent>|
                {
                    &&& #[trigger] settings_expected(old(self)@, raw@, r, final(self)@, told)
                    &&& session_run(*old(session), told, *final(session))
                },
    {
        let ghost none = Seq::<SessionEvent>::empty();
        match HttpFrame::from_raw(raw) {
            Ok(frame) => {
                let is_preface: bool = match &frame {
                    HttpFrame::SettingsFrame(f) => !f.is_ack(),
                    _ => false,
                };
                if is_preface {
                    let r = self.handle_frame(frame, session);
                    proof {
                        let told = choose|told: Seq<SessionEvent>|
                            {
                                &&& #[trigger] frame_handled(old(self)@, frame@, r, self@, told)
                                &&& session_run(*old(session), told, *session)
                            };
                        assert(settings_expected(old(self)@, raw@, r, self@, told));
                    }
                    r
                } else {
                    let r: HttpResult<()> = Err(HttpError::PreambleMismatch);
                    assert(settings_expected(old(self)@, raw@, r, self@, none));
                    r
                }
            },
            Err(e) => {
                let r: HttpResult<()> = Err(e);
                assert(settings_expected(old(self)@, raw@, r, self@, none));
                r
            },
        }
    }

    /// Reads the next frame of the peer and handles it. An error of the
    /// receiver is handed on as it is.
    pub fn handle_next_frame<Sess: Session>(&mut self, session: &mut Sess) -> (r: HttpResult<()>)
        ensures
            exists|told: Seq<SessionEvent>|
                {
                    &&& #[trigger] next_frame_handled(*old(self), r, *final(self), told)
                    &&& session_run(*old(session), told, *final(session))
                },
    {
        let received = self.receiver.recv_frame();
        let ghost witness = spec_raw_result(received);
        let ghost mid = *self;
        assert(R::received(old(self).receiver, witness, self.receiver));
        match received {
            Ok(raw) => {
                let r = self.handle_raw_frame(raw, session);
                proof {
                    let told = choose|told: Seq<SessionEvent>|
                        {
                            &&& #[trigger] raw_frame_handled(mid@, raw@, r, self@, told)
                            &&& session_run(*old(session), told, *session)
                        };
                    assert(next_frame_handled(*old(self), r, *self, told));
                }
                r
            },
            Err(e) => {
                self.state = ConnectionState::Closed;
                let r: HttpResult<()> = Err(e);
                assert(R::received(old(self).receiver, witness, self.receiver));
                assert(next_frame_handled(*old(self), r, *self, Seq::<SessionEvent>::empty()));
                r
            },
        }
    }

    /// Reads the next frame of the peer and takes it for the settings of
    /// the peer's preface. An error of the receiver is handed on as it is.
    pub fn expect_settings<Sess: Session>(&mut self, session: &mut Sess) -> (r: HttpResult<()>)
        ensures
            exists|told: Seq<SessionEvent>|
                {
                    &&& #[trigger] next_settings_expected(*old(self), r, *final(self), told)
                    &&& session_run(*old(session), told, *final(session))
                },
    {
        let received = self.receiver.recv_frame();
        let ghost witness = spec_raw_result(received);
        let ghost mid = *self;
        assert(R::received(old(self).receiver, witness, self.receiver));
        match received {
            Ok(raw) => {
                let r = self.expect_settings_frame(raw, session);
                proof {
                    let told = choose|told: Seq<SessionEvent>|
                        {
                            &&& #[trigger] settings_expected(mid@, raw@, r, self@, told)
                            &&& session_run(*old(session), told, *session)
                        };
                    assert(next_settings_expected(*old(self), r, *self, told));
                }
                r
            },
            Err(e) => {
                self.state = ConnectionState::Closed;
                let r: HttpResult<()> = Err(e);
                assert(R::received(old(self).receiver, witness, self.receiver));
                assert(next_settings_expected(*old(self), r, *self, Seq::<SessionEvent>::empty()));
                r
            },
        }
    }
}

/// The model of a chunk that may be there.
pub open spec fn spec_chunk_option(chunk: Option<DataChunk>) -> Option<DataChunkView> {
    match chunk {
        Some(chunk) => Some(chunk@),
        None => None,
    }
}

/// Whether sending what a prioritizer has chosen may turn the connection
/// `pre` into `post` and give `r`: without a chunk nothing is sent; a chunk
/// is sent as `send_data` sends it.
pub open spec fn chunk_sent<S: SendFrame>(
    pre: ConnectionView<S>,
    chunk: Option<DataChunkView>,
    r: HttpResult<SendStatus>,
    post: ConnectionView<S>,
) -> bool {
    match chunk {
        None => r == Ok::<SendStatus, HttpError>(SendStatus::Nothing) && post == pre,
        Some(chunk) => {
            &&& r is Ok ==> r == Ok::<SendStatus, HttpError>(SendStatus::Sent)
            &&& data_sent(
                pre,
                chunk.data,
                chunk.stream_id,
                chunk.end_stream,
                spec_unit_result(r),
                post,
            )
        },
    }
}

/// Whether sending what a prioritizer has given may turn the connection
/// `pre` into `post` and give `r`: an error of the prioritizer is handed on
/// and nothing is sent; a choice is sent as `send_chunk` sends it.
pub open spec fn choice_sent<S: SendFrame>(
    pre: ConnectionView<S>,
    chosen: HttpResult<Option<DataChunkView>>,
    r: HttpResult<SendStatus>,
    post: ConnectionView<S>,
) -> bool {
    match chosen {
        Ok(chunk) => chunk_sent(pre, chunk, r, post),
        Err(e) => r == Err::<SendStatus, HttpError>(e) && post == pre,
    }
}

/// The result without its value.
pub open spec fn spec_unit_result(r: HttpResult<SendStatus>) -> HttpResult<()> {
    match r {
        Ok(_) => Ok(()),
        Err(e) => Err(e),
    }
}

/// Whether reading and handling the next frame may turn the connection
/// `pre` into `post` and give `r`: the receiver gives an error, which closes
/// the connection and is handed on, or a raw frame, which is handled.
pub open spec fn next_frame_handled<S: SendFrame, R: ReceiveFrame>(
    pre: HttpConnection<S, R>,
    r: HttpResult<()>,
    post: HttpConnection<S, R>,
    told: Seq<SessionEvent>,
) -> bool {
    exists|received: HttpResult<RawFrameView>|
        {
            &&& #[trigger] R::received(pre.receiver, received, post.receiver)
            &&& match received {
                Ok(raw) => raw_frame_handled(pre@, raw, r, post@, told),
                Err(e) => r == Err::<(), HttpError>(e) && post@ == pre@.closed() && told == Seq::<
                    SessionEvent,
                >::empty(),
            }
        }
}

/// Whether reading the next frame and taking it for the settings of the
/// peer's preface may turn the connection `pre` into `post` and give `r`.
pub open spec fn next_settings_expected<S: SendFrame, R: ReceiveFrame>(
    pre: HttpConnection<S, R>,
    r: HttpResult<()>,
    post: HttpConnection<S, R>,
    told: Seq<SessionEvent>,
) -> bool {
    exists|received: HttpResult<RawFrameView>|
        {
            &&& #[trigger] R::received(pre.receiver, received, post.receiver)
            &&& match received {
                Ok(raw) => settings_expected(pre@, raw, r, post@, told),
                Err(e) => r == Err::<(), HttpError>(e) && post@ == pre@.closed() && told == Seq::<
                    SessionEvent,
                >::empty(),
            }
        }
}

} // verus!
