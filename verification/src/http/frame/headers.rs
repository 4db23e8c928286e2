//! Implements the `HEADERS` HTTP/2 frame.

use vstd::prelude::*;
use vstd::slice::{slice_subrange, slice_to_vec};
use crate::http::{HttpError, HttpResult, StreamId};
use crate::http::frame::{Flag, Frame, FrameBuilder, FrameHeader, FrameIR, RawFrame, RawFrameView, flag_set, lemma_padded_round_trip, lemma_raw_frame_round_trip, parse_padded_payload, spec_parse_padded, spec_raw_from_buf, spec_zeros, lemma_piece_written, spec_pack_header};
use crate::http::frame::octets::{
    lemma_u32_round_trip, spec_u32_at, spec_u32_octets, u32_octets, unpack_u32,
};

verus! {

/// The frame type of the `HEADERS` frame.
pub const HEADERS_FRAME_TYPE: u8 = 0x1;

/// The flags of the `HEADERS` frame.
#[derive(Clone, Copy, Debug, PartialEq, Eq, Structural)]
pub enum HeadersFlag {
    EndStream,
    EndHeaders,
    Padded,
    Priority,
}

impl Flag for HeadersFlag {
    open spec fn spec_bitmask(&self) -> u8 {
        match self {
            HeadersFlag::EndStream => 0x1,
            HeadersFlag::EndHeaders => 0x4,
            HeadersFlag::Padded => 0x8,
            HeadersFlag::Priority => 0x20,
        }
    }

    fn bitmask(&self) -> (r: u8) {
        match self {
            HeadersFlag::EndStream => 0x1,
            HeadersFlag::EndHeaders => 0x4,
            HeadersFlag::Padded => 0x8,
            HeadersFlag::Priority => 0x20,
        }
    }
}

/// The dependency of a stream on another: the priority block of a `HEADERS`
/// frame.
#[derive(Clone, Copy, Debug, PartialEq, Eq, Structural)]
pub struct StreamDependency {
    /// The id of the stream that is depended on.
    pub stream_id: StreamId,
    /// The weight of the dependency.
    pub weight: u8,
    /// Whether the dependency is exclusive.
    pub is_exclusive: bool,
}

impl StreamDependency {
    /// The dependency that the five bytes at the start of `buf` hold: the
    /// exclusive bit and 31 bits of stream id, and one byte of weight.
    pub open spec fn spec_parse(buf: Seq<u8>) -> StreamDependency {
        StreamDependency {
            stream_id: spec_u32_at(buf, 0) % 0x8000_0000,
            weight: buf[4],
            is_exclusive: spec_u32_at(buf, 0) >= 0x8000_0000,
        }
    }

    /// The five bytes of the dependency on the wire.
    pub open spec fn spec_octets(self) -> Seq<u8> {
        spec_u32_octets(
            if self.is_exclusive {
                (self.stream_id % 0x8000_0000 + 0x8000_0000) as u32
            } else {
                self.stream_id % 0x8000_0000
            },
        ) + seq![self.weight]
    }

    /// Creates a new dependency.
    pub fn new(stream_id: StreamId, weight: u8, is_exclusive: bool) -> (r: StreamDependency)
        ensures
            r == (StreamDependency { stream_id, weight, is_exclusive }),
    {
        StreamDependency { stream_id, weight, is_exclusive }
    }

    /// Parses the dependency at the start of the given buffer.
    pub fn parse(buf: &[u8]) -> (r: StreamDependency)
        requires
            buf@.len() >= 5,
        ensures
            r == StreamDependency::spec_parse(buf@),
    {
        let first: u32 = unpack_u32(buf, 0);
        StreamDependency {
            stream_id: first % 0x8000_0000,
            weight: buf[4],
            is_exclusive: first >= 0x8000_0000,
        }
    }

    /// Returns the five bytes of the dependency on the wire.
    pub fn serialize(&self) -> (r: [u8; 5])
        ensures
            r@ == self.spec_octets(),
    {
        let id: u32 = self.stream_id % 0x8000_0000;
        let first: u32 = if self.is_exclusive {
            id + 0x8000_0000
        } else {
            id
        };
        let head: [u8; 4] = u32_octets(first);
        let r: [u8; 5] = [head[0], head[1], head[2], head[3], self.weight];
        assert(r@ =~= self.spec_octets());
        r
    }
}

/// A dependency whose stream id fits in 31 bits is read back as it was
/// written.
pub proof fn lemma_dependency_round_trip(dep: StreamDependency, rest: Seq<u8>)
    requires
        dep.stream_id < 0x8000_0000,
    ensures
        StreamDependency::spec_parse(dep.spec_octets() + rest) == dep,
{
    let buf = dep.spec_octets() + rest;
    let first: u32 = if dep.is_exclusive {
        (dep.stream_id + 0x8000_0000) as u32
    } else {
        dep.stream_id
    };
    assert(buf.subrange(0, 4) =~= spec_u32_octets(first));
    lemma_u32_round_trip(first, buf, 0);
}

/// A `HEADERS` frame: a fragment of an encoded header block.
#[derive(Clone, Debug, PartialEq)]
pub struct HeadersFrame {
    /// The header block fragment, still encoded.
    pub header_fragment: Vec<u8>,
    /// The id of the stream that the frame belongs to.
    pub stream_id: StreamId,
    /// The stream dependency, where the frame carries one.
    pub stream_dep: Option<StreamDependency>,
    /// The length of the padding, where the frame is padded.
    pub padding_len: Option<u8>,
    /// The flags byte of the frame.
    pub flags: u8,
}

/// The mathematical model of a `HEADERS` frame.
pub struct HeadersFrameView {
    pub header_fragment: Seq<u8>,
    pub stream_id: StreamId,
    pub stream_dep: Option<StreamDependency>,
    pub padding_len: Option<u8>,
    pub flags: u8,
}

impl HeadersFrameView {
    /// Whether the `END_STREAM` flag is set.
    pub open spec fn is_end_of_stream(self) -> bool {
        flag_set(self.flags, 0x1)
    }

    /// Whether the `END_HEADERS` flag is set.
    pub open spec fn is_headers_end(self) -> bool {
        flag_set(self.flags, 0x4)
    }

    /// Whether the `PADDED` flag is set.
    pub open spec fn is_padded(self) -> bool {
        flag_set(self.flags, 0x8)
    }

    /// Whether the `PRIORITY` flag is set.
    pub open spec fn has_priority(self) -> bool {
        flag_set(self.flags, 0x20)
    }

    /// What the payload holds between the pad length and the padding: the
    /// priority block, where there is one, and the fragment.
    pub open spec fn content(self) -> Seq<u8> {
        match self.stream_dep {
            Some(dep) => dep.spec_octets() + self.header_fragment,
            None => self.header_fragment,
        }
    }

    /// The payload of the frame on the wire.
    pub open spec fn payload(self) -> Seq<u8> {
        match self.padding_len {
            Some(pad_len) => seq![pad_len] + self.content() + spec_zeros(pad_len as nat),
            None => self.content(),
        }
    }

    /// The frame can stand on the wire: it belongs to a stream, it has a pad
    /// length exactly where it is flagged as padded and a dependency exactly
    /// where it is flagged as carrying a priority, and its payload length
    /// fits in 24 bits.
    pub open spec fn wf(self) -> bool {
        &&& 0 < self.stream_id < 0x8000_0000
        &&& self.is_padded() == self.padding_len.is_some()
        &&& self.has_priority() == self.stream_dep.is_some()
        &&& (self.stream_dep matches Some(dep) ==> dep.stream_id < 0x8000_0000)
        &&& self.payload().len() < 0x100_0000
    }

    /// The raw frame that carries this frame.
    pub open spec fn raw(self) -> RawFrameView {
        RawFrameView {
            header: (self.payload().len() as u32, HEADERS_FRAME_TYPE, self.flags, self.stream_id),
            payload: self.payload(),
        }
    }
}

/// The `HEADERS` frame that `content` holds once the padding is off: five
/// bytes of priority block where the `PRIORITY` flag is set, and the fragment.
pub open spec fn spec_headers_from_content(
    raw: RawFrameView,
    content: Seq<u8>,
    padding_len: Option<u8>,
) -> Option<HeadersFrameView> {
    if flag_set(raw.header.2, 0x20) {
        if content.len() < 5 {
            None
        } else {
            Some(
                HeadersFrameView {
                    header_fragment: content.skip(5),
                    stream_id: raw.header.3,
                    stream_dep: Some(StreamDependency::spec_parse(content)),
                    padding_len,
                    flags: raw.header.2,
                },
            )
        }
    } else {
        Some(
            HeadersFrameView {
                header_fragment: content,
                stream_id: raw.header.3,
                stream_dep: None,
                padding_len,
                flags: raw.header.2,
            },
        )
    }
}

/// The `HEADERS` frame that a raw frame holds: the type is `HEADERS` and the
/// stream id is not zero; padding and priority block are taken off as the
/// flags say, and must be there.
pub open spec fn spec_headers_from_raw(raw: RawFrameView) -> Option<HeadersFrameView> {
    if !raw.wf() || raw.header.1 != HEADERS_FRAME_TYPE || raw.header.3 == 0 {
        None
    } else if flag_set(raw.header.2, 0x8) {
        match spec_parse_padded(raw.payload) {
            Some((content, pad_len)) => spec_headers_from_content(raw, content, Some(pad_len)),
            None => None,
        }
    } else {
        spec_headers_from_content(raw, raw.payload, None)
    }
}

impl View for HeadersFrame {
    type V = HeadersFrameView;

    open spec fn view(&self) -> HeadersFrameView {
        HeadersFrameView {
            header_fragment: self.header_fragment@,
            stream_id: self.stream_id,
            stream_dep: self.stream_dep,
            padding_len: self.padding_len,
            flags: self.flags,
        }
    }
}

impl HeadersFrame {
    /// Creates a new `HEADERS` frame with the given fragment on the given
    /// stream. No padding, no dependency, no flag set.
    pub fn new(fragment: Vec<u8>, stream_id: StreamId) -> (r: HeadersFrame)
        ensures
            r@ == (HeadersFrameView {
                header_fragment: fragment@,
                stream_id,
                stream_dep: None,
                padding_len: None,
                flags: 0,
            }),
    {
        HeadersFrame {
            header_fragment: fragment,
            stream_id,
            stream_dep: None,
            padding_len: None,
            flags: 0,
        }
    }

    /// Creates a new `HEADERS` frame with the given fragment and stream
    /// dependency, and flags it as carrying a priority.
    pub fn with_dependency(
        fragment: Vec<u8>,
        stream_id: StreamId,
        stream_dep: StreamDependency,
    ) -> (r: HeadersFrame)
        ensures
            r@ == (HeadersFrameView {
                header_fragment: fragment@,
                stream_id,
                stream_dep: Some(stream_dep),
                padding_len: None,
                flags: 0x20,
            }),
            r@.has_priority(),
    {
        assert(flag_set(0x20u8, 0x20u8)) by (bit_vector);
        HeadersFrame {
            header_fragment: fragment,
            stream_id,
            stream_dep: Some(stream_dep),
            padding_len: None,
            flags: 0x20,
        }
    }

    /// Returns whether this frame ends the headers. If not, there MUST be a
    /// number of follow up CONTINUATION frames that send the rest of the
    /// header data.
    pub fn is_headers_end(&self) -> (r: bool)
        ensures
            r == self@.is_headers_end(),
    {
        self.is_set(HeadersFlag::EndHeaders)
    }

    /// Returns whether this frame ends the stream it is associated with.
    pub fn is_end_of_stream(&self) -> (r: bool)
        ensures
            r == self@.is_end_of_stream(),
    {
        self.is_set(HeadersFlag::EndStream)
    }

    /// Sets the given flag on the frame.
    pub fn set_flag(&mut self, flag: HeadersFlag)
        ensures
            final(self)@ == (HeadersFrameView {
                flags: old(self).flags | flag.spec_bitmask(),
                ..old(self)@
            }),
            flag_set(final(self).flags, flag.spec_bitmask()),
            forall|mask: u8| flag_set(old(self).flags, mask) ==> flag_set(final(self).flags, mask),
    {
        let mask: u8 = flag.bitmask();
        let before: u8 = self.flags;
        self.flags = before | mask;
        assert(mask & (before | mask) != 0) by (bit_vector)
            requires
                mask == 0x1 || mask == 0x4 || mask == 0x8 || mask == 0x20,
        ;
        assert forall|m: u8| flag_set(before, m) implies flag_set(before | mask, m) by {
            assert(m & before != 0 ==> m & (before | mask) != 0) by (bit_vector);
        }
    }

    /// Sets the amount of padding of the frame and flags it as padded.
    pub fn set_padding(&mut self, pad_len: u8)
        ensures
            final(self)@ == (HeadersFrameView {
                flags: old(self).flags | 0x8,
                padding_len: Some(pad_len),
                ..old(self)@
            }),
            final(self)@.is_padded(),
    {
        self.set_flag(HeadersFlag::Padded);
        self.padding_len = Some(pad_len);
    }

    /// Returns the length of the payload on the wire, or `None` where it
    /// does not fit in 24 bits.
    pub fn payload_len(&self) -> (r: Option<u32>)
        ensures
            match r {
                Some(len) => len == self@.payload().len() && len < 0x100_0000,
                None => self@.payload().len() >= 0x100_0000,
            },
    {
        if self.header_fragment.len() >= 0x100_0000 {
            return None;
        }
        let fragment_len: u32 = self.header_fragment.len() as u32;
        let padding: u32 = match self.padding_len {
            Some(pad_len) => 1 + pad_len as u32,
            None => 0,
        };
        let priority: u32 = match self.stream_dep {
            Some(_) => 5,
            None => 0,
        };
        let total: u32 = fragment_len + padding + priority;
        if total >= 0x100_0000 {
            None
        } else {
            Some(total)
        }
    }

    /// Whether the frame can stand on the wire.
    pub fn is_wf(&self) -> (r: bool)
        ensures
            r == self@.wf(),
    {
        let dep_ok: bool = match self.stream_dep {
            Some(dep) => dep.stream_id < 0x8000_0000,
            None => true,
        };
        self.stream_id != 0 && self.stream_id < 0x8000_0000 && self.is_set(HeadersFlag::Padded)
            == self.padding_len.is_some() && self.is_set(HeadersFlag::Priority)
            == self.stream_dep.is_some() && dep_ok && self.payload_len().is_some()
    }
}

impl Frame for HeadersFrame {
    type FlagType = HeadersFlag;

    open spec fn spec_flags(&self) -> u8 {
        self.flags
    }

    open spec fn spec_header(&self) -> FrameHeader {
        self@.raw().header
    }

    open spec fn spec_payload_len(&self) -> nat {
        self@.payload().len()
    }

    fn from_raw(raw: &RawFrame) -> (r: Option<HeadersFrame>)
        ensures
            match r {
                Some(frame) => spec_headers_from_raw(raw@) == Some(frame@),
                None => spec_headers_from_raw(raw@).is_none(),
            },
    {
        if !raw.is_consistent() {
            return None;
        }
        let (_len, frame_type, flags, stream_id) = raw.header();
        if frame_type != HEADERS_FRAME_TYPE {
            return None;
        }
        if stream_id == 0x0 {
            return None;
        }
        let padded: bool = (0x8u8 & flags) != 0;
        let (content, padding_len): (&[u8], Option<u8>) = if padded {
            match parse_padded_payload(raw.payload()) {
                Some((content, pad_len)) => (content, Some(pad_len)),
                None => {
                    return None;
                },
            }
        } else {
            (raw.payload(), None)
        };
        let priority: bool = (0x20u8 & flags) != 0;
        if priority {
            if content.len() < 5 {
                return None;
            }
            let dep: StreamDependency = StreamDependency::parse(content);
            let fragment: &[u8] = slice_subrange(content, 5, content.len());
            assert(fragment@ =~= content@.skip(5));
            Some(
                HeadersFrame {
                    header_fragment: slice_to_vec(fragment),
                    stream_id,
                    stream_dep: Some(dep),
                    padding_len,
                    flags,
                },
            )
        } else {
            Some(
                HeadersFrame {
                    header_fragment: slice_to_vec(content),
                    stream_id,
                    stream_dep: None,
                    padding_len,
                    flags,
                },
            )
        }
    }

    fn is_set(&self, flag: HeadersFlag) -> (r: bool) {
        (flag.bitmask() & self.flags) != 0
    }

    fn get_stream_id(&self) -> (r: StreamId) {
        self.stream_id
    }

    fn get_header(&self) -> (r: FrameHeader) {
        let len: u32 = match self.payload_len() {
            Some(len) => len,
            None => 0,
        };
        (len, HEADERS_FRAME_TYPE, self.flags, self.stream_id)
    }
}

impl FrameIR for HeadersFrame {
    open spec fn serializable(&self) -> bool {
        self@.wf()
    }

    open spec fn wire(&self) -> Seq<u8> {
        self@.raw().wire()
    }

    /// The header; the pad length, where the frame has one; the stream
    /// dependency, where the frame has one; the header fragment; and the
    /// padding, where the frame has a pad length.
    open spec fn pieces(&self) -> Seq<Seq<u8>> {
        match (self.padding_len, self.stream_dep) {
            (Some(pad_len), Some(dep)) => seq![
                spec_pack_header(self.spec_header()),
                seq![pad_len],
                dep.spec_octets(),
                self.header_fragment@,
                spec_zeros(pad_len as nat),
            ],
            (Some(pad_len), None) => seq![
                spec_pack_header(self.spec_header()),
                seq![pad_len],
                self.header_fragment@,
                spec_zeros(pad_len as nat),
            ],
            (None, Some(dep)) => seq![
                spec_pack_header(self.spec_header()),
                dep.spec_octets(),
                self.header_fragment@,
            ],
            (None, None) => seq![spec_pack_header(self.spec_header()), self.header_fragment@],
        }
    }

    fn serialize_into<B: FrameBuilder>(self, builder: &mut B) -> (r: HttpResult<()>) {
        if !self.is_wf() {
            return Err(HttpError::MalformedFrame);
        }
        let ghost start = builder.written();
        let ghost all = self.pieces();
        let ghost mut k: int = 0;
        assert(all.take(0) =~= Seq::<Seq<u8>>::empty());
        let ghost mid = *builder;
        let head = builder.write_header(self.get_header());
        proof {
            lemma_piece_written(*old(builder), all, k, mid, head, *builder);
            k = k + 1;
        }
        head?;
        match self.padding_len {
            Some(pad_len) => {
                let lead: [u8; 1] = [pad_len];
                assert(lead@ =~= seq![pad_len]);
                let ghost mid = *builder;
                let first = builder.write_all(lead.as_slice());
                proof {
                    lemma_piece_written(*old(builder), all, k, mid, first, *builder);
                    k = k + 1;
                }
                first?;
            },
            None => {},
        }
        match self.stream_dep {
            Some(dep) => {
                let block: [u8; 5] = dep.serialize();
                let ghost mid = *builder;
                let second = builder.write_all(block.as_slice());
                proof {
                    lemma_piece_written(*old(builder), all, k, mid, second, *builder);
                    k = k + 1;
                }
                second?;
            },
            None => {},
        }
        let ghost mid = *builder;
        let body = builder.write_all(self.header_fragment.as_slice());
        proof {
            lemma_piece_written(*old(builder), all, k, mid, body, *builder);
            k = k + 1;
        }
        body?;
        match self.padding_len {
            Some(pad_len) => {
                let ghost mid = *builder;
                let pad = builder.write_padding(pad_len);
                proof {
                    lemma_piece_written(*old(builder), all, k, mid, pad, *builder);
                    k = k + 1;
                }
                pad?;
            },
            None => {},
        }
        assert(k == all.len());
        assert(builder.written() =~= start + self.wire());
        Ok(())
    }
}

/// A well-formed `HEADERS` frame that is written out and parsed back is the
/// same frame.
pub proof fn lemma_headers_round_trip(frame: HeadersFrameView)
    requires
        frame.wf(),
    ensures
        frame.raw().wf(),
        spec_raw_from_buf(frame.raw().wire()) == Some(frame.raw()),
        spec_headers_from_raw(frame.raw()) == Some(frame),
{
    lemma_raw_frame_round_trip(frame.raw());
    let content = frame.content();
    match frame.padding_len {
        Some(pad_len) => {
            lemma_padded_round_trip(content, pad_len);
        },
        None => {},
    }
    match frame.stream_dep {
        Some(dep) => {
            lemma_dependency_round_trip(dep, frame.header_fragment);
            assert(content.skip(5) =~= frame.header_fragment);
        },
        None => {},
    }
}

} // verus!
