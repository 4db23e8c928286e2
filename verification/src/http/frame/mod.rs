//! The HTTP/2 frame codec: the frame header, raw frames, and the interfaces
//! that every typed frame offers.

use vstd::prelude::*;
use vstd::slice::slice_subrange;
use crate::http::{HttpError, HttpResult, StreamId};
use crate::http::frame::octets::{
    lemma_u24_round_trip, lemma_u32_round_trip, spec_u24_at, spec_u24_octets, spec_u32_at,
    spec_u32_octets, u32_octets, unpack_u24, unpack_u32,
};

pub mod data;
pub mod goaway;
pub mod headers;
pub mod octets;
pub mod ping;
pub mod rst_stream;
pub mod settings;
pub mod window_update;

verus! {

/// A frame header: payload length, frame type, flags and stream id.
pub type FrameHeader = (u32, u8, u8, StreamId);

/// The buffer that holds a frame header on the wire.
pub type FrameHeaderBuffer = [u8; 9];

/// Whether the length fits in 24 bits and the stream id in 31.
pub open spec fn header_wf(header: FrameHeader) -> bool {
    header.0 < 0x100_0000 && header.3 < 0x8000_0000
}

/// The nine bytes of a frame header: three of length, one of type, one of
/// flags, four of stream id with the reserved top bit written as zero.
pub open spec fn spec_pack_header(header: FrameHeader) -> Seq<u8> {
    spec_u24_octets(header.0) + seq![header.1, header.2] + spec_u32_octets(
        header.3 % 0x8000_0000,
    )
}

/// The frame header that the first nine bytes of `buf` hold. The reserved
/// top bit of the stream id is ignored.
pub open spec fn spec_unpack_header(buf: Seq<u8>) -> FrameHeader {
    (spec_u24_at(buf, 0), buf[3], buf[4], spec_u32_at(buf, 5) % 0x8000_0000)
}

/// Unpacking a packed header gives the header back, provided that its length
/// fits in 24 bits and its stream id in 31.
pub proof fn lemma_header_round_trip(header: FrameHeader, rest: Seq<u8>)
    requires
        header_wf(header),
    ensures
        spec_unpack_header(spec_pack_header(header) + rest) == header,
{
    let buf = spec_pack_header(header) + rest;
    assert(buf.subrange(0, 3) =~= spec_u24_octets(header.0));
    assert(buf.subrange(5, 9) =~= spec_u32_octets(header.3 % 0x8000_0000));
    lemma_u24_round_trip(header.0, buf, 0);
    lemma_u32_round_trip(header.3 % 0x8000_0000, buf, 5);
}

/// Deconstructs a header buffer into the header that it holds.
pub fn unpack_header(header: &FrameHeaderBuffer) -> (r: FrameHeader)
    ensures
        r == spec_unpack_header(header@),
        header_wf(r),
{
    let length: u32 = unpack_u24(header.as_slice(), 0);
    let frame_type: u8 = header[3];
    let flags: u8 = header[4];
    let stream_id: u32 = unpack_u32(header.as_slice(), 5) % 0x8000_0000;
    (length, frame_type, flags, stream_id)
}

/// Constructs the buffer that holds the given header on the wire.
pub fn pack_header(header: &FrameHeader) -> (r: FrameHeaderBuffer)
    ensures
        r@ == spec_pack_header(*header),
{
    let length: u32 = header.0;
    let id: [u8; 4] = u32_octets(header.3 % 0x8000_0000);
    let r: [u8; 9] = [
        ((length / 0x1_0000) % 0x100) as u8,
        ((length / 0x100) % 0x100) as u8,
        (length % 0x100) as u8,
        header.1,
        header.2,
        id[0],
        id[1],
        id[2],
        id[3],
    ];
    assert(r@ =~= spec_pack_header(*header));
    r
}

/// The mathematical model of a raw frame.
pub struct RawFrameView {
    pub header: FrameHeader,
    pub payload: Seq<u8>,
}

impl RawFrameView {
    /// The payload is as long as the header says, and the header is valid.
    pub open spec fn wf(self) -> bool {
        header_wf(self.header) && self.payload.len() == self.header.0
    }

    /// The frame as it stands on the wire.
    pub open spec fn wire(self) -> Seq<u8> {
        spec_pack_header(self.header) + self.payload
    }
}

/// The raw frame that `buf` holds, if `buf` is exactly one frame.
pub open spec fn spec_raw_from_buf(buf: Seq<u8>) -> Option<RawFrameView> {
    if buf.len() >= 9 && buf.len() - 9 == spec_unpack_header(buf).0 {
        Some(RawFrameView { header: spec_unpack_header(buf), payload: buf.skip(9) })
    } else {
        None
    }
}

/// A frame of any type, as it was read: a header and the payload bytes.
#[derive(Debug, PartialEq)]
pub struct RawFrame {
    /// The parsed header of the frame.
    pub header: FrameHeader,
    /// The payload of the frame, as the raw byte sequence that was received.
    pub payload: Vec<u8>,
}

impl View for RawFrame {
    type V = RawFrameView;

    open spec fn view(&self) -> RawFrameView {
        RawFrameView { header: self.header, payload: self.payload@ }
    }
}

impl RawFrame {
    /// Creates a new raw frame with the given header and an empty payload.
    pub fn new(header: FrameHeader) -> (r: RawFrame)
        ensures
            r@ == (RawFrameView { header, payload: Seq::empty() }),
    {
        RawFrame { header, payload: Vec::new() }
    }

    /// Creates a new raw frame with the given header and payload. Whether the
    /// two fit together is not checked.
    pub fn with_payload(header: FrameHeader, payload: Vec<u8>) -> (r: RawFrame)
        ensures
            r@ == (RawFrameView { header, payload: payload@ }),
    {
        RawFrame { header, payload }
    }

    /// Creates a raw frame from a buffer that holds exactly one frame: nine
    /// bytes of header and as many bytes of payload as the header says.
    pub fn from_buf(buf: &[u8]) -> (r: Option<RawFrame>)
        ensures
            r.is_some() == spec_raw_from_buf(buf@).is_some(),
            r matches Some(raw) ==> Some(raw@) == spec_raw_from_buf(buf@) && raw@.wf(),
    {
        if buf.len() < 9 {
            return None;
        }
        let head: [u8; 9] = [
            buf[0],
            buf[1],
            buf[2],
            buf[3],
            buf[4],
            buf[5],
            buf[6],
            buf[7],
            buf[8],
        ];
        let header: FrameHeader = unpack_header(&head);
        assert(header == spec_unpack_header(buf@));
        if buf.len() - 9 != header.0 as usize {
            return None;
        }
        let mut payload: Vec<u8> = Vec::new();
        let mut i: usize = 9;
        while i < buf.len()
            invariant
                9 <= i <= buf.len(),
                payload@ == buf@.subrange(9, i as int),
            decreases buf.len() - i,
        {
            payload.push(buf[i]);
            i += 1;
        }
        assert(payload@ =~= buf@.skip(9));
        Some(RawFrame { header, payload })
    }

    /// Returns the header of the frame.
    pub fn header(&self) -> (r: FrameHeader)
        ensures
            r == self@.header,
    {
        self.header
    }

    /// Returns the payload of the frame.
    pub fn payload(&self) -> (r: &[u8])
        ensures
            r@ == self@.payload,
    {
        self.payload.as_slice()
    }

    /// Whether the payload is as long as the header says and the header is
    /// valid.
    pub fn is_consistent(&self) -> (r: bool)
        ensures
            r == self@.wf(),
    {
        self.header.0 < 0x100_0000 && self.header.3 < 0x8000_0000 && self.payload.len()
            == self.header.0 as usize
    }

    /// Returns the frame as it stands on the wire: the packed header followed
    /// by the payload.
    pub fn serialize(&self) -> (r: Vec<u8>)
        ensures
            r@ == self@.wire(),
    {
        let head: [u8; 9] = pack_header(&self.header);
        let mut out: Vec<u8> = Vec::new();
        out.extend_from_slice(head.as_slice());
        out.extend_from_slice(self.payload.as_slice());
        out
    }
}

/// A raw frame that is written out and read back is the same frame.
pub proof fn lemma_raw_frame_round_trip(raw: RawFrameView)
    requires
        raw.wf(),
    ensures
        spec_raw_from_buf(raw.wire()) == Some(raw),
{
    lemma_header_round_trip(raw.header, raw.payload);
    assert(raw.wire().skip(9) =~= raw.payload);
}

/// `n` zero bytes.
pub open spec fn spec_zeros(n: nat) -> Seq<u8> {
    Seq::new(n, |i: int| 0u8)
}

/// Whether the bit `mask` is set in `flags`.
pub open spec fn flag_set(flags: u8, mask: u8) -> bool {
    mask & flags != 0
}

/// The content and the pad length of a padded payload: the first byte is the
/// pad length, that many bytes at the end are padding, and what lies between
/// is the content. `None` where the payload is too short to hold the padding
/// that it announces.
pub open spec fn spec_parse_padded(payload: Seq<u8>) -> Option<(Seq<u8>, u8)> {
    if payload.len() >= 1 && payload[0] < payload.len() {
        Some((payload.subrange(1, payload.len() - payload[0]), payload[0]))
    } else {
        None
    }
}

/// The padded form of `content`: the pad length, the content, and
/// `pad_len` zero bytes.
pub open spec fn spec_pad(content: Seq<u8>, pad_len: u8) -> Seq<u8> {
    seq![pad_len] + content + spec_zeros(pad_len as nat)
}

/// Stripping the padding from a padded payload gives the content back.
pub proof fn lemma_padded_round_trip(content: Seq<u8>, pad_len: u8)
    ensures
        spec_parse_padded(spec_pad(content, pad_len)) == Some((content, pad_len)),
{
    let p = spec_pad(content, pad_len);
    assert(p.subrange(1, p.len() - p[0]) =~= content);
}

/// Splits a padded payload into its content and its pad length.
pub fn parse_padded_payload(payload: &[u8]) -> (r: Option<(&[u8], u8)>)
    ensures
        match r {
            Some((content, pad_len)) => spec_parse_padded(payload@) == Some((content@, pad_len)),
            None => spec_parse_padded(payload@).is_none(),
        },
{
    if payload.len() < 1 {
        return None;
    }
    let pad_len: u8 = payload[0];
    if pad_len as usize >= payload.len() {
        return None;
    }
    let content: &[u8] = slice_subrange(payload, 1, payload.len() - pad_len as usize);
    Some((content, pad_len))
}

/// A sink for the bytes of a frame.
pub trait FrameBuilder: Sized {
    /// The bytes written so far.
    spec fn written(&self) -> Seq<u8>;

    /// Whether a write to this builder can fail.
    spec fn fallible(&self) -> bool;

    /// Whether one write of `buf` may turn the builder `pre` into `post` and
    /// give `r`.
    spec fn wrote(pre: Self, buf: Seq<u8>, r: HttpResult<()>, post: Self) -> bool;

    /// Writes all of `buf`.
    fn write_all(&mut self, buf: &[u8]) -> (r: HttpResult<()>)
        ensures
            final(self).fallible() == old(self).fallible(),
            !old(self).fallible() ==> r is Ok,
            r is Ok ==> final(self).written() == old(self).written() + buf@,
            Self::wrote(*old(self), buf@, r, *final(self)),
    ;

    /// Writes the given frame header.
    fn write_header(&mut self, header: FrameHeader) -> (r: HttpResult<()>)
        ensures
            final(self).fallible() == old(self).fallible(),
            !old(self).fallible() ==> r is Ok,
            r is Ok ==> final(self).written() == old(self).written() + spec_pack_header(header),
            Self::wrote(*old(self), spec_pack_header(header), r, *final(self)),
    {
        let head: [u8; 9] = pack_header(&header);
        self.write_all(head.as_slice())
    }

    /// Writes the given 32-bit integer, most significant byte first.
    fn write_u32(&mut self, num: u32) -> (r: HttpResult<()>)
        ensures
            final(self).fallible() == old(self).fallible(),
            !old(self).fallible() ==> r is Ok,
            r is Ok ==> final(self).written() == old(self).written() + spec_u32_octets(num),
            Self::wrote(*old(self), spec_u32_octets(num), r, *final(self)),
    {
        let bytes: [u8; 4] = u32_octets(num);
        self.write_all(bytes.as_slice())
    }

    /// Writes `padding_length` zero bytes.
    fn write_padding(&mut self, padding_length: u8) -> (r: HttpResult<()>)
        ensures
            final(self).fallible() == old(self).fallible(),
            !old(self).fallible() ==> r is Ok,
            r is Ok ==> final(self).written() == old(self).written() + spec_zeros(
                padding_length as nat,
            ),
            Self::wrote(*old(self), spec_zeros(padding_length as nat), r, *final(self)),
    {
        let mut zeros: Vec<u8> = Vec::new();
        let mut i: u8 = 0;
        while i < padding_length
            invariant
                i <= padding_length,
                zeros@ == spec_zeros(i as nat),
            decreases padding_length - i,
        {
            zeros.push(0);
            i += 1;
            assert(zeros@ =~= spec_zeros(i as nat));
        }
        self.write_all(zeros.as_slice())
    }
}

impl FrameBuilder for Vec<u8> {
    open spec fn written(&self) -> Seq<u8> {
        self@
    }

    open spec fn fallible(&self) -> bool {
        false
    }

    /// The bytes are added at the end.
    open spec fn wrote(pre: Self, buf: Seq<u8>, r: HttpResult<()>, post: Self) -> bool {
        r is Ok && post@ == pre@ + buf
    }

    fn write_all(&mut self, buf: &[u8]) -> (r: HttpResult<()>) {
        self.extend_from_slice(buf);
        Ok(())
    }
}

/// Whether the last of a row of writes may turn the builder `mid` into
/// `post` and give `r`, where the writes before it have given `before`:
/// after a write that has failed nothing more is written, and its error is
/// the outcome; otherwise the piece is written, once.
pub open spec fn last_written<B: FrameBuilder>(
    mid: B,
    piece: Seq<u8>,
    before: HttpResult<()>,
    r: HttpResult<()>,
    post: B,
) -> bool {
    if before is Err {
        r == before && post == mid
    } else {
        B::wrote(mid, piece, r, post)
    }
}

/// Whether writing the pieces, one write for each and in order, up to the
/// first write that fails, may turn the builder `pre` into `post` and give
/// `r`. The error of the write that has failed is the outcome, and no write
/// follows it.
pub open spec fn writes_done<B: FrameBuilder>(
    pre: B,
    pieces: Seq<Seq<u8>>,
    r: HttpResult<()>,
    post: B,
) -> bool
    decreases pieces.len(),
{
    if pieces.len() == 0 {
        r is Ok && post == pre
    } else {
        exists|before: HttpResult<()>, mid: B|
            {
                &&& #[trigger] last_written(mid, pieces.last(), before, r, post)
                &&& writes_done(pre, pieces.drop_last(), before, mid)
            }
    }
}

/// After a write has failed, the pieces that were still to be written
/// change nothing.
pub proof fn lemma_writes_failed<B: FrameBuilder>(
    pre: B,
    done: Seq<Seq<u8>>,
    r: HttpResult<()>,
    post: B,
    rest: Seq<Seq<u8>>,
)
    requires
        writes_done(pre, done, r, post),
        r is Err,
    ensures
        writes_done(pre, done + rest, r, post),
    decreases rest.len(),
{
    if rest.len() == 0 {
        assert(done + rest =~= done);
    } else {
        lemma_writes_failed(pre, done, r, post, rest.drop_last());
        assert((done + rest).drop_last() =~= done + rest.drop_last());
        assert(last_written(post, (done + rest).last(), r, r, post));
    }
}

/// Where a row of writes has failed, one of the writes has failed with that
/// error after all the writes before it had gone well, and the builder is
/// as that write has left it. Returns the place of that write.
pub proof fn lemma_failed_write_found<B: FrameBuilder>(
    pre: B,
    pieces: Seq<Seq<u8>>,
    r: HttpResult<()>,
    post: B,
) -> (k: int)
    requires
        writes_done(pre, pieces, r, post),
        r is Err,
    ensures
        0 <= k < pieces.len(),
        exists|mid: B|
            {
                &&& writes_done(pre, pieces.take(k), Ok::<(), HttpError>(()), mid)
                &&& #[trigger] B::wrote(mid, pieces[k], r, post)
            },
    decreases pieces.len(),
{
    let (before, mid) = choose|before: HttpResult<()>, mid: B|
        {
            &&& #[trigger] last_written(mid, pieces.last(), before, r, post)
            &&& writes_done(pre, pieces.drop_last(), before, mid)
        };
    if before is Err {
        let k = lemma_failed_write_found(pre, pieces.drop_last(), before, mid);
        assert(pieces.drop_last().take(k) =~= pieces.take(k));
        k
    } else {
        assert(before->Ok_0 == ());
        assert(before == Ok::<(), HttpError>(()));
        assert(pieces.take(pieces.len() - 1) =~= pieces.drop_last());
        assert(B::wrote(mid, pieces[pieces.len() - 1], r, post));
        pieces.len() - 1
    }
}

/// One more write after `k` pieces that were written well: where it goes
/// well, `k + 1` pieces are written; where it fails, this is the outcome
/// for all the pieces.
pub proof fn lemma_piece_written<B: FrameBuilder>(
    pre: B,
    pieces: Seq<Seq<u8>>,
    k: int,
    mid: B,
    r: HttpResult<()>,
    post: B,
)
    requires
        0 <= k < pieces.len(),
        writes_done(pre, pieces.take(k), Ok::<(), HttpError>(()), mid),
        B::wrote(mid, pieces[k], r, post),
    ensures
        r is Ok ==> writes_done(pre, pieces.take(k + 1), Ok::<(), HttpError>(()), post),
        r is Err ==> writes_done(pre, pieces, r, post),
        k + 1 == pieces.len() ==> writes_done(pre, pieces, r, post),
{
    let next = pieces.take(k + 1);
    assert(next.drop_last() =~= pieces.take(k));
    assert(next.last() == pieces[k]);
    assert(last_written(mid, next.last(), Ok::<(), HttpError>(()), r, post));
    assert(writes_done(pre, next, r, post));
    if r is Err {
        lemma_writes_failed(pre, next, r, post, pieces.skip(k + 1));
        assert(next + pieces.skip(k + 1) =~= pieces);
    } else {
        assert(r->Ok_0 == ());
        assert(r == Ok::<(), HttpError>(()));
    }
    if k + 1 == pieces.len() {
        assert(next =~= pieces);
    }
}

/// A flag of a frame type.
pub trait Flag {
    /// The bit that stands for the flag in the flags byte.
    spec fn spec_bitmask(&self) -> u8;

    /// Returns the bit that stands for the flag in the flags byte.
    fn bitmask(&self) -> (r: u8)
        ensures
            r == self.spec_bitmask(),
    ;
}

/// What every typed frame offers: parsing from a raw frame, and its header.
pub trait Frame: Sized {
    /// The type that represents the flags of the frame type.
    type FlagType: Flag;

    /// The flags byte of the frame.
    spec fn spec_flags(&self) -> u8;

    /// The header that the frame has on the wire.
    spec fn spec_header(&self) -> FrameHeader;

    /// The length of the payload that the frame has on the wire.
    spec fn spec_payload_len(&self) -> nat;

    /// Creates a new frame from the given raw frame, or `None` where the raw
    /// frame is not a valid frame of this type.
    fn from_raw(raw: &RawFrame) -> Option<Self>;

    /// Tests whether the given flag is set on the frame.
    fn is_set(&self, flag: Self::FlagType) -> (r: bool)
        ensures
            r == (flag.spec_bitmask() & self.spec_flags() != 0),
    ;

    /// Returns the id of the stream that the frame belongs to.
    fn get_stream_id(&self) -> (r: StreamId)
        ensures
            r == self.spec_header().3,
    ;

    /// Returns the header of the frame. The length of the payload has to fit
    /// in the 24 bits that a header has for it.
    fn get_header(&self) -> (r: FrameHeader)
        requires
            self.spec_payload_len() < 0x100_0000,
        ensures
            r == self.spec_header(),
    ;
}

/// A frame that can be written to a byte sink.
pub trait FrameIR: Sized {
    /// Whether the frame can stand on the wire.
    spec fn serializable(&self) -> bool;

    /// The frame as it stands on the wire: the header first, the payload after
    /// it.
    spec fn wire(&self) -> Seq<u8>;

    /// The pieces in which the frame is written, one write of the builder
    /// for each, in order.
    spec fn pieces(&self) -> Seq<Seq<u8>>;

    /// Writes the frame into the builder, piece by piece. A frame that
    /// cannot stand on the wire is refused as malformed and nothing is
    /// written. Where a write of the builder fails, its error is returned
    /// and nothing is written after it.
    fn serialize_into<B: FrameBuilder>(self, builder: &mut B) -> (r: HttpResult<()>)
        ensures
            final(builder).fallible() == old(builder).fallible(),
            !self.serializable() ==> (r matches Err(e) && e is MalformedFrame) && *final(builder)
                == *old(builder),
            self.serializable() ==> writes_done(*old(builder), self.pieces(), r, *final(builder)),
            self.serializable() && !old(builder).fallible() ==> r is Ok,
            r is Ok ==> final(builder).written() == old(builder).written() + self.wire(),
    ;
}

/// Serializes the frame into a fresh buffer. Returns `None` for a frame that
/// cannot stand on the wire.
pub fn serialize_frame<F: FrameIR>(frame: F) -> (r: Option<Vec<u8>>)
    ensures
        r.is_some() == frame.serializable(),
        r matches Some(buf) ==> buf@ == frame.wire(),
{
    let mut buf: Vec<u8> = Vec::new();
    match frame.serialize_into(&mut buf) {
        Ok(_) => {
            assert(buf@ =~= frame.wire());
            Some(buf)
        },
        Err(_) => None,
    }
}

} // verus!
