//! Implements the `DATA` HTTP/2 frame.

use vstd::prelude::*;
use vstd::slice::slice_to_vec;
use crate::http::{HttpError, HttpResult, StreamId};
use crate::http::frame::{Flag, Frame, FrameBuilder, FrameHeader, FrameIR, RawFrame, RawFrameView, flag_set, lemma_padded_round_trip, lemma_raw_frame_round_trip, parse_padded_payload, spec_pad, spec_parse_padded, spec_raw_from_buf, lemma_piece_written, spec_pack_header, spec_zeros};

verus! {

/// The frame type of the `DATA` frame.
pub const DATA_FRAME_TYPE: u8 = 0x0;

/// The flags of the `DATA` frame.
#[derive(Clone, Copy, Debug, PartialEq, Eq, Structural)]
pub enum DataFlag {
    EndStream,
    Padded,
}

impl Flag for DataFlag {
    open spec fn spec_bitmask(&self) -> u8 {
        match self {
            DataFlag::EndStream => 0x1,
            DataFlag::Padded => 0x8,
        }
    }

    fn bitmask(&self) -> (r: u8) {
        match self {
            DataFlag::EndStream => 0x1,
            DataFlag::Padded => 0x8,
        }
    }
}

/// A `DATA` frame: the data of one chunk of a stream's body.
#[derive(Clone, Debug, PartialEq)]
pub struct DataFrame {
    /// The data found in the frame, without any padding.
    pub data: Vec<u8>,
    /// The flags byte of the frame.
    pub flags: u8,
    /// The id of the stream that the frame belongs to.
    pub stream_id: StreamId,
    /// The length of the padding, where the frame is padded.
    pub padding_len: Option<u8>,
}

/// The mathematical model of a `DATA` frame.
pub struct DataFrameView {
    pub data: Seq<u8>,
    pub flags: u8,
    pub stream_id: StreamId,
    pub padding_len: Option<u8>,
}

impl DataFrameView {
    /// Whether the `PADDED` flag is set.
    pub open spec fn is_padded(self) -> bool {
        flag_set(self.flags, 0x8)
    }

    /// Whether the `END_STREAM` flag is set.
    pub open spec fn is_end_of_stream(self) -> bool {
        flag_set(self.flags, 0x1)
    }

    /// The length of the payload: the data and, where the frame has a pad
    /// length, the pad length byte and the padding.
    pub open spec fn payload_len(self) -> nat {
        self.payload().len()
    }

    /// The frame can stand on the wire: it belongs to a stream, it has a
    /// pad length exactly where it is flagged as padded, and its payload
    /// length fits in 24 bits.
    pub open spec fn wf(self) -> bool {
        &&& 0 < self.stream_id < 0x8000_0000
        &&& self.is_padded() == self.padding_len.is_some()
        &&& self.payload_len() < 0x100_0000
    }

    /// The payload of the frame on the wire.
    pub open spec fn payload(self) -> Seq<u8> {
        match self.padding_len {
            Some(pad_len) => spec_pad(self.data, pad_len),
            None => self.data,
        }
    }

    /// The raw frame that carries this frame.
    pub open spec fn raw(self) -> RawFrameView {
        RawFrameView {
            header: (self.payload_len() as u32, DATA_FRAME_TYPE, self.flags, self.stream_id),
            payload: self.payload(),
        }
    }
}

/// The `DATA` frame that a raw frame holds: the type is `DATA` and the
/// stream id is not zero; where the `PADDED` flag is set, the padding is
/// stripped and must be there.
pub open spec fn spec_data_from_raw(raw: RawFrameView) -> Option<DataFrameView> {
    if !raw.wf() || raw.header.1 != DATA_FRAME_TYPE || raw.header.3 == 0 {
        None
    } else if flag_set(raw.header.2, 0x8) {
        match spec_parse_padded(raw.payload) {
            Some((data, pad_len)) => Some(
                DataFrameView {
                    data,
                    flags: raw.header.2,
                    stream_id: raw.header.3,
                    padding_len: Some(pad_len),
                },
            ),
            None => None,
        }
    } else {
        Some(
            DataFrameView {
                data: raw.payload,
                flags: raw.header.2,
                stream_id: raw.header.3,
                padding_len: None,
            },
        )
    }
}

impl View for DataFrame {
    type V = DataFrameView;

    open spec fn view(&self) -> DataFrameView {
        DataFrameView {
            data: self.data@,
            flags: self.flags,
            stream_id: self.stream_id,
            padding_len: self.padding_len,
        }
    }
}

impl DataFrame {
    /// Creates a new empty `DATA` frame on the given stream.
    pub fn new(stream_id: StreamId) -> (r: DataFrame)
        ensures
            r@ == (DataFrameView { data: Seq::empty(), flags: 0, stream_id, padding_len: None }),
    {
        DataFrame { data: Vec::new(), flags: 0, stream_id, padding_len: None }
    }

    /// Creates a new `DATA` frame with the given data on the given stream.
    pub fn with_data(stream_id: StreamId, data: Vec<u8>) -> (r: DataFrame)
        ensures
            r@ == (DataFrameView { data: data@, flags: 0, stream_id, padding_len: None }),
    {
        DataFrame { data, flags: 0, stream_id, padding_len: None }
    }

    /// Returns whether the frame is padded.
    pub fn is_padded(&self) -> (r: bool)
        ensures
            r == self@.is_padded(),
    {
        self.is_set(DataFlag::Padded)
    }

    /// Returns whether the frame ends its stream.
    pub fn is_end_of_stream(&self) -> (r: bool)
        ensures
            r == self@.is_end_of_stream(),
    {
        self.is_set(DataFlag::EndStream)
    }

    /// Sets the given flag on the frame.
    pub fn set_flag(&mut self, flag: DataFlag)
        ensures
            final(self)@ == (DataFrameView {
                flags: old(self).flags | flag.spec_bitmask(),
                ..old(self)@
            }),
            flag_set(final(self).flags, flag.spec_bitmask()),
            forall|mask: u8| flag_set(old(self).flags, mask) ==> flag_set(final(self).flags, mask),
    {
        let mask: u8 = flag.bitmask();
        let before: u8 = self.flags;
        self.flags = before | mask;
        assert(mask & (before | mask) != 0) by (bit_vector)
            requires
                mask == 0x1 || mask == 0x8,
        ;
        assert forall|m: u8| flag_set(before, m) implies flag_set(before | mask, m) by {
            assert(m & before != 0 ==> m & (before | mask) != 0) by (bit_vector);
        }
    }

    /// Sets the amount of padding of the frame and flags it as padded.
    pub fn set_padding(&mut self, pad_len: u8)
        ensures
            final(self)@ == (DataFrameView {
                flags: old(self).flags | 0x8,
                padding_len: Some(pad_len),
                ..old(self)@
            }),
            final(self)@.is_padded(),
    {
        self.set_flag(DataFlag::Padded);
        self.padding_len = Some(pad_len);
    }

    /// Returns the length of the payload on the wire, or `None` where it
    /// does not fit in 24 bits.
    pub fn payload_len(&self) -> (r: Option<u32>)
        ensures
            match r {
                Some(len) => len == self@.payload_len() && len < 0x100_0000,
                None => self@.payload_len() >= 0x100_0000,
            },
    {
        if self.data.len() >= 0x100_0000 {
            return None;
        }
        let data_len: u32 = self.data.len() as u32;
        let overhead: u32 = match self.padding_len {
            Some(pad_len) => 1 + pad_len as u32,
            None => 0,
        };
        let total: u32 = data_len + overhead;
        if total >= 0x100_0000 {
            None
        } else {
            Some(total)
        }
    }

    /// Whether the frame can stand on the wire.
    pub fn is_wf(&self) -> (r: bool)
        ensures
            r == self@.wf(),
    {
        self.stream_id != 0 && self.stream_id < 0x8000_0000 && self.is_padded()
            == self.padding_len.is_some() && self.payload_len().is_some()
    }
}

impl Frame for DataFrame {
    type FlagType = DataFlag;

    open spec fn spec_flags(&self) -> u8 {
        self.flags
    }

    open spec fn spec_header(&self) -> FrameHeader {
        self@.raw().header
    }

    open spec fn spec_payload_len(&self) -> nat {
        self@.payload_len()
    }

    fn from_raw(raw: &RawFrame) -> (r: Option<DataFrame>)
        ensures
            match r {
                Some(frame) => spec_data_from_raw(raw@) == Some(frame@),
                None => spec_data_from_raw(raw@).is_none(),
            },
    {
        if !raw.is_consistent() {
            return None;
        }
        let (_len, frame_type, flags, stream_id) = raw.header();
        if frame_type != DATA_FRAME_TYPE {
            return None;
        }
        if stream_id == 0x0 {
            return None;
        }
        let padded: bool = (0x8u8 & flags) != 0;
        if padded {
            match parse_padded_payload(raw.payload()) {
                Some((data, pad_len)) => Some(
                    DataFrame {
                        data: slice_to_vec(data),
                        flags,
                        stream_id,
                        padding_len: Some(pad_len),
                    },
                ),
                None => None,
            }
        } else {
            Some(
                DataFrame { data: slice_to_vec(raw.payload()), flags, stream_id, padding_len: None },
            )
        }
    }

    fn is_set(&self, flag: DataFlag) -> (r: bool) {
        (flag.bitmask() & self.flags) != 0
    }

    fn get_stream_id(&self) -> (r: StreamId) {
        self.stream_id
    }

    fn get_header(&self) -> (r: FrameHeader) {
        let len: u32 = match self.payload_len() {
            Some(len) => len,
            None => 0,
        };
        (len, DATA_FRAME_TYPE, self.flags, self.stream_id)
    }
}

impl FrameIR for DataFrame {
    open spec fn serializable(&self) -> bool {
        self@.wf()
    }

    open spec fn wire(&self) -> Seq<u8> {
        self@.raw().wire()
    }

    /// The header and the data; for a frame with a pad length, the header,
    /// the pad length, the data, and the padding.
    open spec fn pieces(&self) -> Seq<Seq<u8>> {
        match self.padding_len {
            Some(pad_len) => seq![
                spec_pack_header(self.spec_header()),
                seq![pad_len],
                self.data@,
                spec_zeros(pad_len as nat),
            ],
            None => seq![spec_pack_header(self.spec_header()), self.data@],
        }
    }

    fn serialize_into<B: FrameBuilder>(self, builder: &mut B) -> (r: HttpResult<()>) {
        if !self.is_wf() {
            return Err(HttpError::MalformedFrame);
        }
        let ghost start = builder.written();
        let ghost all = self.pieces();
        assert(all.take(0) =~= Seq::<Seq<u8>>::empty());
        let ghost mid = *builder;
        let head = builder.write_header(self.get_header());
        proof {
            lemma_piece_written(*old(builder), all, 0, mid, head, *builder);
        }
        head?;
        match self.padding_len {
            Some(pad_len) => {
                let lead: [u8; 1] = [pad_len];
                assert(lead@ =~= seq![pad_len]);
                let ghost mid = *builder;
                let first = builder.write_all(lead.as_slice());
                proof {
                    lemma_piece_written(*old(builder), all, 1, mid, first, *builder);
                }
                first?;
                let ghost mid = *builder;
                let body = builder.write_all(self.data.as_slice());
                proof {
                    lemma_piece_written(*old(builder), all, 2, mid, body, *builder);
                }
                body?;
                let ghost mid = *builder;
                let pad = builder.write_padding(pad_len);
                proof {
                    lemma_piece_written(*old(builder), all, 3, mid, pad, *builder);
                }
                pad?;
            },
            None => {
                let ghost mid = *builder;
                let body = builder.write_all(self.data.as_slice());
                proof {
                    lemma_piece_written(*old(builder), all, 1, mid, body, *builder);
                }
                body?;
            },
        }
        assert(builder.written() =~= start + self.wire());
        Ok(())
    }
}

/// A well-formed `DATA` frame that is written out and parsed back is the
/// same frame.
pub proof fn lemma_data_round_trip(frame: DataFrameView)
    requires
        frame.wf(),
    ensures
        frame.raw().wf(),
        spec_raw_from_buf(frame.raw().wire()) == Some(frame.raw()),
        spec_data_from_raw(frame.raw()) == Some(frame),
{
    lemma_raw_frame_round_trip(frame.raw());
    match frame.padding_len {
        Some(pad_len) => {
            lemma_padded_round_trip(frame.data, pad_len);
        },
        None => {},
    }
}

} // verus!
