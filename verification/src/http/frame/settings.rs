//! Implements the `SETTINGS` HTTP/2 frame.

use vstd::prelude::*;
use crate::http::{HttpError, HttpResult, StreamId};
use crate::http::frame::{Flag, Frame, FrameBuilder, FrameHeader, FrameIR, RawFrame, RawFrameView, flag_set, lemma_raw_frame_round_trip, spec_raw_from_buf, lemma_piece_written, spec_pack_header, writes_done};
use crate::http::frame::octets::{
    lemma_u16_round_trip, lemma_u32_round_trip, spec_u16_at, spec_u16_octets, spec_u32_at,
    spec_u32_octets, u16_octets, u32_octets, unpack_u16, unpack_u32,
};

verus! {

/// The frame type of the `SETTINGS` frame.
pub const SETTINGS_FRAME_TYPE: u8 = 0x4;

/// The one flag of the `SETTINGS` frame: ACK.
#[derive(Clone, Copy, Debug, PartialEq, Eq, Structural)]
pub enum SettingsFlag {
    Ack,
}

impl Flag for SettingsFlag {
    open spec fn spec_bitmask(&self) -> u8 {
        0x1
    }

    fn bitmask(&self) -> (r: u8) {
        0x1
    }
}

/// The settings that a `SETTINGS` frame can carry, each with its value.
#[derive(Clone, Copy, Debug, PartialEq, Eq, Structural)]
pub enum HttpSetting {
    HeaderTableSize(u32),
    EnablePush(u32),
    MaxConcurrentStreams(u32),
    InitialWindowSize(u32),
    MaxFrameSize(u32),
    MaxHeaderListSize(u32),
}

impl HttpSetting {
    /// The setting with the given id and value, or `None` for an id that is
    /// not known.
    pub open spec fn spec_from_id(id: u16, val: u32) -> Option<HttpSetting> {
        if id == 1 {
            Some(HttpSetting::HeaderTableSize(val))
        } else if id == 2 {
            Some(HttpSetting::EnablePush(val))
        } else if id == 3 {
            Some(HttpSetting::MaxConcurrentStreams(val))
        } else if id == 4 {
            Some(HttpSetting::InitialWindowSize(val))
        } else if id == 5 {
            Some(HttpSetting::MaxFrameSize(val))
        } else if id == 6 {
            Some(HttpSetting::MaxHeaderListSize(val))
        } else {
            None
        }
    }

    /// The id of the setting.
    pub open spec fn spec_id(self) -> u16 {
        match self {
            HttpSetting::HeaderTableSize(_) => 1,
            HttpSetting::EnablePush(_) => 2,
            HttpSetting::MaxConcurrentStreams(_) => 3,
            HttpSetting::InitialWindowSize(_) => 4,
            HttpSetting::MaxFrameSize(_) => 5,
            HttpSetting::MaxHeaderListSize(_) => 6,
        }
    }

    /// The value of the setting.
    pub open spec fn spec_val(self) -> u32 {
        match self {
            HttpSetting::HeaderTableSize(val) => val,
            HttpSetting::EnablePush(val) => val,
            HttpSetting::MaxConcurrentStreams(val) => val,
            HttpSetting::InitialWindowSize(val) => val,
            HttpSetting::MaxFrameSize(val) => val,
            HttpSetting::MaxHeaderListSize(val) => val,
        }
    }

    /// The six bytes of the setting on the wire: the id first, the value
    /// after it.
    pub open spec fn spec_octets(self) -> Seq<u8> {
        spec_u16_octets(self.spec_id()) + spec_u32_octets(self.spec_val())
    }

    /// The setting that the six bytes at `i` of `buf` hold, or `None` where
    /// the id is not known.
    pub open spec fn spec_parse_at(buf: Seq<u8>, i: int) -> Option<HttpSetting> {
        HttpSetting::spec_from_id(spec_u16_at(buf, i), spec_u32_at(buf, i + 2))
    }

    /// Creates the setting with the given id and value, or `None` for an id
    /// that is not known.
    pub fn from_id(id: u16, val: u32) -> (r: Option<HttpSetting>)
        ensures
            r == HttpSetting::spec_from_id(id, val),
    {
        match id {
            1 => Some(HttpSetting::HeaderTableSize(val)),
            2 => Some(HttpSetting::EnablePush(val)),
            3 => Some(HttpSetting::MaxConcurrentStreams(val)),
            4 => Some(HttpSetting::InitialWindowSize(val)),
            5 => Some(HttpSetting::MaxFrameSize(val)),
            6 => Some(HttpSetting::MaxHeaderListSize(val)),
            _ => None,
        }
    }

    /// Returns the id of the setting.
    pub fn get_id(&self) -> (r: u16)
        ensures
            r == self.spec_id(),
    {
        match self {
            HttpSetting::HeaderTableSize(_) => 1,
            HttpSetting::EnablePush(_) => 2,
            HttpSetting::MaxConcurrentStreams(_) => 3,
            HttpSetting::InitialWindowSize(_) => 4,
            HttpSetting::MaxFrameSize(_) => 5,
            HttpSetting::MaxHeaderListSize(_) => 6,
        }
    }

    /// Returns the value of the setting.
    pub fn get_val(&self) -> (r: u32)
        ensures
            r == self.spec_val(),
    {
        match self {
            HttpSetting::HeaderTableSize(val) => *val,
            HttpSetting::EnablePush(val) => *val,
            HttpSetting::MaxConcurrentStreams(val) => *val,
            HttpSetting::InitialWindowSize(val) => *val,
            HttpSetting::MaxFrameSize(val) => *val,
            HttpSetting::MaxHeaderListSize(val) => *val,
        }
    }

    /// Parses the setting at the start of the given buffer, or `None` where
    /// the id is not known.
    pub fn parse_setting(buf: &[u8]) -> (r: Option<HttpSetting>)
        requires
            buf@.len() >= 6,
        ensures
            r == HttpSetting::spec_parse_at(buf@, 0),
    {
        let id: u16 = unpack_u16(buf, 0);
        let val: u32 = unpack_u32(buf, 2);
        HttpSetting::from_id(id, val)
    }

    /// Returns the six bytes of the setting on the wire.
    pub fn serialize(&self) -> (r: [u8; 6])
        ensures
            r@ == self.spec_octets(),
    {
        let id: [u8; 2] = u16_octets(self.get_id());
        let val: [u8; 4] = u32_octets(self.get_val());
        let r: [u8; 6] = [id[0], id[1], val[0], val[1], val[2], val[3]];
        assert(r@ =~= self.spec_octets());
        r
    }
}

/// The settings that the first `n` six-byte entries of `payload` hold, in
/// order. Entries with an id that is not known are left out.
pub open spec fn spec_parse_settings(payload: Seq<u8>, n: nat) -> Seq<HttpSetting>
    decreases n,
{
    if n == 0 {
        Seq::empty()
    } else {
        let before = spec_parse_settings(payload, (n - 1) as nat);
        match HttpSetting::spec_parse_at(payload, 6 * (n - 1)) {
            Some(setting) => before.push(setting),
            None => before,
        }
    }
}

/// The bytes of the given settings on the wire, one after the other.
pub open spec fn spec_settings_octets(settings: Seq<HttpSetting>) -> Seq<u8>
    decreases settings.len(),
{
    if settings.len() == 0 {
        Seq::empty()
    } else {
        spec_settings_octets(settings.drop_last()) + settings.last().spec_octets()
    }
}

/// The settings of a list take six bytes each.
pub proof fn lemma_settings_octets_len(settings: Seq<HttpSetting>)
    ensures
        spec_settings_octets(settings).len() == 6 * settings.len(),
    decreases settings.len(),
{
    if settings.len() > 0 {
        lemma_settings_octets_len(settings.drop_last());
    }
}

/// What the first `n` entries of a payload hold does not depend on what
/// follows them.
pub proof fn lemma_parse_settings_prefix(a: Seq<u8>, b: Seq<u8>, n: nat)
    requires
        6 * n <= a.len(),
    ensures
        spec_parse_settings(a + b, n) == spec_parse_settings(a, n),
    decreases n,
{
    if n > 0 {
        lemma_parse_settings_prefix(a, b, (n - 1) as nat);
    }
}

/// A list of settings that is written out and parsed back is the same list.
pub proof fn lemma_settings_round_trip(settings: Seq<HttpSetting>)
    ensures
        spec_parse_settings(spec_settings_octets(settings), settings.len()) == settings,
    decreases settings.len(),
{
    if settings.len() > 0 {
        let front = settings.drop_last();
        let last = settings.last();
        let head = spec_settings_octets(front);
        let all = spec_settings_octets(settings);
        lemma_settings_round_trip(front);
        lemma_settings_octets_len(front);
        lemma_parse_settings_prefix(head, last.spec_octets(), front.len());
        let at = 6 * front.len() as int;
        assert(all.subrange(at, at + 2) =~= spec_u16_octets(last.spec_id()));
        assert(all.subrange(at + 2, at + 6) =~= spec_u32_octets(last.spec_val()));
        lemma_u16_round_trip(last.spec_id(), all, at);
        lemma_u32_round_trip(last.spec_val(), all, at + 2);
        assert(HttpSetting::spec_parse_at(all, at) == Some(last));
        assert(front.push(last) =~= settings);
    }
}

/// A `SETTINGS` frame: a list of settings, or the acknowledgement of one.
#[derive(Clone, Debug, PartialEq)]
pub struct SettingsFrame {
    /// The settings that the frame carries, in order.
    pub settings: Vec<HttpSetting>,
    /// The flags byte of the frame.
    pub flags: u8,
}

/// The mathematical model of a `SETTINGS` frame.
pub struct SettingsFrameView {
    pub settings: Seq<HttpSetting>,
    pub flags: u8,
}

impl SettingsFrameView {
    /// Whether the `ACK` flag is set.
    pub open spec fn is_ack(self) -> bool {
        flag_set(self.flags, 0x1)
    }

    /// The frame can stand on the wire: an acknowledgement carries no
    /// setting, and the payload length fits in 24 bits.
    pub open spec fn wf(self) -> bool {
        &&& self.is_ack() ==> self.settings.len() == 0
        &&& 6 * self.settings.len() < 0x100_0000
    }

    /// The raw frame that carries this frame.
    pub open spec fn raw(self) -> RawFrameView {
        RawFrameView {
            header: ((6 * self.settings.len()) as u32, SETTINGS_FRAME_TYPE, self.flags, 0),
            payload: spec_settings_octets(self.settings),
        }
    }
}

/// The `SETTINGS` frame that a raw frame holds: the type is `SETTINGS` and
/// the stream id is zero; an acknowledgement has an empty payload, any other
/// a payload of whole six-byte entries.
pub open spec fn spec_settings_from_raw(raw: RawFrameView) -> Option<SettingsFrameView> {
    if !raw.wf() || raw.header.1 != SETTINGS_FRAME_TYPE || raw.header.3 != 0 {
        None
    } else if flag_set(raw.header.2, 0x1) {
        if raw.payload.len() == 0 {
            Some(SettingsFrameView { settings: Seq::empty(), flags: raw.header.2 })
        } else {
            None
        }
    } else if raw.payload.len() % 6 == 0 {
        Some(
            SettingsFrameView {
                settings: spec_parse_settings(raw.payload, raw.payload.len() / 6),
                flags: raw.header.2,
            },
        )
    } else {
        None
    }
}

impl View for SettingsFrame {
    type V = SettingsFrameView;

    open spec fn view(&self) -> SettingsFrameView {
        SettingsFrameView { settings: self.settings@, flags: self.flags }
    }
}

impl SettingsFrame {
    /// Creates a new `SETTINGS` frame that carries no setting and is no
    /// acknowledgement.
    pub fn new() -> (r: SettingsFrame)
        ensures
            r@ == (SettingsFrameView { settings: Seq::empty(), flags: 0 }),
            !r@.is_ack(),
    {
        assert(!flag_set(0u8, 0x1u8)) by (bit_vector);
        SettingsFrame { settings: Vec::new(), flags: 0 }
    }

    /// Creates a new `SETTINGS` frame with the ACK flag set and no setting.
    pub fn new_ack() -> (r: SettingsFrame)
        ensures
            r@ == (SettingsFrameView { settings: Seq::empty(), flags: 1 }),
            r@.is_ack(),
    {
        assert(flag_set(1u8, 0x1u8)) by (bit_vector);
        SettingsFrame { settings: Vec::new(), flags: 1 }
    }

    /// Adds the given setting to the frame.
    pub fn add_setting(&mut self, setting: HttpSetting)
        ensures
            final(self)@ == (SettingsFrameView {
                settings: old(self)@.settings.push(setting),
                ..old(self)@
            }),
    {
        self.settings.push(setting);
    }

    /// Sets the ACK flag of the frame.
    pub fn set_ack(&mut self)
        ensures
            final(self)@ == (SettingsFrameView { flags: old(self).flags | 0x1, ..old(self)@ }),
            final(self)@.is_ack(),
    {
        let before: u8 = self.flags;
        self.flags = before | 0x1;
        assert(0x1u8 & (before | 0x1u8) != 0) by (bit_vector);
    }

    /// Returns whether the frame acknowledges the peer's settings.
    pub fn is_ack(&self) -> (r: bool)
        ensures
            r == self@.is_ack(),
    {
        self.is_set(SettingsFlag::Ack)
    }

    /// Whether the frame can stand on the wire.
    pub fn is_wf(&self) -> (r: bool)
        ensures
            r == self@.wf(),
    {
        if self.is_ack() && self.settings.len() != 0 {
            return false;
        }
        self.settings.len() < 0x100_0000 / 6 + 1
    }
}

impl Frame for SettingsFrame {
    type FlagType = SettingsFlag;

    open spec fn spec_flags(&self) -> u8 {
        self.flags
    }

    open spec fn spec_header(&self) -> FrameHeader {
        self@.raw().header
    }

    open spec fn spec_payload_len(&self) -> nat {
        6 * self@.settings.len()
    }

    fn from_raw(raw: &RawFrame) -> (r: Option<SettingsFrame>)
        ensures
            match r {
                Some(frame) => spec_settings_from_raw(raw@) == Some(frame@),
                None => spec_settings_from_raw(raw@).is_none(),
            },
    {
        if !raw.is_consistent() {
            return None;
        }
        let (_len, frame_type, flags, stream_id) = raw.header();
        if frame_type != SETTINGS_FRAME_TYPE {
            return None;
        }
        if stream_id != 0x0 {
            return None;
        }
        let payload: &[u8] = raw.payload();
        if (0x1u8 & flags) != 0 {
            if payload.len() != 0 {
                return None;
            }
            return Some(SettingsFrame { settings: Vec::new(), flags });
        }
        if payload.len() % 6 != 0 {
            return None;
        }
        let count: usize = payload.len() / 6;
        let mut settings: Vec<HttpSetting> = Vec::new();
        let mut i: usize = 0;
        while i < count
            invariant
                i <= count,
                count * 6 == payload@.len(),
                payload@.len() <= usize::MAX,
                settings@ == spec_parse_settings(payload@, i as nat),
            decreases count - i,
        {
            let id: u16 = unpack_u16(payload, 6 * i);
            let val: u32 = unpack_u32(payload, 6 * i + 2);
            match HttpSetting::from_id(id, val) {
                Some(setting) => {
                    settings.push(setting);
                },
                None => {},
            }
            i += 1;
        }
        Some(SettingsFrame { settings, flags })
    }

    fn is_set(&self, flag: SettingsFlag) -> (r: bool) {
        (flag.bitmask() & self.flags) != 0
    }

    fn get_stream_id(&self) -> (r: StreamId) {
        0
    }

    fn get_header(&self) -> (r: FrameHeader) {
        let len: u32 = (6 * self.settings.len()) as u32;
        (len, SETTINGS_FRAME_TYPE, self.flags, 0)
    }
}

impl FrameIR for SettingsFrame {
    open spec fn serializable(&self) -> bool {
        self@.wf()
    }

    open spec fn wire(&self) -> Seq<u8> {
        self@.raw().wire()
    }

    /// The header, and each setting in its turn.
    open spec fn pieces(&self) -> Seq<Seq<u8>> {
        seq![spec_pack_header(self.spec_header())] + Seq::new(
            self.settings@.len(),
            |i: int| self.settings@[i].spec_octets(),
        )
    }

    fn serialize_into<B: FrameBuilder>(self, builder: &mut B) -> (r: HttpResult<()>) {
        if !self.is_wf() {
            return Err(HttpError::MalformedFrame);
        }
        let ghost start = builder.written();
        let ghost all = self.pieces();
        assert(all.take(0) =~= Seq::<Seq<u8>>::empty());
        let ghost mid = *builder;
        let first = builder.write_header(self.get_header());
        proof {
            lemma_piece_written(*old(builder), all, 0, mid, first, *builder);
        }
        first?;
        let ghost head = builder.written();
        let mut i: usize = 0;
        while i < self.settings.len()
            invariant
                i <= self.settings.len(),
                self@.wf(),
                all == self.pieces(),
                builder.fallible() == old(builder).fallible(),
                builder.written() == head + spec_settings_octets(self.settings@.take(i as int)),
                writes_done(*old(builder), all.take(i + 1), Ok::<(), HttpError>(()), *builder),
            ensures
                i == self.settings.len(),
            decreases self.settings.len() - i,
        {
            let entry: [u8; 6] = self.settings[i].serialize();
            let ghost mid = *builder;
            let written = builder.write_all(entry.as_slice());
            proof {
                lemma_piece_written(*old(builder), all, i + 1, mid, written, *builder);
            }
            match written {
                Ok(_) => {},
                Err(e) => {
                    return Err(e);
                },
            }
            proof {
                let next = self.settings@.take(i + 1);
                assert(next.drop_last() =~= self.settings@.take(i as int));
                assert(next.last() == self.settings@[i as int]);
                assert(builder.written() =~= head + spec_settings_octets(next));
            }
            i += 1;
        }
        assert(self.settings@.take(i as int) =~= self.settings@);
        assert(all.take(i + 1) =~= all);
        assert(builder.written() =~= start + self.wire());
        Ok(())
    }
}

/// A well-formed `SETTINGS` frame that is written out and parsed back is
/// the same frame.
pub proof fn lemma_settings_frame_round_trip(frame: SettingsFrameView)
    requires
        frame.wf(),
    ensures
        frame.raw().wf(),
        spec_raw_from_buf(frame.raw().wire()) == Some(frame.raw()),
        spec_settings_from_raw(frame.raw()) == Some(frame),
{
    let n = frame.settings.len();
    let raw = frame.raw();
    lemma_settings_octets_len(frame.settings);
    assert(raw.payload.len() == 6 * n);
    assert((6 * n) % 6 == 0 && (6 * n) / 6 == n) by (nonlinear_arith);
    lemma_raw_frame_round_trip(raw);
    lemma_settings_round_trip(frame.settings);
    if frame.is_ack() {
        assert(frame.settings =~= Seq::empty());
        assert(spec_settings_from_raw(raw) == Some(frame));
    } else {
        assert(spec_parse_settings(raw.payload, n) == frame.settings);
        assert(spec_settings_from_raw(raw) == Some(frame));
    }
}

} // verus!
