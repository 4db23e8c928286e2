use solicit::http::connection::HttpFrame;
use solicit::http::frame::data::{DataFlag, DataFrame};
use solicit::http::frame::goaway::GoawayFrame;
use solicit::http::frame::headers::{HeadersFlag, HeadersFrame, StreamDependency};
use solicit::http::frame::ping::PingFrame;
use solicit::http::frame::rst_stream::RstStreamFrame;
use solicit::http::frame::settings::{HttpSetting, SettingsFrame};
use solicit::http::frame::window_update::WindowUpdateFrame;
use solicit::http::frame::{
    pack_header, parse_padded_payload, serialize_frame, unpack_header, Frame, FrameBuilder,
    FrameHeader, FrameIR, RawFrame,
};
use solicit::http::memory::BoundedBuffer;
use solicit::http::HttpError;

fn raw(header: FrameHeader, payload: Vec<u8>) -> RawFrame {
    RawFrame::with_payload(header, payload)
}

fn wire<F: FrameIR>(frame: F) -> Vec<u8> {
    serialize_frame(frame).expect("the frame can stand on the wire")
}

fn is_malformed(r: Result<HttpFrame, HttpError>) -> bool {
    matches!(r, Err(HttpError::MalformedFrame))
}

#[test]
fn test_pack_header_writes_big_endian_fields() {
    let bytes = pack_header(&(0x010203, 0x4, 0x5, 0x06070809));
    assert_eq!(bytes, [0x01, 0x02, 0x03, 0x04, 0x05, 0x06, 0x07, 0x08, 0x09]);
}

#[test]
fn test_pack_header_writes_reserved_bit_as_zero() {
    let bytes = pack_header(&(0, 0, 0, 0xffff_ffff));
    assert_eq!(bytes, [0, 0, 0, 0, 0, 0x7f, 0xff, 0xff, 0xff]);
}

#[test]
fn test_pack_header_keeps_three_length_bytes() {
    let bytes = pack_header(&(0x0100_0001, 0, 0, 0));
    assert_eq!(&bytes[..3], &[0, 0, 1]);
}

#[test]
fn test_unpack_header_reads_fields() {
    let header = unpack_header(&[0x00, 0x00, 0x08, 0x06, 0x01, 0x00, 0x00, 0x00, 0x03]);
    assert_eq!(header, (8, 0x6, 0x1, 3));
}

#[test]
fn test_unpack_header_ignores_reserved_bit() {
    let header = unpack_header(&[0xff, 0xff, 0xff, 0xff, 0xff, 0x80, 0x00, 0x00, 0x01]);
    assert_eq!(header, (0x00ff_ffff, 0xff, 0xff, 1));
}

#[test]
fn test_header_round_trip() {
    let header: FrameHeader = (0x00ab_cdef, 0x9, 0x25, 0x7fff_fffe);
    assert_eq!(unpack_header(&pack_header(&header)), header);
}

#[test]
fn test_raw_frame_from_buf_exact_length() {
    let frame = RawFrame::from_buf(&[0, 0, 2, 0x9, 0, 0, 0, 0, 1, 0xaa, 0xbb]).unwrap();
    assert_eq!(frame.header(), (2, 0x9, 0, 1));
    assert_eq!(frame.payload(), &[0xaa, 0xbb]);
    assert!(frame.is_consistent());
}

#[test]
fn test_raw_frame_from_buf_rejects_short_and_long_buffers() {
    assert!(RawFrame::from_buf(&[0, 0, 2, 0x9, 0, 0, 0, 0]).is_none());
    assert!(RawFrame::from_buf(&[0, 0, 2, 0x9, 0, 0, 0, 0, 1, 0xaa]).is_none());
    assert!(RawFrame::from_buf(&[0, 0, 2, 0x9, 0, 0, 0, 0, 1, 0xaa, 0xbb, 0xcc]).is_none());
    assert!(RawFrame::from_buf(&[]).is_none());
}

#[test]
fn test_raw_frame_round_trip() {
    let frame = raw((3, 0x42, 0x7, 9), vec![1, 2, 3]);
    let bytes = frame.serialize();
    assert_eq!(bytes, vec![0, 0, 3, 0x42, 0x7, 0, 0, 0, 9, 1, 2, 3]);
    assert_eq!(RawFrame::from_buf(&bytes), Some(frame));
}

#[test]
fn test_raw_frame_inconsistent_length() {
    assert!(!raw((4, 0, 0, 1), vec![1, 2, 3]).is_consistent());
    assert!(!raw((0, 0, 0, 0x8000_0000), vec![]).is_consistent());
    assert!(RawFrame::new((0, 0, 0, 1)).is_consistent());
}

#[test]
fn test_frame_builder_on_vec() {
    let mut buf: Vec<u8> = vec![0xee];
    buf.write_header((1, 2, 3, 4)).unwrap();
    buf.write_u32(0x0a0b0c0d).unwrap();
    buf.write_padding(3).unwrap();
    buf.write_all(&[9, 9]).unwrap();
    assert_eq!(
        buf,
        vec![0xee, 0, 0, 1, 2, 3, 0, 0, 0, 4, 0x0a, 0x0b, 0x0c, 0x0d, 0, 0, 0, 9, 9]
    );
}

#[test]
fn test_parse_padded_payload() {
    let (content, pad) = parse_padded_payload(&[2, 7, 8, 0, 0]).unwrap();
    assert_eq!(content, &[7, 8]);
    assert_eq!(pad, 2);
    let (content, pad) = parse_padded_payload(&[0]).unwrap();
    assert!(content.is_empty());
    assert_eq!(pad, 0);
    assert!(parse_padded_payload(&[]).is_none());
    assert!(parse_padded_payload(&[1]).is_none());
    assert!(parse_padded_payload(&[3, 1, 2]).is_none());
}

#[test]
fn test_data_frame_parse_plain() {
    let frame = DataFrame::from_raw(&raw((3, 0x0, 0x1, 5), vec![1, 2, 3])).unwrap();
    assert_eq!(frame.data, vec![1, 2, 3]);
    assert_eq!(frame.get_stream_id(), 5);
    assert!(frame.is_end_of_stream());
    assert!(!frame.is_padded());
    assert_eq!(frame.padding_len, None);
}

#[test]
fn test_data_frame_parse_padded() {
    let frame = DataFrame::from_raw(&raw((6, 0x0, 0x8, 1), vec![2, 9, 8, 7, 0, 0])).unwrap();
    assert_eq!(frame.data, vec![9, 8, 7]);
    assert_eq!(frame.padding_len, Some(2));
    assert!(frame.is_padded());
    assert!(!frame.is_end_of_stream());
}

#[test]
fn test_data_frame_malformed() {
    // stream id zero
    assert!(DataFrame::from_raw(&raw((1, 0x0, 0, 0), vec![1])).is_none());
    // wrong type
    assert!(DataFrame::from_raw(&raw((1, 0x1, 0, 1), vec![1])).is_none());
    // length does not match the payload
    assert!(DataFrame::from_raw(&raw((2, 0x0, 0, 1), vec![1])).is_none());
    // padding longer than the payload
    assert!(DataFrame::from_raw(&raw((2, 0x0, 0x8, 1), vec![2, 0])).is_none());
    // padded without a pad length
    assert!(DataFrame::from_raw(&raw((0, 0x0, 0x8, 1), vec![])).is_none());
}

#[test]
fn test_data_frame_serialize() {
    let mut frame = DataFrame::with_data(1, vec![1, 2, 3]);
    frame.set_flag(DataFlag::EndStream);
    assert_eq!(frame.payload_len(), Some(3));
    assert_eq!(frame.get_header(), (3, 0x0, 0x1, 1));
    assert_eq!(wire(frame), vec![0, 0, 3, 0, 1, 0, 0, 0, 1, 1, 2, 3]);
}

#[test]
fn test_data_frame_serialize_padded() {
    let mut frame = DataFrame::with_data(3, vec![5]);
    frame.set_padding(2);
    assert_eq!(frame.payload_len(), Some(4));
    assert_eq!(wire(frame), vec![0, 0, 4, 0, 8, 0, 0, 0, 3, 2, 5, 0, 0]);
}

#[test]
fn test_data_frame_round_trip() {
    let mut frame = DataFrame::with_data(77, vec![1, 2, 3, 4, 5]);
    frame.set_flag(DataFlag::EndStream);
    frame.set_padding(4);
    let bytes = wire(frame.clone());
    assert_eq!(HttpFrame::parse(&bytes).unwrap(), HttpFrame::DataFrame(frame));
}

#[test]
fn test_data_frame_on_stream_zero_cannot_be_serialized() {
    assert!(serialize_frame(DataFrame::new(0)).is_none());
    assert!(!DataFrame::new(0).is_wf());
    assert!(DataFrame::new(1).is_wf());
    let mut buf: Vec<u8> = Vec::new();
    assert!(matches!(DataFrame::new(0).serialize_into(&mut buf), Err(HttpError::MalformedFrame)));
    assert!(buf.is_empty());
}

#[test]
fn test_headers_frame_parse_plain() {
    let frame = HeadersFrame::from_raw(&raw((2, 0x1, 0x5, 1), vec![0x82, 0x84])).unwrap();
    assert_eq!(frame.header_fragment, vec![0x82, 0x84]);
    assert_eq!(frame.get_stream_id(), 1);
    assert!(frame.is_headers_end());
    assert!(frame.is_end_of_stream());
    assert_eq!(frame.stream_dep, None);
    assert_eq!(frame.padding_len, None);
}

#[test]
fn test_headers_frame_parse_with_priority_and_padding() {
    let payload = vec![1, 0x80, 0, 0, 3, 200, 0x82, 0];
    let frame = HeadersFrame::from_raw(&raw((8, 0x1, 0x2c, 5), payload)).unwrap();
    assert_eq!(frame.header_fragment, vec![0x82]);
    assert_eq!(frame.padding_len, Some(1));
    assert_eq!(frame.stream_dep, Some(StreamDependency::new(3, 200, true)));
    assert!(frame.is_headers_end());
    assert!(!frame.is_end_of_stream());
}

#[test]
fn test_headers_frame_malformed() {
    // stream id zero
    assert!(HeadersFrame::from_raw(&raw((1, 0x1, 0x4, 0), vec![0x82])).is_none());
    // priority block cut short
    assert!(HeadersFrame::from_raw(&raw((4, 0x1, 0x24, 1), vec![0, 0, 0, 1])).is_none());
    // padding longer than the payload
    assert!(HeadersFrame::from_raw(&raw((2, 0x1, 0x8, 1), vec![5, 0])).is_none());
    // wrong type
    assert!(HeadersFrame::from_raw(&raw((1, 0x0, 0x4, 1), vec![0x82])).is_none());
}

#[test]
fn test_stream_dependency_round_trip() {
    let dep = StreamDependency::new(0x0102_0304, 7, true);
    let bytes = dep.serialize();
    assert_eq!(bytes, [0x81, 0x02, 0x03, 0x04, 7]);
    assert_eq!(StreamDependency::parse(&bytes), dep);
    let dep = StreamDependency::new(9, 255, false);
    assert_eq!(dep.serialize(), [0, 0, 0, 9, 255]);
    assert_eq!(StreamDependency::parse(&dep.serialize()), dep);
}

#[test]
fn test_headers_frame_round_trip() {
    let mut frame = HeadersFrame::with_dependency(vec![1, 2, 3], 9, StreamDependency::new(7, 16, false));
    frame.set_flag(HeadersFlag::EndHeaders);
    frame.set_flag(HeadersFlag::EndStream);
    frame.set_padding(3);
    let bytes = wire(frame.clone());
    assert_eq!(
        bytes,
        vec![0, 0, 12, 1, 0x2d, 0, 0, 0, 9, 3, 0, 0, 0, 7, 16, 1, 2, 3, 0, 0, 0]
    );
    assert_eq!(HttpFrame::parse(&bytes).unwrap(), HttpFrame::HeadersFrame(frame));
}

#[test]
fn test_settings_frame_parse() {
    let payload = vec![0, 3, 0, 0, 0, 100, 0, 5, 0, 0, 0x40, 0];
    let frame = SettingsFrame::from_raw(&raw((12, 0x4, 0, 0), payload)).unwrap();
    assert!(!frame.is_ack());
    assert_eq!(
        frame.settings,
        vec![HttpSetting::MaxConcurrentStreams(100), HttpSetting::MaxFrameSize(0x4000)]
    );
}

#[test]
fn test_settings_frame_parse_skips_unknown_ids() {
    let payload = vec![0, 9, 0, 0, 0, 1, 0, 1, 0, 0, 0x10, 0, 0xff, 0xff, 0, 0, 0, 0];
    let frame = SettingsFrame::from_raw(&raw((18, 0x4, 0, 0), payload)).unwrap();
    assert_eq!(frame.settings, vec![HttpSetting::HeaderTableSize(0x1000)]);
}

#[test]
fn test_settings_frame_parse_ack() {
    let frame = SettingsFrame::from_raw(&raw((0, 0x4, 1, 0), vec![])).unwrap();
    assert!(frame.is_ack());
    assert!(frame.settings.is_empty());
}

#[test]
fn test_settings_frame_malformed() {
    // an acknowledgement with a payload
    assert!(SettingsFrame::from_raw(&raw((6, 0x4, 1, 0), vec![0, 1, 0, 0, 0, 1])).is_none());
    // a payload that is not whole entries
    assert!(SettingsFrame::from_raw(&raw((5, 0x4, 0, 0), vec![0, 1, 0, 0, 0])).is_none());
    // a stream id that is not zero
    assert!(SettingsFrame::from_raw(&raw((0, 0x4, 0, 1), vec![])).is_none());
    // wrong type
    assert!(SettingsFrame::from_raw(&raw((0, 0x6, 0, 0), vec![])).is_none());
}

#[test]
fn test_settings_frame_serialize() {
    let mut frame = SettingsFrame::new();
    frame.add_setting(HttpSetting::EnablePush(0));
    frame.add_setting(HttpSetting::InitialWindowSize(0x0001_0000));
    assert_eq!(frame.get_header(), (12, 0x4, 0, 0));
    let bytes = wire(frame.clone());
    assert_eq!(
        bytes,
        vec![0, 0, 12, 4, 0, 0, 0, 0, 0, 0, 2, 0, 0, 0, 0, 0, 4, 0, 1, 0, 0]
    );
    assert_eq!(HttpFrame::parse(&bytes).unwrap(), HttpFrame::SettingsFrame(frame));
}

#[test]
fn test_settings_ack_serialize() {
    assert_eq!(wire(SettingsFrame::new_ack()), vec![0, 0, 0, 4, 1, 0, 0, 0, 0]);
    let mut frame = SettingsFrame::new();
    frame.set_ack();
    assert!(frame.is_ack());
    assert_eq!(wire(frame), vec![0, 0, 0, 4, 1, 0, 0, 0, 0]);
}

#[test]
fn test_settings_ack_with_settings_cannot_be_serialized() {
    let mut frame = SettingsFrame::new_ack();
    frame.add_setting(HttpSetting::EnablePush(1));
    assert!(!frame.is_wf());
    assert!(serialize_frame(frame).is_none());
}

#[test]
fn test_http_setting_ids() {
    for id in 1u16..=6 {
        let setting = HttpSetting::from_id(id, 42).unwrap();
        assert_eq!(setting.get_id(), id);
        assert_eq!(setting.get_val(), 42);
        assert_eq!(HttpSetting::parse_setting(&setting.serialize()), Some(setting));
    }
    assert_eq!(HttpSetting::from_id(0, 1), None);
    assert_eq!(HttpSetting::from_id(7, 1), None);
    assert_eq!(HttpSetting::MaxHeaderListSize(0x01020304).serialize(), [0, 6, 1, 2, 3, 4]);
}

#[test]
fn test_ping_malformed() {
    // wrong length
    assert!(PingFrame::from_raw(&raw((7, 0x6, 0, 0), vec![0; 7])).is_none());
    assert!(PingFrame::from_raw(&raw((9, 0x6, 0, 0), vec![0; 9])).is_none());
    // a stream id that is not zero
    assert!(PingFrame::from_raw(&raw((8, 0x6, 0, 1), vec![0; 8])).is_none());
    // wrong type
    assert!(PingFrame::from_raw(&raw((8, 0x4, 0, 0), vec![0; 8])).is_none());
    // a payload that is shorter than the header says
    assert!(PingFrame::from_raw(&raw((8, 0x6, 0, 0), vec![0; 4])).is_none());
}

#[test]
fn test_ping_round_trip() {
    let frame = PingFrame::with_data(0x0102_0304_0506_0708);
    assert!(!frame.is_ack());
    assert_eq!(frame.get_header(), (8, 0x6, 0, 0));
    assert_eq!(frame.get_stream_id(), 0);
    let bytes = wire(frame);
    assert_eq!(bytes, vec![0, 0, 8, 6, 0, 0, 0, 0, 0, 1, 2, 3, 4, 5, 6, 7, 8]);
    assert_eq!(HttpFrame::parse(&bytes).unwrap(), HttpFrame::PingFrame(frame));
    assert_eq!(PingFrame::new(), PingFrame::with_data(0));
}

#[test]
fn test_goaway_parse_and_serialize() {
    let payload = vec![0x80, 0, 0, 7, 0, 0, 0, 2, b'h', b'i'];
    let frame = GoawayFrame::from_raw(&raw((10, 0x7, 0, 0), payload)).unwrap();
    assert_eq!(frame.last_stream_id(), 7);
    assert_eq!(frame.raw_error_code(), 2);
    assert_eq!(frame.debug_data(), b"hi");
    let bytes = wire(GoawayFrame::with_debug_data(7, 2, b"hi".to_vec()));
    assert_eq!(bytes, vec![0, 0, 10, 7, 0, 0, 0, 0, 0, 0, 0, 0, 7, 0, 0, 0, 2, b'h', b'i']);
    assert_eq!(HttpFrame::parse(&bytes).unwrap(), HttpFrame::GoawayFrame(frame));
    assert_eq!(wire(GoawayFrame::new(1, 0)).len(), 17);
}

#[test]
fn test_goaway_malformed() {
    assert!(GoawayFrame::from_raw(&raw((7, 0x7, 0, 0), vec![0; 7])).is_none());
    assert!(GoawayFrame::from_raw(&raw((8, 0x7, 0, 3), vec![0; 8])).is_none());
    assert!(GoawayFrame::from_raw(&raw((8, 0x8, 0, 0), vec![0; 8])).is_none());
}

#[test]
fn test_rst_stream_parse_and_serialize() {
    let frame = RstStreamFrame::from_raw(&raw((4, 0x3, 0, 5), vec![0, 0, 0, 8])).unwrap();
    assert_eq!(frame.raw_error_code(), 8);
    assert_eq!(frame.get_stream_id(), 5);
    assert_eq!(frame, RstStreamFrame::new(5, 8));
    let bytes = wire(frame);
    assert_eq!(bytes, vec![0, 0, 4, 3, 0, 0, 0, 0, 5, 0, 0, 0, 8]);
    assert_eq!(HttpFrame::parse(&bytes).unwrap(), HttpFrame::RstStreamFrame(frame));
}

#[test]
fn test_rst_stream_malformed() {
    assert!(RstStreamFrame::from_raw(&raw((4, 0x3, 0, 0), vec![0; 4])).is_none());
    assert!(RstStreamFrame::from_raw(&raw((3, 0x3, 0, 1), vec![0; 3])).is_none());
    assert!(RstStreamFrame::from_raw(&raw((5, 0x3, 0, 1), vec![0; 5])).is_none());
    assert!(serialize_frame(RstStreamFrame::new(0, 1)).is_none());
}

#[test]
fn test_window_update_parse_and_serialize() {
    let frame = WindowUpdateFrame::from_raw(&raw((4, 0x8, 0, 0), vec![0x80, 0, 1, 0])).unwrap();
    assert_eq!(frame.increment(), 256);
    assert_eq!(frame.get_stream_id(), 0);
    assert_eq!(frame, WindowUpdateFrame::for_connection(256));
    let frame = WindowUpdateFrame::for_stream(3, 1);
    let bytes = wire(frame);
    assert_eq!(bytes, vec![0, 0, 4, 8, 0, 0, 0, 0, 3, 0, 0, 0, 1]);
    assert_eq!(HttpFrame::parse(&bytes).unwrap(), HttpFrame::WindowUpdateFrame(frame));
}

#[test]
fn test_window_update_malformed() {
    // an increment of zero
    assert!(WindowUpdateFrame::from_raw(&raw((4, 0x8, 0, 1), vec![0, 0, 0, 0])).is_none());
    assert!(WindowUpdateFrame::from_raw(&raw((4, 0x8, 0, 1), vec![0x80, 0, 0, 0])).is_none());
    // wrong length
    assert!(WindowUpdateFrame::from_raw(&raw((3, 0x8, 0, 1), vec![0, 0, 1])).is_none());
    assert!(serialize_frame(WindowUpdateFrame::for_stream(1, 0)).is_none());
    assert!(serialize_frame(WindowUpdateFrame::for_stream(1, 0x8000_0000)).is_none());
}

#[test]
fn test_http_frame_from_raw_dispatches_on_type() {
    assert!(matches!(
        HttpFrame::from_raw(raw((0, 0x0, 0, 1), vec![])),
        Ok(HttpFrame::DataFrame(_))
    ));
    assert!(matches!(
        HttpFrame::from_raw(raw((0, 0x1, 0, 1), vec![])),
        Ok(HttpFrame::HeadersFrame(_))
    ));
    assert!(matches!(
        HttpFrame::from_raw(raw((4, 0x3, 0, 1), vec![0; 4])),
        Ok(HttpFrame::RstStreamFrame(_))
    ));
    assert!(matches!(
        HttpFrame::from_raw(raw((0, 0x4, 0, 0), vec![])),
        Ok(HttpFrame::SettingsFrame(_))
    ));
    assert!(matches!(
        HttpFrame::from_raw(raw((8, 0x6, 0, 0), vec![0; 8])),
        Ok(HttpFrame::PingFrame(_))
    ));
    assert!(matches!(
        HttpFrame::from_raw(raw((8, 0x7, 0, 0), vec![0; 8])),
        Ok(HttpFrame::GoawayFrame(_))
    ));
    assert!(matches!(
        HttpFrame::from_raw(raw((4, 0x8, 0, 0), vec![0, 0, 0, 1])),
        Ok(HttpFrame::WindowUpdateFrame(_))
    ));
}

#[test]
fn test_http_frame_unknown_type_passes_through() {
    let frame = HttpFrame::from_raw(raw((2, 0x9, 0x4, 1), vec![1, 2])).unwrap();
    assert_eq!(frame, HttpFrame::UnknownFrame(raw((2, 0x9, 0x4, 1), vec![1, 2])));
    let bytes = wire(frame);
    assert_eq!(bytes, vec![0, 0, 2, 9, 4, 0, 0, 0, 1, 1, 2]);
    assert!(matches!(HttpFrame::parse(&bytes), Ok(HttpFrame::UnknownFrame(_))));
}

#[test]
fn test_http_frame_malformed_is_an_error() {
    assert!(is_malformed(HttpFrame::from_raw(raw((0, 0x0, 0, 0), vec![]))));
    assert!(is_malformed(HttpFrame::from_raw(raw((0, 0x1, 0, 0), vec![]))));
    assert!(is_malformed(HttpFrame::from_raw(raw((3, 0x3, 0, 1), vec![0; 3]))));
    assert!(is_malformed(HttpFrame::from_raw(raw((1, 0x4, 0, 0), vec![0]))));
    assert!(is_malformed(HttpFrame::from_raw(raw((7, 0x6, 0, 0), vec![0; 7]))));
    assert!(is_malformed(HttpFrame::from_raw(raw((0, 0x7, 0, 0), vec![]))));
    assert!(is_malformed(HttpFrame::from_raw(raw((4, 0x8, 0, 0), vec![0; 4]))));
    assert!(is_malformed(HttpFrame::parse(&[0, 0, 1, 0, 0, 0, 0, 0, 1])));
    assert!(is_malformed(HttpFrame::parse(&[])));
}

/// The header of a frame can be had for a frame that cannot stand on the
/// wire, as long as the length of its payload fits in 24 bits.
#[test]
fn test_get_header_of_frames_that_cannot_be_serialized() {
    let mut data = DataFrame::with_data(0, vec![1, 2]);
    data.flags = 0x8;
    assert!(!data.is_wf());
    assert_eq!(data.get_header(), (2, 0x0, 0x8, 0));

    let headers = HeadersFrame::new(vec![0x82], 0x8000_0001);
    assert!(!headers.is_wf());
    assert_eq!(headers.get_header(), (1, 0x1, 0x0, 0x8000_0001));

    let mut settings = SettingsFrame::new_ack();
    settings.add_setting(HttpSetting::EnablePush(0));
    assert!(!settings.is_wf());
    assert_eq!(settings.get_header(), (6, 0x4, 0x1, 0));

    assert_eq!(RstStreamFrame::new(0, 1).get_header(), (4, 0x3, 0, 0));
    assert_eq!(WindowUpdateFrame::for_stream(3, 0).get_header(), (4, 0x8, 0, 3));
}

/// A frame is written piece by piece, and the first write that fails ends
/// the work: its error comes back and nothing is written after it.
#[test]
fn test_failed_write_ends_the_serialization() {
    let mut frame = DataFrame::with_data(1, vec![1, 2, 3, 4, 5]);
    frame.set_padding(1);

    // Room for the header and the pad length; the data does not fit, the
    // padding would.
    let mut builder = BoundedBuffer::new(11);
    let r = frame.clone().serialize_into(&mut builder);
    assert!(matches!(r, Err(HttpError::IoError(_))));
    assert_eq!(builder.bytes, vec![0, 0, 7, 0, 8, 0, 0, 0, 1, 1]);

    // Not even room for the header.
    let mut builder = BoundedBuffer::new(8);
    let r = frame.clone().serialize_into(&mut builder);
    assert!(matches!(r, Err(HttpError::IoError(_))));
    assert!(builder.bytes.is_empty());

    // Room for all of it.
    let mut builder = BoundedBuffer::new(16);
    frame.serialize_into(&mut builder).unwrap();
    assert_eq!(builder.bytes, vec![0, 0, 7, 0, 8, 0, 0, 0, 1, 1, 1, 2, 3, 4, 5, 0]);
}

#[test]
fn test_failed_write_ends_the_serialization_of_a_ping() {
    let mut builder = BoundedBuffer::new(12);
    let r = PingFrame::with_data(0x0102_0304_0506_0708).serialize_into(&mut builder);
    assert!(matches!(r, Err(HttpError::IoError(_))));
    assert_eq!(builder.bytes, vec![0, 0, 8, 6, 0, 0, 0, 0, 0]);

    let mut builder = BoundedBuffer::new(13);
    let r = PingFrame::with_data(0x0102_0304_0506_0708).serialize_into(&mut builder);
    assert!(matches!(r, Err(HttpError::IoError(_))));
    assert_eq!(builder.bytes, vec![0, 0, 8, 6, 0, 0, 0, 0, 0, 1, 2, 3, 4]);

    let mut builder = BoundedBuffer::new(17);
    PingFrame::with_data(0x0102_0304_0506_0708).serialize_into(&mut builder).unwrap();
    assert_eq!(builder.bytes, vec![0, 0, 8, 6, 0, 0, 0, 0, 0, 1, 2, 3, 4, 5, 6, 7, 8]);
}

#[test]
fn test_bounded_buffer_refuses_what_does_not_fit() {
    let mut builder = BoundedBuffer::new(3);
    builder.write_all(&[1, 2]).unwrap();
    assert!(matches!(builder.write_all(&[3, 4]), Err(HttpError::IoError(_))));
    assert_eq!(builder.bytes, vec![1, 2]);
    builder.write_all(&[3]).unwrap();
    assert_eq!(builder.bytes, vec![1, 2, 3]);
    assert!(matches!(builder.write_all(&[4]), Err(HttpError::IoError(_))));
    builder.write_all(&[]).unwrap();
    assert_eq!(builder.bytes, vec![1, 2, 3]);
}
