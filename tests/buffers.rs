use aeron_archive::bytes::write_u32;
use aeron_archive::catalog_header_codec::{CatalogHeaderDecoder, CatalogHeaderEncoder};
use aeron_archive::codec::{
    encode_message, read_var_field, Field, MessageHeader, HEADER_LENGTH, SCHEMA_ID,
    SCHEMA_VERSION,
};
use aeron_archive::expandable_array_buffer::{ExpandableArrayBuffer, INITIAL_CAPACITY};
use aeron_archive::mark_file_header_codec::{MarkFileHeaderDecoder, MarkFileHeaderEncoder};
use aeron_archive::sbe::{ReadBuf, SbeErr, WriteBuf};

#[test]
fn array_expands_correctly() {
    let mut buffer = ExpandableArrayBuffer::new();
    assert_eq!(buffer.capacity(), INITIAL_CAPACITY);
    assert!(buffer.is_expandable());
    buffer.put_bytes(150, &[1, 2]);
    assert_eq!(buffer.capacity(), 192);
    assert_eq!(buffer.get_u8(150), 1);
    assert_eq!(buffer.get_u8(151), 2);
    assert_eq!(buffer.get_u8(152), 0);
}

#[test]
fn expansion_formula_values() {
    assert_eq!(ExpandableArrayBuffer::calculate_expansion(128, 200), 288);
    assert_eq!(ExpandableArrayBuffer::calculate_expansion(16, 100), 128);
    assert_eq!(ExpandableArrayBuffer::calculate_expansion(1000, 1001), 1500);
    assert_eq!(ExpandableArrayBuffer::calculate_expansion(256, 256), 256);
}

#[test]
fn growth_keeps_written_bytes() {
    let mut buffer = ExpandableArrayBuffer::with_capacity(64);
    buffer.put_bytes(0, &[9; 60]);
    assert_eq!(buffer.capacity(), 64);
    buffer.put_i64(100, 0x0102030405060708);
    assert_eq!(buffer.capacity(), 128);
    buffer.put_i32(300, -7);
    assert_eq!(buffer.capacity(), 432);
    for i in 0..60 {
        assert_eq!(buffer.get_u8(i), 9);
    }
    assert_eq!(buffer.get_i64(100), 0x0102030405060708);
    assert_eq!(buffer.get_i32(300), -7);
    assert_eq!(buffer.get_u8(108), 0);
}

#[test]
fn set_memory_fills_and_grows() {
    let mut buffer = ExpandableArrayBuffer::with_capacity(8);
    buffer.set_memory(4, 200, 0xab);
    assert_eq!(buffer.capacity(), 288);
    assert_eq!(buffer.get_u8(3), 0);
    assert_eq!(buffer.get_u8(4), 0xab);
    assert_eq!(buffer.get_u8(203), 0xab);
    assert_eq!(buffer.get_u8(204), 0);
}

#[test]
fn header_round_trip() {
    let cases = [(0u16, 0u16, 0u16, 0u16), (32, 1, 101, 7), (65535, 65535, 65535, 65535), (8, 300, 2, 1)];
    for (block_length, template_id, schema_id, version) in cases {
        let header = MessageHeader { block_length, template_id, schema_id, version };
        let mut buffer = ExpandableArrayBuffer::with_capacity(4);
        let end = header.encode(&mut buffer, 10);
        assert_eq!(end, 18);
        let decoded = MessageHeader::decode(buffer.as_slice(), 10);
        assert_eq!(decoded, header);
    }
}

#[test]
fn header_is_little_endian() {
    let header = MessageHeader::for_template(0x0102, 0x0304);
    let mut bytes = vec![0u8; 8];
    header.write_to(&mut bytes, 0);
    assert_eq!(bytes, vec![0x02, 0x01, 0x04, 0x03, 101, 0, 7, 0]);
    assert_eq!(header.schema_id, SCHEMA_ID);
    assert_eq!(header.version, SCHEMA_VERSION);
}

#[test]
fn message_layout() {
    let channel: &[u8] = b"aeron:ipc";
    let bytes = encode_message(61, &[Field::I64(5), Field::I32(-1)], &[channel]);
    assert_eq!(bytes.len(), HEADER_LENGTH + 12 + 4 + 9);
    assert_eq!(&bytes[0..8], &[12, 0, 61, 0, 101, 0, 7, 0]);
    assert_eq!(&bytes[8..16], &[5, 0, 0, 0, 0, 0, 0, 0]);
    assert_eq!(&bytes[16..20], &[0xff, 0xff, 0xff, 0xff]);
    assert_eq!(&bytes[20..24], &[9, 0, 0, 0]);
    assert_eq!(&bytes[24..], channel);
    assert_eq!(read_var_field(&bytes, 20), Some((24, 9)));
    assert_eq!(read_var_field(&bytes, 21), None);
}

#[test]
fn var_data_read_in_order_reproduces_bytes() {
    let long: Vec<u8> = (0..5000u32).map(|i| (i % 251) as u8).collect();
    let fields: Vec<Vec<u8>> = vec![vec![], vec![b'x'], long.clone(), b"/dev/shm/aeron".to_vec()];
    let mut encoder = MarkFileHeaderEncoder::new().wrap(WriteBuf::new(vec![0u8; 8 + 128 + 16 + 5015]), 8).header(0);
    encoder.control_channel(&fields[0]);
    encoder.local_control_channel(&fields[1]);
    encoder.events_channel(&fields[2]);
    encoder.aeron_directory(&fields[3]);
    assert_eq!(encoder.encoded_length(), 128 + 16 + 5015);
    let bytes = encoder.into_inner().into_inner();

    let mut decoder = MarkFileHeaderDecoder::default().header(ReadBuf::new(&bytes)).unwrap();
    let c0 = decoder.control_channel_decoder();
    let c1 = decoder.local_control_channel_decoder();
    let c2 = decoder.events_channel_decoder();
    let c3 = decoder.aeron_directory_decoder();
    assert_eq!(decoder.control_channel_slice(c0), &fields[0][..]);
    assert_eq!(decoder.local_control_channel_slice(c1), &fields[1][..]);
    assert_eq!(decoder.events_channel_slice(c2), &fields[2][..]);
    assert_eq!(decoder.aeron_directory_slice(c3), &fields[3][..]);
    assert_eq!(decoder.encoded_length(), 128 + 16 + 5015);
}

#[test]
fn mark_file_fixed_fields() {
    let mut encoder = MarkFileHeaderEncoder::new().wrap(WriteBuf::new(vec![0u8; 8 + 128]), 8).header(0);
    encoder.version(3);
    encoder.activity_timestamp(111);
    encoder.start_timestamp(222);
    encoder.pid(333);
    encoder.control_stream_id(10);
    encoder.local_control_stream_id(11);
    encoder.events_stream_id(30);
    encoder.header_length(0);
    encoder.error_buffer_length(4096);
    let bytes = encoder.into_inner().into_inner();
    let decoder = MarkFileHeaderDecoder::default().header(ReadBuf::new(&bytes)).unwrap();
    assert_eq!(decoder.acting_version, 1);
    assert_eq!(decoder.acting_block_length, 128);
    assert_eq!(decoder.version(), 3);
    assert_eq!(decoder.activity_timestamp(), 111);
    assert_eq!(decoder.start_timestamp(), 222);
    assert_eq!(decoder.pid(), 333);
    assert_eq!(decoder.control_stream_id(), 10);
    assert_eq!(decoder.local_control_stream_id(), 11);
    assert_eq!(decoder.events_stream_id(), 30);
    assert_eq!(decoder.header_length(), None);
    assert_eq!(decoder.error_buffer_length(), Some(4096));
    let old_version = MarkFileHeaderDecoder::default().wrap(ReadBuf::new(&bytes), 8, 128, 0);
    assert_eq!(old_version.error_buffer_length(), None);
}

#[test]
fn catalog_header_round_trip() {
    let mut encoder = CatalogHeaderEncoder::new().wrap(WriteBuf::new(vec![0u8; 40]), 8).header(0);
    encoder.version(2);
    encoder.length(1024);
    encoder.next_recording_id(77);
    encoder.alignment(64);
    encoder.reserved(-3);
    assert_eq!(encoder.encoded_length(), 32);
    let bytes = encoder.into_inner().into_inner();
    assert_eq!(&bytes[0..8], &[32, 0, 20, 0, 101, 0, 7, 0]);
    let decoder = CatalogHeaderDecoder::default().header(ReadBuf::new(&bytes)).unwrap();
    assert_eq!(decoder.version(), 2);
    assert_eq!(decoder.length(), 1024);
    assert_eq!(decoder.next_recording_id(), 77);
    assert_eq!(decoder.alignment(), 64);
    assert_eq!(decoder.reserved(), -3);
}

#[test]
fn decoder_refuses_wrong_template_and_short_buffer() {
    let mut bytes = vec![0u8; 40];
    MessageHeader::for_template(32, 21).write_to(&mut bytes, 0);
    assert_eq!(CatalogHeaderDecoder::default().header(ReadBuf::new(&bytes)).err(), Some(SbeErr::TemplateMismatch));
    let short = [0u8; 5];
    assert_eq!(CatalogHeaderDecoder::default().header(ReadBuf::new(&short)).err(), Some(SbeErr::OutOfBounds));
}

#[test]
fn read_and_write_buffers() {
    let mut w = WriteBuf::new(vec![0u8; 32]);
    w.put_u8_at(0, 0xfe);
    w.put_i8_at(1, -2);
    w.put_i16_at(2, -300);
    w.put_u16_at(4, 0xbeef);
    w.put_i32_at(6, -123456);
    w.put_u32_at(10, 0xdeadbeef);
    w.put_i64_at(14, -9_000_000_000);
    w.put_u64_at(22, u64::MAX - 1);
    assert_eq!(w.put_slice_at(30, &[7, 8]), 2);
    let bytes = w.into_inner();
    let r = ReadBuf::new(&bytes);
    assert_eq!(r.get_u8_at(0), 0xfe);
    assert_eq!(r.get_i8_at(1), -2);
    assert_eq!(r.get_i16_at(2), -300);
    assert_eq!(r.get_u16_at(4), 0xbeef);
    assert_eq!(r.get_i32_at(6), -123456);
    assert_eq!(r.get_u32_at(10), 0xdeadbeef);
    assert_eq!(r.get_i64_at(14), -9_000_000_000);
    assert_eq!(r.get_u64_at(22), u64::MAX - 1);
    assert_eq!(r.get_slice_at(30, 2), &[7, 8]);
    let mut v = vec![0u8; 6];
    write_u32(&mut v, 1, 0x01020304);
    assert_eq!(v, vec![0, 4, 3, 2, 1, 0]);
}

#[test]
fn header_fields_through_write_and_read_buffers() {
    for (bl, tid, sid, ver) in [(0u16, 0u16, 0u16, 0u16), (128, 200, 100, 1), (u16::MAX, 1, u16::MAX, 2)] {
        let mut w = WriteBuf::new(vec![0xaa; 20]);
        w.put_u16_at(5, bl);
        w.put_u16_at(7, tid);
        w.put_u16_at(9, sid);
        w.put_u16_at(11, ver);
        let bytes = w.into_inner();
        let r = ReadBuf::new(&bytes);
        assert_eq!((r.get_u16_at(5), r.get_u16_at(7), r.get_u16_at(9), r.get_u16_at(11)), (bl, tid, sid, ver));
        assert_eq!(bytes[4], 0xaa);
        assert_eq!(bytes[13], 0xaa);
    }
}

#[test]
fn decoder_made_by_new_then_wrapped() {
    let mut encoder = CatalogHeaderEncoder::new().wrap(WriteBuf::new(vec![0u8; 32]), 0);
    encoder.next_recording_id(9);
    let bytes = encoder.into_inner().into_inner();
    let decoder = CatalogHeaderDecoder::new(ReadBuf::new(&bytes));
    assert_eq!(decoder.encoded_length(), 0);
    let decoder = decoder.wrap(ReadBuf::new(&bytes), 0, 32, 7);
    assert_eq!(decoder.next_recording_id(), 9);
    assert_eq!(decoder.encoded_length(), 32);
}
