use live_codec::constant::{Operation, ProtocolVersion, HEADER_LENGTH};
use live_codec::error::PacketError;
use live_codec::header::Header;
use live_codec::packet::{Packet, RawPacket};

use std::io::Write;

fn be32(x: u32) -> [u8; 4] {
    [(x >> 24) as u8, (x >> 16) as u8, (x >> 8) as u8, x as u8]
}

/// One wire frame: 16-byte header followed by the body.
fn frame(version: u8, operation: u8, sequence_id: u32, body: &[u8]) -> Vec<u8> {
    let total = (16 + body.len()) as u32;
    let mut out = Vec::new();
    out.extend_from_slice(&be32(total));
    out.extend_from_slice(&[0, 16, 0, version]);
    out.extend_from_slice(&[0, 0, 0, operation]);
    out.extend_from_slice(&be32(sequence_id));
    out.extend_from_slice(body);
    out
}

fn zlib_compress(data: &[u8]) -> Vec<u8> {
    let mut enc = flate2::write::ZlibEncoder::new(Vec::new(), flate2::Compression::default());
    enc.write_all(data).unwrap();
    enc.finish().unwrap()
}

#[test]
fn header_length_constant() {
    assert_eq!(HEADER_LENGTH, 16);
}

#[test]
fn operation_codes() {
    assert_eq!(Operation::OP_HEARTBEAT.code(), 2);
    assert_eq!(Operation::OP_HEARTBEAT_REPLY.code(), 3);
    assert_eq!(Operation::OP_SEND_SMS_REPLY.code(), 5);
    assert_eq!(Operation::OP_AUTH.code(), 7);
    assert_eq!(Operation::OP_AUTH_REPLY.code(), 8);
}

#[test]
fn version_from_code() {
    assert_eq!(ProtocolVersion::from(0u8), ProtocolVersion::RAW);
    assert_eq!(ProtocolVersion::from(2u8), ProtocolVersion::ZLIB);
    assert_eq!(ProtocolVersion::from(1u8), ProtocolVersion::UNKNOWN);
    assert_eq!(ProtocolVersion::from(16u8), ProtocolVersion::UNKNOWN);
}

#[test]
fn header_parse_fields() {
    let bytes: [u8; 16] = [0, 0, 0, 18, 0, 16, 0, 0, 0, 0, 0, 2, 0, 0, 0, 1];
    let h = Header::new(&bytes);
    assert_eq!(h.packet_length, 18);
    assert_eq!(h.header_length, 16);
    assert_eq!(h.version, 0);
    assert_eq!(h.operation, 2);
    assert_eq!(h.sequence_id, 1);
    assert_eq!(h.get_version(), ProtocolVersion::RAW);
}

#[test]
fn header_roundtrip() {
    let h = Header {
        packet_length: 0xDEAD_BEEF,
        header_length: 16,
        version: 2,
        operation: 8,
        sequence_id: 0x0102_0304,
    };
    let bytes = h.serialize();
    assert_eq!(bytes.len(), 16);
    let mut raw = [0u8; 16];
    raw.copy_from_slice(&bytes);
    let back = Header::new(&raw);
    assert_eq!(back, h);
}

#[test]
fn header_parse_short_is_malformed() {
    let bytes: Vec<u8> = vec![0, 0, 0, 18, 0, 16, 0, 0];
    assert_eq!(Header::parse(&bytes), Err(PacketError::MalformedHeader));
}

#[test]
fn single_raw_frame_decodes_to_one_packet() {
    let mut data: Vec<u8> = vec![0, 0, 0, 18, 0, 16, 0, 0, 0, 0, 0, 2, 0, 0, 0, 1];
    data.push(123);
    data.push(125);
    let packets = Packet::decode(&data).unwrap();
    assert_eq!(packets.len(), 1);
    let p = &packets[0];
    assert_eq!(p.header().operation, Operation::OP_HEARTBEAT.code());
    assert_eq!(p.header().sequence_id, 1);
    assert_eq!(p.body(), "{}");
}

#[test]
fn raw_packet_accessors() {
    let data = frame(0, 2, 7, b"hello");
    let rp = RawPacket::new(&data).unwrap();
    assert_eq!(rp.get_header().packet_length, 21);
    assert_eq!(rp.get_header().sequence_id, 7);
    assert_eq!(rp.get_body().as_slice(), b"hello");
    assert_eq!(rp.get_body_str().unwrap(), "hello");
}

#[test]
fn get_body_str_rejects_compressed_body() {
    let data = frame(2, 5, 0, b"\x01\x02\x03");
    let rp = RawPacket::new(&data).unwrap();
    assert_eq!(rp.get_body_str(), Err(PacketError::UnsupportedVersion));
}

#[test]
fn get_body_str_rejects_invalid_utf8() {
    let data = frame(0, 5, 0, &[0xff, 0xfe]);
    let rp = RawPacket::new(&data).unwrap();
    assert_eq!(rp.get_body_str(), Err(PacketError::InvalidEncoding));
}

#[test]
fn raw_packet_encode_is_header_plus_body() {
    let data = frame(0, 5, 9, b"abc");
    let rp = RawPacket::new(&data).unwrap();
    assert_eq!(rp.encode(), data);
}

#[test]
fn packet_new_from_raw_frame() {
    let data = frame(0, 8, 3, b"ok");
    let rp = RawPacket::new(&data).unwrap();
    let p = Packet::new(&rp).unwrap();
    assert_eq!(p.header().operation, 8);
    assert_eq!(p.body(), "ok");
}

#[test]
fn encode_decode_roundtrip() {
    let p = Packet::AuthPacket(String::from("{\"roomid\": 21}"));
    let bytes = p.encode();
    assert_eq!(bytes.len(), 16 + 14);
    let packets = Packet::decode(&bytes).unwrap();
    assert_eq!(packets.len(), 1);
    assert_eq!(packets[0].header(), p.header());
    assert_eq!(packets[0].body(), p.body());
}

#[test]
fn auth_packet_header_fields() {
    let p = Packet::AuthPacket(String::from("body"));
    let h = *p.header();
    assert_eq!(h.packet_length, 20);
    assert_eq!(h.header_length, 16);
    assert_eq!(h.version, 0);
    assert_eq!(h.operation, Operation::OP_AUTH.code());
    assert_eq!(h.sequence_id, 0);
    assert_eq!(p.body(), "body");
}

#[test]
fn heartbeat_reply_encodes_to_sixteen_bytes() {
    let p = Packet::HeartbeatReplyPacket();
    let bytes = p.encode();
    assert_eq!(bytes.len(), 16);
    assert_eq!(bytes[11], 3);
    assert_eq!(bytes, vec![0, 0, 0, 16, 0, 16, 0, 0, 0, 0, 0, 3, 0, 0, 0, 0]);
}

#[test]
fn compressed_batch_of_two_frames() {
    let f1 = frame(0, 5, 1, "{\"cmd\":\"DANMU_MSG\"}".as_bytes());
    let f2 = frame(0, 5, 2, "{\"cmd\":\"SEND_GIFT\"}".as_bytes());
    let mut batch = f1.clone();
    batch.extend_from_slice(&f2);
    let outer = frame(2, 5, 0, &zlib_compress(&batch));
    let packets = Packet::decode(&outer).unwrap();
    assert_eq!(packets.len(), 2);
    assert_eq!(packets[0].body(), "{\"cmd\":\"DANMU_MSG\"}");
    assert_eq!(packets[0].header().sequence_id, 1);
    assert_eq!(packets[1].body(), "{\"cmd\":\"SEND_GIFT\"}");
    assert_eq!(packets[1].header().sequence_id, 2);
    let inner_sum = packets[0].header().packet_length + packets[1].header().packet_length;
    assert_eq!(inner_sum as usize, batch.len());
}

#[test]
fn malformed_batch_zero_length_field() {
    let mut batch = frame(0, 5, 1, b"x");
    batch[0] = 0;
    batch[1] = 0;
    batch[2] = 0;
    batch[3] = 0;
    let outer = frame(2, 5, 0, &zlib_compress(&batch));
    assert_eq!(Packet::decode(&outer).unwrap_err(), PacketError::MalformedBatch);
}

#[test]
fn malformed_batch_overlong_length_field() {
    let mut batch = frame(0, 5, 1, b"x");
    batch[3] = 200;
    let outer = frame(2, 5, 0, &zlib_compress(&batch));
    assert_eq!(Packet::decode(&outer).unwrap_err(), PacketError::MalformedBatch);
}

#[test]
fn corrupt_compressed_body_fails_decompression() {
    let outer = frame(2, 5, 0, &[1, 2, 3, 4, 5]);
    assert_eq!(Packet::decode(&outer).unwrap_err(), PacketError::DecompressionFailed);
}

#[test]
fn batch_with_trailing_bytes_fails() {
    let mut batch = frame(0, 5, 1, b"{}");
    batch.extend_from_slice(&[0, 0]);
    let outer = frame(2, 5, 0, &zlib_compress(&batch));
    assert_eq!(Packet::decode(&outer).unwrap_err(), PacketError::TrailingBytes);
}

#[test]
fn batch_with_short_inner_frame_fails() {
    let batch: Vec<u8> = vec![0, 0, 0, 8, 0, 16, 0, 0];
    let outer = frame(2, 5, 0, &zlib_compress(&batch));
    assert_eq!(Packet::decode(&outer).unwrap_err(), PacketError::TruncatedInput);
}

#[test]
fn nested_compressed_frame_is_unsupported() {
    let inner = frame(2, 5, 1, &zlib_compress(&frame(0, 5, 1, b"{}")));
    let outer = frame(2, 5, 0, &zlib_compress(&inner));
    assert_eq!(Packet::decode(&outer).unwrap_err(), PacketError::UnsupportedVersion);
}

#[test]
fn truncated_input_never_panics() {
    for n in 0..16usize {
        let data: Vec<u8> = vec![0xAB; n];
        assert_eq!(Packet::decode(&data).unwrap_err(), PacketError::TruncatedInput);
    }
}

#[test]
fn unknown_version_is_rejected() {
    let data = frame(1, 5, 0, b"{}");
    assert_eq!(Packet::decode(&data).unwrap_err(), PacketError::UnsupportedVersion);
}

#[test]
fn raw_frame_with_invalid_utf8_body_fails() {
    let data = frame(0, 5, 0, &[0xC0, 0x80]);
    assert_eq!(Packet::decode(&data).unwrap_err(), PacketError::InvalidEncoding);
}

#[test]
fn decode_is_idempotent() {
    let f1 = frame(0, 5, 1, b"{\"a\":1}");
    let f2 = frame(0, 5, 2, b"{\"b\":2}");
    let mut batch = f1.clone();
    batch.extend_from_slice(&f2);
    let outer = frame(2, 5, 0, &zlib_compress(&batch));
    let first = Packet::decode(&outer).unwrap();
    let second = Packet::decode(&outer).unwrap();
    assert_eq!(first.len(), second.len());
    for (a, b) in first.iter().zip(second.iter()) {
        assert_eq!(a.header(), b.header());
        assert_eq!(a.body(), b.body());
    }
}
