use vstd::prelude::*;

use crate::constant::{spec_version_of, ProtocolVersion};
use crate::error::PacketError;

verus! {

/// Header bytes as laid out on the wire, before unpacking.
pub type RawHeader = [u8; 16];

/// The unpacked frame header.
///
/// On the wire the header is exactly 16 bytes, big-endian throughout:
/// bytes 0..4 `packet_length` (total frame length, header plus body),
/// bytes 4..6 `header_length` (the constant 16), bytes 6..8 `version`
/// (low byte significant), bytes 8..12 `operation` (low byte significant),
/// bytes 12..16 `sequence_id` (opaque).
#[derive(Debug, Copy, Clone, PartialEq, Eq, Structural)]
pub struct Header {
    pub packet_length: u32,
    pub header_length: u8,
    pub version: u8,
    pub operation: u8,
    pub sequence_id: u32,
}

/// The big-endian 32-bit value formed by four bytes, most significant first.
pub open spec fn spec_be32(b0: u8, b1: u8, b2: u8, b3: u8) -> u32 {
    ((b0 as u32) << 24) | ((b1 as u32) << 16) | ((b2 as u32) << 8) | (b3 as u32)
}

/// The four big-endian bytes of a 32-bit value, most significant first.
pub open spec fn spec_be32_bytes(x: u32) -> Seq<u8> {
    seq![
        ((x >> 24) & 0xff) as u8,
        ((x >> 16) & 0xff) as u8,
        ((x >> 8) & 0xff) as u8,
        (x & 0xff) as u8,
    ]
}

/// The header described by the first 16 bytes of a buffer: each field is
/// read from its declared byte range, and only the low byte of the
/// header-length, version and operation fields is kept.
pub open spec fn spec_parse(bytes: Seq<u8>) -> Header
    recommends
        bytes.len() >= 16,
{
    Header {
        packet_length: spec_be32(bytes[0], bytes[1], bytes[2], bytes[3]),
        header_length: bytes[5],
        version: bytes[7],
        operation: bytes[11],
        sequence_id: spec_be32(bytes[12], bytes[13], bytes[14], bytes[15]),
    }
}

/// The 16 wire bytes of a header.  The header-length field is always
/// written as the constant 16, and the high bytes of the version and
/// operation fields are always written as zero.
pub open spec fn spec_serialize(h: Header) -> Seq<u8> {
    spec_be32_bytes(h.packet_length) + seq![0u8, 16u8, 0u8, h.version, 0u8, 0u8, 0u8, h.operation]
        + spec_be32_bytes(h.sequence_id)
}

/// The big-endian 32-bit value formed by four bytes, most significant first.
#[verifier::when_used_as_spec(spec_be32)]
pub fn be32(b0: u8, b1: u8, b2: u8, b3: u8) -> (r: u32)
    ensures
        r == spec_be32(b0, b1, b2, b3),
{
    ((b0 as u32) << 24u32) | ((b1 as u32) << 16u32) | ((b2 as u32) << 8u32) | (b3 as u32)
}

impl Header {
    /// Unpacks the 16 header bytes into a `Header`, reading each field from
    /// its declared big-endian byte range.
    pub fn new(raw_header: &RawHeader) -> (h: Header)
        ensures
            h == spec_parse(raw_header@),
    {
        Header {
            packet_length: be32(raw_header[0], raw_header[1], raw_header[2], raw_header[3]),
            header_length: raw_header[5],
            version: raw_header[7],
            operation: raw_header[11],
            sequence_id: be32(raw_header[12], raw_header[13], raw_header[14], raw_header[15]),
        }
    }

    /// Parses the header at the front of a buffer; fails exactly when fewer
    /// than 16 bytes are supplied.
    pub fn parse(bytes: &Vec<u8>) -> (r: Result<Header, PacketError>)
        ensures
            bytes@.len() >= 16 ==> r == Ok::<Header, PacketError>(spec_parse(bytes@)),
            bytes@.len() < 16 ==> r == Err::<Header, PacketError>(PacketError::MalformedHeader),
    {
        if bytes.len() < 16 {
            Err(PacketError::MalformedHeader)
        } else {
            Ok(parse_prefix(bytes))
        }
    }

    /// Serializes the header to its 16 wire bytes.
    pub fn serialize(&self) -> (r: Vec<u8>)
        ensures
            r@ == spec_serialize(*self),
    {
        let mut r: Vec<u8> = Vec::new();
        r.push(((self.packet_length >> 24u32) & 0xff) as u8);
        r.push(((self.packet_length >> 16u32) & 0xff) as u8);
        r.push(((self.packet_length >> 8u32) & 0xff) as u8);
        r.push((self.packet_length & 0xff) as u8);
        r.push(0);
        r.push(16);
        r.push(0);
        r.push(self.version);
        r.push(0);
        r.push(0);
        r.push(0);
        r.push(self.operation);
        r.push(((self.sequence_id >> 24u32) & 0xff) as u8);
        r.push(((self.sequence_id >> 16u32) & 0xff) as u8);
        r.push(((self.sequence_id >> 8u32) & 0xff) as u8);
        r.push((self.sequence_id & 0xff) as u8);
        proof {
            assert(r@ =~= spec_serialize(*self));
        }
        r
    }

    /// The version variant named by this header's version byte.
    pub fn get_version(&self) -> (r: ProtocolVersion)
        ensures
            r == spec_version_of(self.version),
    {
        ProtocolVersion::from(self.version)
    }
}

/// The header at the front of a buffer that holds at least its 16 bytes.
pub(crate) fn parse_prefix(bytes: &Vec<u8>) -> (h: Header)
    requires
        bytes@.len() >= 16,
    ensures
        h == spec_parse(bytes@),
{
    Header {
        packet_length: be32(bytes[0], bytes[1], bytes[2], bytes[3]),
        header_length: bytes[5],
        version: bytes[7],
        operation: bytes[11],
        sequence_id: be32(bytes[12], bytes[13], bytes[14], bytes[15]),
    }
}

/// Parsing a serialized header yields the header back: the round trip holds
/// for every header whose header-length field is the wire constant 16, the
/// only value the serializer ever writes there.
pub proof fn lemma_header_roundtrip(h: Header)
    requires
        h.header_length == 16,
    ensures
        spec_parse(spec_serialize(h)) == h,
{
    let bytes = spec_serialize(h);
    assert(forall|x: u32|
        ((((x >> 24) & 0xff) as u8 as u32) << 24) | ((((x >> 16) & 0xff) as u8 as u32) << 16) | ((((
        x >> 8) & 0xff) as u8 as u32) << 8) | ((x & 0xff) as u8 as u32) == x) by (bit_vector);
    assert(spec_parse(bytes) == h);
}

} // verus!
