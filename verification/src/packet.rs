use vstd::prelude::*;

use vstd::slice::{slice_subrange, slice_to_vec};
use vstd::string::StrSliceExecFns;
use vstd::utf8::{
    decode_utf8, encode_utf8, encode_utf8_decode_utf8, encode_utf8_valid_utf8, valid_utf8,
};

use crate::constant::{spec_version_of, Operation, ProtocolVersion};
use crate::error::PacketError;
use crate::header::{be32, lemma_header_roundtrip, parse_prefix, spec_be32, spec_parse,
    spec_serialize, Header};

verus! {

/// The mathematical value of a decoded packet: its header and its text body.
pub struct PacketModel {
    pub header: Header,
    pub body: Seq<char>,
}

/// The mathematical value of a raw frame: its header and its body bytes.
pub struct RawPacketModel {
    pub header: Header,
    pub body: Seq<u8>,
}

/// What inflating a zlib stream yields: `None` for a corrupt or incomplete
/// stream, otherwise the decompressed bytes.  Inflation is a function of the
/// input bytes alone; its value on given bytes is not stated here.
pub uninterp spec fn zlib_inflate(bytes: Seq<u8>) -> Option<Seq<u8>>;

/// Relies on flate2's `read::ZlibDecoder` driven by `Read::read_to_end`: it
/// inflates the whole zlib stream in memory and fails exactly on a corrupt
/// or incomplete stream.  The outcome depends on the input bytes alone.
#[verifier::external_body]
fn zlib_decompress(data: &Vec<u8>) -> (r: Option<Vec<u8>>)
    ensures
        r matches Some(d) ==> zlib_inflate(data@) == Some(d@),
        r is None ==> zlib_inflate(data@) is None,
{
    let mut decoder = flate2::read::ZlibDecoder::new(data.as_slice());
    let mut out: Vec<u8> = Vec::new();
    match std::io::Read::read_to_end(&mut decoder, &mut out) {
        Ok(_) => Some(out),
        Err(_) => None,
    }
}

/// Relies on `String::from_utf8`: returns the text whose UTF-8 encoding is
/// the given bytes, and fails exactly when the bytes are not valid UTF-8.
#[verifier::external_body]
fn string_from_utf8(bytes: Vec<u8>) -> (r: Option<String>)
    ensures
        r matches Some(s) ==> valid_utf8(bytes@) && s@ == decode_utf8(bytes@),
        r is None ==> !valid_utf8(bytes@),
{
    match String::from_utf8(bytes) {
        Ok(s) => Some(s),
        Err(_) => None,
    }
}

/// The packet one complete frame stands for.  Only a raw-version frame
/// stands for a single packet, and only when its body is valid UTF-8; a
/// compressed or unrecognized version inside this position is unsupported.
pub open spec fn spec_frame_to_packet(h: Header, body: Seq<u8>) -> Result<PacketModel, PacketError> {
    if spec_version_of(h.version) == ProtocolVersion::RAW {
        if valid_utf8(body) {
            Ok(PacketModel { header: h, body: decode_utf8(body) })
        } else {
            Err(PacketError::InvalidEncoding)
        }
    } else {
        Err(PacketError::UnsupportedVersion)
    }
}

/// The packets framed in a decompressed batch: repeated length-prefixed
/// slicing from the front.  Each step reads the 4-byte big-endian length
/// field, takes exactly that many bytes as one inner frame, and decodes it;
/// a zero length field or one that runs past the buffer is a malformed
/// batch, and unframing ends exactly when the buffer is consumed.
pub open spec fn spec_unframe(buf: Seq<u8>) -> Result<Seq<PacketModel>, PacketError>
    decreases buf.len(),
{
    if buf.len() == 0 {
        Ok(seq![])
    } else if buf.len() < 4 {
        Err(PacketError::TrailingBytes)
    } else {
        let plen = spec_be32(buf[0], buf[1], buf[2], buf[3]) as int;
        if plen == 0 || plen > buf.len() {
            Err(PacketError::MalformedBatch)
        } else if plen < 16 {
            Err(PacketError::TruncatedInput)
        } else {
            let frame = buf.take(plen);
            match spec_frame_to_packet(spec_parse(frame), frame.skip(16)) {
                Ok(p) => match spec_unframe(buf.skip(plen)) {
                    Ok(rest) => Ok(seq![p] + rest),
                    Err(e) => Err(e),
                },
                Err(e) => Err(e),
            }
        }
    }
}

/// The packets a raw frame resolves to, per its version flag: a raw body is
/// one packet, a compressed body is inflated and unframed, and an unknown
/// version is rejected rather than guessed at.
pub open spec fn spec_resolve(frame: RawPacketModel) -> Result<Seq<PacketModel>, PacketError> {
    if spec_version_of(frame.header.version) == ProtocolVersion::RAW {
        match spec_frame_to_packet(frame.header, frame.body) {
            Ok(p) => Ok(seq![p]),
            Err(e) => Err(e),
        }
    } else if spec_version_of(frame.header.version) == ProtocolVersion::ZLIB {
        match zlib_inflate(frame.body) {
            Some(buf) => spec_unframe(buf),
            None => Err(PacketError::DecompressionFailed),
        }
    } else {
        Err(PacketError::UnsupportedVersion)
    }
}

/// What decoding an inbound buffer yields: the buffer is split into the
/// 16-byte header and the body, and the frame is resolved per its version.
pub open spec fn spec_decode(bytes: Seq<u8>) -> Result<Seq<PacketModel>, PacketError> {
    if bytes.len() < 16 {
        Err(PacketError::TruncatedInput)
    } else {
        spec_resolve(RawPacketModel { header: spec_parse(bytes), body: bytes.skip(16) })
    }
}

/// The wire bytes of a packet: its serialized header followed by the UTF-8
/// encoding of its body.
pub open spec fn spec_encode(p: PacketModel) -> Seq<u8> {
    spec_serialize(p.header) + encode_utf8(p.body)
}

/// The model of a decode result: the packets by their models, errors as
/// they are.
pub open spec fn spec_result_model(r: Result<Vec<Packet>, PacketError>) -> Result<
    Seq<PacketModel>,
    PacketError,
> {
    match r {
        Ok(v) => Ok(v.deep_view()),
        Err(e) => Err(e),
    }
}

/// A list of already-decoded packets followed by the rest of an unframing:
/// an error in the rest is the whole result.
pub open spec fn spec_concat_model(
    pre: Seq<PacketModel>,
    r: Result<Seq<PacketModel>, PacketError>,
) -> Result<Seq<PacketModel>, PacketError> {
    match r {
        Ok(s) => Ok(pre + s),
        Err(e) => Err(e),
    }
}

/// A frame paired with the body bytes that followed its header in the
/// source buffer.  Transient: it exists only between parsing and resolving.
#[derive(Debug, Clone)]
pub struct RawPacket {
    header: Header,
    body: Vec<u8>,
}

impl View for RawPacket {
    type V = RawPacketModel;

    closed spec fn view(&self) -> RawPacketModel {
        RawPacketModel { header: self.header, body: self.body@ }
    }
}

/// The decoded, application-facing message: a header and a text body.
#[derive(Debug, Clone)]
pub struct Packet {
    _header: Header,
    _body: String,
}

impl View for Packet {
    type V = PacketModel;

    closed spec fn view(&self) -> PacketModel {
        PacketModel { header: self._header, body: self._body@ }
    }
}

impl DeepView for Packet {
    type V = PacketModel;

    open spec fn deep_view(&self) -> PacketModel {
        self.view()
    }
}

impl RawPacket {
    /// Splits a buffer into the 16-byte header and the body that follows;
    /// fails with `TruncatedInput` exactly when fewer than 16 bytes are
    /// supplied.
    pub fn new(data: &Vec<u8>) -> (r: Result<RawPacket, PacketError>)
        ensures
            data@.len() < 16 ==> r == Err::<RawPacket, PacketError>(PacketError::TruncatedInput),
            data@.len() >= 16 ==> (r matches Ok(rp) && rp@.header == spec_parse(data@)
                && rp@.body == data@.skip(16)),
    {
        if data.len() < 16 {
            return Err(PacketError::TruncatedInput);
        }
        let header = parse_prefix(data);
        let body = slice_to_vec(slice_subrange(data.as_slice(), 16, data.len()));
        proof {
            assert(body@ =~= data@.skip(16));
        }
        Ok(RawPacket { header, body })
    }

    /// The body as text.  A raw or unknown-version body is returned as its
    /// UTF-8 decoding; a compressed body is not text, and either failure is
    /// reported as a value, never as a panic.
    pub fn get_body_str(&self) -> (r: Result<String, PacketError>)
        ensures
            spec_version_of(self@.header.version) == ProtocolVersion::ZLIB ==> r == Err::<
                String,
                PacketError,
            >(PacketError::UnsupportedVersion),
            spec_version_of(self@.header.version) != ProtocolVersion::ZLIB ==> (match r {
                Ok(s) => valid_utf8(self@.body) && s@ == decode_utf8(self@.body),
                Err(e) => !valid_utf8(self@.body) && e == PacketError::InvalidEncoding,
            }),
    {
        match self.header.get_version() {
            ProtocolVersion::ZLIB => Err(PacketError::UnsupportedVersion),
            _ => {
                match string_from_utf8(slice_to_vec(self.body.as_slice())) {
                    Some(s) => Ok(s),
                    None => Err(PacketError::InvalidEncoding),
                }
            },
        }
    }

    /// The body bytes that followed the header.
    pub fn get_body(&self) -> (r: &Vec<u8>)
        ensures
            r@ == self@.body,
    {
        &self.body
    }

    /// The parsed header.
    pub fn get_header(&self) -> (r: &Header)
        ensures
            *r == self@.header,
    {
        &self.header
    }

    /// Resolves the frame into the packets it carries, per its version flag.
    pub fn to_packet(&self) -> (r: Result<Vec<Packet>, PacketError>)
        ensures
            spec_result_model(r) == spec_resolve(self@),
    {
        match self.header.get_version() {
            ProtocolVersion::RAW => {
                match Packet::new(self) {
                    Ok(p) => {
                        let mut v: Vec<Packet> = Vec::new();
                        v.push(p);
                        proof {
                            assert(v.deep_view() =~= seq![p@]);
                        }
                        Ok(v)
                    },
                    Err(e) => Err(e),
                }
            },
            ProtocolVersion::ZLIB => {
                match zlib_decompress(&self.body) {
                    Some(body_data) => unframe(&body_data),
                    None => Err(PacketError::DecompressionFailed),
                }
            },
            ProtocolVersion::UNKNOWN => Err(PacketError::UnsupportedVersion),
        }
    }

    /// Serializes the frame back to wire bytes: the header's 16 bytes, then
    /// the body as it is.
    pub fn encode(&self) -> (r: Vec<u8>)
        ensures
            r@ == spec_serialize(self@.header) + self@.body,
    {
        let mut r = self.header.serialize();
        let mut body = slice_to_vec(self.body.as_slice());
        r.append(&mut body);
        r
    }
}

/// Splits a decompressed batch into its inner frames, front to back, and
/// decodes each one; any failure fails the whole batch.
fn unframe(buf: &Vec<u8>) -> (r: Result<Vec<Packet>, PacketError>)
    ensures
        spec_result_model(r) == spec_unframe(buf@),
{
    let mut result: Vec<Packet> = Vec::new();
    let mut offset: usize = 0;
    proof {
        assert(buf@.skip(0) =~= buf@);
        assert(result.deep_view() + spec_unframe(buf@)->Ok_0 =~= spec_unframe(buf@)->Ok_0);
    }
    while offset < buf.len()
        invariant
            offset <= buf@.len(),
            spec_unframe(buf@) == spec_concat_model(
                result.deep_view(),
                spec_unframe(buf@.skip(offset as int)),
            ),
        decreases buf@.len() - offset,
    {
        let ghost rest = buf@.skip(offset as int);
        let remaining = buf.len() - offset;
        if remaining < 4 {
            proof {
                assert(rest.len() == remaining);
            }
            return Err(PacketError::TrailingBytes);
        }
        let plen_word = be32(buf[offset], buf[offset + 1], buf[offset + 2], buf[offset + 3]);
        proof {
            assert(rest[0] == buf@[offset as int]);
            assert(rest[1] == buf@[offset + 1]);
            assert(rest[2] == buf@[offset + 2]);
            assert(rest[3] == buf@[offset + 3]);
        }
        let plen = plen_word as usize;
        if plen == 0 || plen > remaining {
            return Err(PacketError::MalformedBatch);
        }
        if plen < 16 {
            return Err(PacketError::TruncatedInput);
        }
        let frame = slice_to_vec(slice_subrange(buf.as_slice(), offset, offset + plen));
        proof {
            assert(frame@ =~= rest.take(plen as int));
        }
        let header = parse_prefix(&frame);
        let body = slice_to_vec(slice_subrange(frame.as_slice(), 16, frame.len()));
        proof {
            assert(body@ =~= frame@.skip(16));
        }
        let ghost old_models = result.deep_view();
        match frame_to_packet(header, body) {
            Ok(p) => {
                result.push(p);
                proof {
                    assert(result.deep_view() =~= old_models.push(p@));
                    assert(buf@.skip(offset + plen) =~= rest.skip(plen as int));
                    if spec_unframe(rest.skip(plen as int)) is Ok {
                        let tail = spec_unframe(rest.skip(plen as int))->Ok_0;
                        assert(old_models + (seq![p@] + tail) =~= old_models.push(p@) + tail);
                    }
                }
                offset = offset + plen;
            },
            Err(e) => {
                return Err(e);
            },
        }
    }
    proof {
        assert(buf@.skip(offset as int) =~= Seq::<u8>::empty());
        assert(result.deep_view() + Seq::<PacketModel>::empty() =~= result.deep_view());
    }
    Ok(result)
}

/// Builds the single packet one inner frame stands for: its parsed header
/// and the UTF-8 decoding of its body.
fn frame_to_packet(header: Header, body: Vec<u8>) -> (r: Result<Packet, PacketError>)
    ensures
        (match r {
            Ok(p) => spec_frame_to_packet(header, body@) == Ok::<PacketModel, PacketError>(p@),
            Err(e) => spec_frame_to_packet(header, body@) == Err::<PacketModel, PacketError>(e),
        }),
{
    if header.version != 0 {
        return Err(PacketError::UnsupportedVersion);
    }
    match string_from_utf8(body) {
        Some(s) => Ok(Packet { _header: header, _body: s }),
        None => Err(PacketError::InvalidEncoding),
    }
}

impl Packet {
    /// Decodes one inbound buffer into the packets it carries.  This is the
    /// single entry point for inbound data: a raw-version frame yields one
    /// packet, a compressed-version frame yields the packets of its batch in
    /// source order, and every malformed input yields an error, all or
    /// nothing.
    pub fn decode(data: &Vec<u8>) -> (r: Result<Vec<Packet>, PacketError>)
        ensures
            spec_result_model(r) == spec_decode(data@),
            data@.len() < 16 ==> r == Err::<Vec<Packet>, PacketError>(PacketError::TruncatedInput),
    {
        match RawPacket::new(data) {
            Ok(rp) => rp.to_packet(),
            Err(e) => Err(e),
        }
    }

    /// Builds the outbound authentication packet: raw version, auth
    /// operation, sequence zero, and a length field covering header and
    /// body.
    #[allow(non_snake_case)]
    pub fn AuthPacket(auth_body: String) -> (r: Packet)
        requires
            16 + encode_utf8(auth_body@).len() <= u32::MAX,
        ensures
            r@.header == (Header {
                packet_length: (16 + encode_utf8(auth_body@).len()) as u32,
                header_length: 16,
                version: 0,
                operation: 7,
                sequence_id: 0,
            }),
            r@.body == auth_body@,
    {
        let body_len = auth_body.as_str().len();
        Packet {
            _header: Header {
                packet_length: 16 + body_len as u32,
                header_length: 16,
                version: 0,
                operation: Operation::OP_AUTH.code(),
                sequence_id: 0,
            },
            _body: auth_body,
        }
    }

    /// Builds the outbound heartbeat reply: raw version, heartbeat-reply
    /// operation, sequence zero, empty body, length exactly the header's 16
    /// bytes.
    #[allow(non_snake_case)]
    pub fn HeartbeatReplyPacket() -> (r: Packet)
        ensures
            r@.header == (Header {
                packet_length: 16,
                header_length: 16,
                version: 0,
                operation: 3,
                sequence_id: 0,
            }),
            r@.body == Seq::<char>::empty(),
    {
        Packet {
            _header: Header {
                packet_length: 16,
                header_length: 16,
                version: 0,
                operation: Operation::OP_HEARTBEAT_REPLY.code(),
                sequence_id: 0,
            },
            _body: String::new(),
        }
    }

    /// Converts one parsed frame into the single packet it stands for.
    pub fn new(raw_packet: &RawPacket) -> (r: Result<Packet, PacketError>)
        ensures
            (match r {
                Ok(p) => spec_frame_to_packet(raw_packet@.header, raw_packet@.body)
                    == Ok::<PacketModel, PacketError>(p@),
                Err(e) => spec_frame_to_packet(raw_packet@.header, raw_packet@.body)
                    == Err::<PacketModel, PacketError>(e),
            }),
    {
        frame_to_packet(raw_packet.header, slice_to_vec(raw_packet.body.as_slice()))
    }

    /// The packet header.
    pub fn header(&self) -> (r: &Header)
        ensures
            *r == self@.header,
    {
        &self._header
    }

    /// The packet body as text.
    pub fn body(&self) -> (r: &String)
        ensures
            r@ == self@.body,
    {
        &self._body
    }

    /// Serializes the packet to wire bytes: the header's 16 bytes followed
    /// by the body's UTF-8 encoding; an empty body serializes to the header
    /// alone.
    pub fn encode(&self) -> (r: Vec<u8>)
        ensures
            r@ == spec_encode(self@),
    {
        let mut r = self._header.serialize();
        if !self._body.as_str().is_empty() {
            let mut body_bytes = self._body.as_str().as_bytes_vec();
            r.append(&mut body_bytes);
            proof {
                assert(r@ =~= spec_encode(self@));
            }
        } else {
            proof {
                assert(encode_utf8(self@.body) =~= Seq::<u8>::empty());
                assert(r@ =~= spec_encode(self@));
            }
        }
        r
    }
}

/// One complete, well-formed raw inner frame: at least a header long, its
/// length field counting the whole frame, raw version, and a UTF-8 body.
pub open spec fn spec_wf_raw_frame(f: Seq<u8>) -> bool {
    &&& f.len() >= 16
    &&& spec_parse(f).packet_length == f.len()
    &&& spec_parse(f).version == 0
    &&& valid_utf8(f.skip(16))
}

/// The packet a well-formed raw inner frame stands for.
pub open spec fn spec_frame_packet(f: Seq<u8>) -> PacketModel
    recommends
        spec_wf_raw_frame(f),
{
    PacketModel { header: spec_parse(f), body: decode_utf8(f.skip(16)) }
}

/// Decoding the encoding of a raw-version packet yields exactly that packet.
/// The round trip holds for every packet whose header names the raw encoding
/// and carries the wire-constant header length, the only headers the
/// library's constructors build.
pub proof fn lemma_encode_decode_roundtrip(p: PacketModel)
    requires
        p.header.version == 0,
        p.header.header_length == 16,
    ensures
        spec_decode(spec_encode(p)) == Ok::<Seq<PacketModel>, PacketError>(seq![p]),
{
    let bytes = spec_encode(p);
    lemma_header_roundtrip(p.header);
    assert(spec_serialize(p.header).len() == 16);
    assert(spec_parse(bytes) == spec_parse(spec_serialize(p.header)));
    assert(bytes.skip(16) =~= encode_utf8(p.body));
    encode_utf8_valid_utf8(p.body);
    encode_utf8_decode_utf8(p.body);
    assert(spec_frame_to_packet(p.header, encode_utf8(p.body)) == Ok::<PacketModel, PacketError>(
        PacketModel { header: p.header, body: p.body },
    ));
    assert(PacketModel { header: p.header, body: p.body } == p);
}

/// Unframing a batch that begins with one well-formed raw frame yields that
/// frame's packet followed by whatever unframing the rest of the batch
/// yields.
pub proof fn lemma_unframe_step(f: Seq<u8>, rest: Seq<u8>)
    requires
        spec_wf_raw_frame(f),
    ensures
        spec_unframe(f + rest) == spec_concat_model(seq![spec_frame_packet(f)], spec_unframe(rest)),
{
    let buf = f + rest;
    let plen = spec_parse(f).packet_length as int;
    assert(buf[0] == f[0] && buf[1] == f[1] && buf[2] == f[2] && buf[3] == f[3]);
    assert(buf.take(plen) =~= f);
    assert(buf.skip(plen) =~= rest);
    assert(spec_frame_to_packet(spec_parse(f), f.skip(16)) == Ok::<PacketModel, PacketError>(
        spec_frame_packet(f),
    ));
    if spec_unframe(rest) is Ok {
        assert(seq![spec_frame_packet(f)] + spec_unframe(rest)->Ok_0 == spec_unframe(buf)->Ok_0);
    }
}

/// A batch of exactly two well-formed raw frames decodes to exactly their
/// two packets in source order, and the frames' own length fields sum to
/// the length of the decompressed buffer.
pub proof fn lemma_batch_two_frames(f1: Seq<u8>, f2: Seq<u8>)
    requires
        spec_wf_raw_frame(f1),
        spec_wf_raw_frame(f2),
    ensures
        spec_unframe(f1 + f2) == Ok::<Seq<PacketModel>, PacketError>(
            seq![spec_frame_packet(f1), spec_frame_packet(f2)],
        ),
        spec_parse(f1).packet_length + spec_parse(f2).packet_length == (f1 + f2).len(),
{
    lemma_unframe_step(f2, Seq::<u8>::empty());
    assert(f2 + Seq::<u8>::empty() =~= f2);
    assert(seq![spec_frame_packet(f2)] + Seq::<PacketModel>::empty() =~= seq![
        spec_frame_packet(f2),
    ]);
    lemma_unframe_step(f1, f2);
    assert(seq![spec_frame_packet(f1)] + seq![spec_frame_packet(f2)] =~= seq![
        spec_frame_packet(f1),
        spec_frame_packet(f2),
    ]);
}

/// Decoding a compressed frame whose body inflates to two concatenated
/// well-formed raw frames yields exactly their two packets, in source order.
pub proof fn lemma_decode_batch_two_frames(bytes: Seq<u8>, f1: Seq<u8>, f2: Seq<u8>)
    requires
        bytes.len() >= 16,
        spec_parse(bytes).version == 2,
        zlib_inflate(bytes.skip(16)) == Some(f1 + f2),
        spec_wf_raw_frame(f1),
        spec_wf_raw_frame(f2),
    ensures
        spec_decode(bytes) == Ok::<Seq<PacketModel>, PacketError>(
            seq![spec_frame_packet(f1), spec_frame_packet(f2)],
        ),
{
    lemma_batch_two_frames(f1, f2);
}

/// A batch whose first length field is zero, or runs past the end of the
/// decompressed buffer, is a malformed batch; unframing rejects it rather
/// than spinning or reading out of bounds.
pub proof fn lemma_malformed_batch(buf: Seq<u8>)
    requires
        buf.len() >= 4,
        spec_be32(buf[0], buf[1], buf[2], buf[3]) == 0 || spec_be32(buf[0], buf[1], buf[2], buf[3])
            > buf.len(),
    ensures
        spec_unframe(buf) == Err::<Seq<PacketModel>, PacketError>(PacketError::MalformedBatch),
{
}

/// Any buffer shorter than the 16-byte header fails with `TruncatedInput`.
pub proof fn lemma_truncated_input(bytes: Seq<u8>)
    requires
        bytes.len() < 16,
    ensures
        spec_decode(bytes) == Err::<Seq<PacketModel>, PacketError>(PacketError::TruncatedInput),
{
}

/// Decoding is referentially transparent: the result is a function of the
/// input bytes alone, so any two results of decoding the same bytes are
/// equal.
pub proof fn lemma_decode_deterministic(
    bytes: Seq<u8>,
    r1: Result<Seq<PacketModel>, PacketError>,
    r2: Result<Seq<PacketModel>, PacketError>,
)
    requires
        r1 == spec_decode(bytes),
        r2 == spec_decode(bytes),
    ensures
        r1 == r2,
{
}

} // verus!
