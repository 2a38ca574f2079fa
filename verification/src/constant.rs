use vstd::prelude::*;

verus! {

/// A frame header is always exactly 16 bytes on the wire.
pub const HEADER_LENGTH: usize = 16;

/// Operation codes carried in the header's operation field.  Codes outside
/// this set pass through the codec uninterpreted: the header stores the raw
/// byte, so new operations never make a frame unparseable.
#[allow(non_camel_case_types)]
#[derive(Clone, Copy, Debug, PartialEq, Eq, Structural)]
pub enum Operation {
    OP_HEARTBEAT,
    OP_HEARTBEAT_REPLY,
    OP_SEND_SMS_REPLY,
    OP_AUTH,
    OP_AUTH_REPLY,
}

impl Operation {
    /// The numeric code of this operation on the wire.
    pub open spec fn spec_code(self) -> u8 {
        match self {
            Operation::OP_HEARTBEAT => 2,
            Operation::OP_HEARTBEAT_REPLY => 3,
            Operation::OP_SEND_SMS_REPLY => 5,
            Operation::OP_AUTH => 7,
            Operation::OP_AUTH_REPLY => 8,
        }
    }

    /// The numeric code of this operation on the wire.
    #[verifier::when_used_as_spec(spec_code)]
    pub fn code(self) -> (r: u8)
        ensures
            r == self.spec_code(),
    {
        match self {
            Operation::OP_HEARTBEAT => 2,
            Operation::OP_HEARTBEAT_REPLY => 3,
            Operation::OP_SEND_SMS_REPLY => 5,
            Operation::OP_AUTH => 7,
            Operation::OP_AUTH_REPLY => 8,
        }
    }
}

/// How a frame's body is encoded.  `RAW` bodies are one payload as-is,
/// `ZLIB` bodies are a compressed batch of inner frames, and every other
/// version byte maps to the distinct `UNKNOWN` variant, never silently to
/// one of the two known encodings.
#[allow(non_camel_case_types)]
#[derive(Clone, Copy, Debug, PartialEq, Eq, Structural)]
pub enum ProtocolVersion {
    RAW,
    ZLIB,
    UNKNOWN,
}

/// The version variant named by a version byte: 0 is `RAW`, 2 is `ZLIB`,
/// anything else is `UNKNOWN`.
pub open spec fn spec_version_of(code: u8) -> ProtocolVersion {
    if code == 0 {
        ProtocolVersion::RAW
    } else if code == 2 {
        ProtocolVersion::ZLIB
    } else {
        ProtocolVersion::UNKNOWN
    }
}

impl From<u8> for ProtocolVersion {
    fn from(val: u8) -> (r: ProtocolVersion) {
        if val == 0 {
            ProtocolVersion::RAW
        } else if val == 2 {
            ProtocolVersion::ZLIB
        } else {
            ProtocolVersion::UNKNOWN
        }
    }
}

impl vstd::std_specs::convert::FromSpecImpl<u8> for ProtocolVersion {
    open spec fn obeys_from_spec() -> bool {
        true
    }

    open spec fn from_spec(v: u8) -> ProtocolVersion {
        spec_version_of(v)
    }
}

} // verus!
