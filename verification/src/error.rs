use vstd::prelude::*;

verus! {

/// Why decoding an inbound buffer failed.  Every failure is a recoverable
/// value reported to the caller; no input makes the codec panic.
#[derive(Clone, Copy, Debug, PartialEq, Eq, Structural)]
pub enum PacketError {
    /// Fewer than 16 bytes were supplied where a full header was declared.
    MalformedHeader,
    /// The buffer ends before the fixed 16-byte header does.
    TruncatedInput,
    /// A raw body is not valid UTF-8 where text was expected.
    InvalidEncoding,
    /// The compressed body is a corrupt or incomplete zlib stream.
    DecompressionFailed,
    /// An inner length field is zero or would read past the end of the batch.
    MalformedBatch,
    /// Too few bytes remain in the batch to hold an inner length field.
    TrailingBytes,
    /// The version field names an encoding the codec does not support.
    UnsupportedVersion,
}

} // verus!
