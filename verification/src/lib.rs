//! Client-side wire codec for a binary, length-framed live-event protocol.
//!
//! A frame is a fixed 16-byte header followed by a body.  A Raw-version body
//! is one UTF-8 payload; a Compressed-version body is a zlib stream whose
//! decompression is a concatenation of complete inner frames.  The crate
//! parses and serializes headers, decodes inbound buffers into packets,
//! encodes outbound packets, and builds the two control messages
//! (authentication, heartbeat reply).  It also holds the string helpers used
//! when signing the initial handshake request.

pub mod constant;
pub mod error;
pub mod header;
pub mod packet;
pub mod sign;
