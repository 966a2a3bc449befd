//! The closed error taxonomy of the library: every fallible operation
//! returns one of these kinds.

use vstd::prelude::*;

verus! {

/// std's classification of an I/O failure.
#[verifier::external_type_specification]
#[verifier::external_body]
pub struct ExIoErrorKind(std::io::ErrorKind);

/// Relies on `std::io::ErrorKind::UnexpectedEof`: the kind a reader reports
/// when fewer bytes are available than were asked for.
#[verifier::external_body]
pub(crate) fn unexpected_eof_kind() -> std::io::ErrorKind {
    std::io::ErrorKind::UnexpectedEof
}

/// An error raised while framing or unframing a member.
#[derive(Debug, PartialEq)]
pub enum LzipError {
    /// The member does not start with the four magic bytes.
    InvalidMagic,
    /// The member's version byte is not the one this format defines.
    UnsupportedVersion,
    /// The dictionary size is outside [4 KiB, 512 MiB].
    InvalidDictSize,
    /// The compressed stream ended before its end-of-stream marker.
    UnexpectedEndOfStream,
    /// The stored CRC32 differs from the checksum of the decoded data.
    InvalidCrc,
    /// The stored data size differs from the decoded byte count.
    InvalidDataSize,
    /// The stored member size differs from the member's real byte count,
    /// or a member's size cannot be stored in its 64-bit trailer field.
    InvalidMemberSize,
    /// The compression engine failed; the payload is its error code.
    StreamError(liblzma::stream::Error),
    /// An input or output operation failed; the payload is its kind.
    IoError(std::io::ErrorKind),
}

} // verus!
