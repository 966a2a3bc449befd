//! An implementation of the lzip container format: a framing layer that
//! wraps a raw LZMA1 compressed stream with a fixed header, a size and
//! checksum trailer, and strict validation rules.
//!
//! The crate offers an [`Encoder`] that frames a byte buffer as a single
//! lzip member and a [`Decoder`] that validates and unwraps such a member,
//! together with the dictionary-size codec the header uses and a closed
//! error taxonomy ([`LzipError`]).

use vstd::prelude::*;

pub mod crc;
pub mod decoder;
pub mod dict;
pub mod encoder;
pub mod error;
pub mod format;
pub mod lzma;

pub use crate::decoder::Decoder;
pub use crate::encoder::CompressionLevel;
pub use crate::encoder::Encoder;
pub use crate::error::LzipError;

verus! {

/// Smallest dictionary size the lzip format allows: 4 KiB.
pub const MIN_DICT_SIZE: u32 = 4096;

/// Largest dictionary size the lzip format allows: 512 MiB.
pub const MAX_DICT_SIZE: u32 = 536870912;

/// The version byte every member of this format carries.
pub const LZIP_VERSION: u8 = 1;

/// A dictionary size is valid when it lies in the closed range
/// [`MIN_DICT_SIZE`, `MAX_DICT_SIZE`].
pub open spec fn valid_dict_size(ds: u32) -> bool {
    MIN_DICT_SIZE <= ds <= MAX_DICT_SIZE
}

} // verus!

