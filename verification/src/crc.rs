//! A running CRC32 accumulator over the bytes absorbed so far, backed by
//! the `crc32fast` crate.

use vstd::prelude::*;

verus! {

/// The CRC32 checksum of a byte sequence, as `crc32fast` computes it: a
/// function of the bytes alone.
pub uninterp spec fn crc32_of(data: Seq<u8>) -> u32;

/// The streaming checksum state of `crc32fast`.
#[verifier::external_type_specification]
#[verifier::external_body]
pub struct ExHasher(crc32fast::Hasher);

/// A running CRC32: the accumulator together with the bytes it has absorbed.
pub struct Crc32 {
    inner: crc32fast::Hasher,
    processed: Ghost<Seq<u8>>,
}

impl View for Crc32 {
    type V = Seq<u8>;

    /// The bytes the accumulator has absorbed so far.
    closed spec fn view(&self) -> Seq<u8> {
        self.processed@
    }
}

/// Relies on `crc32fast::Hasher::new`: a fresh accumulator that has absorbed
/// nothing.
#[verifier::external_body]
fn hasher_new() -> crc32fast::Hasher {
    crc32fast::Hasher::new()
}

impl Crc32 {
    /// A fresh accumulator; it has absorbed nothing.
    pub(crate) fn new() -> (r: Crc32)
        ensures
            r@ == Seq::<u8>::empty(),
    {
        Crc32 { inner: hasher_new(), processed: Ghost(Seq::empty()) }
    }

    /// Relies on `crc32fast::Hasher::update`: feeding bytes appends them to
    /// the absorbed stream.
    #[verifier::external_body]
    pub(crate) fn update(&mut self, data: &[u8])
        ensures
            final(self)@ == old(self)@ + data@,
    {
        self.inner.update(data);
    }

    /// Relies on `crc32fast::Hasher::finalize`: the result is the CRC32 of
    /// exactly the absorbed bytes.
    #[verifier::external_body]
    pub(crate) fn finalize(self) -> (r: u32)
        ensures
            r == crc32_of(self@),
    {
        self.inner.finalize()
    }
}

} // verus!
