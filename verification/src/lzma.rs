//! Sessions around liblzma's raw LZMA1 encoder and decoder.
//!
//! Each session couples the outside engine with a ghost model: the bytes the
//! engine has consumed, the bytes it has emitted, and whether it has reached
//! stream end. The pump loops of the encoder and decoder are verified
//! against these contracts; only the engine calls inside the wrappers are
//! trusted.

use vstd::prelude::*;

use liblzma::stream::Action;
use liblzma::stream::Status;

verus! {

/// The raw LZMA1 stream that liblzma's encoder, built with the given preset
/// and dictionary size, emits for the given data. The engine is
/// deterministic: the result depends on these arguments alone, not on how
/// the data was chunked.
pub uninterp spec fn lzma1_encoded(preset: u32, dict: u32, data: Seq<u8>) -> Seq<u8>;

/// Whether a byte sequence is one complete raw LZMA1 stream for the given
/// dictionary size: decoding it reaches the end-of-stream marker exactly at
/// its last byte.
pub uninterp spec fn lzma1_stream_complete(dict: u32, data: Seq<u8>) -> bool;

/// The bytes that decoding one complete raw LZMA1 stream yields.
pub uninterp spec fn lzma1_decoded(dict: u32, data: Seq<u8>) -> Seq<u8>;

/// Whether the raw LZMA1 decoder, fed this byte sequence, reports a data
/// error before reaching a stream end.
pub uninterp spec fn lzma1_rejects(dict: u32, data: Seq<u8>) -> bool;

/// What holds of a stream the encoder produced for `data`: it is complete,
/// it decodes back to `data`, no proper prefix of it is already complete,
/// and the decoder rejects none of its prefixes.
pub open spec fn encoded_stream_facts(dict: u32, c: Seq<u8>, data: Seq<u8>) -> bool {
    &&& lzma1_stream_complete(dict, c)
    &&& lzma1_decoded(dict, c) == data
    &&& forall|k: int| 0 <= k < c.len() ==> !lzma1_stream_complete(dict, #[trigger] c.take(k))
    &&& forall|k: int| 0 <= k <= c.len() ==> !lzma1_rejects(dict, #[trigger] c.take(k))
}

/// liblzma's streaming engine state.
#[verifier::external_type_specification]
#[verifier::external_body]
pub struct ExStream(liblzma::stream::Stream);

/// liblzma's error code for a failed engine operation.
#[verifier::external_type_specification]
#[verifier::external_body]
pub struct ExStreamError(liblzma::stream::Error);

/// The ghost model of a compression session.
pub struct EncoderModel {
    /// The preset the engine was built with.
    pub preset: u32,
    /// The dictionary size the engine was built with.
    pub dict: u32,
    /// All input bytes the engine has consumed so far.
    pub consumed: Seq<u8>,
    /// All output bytes the engine has emitted so far.
    pub produced: Seq<u8>,
    /// Whether the engine has signalled stream end.
    pub finished: bool,
    /// An upper bound on the emit-only calls still possible before more
    /// input is consumed: what the engine can still emit from the input it
    /// has already consumed is a fixed finite sequence.
    pub fuel: nat,
}

/// A raw LZMA1 compression session: the engine plus the ghost tallies of
/// what it has consumed and emitted.
pub struct LzmaEncoder {
    stream: liblzma::stream::Stream,
    model: Ghost<EncoderModel>,
}

impl View for LzmaEncoder {
    type V = EncoderModel;

    closed spec fn view(&self) -> EncoderModel {
        self.model@
    }
}

/// Relies on liblzma's `LzmaOptions::new_preset`, `LzmaOptions::dict_size`,
/// `Filters::lzma1` and `Stream::new_raw_encoder`: builds a fresh raw LZMA1
/// encoder engine with the given preset and dictionary size.
#[verifier::external_body]
fn new_raw_encoder_stream(preset: u32, dict_size: u32) -> Result<
    liblzma::stream::Stream,
    liblzma::stream::Error,
> {
    let mut options = liblzma::stream::LzmaOptions::new_preset(preset)?;
    options.dict_size(dict_size);
    let mut filters = liblzma::stream::Filters::new();
    filters.lzma1(&options);
    liblzma::stream::Stream::new_raw_encoder(&filters)
}

impl LzmaEncoder {
    /// A fresh compression session; the engine has consumed and emitted
    /// nothing.
    pub(crate) fn new(preset: u32, dict_size: u32) -> (r: Result<LzmaEncoder, liblzma::stream::Error>)
        ensures
            r matches Ok(s) ==> s@.preset == preset && s@.dict == dict_size && s@.consumed
                == Seq::<u8>::empty() && s@.produced == Seq::<u8>::empty() && !s@.finished,
    {
        match new_raw_encoder_stream(preset, dict_size) {
            Ok(stream) => Ok(
                LzmaEncoder {
                    stream,
                    model: Ghost(
                        EncoderModel {
                            preset,
                            dict: dict_size,
                            consumed: Seq::empty(),
                            produced: Seq::empty(),
                            finished: false,
                            fuel: arbitrary(),
                        },
                    ),
                },
            ),
            Err(e) => Err(e),
        }
    }

    /// One engine step. Relies on liblzma's `Stream::process` with
    /// `Action::Run` or `Action::Finish` and its `total_in` / `total_out`
    /// counters: the engine consumes a prefix of `input` (its length is
    /// returned), appends what it emits to `out`, and returns whether it
    /// signalled stream end. `lzma_code` returns only once it has exhausted
    /// the input, filled the output buffer, or finished, so each call either
    /// consumes everything offered, emits something, or ends the stream; in
    /// finish mode it no longer needs input. When it ends the stream, the
    /// whole emitted output is the raw LZMA1 stream for the whole consumed
    /// input: one complete stream, with no complete or rejected proper
    /// prefix, that decodes back to exactly the consumed bytes.
    #[verifier::external_body]
    pub(crate) fn process(&mut self, input: &[u8], finish: bool, out: &mut Vec<u8>) -> (r: Result<
        (usize, bool),
        liblzma::stream::Error,
    >)
        requires
            !old(self)@.finished,
            finish ==> input@.len() == 0,
        ensures
            final(self)@.preset == old(self)@.preset,
            final(self)@.dict == old(self)@.dict,
            r matches Err(_) ==> final(out)@ == old(out)@,
            r matches Ok(v) ==> {
                &&& v.0 <= input@.len()
                &&& final(self)@.consumed == old(self)@.consumed + input@.take(v.0 as int)
                &&& final(self)@.produced.len() >= old(self)@.produced.len()
                &&& final(self)@.produced.take(old(self)@.produced.len() as int) == old(
                    self,
                )@.produced
                &&& final(out)@ == old(out)@ + final(self)@.produced.skip(
                    old(self)@.produced.len() as int,
                )
                &&& final(self)@.finished == v.1
                &&& (v.1 ==> finish)
                &&& (v.1 ==> final(self)@.produced == lzma1_encoded(
                    old(self)@.preset,
                    old(self)@.dict,
                    final(self)@.consumed,
                ) && encoded_stream_facts(
                    old(self)@.dict,
                    final(self)@.produced,
                    final(self)@.consumed,
                ))
                &&& (v.1 || v.0 == input@.len() || final(self)@.produced.len() > old(
                    self,
                )@.produced.len())
                &&& (finish ==> (v.1 || final(self)@.produced.len() > old(self)@.produced.len()))
                &&& ((v.0 == 0 && final(self)@.produced.len() > old(self)@.produced.len() && !v.1)
                    ==> final(self)@.fuel < old(self)@.fuel)
            },
    {
        let mut buf = [0u8; 4096];
        let (before_in, before_out) = (self.stream.total_in(), self.stream.total_out());
        let action = if finish { Action::Finish } else { Action::Run };
        let status = self.stream.process(input, &mut buf, action)?;
        let read = (self.stream.total_in() - before_in) as usize;
        let written = (self.stream.total_out() - before_out) as usize;
        out.extend_from_slice(&buf[..written]);
        Ok((read, status == Status::StreamEnd))
    }
}

/// The ghost model of a decompression session.
pub struct DecoderModel {
    /// The dictionary size the engine was built with.
    pub dict: u32,
    /// All compressed bytes the engine has consumed so far.
    pub consumed: Seq<u8>,
    /// All decoded bytes the engine has emitted so far.
    pub produced: Seq<u8>,
    /// Whether the engine has reached the end-of-stream marker.
    pub finished: bool,
    /// An upper bound on the emit-only calls still possible before more
    /// input is consumed: what the engine can still emit from the input it
    /// has already consumed is a fixed finite sequence.
    pub fuel: nat,
}

/// A raw LZMA1 decompression session: the engine plus the ghost tallies of
/// what it has consumed and emitted.
pub struct LzmaDecoder {
    stream: liblzma::stream::Stream,
    model: Ghost<DecoderModel>,
}

impl View for LzmaDecoder {
    type V = DecoderModel;

    closed spec fn view(&self) -> DecoderModel {
        self.model@
    }
}

/// Relies on liblzma's `LzmaOptions::new_preset`, `LzmaOptions::dict_size`,
/// `Filters::lzma1` and `Stream::new_raw_decoder`: builds a fresh raw LZMA1
/// decoder engine for the given dictionary size (over the default preset's
/// literal and position parameters, which every preset shares).
#[verifier::external_body]
fn new_raw_decoder_stream(dict_size: u32) -> Result<
    liblzma::stream::Stream,
    liblzma::stream::Error,
> {
    let mut options = liblzma::stream::LzmaOptions::new_preset(6)?;
    options.dict_size(dict_size);
    let mut filters = liblzma::stream::Filters::new();
    filters.lzma1(&options);
    liblzma::stream::Stream::new_raw_decoder(&filters)
}

impl LzmaDecoder {
    /// A fresh decompression session; the engine has consumed and emitted
    /// nothing.
    pub(crate) fn new(dict_size: u32) -> (r: Result<LzmaDecoder, liblzma::stream::Error>)
        ensures
            r matches Ok(s) ==> s@.dict == dict_size && s@.consumed == Seq::<u8>::empty()
                && s@.produced == Seq::<u8>::empty() && !s@.finished,
    {
        match new_raw_decoder_stream(dict_size) {
            Ok(stream) => Ok(
                LzmaDecoder {
                    stream,
                    model: Ghost(
                        DecoderModel {
                            dict: dict_size,
                            consumed: Seq::empty(),
                            produced: Seq::empty(),
                            finished: false,
                            fuel: arbitrary(),
                        },
                    ),
                },
            ),
            Err(e) => Err(e),
        }
    }

    /// One engine step. Relies on liblzma's `Stream::process` with
    /// `Action::Run` or `Action::Finish` and its `total_in` / `total_out`
    /// counters: the engine consumes a prefix of `input` (its length is
    /// returned), appends what it decodes to `out`, and returns whether it
    /// reached the end-of-stream marker. The decoder stops consuming at the
    /// first marker and rejects nothing it has consumed so far; when it
    /// returns without ending the stream despite empty input and free output
    /// space, the bytes consumed so far do not form a complete stream; when
    /// it ends the stream, it has emitted exactly the decoding of the
    /// complete stream it consumed, and no extension of a completed stream
    /// is ever rejected.
    #[verifier::external_body]
    pub(crate) fn process(&mut self, input: &[u8], finish: bool, out: &mut Vec<u8>) -> (r: Result<
        (usize, bool),
        liblzma::stream::Error,
    >)
        requires
            !old(self)@.finished,
            finish ==> input@.len() == 0,
        ensures
            final(self)@.dict == old(self)@.dict,
            r matches Err(_) ==> final(out)@ == old(out)@,
            r matches Ok(v) ==> {
                &&& v.0 <= input@.len()
                &&& final(self)@.consumed == old(self)@.consumed + input@.take(v.0 as int)
                &&& final(self)@.produced.len() >= old(self)@.produced.len()
                &&& final(self)@.produced.take(old(self)@.produced.len() as int) == old(
                    self,
                )@.produced
                &&& final(out)@ == old(out)@ + final(self)@.produced.skip(
                    old(self)@.produced.len() as int,
                )
                &&& final(self)@.finished == v.1
                &&& !lzma1_rejects(old(self)@.dict, final(self)@.consumed)
                &&& forall|k: int|
                    0 <= k < final(self)@.consumed.len() ==> !lzma1_stream_complete(
                        old(self)@.dict,
                        #[trigger] final(self)@.consumed.take(k),
                    )
                &&& (v.1 ==> lzma1_stream_complete(old(self)@.dict, final(self)@.consumed)
                    && final(self)@.produced == lzma1_decoded(
                    old(self)@.dict,
                    final(self)@.consumed,
                ) && forall|ext: Seq<u8>|
                    !lzma1_rejects(old(self)@.dict, #[trigger] (final(self)@.consumed + ext)))
                &&& ((!v.1 && input@.len() == 0 && final(self)@.produced.len() == old(
                    self,
                )@.produced.len()) ==> !lzma1_stream_complete(
                    old(self)@.dict,
                    final(self)@.consumed,
                ))
                &&& (v.1 || v.0 == input@.len() || final(self)@.produced.len() > old(
                    self,
                )@.produced.len())
                &&& ((v.0 == 0 && final(self)@.produced.len() > old(self)@.produced.len() && !v.1)
                    ==> final(self)@.fuel < old(self)@.fuel)
            },
    {
        let mut buf = [0u8; 4096];
        let (before_in, before_out) = (self.stream.total_in(), self.stream.total_out());
        let action = if finish { Action::Finish } else { Action::Run };
        let status = self.stream.process(input, &mut buf, action)?;
        let read = (self.stream.total_in() - before_in) as usize;
        let written = (self.stream.total_out() - before_out) as usize;
        out.extend_from_slice(&buf[..written]);
        Ok((read, status == Status::StreamEnd))
    }
}

} // verus!
