//! The compression pipeline: frames a byte buffer as one lzip member.

use vstd::prelude::*;
use vstd::bytes::u32_to_le_bytes;
use vstd::bytes::u64_to_le_bytes;
use vstd::slice::slice_subrange;

use crate::LZIP_VERSION;
use crate::MIN_DICT_SIZE;
use crate::crc::Crc32;
use crate::crc::crc32_of;
use crate::dict::frac_steps_exec;
use crate::dict::lemma_dict_size_round_trip;
use crate::dict::min_exponent_from_exec;
use crate::dict::representable_dict_size;
use crate::dict::spec_decode_dict_size;
use crate::dict::spec_encode_dict_size;
use crate::dict::sub_size;
use crate::error::LzipError;
use crate::format::decode_ok_spec;
use crate::format::header_bytes;
use crate::format::member_bytes;
use crate::format::member_data;
use crate::format::lemma_member_round_trip;
use crate::format::trailer_bytes;
use crate::lzma::LzmaEncoder;
use crate::lzma::encoded_stream_facts;
use crate::lzma::lzma1_encoded;
use crate::valid_dict_size;

verus! {

/// How hard the engine works on a member, and with which dictionary size.
#[derive(Copy, Clone)]
pub enum CompressionLevel {
    /// Fastest compression.
    Fastest,
    /// Fast compression.
    Fast,
    /// The default trade-off.
    Default,
    /// Densest compression.
    Maximum,
}

/// The engine preset a level selects.
pub open spec fn preset_of(level: CompressionLevel) -> u32 {
    match level {
        CompressionLevel::Fastest => 0,
        CompressionLevel::Fast => 3,
        CompressionLevel::Default => 6,
        CompressionLevel::Maximum => 9,
    }
}

/// The dictionary size a level selects.
pub open spec fn dict_size_of(level: CompressionLevel) -> u32 {
    match level {
        CompressionLevel::Fastest => 0x40000,
        CompressionLevel::Fast => 0x400000,
        CompressionLevel::Default => 0x800000,
        CompressionLevel::Maximum => 0x4000000,
    }
}

/// The member the encoder writes for `data` at the given level.
pub open spec fn encoded_member(level: CompressionLevel, data: Seq<u8>) -> Seq<u8> {
    member_bytes(
        spec_encode_dict_size(dict_size_of(level)),
        lzma1_encoded(preset_of(level), dict_size_of(level), data),
        data,
    )
}

/// Frames a byte buffer as one lzip member: header, raw LZMA1 stream,
/// trailer.
pub struct Encoder {
    /// The bytes to compress.
    pub input: Vec<u8>,
    /// The level the member is compressed at.
    pub compression_level: CompressionLevel,
    /// After a successful call: the CRC32 of the input.
    pub crc32: u32,
    /// After a successful call: the byte count of the input.
    pub uncompressed_size: u64,
    /// After a successful call: the byte count of the compressed stream.
    pub compressed_size: u64,
}

impl Encoder {
    /// An encoder over `input` at the default level.
    pub fn new(input: Vec<u8>) -> (r: Result<Encoder, LzipError>)
        ensures
            r matches Ok(e) && e.input@ == input@ && e.compression_level
                == CompressionLevel::Default && e.crc32 == 0 && e.uncompressed_size == 0
                && e.compressed_size == 0,
    {
        Self::new_with_level(input, CompressionLevel::Default)
    }

    /// An encoder over `input` at the given level. Every level selects a
    /// dictionary size inside the format's range, so construction succeeds.
    pub fn new_with_level(input: Vec<u8>, level: CompressionLevel) -> (r: Result<
        Encoder,
        LzipError,
    >)
        ensures
            r matches Ok(e) && e.input@ == input@ && e.compression_level == level && e.crc32 == 0
                && e.uncompressed_size == 0 && e.compressed_size == 0,
    {
        Ok(
            Encoder {
                input,
                compression_level: level,
                crc32: 0,
                uncompressed_size: 0,
                compressed_size: 0,
            },
        )
    }

    /// The dictionary size of this encoder's level; always in range.
    fn dict_size(&self) -> (r: u32)
        ensures
            r == dict_size_of(self.compression_level),
            valid_dict_size(r),
    {
        match self.compression_level {
            CompressionLevel::Fastest => 0x40000,
            CompressionLevel::Fast => 0x400000,
            CompressionLevel::Default => 0x800000,
            CompressionLevel::Maximum => 0x4000000,
        }
    }

    /// The engine preset of this encoder's level.
    fn preset(&self) -> (r: u32)
        ensures
            r == preset_of(self.compression_level),
    {
        match self.compression_level {
            CompressionLevel::Fastest => 0,
            CompressionLevel::Fast => 3,
            CompressionLevel::Default => 6,
            CompressionLevel::Maximum => 9,
        }
    }

    /// Encodes the dictionary size as the single header byte. On every
    /// representable size — every level's size among them — the byte decodes
    /// back to exactly the size that was encoded.
    pub fn encode_dict_size(dict_size: u32) -> (code: u8)
        requires
            valid_dict_size(dict_size),
        ensures
            code == spec_encode_dict_size(dict_size),
            representable_dict_size(dict_size) ==> spec_decode_dict_size(code) == dict_size,
    {
        let e = min_exponent_from_exec(dict_size, 12);
        let code: u8 = if dict_size > MIN_DICT_SIZE {
            assert(1u32 << e >= 16 && 1u32 << e >= 4096) by (bit_vector)
                requires
                    12 <= e <= 31,
            ;
            let frac = frac_steps_exec(dict_size, 1u32 << e, 7);
            (e + 32 * frac) as u8
        } else {
            e as u8
        };
        proof {
            if representable_dict_size(dict_size) {
                lemma_dict_size_round_trip(dict_size);
            }
        }
        code
    }

    /// Writes the six header bytes: magic, version, encoded dictionary size.
    fn write_header(&self, output: &mut Vec<u8>)
        ensures
            final(output)@ == old(output)@ + header_bytes(
                spec_encode_dict_size(dict_size_of(self.compression_level)),
            ),
    {
        output.push(0x4C);
        output.push(0x5A);
        output.push(0x49);
        output.push(0x50);
        output.push(LZIP_VERSION);
        let ds = self.dict_size();
        proof {
            lemma_level_dict_representable(self.compression_level);
        }
        let code = Self::encode_dict_size(ds);
        output.push(code);
        assert(output@ =~= old(output)@ + header_bytes(
            spec_encode_dict_size(dict_size_of(self.compression_level)),
        ));
    }

    /// Streams the input through the engine in bounded chunks, appending
    /// what the engine emits to `output`, hashing exactly the consumed
    /// bytes, and recording the three trailer quantities.
    fn compress(&mut self, output: &mut Vec<u8>) -> (r: Result<(), LzipError>)
        ensures
            final(self).input@ == old(self).input@,
            final(self).compression_level == old(self).compression_level,
            final(output)@.len() >= old(output)@.len(),
            final(output)@.take(old(output)@.len() as int) == old(output)@,
            r matches Ok(_) ==> ({
                let data = old(self).input@;
                let d = dict_size_of(old(self).compression_level);
                let c = lzma1_encoded(preset_of(old(self).compression_level), d, data);
                &&& final(output)@ == old(output)@ + c
                &&& encoded_stream_facts(d, c, data)
                &&& c.len() + 26 <= u64::MAX
                &&& final(self).crc32 == crc32_of(data)
                &&& final(self).uncompressed_size == data.len()
                &&& final(self).compressed_size == c.len()
            }),
            r matches Err(e) ==> (e matches LzipError::StreamError(_) || e
                == LzipError::InvalidMemberSize),
            r == Err::<(), LzipError>(LzipError::InvalidMemberSize) ==> lzma1_encoded(
                preset_of(old(self).compression_level),
                dict_size_of(old(self).compression_level),
                old(self).input@,
            ).len() + 26 > u64::MAX,
    {
        let ghost data = self.input@;
        let ghost level = self.compression_level;
        let ghost out0 = output@;
        let preset = self.preset();
        let d = self.dict_size();
        let mut session = match LzmaEncoder::new(preset, d) {
            Ok(s) => s,
            Err(e) => { return Err(LzipError::StreamError(e)) },
        };
        let mut hasher = Crc32::new();
        let mut offset: usize = 0;
        let base = output.len();
        let n = self.input.len();
        assert(data.take(0) =~= Seq::<u8>::empty());
        loop
            invariant_except_break
                !session@.finished,
            invariant
                self.input@ == data,
                self.compression_level == level,
                n == data.len(),
                offset <= n,
                session@.preset == preset_of(level),
                session@.dict == dict_size_of(level),
                session@.consumed == data.take(offset as int),
                hasher@ == data.take(offset as int),
                output@ == out0 + session@.produced,
                base == out0.len(),
                out0 == old(output)@,
            ensures
                self.input@ == data,
                self.compression_level == level,
                session@.finished,
                session@.consumed == data,
                session@.produced == lzma1_encoded(preset_of(level), dict_size_of(level), data),
                encoded_stream_facts(dict_size_of(level), session@.produced, data),
                output@ == out0 + session@.produced,
                hasher@ == data,
                base == out0.len(),
            decreases n - offset, session@.fuel,
        {
            let finish = offset == n;
            let end_idx = if n - offset > 4096 {
                offset + 4096
            } else {
                n
            };
            let chunk = slice_subrange(self.input.as_slice(), offset, end_idx);
            let ghost produced0 = session@.produced;
            match session.process(chunk, finish, output) {
                Ok((read, end)) => {
                    hasher.update(slice_subrange(chunk, 0, read));
                    proof {
                        assert(data.take(offset as int) + data.subrange(
                            offset as int,
                            offset + read,
                        ) =~= data.take(offset + read));
                        assert(chunk@.take(read as int) =~= data.subrange(
                            offset as int,
                            offset + read,
                        ));
                        assert(out0 + produced0 + session@.produced.skip(produced0.len() as int)
                            =~= out0 + session@.produced) by {
                            assert(produced0 + session@.produced.skip(produced0.len() as int)
                                =~= session@.produced);
                        }
                    }
                    offset = offset + read;
                    if end {
                        proof {
                            assert(finish && offset == n);
                            assert(data.take(n as int) =~= data);
                        }
                        break ;
                    }
                },
                Err(e) => {
                    proof {
                        assert(output@.take(out0.len() as int) =~= out0);
                    }
                    return Err(LzipError::StreamError(e));
                },
            }
        }
        let crc = hasher.finalize();
        let payload_len = output.len() - base;
        let psz: u64 = payload_len as u64;
        if psz > u64::MAX - 26 {
            proof {
                assert(output@.take(out0.len() as int) =~= out0);
            }
            return Err(LzipError::InvalidMemberSize);
        }
        self.crc32 = crc;
        self.uncompressed_size = n as u64;
        self.compressed_size = psz;
        proof {
            assert(output@.take(out0.len() as int) =~= out0);
        }
        Ok(())
    }

    /// Writes the twenty trailer bytes from the recorded quantities.
    fn write_trailer(&self, output: &mut Vec<u8>)
        requires
            self.compressed_size + 26 <= u64::MAX,
        ensures
            final(output)@ == old(output)@ + trailer_bytes(
                self.crc32,
                self.uncompressed_size,
                (self.compressed_size + 26) as u64,
            ),
    {
        let mut crc_bytes = u32_to_le_bytes(self.crc32);
        output.append(&mut crc_bytes);
        let mut dsz_bytes = u64_to_le_bytes(self.uncompressed_size);
        output.append(&mut dsz_bytes);
        let member_size = 6 + self.compressed_size + 20;
        let mut msz_bytes = u64_to_le_bytes(member_size);
        output.append(&mut msz_bytes);
        assert(output@ =~= old(output)@ + trailer_bytes(
            self.crc32,
            self.uncompressed_size,
            (self.compressed_size + 26) as u64,
        ));
    }

    /// Compresses the whole input and appends one member to `output`:
    /// header, raw LZMA1 stream, trailer. On success the member is exactly
    /// [`encoded_member`] of the input, every check the decoder makes passes
    /// on it, and its decoded payload is exactly the input (the round trip
    /// law). The call fails only when the engine fails, or when the member
    /// would be too large for its own 64-bit size field.
    pub fn encode(&mut self, output: &mut Vec<u8>) -> (r: Result<(), LzipError>)
        ensures
            final(self).input@ == old(self).input@,
            final(self).compression_level == old(self).compression_level,
            final(output)@.len() >= old(output)@.len(),
            final(output)@.take(old(output)@.len() as int) == old(output)@,
            r matches Ok(_) ==> ({
                let data = old(self).input@;
                let level = old(self).compression_level;
                let c = lzma1_encoded(preset_of(level), dict_size_of(level), data);
                &&& final(output)@ == old(output)@ + encoded_member(level, data)
                &&& encoded_member(level, data).len() == c.len() + 26
                &&& decode_ok_spec(encoded_member(level, data))
                &&& member_data(encoded_member(level, data)) == data
                &&& final(self).crc32 == crc32_of(data)
                &&& final(self).uncompressed_size == data.len()
                &&& final(self).compressed_size == c.len()
            }),
            r matches Err(e) ==> (e matches LzipError::StreamError(_) || e
                == LzipError::InvalidMemberSize),
    {
        let ghost out0 = output@;
        let ghost data = self.input@;
        let ghost level = self.compression_level;
        self.write_header(output);
        match self.compress(output) {
            Ok(_) => {},
            Err(e) => {
                proof {
                    assert(output@.take(out0.len() as int) =~= out0);
                }
                return Err(e);
            },
        }
        self.write_trailer(output);
        proof {
            let d = dict_size_of(level);
            let code = spec_encode_dict_size(d);
            let c = lzma1_encoded(preset_of(level), d, data);
            lemma_level_dict_representable(level);
            lemma_dict_size_round_trip(d);
            assert(data.len() <= u64::MAX) by {
                assert(self.uncompressed_size == data.len());
            }
            lemma_member_round_trip(d, code, c, data);
            assert(final(output)@ =~= out0 + member_bytes(code, c, data));
            assert(output@.take(out0.len() as int) =~= out0);
        }
        Ok(())
    }
}

/// Every level's dictionary size is an exact power of two in range, so the
/// header byte encodes it exactly.
pub proof fn lemma_level_dict_representable(level: CompressionLevel)
    ensures
        representable_dict_size(dict_size_of(level)),
        valid_dict_size(dict_size_of(level)),
{
    let ds = dict_size_of(level);
    assert((1u32 << 18u32) == 0x40000 && (1u32 << 22u32) == 0x400000 && (1u32 << 23u32) == 0x800000
        && (1u32 << 26u32) == 0x4000000) by (bit_vector);
    match level {
        CompressionLevel::Fastest => {
            assert(sub_size(18, 0) == 0x40000);
            assert(representable_dict_size(ds)) by {
                assert(12 <= 18u32 <= 29 && 0u32 <= 7 && ds == sub_size(18, 0));
            }
        },
        CompressionLevel::Fast => {
            assert(sub_size(22, 0) == 0x400000);
            assert(representable_dict_size(ds)) by {
                assert(12 <= 22u32 <= 29 && 0u32 <= 7 && ds == sub_size(22, 0));
            }
        },
        CompressionLevel::Default => {
            assert(sub_size(23, 0) == 0x800000);
            assert(representable_dict_size(ds)) by {
                assert(12 <= 23u32 <= 29 && 0u32 <= 7 && ds == sub_size(23, 0));
            }
        },
        CompressionLevel::Maximum => {
            assert(sub_size(26, 0) == 0x4000000);
            assert(representable_dict_size(ds)) by {
                assert(12 <= 26u32 <= 29 && 0u32 <= 7 && ds == sub_size(26, 0));
            }
        },
    }
}

} // verus!
