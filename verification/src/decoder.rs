//! The decompression pipeline: validates and unwraps one lzip member.

use vstd::prelude::*;
use vstd::bytes::u32_from_le_bytes;
use vstd::bytes::u64_from_le_bytes;
use vstd::slice::slice_subrange;

use crate::LZIP_VERSION;
use crate::MAX_DICT_SIZE;
use crate::MIN_DICT_SIZE;
use crate::crc::Crc32;
use crate::crc::crc32_of;
use crate::dict::spec_decode_dict_size;
use crate::error::LzipError;
use crate::error::unexpected_eof_kind;
use crate::format::bad_dict_code;
use crate::format::bad_magic;
use crate::format::bad_version;
use crate::format::body_incomplete;
use crate::format::body_rejected;
use crate::format::crc_mismatch;
use crate::format::data_size_mismatch;
use crate::format::decode_ok_spec;
use crate::format::has_stream_boundary;
use crate::format::header_too_short;
use crate::format::header_well_formed;
use crate::format::is_stream_boundary;
use crate::format::lemma_boundary_unique;
use crate::format::magic_bytes;
use crate::format::member_body;
use crate::format::member_data;
use crate::format::member_dict;
use crate::format::member_rest;
use crate::format::member_size_mismatch;
use crate::format::stream_boundary;
use crate::format::trailer_too_short;
use crate::lzma::LzmaDecoder;
use crate::lzma::lzma1_rejects;
use crate::lzma::lzma1_stream_complete;
use crate::valid_dict_size;

verus! {

/// Validates and unwraps one lzip member from an in-memory buffer.
pub struct Decoder {
    /// The member to decode.
    pub input: Vec<u8>,
    /// The read position: how many input bytes have been taken.
    pub pos: usize,
    /// After the header is read: the dictionary size it declares.
    pub dict_size: u32,
    /// After a successful call: the CRC32 of the decoded data.
    pub crc32: u32,
    /// After a successful call: the byte count of the decoded data.
    pub uncompressed_size: u64,
    /// After a successful call: the byte count of the compressed stream.
    pub compressed_size: u64,
}

impl Decoder {
    /// A decoder over one member held in `input`.
    pub fn new(input: Vec<u8>) -> (r: Decoder)
        ensures
            r.input@ == input@,
            r.pos == 0,
            r.dict_size == 0,
            r.crc32 == 0,
            r.uncompressed_size == 0,
            r.compressed_size == 0,
    {
        Decoder { input, pos: 0, dict_size: 0, crc32: 0, uncompressed_size: 0, compressed_size: 0 }
    }

    /// Decodes the header's dictionary-size byte, rejecting any byte whose
    /// size falls outside the format's range — exactly those bytes fail.
    pub fn decode_dict_size(code: u8) -> (r: Result<u32, LzipError>)
        ensures
            valid_dict_size(spec_decode_dict_size(code)) ==> r == Ok::<u32, LzipError>(
                spec_decode_dict_size(code),
            ),
            !valid_dict_size(spec_decode_dict_size(code)) ==> r == Err::<u32, LzipError>(
                LzipError::InvalidDictSize,
            ),
    {
        let e: u8 = code & 0x1f;
        assert((code & 0x1f) < 32) by (bit_vector);
        let base: u32 = 1u32 << (e as u32);
        let ds: u32 = if base > MIN_DICT_SIZE {
            let frac: u32 = ((code >> 5) & 0x07) as u32;
            let step = base / 16;
            assert((((code >> 5) & 0x07) as u32) <= 7) by (bit_vector);
            assert(step * frac <= step * 16 && step * 16 <= base) by (nonlinear_arith)
                requires
                    base >= 16,
                    frac <= 7,
                    step == base / 16,
            ;
            base - step * frac
        } else {
            base
        };
        assert(ds == spec_decode_dict_size(code));
        if ds < MIN_DICT_SIZE || ds > MAX_DICT_SIZE {
            Err(LzipError::InvalidDictSize)
        } else {
            Ok(ds)
        }
    }

    /// Reads and validates the six header bytes: each malformed field is
    /// reported as exactly its own error, in the order the format stores
    /// them.
    fn read_header(&mut self) -> (r: Result<(), LzipError>)
        requires
            old(self).pos == 0,
        ensures
            final(self).input@ == old(self).input@,
            ({
                let i = old(self).input@;
                &&& (r matches Err(LzipError::IoError(_)) <==> header_too_short(i))
                &&& (r == Err::<(), LzipError>(LzipError::InvalidMagic) <==> bad_magic(i))
                &&& (r == Err::<(), LzipError>(LzipError::UnsupportedVersion) <==> bad_version(i))
                &&& (r == Err::<(), LzipError>(LzipError::InvalidDictSize) <==> bad_dict_code(i))
                &&& (r matches Ok(_) <==> header_well_formed(i))
                &&& (r matches Ok(_) ==> final(self).pos == 6 && final(self).dict_size
                    == member_dict(i) && valid_dict_size(final(self).dict_size)
                    && final(self).crc32 == old(self).crc32)
            }),
    {
        let ghost i = self.input@;
        if self.input.len() < 6 {
            return Err(LzipError::IoError(unexpected_eof_kind()));
        }
        let magic_ok = self.input[0] == 0x4C && self.input[1] == 0x5A && self.input[2] == 0x49
            && self.input[3] == 0x50;
        proof {
            if i.subrange(0, 4) == magic_bytes() {
                assert(i.subrange(0, 4)[0] == 0x4C && i.subrange(0, 4)[1] == 0x5A && i.subrange(
                    0,
                    4,
                )[2] == 0x49 && i.subrange(0, 4)[3] == 0x50);
            }
            if i[0] == 0x4C && i[1] == 0x5A && i[2] == 0x49 && i[3] == 0x50 {
                assert(i.subrange(0, 4) =~= magic_bytes());
            }
        }
        if !magic_ok {
            return Err(LzipError::InvalidMagic);
        }
        if self.input[4] != LZIP_VERSION {
            return Err(LzipError::UnsupportedVersion);
        }
        let ds = match Self::decode_dict_size(self.input[5]) {
            Ok(ds) => ds,
            Err(e) => { return Err(e) },
        };
        self.dict_size = ds;
        self.pos = 6;
        Ok(())
    }

    /// Streams the compressed body through the engine in bounded chunks
    /// until the end-of-stream marker, appending the decoded bytes to
    /// `output`, hashing exactly the emitted bytes, and recording the three
    /// quantities the trailer must match.
    fn decompress(&mut self, output: &mut Vec<u8>) -> (r: Result<(), LzipError>)
        requires
            header_well_formed(old(self).input@),
            old(self).pos == 6,
            old(self).dict_size == member_dict(old(self).input@),
        ensures
            final(self).input@ == old(self).input@,
            final(self).dict_size == old(self).dict_size,
            final(output)@.len() >= old(output)@.len(),
            final(output)@.take(old(output)@.len() as int) == old(output)@,
            ({
                let i = old(self).input@;
                let d = member_dict(i);
                let body = member_body(i);
                &&& (r matches Ok(_) ==> {
                    &&& has_stream_boundary(d, body)
                    &&& final(self).pos == 6 + stream_boundary(d, body)
                    &&& final(self).pos <= i.len()
                    &&& final(output)@ == old(output)@ + member_data(i)
                    &&& final(self).crc32 == crc32_of(member_data(i))
                    &&& final(self).uncompressed_size == member_data(i).len()
                    &&& final(self).compressed_size == stream_boundary(d, body)
                })
                &&& (r matches Err(e) ==> (e == LzipError::UnexpectedEndOfStream || e matches
                    LzipError::StreamError(_)))
                &&& (r == Err::<(), LzipError>(LzipError::UnexpectedEndOfStream) ==>
                    body_incomplete(i))
                &&& (body_incomplete(i) ==> (r == Err::<(), LzipError>(
                    LzipError::UnexpectedEndOfStream,
                ) || r matches Err(LzipError::StreamError(_))))
                &&& (has_stream_boundary(d, body) ==> (r matches Ok(_) || r matches Err(
                    LzipError::StreamError(_),
                )))
                &&& (body_rejected(i) ==> r matches Err(LzipError::StreamError(_)))
            }),
    {
        let ghost i = self.input@;
        let ghost d_spec = member_dict(i);
        let ghost body = member_body(i);
        let ghost out0 = output@;
        let d = self.dict_size;
        let mut session = match LzmaDecoder::new(d) {
            Ok(s) => s,
            Err(e) => { return Err(LzipError::StreamError(e)) },
        };
        let mut hasher = Crc32::new();
        let base = output.len();
        let n = self.input.len();
        let mut offset: usize = 6;
        assert(body.take(0) =~= Seq::<u8>::empty());
        loop
            invariant_except_break
                !session@.finished,
            invariant
                self.input@ == i,
                i == old(self).input@,
                header_well_formed(i),
                self.dict_size == d,
                d == d_spec,
                d_spec == member_dict(i),
                body == i.skip(6),
                body == member_body(i),
                n == i.len(),
                6 <= offset <= n,
                session@.dict == d,
                session@.consumed == body.take(offset - 6),
                hasher@ == session@.produced,
                output@ == out0 + session@.produced,
                base == out0.len(),
                out0 == old(output)@,
                forall|k: int|
                    0 <= k < offset - 6 ==> !lzma1_stream_complete(d_spec, #[trigger] body.take(k)),
            ensures
                self.input@ == i,
                self.dict_size == d,
                session@.finished,
                6 <= offset <= n,
                session@.consumed == body.take(offset - 6),
                lzma1_stream_complete(d_spec, session@.consumed),
                session@.produced == crate::lzma::lzma1_decoded(d_spec, session@.consumed),
                forall|k: int|
                    0 <= k < offset - 6 ==> !lzma1_stream_complete(d_spec, #[trigger] body.take(k)),
                forall|ext: Seq<u8>|
                    !lzma1_rejects(d_spec, #[trigger] (session@.consumed + ext)),
                output@ == out0 + session@.produced,
                hasher@ == session@.produced,
                base == out0.len(),
                out0 == old(output)@,
            decreases n - offset, session@.fuel,
        {
            let finish = offset == n;
            let end_idx = if n - offset > 4096 {
                offset + 4096
            } else {
                n
            };
            let chunk = slice_subrange(self.input.as_slice(), offset, end_idx);
            let ghost produced0 = session@.produced;
            let ghost consumed0 = session@.consumed;
            let before = output.len();
            match session.process(chunk, finish, output) {
                Ok((read, end)) => {
                    proof {
                        assert(chunk@.take(read as int) =~= body.subrange(
                            offset - 6,
                            offset - 6 + read,
                        ));
                        assert(consumed0 + body.subrange(offset - 6, offset - 6 + read)
                            =~= body.take(offset - 6 + read));
                        assert(produced0 + session@.produced.skip(produced0.len() as int)
                            =~= session@.produced);
                        assert(out0 + produced0 + session@.produced.skip(produced0.len() as int)
                            =~= out0 + session@.produced);
                        assert(forall|k: int|
                            0 <= k < offset - 6 + read ==> !lzma1_stream_complete(
                                d_spec,
                                #[trigger] body.take(k),
                            )) by {
                            assert(forall|k: int|
                                0 <= k < session@.consumed.len() ==> #[trigger] body.take(k)
                                    == session@.consumed.take(k));
                        }
                    }
                    let emitted = output.len() - before;
                    hasher.update(slice_subrange(output.as_slice(), before, before + emitted));
                    proof {
                        assert(output@.subrange(before as int, before + emitted)
                            =~= session@.produced.skip(produced0.len() as int));
                        assert(hasher@ =~= session@.produced);
                    }
                    offset = offset + read;
                    if end {
                        break ;
                    }
                    if finish && emitted == 0 {
                        proof {
                            assert(session@.consumed =~= body);
                            assert(!has_stream_boundary(d_spec, body)) by {
                                if has_stream_boundary(d_spec, body) {
                                    let k = choose|k: int| is_stream_boundary(d_spec, body, k);
                                    assert(lzma1_stream_complete(d_spec, body.take(k)));
                                    assert(body.take(body.len() as int) =~= body);
                                }
                            }
                            assert(!lzma1_rejects(d_spec, body));
                            assert(body_incomplete(i));
                            assert(!body_rejected(i));
                            assert(output@.take(out0.len() as int) =~= out0);
                        }
                        return Err(LzipError::UnexpectedEndOfStream);
                    }
                },
                Err(e) => {
                    proof {
                        assert(output@.take(out0.len() as int) =~= out0);
                    }
                    return Err(LzipError::StreamError(e));
                },
            }
        }
        let crc = hasher.finalize();
        let produced_len = output.len() - base;
        self.crc32 = crc;
        self.uncompressed_size = produced_len as u64;
        self.compressed_size = (offset - 6) as u64;
        self.pos = offset;
        proof {
            let k = offset - 6 as int;
            assert(is_stream_boundary(d_spec, body, k));
            assert(has_stream_boundary(d_spec, body));
            lemma_boundary_unique(d_spec, body, stream_boundary(d_spec, body), k);
            assert(member_data(i) == session@.produced) by {
                assert(body.take(k) == session@.consumed);
            }
            assert(output@.take(out0.len() as int) =~= out0);
            if body_incomplete(i) {
                assert(!has_stream_boundary(d_spec, body));
            }
            if body_rejected(i) {
                assert(!lzma1_rejects(d_spec, session@.consumed + body.skip(k)));
                assert(session@.consumed + body.skip(k) =~= body);
            }
        }
        Ok(())
    }

    /// Reads the twenty trailer bytes and validates each stored field
    /// against what decompression observed: each mismatch is reported as
    /// exactly its own error, in the order the format stores the fields.
    fn read_trailer(&mut self) -> (r: Result<(), LzipError>)
        requires
            header_well_formed(old(self).input@),
            has_stream_boundary(member_dict(old(self).input@), member_body(old(self).input@)),
            old(self).pos == 6 + stream_boundary(
                member_dict(old(self).input@),
                member_body(old(self).input@),
            ),
            old(self).pos <= old(self).input@.len(),
            old(self).crc32 == crc32_of(member_data(old(self).input@)),
            old(self).uncompressed_size == member_data(old(self).input@).len(),
            old(self).compressed_size == stream_boundary(
                member_dict(old(self).input@),
                member_body(old(self).input@),
            ),
        ensures
            *final(self) == *old(self),
            ({
                let i = old(self).input@;
                &&& (r matches Err(LzipError::IoError(_)) <==> trailer_too_short(i))
                &&& (r == Err::<(), LzipError>(LzipError::InvalidCrc) <==> crc_mismatch(i))
                &&& (r == Err::<(), LzipError>(LzipError::InvalidDataSize) <==> data_size_mismatch(
                    i,
                ))
                &&& (r == Err::<(), LzipError>(LzipError::InvalidMemberSize)
                    <==> member_size_mismatch(i))
                &&& (r matches Ok(_) <==> decode_ok_spec(i))
            }),
    {
        let ghost i = self.input@;
        let ghost k = stream_boundary(member_dict(i), member_body(i));
        let ghost rest = member_rest(i);
        let pos = self.pos;
        proof {
            assert(rest =~= i.skip(pos as int));
        }
        if self.input.len() - pos < 20 {
            return Err(LzipError::IoError(unexpected_eof_kind()));
        }
        assert(rest.len() >= 20);
        let crc_stored = u32_from_le_bytes(slice_subrange(self.input.as_slice(), pos, pos + 4));
        proof {
            assert(i.subrange(pos as int, pos + 4) =~= rest.subrange(0, 4));
        }
        if crc_stored != self.crc32 {
            return Err(LzipError::InvalidCrc);
        }
        let dsz_stored = u64_from_le_bytes(
            slice_subrange(self.input.as_slice(), pos + 4, pos + 12),
        );
        proof {
            assert(i.subrange(pos + 4, pos + 12) =~= rest.subrange(4, 12));
        }
        if dsz_stored != self.uncompressed_size {
            return Err(LzipError::InvalidDataSize);
        }
        let msz_stored = u64_from_le_bytes(
            slice_subrange(self.input.as_slice(), pos + 12, pos + 20),
        );
        proof {
            assert(i.subrange(pos + 12, pos + 20) =~= rest.subrange(12, 20));
        }
        if msz_stored < 26 || msz_stored - 26 != self.compressed_size {
            return Err(LzipError::InvalidMemberSize);
        }
        Ok(())
    }

    /// Decodes the member: validates the header, streams the compressed
    /// body through the engine while appending the decoded bytes to
    /// `output`, then validates the trailer against what was observed. On
    /// success every check passed and `output` gained exactly the member's
    /// data; each way a member can be malformed is reported as exactly its
    /// own error. Only an engine failure can pre-empt a verdict that the
    /// input itself determines.
    pub fn decode(&mut self, output: &mut Vec<u8>) -> (r: Result<(), LzipError>)
        requires
            old(self).pos == 0,
        ensures
            final(self).input@ == old(self).input@,
            final(output)@.len() >= old(output)@.len(),
            final(output)@.take(old(output)@.len() as int) == old(output)@,
            ({
                let i = old(self).input@;
                &&& (r matches Ok(_) ==> {
                    &&& decode_ok_spec(i)
                    &&& final(output)@ == old(output)@ + member_data(i)
                    &&& final(self).dict_size == member_dict(i)
                    &&& final(self).crc32 == crc32_of(member_data(i))
                    &&& final(self).uncompressed_size == member_data(i).len()
                    &&& final(self).compressed_size == stream_boundary(
                        member_dict(i),
                        member_body(i),
                    )
                })
                &&& (decode_ok_spec(i) ==> (r matches Ok(_) || r matches Err(
                    LzipError::StreamError(_),
                )))
                &&& (r == Err::<(), LzipError>(LzipError::InvalidMagic) <==> bad_magic(i))
                &&& (r == Err::<(), LzipError>(LzipError::UnsupportedVersion) <==> bad_version(i))
                &&& (r == Err::<(), LzipError>(LzipError::InvalidDictSize) <==> bad_dict_code(i))
                &&& (r matches Err(LzipError::IoError(_)) ==> (header_too_short(i)
                    || trailer_too_short(i)))
                &&& (header_too_short(i) ==> r matches Err(LzipError::IoError(_)))
                &&& (trailer_too_short(i) ==> (r matches Err(LzipError::IoError(_)) || r matches
                    Err(LzipError::StreamError(_))))
                &&& (r == Err::<(), LzipError>(LzipError::UnexpectedEndOfStream) ==>
                    body_incomplete(i))
                &&& (body_incomplete(i) ==> (r == Err::<(), LzipError>(
                    LzipError::UnexpectedEndOfStream,
                ) || r matches Err(LzipError::StreamError(_))))
                &&& (r == Err::<(), LzipError>(LzipError::InvalidCrc) ==> crc_mismatch(i))
                &&& (crc_mismatch(i) ==> (r == Err::<(), LzipError>(LzipError::InvalidCrc)
                    || r matches Err(LzipError::StreamError(_))))
                &&& (r == Err::<(), LzipError>(LzipError::InvalidDataSize) ==> data_size_mismatch(
                    i,
                ))
                &&& (data_size_mismatch(i) ==> (r == Err::<(), LzipError>(LzipError::InvalidDataSize)
                    || r matches Err(LzipError::StreamError(_))))
                &&& (r == Err::<(), LzipError>(LzipError::InvalidMemberSize)
                    ==> member_size_mismatch(i))
                &&& (member_size_mismatch(i) ==> (r == Err::<(), LzipError>(
                    LzipError::InvalidMemberSize,
                ) || r matches Err(LzipError::StreamError(_))))
                &&& (r matches Err(LzipError::StreamError(_)) ==> header_well_formed(i))
                &&& (body_rejected(i) ==> r matches Err(LzipError::StreamError(_)))
            }),
    {
        let ghost i = self.input@;
        let ghost out0 = output@;
        match self.read_header() {
            Ok(_) => {},
            Err(e) => {
                proof {
                    assert(output@.take(out0.len() as int) =~= out0);
                }
                return Err(e);
            },
        }
        match self.decompress(output) {
            Ok(_) => {},
            Err(e) => {
                return Err(e);
            },
        }
        match self.read_trailer() {
            Ok(_) => {},
            Err(e) => {
                return Err(e);
            },
        }
        Ok(())
    }
}

} // verus!
