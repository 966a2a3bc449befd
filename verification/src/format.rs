//! The member layout: header and trailer byte sequences, the conditions the
//! decoder checks, and the laws that tie the two directions together.

use vstd::prelude::*;
use vstd::bytes::lemma_auto_spec_u32_to_from_le_bytes;
use vstd::bytes::lemma_auto_spec_u64_to_from_le_bytes;
use vstd::bytes::spec_u32_from_le_bytes;
use vstd::bytes::spec_u32_to_le_bytes;
use vstd::bytes::spec_u64_from_le_bytes;
use vstd::bytes::spec_u64_to_le_bytes;

use crate::LZIP_VERSION;
use crate::crc::crc32_of;
use crate::dict::spec_decode_dict_size;
use crate::lzma::encoded_stream_facts;
use crate::lzma::lzma1_decoded;
use crate::lzma::lzma1_rejects;
use crate::lzma::lzma1_stream_complete;
use crate::valid_dict_size;

verus! {

/// The four magic bytes that open every member.
pub open spec fn magic_bytes() -> Seq<u8> {
    seq![0x4Cu8, 0x5Au8, 0x49u8, 0x50u8]
}

/// The six header bytes of a member whose dictionary size encodes to `code`.
pub open spec fn header_bytes(code: u8) -> Seq<u8> {
    magic_bytes() + seq![LZIP_VERSION, code]
}

/// The twenty trailer bytes: CRC32 of the data, byte count of the data, and
/// byte count of the whole member, each little-endian.
pub open spec fn trailer_bytes(crc: u32, data_size: u64, member_size: u64) -> Seq<u8> {
    spec_u32_to_le_bytes(crc) + spec_u64_to_le_bytes(data_size) + spec_u64_to_le_bytes(member_size)
}

/// A whole member: the header, one complete stream `c` whose decoding is
/// `data`, and the matching trailer.
pub open spec fn member_bytes(code: u8, c: Seq<u8>, data: Seq<u8>) -> Seq<u8> {
    header_bytes(code) + c + trailer_bytes(
        crc32_of(data),
        data.len() as u64,
        (c.len() + 26) as u64,
    )
}

/// The input ends before a whole header.
pub open spec fn header_too_short(i: Seq<u8>) -> bool {
    i.len() < 6
}

/// The input does not open with the magic bytes.
pub open spec fn bad_magic(i: Seq<u8>) -> bool {
    i.len() >= 6 && i.subrange(0, 4) != magic_bytes()
}

/// The magic is right but the version byte is not.
pub open spec fn bad_version(i: Seq<u8>) -> bool {
    i.len() >= 6 && i.subrange(0, 4) == magic_bytes() && i[4] != LZIP_VERSION
}

/// Magic and version are right but the dictionary-size byte decodes out of
/// range.
pub open spec fn bad_dict_code(i: Seq<u8>) -> bool {
    i.len() >= 6 && i.subrange(0, 4) == magic_bytes() && i[4] == LZIP_VERSION && !valid_dict_size(
        spec_decode_dict_size(i[5]),
    )
}

/// The six header bytes are all as the format demands.
pub open spec fn header_well_formed(i: Seq<u8>) -> bool {
    i.len() >= 6 && i.subrange(0, 4) == magic_bytes() && i[4] == LZIP_VERSION && valid_dict_size(
        spec_decode_dict_size(i[5]),
    )
}

/// The dictionary size the header declares.
pub open spec fn member_dict(i: Seq<u8>) -> u32 {
    spec_decode_dict_size(i[5])
}

/// Everything after the header: the compressed stream and the trailer.
pub open spec fn member_body(i: Seq<u8>) -> Seq<u8> {
    i.skip(6)
}

/// `k` marks the end of the first complete stream in `body`.
pub open spec fn is_stream_boundary(dict: u32, body: Seq<u8>, k: int) -> bool {
    &&& 0 <= k <= body.len()
    &&& lzma1_stream_complete(dict, body.take(k))
    &&& forall|j: int| 0 <= j < k ==> !lzma1_stream_complete(dict, #[trigger] body.take(j))
}

/// Some prefix of `body` is a complete stream.
pub open spec fn has_stream_boundary(dict: u32, body: Seq<u8>) -> bool {
    exists|k: int| is_stream_boundary(dict, body, k)
}

/// Where the first complete stream in `body` ends.
pub open spec fn stream_boundary(dict: u32, body: Seq<u8>) -> int {
    choose|k: int| is_stream_boundary(dict, body, k)
}

/// The decoding of the member's compressed stream.
pub open spec fn member_data(i: Seq<u8>) -> Seq<u8> {
    let dict = member_dict(i);
    let body = member_body(i);
    lzma1_decoded(dict, body.take(stream_boundary(dict, body)))
}

/// What follows the member's compressed stream: the trailer bytes.
pub open spec fn member_rest(i: Seq<u8>) -> Seq<u8> {
    member_body(i).skip(stream_boundary(member_dict(i), member_body(i)))
}

/// The header is fine but the body holds no complete stream and nothing the
/// engine rejects: the stream was cut short.
pub open spec fn body_incomplete(i: Seq<u8>) -> bool {
    header_well_formed(i) && !has_stream_boundary(member_dict(i), member_body(i))
        && !lzma1_rejects(member_dict(i), member_body(i))
}

/// The header is fine but the engine rejects the body as corrupt.
pub open spec fn body_rejected(i: Seq<u8>) -> bool {
    header_well_formed(i) && lzma1_rejects(member_dict(i), member_body(i))
}

/// The stream is complete but fewer than twenty trailer bytes follow it.
pub open spec fn trailer_too_short(i: Seq<u8>) -> bool {
    header_well_formed(i) && has_stream_boundary(member_dict(i), member_body(i))
        && member_rest(i).len() < 20
}

/// The member's stream, header and trailer length are all in place.
pub open spec fn framing_well_formed(i: Seq<u8>) -> bool {
    header_well_formed(i) && has_stream_boundary(member_dict(i), member_body(i)) && member_rest(
        i,
    ).len() >= 20
}

/// The CRC32 field the trailer stores.
pub open spec fn stored_crc(i: Seq<u8>) -> u32 {
    spec_u32_from_le_bytes(member_rest(i).subrange(0, 4))
}

/// The data-size field the trailer stores.
pub open spec fn stored_data_size(i: Seq<u8>) -> u64 {
    spec_u64_from_le_bytes(member_rest(i).subrange(4, 12))
}

/// The member-size field the trailer stores.
pub open spec fn stored_member_size(i: Seq<u8>) -> u64 {
    spec_u64_from_le_bytes(member_rest(i).subrange(12, 20))
}

/// The stored CRC32 does not match the decoded data.
pub open spec fn crc_mismatch(i: Seq<u8>) -> bool {
    framing_well_formed(i) && stored_crc(i) != crc32_of(member_data(i))
}

/// The CRC32 matches but the stored data size does not.
pub open spec fn data_size_mismatch(i: Seq<u8>) -> bool {
    framing_well_formed(i) && stored_crc(i) == crc32_of(member_data(i)) && stored_data_size(i)
        != member_data(i).len()
}

/// CRC32 and data size match but the stored member size does not equal the
/// header, the consumed stream and the trailer together.
pub open spec fn member_size_mismatch(i: Seq<u8>) -> bool {
    framing_well_formed(i) && stored_crc(i) == crc32_of(member_data(i)) && stored_data_size(i)
        == member_data(i).len() && stored_member_size(i) != 26 + stream_boundary(
        member_dict(i),
        member_body(i),
    )
}

/// Every check the decoder makes passes on this input.
pub open spec fn decode_ok_spec(i: Seq<u8>) -> bool {
    &&& framing_well_formed(i)
    &&& stored_crc(i) == crc32_of(member_data(i))
    &&& stored_data_size(i) == member_data(i).len()
    &&& stored_member_size(i) == 26 + stream_boundary(member_dict(i), member_body(i))
}

/// A body has at most one stream boundary.
pub proof fn lemma_boundary_unique(dict: u32, body: Seq<u8>, k1: int, k2: int)
    requires
        is_stream_boundary(dict, body, k1),
        is_stream_boundary(dict, body, k2),
    ensures
        k1 == k2,
{
    if k1 < k2 {
        assert(!lzma1_stream_complete(dict, body.take(k1)));
    }
    if k2 < k1 {
        assert(!lzma1_stream_complete(dict, body.take(k2)));
    }
}

/// A member framed around a stream the encoder produced parses back into
/// exactly its three parts: the boundary falls at the end of the stream,
/// the trailer is what was appended, and the data is what was encoded.
pub proof fn lemma_framed_member(dict: u32, code: u8, c: Seq<u8>, data: Seq<u8>, t: Seq<u8>)
    requires
        spec_decode_dict_size(code) == dict,
        valid_dict_size(dict),
        encoded_stream_facts(dict, c, data),
        t.len() == 20,
    ensures
        ({
            let m = header_bytes(code) + c + t;
            &&& header_well_formed(m)
            &&& member_dict(m) == dict
            &&& member_body(m) == c + t
            &&& has_stream_boundary(dict, member_body(m))
            &&& stream_boundary(dict, member_body(m)) == c.len()
            &&& member_rest(m) == t
            &&& member_data(m) == data
            &&& m.len() == c.len() + 26
        }),
{
    let m = header_bytes(code) + c + t;
    let body = m.skip(6);
    assert(m.subrange(0, 4) =~= magic_bytes());
    assert(m[4] == LZIP_VERSION && m[5] == code);
    assert(body =~= c + t);
    let n = c.len() as int;
    assert(body.take(n) =~= c);
    assert(forall|j: int| 0 <= j < n ==> #[trigger] body.take(j) =~= c.take(j));
    assert(is_stream_boundary(dict, body, n));
    assert(has_stream_boundary(dict, body));
    lemma_boundary_unique(dict, body, stream_boundary(dict, body), n);
    assert(body.skip(n) =~= t);
    assert(body.take(n) == c && lzma1_decoded(dict, c) == data);
}

/// Law (round trip): a member framed around a stream the encoder produced,
/// with its matching trailer, passes every check the decoder makes, and its
/// decoded payload is exactly the data that was encoded.
pub proof fn lemma_member_round_trip(dict: u32, code: u8, c: Seq<u8>, data: Seq<u8>)
    requires
        spec_decode_dict_size(code) == dict,
        valid_dict_size(dict),
        encoded_stream_facts(dict, c, data),
        c.len() + 26 <= u64::MAX,
        data.len() <= u64::MAX,
    ensures
        decode_ok_spec(member_bytes(code, c, data)),
        member_data(member_bytes(code, c, data)) == data,
        member_bytes(code, c, data).len() == c.len() + 26,
        stored_member_size(member_bytes(code, c, data)) == member_bytes(code, c, data).len(),
{
    let crc = crc32_of(data);
    let dsz = data.len() as u64;
    let msz = (c.len() + 26) as u64;
    let t = trailer_bytes(crc, dsz, msz);
    lemma_auto_spec_u32_to_from_le_bytes();
    lemma_auto_spec_u64_to_from_le_bytes();
    assert(t.len() == 20);
    lemma_framed_member(dict, code, c, data, t);
    let m = member_bytes(code, c, data);
    assert(m =~= header_bytes(code) + c + t);
    assert(member_rest(m) == t);
    assert(t.subrange(0, 4) =~= spec_u32_to_le_bytes(crc));
    assert(t.subrange(4, 12) =~= spec_u64_to_le_bytes(dsz));
    assert(t.subrange(12, 20) =~= spec_u64_to_le_bytes(msz));
    assert(stored_crc(m) == crc);
    assert(stored_data_size(m) == dsz);
    assert(stored_member_size(m) == msz);
}

/// Law (truncated stream): a header followed by too few compressed bytes to
/// reach the end of the stream leaves a body in which nothing is complete
/// and nothing is rejected; the decoder reports exactly that as an
/// unexpected end of the stream.
pub proof fn lemma_truncated_member(dict: u32, code: u8, c: Seq<u8>, data: Seq<u8>, n: int)
    requires
        spec_decode_dict_size(code) == dict,
        valid_dict_size(dict),
        encoded_stream_facts(dict, c, data),
        0 <= n < c.len(),
    ensures
        body_incomplete(header_bytes(code) + c.take(n)),
{
    let m = header_bytes(code) + c.take(n);
    let body = m.skip(6);
    assert(m.subrange(0, 4) =~= magic_bytes());
    assert(m[4] == LZIP_VERSION && m[5] == code);
    assert(body =~= c.take(n));
    assert forall|k: int| 0 <= k <= body.len() implies !lzma1_stream_complete(
        dict,
        #[trigger] body.take(k),
    ) by {
        assert(body.take(k) =~= c.take(k));
    }
    assert(!has_stream_boundary(dict, body)) by {
        if has_stream_boundary(dict, body) {
            let k = choose|k: int| is_stream_boundary(dict, body, k);
            assert(!lzma1_stream_complete(dict, body.take(k)));
        }
    }
    assert(!lzma1_rejects(dict, body)) by {
        assert(body =~= c.take(n));
    }
}

/// Law (trailer tampering): on an otherwise valid member, a changed CRC32
/// field is reported as exactly a checksum mismatch; a changed data-size
/// field as exactly a data-size mismatch; a changed member-size field as
/// exactly a member-size mismatch.
pub proof fn lemma_trailer_tampering(
    dict: u32,
    code: u8,
    c: Seq<u8>,
    data: Seq<u8>,
    crc2: u32,
    dsz2: u64,
    msz2: u64,
)
    requires
        spec_decode_dict_size(code) == dict,
        valid_dict_size(dict),
        encoded_stream_facts(dict, c, data),
        c.len() + 26 <= u64::MAX,
        data.len() <= u64::MAX,
    ensures
        crc2 != crc32_of(data) ==> crc_mismatch(
            header_bytes(code) + c + trailer_bytes(crc2, data.len() as u64, (c.len() + 26) as u64),
        ),
        dsz2 != data.len() ==> data_size_mismatch(
            header_bytes(code) + c + trailer_bytes(crc32_of(data), dsz2, (c.len() + 26) as u64),
        ),
        msz2 != c.len() + 26 ==> member_size_mismatch(
            header_bytes(code) + c + trailer_bytes(crc32_of(data), data.len() as u64, msz2),
        ),
{
    lemma_auto_spec_u32_to_from_le_bytes();
    lemma_auto_spec_u64_to_from_le_bytes();
    let crc = crc32_of(data);
    let dsz = data.len() as u64;
    let msz = (c.len() + 26) as u64;
    let t1 = trailer_bytes(crc2, dsz, msz);
    let t2 = trailer_bytes(crc, dsz2, msz);
    let t3 = trailer_bytes(crc, dsz, msz2);
    lemma_framed_member(dict, code, c, data, t1);
    lemma_framed_member(dict, code, c, data, t2);
    lemma_framed_member(dict, code, c, data, t3);
    let m1 = header_bytes(code) + c + t1;
    let m2 = header_bytes(code) + c + t2;
    let m3 = header_bytes(code) + c + t3;
    assert(t1.subrange(0, 4) =~= spec_u32_to_le_bytes(crc2));
    assert(t2.subrange(0, 4) =~= spec_u32_to_le_bytes(crc));
    assert(t2.subrange(4, 12) =~= spec_u64_to_le_bytes(dsz2));
    assert(t3.subrange(0, 4) =~= spec_u32_to_le_bytes(crc));
    assert(t3.subrange(4, 12) =~= spec_u64_to_le_bytes(dsz));
    assert(t3.subrange(12, 20) =~= spec_u64_to_le_bytes(msz2));
    assert(stored_crc(m1) == crc2);
    assert(stored_crc(m2) == crc && stored_data_size(m2) == dsz2);
    assert(stored_crc(m3) == crc && stored_data_size(m3) == dsz && stored_member_size(m3) == msz2);
}

} // verus!
