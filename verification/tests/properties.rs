use lzipper::CompressionLevel;
use lzipper::Decoder;
use lzipper::Encoder;
use lzipper::LzipError;

fn encode_member(input: &[u8], level: CompressionLevel) -> Vec<u8> {
    let mut encoded: Vec<u8> = Vec::new();
    let mut encoder = Encoder::new_with_level(input.to_vec(), level).expect("failed to setup encoder");
    encoder.encode(&mut encoded).expect("failed to encode");
    encoded
}

fn decode_member(member: &[u8]) -> Result<Vec<u8>, LzipError> {
    let mut decoded: Vec<u8> = Vec::new();
    let mut decoder = Decoder::new(member.to_vec());
    decoder.decode(&mut decoded)?;
    Ok(decoded)
}

#[test]
fn roundtrip_empty() {
    let member = encode_member(b"", CompressionLevel::Default);
    let decoded = decode_member(&member).expect("failed to decode");
    assert!(decoded.is_empty());
}

#[test]
fn roundtrip_every_level() {
    let input = b"abracadabra abracadabra abracadabra";
    for level in [
        CompressionLevel::Fastest,
        CompressionLevel::Fast,
        CompressionLevel::Default,
        CompressionLevel::Maximum,
    ] {
        let member = encode_member(input, level);
        let decoded = decode_member(&member).expect("failed to decode");
        assert_eq!(input.as_slice(), decoded.as_slice());
    }
}

#[test]
fn member_layout_literal() {
    // the member must open with the magic, the version byte, and a
    // dictionary-size byte that decodes to the level's dictionary size
    let member = encode_member(
        b"the quick brown fox jumps over the lazy dog",
        CompressionLevel::Default,
    );
    assert_eq!(&member[0..5], &[0x4C, 0x5A, 0x49, 0x50, 0x01]);
    assert_eq!(Decoder::decode_dict_size(member[5]), Ok(8 * 1024 * 1024));
    let decoded = decode_member(&member).expect("failed to decode");
    assert_eq!(decoded.as_slice(), b"the quick brown fox jumps over the lazy dog");
}

#[test]
fn stored_sizes_match_member() {
    // the trailer must store the input's byte count and the member's own
    // byte count, at every level
    let input = vec![0u8; 10 * 1024 * 1024];
    for level in [
        CompressionLevel::Fastest,
        CompressionLevel::Fast,
        CompressionLevel::Default,
        CompressionLevel::Maximum,
    ] {
        let member = encode_member(&input, level);
        let n = member.len();
        let stored_data_size = u64::from_le_bytes(member[n - 16..n - 8].try_into().unwrap());
        let stored_member_size = u64::from_le_bytes(member[n - 8..n].try_into().unwrap());
        assert_eq!(stored_data_size, input.len() as u64);
        assert_eq!(stored_member_size, n as u64);
        let decoded = decode_member(&member).expect("failed to decode");
        assert_eq!(input, decoded);
    }
}

#[test]
fn stored_crc_matches_crc32() {
    // the trailer's first field must be the CRC32 of the uncompressed data
    let input = b"the quick brown fox jumps over the lazy dog";
    let member = encode_member(input, CompressionLevel::Default);
    let n = member.len();
    let stored_crc = u32::from_le_bytes(member[n - 20..n - 16].try_into().unwrap());
    assert_eq!(stored_crc, crc32fast::hash(input));
}

#[test]
fn dict_size_codec_literals() {
    assert_eq!(Encoder::encode_dict_size(4096), 0x0c);
    assert_eq!(Decoder::decode_dict_size(0x0c), Ok(4096));
    assert_eq!(Encoder::encode_dict_size(1 << 23), 23);
    assert_eq!(Decoder::decode_dict_size(23), Ok(1 << 23));
    // out-of-range bytes must be rejected
    assert_eq!(Decoder::decode_dict_size(0x00), Err(LzipError::InvalidDictSize));
    assert_eq!(Decoder::decode_dict_size(30), Err(LzipError::InvalidDictSize));
    assert_eq!(Decoder::decode_dict_size(31), Err(LzipError::InvalidDictSize));
}

#[test]
fn dict_size_codec_round_trip() {
    // every representable size in range must round-trip exactly
    for e in 12u32..=29 {
        for i in 0u32..=7 {
            let base = 1u32 << e;
            let ds = base - i * (base / 16);
            if (4096..=(1u32 << 29)).contains(&ds) {
                let code = Encoder::encode_dict_size(ds);
                assert_eq!(Decoder::decode_dict_size(code), Ok(ds));
            }
        }
    }
}

#[test]
fn truncated_stream() {
    // cutting the member anywhere inside its compressed stream must be
    // reported as an unexpected end of the stream
    let input = b"a body long enough that the compressed stream has several bytes";
    let member = encode_member(input, CompressionLevel::Default);
    let stream_len = member.len() - 26;
    let cut = 6 + stream_len / 2;
    let result = decode_member(&member[..cut]);
    assert_eq!(result.unwrap_err(), LzipError::UnexpectedEndOfStream);
}

#[test]
fn truncated_trailer() {
    let input = b"a body whose member will lose five trailer bytes";
    let member = encode_member(input, CompressionLevel::Default);
    let result = decode_member(&member[..member.len() - 5]);
    assert!(matches!(result.unwrap_err(), LzipError::IoError(_)));
}

#[test]
fn crc_bit_flips_detected() {
    // flipping any single bit of the stored CRC32 must be reported as a
    // checksum mismatch
    let input = b"the quick brown fox jumps over the lazy dog";
    let member = encode_member(input, CompressionLevel::Default);
    let n = member.len();
    for bit in 0..32 {
        let mut tampered = member.clone();
        tampered[n - 20 + bit / 8] ^= 1u8 << (bit % 8);
        let result = decode_member(&tampered);
        assert_eq!(result.unwrap_err(), LzipError::InvalidCrc);
    }
}

#[test]
fn corrupt_data_size_detected() {
    let input = b"the quick brown fox jumps over the lazy dog";
    let member = encode_member(input, CompressionLevel::Default);
    let n = member.len();
    let mut tampered = member.clone();
    tampered[n - 16] ^= 0x01;
    assert_eq!(decode_member(&tampered).unwrap_err(), LzipError::InvalidDataSize);
}

#[test]
fn corrupt_member_size_detected() {
    let input = b"the quick brown fox jumps over the lazy dog";
    let member = encode_member(input, CompressionLevel::Default);
    let n = member.len();
    let mut tampered = member.clone();
    tampered[n - 8] ^= 0x01;
    assert_eq!(decode_member(&tampered).unwrap_err(), LzipError::InvalidMemberSize);
}

#[test]
fn trailing_bytes_are_ignored() {
    // the decoder reads exactly one member and leaves anything after it
    let input = b"the quick brown fox jumps over the lazy dog";
    let mut member = encode_member(input, CompressionLevel::Default);
    member.extend_from_slice(b"garbage after the member");
    let decoded = decode_member(&member).expect("failed to decode");
    assert_eq!(input.as_slice(), decoded.as_slice());
}

#[test]
fn decoder_records_sizes() {
    let input = b"the quick brown fox jumps over the lazy dog";
    let member = encode_member(input, CompressionLevel::Default);
    let mut decoder = Decoder::new(member.clone());
    let mut decoded: Vec<u8> = Vec::new();
    decoder.decode(&mut decoded).expect("failed to decode");
    assert_eq!(decoder.uncompressed_size, input.len() as u64);
    assert_eq!(decoder.compressed_size, (member.len() - 26) as u64);
    assert_eq!(decoder.crc32, crc32fast::hash(input));
    assert_eq!(decoder.dict_size, 8 * 1024 * 1024);
}
