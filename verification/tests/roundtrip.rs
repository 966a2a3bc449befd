use lzipper::CompressionLevel;
use lzipper::Decoder;
use lzipper::Encoder;

#[test]
fn roundtrip() {
    let input = b"the quick brown fox jumps over the lazy dog";

    let mut encoded: Vec<u8> = Vec::new();
    let mut encoder = Encoder::new(input.to_vec()).expect("failed to setup encoder");
    encoder.encode(&mut encoded).expect("failed to encode");

    let mut decoded: Vec<u8> = Vec::new();
    let mut decoder = Decoder::new(encoded);
    decoder.decode(&mut decoded).expect("failed to decode");

    assert_eq!(input, decoded.as_slice());
}

#[test]
fn roundtrip_large() {
    let input = vec![0; 10 * 1024 * 1024]; // 10 MiB of zeros

    let mut encoded: Vec<u8> = Vec::new();
    let mut encoder = Encoder::new(input.clone()).expect("failed to setup encoder");
    encoder.encode(&mut encoded).expect("failed to encode");

    let mut decoded: Vec<u8> = Vec::new();
    let mut decoder = Decoder::new(encoded);
    decoder.decode(&mut decoded).expect("failed to decode");

    assert_eq!(input, decoded.as_slice());
}

#[test]
fn roundtrip_max_compression_level() {
    let input = vec![0; 10 * 1024 * 1024]; // 10 MiB of zeros

    let mut encoded: Vec<u8> = Vec::new();
    let mut encoder = Encoder::new_with_level(input.clone(), CompressionLevel::Maximum)
        .expect("failed to setup encoder");
    encoder.encode(&mut encoded).expect("failed to encode");

    let mut decoded: Vec<u8> = Vec::new();
    let mut decoder = Decoder::new(encoded);
    decoder.decode(&mut decoded).expect("failed to decode");

    assert_eq!(input, decoded.as_slice());
}
