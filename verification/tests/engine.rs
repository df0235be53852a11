//! End-to-end tests of the embedding engine on in-memory pixel planes.

use stegtool::StegError;
use stegtool::codec::Decoder;
use stegtool::codec::Encoder;
use stegtool::granularity::ByteSplitGranularity;
use stegtool::granularity::CompressInput;

fn cover(n: usize) -> Vec<u8> {
    (0..n).map(|i| (i % 251) as u8).collect()
}

fn all_granularities() -> Vec<ByteSplitGranularity> {
    vec![
        ByteSplitGranularity::OneBit,
        ByteSplitGranularity::TwoBits,
        ByteSplitGranularity::FourBits,
    ]
}

#[test]
fn round_trip_all_granularities() {
    let payloads: Vec<Vec<u8>> = vec![
        Vec::new(),
        vec![0u8],
        vec![255u8, 0, 127, 1, 128],
        (0..200).map(|i| (i * 7 % 256) as u8).collect(),
    ];
    for g in all_granularities() {
        for payload in &payloads {
            let mut plane = cover(5000);
            let encoder = Encoder::new(CompressInput::NoCompression, g);
            encoder.encode(&mut plane, payload).expect("payload fits");
            let decoded = Decoder::new().decode(&plane).expect("plane holds a header");
            assert_eq!(&decoded, payload);
        }
    }
}

#[test]
fn compression_round_trip_matches_plain_decode() {
    let mut payloads: Vec<Vec<u8>> = vec![
        Vec::new(),
        b"short".to_vec(),
        vec![42u8; 4000],
    ];
    payloads.push((0..1000).map(|i| (i % 7) as u8).collect());
    for g in all_granularities() {
        for payload in &payloads {
            let mut plane = cover(40000);
            let encoder = Encoder::new(CompressInput::Deflate, g);
            encoder.encode(&mut plane, payload).expect("deflated payload fits");
            let decoded = Decoder::new().decode(&plane).expect("decode succeeds");
            assert_eq!(&decoded, payload);
        }
    }
}

#[test]
fn capacity_boundary_exact_fit_succeeds() {
    // 10 payload bytes at one bit per channel byte: 48 + 80 channel bytes.
    let payload = vec![0xA5u8; 10];
    let mut plane = cover(128);
    let encoder = Encoder::new(CompressInput::NoCompression, ByteSplitGranularity::OneBit);
    assert!(encoder.encode(&mut plane, &payload).is_ok());
    assert_eq!(Decoder::new().decode(&plane).unwrap(), payload);
}

#[test]
fn capacity_boundary_one_byte_over_fails() {
    let payload = vec![0xA5u8; 10];
    let original = cover(127);
    let mut plane = original.clone();
    let encoder = Encoder::new(CompressInput::NoCompression, ByteSplitGranularity::OneBit);
    assert_eq!(encoder.encode(&mut plane, &payload), Err(StegError::Capacity));
    // all-or-nothing: the failed encode left the plane untouched
    assert_eq!(plane, original);
}

#[test]
fn capacity_boundary_four_bits() {
    // 10 payload bytes at four bits per channel byte: 48 + 20 channel bytes.
    let payload = vec![0x5Au8; 10];
    let encoder = Encoder::new(CompressInput::NoCompression, ByteSplitGranularity::FourBits);
    let mut exact = cover(68);
    assert!(encoder.encode(&mut exact, &payload).is_ok());
    assert_eq!(Decoder::new().decode(&exact).unwrap(), payload);
    let mut short = cover(67);
    assert_eq!(encoder.encode(&mut short, &payload), Err(StegError::Capacity));
}

#[test]
fn empty_payload_fits_header_only_plane() {
    let mut plane = cover(48);
    let encoder = Encoder::new(CompressInput::NoCompression, ByteSplitGranularity::TwoBits);
    assert!(encoder.encode(&mut plane, &Vec::new()).is_ok());
    assert_eq!(Decoder::new().decode(&plane).unwrap(), Vec::<u8>::new());
}

#[test]
fn decoder_needs_no_configuration() {
    // Two images written at different granularities, recovered through the
    // same decoder call with no parameters beyond the plane itself.
    let payload = b"self-describing".to_vec();
    let mut one_bit = cover(1000);
    Encoder::new(CompressInput::NoCompression, ByteSplitGranularity::OneBit)
        .encode(&mut one_bit, &payload)
        .unwrap();
    let mut four_bits = cover(1000);
    Encoder::new(CompressInput::Deflate, ByteSplitGranularity::FourBits)
        .encode(&mut four_bits, &payload)
        .unwrap();
    let decoder = Decoder::new();
    assert_eq!(decoder.decode(&one_bit).unwrap(), payload);
    assert_eq!(decoder.decode(&four_bits).unwrap(), payload);
}

#[test]
fn unrelated_bits_untouched() {
    let payload = vec![0xFFu8, 0x00, 0xC3, 0x3C];
    let original = cover(2000);
    let mut plane = original.clone();
    Encoder::new(CompressInput::NoCompression, ByteSplitGranularity::TwoBits)
        .encode(&mut plane, &payload)
        .unwrap();
    let payload_bytes = payload.len() * 4; // 8 / 2 groups per byte
    for i in 0..48 {
        assert_eq!(plane[i] >> 1, original[i] >> 1, "header byte {} high bits", i);
    }
    for i in 48..48 + payload_bytes {
        assert_eq!(plane[i] >> 2, original[i] >> 2, "payload byte {} high bits", i);
    }
    for i in 48 + payload_bytes..plane.len() {
        assert_eq!(plane[i], original[i], "unused byte {}", i);
    }
}

#[test]
fn foreign_image_fails_loudly() {
    // A plane nobody embedded into: version bits decode to 0, not 1.
    let zeros = vec![0u8; 1000];
    assert_eq!(Decoder::new().decode(&zeros), Err(StegError::Format));
    // Too small to even hold a header.
    let tiny = cover(47);
    assert_eq!(Decoder::new().decode(&tiny), Err(StegError::Capacity));
}

#[test]
fn scenario_small_payload_in_small_image() {
    // 100 x 100 pixels x 3 channels, 50 ASCII bytes at one bit per byte:
    // 48 + 400 channel bytes used, far under 30000.
    let payload = b"12345678901234567890123456789012345678901234567890".to_vec();
    assert_eq!(payload.len(), 50);
    let original = cover(30000);
    let mut plane = original.clone();
    let encoder = Encoder::new(CompressInput::NoCompression, ByteSplitGranularity::OneBit);
    encoder.encode(&mut plane, &payload).expect("448 of 30000 channel bytes suffice");
    assert_eq!(&plane[448..], &original[448..]);
    assert_eq!(Decoder::new().decode(&plane).unwrap(), payload);
}

#[test]
fn scenario_large_payload_needs_denser_packing() {
    // 4000 bytes at one bit per channel byte would need 48 + 32000 channel
    // bytes, more than the 30000 available; at four bits it needs 48 + 8000.
    let payload: Vec<u8> = (0..4000).map(|i| (i % 256) as u8).collect();
    let mut plane = cover(30000);
    let lsb = Encoder::new(CompressInput::NoCompression, ByteSplitGranularity::OneBit);
    assert_eq!(lsb.encode(&mut plane, &payload), Err(StegError::Capacity));
    let dense = Encoder::new(CompressInput::NoCompression, ByteSplitGranularity::FourBits);
    dense.encode(&mut plane, &payload).expect("8048 of 30000 channel bytes suffice");
    assert_eq!(Decoder::new().decode(&plane).unwrap(), payload);
}

#[test]
fn compression_can_rescue_an_oversized_payload() {
    // The same 4000 bytes that fail uncompressed at one bit per channel
    // byte fit once deflated, because they are highly repetitive.
    let payload = vec![7u8; 4000];
    let mut plane = cover(30000);
    let plain = Encoder::new(CompressInput::NoCompression, ByteSplitGranularity::OneBit);
    assert_eq!(plain.encode(&mut plane, &payload), Err(StegError::Capacity));
    let squeezed = Encoder::new(CompressInput::Deflate, ByteSplitGranularity::OneBit);
    squeezed.encode(&mut plane, &payload).expect("deflated run fits");
    assert_eq!(Decoder::new().decode(&plane).unwrap(), payload);
}

#[test]
fn error_messages_name_the_failure() {
    assert_eq!(
        StegError::Capacity.message(),
        "payload does not fit in the cover image"
    );
    assert_eq!(
        StegError::Format.message(),
        "image does not contain a recognizable header"
    );
    assert_eq!(
        StegError::CorruptData.message(),
        "embedded payload failed to decompress"
    );
}

#[test]
fn io_error_carries_the_message() {
    let err = stegtool::err_to_io_error(StegError::Capacity);
    assert!(format!("{}", err).contains("does not fit"));
}
