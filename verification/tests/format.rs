//! Tests of the wire format pieces: bit packing, the header codec, and the
//! plane primitives, with exact expected values.

use stegtool::StegError;
use stegtool::bits::pack_bytes;
use stegtool::bits::unpack_groups;
use stegtool::codec::Decoder;
use stegtool::codec::extract_bytes;
use stegtool::granularity::ByteSplitGranularity;
use stegtool::granularity::CompressInput;
use stegtool::header::decode_header;
use stegtool::header::encode_header;
use stegtool::header::FORMAT_VERSION;
use stegtool::header::Header;
use stegtool::plane::write_groups;

#[test]
fn pack_splits_most_significant_first() {
    let data = vec![0b1011_0100u8];
    assert_eq!(
        pack_bytes(&data, ByteSplitGranularity::OneBit),
        vec![1, 0, 1, 1, 0, 1, 0, 0]
    );
    assert_eq!(
        pack_bytes(&data, ByteSplitGranularity::TwoBits),
        vec![0b10, 0b11, 0b01, 0b00]
    );
    assert_eq!(
        pack_bytes(&data, ByteSplitGranularity::FourBits),
        vec![0xB, 0x4]
    );
}

#[test]
fn pack_keeps_byte_order() {
    let data = vec![0xF0u8, 0x0F];
    assert_eq!(
        pack_bytes(&data, ByteSplitGranularity::FourBits),
        vec![0xF, 0x0, 0x0, 0xF]
    );
}

#[test]
fn unpack_inverts_pack() {
    let data: Vec<u8> = (0..=255).collect();
    for g in [
        ByteSplitGranularity::OneBit,
        ByteSplitGranularity::TwoBits,
        ByteSplitGranularity::FourBits,
    ] {
        let groups = pack_bytes(&data, g);
        assert_eq!(groups.len(), data.len() * (8 / g.bits() as usize));
        assert_eq!(unpack_groups(&groups, g), Ok(data.clone()));
    }
}

#[test]
fn unpack_rejects_ragged_streams() {
    let groups = vec![1u8, 0, 1];
    assert_eq!(
        unpack_groups(&groups, ByteSplitGranularity::OneBit),
        Err(StegError::Format)
    );
    assert_eq!(
        unpack_groups(&groups, ByteSplitGranularity::TwoBits),
        Err(StegError::Format)
    );
    // Three groups of four bits are a byte and a half.
    assert_eq!(
        unpack_groups(&groups, ByteSplitGranularity::FourBits),
        Err(StegError::Format)
    );
}

#[test]
fn header_serializes_to_six_fixed_bytes() {
    let bytes = encode_header(ByteSplitGranularity::TwoBits, true, 0x0102_0304);
    assert_eq!(bytes, vec![1, 3, 1, 2, 3, 4]);
    let bytes = encode_header(ByteSplitGranularity::OneBit, false, 50);
    assert_eq!(bytes, vec![1, 0, 0, 0, 0, 50]);
    let bytes = encode_header(ByteSplitGranularity::FourBits, false, 4000);
    assert_eq!(bytes, vec![1, 4, 0, 0, 0x0F, 0xA0]);
}

#[test]
fn header_parses_back_to_its_fields() {
    for g in [
        ByteSplitGranularity::OneBit,
        ByteSplitGranularity::TwoBits,
        ByteSplitGranularity::FourBits,
    ] {
        for compressed in [false, true] {
            for len in [0u32, 1, 0xFFFF_FFFF] {
                let parsed = decode_header(&encode_header(g, compressed, len)).unwrap();
                assert_eq!(
                    parsed,
                    Header {
                        version: FORMAT_VERSION,
                        granularity: g,
                        compressed,
                        payload_length: len,
                    }
                );
            }
        }
    }
}

#[test]
fn header_rejects_foreign_bytes() {
    // wrong version
    assert_eq!(decode_header(&vec![2, 0, 0, 0, 0, 0]), Err(StegError::Format));
    // granularity code 3
    assert_eq!(decode_header(&vec![1, 6, 0, 0, 0, 0]), Err(StegError::Format));
    // stray high flag bit
    assert_eq!(decode_header(&vec![1, 8, 0, 0, 0, 0]), Err(StegError::Format));
    // wrong length
    assert_eq!(decode_header(&vec![1, 0, 0, 0, 0]), Err(StegError::Format));
}

#[test]
fn declared_length_beyond_the_image_is_capacity_corruption() {
    // Hand-craft a plane whose header claims a payload far larger than the
    // plane: version 1, one bit per byte, length 0xFFFFFFFF.
    let mut plane = vec![0u8; 1000];
    let header_bytes = vec![1u8, 0, 0xFF, 0xFF, 0xFF, 0xFF];
    let groups = pack_bytes(&header_bytes, ByteSplitGranularity::OneBit);
    write_groups(&mut plane, 0, &groups, ByteSplitGranularity::OneBit);
    assert_eq!(Decoder::new().decode(&plane), Err(StegError::Capacity));
}

#[test]
fn extract_reports_the_recorded_header() {
    let payload = b"peek at the header".to_vec();
    let mut plane = vec![0x80u8; 2000];
    stegtool::codec::Encoder::new(CompressInput::Deflate, ByteSplitGranularity::TwoBits)
        .encode(&mut plane, &payload)
        .unwrap();
    let (header, raw) = extract_bytes(&plane).unwrap();
    assert_eq!(header.version, FORMAT_VERSION);
    assert_eq!(header.granularity, ByteSplitGranularity::TwoBits);
    assert!(header.compressed);
    assert_eq!(header.payload_length as usize, raw.len());
    // the raw bytes are the deflated stream, not the payload itself
    assert_ne!(raw, payload);
}

#[test]
fn granularity_constants() {
    assert_eq!(ByteSplitGranularity::OneBit.bits(), 1);
    assert_eq!(ByteSplitGranularity::TwoBits.bits(), 2);
    assert_eq!(ByteSplitGranularity::FourBits.bits(), 4);
    assert_eq!(ByteSplitGranularity::OneBit.groups_per_byte(), 8);
    assert_eq!(ByteSplitGranularity::TwoBits.groups_per_byte(), 4);
    assert_eq!(ByteSplitGranularity::FourBits.groups_per_byte(), 2);
    assert_eq!(ByteSplitGranularity::OneBit.mask(), 0x01);
    assert_eq!(ByteSplitGranularity::TwoBits.mask(), 0x03);
    assert_eq!(ByteSplitGranularity::FourBits.mask(), 0x0F);
}
