//! The self-describing preamble.
//!
//! Six bytes — version, a flags byte holding the granularity code and the
//! compressed bit, and a big-endian 32-bit payload length — are packed at one
//! bit per channel byte into the first 48 channel bytes of the plane. The
//! extractor can therefore always parse them without knowing anything else
//! about the stream.

use vstd::prelude::*;
use crate::granularity::ByteSplitGranularity;
use crate::StegError;

verus! {

/// The one header layout this engine writes and recognizes.
pub const FORMAT_VERSION: u8 = 1;

/// Serialized header size in bytes.
pub const HEADER_BYTES: usize = 6;

/// Channel bytes the header occupies: one per header bit.
pub const HEADER_CHANNEL_BYTES: usize = 48;

/// The parsed preamble: everything the extractor needs to recover the
/// payload region.
#[derive(Clone, Copy, Debug, PartialEq, Eq, Structural)]
pub struct Header {
    /// Format version; always [`FORMAT_VERSION`] in headers this engine writes.
    pub version: u8,
    /// Granularity of the payload region (the header itself is always one
    /// bit per channel byte).
    pub granularity: ByteSplitGranularity,
    /// Whether the payload bytes must be inflated after extraction.
    pub compressed: bool,
    /// Length in bytes of the embedded (possibly compressed) payload.
    pub payload_length: u32,
}

/// The two-bit code a granularity is stored as.
pub open spec fn spec_granularity_code(g: ByteSplitGranularity) -> u8 {
    match g {
        ByteSplitGranularity::OneBit => 0,
        ByteSplitGranularity::TwoBits => 1,
        ByteSplitGranularity::FourBits => 2,
    }
}

/// The granularity a two-bit code denotes; the code 3 denotes nothing.
pub open spec fn spec_granularity_of_code(code: u8) -> Option<ByteSplitGranularity> {
    if code == 0 {
        Some(ByteSplitGranularity::OneBit)
    } else if code == 1 {
        Some(ByteSplitGranularity::TwoBits)
    } else if code == 2 {
        Some(ByteSplitGranularity::FourBits)
    } else {
        None
    }
}

/// The flags byte: granularity code in bits 1..=2, compressed bit in bit 0,
/// the five high bits always zero.
pub open spec fn spec_flags_byte(g: ByteSplitGranularity, compressed: bool) -> u8 {
    (spec_granularity_code(g) * 2 + if compressed { 1int } else { 0int }) as u8
}

/// The six serialized header bytes: version, flags, and the payload length
/// in big-endian order.
pub open spec fn spec_header_bytes(
    g: ByteSplitGranularity,
    compressed: bool,
    len: u32,
) -> Seq<u8> {
    seq![
        FORMAT_VERSION,
        spec_flags_byte(g, compressed),
        ((len >> 24) & 0xff) as u8,
        ((len >> 16) & 0xff) as u8,
        ((len >> 8) & 0xff) as u8,
        (len & 0xff) as u8,
    ]
}

/// Parses six header bytes. Yields nothing when the version is not
/// [`FORMAT_VERSION`], the granularity code is 3, or a stray flag bit is
/// set — the sanity checks that make a foreign image fail loudly.
pub open spec fn spec_parse_header(bytes: Seq<u8>) -> Option<Header> {
    if bytes.len() != 6 {
        None
    } else if bytes[0] != FORMAT_VERSION {
        None
    } else if bytes[1] >= 6 {
        None
    } else {
        match spec_granularity_of_code(bytes[1] / 2) {
            None => None,
            Some(g) => Some(
                Header {
                    version: bytes[0],
                    granularity: g,
                    compressed: bytes[1] % 2 == 1,
                    payload_length: (bytes[2] * 0x1000000 + bytes[3] * 0x10000 + bytes[4] * 0x100
                        + bytes[5]) as u32,
                },
            ),
        }
    }
}

/// Parsing the bytes the serializer wrote yields exactly the header fields
/// that went in.
pub proof fn lemma_header_roundtrip(g: ByteSplitGranularity, compressed: bool, len: u32)
    ensures
        spec_parse_header(spec_header_bytes(g, compressed, len)) == Some(
            Header {
                version: FORMAT_VERSION,
                granularity: g,
                compressed,
                payload_length: len,
            },
        ),
{
    let bytes = spec_header_bytes(g, compressed, len);
    let code = spec_granularity_code(g);
    let bit: u8 = if compressed { 1 } else { 0 };
    assert(code <= 2);
    assert(bytes[1] == code * 2 + bit);
    assert((code * 2 + bit) / 2 == code);
    assert((code * 2 + bit) % 2 == bit);
    let b2 = ((len >> 24) & 0xff) as u8;
    let b3 = ((len >> 16) & 0xff) as u8;
    let b4 = ((len >> 8) & 0xff) as u8;
    let b5 = (len & 0xff) as u8;
    assert(b2 * 0x1000000 + b3 * 0x10000 + b4 * 0x100 + b5 == len) by (bit_vector)
        requires
            b2 == ((len >> 24) & 0xff) as u8,
            b3 == ((len >> 16) & 0xff) as u8,
            b4 == ((len >> 8) & 0xff) as u8,
            b5 == (len & 0xff) as u8,
    ;
}

/// Serializes the header fields into the six bytes of
/// [`spec_header_bytes`].
pub fn encode_header(g: ByteSplitGranularity, compressed: bool, len: u32) -> (r: Vec<u8>)
    ensures
        r@ == spec_header_bytes(g, compressed, len),
        r@.len() == HEADER_BYTES,
{
    let code: u8 = match g {
        ByteSplitGranularity::OneBit => 0,
        ByteSplitGranularity::TwoBits => 1,
        ByteSplitGranularity::FourBits => 2,
    };
    let flags: u8 = code * 2 + if compressed { 1 } else { 0 };
    let mut out: Vec<u8> = Vec::new();
    out.push(FORMAT_VERSION);
    out.push(flags);
    out.push(((len >> 24) & 0xff) as u8);
    out.push(((len >> 16) & 0xff) as u8);
    out.push(((len >> 8) & 0xff) as u8);
    out.push((len & 0xff) as u8);
    proof {
        assert(out@ =~= spec_header_bytes(g, compressed, len));
    }
    out
}

/// Parses six header bytes, as [`spec_parse_header`] does; any other input
/// is a malformed preamble and fails with [`StegError::Format`].
pub fn decode_header(bytes: &Vec<u8>) -> (r: Result<Header, StegError>)
    ensures
        r is Ok <==> spec_parse_header(bytes@) is Some,
        r matches Ok(h) ==> spec_parse_header(bytes@) == Some(h),
        r matches Err(e) ==> e == StegError::Format,
{
    if bytes.len() != 6 {
        return Err(StegError::Format);
    }
    if bytes[0] != FORMAT_VERSION {
        return Err(StegError::Format);
    }
    let flags = bytes[1];
    if flags >= 6 {
        return Err(StegError::Format);
    }
    let granularity = match flags / 2 {
        0 => ByteSplitGranularity::OneBit,
        1 => ByteSplitGranularity::TwoBits,
        _ => ByteSplitGranularity::FourBits,
    };
    let compressed = flags % 2 == 1;
    let payload_length: u32 = (bytes[2] as u32) * 0x1000000 + (bytes[3] as u32) * 0x10000
        + (bytes[4] as u32) * 0x100 + (bytes[5] as u32);
    Ok(Header { version: bytes[0], granularity, compressed, payload_length })
}

} // verus!
