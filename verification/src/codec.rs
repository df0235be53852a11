//! The embedding and extraction engine.
//!
//! Encoding writes the packed header into the first 48 channel bytes at one
//! bit each, then the packed payload into the following channel bytes at the
//! configured granularity. The capacity check comes before any write, so an
//! encode either rewrites exactly the bytes it owns or leaves the plane
//! untouched. Decoding reverses the steps using only the plane itself.

use vstd::prelude::*;
use vstd::arithmetic::div_mod::lemma_mod_multiples_basic;
use crate::StegError;
use crate::bits::pack_bytes;
use crate::bits::unpack_groups;
use crate::bits::lemma_pack_len;
use crate::bits::lemma_pack_valid;
use crate::bits::lemma_unpack_pack_roundtrip;
use crate::bits::spec_pack;
use crate::bits::spec_unpack;
use crate::compress::deflate_bytes;
use crate::compress::inflate_bytes;
use crate::compress::inflate_of;
use crate::granularity::ByteSplitGranularity;
use crate::granularity::CompressInput;
use crate::header::FORMAT_VERSION;
use crate::header::HEADER_CHANNEL_BYTES;
use crate::header::Header;
use crate::header::decode_header;
use crate::header::encode_header;
use crate::header::spec_header_bytes;
use crate::header::spec_parse_header;
use crate::plane::lemma_embed_preserves_high;
use crate::plane::lemma_read_after_write;
use crate::plane::lemma_read_before_write;
use crate::plane::read_groups;
use crate::plane::spec_read_groups;
use crate::plane::spec_write_groups;
use crate::plane::write_groups;

verus! {

/// Whether a plane of `plane_len` channel bytes can hold the header plus a
/// payload of `data_len` bytes at granularity `g`. The payload needs
/// `data_len * 8 / g` channel bytes after the 48 header bytes, and its
/// length must be representable in the header's 32-bit field.
pub open spec fn spec_fits(plane_len: int, data_len: int, g: ByteSplitGranularity) -> bool {
    &&& data_len <= u32::MAX
    &&& HEADER_CHANNEL_BYTES + data_len * g.spec_groups_per_byte() <= plane_len
}

/// The plane after embedding `data` at granularity `g`: the packed header in
/// the channel bytes `0 .. 48` at one bit each, the packed payload in the
/// channel bytes `48 .. 48 + data.len() * 8 / g`, everything else unchanged.
pub open spec fn spec_stego_plane(
    p: Seq<u8>,
    data: Seq<u8>,
    g: ByteSplitGranularity,
    compressed: bool,
) -> Seq<u8> {
    let hgroups = spec_pack(
        spec_header_bytes(g, compressed, data.len() as u32),
        ByteSplitGranularity::OneBit,
    );
    let pgroups = spec_pack(data, g);
    spec_write_groups(
        spec_write_groups(p, 0, hgroups, ByteSplitGranularity::OneBit),
        HEADER_CHANNEL_BYTES as int,
        pgroups,
        g,
    )
}

/// The header and raw (still possibly compressed) payload bytes recovered
/// from a plane, or the error: [`StegError::Capacity`] when the plane cannot
/// even hold a header or the declared payload overruns it,
/// [`StegError::Format`] when the header bits parse to nothing this engine
/// wrote.
pub open spec fn spec_extract(p: Seq<u8>) -> Result<(Header, Seq<u8>), StegError> {
    if p.len() < HEADER_CHANNEL_BYTES {
        Err(StegError::Capacity)
    } else {
        let hbytes = spec_unpack(
            spec_read_groups(p, 0, HEADER_CHANNEL_BYTES as int, ByteSplitGranularity::OneBit),
            ByteSplitGranularity::OneBit,
        );
        match spec_parse_header(hbytes) {
            None => Err(StegError::Format),
            Some(h) => {
                let count = h.payload_length * h.granularity.spec_groups_per_byte();
                if HEADER_CHANNEL_BYTES + count > p.len() {
                    Err(StegError::Capacity)
                } else {
                    Ok(
                        (
                            h,
                            spec_unpack(
                                spec_read_groups(
                                    p,
                                    HEADER_CHANNEL_BYTES as int,
                                    count,
                                    h.granularity,
                                ),
                                h.granularity,
                            ),
                        ),
                    )
                }
            },
        }
    }
}

/// The payload a decode of the plane returns: the extracted bytes, inflated
/// when the header's compressed flag is set; [`StegError::CorruptData`] when
/// that inflation fails.
pub open spec fn spec_decode_plane(p: Seq<u8>) -> Result<Seq<u8>, StegError> {
    match spec_extract(p) {
        Err(e) => Err(e),
        Ok((h, data)) => if !h.compressed {
            Ok(data)
        } else {
            match inflate_of(data) {
                Some(v) => Ok(v),
                None => Err(StegError::CorruptData),
            }
        },
    }
}

/// Embeds `data` as-is into the plane: header first, then the packed bytes
/// at granularity `g`, with `compressed` recorded in the header for the
/// decoder. All-or-nothing: succeeds exactly when the plane has the
/// capacity, and on failure the plane is untouched.
pub fn embed_bytes(
    plane: &mut Vec<u8>,
    data: &Vec<u8>,
    g: ByteSplitGranularity,
    compressed: bool,
) -> (r: Result<(), StegError>)
    ensures
        r is Ok <==> spec_fits(old(plane)@.len() as int, data@.len() as int, g),
        r is Ok ==> final(plane)@ == spec_stego_plane(old(plane)@, data@, g, compressed),
        r is Err ==> final(plane)@ == old(plane)@,
        r matches Err(e) ==> e == StegError::Capacity,
{
    let n = plane.len();
    if data.len() > u32::MAX as usize {
        return Err(StegError::Capacity);
    }
    let groups_needed: u64 = match g {
        ByteSplitGranularity::OneBit => (data.len() as u64) * 8,
        ByteSplitGranularity::TwoBits => (data.len() as u64) * 4,
        ByteSplitGranularity::FourBits => (data.len() as u64) * 2,
    };
    if (HEADER_CHANNEL_BYTES as u64) + groups_needed > n as u64 {
        return Err(StegError::Capacity);
    }
    let hdr = encode_header(g, compressed, data.len() as u32);
    let hgroups = pack_bytes(&hdr, ByteSplitGranularity::OneBit);
    proof {
        lemma_pack_len(hdr@, ByteSplitGranularity::OneBit);
    }
    write_groups(plane, 0, &hgroups, ByteSplitGranularity::OneBit);
    let pgroups = pack_bytes(data, g);
    write_groups(plane, HEADER_CHANNEL_BYTES, &pgroups, g);
    Ok(())
}

/// Reads the header and the raw payload bytes back out of a plane, before
/// any decompression, exactly as [`spec_extract`] describes.
pub fn extract_bytes(plane: &Vec<u8>) -> (r: Result<(Header, Vec<u8>), StegError>)
    ensures
        r matches Ok(p) ==> (spec_extract(plane@) matches Ok(q) && q.0 == p.0 && q.1 == p.1@),
        r matches Err(e) ==> spec_extract(plane@) == Err::<(Header, Seq<u8>), StegError>(e),
{
    let n = plane.len();
    if n < HEADER_CHANNEL_BYTES {
        return Err(StegError::Capacity);
    }
    let hgroups = read_groups(plane, 0, HEADER_CHANNEL_BYTES, ByteSplitGranularity::OneBit);
    let hbytes = match unpack_groups(&hgroups, ByteSplitGranularity::OneBit) {
        Ok(v) => v,
        Err(_) => {
            proof {
                assert(false);
            }
            return Err(StegError::Format);
        },
    };
    let header = match decode_header(&hbytes) {
        Ok(h) => h,
        Err(_) => {
            return Err(StegError::Format);
        },
    };
    let count64: u64 = match header.granularity {
        ByteSplitGranularity::OneBit => (header.payload_length as u64) * 8,
        ByteSplitGranularity::TwoBits => (header.payload_length as u64) * 4,
        ByteSplitGranularity::FourBits => (header.payload_length as u64) * 2,
    };
    if (HEADER_CHANNEL_BYTES as u64) + count64 > n as u64 {
        return Err(StegError::Capacity);
    }
    let count: usize = count64 as usize;
    let pgroups = read_groups(plane, HEADER_CHANNEL_BYTES, count, header.granularity);
    proof {
        lemma_mod_multiples_basic(
            header.payload_length as int,
            header.granularity.spec_groups_per_byte() as int,
        );
    }
    let data = match unpack_groups(&pgroups, header.granularity) {
        Ok(v) => v,
        Err(_) => {
            proof {
                assert(false);
            }
            return Err(StegError::Format);
        },
    };
    Ok((header, data))
}

/// Extraction inverts embedding: a plane that holds `data` at granularity
/// `g` gives back exactly the header fields and bytes that were embedded,
/// whatever cover bytes lay underneath.
pub proof fn lemma_extract_of_stego(
    p: Seq<u8>,
    data: Seq<u8>,
    g: ByteSplitGranularity,
    compressed: bool,
)
    requires
        spec_fits(p.len() as int, data.len() as int, g),
    ensures
        spec_extract(spec_stego_plane(p, data, g, compressed)) == Ok::<
            (Header, Seq<u8>),
            StegError,
        >(
            (
                Header {
                    version: FORMAT_VERSION,
                    granularity: g,
                    compressed,
                    payload_length: data.len() as u32,
                },
                data,
            ),
        ),
{
    let one = ByteSplitGranularity::OneBit;
    let len32 = data.len() as u32;
    let hbytes = spec_header_bytes(g, compressed, len32);
    let hgroups = spec_pack(hbytes, one);
    let pgroups = spec_pack(data, g);
    let after_header = spec_write_groups(p, 0, hgroups, one);
    let s = spec_stego_plane(p, data, g, compressed);
    assert(hbytes.len() == 6);
    lemma_pack_len(hbytes, one);
    lemma_pack_valid(hbytes, one);
    lemma_pack_len(data, g);
    lemma_pack_valid(data, g);
    assert(s == spec_write_groups(after_header, HEADER_CHANNEL_BYTES as int, pgroups, g));
    assert(s.len() == p.len());
    lemma_read_before_write(
        after_header,
        HEADER_CHANNEL_BYTES as int,
        pgroups,
        g,
        0,
        HEADER_CHANNEL_BYTES as int,
        one,
    );
    lemma_read_after_write(p, 0, hgroups, one);
    assert(spec_read_groups(s, 0, HEADER_CHANNEL_BYTES as int, one) == hgroups);
    lemma_unpack_pack_roundtrip(hbytes, one);
    crate::header::lemma_header_roundtrip(g, compressed, len32);
    let h = Header {
        version: FORMAT_VERSION,
        granularity: g,
        compressed,
        payload_length: len32,
    };
    assert(spec_parse_header(
        spec_unpack(spec_read_groups(s, 0, HEADER_CHANNEL_BYTES as int, one), one),
    ) == Some(h));
    assert(len32 == data.len());
    lemma_read_after_write(after_header, HEADER_CHANNEL_BYTES as int, pgroups, g);
    assert(spec_read_groups(
        s,
        HEADER_CHANNEL_BYTES as int,
        h.payload_length * g.spec_groups_per_byte(),
        g,
    ) == pgroups);
    lemma_unpack_pack_roundtrip(data, g);
}

/// Round trip: whatever fits comes back unchanged. A plane that holds
/// `data` uncompressed decodes to exactly `data`, for every cover, every
/// payload and every granularity.
pub proof fn lemma_round_trip(p: Seq<u8>, data: Seq<u8>, g: ByteSplitGranularity)
    requires
        spec_fits(p.len() as int, data.len() as int, g),
    ensures
        spec_decode_plane(spec_stego_plane(p, data, g, false)) == Ok::<Seq<u8>, StegError>(data),
{
    lemma_extract_of_stego(p, data, g, false);
}

/// Compression does not change what a decode observes: embedding any bytes
/// `c` that inflate to `payload`, with the compressed flag set, decodes to
/// `payload` itself.
pub proof fn lemma_compressed_round_trip(
    p: Seq<u8>,
    c: Seq<u8>,
    payload: Seq<u8>,
    g: ByteSplitGranularity,
)
    requires
        inflate_of(c) == Some(payload),
        spec_fits(p.len() as int, c.len() as int, g),
    ensures
        spec_decode_plane(spec_stego_plane(p, c, g, true)) == Ok::<Seq<u8>, StegError>(payload),
{
    lemma_extract_of_stego(p, c, g, true);
}

/// Embedding touches nothing it does not own: channel bytes past the
/// payload region are bit-for-bit the cover's, header bytes keep all but
/// their lowest bit, and payload bytes keep all bits above the granularity.
pub proof fn lemma_cover_preservation(
    p: Seq<u8>,
    data: Seq<u8>,
    g: ByteSplitGranularity,
    compressed: bool,
)
    requires
        spec_fits(p.len() as int, data.len() as int, g),
    ensures
        spec_stego_plane(p, data, g, compressed).len() == p.len(),
        forall|i: int|
            HEADER_CHANNEL_BYTES + data.len() * g.spec_groups_per_byte() <= i < p.len()
                ==> spec_stego_plane(p, data, g, compressed)[i] == p[i],
        forall|i: int|
            0 <= i < HEADER_CHANNEL_BYTES ==> spec_stego_plane(p, data, g, compressed)[i] >> 1
                == p[i] >> 1,
        forall|i: int|
            HEADER_CHANNEL_BYTES <= i < HEADER_CHANNEL_BYTES + data.len()
                * g.spec_groups_per_byte() ==> spec_stego_plane(p, data, g, compressed)[i]
                >> g.spec_bits() == p[i] >> g.spec_bits(),
{
    let one = ByteSplitGranularity::OneBit;
    let len32 = data.len() as u32;
    let hbytes = spec_header_bytes(g, compressed, len32);
    let hgroups = spec_pack(hbytes, one);
    let pgroups = spec_pack(data, g);
    let after_header = spec_write_groups(p, 0, hgroups, one);
    let s = spec_stego_plane(p, data, g, compressed);
    assert(hbytes.len() == 6);
    lemma_pack_len(hbytes, one);
    lemma_pack_len(data, g);
    assert(s == spec_write_groups(after_header, HEADER_CHANNEL_BYTES as int, pgroups, g));
    assert forall|i: int|
        HEADER_CHANNEL_BYTES + data.len() * g.spec_groups_per_byte() <= i < p.len()
        implies s[i] == p[i] by {
        assert(after_header[i] == p[i]);
    }
    assert forall|i: int| 0 <= i < HEADER_CHANNEL_BYTES implies s[i] >> 1 == p[i] >> 1 by {
        assert(s[i] == after_header[i]);
        lemma_embed_preserves_high(p[i], hgroups[i], one);
        assert(one.spec_bits() == 1);
    }
    assert forall|i: int|
        HEADER_CHANNEL_BYTES <= i < HEADER_CHANNEL_BYTES + data.len()
            * g.spec_groups_per_byte() implies s[i] >> g.spec_bits() == p[i] >> g.spec_bits() by {
        assert(after_header[i] == p[i]);
        lemma_embed_preserves_high(after_header[i], pgroups[i - HEADER_CHANNEL_BYTES], g);
    }
}

/// An embedding engine configured with a compression choice and a payload
/// granularity.
pub struct Encoder {
    /// Whether the payload is deflated before embedding.
    pub compress: CompressInput,
    /// How many low bits of each channel byte the payload occupies.
    pub granularity: ByteSplitGranularity,
}

impl Encoder {
    /// An encoder with the given configuration.
    pub fn new(compress: CompressInput, granularity: ByteSplitGranularity) -> (r: Encoder)
        ensures
            r.compress == compress,
            r.granularity == granularity,
    {
        Encoder { compress, granularity }
    }

    /// Hides `payload` in the plane. Without compression this succeeds
    /// exactly when the payload fits; with compression, the deflated bytes
    /// (whose inflation is the payload) take the payload's place, and the
    /// capacity verdict is about them. On failure the plane is untouched.
    pub fn encode(&self, plane: &mut Vec<u8>, payload: &Vec<u8>) -> (r: Result<(), StegError>)
        ensures
            self.compress == CompressInput::NoCompression ==> {
                &&& r is Ok <==> spec_fits(
                    old(plane)@.len() as int,
                    payload@.len() as int,
                    self.granularity,
                )
                &&& r is Ok ==> final(plane)@ == spec_stego_plane(
                    old(plane)@,
                    payload@,
                    self.granularity,
                    false,
                )
                &&& r is Err ==> final(plane)@ == old(plane)@
            },
            self.compress == CompressInput::Deflate ==> exists|c: Seq<u8>|
                {
                    &&& (#[trigger] inflate_of(c)) == Some(payload@)
                    &&& spec_fits(old(plane)@.len() as int, c.len() as int, self.granularity)
                        ==> (r is Ok && final(plane)@ == spec_stego_plane(
                        old(plane)@,
                        c,
                        self.granularity,
                        true,
                    ))
                    &&& !spec_fits(old(plane)@.len() as int, c.len() as int, self.granularity)
                        ==> (r is Err && final(plane)@ == old(plane)@)
                },
            r matches Err(e) ==> e == StegError::Capacity,
    {
        match self.compress {
            CompressInput::NoCompression => embed_bytes(plane, payload, self.granularity, false),
            CompressInput::Deflate => {
                let deflated = deflate_bytes(payload);
                let r = embed_bytes(plane, &deflated, self.granularity, true);
                proof {
                    assert(exists|c: Seq<u8>|
                        {
                            &&& (#[trigger] inflate_of(c)) == Some(payload@)
                            &&& spec_fits(
                                old(plane)@.len() as int,
                                c.len() as int,
                                self.granularity,
                            ) ==> (r is Ok && plane@ == spec_stego_plane(
                                old(plane)@,
                                c,
                                self.granularity,
                                true,
                            ))
                            &&& !spec_fits(
                                old(plane)@.len() as int,
                                c.len() as int,
                                self.granularity,
                            ) ==> (r is Err && plane@ == old(plane)@)
                        }) by {
                        assert(inflate_of(deflated@) == Some(payload@));
                    }
                }
                r
            },
        }
    }
}

/// An extraction engine; everything it needs is recovered from the plane.
pub struct Decoder {}

impl Decoder {
    /// A decoder. It takes no configuration: granularity and compression
    /// come from the embedded header alone.
    pub fn new() -> (r: Decoder) {
        Decoder {  }
    }

    /// Recovers the hidden payload from the plane, inflating it when the
    /// header says it was compressed.
    pub fn decode(&self, plane: &Vec<u8>) -> (r: Result<Vec<u8>, StegError>)
        ensures
            r matches Ok(v) ==> spec_decode_plane(plane@) == Ok::<Seq<u8>, StegError>(v@),
            r matches Err(e) ==> spec_decode_plane(plane@) == Err::<Seq<u8>, StegError>(e),
    {
        let (header, data) = match extract_bytes(plane) {
            Ok(p) => p,
            Err(e) => {
                return Err(e);
            },
        };
        if !header.compressed {
            return Ok(data);
        }
        match inflate_bytes(&data) {
            Some(v) => Ok(v),
            None => Err(StegError::CorruptData),
        }
    }
}

} // verus!
