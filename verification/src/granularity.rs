//! The bit-packing densities the engine supports, and the compression choice
//! an encoder is configured with.

use vstd::prelude::*;

verus! {

/// How many low-order bits of each channel byte carry hidden data.
///
/// The header region is always written at one bit per channel byte; the
/// payload region uses whichever granularity the encoder was configured with,
/// as recorded in the header.
#[derive(Clone, Copy, Debug, PartialEq, Eq, Structural)]
pub enum ByteSplitGranularity {
    /// One bit per channel byte: least visible, largest footprint.
    OneBit,
    /// Two bits per channel byte.
    TwoBits,
    /// Four bits per channel byte: densest, most visible.
    FourBits,
}

impl ByteSplitGranularity {
    /// The number of payload bits carried by one channel byte: 1, 2 or 4.
    pub open spec fn spec_bits(self) -> u8 {
        match self {
            ByteSplitGranularity::OneBit => 1,
            ByteSplitGranularity::TwoBits => 2,
            ByteSplitGranularity::FourBits => 4,
        }
    }

    /// Executable twin of [`Self::spec_bits`].
    #[verifier::when_used_as_spec(spec_bits)]
    pub fn bits(self) -> (r: u8)
        ensures
            r == self.spec_bits(),
    {
        match self {
            ByteSplitGranularity::OneBit => 1,
            ByteSplitGranularity::TwoBits => 2,
            ByteSplitGranularity::FourBits => 4,
        }
    }

    /// How many bit groups one payload byte splits into: 8, 4 or 2.
    /// Since each granularity divides 8 evenly, no padding group ever exists.
    pub open spec fn spec_groups_per_byte(self) -> u8 {
        match self {
            ByteSplitGranularity::OneBit => 8,
            ByteSplitGranularity::TwoBits => 4,
            ByteSplitGranularity::FourBits => 2,
        }
    }

    /// Executable twin of [`Self::spec_groups_per_byte`].
    #[verifier::when_used_as_spec(spec_groups_per_byte)]
    pub fn groups_per_byte(self) -> (r: u8)
        ensures
            r == self.spec_groups_per_byte(),
    {
        match self {
            ByteSplitGranularity::OneBit => 8,
            ByteSplitGranularity::TwoBits => 4,
            ByteSplitGranularity::FourBits => 2,
        }
    }

    /// The mask selecting the low bits a group occupies: 0x01, 0x03 or 0x0f.
    pub open spec fn spec_mask(self) -> u8 {
        match self {
            ByteSplitGranularity::OneBit => 0x01,
            ByteSplitGranularity::TwoBits => 0x03,
            ByteSplitGranularity::FourBits => 0x0f,
        }
    }

    /// Executable twin of [`Self::spec_mask`].
    #[verifier::when_used_as_spec(spec_mask)]
    pub fn mask(self) -> (r: u8)
        ensures
            r == self.spec_mask(),
    {
        match self {
            ByteSplitGranularity::OneBit => 0x01,
            ByteSplitGranularity::TwoBits => 0x03,
            ByteSplitGranularity::FourBits => 0x0f,
        }
    }
}

/// Whether an encoder compresses the payload before embedding it.
#[derive(Clone, Copy, Debug, PartialEq, Eq, Structural)]
pub enum CompressInput {
    /// Embed the payload bytes as supplied.
    NoCompression,
    /// DEFLATE the payload first; the header's compressed flag tells the
    /// decoder to inflate after extraction.
    Deflate,
}

} // verus!
