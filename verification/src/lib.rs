//! Least-significant-bit steganography engine.
//!
//! A payload is hidden inside the channel bytes of a raster image by
//! overwriting the low-order bits of each byte. A fixed-width header, always
//! written one bit per channel byte, records the format version, the bit
//! granularity of the payload region, whether the payload was compressed, and
//! the payload length, so extraction needs no information beyond the image
//! itself.

use vstd::prelude::*;

pub mod bits;
pub mod codec;
pub mod compress;
pub mod granularity;
pub mod header;
pub mod plane;

verus! {

/// Everything that can go wrong inside the engine. I/O failures belong to the
/// caller, which owns the streams.
#[derive(Clone, Copy, Debug, PartialEq, Eq, Structural)]
pub enum StegError {
    /// The cover image cannot hold the header and payload at the chosen
    /// granularity, or a decoded header declares a payload larger than the
    /// image could carry.
    Capacity,
    /// The header is not one this engine wrote: bad version, bad granularity
    /// code, or stray bits.
    Format,
    /// The payload was flagged as compressed but does not decompress.
    CorruptData,
}

impl StegError {
    /// A short human-readable description, for callers that report errors.
    pub fn message(&self) -> (r: &'static str) {
        match self {
            StegError::Capacity => "payload does not fit in the cover image",
            StegError::Format => "image does not contain a recognizable header",
            StegError::CorruptData => "embedded payload failed to decompress",
        }
    }
}

/// Declares std::io::Error so signatures here can carry it; the value is
/// opaque to the verifier.
#[verifier::external_type_specification]
#[verifier::external_body]
pub struct ExIoError(std::io::Error);

/// Relies on std::io::Error::new: wraps a message as an I/O error value.
#[verifier::external_body]
fn io_error_with_message(message: &str) -> std::io::Error {
    std::io::Error::new(std::io::ErrorKind::Other, message)
}

/// An engine error as an I/O error carrying its message, for callers that
/// surface engine failures through their I/O error channel.
pub fn err_to_io_error(error: StegError) -> std::io::Error {
    io_error_with_message(error.message())
}

} // verus!
