//! A lossy media codec that compresses a raster image or a PCM audio stream
//! by approximating its sample matrix with a truncated low-rank factorization,
//! and reconstructs an approximation from the stored factor triplets.
//!
//! The crate covers the channel/sample adapters (including two bit-packing
//! aggregation schemes), the compression policy that picks a triplet count,
//! the binary container format for the factor triplets, and the reduce
//! operation that truncates an already-factored file. Factor scalars are
//! carried as their IEEE-754 bit patterns (`u32` for single precision, `u64`
//! for double precision), so the container layout is byte-exact.

use vstd::prelude::*;

pub mod aggregate;
pub mod decode;
pub mod encode;
pub mod format;
pub mod matrix;
pub mod media;
pub mod read;
pub mod write;

verus! {

/// A failure surfaced by an encode, decode or reduce operation.
#[derive(Debug, Clone, Copy, PartialEq, Eq, Structural)]
pub enum Error {
    /// The input stream ended before a read completed.
    FileReaderError(crate::read::FileReaderError),
    /// The destination file could not be written.
    FileWriteError,
    /// The input image file could not be opened.
    ImageReadError,
    /// The input image file could not be decoded.
    ImageFormatError,
    /// The factorization primitive produced no result.
    SVDError,
    /// The factorization primitive omitted the left or right factor set.
    NoSVDResult,
    /// A fixed-count policy asked for zero triplets.
    NTooSmall,
    /// A ratio policy resolved to zero triplets for the given file size.
    RatioTooRestrictive,
    /// A reduce asked for more triplets than the source file holds.
    NotEnoughVectorsInSource,
}

} // verus!
