//! Matrix profile: for every fixed-length subsequence of a time series, the
//! z-normalized distance to its nearest non-trivial neighbour elsewhere in the
//! same series, together with that neighbour's start index.
//!
//! The crate verifies the discrete heart of the computation: parameter
//! validation, the exclusion zone around each reference index, and the
//! selection of nearest neighbours — the per-row minimum scan of the brute
//! force algorithm and the running column-wise minimum kept by the incremental
//! (STOMP-style) algorithm. These parts work on *distance codes*: `u32` values
//! whose unsigned order mirrors the order of the distances they stand for.
//! The bit pattern of a non-negative IEEE-754 single-precision value compares
//! under unsigned integer order exactly as the value itself, so a caller that
//! computes distances in single precision encodes each one as its bit pattern,
//! runs the verified selection, and decodes the chosen codes afterwards.
//!
//! The numeric kernels that produce the distances (rolling statistics, the
//! FFT-based sliding dot product, the incremental dot-product recurrence and
//! the z-normalized distance formula) are floating-point computations and live
//! with the unverified caller.

pub mod aggregate;
pub mod codes;
pub mod laws;
pub mod profile;
pub mod select;
pub mod zone;
