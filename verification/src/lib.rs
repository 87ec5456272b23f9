//! Structured reference strings for a univariate KZG polynomial commitment
//! scheme over BLS12-381.
//!
//! Field and group elements are held in their canonical compressed encodings,
//! so every contract speaks of plain byte sequences. The group arithmetic
//! itself is done by arkworks behind the small trusted boundary in [`curve`].

pub mod curve;
pub mod encoding;
pub mod error;
pub mod srs;
