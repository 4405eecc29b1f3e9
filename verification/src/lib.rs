//! Perceptual-hash fingerprints for images, and the Hamming distance
//! used to rank fingerprints by similarity.
//!
//! Two stateless components: a fingerprint generator (image bytes to a
//! fixed-length packed bit vector, with a canonical base64 text form)
//! and a distance scorer (two equal-length byte buffers to the number
//! of differing bits).

use vstd::prelude::*;

pub mod base64;
pub mod distance;
pub mod generate;

verus! {

} // verus!
