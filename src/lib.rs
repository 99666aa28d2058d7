//! Verified core of a zero-knowledge proof that an image has a given PDQ
//! perceptual hash: the fixed-point DCT the circuit recomputes, the witness
//! builder that reconciles it with PDQ's float reference, the public-input
//! packing of the 256 hash bits, the algebra of the per-coefficient gadgets,
//! and the verifier's structural checks. Also the Regime A masked threshold
//! protocol prototype.
use vstd::prelude::*;

pub mod arith;
pub mod error;
pub mod fixed_dct;
pub mod hash_bits;
pub mod regime_a;
pub mod shape;
pub mod witness;
pub mod xorshift;

verus! {

} // verus!
