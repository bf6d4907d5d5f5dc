//! Bridge between two BLS12-381 arithmetic libraries and the orchestration of
//! a bulletproof-style range proof over a Pedersen commitment.
//!
//! `codec` holds the verified byte-level encodings that carry field elements
//! and curve points from one library's representation to the other's;
//! `bridge` performs the conversions, calling the two libraries through
//! trusted wrappers; `rangeproof` holds the proof-generation and verification
//! orchestration: the magnitude cap, the bit-width derivation, the commitment
//! consistency decision and the error taxonomy.

pub mod bridge;
pub mod codec;
pub mod rangeproof;
