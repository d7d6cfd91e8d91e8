//! Binary codec for fixed-size game-entity records.
//!
//! A record travels as a fixed-length byte buffer in one of two states:
//! obfuscated (block-shuffled and keystream-XORed, the on-disk form) or
//! clear (fields directly addressable by offset). This crate converts
//! between the two states with bit-exact fidelity, recomputes the record
//! checksum, and exposes typed field accessors together with the derived
//! values (shininess, individual stats, hidden-power type) that the format
//! defines by bit arithmetic.

pub mod pk9;
pub mod pkx;
pub mod poke_crypto;
pub mod reader;
pub mod types;
