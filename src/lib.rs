//! Two-round MuSig2 multi-signatures over Ed25519 for a Solana-style chain:
//! key aggregation, nonce agreement, partial signing, signature aggregation,
//! a tagged wire codec, and the token-transfer transaction that is signed.
mod group;

pub mod cli;
pub mod error;
pub mod serialization;
pub mod token;
pub mod tss;
