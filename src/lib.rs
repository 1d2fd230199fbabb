//! Nonce-ordered message lanes between a source chain and a target chain.
//!
//! The outbound side queues messages and prunes them once their delivery is
//! confirmed; the inbound side applies delivered messages strictly in nonce
//! order. Chain-specific proof checking, fee escrow and message dispatch are
//! capabilities supplied by the embedding runtime.
pub mod lane;
pub mod outbound;
pub mod inbound;
pub mod source_chain;
pub mod target_chain;
pub mod lanes;

