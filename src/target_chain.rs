//! Capabilities that the target chain's runtime supplies to its lanes.
use vstd::prelude::*;

use crate::lane::{LaneId, MessageNonce};

verus! {

/// The messages that a proof shows to be sent over a lane: the payloads of
/// the nonces `begin`, `begin + 1`, and so on.
pub struct ProvedMessages<Payload> {
    pub lane: LaneId,
    pub begin: MessageNonce,
    pub payloads: Vec<Payload>,
}

/// Source chain API, used by the target chain to check source chain proofs.
///
/// Implementations must only accept finalized data that cannot change.
pub trait SourceHeaderChain<Payload> {
    /// Error type.
    type Error: core::fmt::Debug + Into<&'static str>;

    /// Proof that messages were sent over a lane of the source chain.
    type MessagesProof;

    /// Checks a messages proof and returns the messages that it holds.
    fn verify_messages_proof(proof: Self::MessagesProof) -> Result<
        ProvedMessages<Payload>,
        Self::Error,
    >;
}

/// The application-defined handler of delivered messages.
pub trait MessageDispatch<Payload> {
    /// Handles one message; returns whether the handler succeeded.
    fn dispatch(lane: &LaneId, nonce: MessageNonce, payload: &Payload) -> bool;
}

} // verus!
