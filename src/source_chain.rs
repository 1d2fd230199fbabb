//! Capabilities that the source chain's runtime supplies to its lanes.
use vstd::prelude::*;

use crate::inbound::InboundLaneData;
use crate::lane::{LaneId, Sender};

verus! {

/// Target chain API, used by the source chain to check target chain proofs.
///
/// Implementations must only accept finalized data that cannot change: a
/// proof of provisional state may lead to a stuck lane or to rewards that are
/// paid without a delivery.
pub trait TargetHeaderChain<Payload, AccountId> {
    /// Error type.
    type Error: core::fmt::Debug + Into<&'static str>;

    /// Proof that messages have been received by the target chain.
    type MessagesDeliveryProof;

    /// Checks a payload before it is accepted into the lane.
    ///
    /// An accepted payload must be deliverable: a delivery transaction that
    /// carries it must be admitted and executed by the target chain, or this
    /// and every later message of the lane can never be delivered.
    fn verify_message(payload: &Payload) -> Result<(), Self::Error>;

    /// Checks a delivery proof and returns the lane it is about together with
    /// that lane's inbound state on the target chain.
    fn verify_messages_delivery_proof(proof: Self::MessagesDeliveryProof) -> Result<
        (LaneId, InboundLaneData<AccountId>),
        Self::Error,
    >;
}

/// Lane-specific admission rules for messages, such as who may send over
/// which lane, and the fee that a message must carry.
pub trait LaneMessageVerifier<Submitter, Payload, Fee> {
    /// Error type.
    type Error: core::fmt::Debug + Into<&'static str>;

    /// Returns `Ok(())` if the message may be sent over the lane.
    fn verify_message(
        submitter: &Sender<Submitter>,
        delivery_and_dispatch_fee: &Fee,
        lane: &LaneId,
        payload: &Payload,
    ) -> Result<(), Self::Error>;
}

/// Fee escrow and relayer rewards.
///
/// The delivery and dispatch fee pays for the delivery transaction on the
/// target chain, for the dispatch of the message there, and for the delivery
/// confirmation transaction on the source chain, plus the relayers' margin.
pub trait MessageDeliveryAndDispatchPayment<AccountId, Balance> {
    /// Error type.
    type Error: core::fmt::Debug + Into<&'static str>;

    /// Moves `fee` from the submitter's account to the relayers fund account.
    fn pay_delivery_and_dispatch_fee(
        submitter: &Sender<AccountId>,
        fee: &Balance,
        relayer_fund_account: &AccountId,
    ) -> Result<(), Self::Error>;

    /// Pays `reward` out of the relayers fund account for one delivered
    /// message. How it is shared between the relayer that delivered the
    /// message and the one that confirmed the delivery is up to the
    /// implementation.
    fn pay_relayer_reward(
        confirmation_relayer: &AccountId,
        relayer: &AccountId,
        reward: &Balance,
        relayer_fund_account: &AccountId,
    );

    /// One-time setup, such as making sure that the fund account exists.
    /// Returns the number of storage reads performed.
    fn initialize(_relayer_fund_account: &AccountId) -> (r: usize)
        default_ensures
            r == 0,
    {
        0
    }
}

} // verus!
