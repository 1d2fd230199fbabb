//! Identifiers, nonces, receipts and errors shared by both sides of a lane.
use vstd::prelude::*;

verus! {

/// Identifier of a lane.
pub type LaneId = [u8; 4];

/// Sequence number of a message within one lane.
pub type MessageNonce = u64;

/// The origin of a message: the chain's root, a signed account, or no one.
#[derive(Clone, Copy, Debug, PartialEq, Eq)]
pub enum Sender<AccountId> {
    Root,
    Signed(AccountId),
    Unsigned,
}

/// A record of one relayer having delivered the nonces `begin..=end`.
#[derive(Clone, Copy, Debug, PartialEq, Eq)]
pub struct DeliveredMessages<AccountId> {
    pub relayer: AccountId,
    pub begin: MessageNonce,
    pub end: MessageNonce,
}

/// A reward owed for one delivered and confirmed message.
#[derive(Clone, Copy, Debug, PartialEq, Eq)]
pub struct RewardPayment<AccountId, Balance> {
    pub nonce: MessageNonce,
    /// The relayer that delivered the message to the target chain.
    pub delivery_relayer: AccountId,
    /// The relayer that brought the delivery proof back to the source chain.
    pub confirmation_relayer: AccountId,
    /// The fee that was escrowed when the message was sent.
    pub reward: Balance,
}

/// Why a lane operation was refused. A refused operation changes no lane state.
#[derive(Clone, Copy, Debug, PartialEq, Eq)]
pub enum LaneError {
    /// The payload was refused by the target chain rules or the lane's verifier.
    RejectedPayload,
    /// The delivery and dispatch fee could not be withheld from the submitter.
    PaymentFailure,
    /// A proof failed verification, is for another lane, or carries no messages.
    InvalidProof,
    /// The delivered range starts after the next expected nonce.
    NonceGap,
    /// The delivered range starts at a nonce that was already applied.
    NonceReplay,
    /// The confirmed nonce does not lie past the confirmed ones and within the sent ones.
    StaleOrFutureConfirmation,
    /// The lane has used up its nonces.
    NonceOverflow,
}

impl LaneError {
    /// A static description of the error.
    pub fn as_str(&self) -> (r: &'static str)
        ensures
            *self == LaneError::RejectedPayload ==> r@ == "rejected payload"@,
            *self == LaneError::PaymentFailure ==> r@ == "payment failure"@,
            *self == LaneError::InvalidProof ==> r@ == "invalid proof"@,
            *self == LaneError::NonceGap ==> r@ == "nonce gap"@,
            *self == LaneError::NonceReplay ==> r@ == "nonce replay"@,
            *self == LaneError::StaleOrFutureConfirmation ==> r@ == "stale or future confirmation"@,
            *self == LaneError::NonceOverflow ==> r@ == "nonce overflow"@,
    {
        match self {
            LaneError::RejectedPayload => "rejected payload",
            LaneError::PaymentFailure => "payment failure",
            LaneError::InvalidProof => "invalid proof",
            LaneError::NonceGap => "nonce gap",
            LaneError::NonceReplay => "nonce replay",
            LaneError::StaleOrFutureConfirmation => "stale or future confirmation",
            LaneError::NonceOverflow => "nonce overflow",
        }
    }
}

/// The relayer credited with delivering nonce `n`: that of the first receipt
/// whose range holds `n`, or `fallback` where no receipt does.
pub open spec fn delivery_relayer_of<AccountId>(
    receipts: Seq<DeliveredMessages<AccountId>>,
    n: MessageNonce,
    fallback: AccountId,
) -> AccountId
    decreases receipts.len(),
{
    if receipts.len() == 0 {
        fallback
    } else if receipts[0].begin <= n && n <= receipts[0].end {
        receipts[0].relayer
    } else {
        delivery_relayer_of(receipts.drop_first(), n, fallback)
    }
}

/// Finds the relayer credited with delivering nonce `n`.
pub fn find_delivery_relayer<AccountId: Copy>(
    receipts: &Vec<DeliveredMessages<AccountId>>,
    n: MessageNonce,
    fallback: AccountId,
) -> (r: AccountId)
    ensures
        r == delivery_relayer_of(receipts@, n, fallback),
{
    let mut i: usize = 0;
    assert(receipts@.skip(0) =~= receipts@);
    while i < receipts.len()
        invariant
            i <= receipts@.len(),
            delivery_relayer_of(receipts@, n, fallback) == delivery_relayer_of(
                receipts@.skip(i as int),
                n,
                fallback,
            ),
        decreases receipts@.len() - i,
    {
        let ghost rest = receipts@.skip(i as int);
        assert(rest.drop_first() =~= receipts@.skip(i + 1));
        let receipt = &receipts[i];
        if receipt.begin <= n && n <= receipt.end {
            return receipt.relayer;
        }
        i = i + 1;
    }
    assert(receipts@.skip(i as int).len() == 0);
    fallback
}

} // verus!
