//! The lane operations: sending a message, applying delivered messages, and
//! confirming deliveries, each wired to the lane states and capabilities.
use vstd::prelude::*;

use crate::inbound::{InboundLaneData, InboundLaneView};
use crate::lane::{LaneError, LaneId, MessageNonce, RewardPayment, Sender};
use crate::outbound::{OutboundLaneData, OutboundLaneView};
use crate::source_chain::{
    LaneMessageVerifier, MessageDeliveryAndDispatchPayment, TargetHeaderChain,
};
use crate::target_chain::{MessageDispatch, ProvedMessages, SourceHeaderChain};

verus! {

/// What the dispatch handler made of one delivered message.
#[derive(Clone, Copy, Debug, PartialEq, Eq)]
pub struct DispatchOutcome {
    pub nonce: MessageNonce,
    pub dispatched: bool,
}

/// Whether two lane identifiers are the same.
pub fn same_lane(a: &LaneId, b: &LaneId) -> (r: bool)
    ensures
        r == (a@ == b@),
{
    let r = a[0] == b[0] && a[1] == b[1] && a[2] == b[2] && a[3] == b[3];
    if r {
        assert(a@ =~= b@);
    }
    r
}

/// Creates the outbound side of a new lane and performs the payment
/// capability's one-time setup for its relayers fund account. Returns the
/// empty lane and the number of storage reads the setup reported.
pub fn create_outbound_lane<Payload, AccountId, Balance, P>(relayer_fund_account: &AccountId) -> (r: (
    OutboundLaneData<Payload, Balance>,
    usize,
)) where P: MessageDeliveryAndDispatchPayment<AccountId, Balance>
    ensures
        r.0@.wf(),
        r.0@.latest_generated_nonce == 0,
        r.0@.latest_received_nonce == 0,
        r.0@.pending.len() == 0,
{
    let reads = P::initialize(relayer_fund_account);
    (OutboundLaneData::new(), reads)
}

/// Sends a message over the lane: the payload is checked against the target
/// chain's rules and the lane's own, the fee is withheld from the submitter,
/// and only then is the message queued under the next nonce. A refused
/// message changes nothing. The fee is withheld at most once per call, and
/// only after both checks passed.
pub fn send_message<Payload, AccountId, Balance, T, V, P>(
    lane_id: &LaneId,
    lane: &mut OutboundLaneData<Payload, Balance>,
    submitter: &Sender<AccountId>,
    payload: Payload,
    fee: Balance,
    relayer_fund_account: &AccountId,
) -> (r: Result<MessageNonce, LaneError>) where
    T: TargetHeaderChain<Payload, AccountId>,
    V: LaneMessageVerifier<AccountId, Payload, Balance>,
    P: MessageDeliveryAndDispatchPayment<AccountId, Balance>,

    requires
        old(lane)@.wf(),
    ensures
        final(lane)@.wf(),
        r == Err::<MessageNonce, LaneError>(LaneError::NonceOverflow) <==> !old(
            lane,
        )@.can_submit(),
        match r {
            Ok(nonce) => final(lane)@ == old(lane)@.submitted(payload, fee) && nonce
                == final(lane)@.latest_generated_nonce,
            Err(e) => final(lane)@ == old(lane)@ && (e == LaneError::RejectedPayload || e
                == LaneError::PaymentFailure || e == LaneError::NonceOverflow),
        },
{
    if lane.latest_generated_nonce() == u64::MAX {
        return Err(LaneError::NonceOverflow);
    }
    if T::verify_message(&payload).is_err() {
        return Err(LaneError::RejectedPayload);
    }
    if V::verify_message(submitter, &fee, lane_id, &payload).is_err() {
        return Err(LaneError::RejectedPayload);
    }
    if P::pay_delivery_and_dispatch_fee(submitter, &fee, relayer_fund_account).is_err() {
        return Err(LaneError::PaymentFailure);
    }
    Ok(lane.push_message(payload, fee))
}

/// The outcome of applying `messages` to an inbound lane of identifier
/// `lane_id` whose state is `lane`, the delivery being made by `relayer`.
pub open spec fn receive_outcome<Payload, AccountId>(
    lane_id: LaneId,
    lane: InboundLaneView<AccountId>,
    relayer: AccountId,
    messages: ProvedMessages<Payload>,
) -> Result<InboundLaneView<AccountId>, LaneError> {
    if messages.lane@ != lane_id@ {
        Err(LaneError::InvalidProof)
    } else {
        lane.receive(relayer, messages.begin, messages.payloads@.len())
    }
}

/// Applies proved messages to the inbound lane: the range must start right
/// after the latest applied nonce. Each message is then handed to the
/// dispatch handler in nonce order; a failed dispatch is recorded in the
/// result and does not stop the lane. A refused range changes nothing.
///
/// The handler is called exactly once for each delivered message, and the
/// returned outcomes are, in order, exactly what those calls answered.
pub fn receive_messages<Payload, AccountId, D>(
    lane_id: &LaneId,
    lane: &mut InboundLaneData<AccountId>,
    relayer: AccountId,
    messages: ProvedMessages<Payload>,
) -> (r: Result<Vec<DispatchOutcome>, LaneError>) where D: MessageDispatch<Payload>
    requires
        old(lane)@.wf(),
    ensures
        final(lane)@.wf(),
        match receive_outcome(*lane_id, old(lane)@, relayer, messages) {
            Ok(next) => r is Ok && final(lane)@ == next,
            Err(e) => r == Err::<Vec<DispatchOutcome>, LaneError>(e) && final(lane)@ == old(
                lane,
            )@,
        },
        r matches Ok(outcomes) ==> outcomes@.len() == messages.payloads@.len() && forall|i: int|
            0 <= i < outcomes@.len() ==> #[trigger] outcomes@[i].nonce == messages.begin + i,
{
    if !same_lane(&messages.lane, lane_id) {
        return Err(LaneError::InvalidProof);
    }
    let count = messages.payloads.len();
    match lane.accept_messages(relayer, messages.begin, count) {
        Err(e) => Err(e),
        Ok(end) => {
            let begin = messages.begin;
            let mut outcomes: Vec<DispatchOutcome> = Vec::new();
            let mut i: usize = 0;
            while i < count
                invariant
                    count == messages.payloads@.len(),
                    begin + count - 1 == end,
                    i <= count,
                    outcomes@.len() == i,
                    forall|j: int| 0 <= j < i ==> #[trigger] outcomes@[j].nonce == begin + j,
                decreases count - i,
            {
                let nonce = begin + i as u64;
                let dispatched = D::dispatch(lane_id, nonce, &messages.payloads[i]);
                outcomes.push(DispatchOutcome { nonce, dispatched });
                i = i + 1;
            }
            Ok(outcomes)
        },
    }
}

/// Checks a messages proof and applies the messages that it holds, as
/// `receive_messages` does. A proof that fails verification is refused with
/// `InvalidProof` and changes nothing.
pub fn receive_messages_proof<Payload, AccountId, S, D>(
    lane_id: &LaneId,
    lane: &mut InboundLaneData<AccountId>,
    relayer: AccountId,
    proof: S::MessagesProof,
) -> (r: Result<Vec<DispatchOutcome>, LaneError>) where
    S: SourceHeaderChain<Payload>,
    D: MessageDispatch<Payload>,

    requires
        old(lane)@.wf(),
    ensures
        final(lane)@.wf(),
        r is Err ==> final(lane)@ == old(lane)@,
        r matches Ok(outcomes) ==> outcomes@.len() > 0 && final(lane)@ == old(lane)@.received(
            relayer,
            outcomes@.len(),
        ) && forall|i: int|
            0 <= i < outcomes@.len() ==> #[trigger] outcomes@[i].nonce
                == old(lane)@.latest_received_nonce + 1 + i,
{
    match S::verify_messages_proof(proof) {
        Err(_) => Err(LaneError::InvalidProof),
        Ok(messages) => receive_messages::<Payload, AccountId, D>(lane_id, lane, relayer, messages),
    }
}

/// The outcome of a delivery proof for lane `proved_lane` with the inbound
/// state `inbound`, on the outbound lane of identifier `lane_id` whose state
/// is `lane`, brought by `confirming`: the new state and the rewards owed.
pub open spec fn confirm_outcome<Payload, AccountId, Balance>(
    lane_id: LaneId,
    lane: OutboundLaneView<Payload, Balance>,
    proved_lane: LaneId,
    inbound: InboundLaneView<AccountId>,
    confirming: AccountId,
) -> Result<(OutboundLaneView<Payload, Balance>, Seq<RewardPayment<AccountId, Balance>>), LaneError> {
    if proved_lane@ != lane_id@ {
        Err(LaneError::InvalidProof)
    } else if !lane.can_confirm(inbound.latest_received_nonce) {
        Err(LaneError::StaleOrFutureConfirmation)
    } else {
        Ok(
            (
                lane.confirmed(inbound.latest_received_nonce),
                lane.confirm_rewards(inbound.latest_received_nonce, inbound.relayers, confirming),
            ),
        )
    }
}

/// Confirms deliveries from the proved inbound state of the lane: every
/// pending message up to its latest received nonce is pruned, and the reward
/// owed for each is returned in nonce order. A confirmation that is for
/// another lane, confirms nothing new, or confirms a nonce that was never
/// sent is refused and changes nothing.
pub fn confirm_messages_delivery<Payload, AccountId: Copy, Balance: Copy>(
    lane_id: &LaneId,
    lane: &mut OutboundLaneData<Payload, Balance>,
    proved_lane: &LaneId,
    inbound: &InboundLaneData<AccountId>,
    confirming: AccountId,
) -> (r: Result<Vec<RewardPayment<AccountId, Balance>>, LaneError>)
    requires
        old(lane)@.wf(),
    ensures
        final(lane)@.wf(),
        match confirm_outcome(*lane_id, old(lane)@, *proved_lane, inbound@, confirming) {
            Ok((next, rewards)) => r matches Ok(paid) && paid@ == rewards && final(lane)@ == next,
            Err(e) => r == Err::<Vec<RewardPayment<AccountId, Balance>>, LaneError>(e)
                && final(lane)@ == old(lane)@,
        },
{
    if !same_lane(proved_lane, lane_id) {
        return Err(LaneError::InvalidProof);
    }
    lane.confirm_delivery(inbound.latest_received_nonce, &inbound.relayers, confirming)
}

/// Checks a delivery proof, confirms the deliveries that it shows as
/// `confirm_messages_delivery` does, and pays each reward owed, once per
/// confirmed message, in nonce order. The returned list is exactly the
/// rewards paid: `pay_relayer_reward` is called once for each of its entries
/// and for nothing else. The list itself is the one that
/// `confirm_messages_delivery` states exactly. A proof that
/// fails verification is refused with `InvalidProof` and changes nothing.
pub fn receive_messages_delivery_proof<Payload, AccountId: Copy, Balance: Copy, T, P>(
    lane_id: &LaneId,
    lane: &mut OutboundLaneData<Payload, Balance>,
    proof: T::MessagesDeliveryProof,
    confirming: AccountId,
    relayer_fund_account: &AccountId,
) -> (r: Result<Vec<RewardPayment<AccountId, Balance>>, LaneError>) where
    T: TargetHeaderChain<Payload, AccountId>,
    P: MessageDeliveryAndDispatchPayment<AccountId, Balance>,

    requires
        old(lane)@.wf(),
    ensures
        final(lane)@.wf(),
        r is Err ==> final(lane)@ == old(lane)@,
        r matches Ok(paid) ==> exists|inbound: InboundLaneView<AccountId>|
            #[trigger] old(lane)@.can_confirm(inbound.latest_received_nonce) && final(lane)@
                == old(lane)@.confirmed(inbound.latest_received_nonce) && paid@ == old(
                lane,
            )@.confirm_rewards(inbound.latest_received_nonce, inbound.relayers, confirming),
{
    let (proved_lane, inbound) = match T::verify_messages_delivery_proof(proof) {
        Err(_) => return Err(LaneError::InvalidProof),
        Ok(proved) => proved,
    };
    let rewards = confirm_messages_delivery(lane_id, lane, &proved_lane, &inbound, confirming)?;
    let mut i: usize = 0;
    while i < rewards.len()
        invariant
            i <= rewards@.len(),
        decreases rewards@.len() - i,
    {
        let reward = &rewards[i];
        P::pay_relayer_reward(
            &reward.confirmation_relayer,
            &reward.delivery_relayer,
            &reward.reward,
            relayer_fund_account,
        );
        i = i + 1;
    }
    Ok(rewards)
}

} // verus!
