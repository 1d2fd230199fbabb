//! Source-side lane state: the backlog of messages that await confirmation.
use vstd::prelude::*;

use crate::lane::{
    delivery_relayer_of, find_delivery_relayer, DeliveredMessages, LaneError, MessageNonce,
    RewardPayment,
};

verus! {

/// A message that was sent over the lane and is not yet confirmed as delivered.
pub struct OutboundMessage<Payload, Balance> {
    pub nonce: MessageNonce,
    pub payload: Payload,
    /// The delivery and dispatch fee held in escrow for this message.
    pub fee: Balance,
}

/// The outbound side of one lane.
pub struct OutboundLaneData<Payload, Balance> {
    latest_generated_nonce: MessageNonce,
    latest_received_nonce: MessageNonce,
    messages: Vec<OutboundMessage<Payload, Balance>>,
}

/// The abstract state of an outbound lane.
pub struct OutboundLaneView<Payload, Balance> {
    pub latest_generated_nonce: MessageNonce,
    pub latest_received_nonce: MessageNonce,
    /// The pending messages, in nonce order.
    pub pending: Seq<OutboundMessage<Payload, Balance>>,
}

impl<Payload, Balance> View for OutboundLaneData<Payload, Balance> {
    type V = OutboundLaneView<Payload, Balance>;

    closed spec fn view(&self) -> Self::V {
        OutboundLaneView {
            latest_generated_nonce: self.latest_generated_nonce,
            latest_received_nonce: self.latest_received_nonce,
            pending: self.messages@,
        }
    }
}

/// The reward owed for message `m` when `confirming` brings the proof of its
/// delivery, the delivering relayer being taken from `receipts`.
pub open spec fn reward_for<Payload, Balance, AccountId>(
    m: OutboundMessage<Payload, Balance>,
    receipts: Seq<DeliveredMessages<AccountId>>,
    confirming: AccountId,
) -> RewardPayment<AccountId, Balance> {
    RewardPayment {
        nonce: m.nonce,
        delivery_relayer: delivery_relayer_of(receipts, m.nonce, confirming),
        confirmation_relayer: confirming,
        reward: m.fee,
    }
}

impl<Payload, Balance> OutboundLaneView<Payload, Balance> {
    /// Confirmed nonces never pass generated ones, and the pending messages are
    /// exactly those with the nonces in between, in order.
    pub open spec fn wf(self) -> bool {
        &&& self.latest_received_nonce <= self.latest_generated_nonce
        &&& self.pending.len() == self.latest_generated_nonce - self.latest_received_nonce
        &&& forall|i: int|
            0 <= i < self.pending.len() ==> #[trigger] self.pending[i].nonce
                == self.latest_received_nonce + 1 + i
    }

    /// Whether one more message can get a nonce.
    pub open spec fn can_submit(self) -> bool {
        self.latest_generated_nonce < u64::MAX
    }

    /// The state after a message with `payload` and `fee` is queued.
    pub open spec fn submitted(self, payload: Payload, fee: Balance) -> Self {
        let nonce = (self.latest_generated_nonce + 1) as u64;
        OutboundLaneView {
            latest_generated_nonce: nonce,
            latest_received_nonce: self.latest_received_nonce,
            pending: self.pending.push(OutboundMessage { nonce, payload, fee }),
        }
    }

    /// Whether the delivery of all nonces up to `claimed` can be confirmed now:
    /// it confirms at least one new nonce and no nonce that was never sent.
    pub open spec fn can_confirm(self, claimed: MessageNonce) -> bool {
        self.latest_received_nonce < claimed <= self.latest_generated_nonce
    }

    /// The number of pending messages that a confirmation up to `claimed` prunes.
    pub open spec fn confirm_count(self, claimed: MessageNonce) -> int {
        claimed - self.latest_received_nonce
    }

    /// The state after the delivery of all nonces up to `claimed` is confirmed.
    pub open spec fn confirmed(self, claimed: MessageNonce) -> Self {
        OutboundLaneView {
            latest_generated_nonce: self.latest_generated_nonce,
            latest_received_nonce: claimed,
            pending: self.pending.skip(self.confirm_count(claimed)),
        }
    }

    /// The rewards owed when the delivery of all nonces up to `claimed` is
    /// confirmed: one for each pruned message, in nonce order.
    pub open spec fn confirm_rewards<AccountId>(
        self,
        claimed: MessageNonce,
        receipts: Seq<DeliveredMessages<AccountId>>,
        confirming: AccountId,
    ) -> Seq<RewardPayment<AccountId, Balance>> {
        Seq::new(
            self.confirm_count(claimed) as nat,
            |i: int| reward_for(self.pending[i], receipts, confirming),
        )
    }
}

impl<Payload, Balance> OutboundLaneData<Payload, Balance> {
    /// A lane on which nothing was sent.
    pub fn new() -> (r: Self)
        ensures
            r@.wf(),
            r@.latest_generated_nonce == 0,
            r@.latest_received_nonce == 0,
            r@.pending.len() == 0,
    {
        OutboundLaneData { latest_generated_nonce: 0, latest_received_nonce: 0, messages: Vec::new() }
    }

    /// The nonce given to the latest message sent.
    pub fn latest_generated_nonce(&self) -> (r: MessageNonce)
        ensures
            r == self@.latest_generated_nonce,
    {
        self.latest_generated_nonce
    }

    /// The latest nonce whose delivery was confirmed.
    pub fn latest_received_nonce(&self) -> (r: MessageNonce)
        ensures
            r == self@.latest_received_nonce,
    {
        self.latest_received_nonce
    }

    /// The pending messages, in nonce order.
    pub fn pending_messages(&self) -> (r: &Vec<OutboundMessage<Payload, Balance>>)
        ensures
            r@ == self@.pending,
    {
        &self.messages
    }

    /// The pending message with nonce `nonce`, if there is one.
    pub fn message(&self, nonce: MessageNonce) -> (r: Option<&OutboundMessage<Payload, Balance>>)
        requires
            self@.wf(),
        ensures
            r is Some <==> self@.latest_received_nonce < nonce <= self@.latest_generated_nonce,
            r matches Some(m) ==> m.nonce == nonce && *m == self@.pending[nonce
                - self@.latest_received_nonce - 1],
    {
        if nonce <= self.latest_received_nonce || nonce > self.latest_generated_nonce {
            None
        } else {
            let len = self.messages.len();
            assert(nonce - self.latest_received_nonce - 1 < len);
            let i = (nonce - self.latest_received_nonce - 1) as usize;
            Some(&self.messages[i])
        }
    }

    /// Queues a message under the next nonce, which it returns.
    pub fn push_message(&mut self, payload: Payload, fee: Balance) -> (r: MessageNonce)
        requires
            old(self)@.wf(),
            old(self)@.can_submit(),
        ensures
            final(self)@ == old(self)@.submitted(payload, fee),
            final(self)@.wf(),
            r == old(self)@.latest_generated_nonce + 1,
            r == final(self)@.latest_generated_nonce,
    {
        let nonce = self.latest_generated_nonce + 1;
        self.messages.push(OutboundMessage { nonce, payload, fee });
        self.latest_generated_nonce = nonce;
        nonce
    }

    /// Confirms the delivery of every nonce up to `claimed`: prunes those
    /// messages and returns the reward owed for each of them, in nonce order.
    /// The delivering relayer of each is taken from `receipts`, and is
    /// `confirming` where no receipt holds the nonce; the reward is the whole
    /// escrowed fee.
    pub fn confirm_delivery<AccountId: Copy>(
        &mut self,
        claimed: MessageNonce,
        receipts: &Vec<DeliveredMessages<AccountId>>,
        confirming: AccountId,
    ) -> (r: Result<Vec<RewardPayment<AccountId, Balance>>, LaneError>) where Balance: Copy
        requires
            old(self)@.wf(),
        ensures
            final(self)@.wf(),
            r is Err <==> !old(self)@.can_confirm(claimed),
            r is Err ==> r == Err::<Vec<RewardPayment<AccountId, Balance>>, LaneError>(
                LaneError::StaleOrFutureConfirmation,
            ) && final(self)@ == old(self)@,
            r matches Ok(rewards) ==> final(self)@ == old(self)@.confirmed(claimed) && rewards@
                == old(self)@.confirm_rewards(claimed, receipts@, confirming),
    {
        if claimed <= self.latest_received_nonce || claimed > self.latest_generated_nonce {
            return Err(LaneError::StaleOrFutureConfirmation);
        }
        let ghost old_view = self@;
        let len = self.messages.len();
        assert(claimed - self.latest_received_nonce <= len);
        let count = (claimed - self.latest_received_nonce) as usize;
        let mut pruned = self.messages.split_off(count);
        std::mem::swap(&mut pruned, &mut self.messages);
        self.latest_received_nonce = claimed;
        let mut rewards: Vec<RewardPayment<AccountId, Balance>> = Vec::new();
        let mut i: usize = 0;
        while i < pruned.len()
            invariant
                pruned@ == old_view.pending.take(count as int),
                count == old_view.confirm_count(claimed),
                count <= old_view.pending.len(),
                i <= pruned@.len(),
                rewards@ == old_view.confirm_rewards(claimed, receipts@, confirming).take(i as int),
            decreases pruned@.len() - i,
        {
            let m = &pruned[i];
            assert(*m == old_view.pending[i as int]);
            let delivery_relayer = find_delivery_relayer(receipts, m.nonce, confirming);
            rewards.push(
                RewardPayment {
                    nonce: m.nonce,
                    delivery_relayer,
                    confirmation_relayer: confirming,
                    reward: m.fee,
                },
            );
            assert(rewards@[i as int] == reward_for(old_view.pending[i as int], receipts@, confirming));
            assert(rewards@ =~= old_view.confirm_rewards(claimed, receipts@, confirming).take(
                i + 1,
            ));
            i = i + 1;
        }
        assert(rewards@ =~= old_view.confirm_rewards(claimed, receipts@, confirming));
        assert(self@.pending =~= old_view.pending.skip(count as int));
        Ok(rewards)
    }
}

/// The state after the messages of `messages` are submitted in order.
pub open spec fn submitted_all<Payload, Balance>(
    lane: OutboundLaneView<Payload, Balance>,
    messages: Seq<(Payload, Balance)>,
) -> OutboundLaneView<Payload, Balance>
    decreases messages.len(),
{
    if messages.len() == 0 {
        lane
    } else {
        submitted_all(lane, messages.drop_last()).submitted(messages.last().0, messages.last().1)
    }
}

/// Submitting a message keeps the lane well formed.
pub proof fn lemma_submitted_wf<Payload, Balance>(
    lane: OutboundLaneView<Payload, Balance>,
    payload: Payload,
    fee: Balance,
)
    requires
        lane.wf(),
        lane.can_submit(),
    ensures
        lane.submitted(payload, fee).wf(),
{
    let next = lane.submitted(payload, fee);
    assert forall|i: int| 0 <= i < next.pending.len() implies #[trigger] next.pending[i].nonce
        == next.latest_received_nonce + 1 + i by {
        if i < lane.pending.len() {
            assert(next.pending[i] == lane.pending[i]);
        }
    }
}

/// Every submit advances the latest generated nonce by exactly one: after a
/// sequence of submits it has grown by their number, and each one of them
/// adds one to the value the previous ones left.
pub proof fn lemma_generated_nonce_counts_submits<Payload, Balance>(
    lane: OutboundLaneView<Payload, Balance>,
    messages: Seq<(Payload, Balance)>,
)
    requires
        lane.wf(),
        lane.latest_generated_nonce + messages.len() <= u64::MAX,
    ensures
        submitted_all(lane, messages).wf(),
        submitted_all(lane, messages).latest_generated_nonce == lane.latest_generated_nonce
            + messages.len(),
        submitted_all(lane, messages).latest_received_nonce == lane.latest_received_nonce,
        forall|k: int|
            0 <= k < messages.len() ==> #[trigger] submitted_all(
                lane,
                messages.take(k + 1),
            ).latest_generated_nonce == submitted_all(lane, messages.take(k)).latest_generated_nonce
                + 1,
    decreases messages.len(),
{
    if messages.len() > 0 {
        let prefix = messages.drop_last();
        lemma_generated_nonce_counts_submits(lane, prefix);
        lemma_submitted_wf(submitted_all(lane, prefix), messages.last().0, messages.last().1);
        assert forall|k: int| 0 <= k < messages.len() implies #[trigger] submitted_all(
            lane,
            messages.take(k + 1),
        ).latest_generated_nonce == submitted_all(lane, messages.take(k)).latest_generated_nonce
            + 1 by {
            if k + 1 < messages.len() {
                assert(messages.take(k + 1) =~= prefix.take(k + 1));
                assert(messages.take(k) =~= prefix.take(k));
            } else {
                assert(messages.take(k + 1) =~= messages);
                assert(messages.take(k) =~= prefix);
            }
        }
    }
}

/// Submitting escrows the fee under a nonce that no pending message had: the
/// new message is the only pending one with that nonce, and it holds the fee.
pub proof fn lemma_submit_escrows_once<Payload, Balance>(
    lane: OutboundLaneView<Payload, Balance>,
    payload: Payload,
    fee: Balance,
)
    requires
        lane.wf(),
        lane.can_submit(),
    ensures
        ({
            let next = lane.submitted(payload, fee);
            let n = next.latest_generated_nonce;
            &&& next.pending.last().nonce == n
            &&& next.pending.last().fee == fee
            &&& forall|i: int|
                0 <= i < next.pending.len() - 1 ==> #[trigger] next.pending[i].nonce != n
        }),
{
    let next = lane.submitted(payload, fee);
    assert forall|i: int| 0 <= i < next.pending.len() - 1 implies #[trigger] next.pending[i].nonce
        != next.latest_generated_nonce by {
        assert(next.pending[i] == lane.pending[i]);
    }
}

/// After a confirmation up to `claimed` the lane is still well formed, no
/// pending message has a nonce up to `claimed`, and no confirmation up to
/// `claimed` or below is accepted again.
pub proof fn lemma_confirm_prunes<Payload, Balance>(
    lane: OutboundLaneView<Payload, Balance>,
    claimed: MessageNonce,
)
    requires
        lane.wf(),
        lane.can_confirm(claimed),
    ensures
        lane.confirmed(claimed).wf(),
        forall|i: int|
            0 <= i < lane.confirmed(claimed).pending.len() ==> #[trigger] lane.confirmed(
                claimed,
            ).pending[i].nonce > claimed,
        forall|c: MessageNonce| c <= claimed ==> !#[trigger] lane.confirmed(claimed).can_confirm(c),
{
    let next = lane.confirmed(claimed);
    let k = lane.confirm_count(claimed);
    assert forall|i: int| 0 <= i < next.pending.len() implies #[trigger] next.pending[i].nonce
        == next.latest_received_nonce + 1 + i by {
        assert(next.pending[i] == lane.pending[i + k]);
    }
}

/// The rewards of a confirmation up to `claimed` are for the nonces that
/// follow the previously confirmed one, one reward each, in order.
pub proof fn lemma_confirm_reward_nonces<Payload, Balance, AccountId>(
    lane: OutboundLaneView<Payload, Balance>,
    claimed: MessageNonce,
    receipts: Seq<DeliveredMessages<AccountId>>,
    confirming: AccountId,
)
    requires
        lane.wf(),
        lane.can_confirm(claimed),
    ensures
        lane.confirm_rewards(claimed, receipts, confirming).len() == claimed
            - lane.latest_received_nonce,
        forall|i: int|
            0 <= i < lane.confirm_rewards(claimed, receipts, confirming).len()
                ==> #[trigger] lane.confirm_rewards(claimed, receipts, confirming)[i].nonce
                == lane.latest_received_nonce + 1 + i,
{
}

/// Rewards are paid once: after a confirmation up to `c1`, any confirmation
/// that is accepted next pays only for nonces past `c1`.
pub proof fn lemma_rewards_paid_once<Payload, Balance, AccountId>(
    lane: OutboundLaneView<Payload, Balance>,
    c1: MessageNonce,
    c2: MessageNonce,
    receipts: Seq<DeliveredMessages<AccountId>>,
    confirming: AccountId,
)
    requires
        lane.wf(),
        lane.can_confirm(c1),
    ensures
        lane.confirmed(c1).can_confirm(c2) ==> forall|i: int|
            0 <= i < lane.confirmed(c1).confirm_rewards(c2, receipts, confirming).len()
                ==> #[trigger] lane.confirmed(c1).confirm_rewards(c2, receipts, confirming)[i].nonce
                > c1,
{
    lemma_confirm_prunes(lane, c1);
}

/// Escrow is released exactly once: for a pending message with nonce `n`, a
/// confirmation up to `claimed` either pays exactly one reward for `n`, equal
/// to the escrowed fee, and removes the message, or (when `n` is past
/// `claimed`) pays nothing for `n` and keeps the message as it was.
pub proof fn lemma_escrow_released_once<Payload, Balance, AccountId>(
    lane: OutboundLaneView<Payload, Balance>,
    claimed: MessageNonce,
    receipts: Seq<DeliveredMessages<AccountId>>,
    confirming: AccountId,
    n: MessageNonce,
)
    requires
        lane.wf(),
        lane.can_confirm(claimed),
        lane.latest_received_nonce < n <= lane.latest_generated_nonce,
    ensures
        ({
            let m = lane.pending[n - lane.latest_received_nonce - 1];
            let rewards = lane.confirm_rewards(claimed, receipts, confirming);
            let next = lane.confirmed(claimed);
            &&& m.nonce == n
            &&& n <= claimed ==> {
                &&& rewards[n - lane.latest_received_nonce - 1].nonce == n
                &&& rewards[n - lane.latest_received_nonce - 1].reward == m.fee
                &&& forall|i: int|
                    0 <= i < rewards.len() && #[trigger] rewards[i].nonce == n ==> i == n
                        - lane.latest_received_nonce - 1
                &&& forall|i: int| 0 <= i < next.pending.len() ==> #[trigger] next.pending[i].nonce != n
            }
            &&& n > claimed ==> {
                &&& forall|i: int| 0 <= i < rewards.len() ==> #[trigger] rewards[i].nonce != n
                &&& next.pending[n - claimed - 1] == m
            }
        }),
{
    lemma_confirm_prunes(lane, claimed);
    lemma_confirm_reward_nonces(lane, claimed, receipts, confirming);
}

} // verus!
