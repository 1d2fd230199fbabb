//! Target-side lane state: the latest applied nonce and who delivered what.
use vstd::prelude::*;

use crate::lane::{DeliveredMessages, LaneError, MessageNonce};

verus! {

/// The inbound side of one lane, as stored on the target chain and as proved
/// back to the source chain.
pub struct InboundLaneData<AccountId> {
    /// The latest nonce that was applied.
    pub latest_received_nonce: MessageNonce,
    /// Which relayer delivered which nonces, in delivery order.
    pub relayers: Vec<DeliveredMessages<AccountId>>,
}

/// The abstract state of an inbound lane.
pub struct InboundLaneView<AccountId> {
    pub latest_received_nonce: MessageNonce,
    pub relayers: Seq<DeliveredMessages<AccountId>>,
}

impl<AccountId> View for InboundLaneData<AccountId> {
    type V = InboundLaneView<AccountId>;

    open spec fn view(&self) -> Self::V {
        InboundLaneView { latest_received_nonce: self.latest_received_nonce, relayers: self.relayers@ }
    }
}

impl<AccountId> InboundLaneView<AccountId> {
    /// The receipts cover the nonces `1..=latest_received_nonce`, each once,
    /// in order and without gaps.
    pub open spec fn wf(self) -> bool {
        &&& self.relayers.len() == 0 ==> self.latest_received_nonce == 0
        &&& self.relayers.len() > 0 ==> {
            &&& self.relayers[0].begin == 1
            &&& self.relayers.last().end == self.latest_received_nonce
        }
        &&& forall|i: int|
            0 <= i < self.relayers.len() ==> #[trigger] self.relayers[i].begin
                <= self.relayers[i].end
        &&& forall|i: int|
            0 < i < self.relayers.len() ==> #[trigger] self.relayers[i].begin == self.relayers[i
                - 1].end + 1
    }

    /// Why a delivery of `count` messages starting at `begin` is refused, if it is.
    pub open spec fn receive_error(self, begin: MessageNonce, count: nat) -> Option<LaneError> {
        if count == 0 {
            Some(LaneError::InvalidProof)
        } else if begin <= self.latest_received_nonce {
            Some(LaneError::NonceReplay)
        } else if begin > self.latest_received_nonce + 1 {
            Some(LaneError::NonceGap)
        } else if self.latest_received_nonce + count > u64::MAX {
            Some(LaneError::NonceOverflow)
        } else {
            None
        }
    }

    /// The state after `relayer` delivered `count` messages following the latest one.
    pub open spec fn received(self, relayer: AccountId, count: nat) -> Self {
        let end = (self.latest_received_nonce + count) as u64;
        InboundLaneView {
            latest_received_nonce: end,
            relayers: self.relayers.push(
                DeliveredMessages {
                    relayer,
                    begin: (self.latest_received_nonce + 1) as u64,
                    end,
                },
            ),
        }
    }

    /// The outcome of a delivery of `count` messages starting at `begin`.
    pub open spec fn receive(self, relayer: AccountId, begin: MessageNonce, count: nat) -> Result<
        Self,
        LaneError,
    > {
        match self.receive_error(begin, count) {
            Some(e) => Err(e),
            None => Ok(self.received(relayer, count)),
        }
    }
}

impl<AccountId> InboundLaneData<AccountId> {
    /// A lane on which nothing was received.
    pub fn new() -> (r: Self)
        ensures
            r@.wf(),
            r@.latest_received_nonce == 0,
            r@.relayers.len() == 0,
    {
        InboundLaneData { latest_received_nonce: 0, relayers: Vec::new() }
    }

    /// Records that `relayer` delivered `count` messages starting at `begin`,
    /// and returns the nonce of the last of them. The range must follow the
    /// latest applied nonce exactly; a refused range changes nothing.
    pub fn accept_messages(&mut self, relayer: AccountId, begin: MessageNonce, count: usize) -> (r:
        Result<MessageNonce, LaneError>)
        requires
            old(self)@.wf(),
        ensures
            final(self)@.wf(),
            match old(self)@.receive(relayer, begin, count as nat) {
                Ok(next) => r == Ok::<MessageNonce, LaneError>(next.latest_received_nonce)
                    && final(self)@ == next,
                Err(e) => r == Err::<MessageNonce, LaneError>(e) && final(self)@ == old(self)@,
            },
    {
        if count == 0 {
            return Err(LaneError::InvalidProof);
        }
        if begin <= self.latest_received_nonce {
            return Err(LaneError::NonceReplay);
        }
        if begin - 1 > self.latest_received_nonce {
            return Err(LaneError::NonceGap);
        }
        if count as u128 > (u64::MAX - self.latest_received_nonce) as u128 {
            return Err(LaneError::NonceOverflow);
        }
        let end = self.latest_received_nonce + count as u64;
        self.relayers.push(DeliveredMessages { relayer, begin, end });
        self.latest_received_nonce = end;
        Ok(end)
    }
}

/// An accepted delivery keeps the lane well formed.
pub proof fn lemma_received_wf<AccountId>(
    lane: InboundLaneView<AccountId>,
    relayer: AccountId,
    count: nat,
)
    requires
        lane.wf(),
        count > 0,
        lane.latest_received_nonce + count <= u64::MAX,
    ensures
        lane.received(relayer, count).wf(),
{
    let next = lane.received(relayer, count);
    assert forall|i: int| 0 < i < next.relayers.len() implies #[trigger] next.relayers[i].begin
        == next.relayers[i - 1].end + 1 by {
        if i < lane.relayers.len() {
            assert(next.relayers[i] == lane.relayers[i]);
            assert(next.relayers[i - 1] == lane.relayers[i - 1]);
        }
    }
    assert forall|i: int| 0 <= i < next.relayers.len() implies #[trigger] next.relayers[i].begin
        <= next.relayers[i].end by {
        if i < lane.relayers.len() {
            assert(next.relayers[i] == lane.relayers[i]);
        }
    }
}

/// The latest received nonce never decreases and never skips: an accepted
/// delivery of `count` messages from `begin` starts right after it and moves
/// it to exactly the end of the range, and the next delivery is accepted only
/// if it starts right after that end.
pub proof fn lemma_receive_contiguous<AccountId>(
    lane: InboundLaneView<AccountId>,
    relayer: AccountId,
    begin: MessageNonce,
    count: nat,
    next_relayer: AccountId,
    next_begin: MessageNonce,
    next_count: nat,
)
    requires
        lane.wf(),
        lane.receive(relayer, begin, count) is Ok,
    ensures
        ({
            let next = lane.receive(relayer, begin, count)->Ok_0;
            &&& next.wf()
            &&& begin == lane.latest_received_nonce + 1
            &&& next.latest_received_nonce == begin + count - 1
            &&& next.latest_received_nonce >= lane.latest_received_nonce
            &&& next.receive(next_relayer, next_begin, next_count) is Ok ==> next_begin
                == next.latest_received_nonce + 1
        }),
{
    lemma_received_wf(lane, relayer, count);
}

} // verus!
