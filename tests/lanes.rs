use message_lane::inbound::InboundLaneData;
use message_lane::lane::{
    find_delivery_relayer, DeliveredMessages, LaneError, LaneId, RewardPayment, Sender,
};
use message_lane::lanes::{
    confirm_messages_delivery, create_outbound_lane, receive_messages, receive_messages_delivery_proof,
    receive_messages_proof, same_lane, send_message, DispatchOutcome,
};
use message_lane::outbound::OutboundLaneData;
use message_lane::source_chain::{
    LaneMessageVerifier, MessageDeliveryAndDispatchPayment, TargetHeaderChain,
};
use message_lane::target_chain::{MessageDispatch, ProvedMessages, SourceHeaderChain};

const LANE: LaneId = [0, 0, 0, 1];
const OTHER_LANE: LaneId = [0, 0, 0, 2];
const SUBMITTER: u64 = 1;
const FUND: u64 = 100;
const DELIVERER: u64 = 7;
const CONFIRMER: u64 = 8;
const TOO_LARGE_FEE: u64 = 1_000;

type Payload = Vec<u8>;

struct TestTargetChain;

impl TargetHeaderChain<Payload, u64> for TestTargetChain {
    type Error = &'static str;
    type MessagesDeliveryProof = Option<(LaneId, InboundLaneData<u64>)>;

    fn verify_message(payload: &Payload) -> Result<(), Self::Error> {
        if payload.len() > 8 {
            Err("payload too large")
        } else {
            Ok(())
        }
    }

    fn verify_messages_delivery_proof(
        proof: Self::MessagesDeliveryProof,
    ) -> Result<(LaneId, InboundLaneData<u64>), Self::Error> {
        proof.ok_or("invalid delivery proof")
    }
}

struct TestVerifier;

impl LaneMessageVerifier<u64, Payload, u64> for TestVerifier {
    type Error = &'static str;

    fn verify_message(
        _submitter: &Sender<u64>,
        fee: &u64,
        _lane: &LaneId,
        _payload: &Payload,
    ) -> Result<(), Self::Error> {
        if *fee == 0 {
            Err("fee too low")
        } else {
            Ok(())
        }
    }
}

struct TestPayment;

impl MessageDeliveryAndDispatchPayment<u64, u64> for TestPayment {
    type Error = &'static str;

    fn pay_delivery_and_dispatch_fee(
        submitter: &Sender<u64>,
        fee: &u64,
        _relayer_fund_account: &u64,
    ) -> Result<(), Self::Error> {
        if *submitter != Sender::Signed(SUBMITTER) {
            Err("only signed submitters pay")
        } else if *fee >= TOO_LARGE_FEE {
            Err("insufficient balance")
        } else {
            Ok(())
        }
    }

    fn pay_relayer_reward(
        _confirmation_relayer: &u64,
        _relayer: &u64,
        _reward: &u64,
        _relayer_fund_account: &u64,
    ) {
    }
}

struct TestSourceChain;

impl SourceHeaderChain<Payload> for TestSourceChain {
    type Error = &'static str;
    type MessagesProof = Option<ProvedMessages<Payload>>;

    fn verify_messages_proof(
        proof: Self::MessagesProof,
    ) -> Result<ProvedMessages<Payload>, Self::Error> {
        proof.ok_or("invalid messages proof")
    }
}

struct TestDispatch;

impl MessageDispatch<Payload> for TestDispatch {
    fn dispatch(_lane: &LaneId, _nonce: u64, payload: &Payload) -> bool {
        payload.first() != Some(&0xff)
    }
}

fn send(lane: &mut OutboundLaneData<Payload, u64>, payload: Payload, fee: u64) -> Result<u64, LaneError> {
    send_message::<Payload, u64, u64, TestTargetChain, TestVerifier, TestPayment>(
        &LANE, lane, &Sender::Signed(SUBMITTER), payload, fee, &FUND,
    )
}

fn messages_proof(begin: u64, payloads: Vec<Payload>) -> Option<ProvedMessages<Payload>> {
    Some(ProvedMessages { lane: LANE, begin, payloads })
}

fn receive(
    lane: &mut InboundLaneData<u64>,
    messages: Option<ProvedMessages<Payload>>,
) -> Result<Vec<DispatchOutcome>, LaneError> {
    receive_messages_proof::<Payload, u64, TestSourceChain, TestDispatch>(&LANE, lane, DELIVERER, messages)
}

fn confirm(
    lane: &mut OutboundLaneData<Payload, u64>,
    inbound: &InboundLaneData<u64>,
) -> Result<Vec<RewardPayment<u64, u64>>, LaneError> {
    let snapshot = InboundLaneData {
        latest_received_nonce: inbound.latest_received_nonce,
        relayers: inbound.relayers.clone(),
    };
    receive_messages_delivery_proof::<Payload, u64, u64, TestTargetChain, TestPayment>(
        &LANE,
        lane,
        Some((LANE, snapshot)),
        CONFIRMER,
        &FUND,
    )
}

fn confirm_up_to(
    lane: &mut OutboundLaneData<Payload, u64>,
    claimed: u64,
) -> Result<Vec<RewardPayment<u64, u64>>, LaneError> {
    let inbound = InboundLaneData {
        latest_received_nonce: claimed,
        relayers: vec![DeliveredMessages { relayer: DELIVERER, begin: 1, end: claimed }],
    };
    confirm(lane, &inbound)
}

fn pending_nonces(lane: &OutboundLaneData<Payload, u64>) -> Vec<u64> {
    lane.pending_messages().iter().map(|m| m.nonce).collect()
}

#[test]
fn two_messages_are_sent_delivered_and_confirmed() {
    let mut outbound = OutboundLaneData::new();
    assert_eq!(send(&mut outbound, vec![0xa], 10), Ok(1));
    assert_eq!(outbound.latest_generated_nonce(), 1);
    assert_eq!(send(&mut outbound, vec![0xb], 10), Ok(2));
    assert_eq!(outbound.latest_generated_nonce(), 2);

    let mut inbound = InboundLaneData::new();
    let outcomes = receive(&mut inbound, messages_proof(1, vec![vec![0xa], vec![0xb]])).unwrap();
    assert_eq!(inbound.latest_received_nonce, 2);
    assert_eq!(
        outcomes,
        vec![
            DispatchOutcome { nonce: 1, dispatched: true },
            DispatchOutcome { nonce: 2, dispatched: true },
        ]
    );

    let rewards = confirm(&mut outbound, &inbound).unwrap();
    assert!(outbound.pending_messages().is_empty());
    assert_eq!(outbound.latest_received_nonce(), 2);
    assert_eq!(
        rewards,
        vec![
            RewardPayment { nonce: 1, delivery_relayer: DELIVERER, confirmation_relayer: CONFIRMER, reward: 10 },
            RewardPayment { nonce: 2, delivery_relayer: DELIVERER, confirmation_relayer: CONFIRMER, reward: 10 },
        ]
    );
}

#[test]
fn gap_is_rejected_without_state_change() {
    let mut inbound = InboundLaneData::new();
    receive(&mut inbound, messages_proof(1, vec![vec![1], vec![2]])).unwrap();
    assert_eq!(receive(&mut inbound, messages_proof(4, vec![vec![4], vec![5]])), Err(LaneError::NonceGap));
    assert_eq!(inbound.latest_received_nonce, 2);
    assert_eq!(inbound.relayers, vec![DeliveredMessages { relayer: DELIVERER, begin: 1, end: 2 }]);
}

#[test]
fn replay_is_rejected_without_state_change() {
    let mut inbound = InboundLaneData::new();
    receive(&mut inbound, messages_proof(1, vec![vec![1], vec![2]])).unwrap();
    assert_eq!(receive(&mut inbound, messages_proof(1, vec![vec![1], vec![2]])), Err(LaneError::NonceReplay));
    assert_eq!(receive(&mut inbound, messages_proof(2, vec![vec![2], vec![3]])), Err(LaneError::NonceReplay));
    assert_eq!(inbound.latest_received_nonce, 2);
    assert_eq!(inbound.relayers.len(), 1);
}

#[test]
fn deliveries_advance_to_the_end_of_each_range() {
    let mut inbound = InboundLaneData::new();
    assert_eq!(receive(&mut inbound, messages_proof(1, vec![vec![1], vec![2], vec![3]])).map(|o| o.len()), Ok(3));
    assert_eq!(inbound.latest_received_nonce, 3);
    let outcomes = receive(&mut inbound, messages_proof(4, vec![vec![4]])).unwrap();
    assert_eq!(outcomes, vec![DispatchOutcome { nonce: 4, dispatched: true }]);
    assert_eq!(inbound.latest_received_nonce, 4);
    assert_eq!(
        inbound.relayers,
        vec![
            DeliveredMessages { relayer: DELIVERER, begin: 1, end: 3 },
            DeliveredMessages { relayer: DELIVERER, begin: 4, end: 4 },
        ]
    );
}

#[test]
fn failed_dispatch_is_recorded_and_lane_advances() {
    let mut inbound = InboundLaneData::new();
    let outcomes = receive(&mut inbound, messages_proof(1, vec![vec![0xff], vec![2]])).unwrap();
    assert_eq!(
        outcomes,
        vec![
            DispatchOutcome { nonce: 1, dispatched: false },
            DispatchOutcome { nonce: 2, dispatched: true },
        ]
    );
    assert_eq!(inbound.latest_received_nonce, 2);
}

#[test]
fn invalid_or_empty_messages_proof_is_rejected() {
    let mut inbound = InboundLaneData::new();
    assert_eq!(receive(&mut inbound, None), Err(LaneError::InvalidProof));
    assert_eq!(receive(&mut inbound, messages_proof(1, vec![])), Err(LaneError::InvalidProof));
    let wrong_lane = Some(ProvedMessages { lane: OTHER_LANE, begin: 1, payloads: vec![vec![1]] });
    assert_eq!(receive(&mut inbound, wrong_lane), Err(LaneError::InvalidProof));
    assert_eq!(inbound.latest_received_nonce, 0);
    assert!(inbound.relayers.is_empty());
}

#[test]
fn delivery_past_the_last_nonce_is_rejected() {
    let mut inbound = InboundLaneData {
        latest_received_nonce: u64::MAX - 1,
        relayers: vec![DeliveredMessages { relayer: DELIVERER, begin: 1, end: u64::MAX - 1 }],
    };
    let messages = ProvedMessages { lane: LANE, begin: u64::MAX, payloads: vec![vec![1], vec![2]] };
    assert_eq!(
        receive_messages::<Payload, u64, TestDispatch>(&LANE, &mut inbound, DELIVERER, messages),
        Err(LaneError::NonceOverflow)
    );
    assert_eq!(inbound.latest_received_nonce, u64::MAX - 1);
    let last = ProvedMessages { lane: LANE, begin: u64::MAX, payloads: vec![vec![1]] };
    assert_eq!(
        receive_messages::<Payload, u64, TestDispatch>(&LANE, &mut inbound, DELIVERER, last),
        Ok(vec![DispatchOutcome { nonce: u64::MAX, dispatched: true }])
    );
    assert_eq!(inbound.latest_received_nonce, u64::MAX);
}

#[test]
fn accept_messages_returns_range_end() {
    let mut inbound: InboundLaneData<u64> = InboundLaneData::new();
    assert_eq!(inbound.accept_messages(DELIVERER, 1, 5), Ok(5));
    assert_eq!(inbound.accept_messages(DELIVERER, 7, 1), Err(LaneError::NonceGap));
    assert_eq!(inbound.accept_messages(DELIVERER, 6, 0), Err(LaneError::InvalidProof));
    assert_eq!(inbound.accept_messages(CONFIRMER, 6, 2), Ok(7));
    assert_eq!(inbound.relayers[1], DeliveredMessages { relayer: CONFIRMER, begin: 6, end: 7 });
}

#[test]
fn each_submit_advances_generated_nonce_by_one() {
    let mut outbound = OutboundLaneData::new();
    for expected in 1..=4u64 {
        assert_eq!(send(&mut outbound, vec![expected as u8], 5), Ok(expected));
        assert_eq!(outbound.latest_generated_nonce(), expected);
    }
    assert_eq!(send(&mut outbound, vec![0; 9], 5), Err(LaneError::RejectedPayload));
    assert_eq!(outbound.latest_generated_nonce(), 4);
    assert_eq!(send(&mut outbound, vec![5], 5), Ok(5));
    assert_eq!(pending_nonces(&outbound), vec![1, 2, 3, 4, 5]);
}

#[test]
fn rejected_submits_change_nothing() {
    let mut outbound = OutboundLaneData::new();
    send(&mut outbound, vec![1], 10).unwrap();
    assert_eq!(send(&mut outbound, vec![0; 9], 10), Err(LaneError::RejectedPayload));
    assert_eq!(send(&mut outbound, vec![2], 0), Err(LaneError::RejectedPayload));
    assert_eq!(send(&mut outbound, vec![2], TOO_LARGE_FEE), Err(LaneError::PaymentFailure));
    assert_eq!(outbound.latest_generated_nonce(), 1);
    assert_eq!(outbound.latest_received_nonce(), 0);
    assert_eq!(pending_nonces(&outbound), vec![1]);
}

#[test]
fn confirming_the_same_range_twice_pays_once() {
    let mut outbound = OutboundLaneData::new();
    for i in 0..5u64 {
        send(&mut outbound, vec![i as u8], 10 + i).unwrap();
    }
    let rewards = confirm_up_to(&mut outbound, 5).unwrap();
    assert_eq!(rewards.iter().map(|r| r.nonce).collect::<Vec<_>>(), vec![1, 2, 3, 4, 5]);
    assert_eq!(confirm_up_to(&mut outbound, 5), Err(LaneError::StaleOrFutureConfirmation));
    assert_eq!(confirm_up_to(&mut outbound, 3), Err(LaneError::StaleOrFutureConfirmation));
    assert_eq!(outbound.latest_received_nonce(), 5);
}

#[test]
fn confirmation_prunes_messages_up_to_claimed() {
    let mut outbound = OutboundLaneData::new();
    for i in 0..5u64 {
        send(&mut outbound, vec![i as u8], 10).unwrap();
    }
    confirm_up_to(&mut outbound, 3).unwrap();
    assert_eq!(pending_nonces(&outbound), vec![4, 5]);
    assert!(outbound.message(3).is_none());
    assert_eq!(outbound.message(4).map(|m| m.payload.clone()), Some(vec![3]));
    assert_eq!(outbound.latest_received_nonce(), 3);
    assert_eq!(outbound.latest_generated_nonce(), 5);
}

#[test]
fn escrowed_fees_are_released_once_each() {
    let mut outbound = OutboundLaneData::new();
    send(&mut outbound, vec![1], 10).unwrap();
    send(&mut outbound, vec![2], 20).unwrap();
    send(&mut outbound, vec![3], 30).unwrap();
    let first = confirm_up_to(&mut outbound, 2).unwrap();
    assert_eq!(first.iter().map(|r| (r.nonce, r.reward)).collect::<Vec<_>>(), vec![(1, 10), (2, 20)]);
    assert_eq!(outbound.message(3).map(|m| m.fee), Some(30));
    let second = confirm_up_to(&mut outbound, 3).unwrap();
    assert_eq!(second.iter().map(|r| (r.nonce, r.reward)).collect::<Vec<_>>(), vec![(3, 30)]);
    assert!(outbound.pending_messages().is_empty());
}

#[test]
fn confirmation_of_unsent_nonce_is_rejected() {
    let mut outbound = OutboundLaneData::new();
    send(&mut outbound, vec![1], 10).unwrap();
    assert_eq!(confirm_up_to(&mut outbound, 2), Err(LaneError::StaleOrFutureConfirmation));
    assert_eq!(confirm_up_to(&mut outbound, 0), Err(LaneError::StaleOrFutureConfirmation));
    assert_eq!(pending_nonces(&outbound), vec![1]);
}

#[test]
fn invalid_delivery_proof_is_rejected() {
    let mut outbound = OutboundLaneData::new();
    send(&mut outbound, vec![1], 10).unwrap();
    let r = receive_messages_delivery_proof::<Payload, u64, u64, TestTargetChain, TestPayment>(
        &LANE, &mut outbound, None, CONFIRMER, &FUND,
    );
    assert_eq!(r, Err(LaneError::InvalidProof));
    let inbound = InboundLaneData { latest_received_nonce: 1, relayers: vec![] };
    let r = confirm_messages_delivery(&LANE, &mut outbound, &OTHER_LANE, &inbound, CONFIRMER);
    assert_eq!(r, Err(LaneError::InvalidProof));
    assert_eq!(pending_nonces(&outbound), vec![1]);
    assert_eq!(outbound.latest_received_nonce(), 0);
}

#[test]
fn rewards_credit_the_relayer_of_each_receipt() {
    let mut outbound = OutboundLaneData::new();
    for i in 0..4u64 {
        send(&mut outbound, vec![i as u8], 10).unwrap();
    }
    let inbound = InboundLaneData {
        latest_received_nonce: 4,
        relayers: vec![
            DeliveredMessages { relayer: 21, begin: 1, end: 2 },
            DeliveredMessages { relayer: 22, begin: 3, end: 3 },
        ],
    };
    let rewards = confirm_messages_delivery(&LANE, &mut outbound, &LANE, &inbound, CONFIRMER).unwrap();
    let relayers: Vec<(u64, u64)> =
        rewards.iter().map(|r| (r.delivery_relayer, r.confirmation_relayer)).collect();
    assert_eq!(relayers, vec![(21, CONFIRMER), (21, CONFIRMER), (22, CONFIRMER), (CONFIRMER, CONFIRMER)]);
}

#[test]
fn delivery_relayer_lookup() {
    let receipts = vec![
        DeliveredMessages { relayer: 5u64, begin: 1, end: 3 },
        DeliveredMessages { relayer: 6u64, begin: 4, end: 9 },
    ];
    assert_eq!(find_delivery_relayer(&receipts, 3, 0), 5);
    assert_eq!(find_delivery_relayer(&receipts, 4, 0), 6);
    assert_eq!(find_delivery_relayer(&receipts, 10, 0), 0);
    assert_eq!(find_delivery_relayer(&Vec::new(), 1, 42u64), 42);
}

#[test]
fn lane_identifiers_compare_bytewise() {
    assert!(same_lane(&LANE, &[0, 0, 0, 1]));
    assert!(!same_lane(&LANE, &OTHER_LANE));
    assert!(!same_lane(&[1, 0, 0, 1], &LANE));
}

#[test]
fn errors_have_descriptions() {
    assert_eq!(LaneError::NonceGap.as_str(), "nonce gap");
    assert_eq!(LaneError::StaleOrFutureConfirmation.as_str(), "stale or future confirmation");
    assert_ne!(LaneError::NonceReplay.as_str(), LaneError::NonceGap.as_str());
}

#[test]
fn payment_initialization_defaults_to_no_reads() {
    assert_eq!(<TestPayment as MessageDeliveryAndDispatchPayment<u64, u64>>::initialize(&FUND), 0);
}

#[test]
fn unsigned_submitter_cannot_pay() {
    let mut outbound = OutboundLaneData::new();
    let r = send_message::<Payload, u64, u64, TestTargetChain, TestVerifier, TestPayment>(
        &LANE, &mut outbound, &Sender::Unsigned, vec![1], 10, &FUND,
    );
    assert_eq!(r, Err(LaneError::PaymentFailure));
    assert_eq!(outbound.latest_generated_nonce(), 0);
}

#[test]
fn created_lane_is_empty_after_setup() {
    let (lane, reads) = create_outbound_lane::<Payload, u64, u64, TestPayment>(&FUND);
    assert_eq!(reads, 0);
    assert_eq!(lane.latest_generated_nonce(), 0);
    assert_eq!(lane.latest_received_nonce(), 0);
    assert!(lane.pending_messages().is_empty());
}

#[test]
fn every_error_has_its_description() {
    assert_eq!(LaneError::RejectedPayload.as_str(), "rejected payload");
    assert_eq!(LaneError::PaymentFailure.as_str(), "payment failure");
    assert_eq!(LaneError::InvalidProof.as_str(), "invalid proof");
    assert_eq!(LaneError::NonceReplay.as_str(), "nonce replay");
    assert_eq!(LaneError::NonceOverflow.as_str(), "nonce overflow");
}
