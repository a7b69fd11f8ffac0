use staking_receiver::codec::DecodeError;
use staking_receiver::events::Event;
use staking_receiver::hash::{leaf_hash, node_hash};
use staking_receiver::ident::ActorId;
use staking_receiver::ledger::{ClaimKey, LedgerError, ReplayError};
use staking_receiver::receipt::{SourceChainRoot, VerifiedDeposit, VerifyError};
use staking_receiver::service::{PipelineError, StakingReceiverService};

const TOPIC: [u8; 32] = [0xdd; 32];
const USER: [u8; 32] = [0x07; 32];

fn topic() -> Vec<u8> {
    TOPIC.to_vec()
}

fn be16(x: u128) -> Vec<u8> {
    x.to_be_bytes().to_vec()
}

/// A one-entry event log: count byte, topic, data length, data.
fn payload_one_entry(entry_topic: &[u8; 32], data: &[u8]) -> Vec<u8> {
    let mut p = Vec::new();
    p.push(1u8);
    p.extend_from_slice(entry_topic);
    p.extend_from_slice(&(data.len() as u16).to_le_bytes());
    p.extend_from_slice(data);
    p
}

/// A deposit event's data: the beneficiary and the raw big-endian amount.
fn deposit_data(user: &[u8; 32], raw_amount: u128) -> Vec<u8> {
    let mut d = user.to_vec();
    d.extend_from_slice(&be16(raw_amount));
    d
}

/// The receipt envelope: payload length, payload, and the sibling digests.
fn envelope(payload: &[u8], siblings: &[Vec<u8>]) -> Vec<u8> {
    let mut r = Vec::new();
    r.extend_from_slice(&(payload.len() as u32).to_le_bytes());
    r.extend_from_slice(payload);
    for s in siblings {
        r.extend_from_slice(s);
    }
    r
}

/// Recomputes the proof root the library will derive, with its own hash
/// helpers.
fn compute_root(payload: &[u8], siblings: &[Vec<u8>], tx_index: u32) -> Vec<u8> {
    let mut h = leaf_hash(&payload.to_vec());
    let mut idx = tx_index;
    for s in siblings {
        h = if idx % 2 == 0 { node_hash(&h, s) } else { node_hash(s, &h) };
        idx /= 2;
    }
    h
}

/// A fully valid claim for `USER` over two proof levels, and its root.
fn valid_claim(slot: u64, tx_index: u32, raw_amount: u128) -> (Vec<u8>, SourceChainRoot) {
    let payload = payload_one_entry(&TOPIC, &deposit_data(&USER, raw_amount));
    let siblings = vec![vec![0x01u8; 32], vec![0x02u8; 32]];
    let receipt = envelope(&payload, &siblings);
    let root = compute_root(&payload, &siblings, tx_index);
    (receipt, SourceChainRoot { slot, root })
}

fn user_id() -> ActorId {
    ActorId::from_bytes(USER.to_vec())
}

#[test]
fn five_usdc_deposit_credits_and_stakes() {
    // 5 units at 12 source decimals scale down to 5_000_000 at 6 decimals.
    let mut svc = StakingReceiverService::new(topic());
    let (receipt, root) = valid_claim(100, 2, 5_000_000_000_000);
    let r = svc.submit_receipt(100, 2, receipt.clone(), &Some(root));
    assert_eq!(r, Ok(()));
    assert_eq!(svc.get_balance(&user_id()), 5_000_000);
    assert_eq!(svc.get_staking_info(&user_id()), (5_000_000, 0));
    let events = svc.events();
    assert_eq!(events.len(), 3);
    match &events[0] {
        Event::DepositFromEthereum(c) => {
            assert_eq!(c.slot, 100);
            assert_eq!(c.transaction_index, 2);
            assert_eq!(c.receipt_rlp, receipt);
        },
        other => panic!("first event must be the observed deposit, got {:?}", other),
    }
    assert_eq!(
        events[1],
        Event::WUsdcMinted { to: user_id(), amount: 5_000_000 },
    );
    assert_eq!(
        events[2],
        Event::Staked { user: user_id(), amount: 5_000_000 },
    );
}

#[test]
fn scaling_rounds_down() {
    let mut svc = StakingReceiverService::new(topic());
    let (receipt, root) = valid_claim(4, 0, 2_999_999);
    let r = svc.submit_receipt(4, 0, receipt, &Some(root));
    assert_eq!(r, Ok(()));
    assert_eq!(svc.get_balance(&user_id()), 2);
}

#[test]
fn garbage_receipt_is_rejected_without_effects() {
    let mut svc = StakingReceiverService::new(topic());
    let root = SourceChainRoot { slot: 100, root: vec![0x99; 32] };
    let r = svc.submit_receipt(100, 2, vec![0xde, 0xad, 0xbe, 0xef], &Some(root));
    assert_eq!(r, Err(PipelineError::Verify(VerifyError::ProofInvalid)));
    assert_eq!(svc.get_balance(&user_id()), 0);
    assert_eq!(svc.events().len(), 0);
    assert_eq!(svc.processed_count(), 0);
}

#[test]
fn replay_succeeds_once_and_never_double_credits() {
    let mut svc = StakingReceiverService::new(topic());
    let (receipt, root) = valid_claim(100, 2, 5_000_000_000_000);
    let trusted = Some(root);
    assert_eq!(svc.submit_receipt(100, 2, receipt.clone(), &trusted), Ok(()));
    assert_eq!(
        svc.submit_receipt(100, 2, receipt, &trusted),
        Err(PipelineError::Replay(ReplayError::AlreadyProcessed)),
    );
    assert_eq!(svc.get_balance(&user_id()), 5_000_000);
    assert_eq!(svc.events().len(), 3);
    assert!(svc.is_processed(ClaimKey { slot: 100, transaction_index: 2 }));
}

#[test]
fn empty_receipt_fails_at_decode_without_effects() {
    let mut svc = StakingReceiverService::new(topic());
    let mut raw = Vec::new();
    raw.extend_from_slice(&100u64.to_le_bytes());
    raw.extend_from_slice(&2u32.to_le_bytes());
    raw.push(0u8);
    let r = svc.submit_payload(&raw, &None);
    assert_eq!(r, Err(PipelineError::Decode(DecodeError::EmptyReceipt)));
    assert_eq!(svc.events().len(), 0);
    assert_eq!(svc.processed_count(), 0);
}

#[test]
fn malformed_payload_fails_at_decode() {
    let mut svc = StakingReceiverService::new(topic());
    let r = svc.submit_payload(&vec![1, 2, 3], &None);
    assert_eq!(r, Err(PipelineError::Decode(DecodeError::Malformed)));
    assert_eq!(svc.events().len(), 0);
}

#[test]
fn payload_pipeline_accepts_valid_claim() {
    let mut svc = StakingReceiverService::new(topic());
    let (receipt, root) = valid_claim(3, 1, 7_000_000_000_000);
    let mut raw = Vec::new();
    raw.extend_from_slice(&3u64.to_le_bytes());
    raw.extend_from_slice(&1u32.to_le_bytes());
    assert!(receipt.len() < 16384);
    let v = (receipt.len() as u32) * 4 + 1;
    raw.push((v % 256) as u8);
    raw.push((v / 256) as u8);
    raw.extend_from_slice(&receipt);
    assert_eq!(svc.submit_payload(&raw, &Some(root)), Ok(()));
    assert_eq!(svc.get_balance(&user_id()), 7_000_000);
}

#[test]
fn mismatched_root_rejects_then_corrected_root_succeeds() {
    let mut svc = StakingReceiverService::new(topic());
    let (receipt, root) = valid_claim(100, 2, 5_000_000_000_000);
    let wrong = SourceChainRoot { slot: 100, root: vec![0x42; 32] };
    let r1 = svc.submit_receipt(100, 2, receipt.clone(), &Some(wrong));
    assert_eq!(r1, Err(PipelineError::Verify(VerifyError::ProofInvalid)));
    assert_eq!(svc.processed_count(), 0);
    // The claim key was not spent: resubmission with the right root works.
    assert_eq!(svc.submit_receipt(100, 2, receipt, &Some(root)), Ok(()));
    assert_eq!(svc.get_balance(&user_id()), 5_000_000);
}

#[test]
fn wrong_slot_in_root_is_rejected() {
    let mut svc = StakingReceiverService::new(topic());
    let (receipt, root) = valid_claim(100, 2, 5_000_000_000_000);
    let other_slot = SourceChainRoot { slot: 101, root: root.root };
    let r = svc.submit_receipt(100, 2, receipt, &Some(other_slot));
    assert_eq!(r, Err(PipelineError::Verify(VerifyError::ProofInvalid)));
}

#[test]
fn missing_root_is_root_unavailable() {
    let mut svc = StakingReceiverService::new(topic());
    let (receipt, _) = valid_claim(100, 2, 5_000_000_000_000);
    let r = svc.submit_receipt(100, 2, receipt, &None);
    assert_eq!(r, Err(PipelineError::Verify(VerifyError::RootUnavailable)));
}

#[test]
fn unknown_topic_is_event_not_found() {
    let mut svc = StakingReceiverService::new(topic());
    let other_topic = [0xeeu8; 32];
    let payload = payload_one_entry(&other_topic, &deposit_data(&USER, 5_000_000_000_000));
    let receipt = envelope(&payload, &[]);
    let root = SourceChainRoot { slot: 1, root: compute_root(&payload, &[], 0) };
    let r = svc.submit_receipt(1, 0, receipt, &Some(root));
    assert_eq!(r, Err(PipelineError::Verify(VerifyError::EventNotFound)));
}

#[test]
fn second_entry_with_topic_is_found() {
    let mut svc = StakingReceiverService::new(topic());
    let other_topic = [0xeeu8; 32];
    let mut payload = Vec::new();
    payload.push(2u8);
    payload.extend_from_slice(&other_topic);
    payload.extend_from_slice(&3u16.to_le_bytes());
    payload.extend_from_slice(&[9, 9, 9]);
    payload.extend_from_slice(&TOPIC);
    payload.extend_from_slice(&48u16.to_le_bytes());
    payload.extend_from_slice(&deposit_data(&USER, 1_000_000_000_000));
    let receipt = envelope(&payload, &[]);
    let root = SourceChainRoot { slot: 1, root: compute_root(&payload, &[], 0) };
    assert_eq!(svc.submit_receipt(1, 0, receipt, &Some(root)), Ok(()));
    assert_eq!(svc.get_balance(&user_id()), 1_000_000);
}

#[test]
fn short_event_data_is_unsupported_shape() {
    let mut svc = StakingReceiverService::new(topic());
    let payload = payload_one_entry(&TOPIC, &[1, 2, 3]);
    let receipt = envelope(&payload, &[]);
    let root = SourceChainRoot { slot: 1, root: compute_root(&payload, &[], 0) };
    let r = svc.submit_receipt(1, 0, receipt, &Some(root));
    assert_eq!(r, Err(PipelineError::Verify(VerifyError::UnsupportedEventShape)));
}

#[test]
fn dust_amount_is_unsupported_shape() {
    // 999999 source units scale down to zero ledger units.
    let mut svc = StakingReceiverService::new(topic());
    let payload = payload_one_entry(&TOPIC, &deposit_data(&USER, 999_999));
    let receipt = envelope(&payload, &[]);
    let root = SourceChainRoot { slot: 1, root: compute_root(&payload, &[], 0) };
    let r = svc.submit_receipt(1, 0, receipt, &Some(root));
    assert_eq!(r, Err(PipelineError::Verify(VerifyError::UnsupportedEventShape)));
}

#[test]
fn overflow_leaves_account_unchanged() {
    let mut svc = StakingReceiverService::new(topic());
    let big = VerifiedDeposit {
        beneficiary: user_id(),
        amount: u128::MAX,
        slot: 1,
        transaction_index: 0,
    };
    assert_eq!(svc.apply(&big), Ok(()));
    assert_eq!(svc.get_balance(&user_id()), u128::MAX);
    let one_more = VerifiedDeposit {
        beneficiary: user_id(),
        amount: 1,
        slot: 2,
        transaction_index: 0,
    };
    assert_eq!(svc.apply(&one_more), Err(LedgerError::Overflow));
    assert_eq!(svc.get_balance(&user_id()), u128::MAX);
    assert_eq!(svc.get_staking_info(&user_id()), (u128::MAX, 0));
}

#[test]
fn accounts_are_kept_apart() {
    let mut svc = StakingReceiverService::new(topic());
    let alice = ActorId::from_bytes(vec![0xaa; 32]);
    let bob = ActorId::from_bytes(vec![0xbb; 32]);
    let d1 = VerifiedDeposit { beneficiary: alice.clone(), amount: 10, slot: 1, transaction_index: 0 };
    let d2 = VerifiedDeposit { beneficiary: bob.clone(), amount: 20, slot: 1, transaction_index: 1 };
    assert_eq!(svc.apply(&d1), Ok(()));
    assert_eq!(svc.apply(&d2), Ok(()));
    assert_eq!(svc.apply(&d1), Ok(()));
    assert_eq!(svc.get_balance(&alice), 20);
    assert_eq!(svc.get_balance(&bob), 20);
    assert_eq!(svc.get_balance(&user_id()), 0);
}

#[test]
fn register_guards_claim_keys() {
    let mut svc = StakingReceiverService::new(topic());
    let key = ClaimKey { slot: 5, transaction_index: 6 };
    assert!(!svc.is_processed(key));
    assert_eq!(svc.register(key), Ok(()));
    assert!(svc.is_processed(key));
    assert_eq!(svc.register(key), Err(ReplayError::AlreadyProcessed));
    assert!(!svc.is_processed(ClaimKey { slot: 5, transaction_index: 7 }));
}

#[test]
fn emit_appends_to_the_log() {
    let mut svc = StakingReceiverService::new(topic());
    let e = Event::WUsdcMinted { to: user_id(), amount: 42 };
    assert_eq!(svc.emit(e.clone()), Ok(()));
    assert_eq!(svc.events().len(), 1);
    assert_eq!(svc.events()[0], e);
}
