//! Pipeline orchestration: one service owning the account table, the replay
//! guard's key set and the event log, processing one claim at a time to
//! completion. Ledger mutation always precedes event emission, and a claim
//! key stays admitted only when the ledger mutation it guards has committed.

use vstd::prelude::*;
use crate::codec::{
    decode, DepositFromEthereum, ClaimView, DecodeError, well_formed_payload, payload_slot,
    payload_tx_index, payload_receipt,
};
use crate::events::{Event, EventView, events_view, EmitError};
use crate::ident::ActorId;
use crate::ledger::{
    credit, Account, AccountView, accounts_view, account_of, balance_of, staked_of, rewards_of,
    ClaimKey, LedgerError, ReplayError,
};
use crate::receipt::{
    verify, verify_outcome, opt_root_view, SourceChainRoot, RootView, VerifiedDeposit,
    DepositView, VerifyError,
};

verus! {

/// The stage at which a claim was rejected, with the stage's own error.
#[derive(Debug, Clone, Copy, PartialEq, Eq, Structural)]
pub enum PipelineError {
    Decode(DecodeError),
    Verify(VerifyError),
    Replay(ReplayError),
    Ledger(LedgerError),
    Emit(EmitError),
}

/// The deposit receiver: account table, admitted claim keys, event log, and
/// the configured deposit-event topic.
pub struct StakingReceiverService {
    pub(crate) accounts: Vec<Account>,
    pub(crate) processed: Vec<ClaimKey>,
    pub(crate) events: Vec<Event>,
    pub(crate) deposit_topic: Vec<u8>,
}

/// Mathematical image of the whole service state.
#[verifier::ext_equal]
pub struct ServiceView {
    pub accounts: Seq<AccountView>,
    pub processed: Seq<ClaimKey>,
    pub events: Seq<EventView>,
    pub deposit_topic: Seq<u8>,
}

impl View for StakingReceiverService {
    type V = ServiceView;

    closed spec fn view(&self) -> ServiceView {
        ServiceView {
            accounts: accounts_view(self.accounts@),
            processed: self.processed@,
            events: events_view(self.events@),
            deposit_topic: self.deposit_topic@,
        }
    }
}

/// The three events one successfully processed claim appends, in order:
/// observed, minted, staked.
pub open spec fn claim_events(c: ClaimView, beneficiary: Seq<u8>, amount: u128) -> Seq<EventView> {
    seq![
        EventView::DepositFromEthereum(c),
        EventView::WUsdcMinted { to: beneficiary, amount },
        EventView::Staked { user: beneficiary, amount },
    ]
}

/// How one call of `submit_receipt` relates the state before it, the state
/// after it and its result, for every input. Each stage either passes the
/// claim on or rejects it with its own error and no state change; a rejected
/// claim leaves no admitted key and no ledger or event change behind.
pub open spec fn receipt_transition(
    pre: ServiceView,
    slot: u64,
    transaction_index: u32,
    receipt_rlp: Seq<u8>,
    root: Option<RootView>,
    post: ServiceView,
    r: Result<(), PipelineError>,
) -> bool {
    let c = ClaimView { slot, transaction_index, receipt_rlp };
    let key = ClaimKey { slot, transaction_index };
    if receipt_rlp.len() == 0 {
        r == Err::<(), PipelineError>(PipelineError::Decode(DecodeError::EmptyReceipt)) && post
            == pre
    } else {
        match verify_outcome(c, root, pre.deposit_topic) {
            Err(e) => r == Err::<(), PipelineError>(PipelineError::Verify(e)) && post == pre,
            Ok(d) => {
                if pre.processed.contains(key) {
                    r == Err::<(), PipelineError>(
                        PipelineError::Replay(ReplayError::AlreadyProcessed),
                    ) && post == pre
                } else if balance_of(pre.accounts, d.beneficiary) + d.amount > u128::MAX
                    || staked_of(pre.accounts, d.beneficiary) + d.amount > u128::MAX {
                    r == Err::<(), PipelineError>(PipelineError::Ledger(LedgerError::Overflow))
                        && post == pre
                } else {
                    &&& r == Ok::<(), PipelineError>(())
                    &&& post.deposit_topic == pre.deposit_topic
                    &&& post.processed == pre.processed.push(key)
                    &&& post.events == pre.events + claim_events(c, d.beneficiary, d.amount)
                    &&& balance_of(post.accounts, d.beneficiary) == balance_of(
                        pre.accounts,
                        d.beneficiary,
                    ) + d.amount
                    &&& staked_of(post.accounts, d.beneficiary) == staked_of(
                        pre.accounts,
                        d.beneficiary,
                    ) + d.amount
                    &&& rewards_of(post.accounts, d.beneficiary) == rewards_of(
                        pre.accounts,
                        d.beneficiary,
                    )
                    &&& account_of(post.accounts, d.beneficiary) is Some
                    &&& forall|id2: Seq<u8>| id2 != d.beneficiary ==> account_of(
                        post.accounts,
                        id2,
                    ) == account_of(pre.accounts, id2)
                }
            },
        }
    }
}

/// How one call of `submit_payload` relates states and result: a payload
/// that is not one canonical claim is rejected at decode, and a canonical
/// one moves on as its decoded claim.
pub open spec fn payload_transition(
    pre: ServiceView,
    raw: Seq<u8>,
    root: Option<RootView>,
    post: ServiceView,
    r: Result<(), PipelineError>,
) -> bool {
    if !well_formed_payload(raw) {
        r == Err::<(), PipelineError>(PipelineError::Decode(DecodeError::Malformed)) && post
            == pre
    } else {
        receipt_transition(
            pre,
            payload_slot(raw) as u64,
            payload_tx_index(raw) as u32,
            payload_receipt(raw),
            root,
            post,
            r,
        )
    }
}

impl StakingReceiverService {
    /// A fresh service with no accounts, no admitted keys and no events,
    /// recognizing deposit events by the given log topic (the source chain's
    /// versioned event contract, supplied by configuration).
    pub fn new(deposit_event_topic: Vec<u8>) -> (r: StakingReceiverService)
        ensures
            r@.accounts.len() == 0,
            r@.processed.len() == 0,
            r@.events.len() == 0,
            r@.deposit_topic == deposit_event_topic@,
    {
        let s = StakingReceiverService {
            accounts: Vec::new(),
            processed: Vec::new(),
            events: Vec::new(),
            deposit_topic: deposit_event_topic,
        };
        assert(accounts_view(s.accounts@) =~= Seq::<AccountView>::empty());
        assert(events_view(s.events@) =~= Seq::<EventView>::empty());
        s
    }

    /// Whether a claim key has already been applied.
    pub fn is_processed(&self, key: ClaimKey) -> (r: bool)
        ensures
            r <==> self@.processed.contains(key),
    {
        let mut i: usize = 0;
        while i < self.processed.len()
            invariant
                i <= self@.processed.len(),
                forall|j: int| 0 <= j < i ==> self@.processed[j] != key,
            decreases self@.processed.len() - i,
        {
            if self.processed[i] == key {
                return true;
            }
            i = i + 1;
        }
        false
    }

    /// Replay guard: admits a claim key not seen before, and rejects one
    /// already applied, changing nothing.
    pub fn register(&mut self, key: ClaimKey) -> (r: Result<(), ReplayError>)
        ensures
            old(self)@.processed.contains(key) ==> r == Err::<(), ReplayError>(
                ReplayError::AlreadyProcessed,
            ) && final(self)@ == old(self)@,
            !old(self)@.processed.contains(key) ==> r == Ok::<(), ReplayError>(())
                && final(self)@ == (ServiceView {
                processed: old(self)@.processed.push(key),
                ..old(self)@
            }),
    {
        if self.is_processed(key) {
            return Err(ReplayError::AlreadyProcessed);
        }
        self.processed.push(key);
        Ok(())
    }

    /// Ledger update: credits a verified deposit to its beneficiary, balance
    /// and staked amount each growing by the deposit's amount (every
    /// verified deposit is auto-staked in full), creating the account on
    /// first deposit. On overflow of either sum the whole state is left
    /// unchanged.
    pub fn apply(&mut self, deposit: &VerifiedDeposit) -> (r: Result<(), LedgerError>)
        ensures
            final(self)@.processed == old(self)@.processed,
            final(self)@.events == old(self)@.events,
            final(self)@.deposit_topic == old(self)@.deposit_topic,
            ({
                let pre = old(self)@.accounts;
                let post = final(self)@.accounts;
                let id = deposit@.beneficiary;
                &&& (r is Ok <==> balance_of(pre, id) + deposit@.amount <= u128::MAX
                    && staked_of(pre, id) + deposit@.amount <= u128::MAX)
                &&& (r is Ok ==> {
                    &&& balance_of(post, id) == balance_of(pre, id) + deposit@.amount
                    &&& staked_of(post, id) == staked_of(pre, id) + deposit@.amount
                    &&& rewards_of(post, id) == rewards_of(pre, id)
                    &&& account_of(post, id) is Some
                    &&& forall|id2: Seq<u8>| id2 != id ==> account_of(post, id2) == account_of(
                        pre,
                        id2,
                    )
                })
                &&& (r is Err ==> r == Err::<(), LedgerError>(LedgerError::Overflow) && post
                    == pre)
            }),
    {
        credit(&mut self.accounts, &deposit.beneficiary, deposit.amount)
    }

    /// Event emitter: appends to the process-local log. The append itself
    /// cannot fail; delivery to the transport collaborator happens outside
    /// the core, which is where `EmitError::DeliveryFailed` arises.
    pub fn emit(&mut self, event: Event) -> (r: Result<(), EmitError>)
        ensures
            r is Ok,
            final(self)@ == (ServiceView { events: old(self)@.events.push(event@), ..old(self)@ }),
    {
        let ghost ev = event@;
        self.events.push(event);
        proof {
            assert(events_view(self.events@) =~= events_view(old(self).events@).push(ev));
        }
        Ok(())
    }

    /// Read accessor: the balance minted for an identity so far.
    pub fn get_balance(&self, user: &ActorId) -> (r: u128)
        ensures
            r == balance_of(self@.accounts, user@),
    {
        match self.find_account(user) {
            Option::Some(i) => self.accounts[i].balance,
            Option::None => 0,
        }
    }

    /// Read accessor: the staked amount and the pending rewards of an
    /// identity. Reward accrual is a separate subsystem and no accrual
    /// policy is defined here; the stored value is reported as it stands.
    pub fn get_staking_info(&self, user: &ActorId) -> (r: (u128, u128))
        ensures
            r.0 == staked_of(self@.accounts, user@),
            r.1 == rewards_of(self@.accounts, user@),
    {
        match self.find_account(user) {
            Option::Some(i) => (self.accounts[i].staked_amount, self.accounts[i].pending_rewards),
            Option::None => (0, 0),
        }
    }

    /// The event log, oldest first.
    pub fn events(&self) -> (r: &Vec<Event>)
        ensures
            events_view(r@) == self@.events,
    {
        &self.events
    }

    /// How many claims have been admitted and applied.
    pub fn processed_count(&self) -> (r: usize)
        ensures
            r == self@.processed.len(),
    {
        self.processed.len()
    }

    fn find_account(&self, user: &ActorId) -> (r: Option<usize>)
        ensures
            r matches Some(i) ==> 0 <= i < self@.accounts.len()
                && account_of(self@.accounts, user@) == Option::Some(self@.accounts[i as int]),
            r is None ==> account_of(self@.accounts, user@) is None,
    {
        let mut i: usize = 0;
        while i < self.accounts.len()
            invariant
                i <= self@.accounts.len(),
                forall|j: int| 0 <= j < i ==> self@.accounts[j].identity != user@,
            decreases self@.accounts.len() - i,
        {
            if crate::bytes::bytes_eq(&self.accounts[i].identity.bytes, &user.bytes) {
                proof {
                    crate::ledger::lemma_account_of_first_match(self@.accounts, user@, i as int);
                }
                return Option::Some(i);
            }
            i = i + 1;
        }
        proof {
            crate::ledger::lemma_account_of_absent(self@.accounts, user@);
        }
        Option::None
    }

    /// The whole pipeline on one claim: verify the receipt against the
    /// trusted root, admit the claim key, credit the ledger, and append the
    /// three events, in that order. Every rejection leaves the state exactly
    /// as it was; in particular a key admitted for a claim whose ledger
    /// update overflows is rolled back, so the claim key is only ever spent
    /// together with a committed ledger change.
    pub fn submit_receipt(
        &mut self,
        slot: u64,
        transaction_index: u32,
        receipt_rlp: Vec<u8>,
        trusted_root: &Option<SourceChainRoot>,
    ) -> (r: Result<(), PipelineError>)
        ensures
            receipt_transition(
                old(self)@,
                slot,
                transaction_index,
                receipt_rlp@,
                opt_root_view(*trusted_root),
                final(self)@,
                r,
            ),
    {
        if receipt_rlp.len() == 0 {
            return Err(PipelineError::Decode(DecodeError::EmptyReceipt));
        }
        let claim = DepositFromEthereum { slot, transaction_index, receipt_rlp };
        let deposit = match verify(&claim, trusted_root, &self.deposit_topic) {
            Err(e) => {
                return Err(PipelineError::Verify(e));
            },
            Ok(d) => d,
        };
        let key = ClaimKey { slot, transaction_index };
        match self.register(key) {
            Err(_) => {
                return Err(PipelineError::Replay(ReplayError::AlreadyProcessed));
            },
            Ok(_) => {},
        }
        match self.apply(&deposit) {
            Err(_) => {
                self.processed.pop();
                proof {
                    assert(self@.processed =~= old(self)@.processed);
                    assert(self@ =~= old(self)@);
                }
                return Err(PipelineError::Ledger(LedgerError::Overflow));
            },
            Ok(_) => {},
        }
        let ghost cv = claim@;
        let ghost dep = deposit@;
        let ghost before_events = self@.events;
        let e1 = Event::DepositFromEthereum(claim);
        let e2 = Event::WUsdcMinted { to: deposit.beneficiary.duplicate(), amount: deposit.amount };
        let e3 = Event::Staked { user: deposit.beneficiary, amount: deposit.amount };
        let _ = self.emit(e1);
        let _ = self.emit(e2);
        let _ = self.emit(e3);
        proof {
            assert(self@.events =~= before_events + claim_events(cv, dep.beneficiary, dep.amount));
            assert(self@.processed =~= old(self)@.processed.push(key));
        }
        Ok(())
    }

    /// The pipeline from the raw inbound payload: decode, and hand the
    /// decoded claim to `submit_receipt`.
    pub fn submit_payload(&mut self, raw: &Vec<u8>, trusted_root: &Option<SourceChainRoot>) -> (r:
        Result<(), PipelineError>)
        ensures
            payload_transition(
                old(self)@,
                raw@,
                opt_root_view(*trusted_root),
                final(self)@,
                r,
            ),
    {
        match decode(raw) {
            Err(e) => Err(PipelineError::Decode(e)),
            Ok(claim) => self.submit_receipt(
                claim.slot,
                claim.transaction_index,
                claim.receipt_rlp,
                trusted_root,
            ),
        }
    }
}

/// Law: a successful submission credits balance and stake by exactly the
/// verified deposit's amount, and appends exactly the three events, in the
/// order observed, minted, staked.
pub proof fn lemma_success_effects(
    pre: ServiceView,
    slot: u64,
    transaction_index: u32,
    receipt_rlp: Seq<u8>,
    root: Option<RootView>,
    post: ServiceView,
    r: Result<(), PipelineError>,
)
    requires
        receipt_transition(pre, slot, transaction_index, receipt_rlp, root, post, r),
        r is Ok,
    ensures
        ({
            let c = ClaimView { slot, transaction_index, receipt_rlp };
            verify_outcome(c, root, pre.deposit_topic) matches Ok(d) && {
                &&& balance_of(post.accounts, d.beneficiary) == balance_of(
                    pre.accounts,
                    d.beneficiary,
                ) + d.amount
                &&& staked_of(post.accounts, d.beneficiary) == staked_of(
                    pre.accounts,
                    d.beneficiary,
                ) + d.amount
                &&& post.events == pre.events + claim_events(c, d.beneficiary, d.amount)
                &&& post.events.len() == pre.events.len() + 3
                &&& post.events[pre.events.len() as int] == EventView::DepositFromEthereum(c)
                &&& post.events[pre.events.len() as int + 1] == (EventView::WUsdcMinted {
                    to: d.beneficiary,
                    amount: d.amount,
                })
                &&& post.events[pre.events.len() as int + 2] == (EventView::Staked {
                    user: d.beneficiary,
                    amount: d.amount,
                })
            }
        }),
{
}

/// Law: submitting the identical claim twice succeeds at most once — after a
/// successful submission, the same claim is rejected as already processed
/// and changes nothing, so no account is credited twice for one claim key.
pub proof fn lemma_replay_rejected(
    pre: ServiceView,
    mid: ServiceView,
    post: ServiceView,
    slot: u64,
    transaction_index: u32,
    receipt_rlp: Seq<u8>,
    root: Option<RootView>,
    r2: Result<(), PipelineError>,
)
    requires
        receipt_transition(
            pre,
            slot,
            transaction_index,
            receipt_rlp,
            root,
            mid,
            Ok::<(), PipelineError>(()),
        ),
        receipt_transition(mid, slot, transaction_index, receipt_rlp, root, post, r2),
    ensures
        r2 == Err::<(), PipelineError>(PipelineError::Replay(ReplayError::AlreadyProcessed)),
        post == mid,
{
    let key = ClaimKey { slot, transaction_index };
    assert(mid.processed[pre.processed.len() as int] == key);
    assert(mid.processed.contains(key));
}

/// Law: a payload that decodes to a claim with an empty receipt is rejected
/// at the decode stage, and neither ledger nor log nor replay guard changes.
pub proof fn lemma_empty_receipt_rejected(
    pre: ServiceView,
    raw: Seq<u8>,
    root: Option<RootView>,
    post: ServiceView,
    r: Result<(), PipelineError>,
)
    requires
        payload_transition(pre, raw, root, post, r),
        well_formed_payload(raw),
        payload_receipt(raw).len() == 0,
    ensures
        r == Err::<(), PipelineError>(PipelineError::Decode(DecodeError::EmptyReceipt)),
        post == pre,
{
}

/// Law: a claim whose proof does not match the trusted root is rejected as
/// `ProofInvalid` and no claim key is admitted, so the same slot and index
/// can be resubmitted later with a corrected proof.
pub proof fn lemma_invalid_proof_rejected(
    pre: ServiceView,
    slot: u64,
    transaction_index: u32,
    receipt_rlp: Seq<u8>,
    root: Option<RootView>,
    post: ServiceView,
    r: Result<(), PipelineError>,
)
    requires
        receipt_transition(pre, slot, transaction_index, receipt_rlp, root, post, r),
        receipt_rlp.len() > 0,
        verify_outcome((ClaimView { slot, transaction_index, receipt_rlp }), root,
            pre.deposit_topic) == Err::<DepositView, VerifyError>(VerifyError::ProofInvalid),
    ensures
        r == Err::<(), PipelineError>(PipelineError::Verify(VerifyError::ProofInvalid)),
        post == pre,
        post.processed == pre.processed,
{
}

/// Law: when the beneficiary's balance already sits at the largest
/// representable value, one more verified deposit fails with `Overflow` and
/// the whole state, the account included, is left unchanged.
pub proof fn lemma_saturated_balance_rejected(
    pre: ServiceView,
    slot: u64,
    transaction_index: u32,
    receipt_rlp: Seq<u8>,
    root: Option<RootView>,
    post: ServiceView,
    r: Result<(), PipelineError>,
    d: DepositView,
)
    requires
        receipt_transition(pre, slot, transaction_index, receipt_rlp, root, post, r),
        receipt_rlp.len() > 0,
        verify_outcome((ClaimView { slot, transaction_index, receipt_rlp }), root,
            pre.deposit_topic) == Ok::<DepositView, VerifyError>(d),
        !pre.processed.contains(ClaimKey { slot, transaction_index }),
        balance_of(pre.accounts, d.beneficiary) == u128::MAX,
    ensures
        r == Err::<(), PipelineError>(PipelineError::Ledger(LedgerError::Overflow)),
        post == pre,
{
    let c = ClaimView { slot, transaction_index, receipt_rlp };
    crate::receipt::lemma_verified_deposit_wf(c, root, pre.deposit_topic, d);
}

} // verus!
