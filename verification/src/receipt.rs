//! Receipt verifier: proves that the receipt embedded in a claim is included
//! under the trusted source-chain root for the claimed slot, and extracts the
//! deposit it witnesses.
//!
//! The receipt bytes of a claim form an envelope: a 4-byte little-endian
//! payload length, the receipt payload itself, and the inclusion proof as a
//! run of 32-byte sibling digests, at most 32 of them. The proof is checked
//! by hashing the payload and folding it with each sibling in turn, the bits
//! of the transaction index (least significant first) choosing the side on
//! which the sibling stands; the fold must end in the digest held by the
//! trusted root.
//!
//! The payload is the receipt's event log: a count byte followed by that many
//! entries, each a 32-byte topic, a 2-byte little-endian data length, and the
//! data. The first entry whose topic equals the configured deposit topic is
//! the deposit event; its data must be a 32-byte beneficiary identity
//! followed by a 16-byte big-endian amount in source-chain units. The amount
//! is scaled down to the ledger's fixed-point unit, rounding down.

use vstd::prelude::*;
use crate::bytes::{
    le_value, be_value, lemma_le_value2, lemma_le_value4, lemma_be_value16, copy_range,
    concat_bytes, bytes_eq,
};
use crate::codec::{DepositFromEthereum, ClaimView};
use crate::hash::{keccak_of, keccak256};
use crate::ident::ActorId;

verus! {

/// Source-chain amounts carry six more decimal places than the ledger's
/// fixed-point unit; amounts are divided by this, rounding down.
pub const AMOUNT_SCALING_DIVISOR: u128 = 1000000;

/// The finalized source-chain root for one slot, supplied by the surrounding
/// light client.
#[derive(Debug, Clone)]
pub struct SourceChainRoot {
    pub slot: u64,
    pub root: Vec<u8>,
}

/// Mathematical image of a trusted root.
pub struct RootView {
    pub slot: u64,
    pub root: Seq<u8>,
}

impl View for SourceChainRoot {
    type V = RootView;

    open spec fn view(&self) -> RootView {
        RootView { slot: self.slot, root: self.root@ }
    }
}

/// A deposit whose inclusion proof has been checked. Its amount is positive
/// and its beneficiary is a well-formed 32-byte identity.
#[derive(Debug, Clone)]
pub struct VerifiedDeposit {
    pub beneficiary: ActorId,
    pub amount: u128,
    pub slot: u64,
    pub transaction_index: u32,
}

/// Mathematical image of a verified deposit.
pub struct DepositView {
    pub beneficiary: Seq<u8>,
    pub amount: u128,
    pub slot: u64,
    pub transaction_index: u32,
}

impl View for VerifiedDeposit {
    type V = DepositView;

    open spec fn view(&self) -> DepositView {
        DepositView {
            beneficiary: self.beneficiary@,
            amount: self.amount,
            slot: self.slot,
            transaction_index: self.transaction_index,
        }
    }
}

#[derive(Debug, Clone, Copy, PartialEq, Eq, Structural)]
pub enum VerifyError {
    /// No trusted root for the claimed slot was available.
    RootUnavailable,
    /// The envelope is ill-formed, the claimed slot does not match the root,
    /// or the recomputed proof root differs from the trusted one.
    ProofInvalid,
    /// The proved payload holds no event with the configured deposit topic.
    EventNotFound,
    /// The deposit event's data is not a 32-byte identity followed by a
    /// 16-byte amount that scales to a positive ledger amount.
    UnsupportedEventShape,
}

/// The payload length declared at the front of an envelope.
pub open spec fn payload_len(r: Seq<u8>) -> nat {
    le_value(r.subrange(0, 4))
}

/// Whether the receipt bytes form a well-shaped envelope.
pub open spec fn envelope_wf(r: Seq<u8>) -> bool {
    &&& r.len() >= 4
    &&& r.len() >= 4 + payload_len(r)
    &&& (r.len() - 4 - payload_len(r)) % 32 == 0
    &&& (r.len() - 4 - payload_len(r)) / 32 <= 32
}

/// The receipt payload carried by an envelope.
pub open spec fn env_payload(r: Seq<u8>) -> Seq<u8> {
    r.subrange(4, 4 + payload_len(r) as int)
}

/// The inclusion-proof bytes carried by an envelope.
pub open spec fn env_proof(r: Seq<u8>) -> Seq<u8> {
    r.subrange(4 + payload_len(r) as int, r.len() as int)
}

/// Folds a digest with each 32-byte sibling of a proof in turn; bit `i` of
/// `idx` (least significant first) puts sibling `i` on the left or the right.
pub open spec fn merkle_fold(h: Seq<u8>, pf: Seq<u8>, idx: nat) -> Seq<u8>
    decreases pf.len(),
{
    if pf.len() < 32 {
        h
    } else {
        let step = if idx % 2 == 0 {
            keccak_of(h + pf.subrange(0, 32))
        } else {
            keccak_of(pf.subrange(0, 32) + h)
        };
        merkle_fold(step, pf.subrange(32, pf.len() as int), idx / 2)
    }
}

/// Whether a claim's envelope proves inclusion under the given root.
pub open spec fn proof_matches(c: ClaimView, rt: RootView) -> bool {
    &&& c.slot == rt.slot
    &&& envelope_wf(c.receipt_rlp)
    &&& merkle_fold(
            keccak_of(env_payload(c.receipt_rlp)),
            env_proof(c.receipt_rlp),
            c.transaction_index as nat,
        ) == rt.root
}

/// Outcome of scanning an event log for the first entry with the deposit
/// topic.
pub enum ScanOutcome {
    /// The bytes are not a well-shaped run of the announced entries.
    IllShaped,
    /// The log parses but holds no entry with the topic.
    NoMatch,
    /// The data of the first entry whose topic matches.
    Found(Seq<u8>),
}

/// Scans `n` log entries at the front of `b` for the first one whose topic
/// is `t`. The whole run must parse exactly.
pub open spec fn scan_logs(b: Seq<u8>, n: nat, t: Seq<u8>) -> ScanOutcome
    decreases n,
{
    if n == 0 {
        if b.len() == 0 {
            ScanOutcome::NoMatch
        } else {
            ScanOutcome::IllShaped
        }
    } else if b.len() < 34 {
        ScanOutcome::IllShaped
    } else {
        let dlen: nat = le_value(b.subrange(32, 34));
        if b.len() < 34 + dlen {
            ScanOutcome::IllShaped
        } else {
            let rest = scan_logs(b.subrange(34 + dlen as int, b.len() as int), (n - 1) as nat, t);
            if rest is IllShaped {
                ScanOutcome::IllShaped
            } else if b.subrange(0, 32) == t {
                ScanOutcome::Found(b.subrange(34, 34 + dlen as int))
            } else {
                rest
            }
        }
    }
}

/// The deposit-or-error a claim resolves to against a trusted root and a
/// configured deposit-event topic.
pub open spec fn verify_outcome(c: ClaimView, root: Option<RootView>, t: Seq<u8>) -> Result<
    DepositView,
    VerifyError,
> {
    match root {
        Option::None => Err(VerifyError::RootUnavailable),
        Option::Some(rt) => {
            if !proof_matches(c, rt) {
                Err(VerifyError::ProofInvalid)
            } else {
                let p = env_payload(c.receipt_rlp);
                if p.len() < 1 {
                    Err(VerifyError::EventNotFound)
                } else {
                    match scan_logs(p.subrange(1, p.len() as int), p[0] as nat, t) {
                        ScanOutcome::IllShaped => Err(VerifyError::EventNotFound),
                        ScanOutcome::NoMatch => Err(VerifyError::EventNotFound),
                        ScanOutcome::Found(data) => {
                            if data.len() != 48 {
                                Err(VerifyError::UnsupportedEventShape)
                            } else {
                                let amt: nat = be_value(data.subrange(32, 48))
                                    / (AMOUNT_SCALING_DIVISOR as nat);
                                if amt == 0 {
                                    Err(VerifyError::UnsupportedEventShape)
                                } else {
                                    Ok(DepositView {
                                        beneficiary: data.subrange(0, 32),
                                        amount: amt as u128,
                                        slot: c.slot,
                                        transaction_index: c.transaction_index,
                                    })
                                }
                            }
                        },
                    }
                }
            }
        },
    }
}

/// Law: every deposit the verifier hands out is well formed — its amount is
/// positive and its beneficiary is a 32-byte identity.
pub proof fn lemma_verified_deposit_wf(
    c: ClaimView,
    root: Option<RootView>,
    t: Seq<u8>,
    d: DepositView,
)
    requires
        verify_outcome(c, root, t) == Ok::<DepositView, VerifyError>(d),
    ensures
        d.amount > 0,
        d.beneficiary.len() == 32,
        d.slot == c.slot,
        d.transaction_index == c.transaction_index,
{
    match root {
        Option::None => {
        },
        Option::Some(rt) => {
            let p = env_payload(c.receipt_rlp);
            let sc = scan_logs(p.subrange(1, p.len() as int), p[0] as nat, t);
            let data = sc->Found_0;
            assert(sc is Found && data.len() == 48);
            let amt_raw: nat = be_value(data.subrange(32, 48));
            lemma_be_value16(data.subrange(32, 48));
            assert(amt_raw < 0x100000000000000000000000000000000);
            let amt: nat = amt_raw / (AMOUNT_SCALING_DIVISOR as nat);
            assert(amt <= amt_raw);
            assert(d.amount == amt as u128);
        },
    }
}

/// View of an optional trusted root.
pub open spec fn opt_root_view(r: Option<SourceChainRoot>) -> Option<RootView> {
    match r {
        Option::None => Option::None,
        Option::Some(x) => Option::Some(x@),
    }
}

/// Exec-level outcome of an event-log scan.
pub(crate) enum ScanResult {
    IllShaped,
    NoMatch,
    Found(Vec<u8>),
}

/// Scans the log entries of `p` from `off` on, as `scan_logs` does on
/// `p[off..]`.
pub(crate) fn scan_exec(p: &Vec<u8>, off: usize, n: u8, t: &Vec<u8>) -> (r: ScanResult)
    requires
        off <= p@.len(),
    ensures
        ({
            let out = scan_logs(p@.subrange(off as int, p@.len() as int), n as nat, t@);
            &&& (r is IllShaped <==> out is IllShaped)
            &&& (r is NoMatch <==> out is NoMatch)
            &&& (r matches ScanResult::Found(d) ==> out matches ScanOutcome::Found(dv) && d@
                == dv)
        }),
    decreases n,
{
    let ghost b = p@.subrange(off as int, p@.len() as int);
    if n == 0 {
        if off == p.len() {
            ScanResult::NoMatch
        } else {
            ScanResult::IllShaped
        }
    } else if p.len() - off < 34 {
        ScanResult::IllShaped
    } else {
        let dlen: usize = (p[off + 32] as usize) + (p[off + 33] as usize) * 256;
        proof {
            lemma_le_value2(b.subrange(32, 34));
            assert(b.subrange(32, 34)[0] == p@[off + 32]);
            assert(b.subrange(32, 34)[1] == p@[off + 33]);
        }
        if p.len() - off - 34 < dlen {
            ScanResult::IllShaped
        } else {
            let next: usize = off + 34 + dlen;
            assert(b.subrange(34 + dlen as int, b.len() as int) =~= p@.subrange(
                next as int,
                p@.len() as int,
            ));
            let rest = scan_exec(p, next, n - 1, t);
            match rest {
                ScanResult::IllShaped => ScanResult::IllShaped,
                other => {
                    let topic = copy_range(p, off, off + 32);
                    assert(topic@ =~= b.subrange(0, 32));
                    if bytes_eq(&topic, t) {
                        let data = copy_range(p, off + 34, off + 34 + dlen);
                        assert(data@ =~= b.subrange(34, 34 + dlen as int));
                        ScanResult::Found(data)
                    } else {
                        other
                    }
                },
            }
        }
    }
}

/// Checks a claim against the trusted root: recomputes the inclusion proof's
/// root from the embedded receipt, compares it with the trusted one, and on
/// success extracts and scales the deposit the receipt witnesses. Pure; the
/// exact outcome for every claim and root is `verify_outcome`.
pub fn verify(
    claim: &DepositFromEthereum,
    trusted_root: &Option<SourceChainRoot>,
    deposit_topic: &Vec<u8>,
) -> (r: Result<VerifiedDeposit, VerifyError>)
    ensures
        ({
            let out = verify_outcome(claim@, opt_root_view(*trusted_root), deposit_topic@);
            &&& (r matches Ok(d) ==> out matches Ok(dv) && d@ == dv)
            &&& (out matches Ok(dv) ==> r is Ok)
            &&& (r matches Err(e) ==> out == Err::<DepositView, VerifyError>(e))
            &&& (r matches Ok(d) ==> d@.amount > 0 && d@.beneficiary.len() == 32
                && d@.slot == claim@.slot && d@.transaction_index == claim@.transaction_index)
        }),
{
    let rt = match trusted_root {
        Option::None => {
            return Err(VerifyError::RootUnavailable);
        },
        Option::Some(rt) => rt,
    };
    if claim.slot != rt.slot {
        return Err(VerifyError::ProofInvalid);
    }
    let receipt = &claim.receipt_rlp;
    if receipt.len() < 4 {
        return Err(VerifyError::ProofInvalid);
    }
    let pl: u32 = (receipt[0] as u32) + (receipt[1] as u32) * 256 + (receipt[2] as u32) * 65536
        + (receipt[3] as u32) * 16777216;
    proof {
        lemma_le_value4(receipt@.subrange(0, 4));
    }
    if (receipt.len() as u64) < 4 + (pl as u64) {
        return Err(VerifyError::ProofInvalid);
    }
    let pl_us: usize = pl as usize;
    let rem: usize = receipt.len() - 4 - pl_us;
    if rem % 32 != 0 || rem / 32 > 32 {
        return Err(VerifyError::ProofInvalid);
    }
    let depth: usize = rem / 32;
    assert(envelope_wf(receipt@));
    let payload = copy_range(receipt, 4, 4 + pl_us);
    assert(payload@ =~= env_payload(receipt@));
    let proof_start: usize = 4 + pl_us;
    let mut h = keccak256(&payload);
    let ghost leaf = keccak_of(env_payload(receipt@));
    let ghost goal = merkle_fold(leaf, env_proof(receipt@), claim.transaction_index as nat);
    let mut i: usize = 0;
    let mut idx_cur: u32 = claim.transaction_index;
    assert(receipt@.subrange(proof_start as int, receipt@.len() as int) =~= env_proof(receipt@));
    while i < depth
        invariant
            i <= depth,
            receipt@.len() <= usize::MAX,
            proof_start + 32 * depth == receipt@.len(),
            proof_start == 4 + payload_len(receipt@),
            merkle_fold(
                h@,
                receipt@.subrange((proof_start + 32 * i) as int, receipt@.len() as int),
                idx_cur as nat,
            ) == goal,
        decreases depth - i,
    {
        let start: usize = proof_start + 32 * i;
        let sib = copy_range(receipt, start, start + 32);
        let ghost pf = receipt@.subrange(start as int, receipt@.len() as int);
        proof {
            assert(pf.len() == 32 * (depth - i));
            assert(pf.subrange(0, 32) =~= sib@);
            assert(pf.subrange(32, pf.len() as int) =~= receipt@.subrange(
                (proof_start + 32 * (i + 1)) as int,
                receipt@.len() as int,
            ));
        }
        let parent: Vec<u8>;
        if idx_cur % 2 == 0 {
            let joined = concat_bytes(&h, &sib);
            parent = keccak256(&joined);
        } else {
            let joined = concat_bytes(&sib, &h);
            parent = keccak256(&joined);
        }
        h = parent;
        idx_cur = idx_cur / 2;
        i = i + 1;
    }
    assert(receipt@.subrange((proof_start + 32 * i) as int, receipt@.len() as int).len() == 0);
    assert(h@ == goal);
    if !bytes_eq(&h, &rt.root) {
        assert(!proof_matches(claim@, rt@));
        return Err(VerifyError::ProofInvalid);
    }
    assert(proof_matches(claim@, rt@));
    if payload.len() < 1 {
        return Err(VerifyError::EventNotFound);
    }
    let count: u8 = payload[0];
    assert(payload@.subrange(1, payload@.len() as int) =~= env_payload(receipt@).subrange(
        1,
        env_payload(receipt@).len() as int,
    ));
    match scan_exec(&payload, 1, count, deposit_topic) {
        ScanResult::IllShaped => Err(VerifyError::EventNotFound),
        ScanResult::NoMatch => Err(VerifyError::EventNotFound),
        ScanResult::Found(data) => {
            if data.len() != 48 {
                return Err(VerifyError::UnsupportedEventShape);
            }
            let raw_amount: u128 = (data[47] as u128) + (data[46] as u128) * 0x100
                + (data[45] as u128) * 0x10000 + (data[44] as u128) * 0x1000000
                + (data[43] as u128) * 0x100000000 + (data[42] as u128) * 0x10000000000
                + (data[41] as u128) * 0x1000000000000 + (data[40] as u128) * 0x100000000000000
                + (data[39] as u128) * 0x10000000000000000
                + (data[38] as u128) * 0x1000000000000000000
                + (data[37] as u128) * 0x100000000000000000000
                + (data[36] as u128) * 0x10000000000000000000000
                + (data[35] as u128) * 0x1000000000000000000000000
                + (data[34] as u128) * 0x100000000000000000000000000
                + (data[33] as u128) * 0x10000000000000000000000000000
                + (data[32] as u128) * 0x1000000000000000000000000000000;
            proof {
                lemma_be_value16(data@.subrange(32, 48));
            }
            let amount: u128 = raw_amount / AMOUNT_SCALING_DIVISOR;
            if amount == 0 {
                return Err(VerifyError::UnsupportedEventShape);
            }
            let beneficiary = ActorId { bytes: copy_range(&data, 0, 32) };
            assert(beneficiary@ =~= data@.subrange(0, 32));
            Ok(VerifiedDeposit {
                beneficiary,
                amount,
                slot: claim.slot,
                transaction_index: claim.transaction_index,
            })
        },
    }
}

} // verus!
