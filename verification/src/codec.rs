//! Payload decoder: turns an inbound byte payload into a typed deposit claim
//! or rejects it.
//!
//! The canonical payload is the chain's binary encoding of the triple
//! `(slot: u64, transaction_index: u32, receipt_rlp: Vec<u8>)`: the two
//! integers little-endian in 8 and 4 bytes, the receipt prefixed by its
//! length in the compact form (two low bits of the first byte select a 1-,
//! 2-, 4- or 5-byte header, and the length must use the shortest form that
//! holds it). The decoder fails closed: any byte string that is not exactly
//! one canonical payload is rejected as `Malformed`, and a canonical payload
//! whose receipt is empty is rejected as `EmptyReceipt`.

use vstd::prelude::*;
use crate::bytes::{le_value, lemma_le_value2, lemma_le_value4, lemma_le_value8, copy_range};

verus! {

/// An unverified claim that a deposit happened on the source chain.
#[derive(Debug, Clone, PartialEq, Eq)]
pub struct DepositFromEthereum {
    pub slot: u64,
    pub transaction_index: u32,
    pub receipt_rlp: Vec<u8>,
}

/// Mathematical image of a claim.
pub struct ClaimView {
    pub slot: u64,
    pub transaction_index: u32,
    pub receipt_rlp: Seq<u8>,
}

impl View for DepositFromEthereum {
    type V = ClaimView;

    open spec fn view(&self) -> ClaimView {
        ClaimView {
            slot: self.slot,
            transaction_index: self.transaction_index,
            receipt_rlp: self.receipt_rlp@,
        }
    }
}

#[derive(Debug, Clone, Copy, PartialEq, Eq, Structural)]
pub enum DecodeError {
    /// The bytes are not one canonical claim payload.
    Malformed,
    /// The payload is canonical but carries an empty receipt.
    EmptyReceipt,
}

/// Parses a compact length header at the front of `t`: the length it holds
/// and the header's size in bytes, or `None` when `t` does not start with a
/// canonical header.
pub open spec fn compact_parse(t: Seq<u8>) -> Option<(nat, nat)> {
    if t.len() < 1 {
        None
    } else if t[0] % 4 == 0 {
        Some(((t[0] / 4) as nat, 1))
    } else if t[0] % 4 == 1 {
        if t.len() < 2 {
            None
        } else {
            let v: nat = le_value(t.subrange(0, 2));
            if v / 4 >= 64 {
                Some((v / 4, 2))
            } else {
                None
            }
        }
    } else if t[0] % 4 == 2 {
        if t.len() < 4 {
            None
        } else {
            let v: nat = le_value(t.subrange(0, 4));
            if v / 4 >= 16384 {
                Some((v / 4, 4))
            } else {
                None
            }
        }
    } else {
        if t[0] == 3 {
            if t.len() < 5 {
                None
            } else {
                let v: nat = le_value(t.subrange(1, 5));
                if v >= 0x40000000 {
                    Some((v, 5))
                } else {
                    None
                }
            }
        } else {
            None
        }
    }
}

/// Whether `raw` is exactly one canonical claim payload.
pub open spec fn well_formed_payload(raw: Seq<u8>) -> bool {
    &&& raw.len() >= 12
    &&& compact_parse(raw.subrange(12, raw.len() as int)) matches Some(p)
        && raw.len() == 12 + p.1 + p.0
}

/// The slot field of a payload.
pub open spec fn payload_slot(raw: Seq<u8>) -> nat {
    le_value(raw.subrange(0, 8))
}

/// The transaction-index field of a payload.
pub open spec fn payload_tx_index(raw: Seq<u8>) -> nat {
    le_value(raw.subrange(8, 12))
}

/// The receipt bytes of a payload.
pub open spec fn payload_receipt(raw: Seq<u8>) -> Seq<u8> {
    let p = compact_parse(raw.subrange(12, raw.len() as int))->Some_0;
    raw.subrange(12 + p.1 as int, raw.len() as int)
}

/// Decodes an inbound payload into a deposit claim.
///
/// Succeeds exactly on the canonical payloads with a non-empty receipt; a
/// canonical payload with an empty receipt gives `EmptyReceipt`, and every
/// other byte string gives `Malformed`. Pure: no state is touched.
pub fn decode(raw: &Vec<u8>) -> (r: Result<DepositFromEthereum, DecodeError>)
    ensures
        r matches Ok(c) ==> well_formed_payload(raw@)
            && c@.slot == payload_slot(raw@)
            && c@.transaction_index == payload_tx_index(raw@)
            && c@.receipt_rlp == payload_receipt(raw@)
            && c@.receipt_rlp.len() > 0,
        r is Ok <==> well_formed_payload(raw@) && payload_receipt(raw@).len() > 0,
        r == Err::<DepositFromEthereum, DecodeError>(DecodeError::EmptyReceipt)
            <==> well_formed_payload(raw@) && payload_receipt(raw@).len() == 0,
        r == Err::<DepositFromEthereum, DecodeError>(DecodeError::Malformed)
            <==> !well_formed_payload(raw@),
{
    if raw.len() < 13 {
        return Err(DecodeError::Malformed);
    }
    let ghost tail = raw@.subrange(12, raw@.len() as int);
    let slot: u64 = (raw[0] as u64) + (raw[1] as u64) * 256 + (raw[2] as u64) * 65536
        + (raw[3] as u64) * 16777216 + (raw[4] as u64) * 0x100000000
        + (raw[5] as u64) * 0x10000000000 + (raw[6] as u64) * 0x1000000000000
        + (raw[7] as u64) * 0x100000000000000;
    proof {
        lemma_le_value8(raw@.subrange(0, 8));
    }
    let tx_index: u32 = (raw[8] as u32) + (raw[9] as u32) * 256 + (raw[10] as u32) * 65536
        + (raw[11] as u32) * 16777216;
    proof {
        lemma_le_value4(raw@.subrange(8, 12));
    }
    let b0: u8 = raw[12];
    let header: usize;
    let len64: u64;
    if b0 % 4 == 0 {
        header = 1;
        len64 = (b0 / 4) as u64;
    } else if b0 % 4 == 1 {
        if raw.len() < 14 {
            return Err(DecodeError::Malformed);
        }
        let v: u32 = (raw[12] as u32) + (raw[13] as u32) * 256;
        proof {
            lemma_le_value2(tail.subrange(0, 2));
            assert(tail.subrange(0, 2)[0] == raw@[12]);
            assert(tail.subrange(0, 2)[1] == raw@[13]);
        }
        if v / 4 < 64 {
            return Err(DecodeError::Malformed);
        }
        header = 2;
        len64 = (v / 4) as u64;
    } else if b0 % 4 == 2 {
        if raw.len() < 16 {
            return Err(DecodeError::Malformed);
        }
        let v: u32 = (raw[12] as u32) + (raw[13] as u32) * 256 + (raw[14] as u32) * 65536
            + (raw[15] as u32) * 16777216;
        proof {
            lemma_le_value4(tail.subrange(0, 4));
            assert(tail.subrange(0, 4)[0] == raw@[12]);
            assert(tail.subrange(0, 4)[1] == raw@[13]);
            assert(tail.subrange(0, 4)[2] == raw@[14]);
            assert(tail.subrange(0, 4)[3] == raw@[15]);
        }
        if v / 4 < 16384 {
            return Err(DecodeError::Malformed);
        }
        header = 4;
        len64 = (v / 4) as u64;
    } else {
        if b0 != 3 {
            return Err(DecodeError::Malformed);
        }
        if raw.len() < 17 {
            return Err(DecodeError::Malformed);
        }
        let v: u32 = (raw[13] as u32) + (raw[14] as u32) * 256 + (raw[15] as u32) * 65536
            + (raw[16] as u32) * 16777216;
        proof {
            lemma_le_value4(tail.subrange(1, 5));
            assert(tail.subrange(1, 5)[0] == raw@[13]);
            assert(tail.subrange(1, 5)[1] == raw@[14]);
            assert(tail.subrange(1, 5)[2] == raw@[15]);
            assert(tail.subrange(1, 5)[3] == raw@[16]);
        }
        if v < 0x40000000 {
            return Err(DecodeError::Malformed);
        }
        header = 5;
        len64 = v as u64;
    }
    assert(compact_parse(tail) == Some((len64 as nat, header as nat)));
    if (raw.len() as u64) != 12 + (header as u64) + len64 {
        return Err(DecodeError::Malformed);
    }
    let start: usize = 12 + header;
    let receipt_len: usize = len64 as usize;
    if receipt_len == 0 {
        return Err(DecodeError::EmptyReceipt);
    }
    let receipt_rlp = copy_range(raw, start, start + receipt_len);
    assert(receipt_rlp@ =~= payload_receipt(raw@));
    Ok(DepositFromEthereum { slot, transaction_index: tx_index, receipt_rlp })
}

} // verus!
