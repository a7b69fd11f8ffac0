//! Cross-checks the decoder against the chain's own encoder.

use parity_scale_codec::Encode;
use staking_receiver::codec::{decode, DecodeError};

#[test]
fn decoder_accepts_the_chain_encoding() {
    let cases: Vec<(u64, u32, Vec<u8>)> = vec![
        (100, 2, vec![0xaa, 0xbb, 0xcc]),
        (0, 0, vec![1]),
        (u64::MAX, u32::MAX, vec![0x55; 200]),
        (7, 9, vec![0x11; 16384]),
        (1, 1, vec![0x33; 63]),
        (1, 1, vec![0x44; 64]),
    ];
    for (slot, tx, receipt) in cases {
        let raw = (slot, tx, receipt.clone()).encode();
        let claim = decode(&raw).expect("chain-encoded claim must decode");
        assert_eq!(claim.slot, slot);
        assert_eq!(claim.transaction_index, tx);
        assert_eq!(claim.receipt_rlp, receipt);
    }
}

#[test]
fn decoder_rejects_empty_receipt_from_chain_encoding() {
    let raw = (5u64, 1u32, Vec::<u8>::new()).encode();
    assert_eq!(decode(&raw), Err(DecodeError::EmptyReceipt));
}
