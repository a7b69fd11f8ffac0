use staking_receiver::codec::{decode, DecodeError};

/// The canonical payload for a claim, written out by hand: slot in 8
/// little-endian bytes, transaction index in 4, the receipt prefixed by its
/// compact length (single-byte form, so the receipt must be shorter than 64
/// bytes here).
fn payload_short(slot: u64, tx_index: u32, receipt: &[u8]) -> Vec<u8> {
    assert!(receipt.len() < 64);
    let mut out = Vec::new();
    out.extend_from_slice(&slot.to_le_bytes());
    out.extend_from_slice(&tx_index.to_le_bytes());
    out.push((receipt.len() as u8) * 4);
    out.extend_from_slice(receipt);
    out
}

#[test]
fn decode_valid_claim() {
    let raw = payload_short(100, 2, &[0xaa, 0xbb, 0xcc]);
    let claim = decode(&raw).expect("canonical payload must decode");
    assert_eq!(claim.slot, 100);
    assert_eq!(claim.transaction_index, 2);
    assert_eq!(claim.receipt_rlp, vec![0xaa, 0xbb, 0xcc]);
}

#[test]
fn decode_large_slot_and_index() {
    let raw = payload_short(u64::MAX, u32::MAX, &[1]);
    let claim = decode(&raw).expect("canonical payload must decode");
    assert_eq!(claim.slot, u64::MAX);
    assert_eq!(claim.transaction_index, u32::MAX);
    assert_eq!(claim.receipt_rlp, vec![1]);
}

#[test]
fn decode_empty_receipt() {
    let raw = payload_short(100, 2, &[]);
    assert_eq!(decode(&raw), Err(DecodeError::EmptyReceipt));
}

#[test]
fn decode_short_input_is_malformed() {
    assert_eq!(decode(&vec![]), Err(DecodeError::Malformed));
    assert_eq!(decode(&vec![0u8; 12]), Err(DecodeError::Malformed));
}

#[test]
fn decode_trailing_bytes_are_malformed() {
    let mut raw = payload_short(100, 2, &[0xaa]);
    raw.push(0x00);
    assert_eq!(decode(&raw), Err(DecodeError::Malformed));
}

#[test]
fn decode_truncated_receipt_is_malformed() {
    let mut raw = payload_short(100, 2, &[0xaa, 0xbb]);
    raw.pop();
    assert_eq!(decode(&raw), Err(DecodeError::Malformed));
}

#[test]
fn decode_two_byte_length_form() {
    // A 64-byte receipt needs the two-byte compact form: 64 * 4 + 1 = 257.
    let receipt = vec![0x11u8; 64];
    let mut raw = Vec::new();
    raw.extend_from_slice(&7u64.to_le_bytes());
    raw.extend_from_slice(&9u32.to_le_bytes());
    raw.push(0x01);
    raw.push(0x01);
    raw.extend_from_slice(&receipt);
    let claim = decode(&raw).expect("two-byte length form must decode");
    assert_eq!(claim.slot, 7);
    assert_eq!(claim.transaction_index, 9);
    assert_eq!(claim.receipt_rlp, receipt);
}

#[test]
fn decode_non_minimal_length_is_malformed() {
    // Length 2 written in the two-byte form (2 * 4 + 1 = 9) is not minimal.
    let mut raw = Vec::new();
    raw.extend_from_slice(&100u64.to_le_bytes());
    raw.extend_from_slice(&2u32.to_le_bytes());
    raw.push(0x09);
    raw.push(0x00);
    raw.extend_from_slice(&[0xaa, 0xbb]);
    assert_eq!(decode(&raw), Err(DecodeError::Malformed));
}

#[test]
fn decode_four_byte_length_form() {
    // A 16384-byte receipt needs the four-byte form: 16384 * 4 + 2 = 65538.
    let receipt = vec![0x22u8; 16384];
    let mut raw = Vec::new();
    raw.extend_from_slice(&1u64.to_le_bytes());
    raw.extend_from_slice(&0u32.to_le_bytes());
    raw.extend_from_slice(&65538u32.to_le_bytes());
    raw.extend_from_slice(&receipt);
    let claim = decode(&raw).expect("four-byte length form must decode");
    assert_eq!(claim.receipt_rlp.len(), 16384);
}

#[test]
fn decode_bad_big_length_marker_is_malformed() {
    // First length byte 7 announces a multi-word big-integer length, which
    // no receipt length can need.
    let mut raw = Vec::new();
    raw.extend_from_slice(&1u64.to_le_bytes());
    raw.extend_from_slice(&0u32.to_le_bytes());
    raw.push(0x07);
    raw.extend_from_slice(&[0u8; 8]);
    assert_eq!(decode(&raw), Err(DecodeError::Malformed));
}
