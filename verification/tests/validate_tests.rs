use eth_relay_core::tx::{
    BlockContext, EcdsaSignature, SignedTransaction, TxBody, TxKind, U256, encode_unsigned,
};
use eth_relay_core::validate::{ValidationError, Validator, WhitelistSet};
use k256::ecdsa::SigningKey;
use sha3::{Digest, Keccak256};

fn u256_from_be32(bytes: &[u8]) -> U256 {
    let mut hi: u128 = 0;
    let mut lo: u128 = 0;
    for i in 0..16 {
        hi = (hi << 8) | bytes[i] as u128;
    }
    for i in 16..32 {
        lo = (lo << 8) | bytes[i] as u128;
    }
    U256::new(hi, lo)
}

fn body(kind: TxKind, chain_id: Option<u64>) -> TxBody {
    TxBody {
        kind,
        chain_id,
        nonce: 1,
        gas_price: 2,
        max_priority_fee_per_gas: 0,
        max_fee_per_gas: 0,
        gas_limit: 21000,
        to: Some(vec![0x11u8; 20]),
        value: U256::new(0, 4),
        input: vec![],
    }
}

fn sign(b: &TxBody) -> EcdsaSignature {
    let payload = encode_unsigned(b);
    let prehash = Keccak256::digest(&payload);
    let sk = SigningKey::from_slice(&[0x42u8; 32]).unwrap();
    let (sig, recid) = sk.sign_prehash_recoverable(&prehash).unwrap();
    let sb = sig.to_bytes();
    EcdsaSignature {
        r: u256_from_be32(&sb[..32]),
        s: u256_from_be32(&sb[32..]),
        odd_y_parity: recid.is_y_odd(),
    }
}

fn zero_sig() -> EcdsaSignature {
    EcdsaSignature { r: U256::new(0, 0), s: U256::new(0, 0), odd_y_parity: false }
}

fn signed(b: TxBody) -> SignedTransaction {
    let sig = sign(&b);
    SignedTransaction { body: b, signature: sig, hash: U256::new(7, 9) }
}

fn validator() -> Validator {
    Validator::new(WhitelistSet::new(vec![]), 30_000_000)
}

fn ctx() -> BlockContext {
    BlockContext { base_fee_per_gas: Some(0), gas_limit: 30_000_000 }
}

#[test]
fn gas_over_tracing_limit_is_gas_overflow() {
    let mut b = body(TxKind::Legacy, Some(1));
    b.gas_limit = 30_000_001;
    let tx = SignedTransaction { body: b, signature: zero_sig(), hash: U256::new(0, 0) };
    let r = validator().validate(&tx, 1, &ctx());
    assert_eq!(r, Err(ValidationError::GasOverflow));
}

#[test]
fn unrecoverable_signature_is_recovery_failure() {
    let b = body(TxKind::Legacy, Some(1));
    let tx = SignedTransaction { body: b, signature: zero_sig(), hash: U256::new(0, 0) };
    let r = validator().validate(&tx, 1, &ctx());
    assert_eq!(r, Err(ValidationError::SignatureRecoveryFailed));
}

#[test]
fn chain_id_mismatch_is_invalid_chain_id() {
    let tx = signed(body(TxKind::Legacy, Some(5)));
    let r = validator().validate(&tx, 1, &ctx());
    assert_eq!(r, Err(ValidationError::InvalidChainId));
}

#[test]
fn chainless_off_whitelist_is_invalid_type_and_on_whitelist_passes() {
    let tx = signed(body(TxKind::Legacy, None));
    let r = validator().validate(&tx, 1, &ctx());
    assert_eq!(r, Err(ValidationError::InvalidTransactionType));

    let v = Validator::new(WhitelistSet::new(vec![tx.hash]), 30_000_000);
    let r2 = v.validate(&tx, 1, &ctx());
    assert_eq!(r2, Ok(()));
}

#[test]
fn base_fee_above_cap_is_fee_cap_too_low() {
    let mut b = body(TxKind::Legacy, Some(1));
    b.gas_price = 3;
    let tx = signed(b);
    let c = BlockContext { base_fee_per_gas: Some(5), gas_limit: 30_000_000 };
    let r = validator().validate(&tx, 1, &c);
    assert_eq!(r, Err(ValidationError::FeeCapTooLow(3, 5)));
}

#[test]
fn tip_above_cap_is_tip_above_fee_cap() {
    let mut b = body(TxKind::DynamicFee, Some(1));
    b.max_fee_per_gas = 3;
    b.max_priority_fee_per_gas = 10;
    let tx = signed(b);
    let r = validator().validate(&tx, 1, &ctx());
    assert_eq!(r, Err(ValidationError::TipAboveFeeCap(3, 10)));
}

#[test]
fn gas_above_block_limit_is_exceeds_block_gas_limit() {
    let mut b = body(TxKind::Legacy, Some(1));
    b.gas_limit = 30_000_000;
    let tx = signed(b);
    let c = BlockContext { base_fee_per_gas: Some(0), gas_limit: 15_000_000 };
    let r = validator().validate(&tx, 1, &c);
    assert_eq!(r, Err(ValidationError::ExceedsBlockGasLimit(30_000_000, 15_000_000)));
}

#[test]
fn all_checks_passing_is_ok() {
    let tx = signed(body(TxKind::Legacy, Some(1)));
    let r = validator().validate(&tx, 1, &ctx());
    assert_eq!(r, Ok(()));
}

#[test]
fn typed_transaction_passes_all_checks() {
    let mut b = body(TxKind::DynamicFee, Some(1));
    b.max_fee_per_gas = 7;
    b.max_priority_fee_per_gas = 2;
    let tx = signed(b);
    let c = BlockContext { base_fee_per_gas: Some(6), gas_limit: 30_000_000 };
    let r = validator().validate(&tx, 1, &c);
    assert_eq!(r, Ok(()));
}

#[test]
fn missing_base_fee_defaults_to_zero() {
    let tx = signed(body(TxKind::AccessList, Some(1)));
    let c = BlockContext { base_fee_per_gas: None, gas_limit: 30_000_000 };
    let r = validator().validate(&tx, 1, &c);
    assert_eq!(r, Ok(()));
}
