//! The validation gate: the ordered checks a transaction must pass before
//! any encoding work is spent on it.

use vstd::prelude::*;
use crate::crypto::{keccak_of, recovery_ok, keccak256, ecdsa_recovers};
use crate::tx::{SignedTransaction, BlockContext, U256, unsigned_payload, encode_unsigned,
    signature_bytes};

verus! {

/// Why a transaction was rejected; carries the compared quantities where
/// the check is a comparison.
#[derive(Clone, Copy, PartialEq, Eq, Structural, Debug)]
pub enum ValidationError {
    /// The gas limit exceeds the tracing ceiling.
    GasOverflow,
    /// The signature does not recover to a signer.
    SignatureRecoveryFailed,
    /// The transaction names a chain other than the expected one.
    InvalidChainId,
    /// A transaction without a chain id whose hash is not whitelisted.
    InvalidTransactionType,
    /// The base fee exceeds the fee cap: `(max_fee, base_fee)`.
    FeeCapTooLow(u128, u128),
    /// The priority fee exceeds the fee cap: `(max_fee, priority_fee)`.
    TipAboveFeeCap(u128, u128),
    /// The gas limit exceeds the block's: `(tx_limit, block_limit)`.
    ExceedsBlockGasLimit(u64, u64),
}

/// The read-only set of transaction hashes exempted from the chain-id
/// requirement; built once, then only looked up.
pub struct WhitelistSet {
    pub hashes: Vec<U256>,
}

impl WhitelistSet {
    /// The set of whitelisted hashes.
    pub open spec fn view(self) -> Set<U256> {
        self.hashes@.to_set()
    }

    pub fn new(hashes: Vec<U256>) -> (r: WhitelistSet)
        ensures
            r@ == hashes@.to_set(),
    {
        WhitelistSet { hashes }
    }

    pub fn contains(&self, h: &U256) -> (b: bool)
        ensures
            b == self@.contains(*h),
    {
        let mut i: usize = 0;
        while i < self.hashes.len()
            invariant
                i <= self.hashes@.len(),
                forall|j: int| 0 <= j < i ==> self.hashes@[j] != *h,
            decreases self.hashes@.len() - i,
        {
            if self.hashes[i] == *h {
                proof {
                    assert(self.hashes@.contains(*h));
                }
                return true;
            }
            i = i + 1;
        }
        proof {
            assert(!self.hashes@.contains(*h));
        }
        false
    }
}

/// Validates transactions against a fixed tracing ceiling and whitelist,
/// both injected at construction.
pub struct Validator {
    pub whitelist: WhitelistSet,
    pub tracing_block_gas_limit: u64,
}

/// What `validate` returns, check by check in their binding order: the
/// gas ceiling, signature recovery, the chain-id match, the whitelist for
/// chainless transactions, the base-fee floor, the tip bound, and the
/// block gas bound; the first failure wins.
pub open spec fn spec_validate(
    v: Validator,
    tx: SignedTransaction,
    chain_id: u64,
    ctx: BlockContext,
) -> Result<(), ValidationError> {
    if tx.body.gas_limit > v.tracing_block_gas_limit {
        Err(ValidationError::GasOverflow)
    } else if !recovery_ok(
        keccak_of(unsigned_payload(tx.body)),
        tx.signature.to_bytes(),
        tx.signature.odd_y_parity,
    ) {
        Err(ValidationError::SignatureRecoveryFailed)
    } else if tx.body.chain_id matches Some(c) && c != chain_id {
        Err(ValidationError::InvalidChainId)
    } else if tx.body.chain_id is None && !v.whitelist@.contains(tx.hash) {
        Err(ValidationError::InvalidTransactionType)
    } else if ctx.base_fee_or_zero() > tx.body.max_fee() {
        Err(ValidationError::FeeCapTooLow(tx.body.max_fee(), ctx.base_fee_or_zero()))
    } else if tx.body.priority_fee_or_zero() > tx.body.max_fee() {
        Err(ValidationError::TipAboveFeeCap(tx.body.max_fee(), tx.body.priority_fee_or_zero()))
    } else if tx.body.gas_limit > ctx.gas_limit {
        Err(ValidationError::ExceedsBlockGasLimit(tx.body.gas_limit, ctx.gas_limit))
    } else {
        Ok(())
    }
}

/// A gas limit above the tracing ceiling is rejected as a gas overflow,
/// whatever the other fields hold.
pub proof fn lemma_gas_ceiling_first(
    v: Validator,
    tx: SignedTransaction,
    chain_id: u64,
    ctx: BlockContext,
)
    requires
        tx.body.gas_limit > v.tracing_block_gas_limit,
    ensures
        spec_validate(v, tx, chain_id, ctx) == Err::<(), ValidationError>(
            ValidationError::GasOverflow,
        ),
{
}

/// Within the tracing ceiling, an unrecoverable signature is rejected as
/// a recovery failure before any later check can fire.
pub proof fn lemma_recovery_second(
    v: Validator,
    tx: SignedTransaction,
    chain_id: u64,
    ctx: BlockContext,
)
    requires
        tx.body.gas_limit <= v.tracing_block_gas_limit,
        !recovery_ok(
            keccak_of(unsigned_payload(tx.body)),
            tx.signature.to_bytes(),
            tx.signature.odd_y_parity,
        ),
    ensures
        spec_validate(v, tx, chain_id, ctx) == Err::<(), ValidationError>(
            ValidationError::SignatureRecoveryFailed,
        ),
{
}

/// A recoverable transaction that names a chain other than the expected
/// one is always rejected as an invalid chain id.
pub proof fn lemma_chain_id_mismatch(
    v: Validator,
    tx: SignedTransaction,
    chain_id: u64,
    ctx: BlockContext,
)
    requires
        tx.body.gas_limit <= v.tracing_block_gas_limit,
        recovery_ok(
            keccak_of(unsigned_payload(tx.body)),
            tx.signature.to_bytes(),
            tx.signature.odd_y_parity,
        ),
        tx.body.chain_id matches Some(c) && c != chain_id,
    ensures
        spec_validate(v, tx, chain_id, ctx) == Err::<(), ValidationError>(
            ValidationError::InvalidChainId,
        ),
{
}

/// A recoverable transaction without a chain id is rejected as an invalid
/// transaction type exactly when its hash is off the whitelist; putting
/// the hash on the whitelist is what lets it pass this check.
pub proof fn lemma_whitelist_gate(
    v: Validator,
    tx: SignedTransaction,
    chain_id: u64,
    ctx: BlockContext,
)
    requires
        tx.body.gas_limit <= v.tracing_block_gas_limit,
        recovery_ok(
            keccak_of(unsigned_payload(tx.body)),
            tx.signature.to_bytes(),
            tx.signature.odd_y_parity,
        ),
        tx.body.chain_id is None,
    ensures
        !v.whitelist@.contains(tx.hash) ==> spec_validate(v, tx, chain_id, ctx) == Err::<
            (),
            ValidationError,
        >(ValidationError::InvalidTransactionType),
        v.whitelist@.contains(tx.hash) ==> spec_validate(v, tx, chain_id, ctx) != Err::<
            (),
            ValidationError,
        >(ValidationError::InvalidTransactionType),
{
}

/// A transaction that satisfies all seven checks is accepted.
pub proof fn lemma_all_checks_pass(
    v: Validator,
    tx: SignedTransaction,
    chain_id: u64,
    ctx: BlockContext,
)
    requires
        tx.body.gas_limit <= v.tracing_block_gas_limit,
        recovery_ok(
            keccak_of(unsigned_payload(tx.body)),
            tx.signature.to_bytes(),
            tx.signature.odd_y_parity,
        ),
        tx.body.chain_id matches Some(c) ==> c == chain_id,
        tx.body.chain_id is None ==> v.whitelist@.contains(tx.hash),
        ctx.base_fee_or_zero() <= tx.body.max_fee(),
        tx.body.priority_fee_or_zero() <= tx.body.max_fee(),
        tx.body.gas_limit <= ctx.gas_limit,
    ensures
        spec_validate(v, tx, chain_id, ctx) == Ok::<(), ValidationError>(()),
{
}

impl Validator {
    pub fn new(whitelist: WhitelistSet, tracing_block_gas_limit: u64) -> (r: Validator)
        ensures
            r.whitelist@ == whitelist@,
            r.tracing_block_gas_limit == tracing_block_gas_limit,
    {
        Validator { whitelist, tracing_block_gas_limit }
    }

    /// Runs the ordered checks and returns exactly what `spec_validate`
    /// states for them.
    pub fn validate(
        &self,
        tx: &SignedTransaction,
        chain_id: u64,
        ctx: &BlockContext,
    ) -> (r: Result<(), ValidationError>)
        requires
            tx.wf(),
        ensures
            r == spec_validate(*self, *tx, chain_id, *ctx),
    {
        if tx.body.gas_limit > self.tracing_block_gas_limit {
            return Err(ValidationError::GasOverflow);
        }
        let payload = encode_unsigned(&tx.body);
        let prehash = keccak256(&payload);
        let sig64 = signature_bytes(&tx.signature);
        if !ecdsa_recovers(&sig64, tx.signature.odd_y_parity, &prehash) {
            return Err(ValidationError::SignatureRecoveryFailed);
        }
        match tx.body.chain_id {
            Some(c) => {
                if c != chain_id {
                    return Err(ValidationError::InvalidChainId);
                }
            },
            None => {
                if !self.whitelist.contains(&tx.hash) {
                    return Err(ValidationError::InvalidTransactionType);
                }
            },
        }
        let base_fee: u128 = match ctx.base_fee_per_gas {
            Some(b) => b,
            None => 0,
        };
        let max_fee: u128 = match tx.body.kind {
            crate::tx::TxKind::DynamicFee => tx.body.max_fee_per_gas,
            _ => tx.body.gas_price,
        };
        if base_fee > max_fee {
            return Err(ValidationError::FeeCapTooLow(max_fee, base_fee));
        }
        let tip: u128 = match tx.body.kind {
            crate::tx::TxKind::DynamicFee => tx.body.max_priority_fee_per_gas,
            _ => 0,
        };
        if tip > max_fee {
            return Err(ValidationError::TipAboveFeeCap(max_fee, tip));
        }
        if tx.body.gas_limit > ctx.gas_limit {
            return Err(ValidationError::ExceedsBlockGasLimit(tx.body.gas_limit, ctx.gas_limit));
        }
        Ok(())
    }
}

} // verus!
