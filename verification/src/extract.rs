//! Conversion of an ECDSA signature into the field-element form the
//! virtual machine consumes.

use vstd::prelude::*;
use crate::felt::FieldElement;
use crate::tx::{SignedTransaction, TxKind, U256};

verus! {

/// The last of the five signature elements: the classic recovery value
/// for a legacy transaction — parity plus twice the chain id plus 35, or
/// parity plus 27 without a chain id — and the bare parity bit for the
/// typed kinds.
pub open spec fn recovery_value(tx: SignedTransaction) -> nat {
    let parity: nat = if tx.signature.odd_y_parity {
        1
    } else {
        0
    };
    if tx.body.kind is Legacy {
        match tx.body.chain_id {
            Some(c) => parity + 2 * (c as nat) + 35,
            None => parity + 27,
        }
    } else {
        parity
    }
}

/// The five signature elements, in order: the high and low 128-bit halves
/// of `r`, the high and low halves of `s`, and the recovery value. Each
/// half embeds losslessly because the field modulus exceeds `2^128`.
pub fn extract(tx: &SignedTransaction) -> (out: Vec<FieldElement>)
    ensures
        out@.len() == 5,
        out@[0].value() == tx.signature.r.hi,
        out@[1].value() == tx.signature.r.lo,
        out@[2].value() == tx.signature.s.hi,
        out@[3].value() == tx.signature.s.lo,
        out@[4].value() == recovery_value(*tx),
        forall|i: int| 0 <= i < 5 ==> #[trigger] out@[i].wf(),
        out@[0].value() * 0x100000000000000000000000000000000 + out@[1].value()
            == tx.signature.r.value(),
        out@[2].value() * 0x100000000000000000000000000000000 + out@[3].value()
            == tx.signature.s.value(),
{
    let mut out: Vec<FieldElement> = Vec::new();
    out.push(FieldElement::from_u128(tx.signature.r.hi));
    out.push(FieldElement::from_u128(tx.signature.r.lo));
    out.push(FieldElement::from_u128(tx.signature.s.hi));
    out.push(FieldElement::from_u128(tx.signature.s.lo));
    let parity: u128 = if tx.signature.odd_y_parity {
        1
    } else {
        0
    };
    let last = match tx.body.kind {
        TxKind::Legacy => {
            match tx.body.chain_id {
                Some(c) => FieldElement::from_u128(parity + 2 * (c as u128) + 35),
                None => FieldElement::from_u128(parity + 27),
            }
        },
        _ => FieldElement::from_u128(parity),
    };
    out.push(last);
    out
}

/// Splitting a 256-bit value into its 128-bit halves loses nothing: the
/// halves reassemble to the value by `hi * 2^128 + lo`.
pub proof fn lemma_split_roundtrip(x: U256)
    ensures
        (x.hi as nat) * 0x100000000000000000000000000000000 + (x.lo as nat) == x.value(),
{
}

} // verus!
