//! The transaction data model: body, signature, hash and block context.

use vstd::prelude::*;
use crate::bytes::{
    be_fixed, be_min, lemma_pow256_16, lemma_be_min_split, lemma_be_fixed_split, u128_to_be_min,
    u128_to_be_fixed,
};
use crate::rlp::{rlp_bytes, rlp_uint, rlp_list};

verus! {

/// Wide unsigned integer made of two 128-bit halves, used for signature
/// scalars, transaction values and transaction hashes.
#[derive(Clone, Copy, PartialEq, Eq, Structural, Debug)]
pub struct U256 {
    pub hi: u128,
    pub lo: u128,
}

impl U256 {
    /// The mathematical value: `hi * 2^128 + lo`.
    pub open spec fn value(self) -> nat {
        (self.hi as nat) * 0x100000000000000000000000000000000 + self.lo as nat
    }

    pub fn new(hi: u128, lo: u128) -> (r: U256)
        ensures
            r.hi == hi,
            r.lo == lo,
    {
        U256 { hi, lo }
    }

    /// The shortest big-endian bytes of the value.
    pub fn to_be_min(&self) -> (out: Vec<u8>)
        ensures
            out@ == be_min(self.value()),
    {
        if self.hi == 0 {
            u128_to_be_min(self.lo)
        } else {
            proof {
                lemma_pow256_16();
                lemma_be_min_split(self.hi as nat, self.lo as nat, 16);
            }
            let mut out = u128_to_be_min(self.hi);
            let mut low = u128_to_be_fixed(self.lo, 16);
            out.append(&mut low);
            out
        }
    }

    /// The big-endian bytes of the value, padded to exactly 32 bytes.
    pub fn to_be_fixed32(&self) -> (out: Vec<u8>)
        ensures
            out@ == be_fixed(self.value(), 32),
            out@.len() == 32,
    {
        proof {
            lemma_pow256_16();
            lemma_be_fixed_split(self.hi as nat, self.lo as nat, 16, 16);
            crate::bytes::lemma_be_fixed_value(self.hi as nat, 16);
            crate::bytes::lemma_be_fixed_value(self.lo as nat, 16);
        }
        let mut out = u128_to_be_fixed(self.hi, 16);
        let mut low = u128_to_be_fixed(self.lo, 16);
        out.append(&mut low);
        out
    }
}

/// The wire format a transaction body uses.
#[derive(Clone, Copy, PartialEq, Eq, Structural, Debug)]
pub enum TxKind {
    /// The original format; the chain id, when bound at all, rides in the
    /// signature's recovery value.
    Legacy,
    /// The typed format introduced together with access lists.
    AccessList,
    /// The typed format with a fee-cap and tip pair.
    DynamicFee,
}

/// The signature-free part of a transaction.
pub struct TxBody {
    pub kind: TxKind,
    /// Absent only on pre-replay-protection legacy transactions.
    pub chain_id: Option<u64>,
    pub nonce: u64,
    /// The single gas price of legacy and access-list transactions.
    pub gas_price: u128,
    /// The tip of a dynamic-fee transaction.
    pub max_priority_fee_per_gas: u128,
    /// The fee cap of a dynamic-fee transaction.
    pub max_fee_per_gas: u128,
    pub gas_limit: u64,
    /// The 20-byte destination, or none for contract creation.
    pub to: Option<Vec<u8>>,
    pub value: U256,
    pub input: Vec<u8>,
}

impl TxBody {
    pub open spec fn wf(self) -> bool {
        &&& (self.kind != TxKind::Legacy ==> self.chain_id is Some)
        &&& (self.to matches Some(a) ==> a@.len() == 20)
    }

    /// The fee cap the validator compares against: the fee-cap field of a
    /// dynamic-fee transaction, the gas price of the other kinds.
    pub open spec fn max_fee(self) -> u128 {
        if self.kind is DynamicFee {
            self.max_fee_per_gas
        } else {
            self.gas_price
        }
    }

    /// The priority fee, zero where the kind carries none.
    pub open spec fn priority_fee_or_zero(self) -> u128 {
        if self.kind is DynamicFee {
            self.max_priority_fee_per_gas
        } else {
            0
        }
    }
}

/// An ECDSA signature over the secp256k1 curve, with its parity bit.
pub struct EcdsaSignature {
    pub r: U256,
    pub s: U256,
    pub odd_y_parity: bool,
}

impl EcdsaSignature {
    /// The 64-byte `r || s` form handed to the recovery routine.
    pub open spec fn to_bytes(self) -> Seq<u8> {
        be_fixed(self.r.value(), 32) + be_fixed(self.s.value(), 32)
    }
}

/// A transaction body with its signature and content hash.
pub struct SignedTransaction {
    pub body: TxBody,
    pub signature: EcdsaSignature,
    pub hash: U256,
}

impl SignedTransaction {
    pub open spec fn wf(self) -> bool {
        self.body.wf()
    }
}

/// The slice of the previous block's header that validation reads.
pub struct BlockContext {
    /// Absent on blocks that predate the base-fee mechanism; treated as zero.
    pub base_fee_per_gas: Option<u128>,
    pub gas_limit: u64,
}

impl BlockContext {
    pub open spec fn base_fee_or_zero(self) -> u128 {
        match self.base_fee_per_gas {
            Some(b) => b,
            None => 0,
        }
    }
}

/// The destination field as the byte string its encoding speaks of:
/// the address, or empty for contract creation.
pub open spec fn to_field_bytes(to: Option<Vec<u8>>) -> Seq<u8> {
    match to {
        Some(a) => a@,
        None => Seq::empty(),
    }
}

/// The concatenated item encodings of a legacy body; replay-protected
/// bodies append their chain id and two empty items.
pub open spec fn legacy_fields(b: TxBody) -> Seq<u8> {
    rlp_uint(b.nonce as nat) + rlp_uint(b.gas_price as nat) + rlp_uint(b.gas_limit as nat)
        + rlp_bytes(to_field_bytes(b.to)) + rlp_uint(b.value.value()) + rlp_bytes(b.input@) + (
    match b.chain_id {
        Some(c) => rlp_uint(c as nat) + rlp_uint(0) + rlp_uint(0),
        None => Seq::empty(),
    })
}

/// The concatenated item encodings of an access-list body; the access
/// list itself is the empty list.
pub open spec fn access_list_fields(b: TxBody) -> Seq<u8> {
    rlp_uint(b.chain_id->Some_0 as nat) + rlp_uint(b.nonce as nat) + rlp_uint(b.gas_price as nat)
        + rlp_uint(b.gas_limit as nat) + rlp_bytes(to_field_bytes(b.to)) + rlp_uint(
        b.value.value(),
    ) + rlp_bytes(b.input@) + seq![0xc0u8]
}

/// The concatenated item encodings of a dynamic-fee body; the access
/// list itself is the empty list.
pub open spec fn dynamic_fee_fields(b: TxBody) -> Seq<u8> {
    rlp_uint(b.chain_id->Some_0 as nat) + rlp_uint(b.nonce as nat) + rlp_uint(
        b.max_priority_fee_per_gas as nat,
    ) + rlp_uint(b.max_fee_per_gas as nat) + rlp_uint(b.gas_limit as nat) + rlp_bytes(
        to_field_bytes(b.to),
    ) + rlp_uint(b.value.value()) + rlp_bytes(b.input@) + seq![0xc0u8]
}

/// The deterministic signature-free serialization of a body: a plain
/// item list for the legacy kind, a type byte followed by the list for
/// the typed kinds. This is also the byte string whose digest the
/// signature signs.
pub open spec fn unsigned_payload(b: TxBody) -> Seq<u8> {
    match b.kind {
        TxKind::Legacy => rlp_list(legacy_fields(b)),
        TxKind::AccessList => seq![1u8] + rlp_list(access_list_fields(b)),
        TxKind::DynamicFee => seq![2u8] + rlp_list(dynamic_fee_fields(b)),
    }
}

/// Appends the encoding of the destination field.
fn encode_to_field(out: &mut Vec<u8>, to: &Option<Vec<u8>>)
    ensures
        final(out)@ == old(out)@ + rlp_bytes(to_field_bytes(*to)),
{
    match to {
        Some(a) => crate::rlp::encode_bytes(out, a),
        None => {
            out.push(0x80);
            proof {
                assert(rlp_bytes(Seq::<u8>::empty()) =~= seq![0x80u8]);
                assert(old(out)@ + rlp_bytes(to_field_bytes(*to)) =~= out@);
            }
        },
    }
}

/// The signature-free serialization of the body, as `unsigned_payload`
/// states it.
pub fn encode_unsigned(b: &TxBody) -> (out: Vec<u8>)
    requires
        b.wf(),
    ensures
        out@ == unsigned_payload(*b),
{
    let mut fields: Vec<u8> = Vec::new();
    match b.kind {
        TxKind::Legacy => {
            crate::rlp::encode_uint(&mut fields, b.nonce as u128);
            crate::rlp::encode_uint(&mut fields, b.gas_price);
            crate::rlp::encode_uint(&mut fields, b.gas_limit as u128);
            encode_to_field(&mut fields, &b.to);
            let vb = b.value.to_be_min();
            crate::rlp::encode_bytes(&mut fields, &vb);
            crate::rlp::encode_bytes(&mut fields, &b.input);
            match b.chain_id {
                Some(c) => {
                    crate::rlp::encode_uint(&mut fields, c as u128);
                    crate::rlp::encode_uint(&mut fields, 0);
                    crate::rlp::encode_uint(&mut fields, 0);
                },
                None => {},
            }
            proof {
                assert(fields@ =~= legacy_fields(*b));
            }
            let mut out: Vec<u8> = Vec::new();
            crate::rlp::encode_len_header(&mut out, 0xc0, fields.len());
            out.append(&mut fields);
            proof {
                assert(out@ =~= unsigned_payload(*b));
            }
            out
        },
        TxKind::AccessList => {
            let c = match b.chain_id {
                Some(c) => c,
                None => 0,
            };
            crate::rlp::encode_uint(&mut fields, c as u128);
            crate::rlp::encode_uint(&mut fields, b.nonce as u128);
            crate::rlp::encode_uint(&mut fields, b.gas_price);
            crate::rlp::encode_uint(&mut fields, b.gas_limit as u128);
            encode_to_field(&mut fields, &b.to);
            let vb = b.value.to_be_min();
            crate::rlp::encode_bytes(&mut fields, &vb);
            crate::rlp::encode_bytes(&mut fields, &b.input);
            fields.push(0xc0);
            proof {
                assert(fields@ =~= access_list_fields(*b));
            }
            let mut out: Vec<u8> = Vec::new();
            out.push(1);
            crate::rlp::encode_len_header(&mut out, 0xc0, fields.len());
            out.append(&mut fields);
            proof {
                assert(out@ =~= unsigned_payload(*b));
            }
            out
        },
        TxKind::DynamicFee => {
            let c = match b.chain_id {
                Some(c) => c,
                None => 0,
            };
            crate::rlp::encode_uint(&mut fields, c as u128);
            crate::rlp::encode_uint(&mut fields, b.nonce as u128);
            crate::rlp::encode_uint(&mut fields, b.max_priority_fee_per_gas);
            crate::rlp::encode_uint(&mut fields, b.max_fee_per_gas);
            crate::rlp::encode_uint(&mut fields, b.gas_limit as u128);
            encode_to_field(&mut fields, &b.to);
            let vb = b.value.to_be_min();
            crate::rlp::encode_bytes(&mut fields, &vb);
            crate::rlp::encode_bytes(&mut fields, &b.input);
            fields.push(0xc0);
            proof {
                assert(fields@ =~= dynamic_fee_fields(*b));
            }
            let mut out: Vec<u8> = Vec::new();
            out.push(2);
            crate::rlp::encode_len_header(&mut out, 0xc0, fields.len());
            out.append(&mut fields);
            proof {
                assert(out@ =~= unsigned_payload(*b));
            }
            out
        },
    }
}

/// The 64-byte `r || s` signature form.
pub fn signature_bytes(sig: &EcdsaSignature) -> (out: Vec<u8>)
    ensures
        out@ == sig.to_bytes(),
        out@.len() == 64,
{
    proof {
        crate::bytes::lemma_be_fixed_value(sig.r.value(), 32);
        crate::bytes::lemma_be_fixed_value(sig.s.value(), 32);
    }
    let mut out = sig.r.to_be_fixed32();
    let mut sb = sig.s.to_be_fixed32();
    out.append(&mut sb);
    out
}

} // verus!
