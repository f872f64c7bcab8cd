//! Packing of the serialized transaction body into the virtual machine's
//! call-argument layout.

use vstd::prelude::*;
use crate::bytes::{
    be_value, pow256, lemma_be_value_append, lemma_be_value_bound, lemma_pow256_15,
    lemma_pow256_16, lemma_pow256_monotonic, be_range_value,
};
use crate::felt::{FieldElement, prime};
use crate::tx::{SignedTransaction, unsigned_payload, encode_unsigned};

verus! {

/// The encoder's configuration: the invoked contract, the entry point the
/// retry counter perturbs, and the calldata size ceiling with its switch.
pub struct EncodingLimits {
    pub target_address: FieldElement,
    pub base_selector: FieldElement,
    pub max_felts: usize,
    pub enforce: bool,
}

impl EncodingLimits {
    /// Well-formed: both elements are canonical, and the selector keeps
    /// room for every possible retry count below the modulus.
    pub open spec fn wf(self) -> bool {
        &&& self.target_address.wf()
        &&& self.base_selector.wf()
        &&& self.base_selector.value() + 255 < prime()
    }
}

/// Why encoding failed.
#[derive(Clone, Copy, PartialEq, Eq, Structural, Debug)]
pub enum EncodingError {
    /// The assembled calldata would exceed the ceiling: `(limit, actual)`.
    CalldataExceededLimit(usize, usize),
}

/// How many 31-byte chunks a payload of `len` bytes packs into.
pub open spec fn num_chunks(len: nat) -> nat {
    (len + 30) / 31
}

/// The bytes of the `i`-th 31-byte chunk; the last chunk may be shorter.
pub open spec fn chunk(payload: Seq<u8>, i: int) -> Seq<u8> {
    payload.subrange(
        31 * i,
        if 31 * i + 31 <= payload.len() {
            31 * i + 31
        } else {
            payload.len() as int
        },
    )
}

/// The packed-data values: the byte length of the payload, then each
/// 31-byte big-endian chunk read as a number.
pub open spec fn packed_values(payload: Seq<u8>) -> Seq<nat> {
    seq![payload.len() as nat] + Seq::new(num_chunks(payload.len()), |i: int| be_value(chunk(payload, i)))
}

/// The values of the full call-argument sequence: one call, the target
/// contract, the perturbed selector, a zero data offset, the packed-data
/// length twice, then the packed data.
pub open spec fn calldata_values(
    tx: SignedTransaction,
    retries: u8,
    limits: EncodingLimits,
) -> Seq<nat> {
    let packed = packed_values(unsigned_payload(tx.body));
    seq![
        1 as nat,
        limits.target_address.value(),
        limits.base_selector.value() + retries as nat,
        0 as nat,
        packed.len(),
        packed.len(),
    ] + packed
}

/// The number of field elements `encode` assembles for a payload of
/// `len` bytes: six header slots plus the packed data.
pub open spec fn capacity_of(len: nat) -> nat {
    6 + 1 + num_chunks(len)
}

/// One chunk of at most 31 bytes, read big-endian into a field element;
/// canonical because 31 bytes stay below `2^248`, below the modulus.
fn chunk_to_felt(payload: &Vec<u8>, from: usize, to: usize) -> (r: FieldElement)
    requires
        from <= to <= payload@.len(),
        to - from <= 31,
    ensures
        r.value() == be_value(payload@.subrange(from as int, to as int)),
        r.wf(),
{
    if to - from <= 16 {
        let lo = be_range_value(payload, from, to);
        proof {
            lemma_pow256_16();
        }
        FieldElement::from_u128(lo)
    } else {
        let hi = be_range_value(payload, from, to - 16);
        let lo = be_range_value(payload, to - 16, to);
        proof {
            let s = payload@.subrange(from as int, to as int);
            let a = payload@.subrange(from as int, to as int - 16);
            let b = payload@.subrange(to as int - 16, to as int);
            assert(s =~= a + b);
            lemma_be_value_append(a, b);
            lemma_be_value_bound(a);
            lemma_pow256_15();
            lemma_pow256_16();
            lemma_pow256_monotonic(a.len(), 15);
        }
        FieldElement::from_small_hi_lo(hi, lo)
    }
}

/// Serializes the body without its signature, packs it into 31-byte
/// chunks behind its byte length, and assembles the call-argument array;
/// fails if and only if enforcement is on and the assembled length would
/// exceed the ceiling.
pub fn encode(tx: &SignedTransaction, retries: u8, limits: &EncodingLimits) -> (r: Result<
    Vec<FieldElement>,
    EncodingError,
>)
    requires
        tx.wf(),
        limits.wf(),
    ensures
        ({
            let cap = capacity_of(unsigned_payload(tx.body).len());
            match r {
                Err(EncodingError::CalldataExceededLimit(m, c)) => {
                    &&& limits.enforce
                    &&& cap > limits.max_felts
                    &&& m == limits.max_felts
                    &&& c == cap
                },
                Ok(cd) => {
                    let values = calldata_values(*tx, retries, *limits);
                    &&& !(limits.enforce && cap > limits.max_felts)
                    &&& cd@.len() == values.len()
                    &&& cd@.len() == cap
                    &&& forall|i: int|
                        0 <= i < cd@.len() ==> #[trigger] cd@[i].value() == values[i]
                    &&& forall|i: int| 0 <= i < cd@.len() ==> #[trigger] cd@[i].wf()
                },
            }
        }),
{
    let payload = encode_unsigned(&tx.body);
    let ghost p = payload@;
    let mut packed: Vec<FieldElement> = Vec::new();
    packed.push(FieldElement::from_u128(payload.len() as u128));
    let mut pos: usize = 0;
    let mut i: usize = 0;
    let ghost nc = num_chunks(p.len());
    while pos < payload.len()
        invariant
            payload@ == p,
            nc == num_chunks(p.len()),
            (pos == 31 * i && i <= nc) || (pos == p.len() && i == nc),
            packed@.len() == 1 + i,
            packed@[0].value() == p.len(),
            packed@[0].wf(),
            forall|j: int|
                0 <= j < i ==> #[trigger] packed@[1 + j].value() == be_value(chunk(p, j)),
            forall|j: int| 0 <= j < i ==> #[trigger] packed@[1 + j].wf(),
        decreases p.len() - pos,
    {
        let end = if payload.len() - pos >= 31 {
            pos + 31
        } else {
            payload.len()
        };
        let felt = chunk_to_felt(&payload, pos, end);
        packed.push(felt);
        proof {
            assert(pos == 31 * i);
            assert(chunk(p, i as int) =~= p.subrange(pos as int, end as int));
            if end == pos + 31 {
                assert(i + 1 <= nc && pos + 31 == 31 * (i + 1)) by (nonlinear_arith)
                    requires
                        nc == (p.len() + 30) / 31,
                        pos == 31 * i,
                        pos + 31 <= p.len(),
                ;
            } else {
                assert(i + 1 == nc) by (nonlinear_arith)
                    requires
                        nc == (p.len() + 30) / 31,
                        pos == 31 * i,
                        pos < p.len() < pos + 31,
                ;
            }
        }
        pos = end;
        i = i + 1;
    }
    proof {
        if pos == 31 * i && i <= nc {
            assert(i == nc) by (nonlinear_arith)
                requires
                    nc == (p.len() + 30) / 31,
                    pos == 31 * i,
                    pos >= p.len(),
                    i <= nc,
            ;
        }
        assert(packed@.len() == packed_values(p).len());
        assert forall|j: int| 0 <= j < packed@.len() implies #[trigger] packed@[j].value()
            == packed_values(p)[j] by {
            if j >= 1 {
                let jj = j - 1;
                assert(packed@[1 + jj].value() == be_value(chunk(p, jj)));
                assert(packed_values(p)[j] == be_value(chunk(p, jj)));
            }
        }
        assert forall|j: int| 0 <= j < packed@.len() implies #[trigger] packed@[j].wf() by {
            if j >= 1 {
                assert(packed@[1 + (j - 1)].wf());
            }
        }
        assert(6 + packed@.len() <= usize::MAX) by (nonlinear_arith)
            requires
                packed@.len() == 1 + nc,
                nc == (p.len() + 30) / 31,
                p.len() <= usize::MAX,
                usize::MAX >= 0xffffffff,
        ;
    }
    let cap = 6 + packed.len();
    if limits.enforce && cap > limits.max_felts {
        return Err(EncodingError::CalldataExceededLimit(limits.max_felts, cap));
    }
    let mut cd: Vec<FieldElement> = Vec::new();
    cd.push(FieldElement::one());
    cd.push(limits.target_address);
    cd.push(limits.base_selector.add_u64(retries as u64));
    cd.push(FieldElement::zero());
    cd.push(FieldElement::from_u128(packed.len() as u128));
    cd.push(FieldElement::from_u128(packed.len() as u128));
    let ghost packedg = packed@;
    cd.append(&mut packed);
    proof {
        let values = calldata_values(*tx, retries, *limits);
        assert(cd@.len() == values.len());
        assert forall|j: int| 0 <= j < cd@.len() implies #[trigger] cd@[j].value()
            == values[j] by {
            if j >= 6 {
                let jj = j - 6;
                assert(cd@[j] == packedg[jj]);
                assert(packedg[jj].value() == packed_values(p)[jj]);
                assert(values[j] == packed_values(p)[jj]);
            }
        }
        assert forall|j: int| 0 <= j < cd@.len() implies #[trigger] cd@[j].wf() by {
            if j >= 6 {
                let jj = j - 6;
                assert(cd@[j] == packedg[jj]);
            }
        }
    }
    Ok(cd)
}

/// The packed data loses nothing: its first element is the payload's
/// exact byte length, one element follows per 31-byte chunk (the last one
/// shorter when the length is not a multiple of 31), and every chunk's
/// bytes are recovered from its element's value and its length — so the
/// chunks, concatenated and trimmed to the stated length, reproduce the
/// payload exactly.
pub proof fn lemma_packed_roundtrip(payload: Seq<u8>)
    ensures
        packed_values(payload)[0] == payload.len(),
        packed_values(payload).len() == 1 + num_chunks(payload.len()),
        forall|i: int|
            0 <= i < num_chunks(payload.len()) ==> crate::bytes::be_fixed(
                packed_values(payload)[1 + i],
                #[trigger] chunk(payload, i).len(),
            ) == chunk(payload, i),
{
    assert forall|i: int| 0 <= i < num_chunks(payload.len()) implies crate::bytes::be_fixed(
        packed_values(payload)[1 + i],
        #[trigger] chunk(payload, i).len(),
    ) == chunk(payload, i) by {
        let nc = num_chunks(payload.len());
        assert(31 * i < payload.len()) by (nonlinear_arith)
            requires
                0 <= i < nc,
                nc == (payload.len() + 30) / 31,
        ;
        crate::bytes::lemma_be_value_fixed(chunk(payload, i));
        assert(packed_values(payload)[1 + i] == be_value(chunk(payload, i)));
    }
}

/// The selector a given retry count produces.
pub open spec fn selector_value(limits: EncodingLimits, retries: u8) -> nat {
    limits.base_selector.value() + retries as nat
}

/// Folding the retry counter into the selector is strictly increasing —
/// hence injective — and never reaches the field modulus.
pub proof fn lemma_selector_injective(limits: EncodingLimits, r1: u8, r2: u8)
    requires
        limits.wf(),
    ensures
        r1 < r2 ==> selector_value(limits, r1) < selector_value(limits, r2),
        r1 != r2 ==> selector_value(limits, r1) != selector_value(limits, r2),
        selector_value(limits, r1) < prime(),
{
}

} // verus!
