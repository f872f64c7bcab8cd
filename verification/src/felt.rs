//! Scalars of the target virtual machine's prime field.

use vstd::prelude::*;
use crate::bytes::{pow256, lemma_pow256_15, lemma_pow256_16, lemma_pow256_31};

verus! {

/// The field modulus: `2^251 + 17 * 2^192 + 1`.
pub open spec fn prime() -> nat {
    (0x800000000000011000000000000000000000000000000000000000000000001 as nat)
}

/// A canonical scalar of the prime field, held as two 128-bit halves
/// of its integer value. Well-formed values lie strictly below the modulus.
#[derive(Clone, Copy, PartialEq, Eq, Structural, Debug)]
pub struct FieldElement {
    pub hi: u128,
    pub lo: u128,
}

impl FieldElement {
    /// The integer the element stands for: `hi * 2^128 + lo`.
    pub open spec fn value(self) -> nat {
        (self.hi as nat) * 0x100000000000000000000000000000000 + self.lo as nat
    }

    /// Canonical: the value is a member of the field.
    pub open spec fn wf(self) -> bool {
        self.value() < prime()
    }

    pub fn zero() -> (r: FieldElement)
        ensures
            r.value() == 0,
            r.wf(),
    {
        FieldElement { hi: 0, lo: 0 }
    }

    pub fn one() -> (r: FieldElement)
        ensures
            r.value() == 1,
            r.wf(),
    {
        FieldElement { hi: 0, lo: 1 }
    }

    pub fn from_u64(x: u64) -> (r: FieldElement)
        ensures
            r.value() == x,
            r.wf(),
    {
        FieldElement { hi: 0, lo: x as u128 }
    }

    /// Lossless embedding of a 128-bit value; sound because the modulus
    /// exceeds `2^128`.
    pub fn from_u128(x: u128) -> (r: FieldElement)
        ensures
            r.value() == x,
            r.wf(),
    {
        FieldElement { hi: 0, lo: x }
    }

    /// An element given by halves whose high part stays below `2^120`,
    /// so that the value stays below `2^248` and hence below the modulus.
    pub fn from_small_hi_lo(hi: u128, lo: u128) -> (r: FieldElement)
        requires
            hi < 0x1000000000000000000000000000000,
        ensures
            r.value() == (hi as nat) * 0x100000000000000000000000000000000 + lo as nat,
            r.wf(),
    {
        proof {
            lemma_pow256_15();
            lemma_pow256_16();
            lemma_pow256_31();
            assert((hi as nat) * pow256(16) + (lo as nat) < pow256(31)) by (nonlinear_arith)
                requires
                    (hi as nat) < pow256(15),
                    (lo as nat) < pow256(16),
                    pow256(31) == pow256(15) * pow256(16),
            ;
            assert(pow256(15) * pow256(16) == pow256(31)) by (nonlinear_arith)
                requires
                    pow256(15) == 0x1000000000000000000000000000000,
                    pow256(16) == 0x100000000000000000000000000000000,
                    pow256(31) == 0x100000000000000000000000000000000000000000000000000000000000000,
            ;
        }
        FieldElement { hi, lo }
    }

    /// The sum with a small addend; the caller warrants that no reduction
    /// is needed.
    pub fn add_u64(self, d: u64) -> (r: FieldElement)
        requires
            self.wf(),
            self.value() + d < prime(),
        ensures
            r.value() == self.value() + d,
            r.wf(),
    {
        if (d as u128) <= u128::MAX - self.lo {
            FieldElement { hi: self.hi, lo: self.lo + d as u128 }
        } else {
            proof {
                assert((self.hi as nat) * 0x100000000000000000000000000000000 <= self.value());
                assert(self.hi <= 0x8000000000000110000000000000000) by (nonlinear_arith)
                    requires
                        (self.hi as nat) * 0x100000000000000000000000000000000 < prime(),
                        prime() == 0x800000000000011000000000000000000000000000000000000000000000001,
                ;
            }
            FieldElement {
                hi: self.hi + 1,
                lo: self.lo - (u128::MAX - d as u128) - 1,
            }
        }
    }
}

} // verus!
