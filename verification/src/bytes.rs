//! Big-endian byte strings and the numbers they denote.

use vstd::prelude::*;

verus! {

/// `256^k`, the number of byte strings of length `k`.
pub open spec fn pow256(k: nat) -> nat
    decreases k,
{
    if k == 0 {
        1
    } else {
        256 * pow256((k - 1) as nat)
    }
}

/// The number denoted by a big-endian byte string.
pub open spec fn be_value(s: Seq<u8>) -> nat
    decreases s.len(),
{
    if s.len() == 0 {
        0
    } else {
        be_value(s.drop_last()) * 256 + s.last() as nat
    }
}

/// The big-endian byte string of `n` padded (or truncated) to exactly `len` bytes.
pub open spec fn be_fixed(n: nat, len: nat) -> Seq<u8>
    decreases len,
{
    if len == 0 {
        Seq::empty()
    } else {
        be_fixed(n / 256, (len - 1) as nat).push((n % 256) as u8)
    }
}

/// The shortest big-endian byte string of `n`: no leading zero, empty for zero.
pub open spec fn be_min(n: nat) -> Seq<u8>
    decreases n,
{
    if n == 0 {
        Seq::empty()
    } else {
        be_min(n / 256).push((n % 256) as u8)
    }
}

pub proof fn lemma_pow256_8()
    ensures
        pow256(8) == 0x10000000000000000,
{
    reveal_with_fuel(pow256, 9);
}

pub proof fn lemma_pow256_15()
    ensures
        pow256(15) == 0x1000000000000000000000000000000,
{
    reveal_with_fuel(pow256, 16);
}

pub proof fn lemma_pow256_16()
    ensures
        pow256(16) == 0x100000000000000000000000000000000,
{
    reveal_with_fuel(pow256, 17);
}

pub proof fn lemma_pow256_31()
    ensures
        pow256(31) == 0x100000000000000000000000000000000000000000000000000000000000000,
{
    reveal_with_fuel(pow256, 32);
}

pub proof fn lemma_pow256_positive(k: nat)
    ensures
        pow256(k) >= 1,
    decreases k,
{
    if k > 0 {
        lemma_pow256_positive((k - 1) as nat);
    }
}

pub proof fn lemma_pow256_monotonic(j: nat, k: nat)
    requires
        j <= k,
    ensures
        pow256(j) <= pow256(k),
    decreases k,
{
    if j < k {
        lemma_pow256_monotonic(j, (k - 1) as nat);
        lemma_pow256_positive((k - 1) as nat);
    }
}

/// A byte string of length `len` denotes a number below `256^len`.
pub proof fn lemma_be_value_bound(s: Seq<u8>)
    ensures
        be_value(s) < pow256(s.len()),
    decreases s.len(),
{
    if s.len() > 0 {
        lemma_be_value_bound(s.drop_last());
    }
}

/// `be_fixed` has the stated length, and round-trips through `be_value`
/// for numbers that fit.
pub proof fn lemma_be_fixed_value(n: nat, len: nat)
    ensures
        be_fixed(n, len).len() == len,
        n < pow256(len) ==> be_value(be_fixed(n, len)) == n,
    decreases len,
{
    if len > 0 {
        lemma_be_fixed_value(n / 256, (len - 1) as nat);
        let s = be_fixed(n, len);
        assert(s.drop_last() =~= be_fixed(n / 256, (len - 1) as nat));
        if n < pow256(len) {
            assert(n / 256 < pow256((len - 1) as nat)) by (nonlinear_arith)
                requires
                    n < 256 * pow256((len - 1) as nat),
            ;
            assert(be_value(s) == be_value(s.drop_last()) * 256 + n % 256);
            assert((n / 256) * 256 + n % 256 == n) by (nonlinear_arith);
        }
    }
}

/// A byte string is recovered from its denoted number and its length.
pub proof fn lemma_be_value_fixed(s: Seq<u8>)
    ensures
        be_fixed(be_value(s), s.len()) == s,
    decreases s.len(),
{
    if s.len() > 0 {
        lemma_be_value_fixed(s.drop_last());
        let n = be_value(s);
        let m = be_value(s.drop_last());
        assert(n == m * 256 + s.last());
        assert(n / 256 == m && n % 256 == s.last()) by (nonlinear_arith)
            requires
                n == m * 256 + s.last(),
                0 <= s.last() < 256,
        ;
        assert(be_fixed(n, s.len()) =~= s);
    }
}

/// Concatenation: the left part is shifted by the length of the right part.
pub proof fn lemma_be_value_append(a: Seq<u8>, b: Seq<u8>)
    ensures
        be_value(a + b) == be_value(a) * pow256(b.len()) + be_value(b),
    decreases b.len(),
{
    if b.len() == 0 {
        assert(a + b =~= a);
        assert(pow256(b.len()) == 1);
        assert(be_value(a) * 1 == be_value(a)) by (nonlinear_arith);
        assert(be_value(a) * pow256(b.len()) == be_value(a) * 1) by (nonlinear_arith)
            requires
                pow256(b.len()) == 1,
        ;
    } else {
        lemma_be_value_append(a, b.drop_last());
        assert((a + b).drop_last() =~= a + b.drop_last());
        assert((a + b).last() == b.last());
        let va = be_value(a);
        let vb = be_value(b.drop_last());
        let p = pow256((b.len() - 1) as nat);
        let last: nat = b.last() as nat;
        assert(be_value(a + b) == (va * p + vb) * 256 + last);
        assert((va * p + vb) * 256 + last == va * (256 * p) + (vb * 256 + last))
            by (nonlinear_arith);
        assert(pow256(b.len()) == 256 * p);
        assert(va * (256 * p) == va * pow256(b.len())) by (nonlinear_arith)
            requires
                pow256(b.len()) == 256 * p,
        ;
        assert(be_value(b) == vb * 256 + last);
    }
}

/// The shortest form of `n` fits in `k` bytes whenever `n < 256^k`.
pub proof fn lemma_be_min_len(n: nat, k: nat)
    requires
        n < pow256(k),
    ensures
        be_min(n).len() <= k,
    decreases k,
{
    if n > 0 {
        assert(k > 0);
        assert(n / 256 < pow256((k - 1) as nat)) by (nonlinear_arith)
            requires
                n < 256 * pow256((k - 1) as nat),
        ;
        lemma_be_min_len(n / 256, (k - 1) as nat);
    }
}

/// Splitting a number at a byte boundary splits its shortest form:
/// the low `k` bytes are fixed-width, the rest stays shortest.
pub proof fn lemma_be_min_split(n: nat, m: nat, k: nat)
    requires
        n > 0,
        m < pow256(k),
    ensures
        be_min(n * pow256(k) + m) == be_min(n) + be_fixed(m, k),
    decreases k,
{
    if k == 0 {
        assert(n * 1 + 0 == n) by (nonlinear_arith);
        assert(be_min(n) + be_fixed(0, 0) =~= be_min(n));
    } else {
        let big = n * pow256(k) + m;
        let p1 = pow256((k - 1) as nat);
        lemma_pow256_positive((k - 1) as nat);
        assert(big == (n * p1 + m / 256) * 256 + m % 256) by (nonlinear_arith)
            requires
                pow256(k) == 256 * p1,
                big == n * pow256(k) + m,
        ;
        assert(big > 0) by (nonlinear_arith)
            requires
                n > 0,
                pow256(k) >= 1,
                big == n * pow256(k) + m,
        ;
        assert(big / 256 == n * p1 + m / 256 && big % 256 == m % 256) by (nonlinear_arith)
            requires
                big == (n * p1 + m / 256) * 256 + m % 256,
                0 <= m % 256 < 256,
        ;
        assert(m / 256 < p1) by (nonlinear_arith)
            requires
                m < 256 * p1,
        ;
        lemma_be_min_split(n, m / 256, (k - 1) as nat);
        assert(be_min(big) =~= be_min(n) + be_fixed(m, k));
    }
}

/// Splitting a number at a byte boundary splits its fixed-width form.
pub proof fn lemma_be_fixed_split(n: nat, m: nat, j: nat, k: nat)
    requires
        m < pow256(k),
    ensures
        be_fixed(n * pow256(k) + m, j + k) == be_fixed(n, j) + be_fixed(m, k),
    decreases k,
{
    if k == 0 {
        assert(n * 1 + 0 == n) by (nonlinear_arith);
        assert(be_fixed(n, j) + be_fixed(0, 0) =~= be_fixed(n, j));
    } else {
        let big = n * pow256(k) + m;
        let p1 = pow256((k - 1) as nat);
        lemma_pow256_positive((k - 1) as nat);
        assert(big == (n * p1 + m / 256) * 256 + m % 256) by (nonlinear_arith)
            requires
                pow256(k) == 256 * p1,
                big == n * pow256(k) + m,
        ;
        assert(big / 256 == n * p1 + m / 256 && big % 256 == m % 256) by (nonlinear_arith)
            requires
                big == (n * p1 + m / 256) * 256 + m % 256,
                0 <= m % 256 < 256,
        ;
        assert(m / 256 < p1) by (nonlinear_arith)
            requires
                m < 256 * p1,
        ;
        lemma_be_fixed_split(n, m / 256, j, (k - 1) as nat);
        assert(be_fixed(big, j + k) =~= be_fixed(n, j) + be_fixed(m, k));
    }
}

/// The shortest big-endian bytes of a 128-bit number.
pub fn u128_to_be_min(x: u128) -> (out: Vec<u8>)
    ensures
        out@ == be_min(x as nat),
    decreases x,
{
    if x == 0 {
        Vec::new()
    } else {
        let mut out = u128_to_be_min(x / 256);
        out.push((x % 256) as u8);
        out
    }
}

/// The fixed-width big-endian bytes of a 128-bit number.
pub fn u128_to_be_fixed(x: u128, len: usize) -> (out: Vec<u8>)
    ensures
        out@ == be_fixed(x as nat, len as nat),
    decreases len,
{
    if len == 0 {
        Vec::new()
    } else {
        let mut out = u128_to_be_fixed(x / 256, len - 1);
        out.push((x % 256) as u8);
        out
    }
}

/// The number denoted by the bytes of `b` in `[from, to)`, at most 16 of them.
pub fn be_range_value(b: &Vec<u8>, from: usize, to: usize) -> (x: u128)
    requires
        from <= to <= b@.len(),
        to - from <= 16,
    ensures
        x as nat == be_value(b@.subrange(from as int, to as int)),
    decreases to - from,
{
    if from == to {
        proof {
            assert(b@.subrange(from as int, to as int) =~= Seq::empty());
        }
        0
    } else {
        let prev = be_range_value(b, from, to - 1);
        let s = Ghost(b@.subrange(from as int, to as int));
        proof {
            assert(s@.drop_last() =~= b@.subrange(from as int, to as int - 1));
            assert(s@.last() == b@[to as int - 1]);
            lemma_be_value_bound(s@.drop_last());
            lemma_pow256_monotonic(s@.drop_last().len(), 15);
            assert(pow256(15) * 256 == pow256(16)) by {
                assert(pow256(16) == 256 * pow256(15));
            }
            assert((prev as nat) * 256 + 255 < pow256(16)) by (nonlinear_arith)
                requires
                    (prev as nat) < pow256(15),
                    pow256(15) * 256 == pow256(16),
            ;
            lemma_pow256_16();
        }
        prev * 256 + (b[to - 1] as u128)
    }
}

} // verus!
