//! The recursive-length-prefix byte encoding used for transaction bodies,
//! restricted to what this library emits: byte strings, unsigned integers
//! and list headers.

use vstd::prelude::*;
use crate::bytes::{be_min, pow256, lemma_pow256_8, lemma_be_min_len, u128_to_be_min};

verus! {

/// The length header for a string (`base = 0x80`) or a list (`base = 0xc0`)
/// of `len` payload bytes.
pub open spec fn rlp_len_header(base: u8, len: nat) -> Seq<u8> {
    if len <= 55 {
        seq![(base + len) as u8]
    } else {
        seq![((base as nat) + 55 + be_min(len).len()) as u8] + be_min(len)
    }
}

/// The encoding of a byte string: a single byte below `0x80` stands for
/// itself, anything else is prefixed by a length header.
pub open spec fn rlp_bytes(s: Seq<u8>) -> Seq<u8> {
    if s.len() == 1 && s[0] < 0x80 {
        s
    } else {
        rlp_len_header(0x80, s.len()) + s
    }
}

/// The encoding of an unsigned integer: its shortest big-endian bytes,
/// encoded as a byte string (zero becomes the empty string).
pub open spec fn rlp_uint(n: nat) -> Seq<u8> {
    rlp_bytes(be_min(n))
}

/// The encoding of a list given the concatenation of its items' encodings.
pub open spec fn rlp_list(payload: Seq<u8>) -> Seq<u8> {
    rlp_len_header(0xc0, payload.len()) + payload
}

/// Appends the length header for `len` payload bytes.
pub fn encode_len_header(out: &mut Vec<u8>, base: u8, len: usize)
    requires
        base == 0x80 || base == 0xc0,
    ensures
        final(out)@ == old(out)@ + rlp_len_header(base, len as nat),
{
    if len <= 55 {
        out.push(base + len as u8);
        proof {
            assert(old(out)@ + rlp_len_header(base, len as nat) =~= out@);
        }
    } else {
        proof {
            lemma_pow256_8();
            assert((len as nat) < pow256(8));
            lemma_be_min_len(len as nat, 8);
        }
        let lb = u128_to_be_min(len as u128);
        out.push(base + 55 + lb.len() as u8);
        let mut i: usize = 0;
        while i < lb.len()
            invariant
                i <= lb@.len(),
                lb@ == be_min(len as nat),
                out@ == old(out)@ + seq![((base as nat) + 55 + lb@.len()) as u8] + lb@.subrange(
                    0,
                    i as int,
                ),
            decreases lb@.len() - i,
        {
            out.push(lb[i]);
            proof {
                assert(lb@.subrange(0, i as int).push(lb@[i as int]) =~= lb@.subrange(
                    0,
                    i as int + 1,
                ));
            }
            i = i + 1;
        }
        proof {
            assert(lb@.subrange(0, lb@.len() as int) =~= lb@);
            assert(out@ =~= old(out)@ + rlp_len_header(base, len as nat));
        }
    }
}

/// Appends the encoding of the byte string `s`.
pub fn encode_bytes(out: &mut Vec<u8>, s: &Vec<u8>)
    ensures
        final(out)@ == old(out)@ + rlp_bytes(s@),
{
    if s.len() == 1 && s[0] < 0x80 {
        out.push(s[0]);
        proof {
            assert(old(out)@ + rlp_bytes(s@) =~= out@);
        }
    } else {
        encode_len_header(out, 0x80, s.len());
        let ghost mid = out@;
        let mut i: usize = 0;
        while i < s.len()
            invariant
                i <= s@.len(),
                out@ == mid + s@.subrange(0, i as int),
            decreases s@.len() - i,
        {
            out.push(s[i]);
            proof {
                assert(s@.subrange(0, i as int).push(s@[i as int]) =~= s@.subrange(
                    0,
                    i as int + 1,
                ));
            }
            i = i + 1;
        }
        proof {
            assert(s@.subrange(0, s@.len() as int) =~= s@);
            assert(out@ =~= old(out)@ + rlp_bytes(s@));
        }
    }
}

/// Appends the encoding of an unsigned 128-bit integer.
pub fn encode_uint(out: &mut Vec<u8>, n: u128)
    ensures
        final(out)@ == old(out)@ + rlp_uint(n as nat),
{
    let b = u128_to_be_min(n);
    encode_bytes(out, &b);
}

} // verus!

