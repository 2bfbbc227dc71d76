//! SHA3-512 and the map from a digest to a field element.
use crate::field::{
    congruent, le_value, lemma_fadd_congruent, lemma_fmul_congruent, lemma_le_value_concat,
    lemma_modulus_bounds, lemma_scalar_in_range, scalar_modulus, Scalar,
};
use vstd::arithmetic::div_mod::lemma_small_mod;
use crate::text::{hex_chars, push_hex, str_bytes};
use sha3::{Digest, Sha3_512};
use vstd::arithmetic::power::*;
use vstd::prelude::*;

verus! {

broadcast use lemma_scalar_in_range;

/// The SHA3-512 digest of a byte string.
pub uninterp spec fn sha3_512(data: Seq<u8>) -> Seq<u8>;

/// `Digest::digest` of `sha3::Sha3_512`: the contract claims that the 64 bytes
/// returned are the SHA3-512 digest of `data`, a function of `data` alone.
/// Hashing through `update` calls digests the concatenation of what they were
/// given, so a transcript is hashed here by handing over that concatenation.
#[verifier::external_body]
pub(crate) fn sha3_512_digest(data: &[u8]) -> (r: [u8; 64])
    ensures
        r@ == sha3_512(data@),
{
    Sha3_512::digest(data).into()
}

/// The field element derived from a label: the first 32 bytes of the label's
/// SHA3-512 digest, read as a little-endian integer and reduced modulo q.
pub open spec fn h2s_spec(label: Seq<u8>) -> nat {
    le_value(sha3_512(label).subrange(0, 32)) % scalar_modulus()
}

/// Whatever its length, a label reaches the field only through its SHA3-512
/// digest: labels with one digest give one scalar.
pub proof fn lemma_h2s_through_digest(l1: Seq<u8>, l2: Seq<u8>)
    requires
        sha3_512(l1) == sha3_512(l2),
    ensures
        h2s_spec(l1) == h2s_spec(l2),
{
}

/// The scalar of a label, of any length, is a field element congruent to the
/// integer that the first 32 bytes of the label's SHA3-512 digest stand for.
pub proof fn lemma_h2s_value(label: Seq<u8>)
    ensures
        h2s_spec(label) < scalar_modulus(),
        congruent(h2s_spec(label) as int, le_value(sha3_512(label).subrange(0, 32)) as int),
{
    lemma_modulus_bounds();
    vstd::arithmetic::div_mod::lemma_mod_twice(
        le_value(sha3_512(label).subrange(0, 32)) as int,
        scalar_modulus() as int,
    );
}

pub proof fn lemma_pow256_8()
    ensures
        pow(256, 8) == 0x1_0000_0000_0000_0000,
{
    reveal_with_fuel(pow, 9);
}

/// The unsigned integer stored little-endian in `d[off..off + 8]`.
fn u64_from_le(d: &[u8; 64], off: usize) -> (v: u64)
    requires
        off + 8 <= 64,
    ensures
        v == le_value(d@.subrange(off as int, off + 8)),
{
    let mut v: u64 = 0;
    let mut j: usize = 8;
    proof {
        assert(d@.subrange(off + 8, off + 8) =~= Seq::<u8>::empty());
        reveal(pow);
    }
    while j > 0
        invariant
            j <= 8,
            off + 8 <= 64,
            v == le_value(d@.subrange(off + j, off + 8)),
            v < pow(256, (8 - j) as nat),
        decreases j,
    {
        j -= 1;
        let b = d[off + j];
        proof {
            let s = d@.subrange(off + j, off + 8);
            assert(s.drop_first() =~= d@.subrange(off + j + 1, off + 8));
            assert(pow(256, (8 - j) as nat) == 256 * pow(256, (7 - j) as nat)) by {
                reveal(pow);
            }
            lemma_pow256_8();
            lemma_pow_increases(256, (8 - j) as nat, 8);
            let p = pow(256, (7 - j) as nat);
            assert(v * 256 + b < 256 * p) by (nonlinear_arith)
                requires
                    v < p,
                    b < 256,
            ;
        }
        v = v * 256 + b as u64;
    }
    v
}

/// Hash a label to a field element (see `h2s_spec`).
pub fn h2s(label: &[u8]) -> (s: Scalar)
    ensures
        s@ == h2s_spec(label@),
{
    let d = sha3_512_digest(label);
    let mut s = Scalar::zero();
    let mut p = Scalar::one();
    let shift = Scalar::from_u64(u64::MAX).add(&Scalar::one());
    proof {
        lemma_pow256_8();
        lemma_modulus_bounds();
        lemma_small_mod(0x1_0000_0000_0000_0000, scalar_modulus());
        assert(d@.subrange(0, 0) =~= Seq::<u8>::empty());
        reveal(pow);
    }
    let mut i: usize = 0;
    while i < 4
        invariant
            i <= 4,
            d@ == sha3_512(label@),
            congruent(s@ as int, le_value(d@.subrange(0, 8 * i as int)) as int),
            congruent(p@ as int, pow(256, (8 * i) as nat)),
            shift@ == pow(256, 8),
        decreases 4 - i,
    {
        let v = u64_from_le(&d, 8 * i);
        let term = Scalar::from_u64(v).mul(&p);
        proof {
            let pre = d@.subrange(0, 8 * i as int);
            let blk = d@.subrange(8 * i as int, 8 * i + 8);
            assert(d@.subrange(0, 8 * i + 8) =~= pre + blk);
            lemma_le_value_concat(pre, blk);
            let pw = pow(256, (8 * i) as nat);
            lemma_fmul_congruent(v as nat, p@, v as int, pw);
            lemma_fadd_congruent(s@, term@, le_value(pre) as int, v * pw);
            assert(le_value(pre) + v * pw == le_value(pre) + pw * le_value(blk)) by (nonlinear_arith)
                requires
                    v == le_value(blk),
            ;
            lemma_fmul_congruent(p@, shift@, pw, pow(256, 8));
            lemma_pow_adds(256, (8 * i) as nat, 8);
            assert((8 * i) as nat + 8 == (8 * (i + 1)) as nat);
        }
        s = s.add(&term);
        p = p.mul(&shift);
        i += 1;
    }
    proof {
        lemma_small_mod(s@, scalar_modulus());
    }
    s
}

/// The line that signs an evidence record: "sha3-512:", the lowercase
/// hexadecimal SHA3-512 digest of the record's UTF-8 bytes, and a newline.
pub fn signature_line(record: &str) -> (s: String)
    ensures
        s@ == "sha3-512:"@ + hex_chars(sha3_512(str_bytes(record))) + "\n"@,
{
    let d = sha3_512_digest(record.as_bytes());
    let mut s = String::new();
    s.append("sha3-512:");
    push_hex(&mut s, &d);
    s.append("\n");
    s
}

} // verus!
