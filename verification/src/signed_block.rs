use vstd::prelude::*;
use vstd::arithmetic::power2::{lemma2_to64, lemma_pow2_pos, lemma_pow2_strictly_increases, lemma_pow2_unfold, pow2};
use vstd::bits::{lemma_low_bits_mask_values, lemma_u64_low_bits_mask_is_mod, lemma_u64_shr_is_div};

use crate::error::BlockError;

verus! {

/// Size of a SHA-256 digest in bytes.
pub const SHA256_SIZE: usize = 32;

/// The SHA-256 digest of `data`.
pub uninterp spec fn sha256(data: Seq<u8>) -> Seq<u8>;

/// `sha2::Sha256::digest`: the SHA-256 digest of the bytes, which is 32 bytes long.
#[verifier::external_body]
fn sha256_digest(data: &[u8]) -> (r: Vec<u8>)
    ensures
        r@ == sha256(data@),
        r@.len() == SHA256_SIZE,
{
    <sha2::Sha256 as sha2::Digest>::digest(data).to_vec()
}

/// The largest power of two not above `l` (1 for `l` at most 1).
pub open spec fn floor_pow2(l: nat) -> nat
    decreases l,
{
    if l <= 1 {
        1
    } else {
        2 * floor_pow2(l / 2)
    }
}

/// The largest power of two below `l` (0 for `l` = 1).
pub open spec fn pow2_below(l: nat) -> nat {
    if floor_pow2(l) == l {
        l / 2
    } else {
        floor_pow2(l)
    }
}

proof fn lemma_floor_pow2(l: nat)
    requires
        l >= 1,
    ensures
        floor_pow2(l) <= l < 2 * floor_pow2(l),
        floor_pow2(l) >= 1,
        floor_pow2(l) % 2 == 0 || floor_pow2(l) == 1,
    decreases l,
{
    if l > 1 {
        lemma_floor_pow2(l / 2);
    }
}

/// The largest power of two below `l`: between `l / 2` and `l`, `l` excluded.
pub fn largest_power_of_two_less_than(l: usize) -> (r: usize)
    requires
        l >= 1,
    ensures
        r == pow2_below(l as nat),
        l >= 2 ==> r < l && l <= 2 * r,
{
    let mut n: usize = 1;
    let mut l1: usize = l;
    proof {
        lemma_floor_pow2(l as nat);
    }
    while l1 != 1
        invariant
            l1 >= 1,
            n >= 1,
            n * l1 <= l,
            floor_pow2(l as nat) == n * floor_pow2(l1 as nat),
        decreases l1,
    {
        proof {
            assert(2 * n <= n * l1) by (nonlinear_arith)
                requires l1 >= 2, n >= 1;
            assert(2 * n * (l1 / 2) <= n * l1) by (nonlinear_arith)
                requires l1 >= 2, n >= 1;
            assert(n * floor_pow2(l1 as nat) == (2 * n) * floor_pow2((l1 / 2) as nat)) by (nonlinear_arith)
                requires floor_pow2(l1 as nat) == 2 * floor_pow2((l1 / 2) as nat);
        }
        l1 = l1 / 2;
        n = n * 2;
    }
    proof {
        lemma_floor_pow2(l as nat);
    }
    if n == l {
        n / 2
    } else {
        n
    }
}

/// The eight big-endian bytes of `v`.
pub open spec fn be_bytes(v: u64) -> Seq<u8> {
    Seq::new(8, |i: int| ((v >> ((56 - 8 * i) as u64)) & 0xff) as u8)
}

/// Merkle hash of `data`: its SHA-256 digest up to 256 bytes; above, the digest of its length
/// (8 big-endian bytes) followed by the hashes of its part up to the largest power of two below
/// its length and of the rest.
pub open spec fn merkle_hash(data: Seq<u8>) -> Seq<u8>
    decreases data.len(),
{
    if data.len() <= 256 {
        sha256(data)
    } else {
        let n = pow2_below(data.len());
        if 0 < n < data.len() {
            sha256(be_bytes(data.len() as u64) + merkle_hash(data.take(n as int)) + merkle_hash(data.skip(n as int)))
        } else {
            sha256(data)
        }
    }
}

/// The largest power of two not above `l` is a power of two.
proof fn lemma_floor_pow2_exp(l: nat) -> (f: nat)
    requires
        l >= 1,
    ensures
        floor_pow2(l) == pow2(f),
    decreases l,
{
    if l <= 1 {
        lemma2_to64();
        0
    } else {
        let g = lemma_floor_pow2_exp(l / 2);
        lemma_pow2_unfold(g + 1);
        g + 1
    }
}

/// Two powers of two that each lie below `l` with their double not below `l` are the same.
proof fn lemma_pow2_halving_unique(l: nat, a: nat, b: nat)
    requires
        pow2(a) < l <= 2 * pow2(a),
        pow2(b) < l <= 2 * pow2(b),
    ensures
        a == b,
{
    if a < b {
        lemma_pow2_unfold(a + 1);
        if a + 1 < b {
            lemma_pow2_strictly_increases(a + 1, b);
        }
    } else if b < a {
        lemma_pow2_unfold(b + 1);
        if b + 1 < a {
            lemma_pow2_strictly_increases(b + 1, a);
        }
    }
}

/// The split point of the Merkle hash of more than one byte is the power of two below the length
/// whose double is not below it.
pub proof fn law_pow2_below(l: nat, e: nat)
    requires
        pow2(e) < l <= 2 * pow2(e),
    ensures
        pow2_below(l) == pow2(e),
{
    lemma_pow2_pos(e);
    lemma_floor_pow2(l);
    let f = lemma_floor_pow2_exp(l);
    if floor_pow2(l) == l {
        if f == 0 {
            lemma2_to64();
        } else {
            lemma_pow2_unfold(f);
            lemma_pow2_halving_unique(l, e, (f - 1) as nat);
        }
    } else {
        lemma_pow2_halving_unique(l, e, f);
    }
}

/// The Merkle hash of at most 256 bytes is their SHA-256 digest. Of more bytes, split at the
/// power of two `pow2(e)` below their length whose double is not below it, it is the digest of
/// the length in 8 big-endian bytes, then the Merkle hash of the bytes before the split, then
/// the Merkle hash of those from the split on, in that order.
pub proof fn law_merkle_hash(data: Seq<u8>, e: nat)
    ensures
        data.len() <= 256 ==> merkle_hash(data) == sha256(data),
        data.len() > 256 && pow2(e) < data.len() <= 2 * pow2(e) ==> merkle_hash(data) == sha256(
            be_bytes(data.len() as u64) + merkle_hash(data.take(pow2(e) as int)) + merkle_hash(data.skip(pow2(e) as int)),
        ),
{
    if data.len() > 256 && pow2(e) < data.len() <= 2 * pow2(e) {
        law_pow2_below(data.len(), e);
    }
}

/// The eight bytes of a length are big-endian: byte `i` is the length divided by `256` to the
/// power `7 - i`, modulo 256.
pub proof fn law_be_bytes(v: u64, i: int)
    requires
        0 <= i < 8,
    ensures
        be_bytes(v)[i] == (v as int / pow2((56 - 8 * i) as nat) as int) % 256,
{
    let k = (56 - 8 * i) as u64;
    lemma_u64_shr_is_div(v, k);
    let y = v >> k;
    lemma_u64_low_bits_mask_is_mod(y, 8);
    lemma_low_bits_mask_values();
    lemma2_to64();
}

fn push_be_u64(out: &mut Vec<u8>, v: u64)
    ensures
        final(out)@ == old(out)@ + be_bytes(v),
{
    let mut i: u64 = 0;
    while i < 8
        invariant
            i <= 8,
            out@ == old(out)@ + be_bytes(v).take(i as int),
        decreases 8 - i,
    {
        let b = ((v >> (56 - 8 * i)) & 0xff) as u8;
        out.push(b);
        assert(be_bytes(v).take(i as int + 1) =~= be_bytes(v).take(i as int).push(b));
        i = i + 1;
    }
    assert(be_bytes(v).take(8) =~= be_bytes(v));
}

fn push_all(out: &mut Vec<u8>, src: &Vec<u8>)
    ensures
        final(out)@ == old(out)@ + src@,
{
    let mut i: usize = 0;
    while i < src.len()
        invariant
            i <= src@.len(),
            out@ == old(out)@ + src@.take(i as int),
        decreases src@.len() - i,
    {
        out.push(src[i]);
        assert(src@.take(i as int + 1) =~= src@.take(i as int).push(src@[i as int]));
        i = i + 1;
    }
    assert(src@.take(src@.len() as int) =~= src@);
}

/// The Merkle hash of serialized bytes, as a signed block records it.
pub fn calc_merkle_hash(data: &[u8]) -> (r: Result<Vec<u8>, BlockError>)
    ensures
        r is Ok,
        r->Ok_0@ == merkle_hash(data@),
        r->Ok_0@.len() == SHA256_SIZE,
    decreases data@.len(),
{
    let l = data.len();
    if l <= 256 {
        Ok(sha256_digest(data))
    } else {
        let n = largest_power_of_two_less_than(l);
        let (first, rest) = data.split_at(n);
        assert(first@ =~= data@.take(n as int));
        assert(rest@ =~= data@.skip(n as int));
        let data1_hash = calc_merkle_hash(first)?;
        let data2_hash = calc_merkle_hash(rest)?;
        let mut data_for_hash: Vec<u8> = Vec::new();
        push_be_u64(&mut data_for_hash, l as u64);
        push_all(&mut data_for_hash, &data1_hash);
        push_all(&mut data_for_hash, &data2_hash);
        assert(data_for_hash@ =~= be_bytes(l as u64) + merkle_hash(data@.take(n as int)) + merkle_hash(data@.skip(n as int)));
        Ok(sha256_digest(data_for_hash.as_slice()))
    }
}

/// The hash that a signed block is signed by: the digest of the representation hash of the
/// block followed by the Merkle hash of its serialization.
pub fn calc_combined_hash(block_repr_hash: &Vec<u8>, block_serialize_hash: &Vec<u8>) -> (r: Vec<u8>)
    ensures
        r@ == sha256(block_repr_hash@ + block_serialize_hash@),
        r@.len() == SHA256_SIZE,
{
    let mut combined_data: Vec<u8> = Vec::new();
    push_all(&mut combined_data, block_repr_hash);
    push_all(&mut combined_data, block_serialize_hash);
    assert(combined_data@ =~= block_repr_hash@ + block_serialize_hash@);
    sha256_digest(combined_data.as_slice())
}

} // verus!
