use vstd::prelude::*;

verus! {

/// The two big-endian bytes of `v`.
pub open spec fn be16(v: u16) -> Seq<u8> {
    seq![(v >> 8u16) as u8, v as u8]
}

/// The four big-endian bytes of `v`.
pub open spec fn be32(v: u32) -> Seq<u8> {
    seq![(v >> 24u32) as u8, (v >> 16u32) as u8, (v >> 8u32) as u8, v as u8]
}

/// The eight big-endian bytes of `v`.
pub open spec fn be64(v: u64) -> Seq<u8> {
    be32((v >> 32u64) as u32) + be32(v as u32)
}

/// The big-endian 16-bit number at `p` in `s`.
pub open spec fn be16_at(s: Seq<u8>, p: int) -> u16 {
    ((s[p] as u16) << 8u16) | (s[p + 1] as u16)
}

/// The big-endian 32-bit number at `p` in `s`.
pub open spec fn be32_at(s: Seq<u8>, p: int) -> u32 {
    ((s[p] as u32) << 24u32) | ((s[p + 1] as u32) << 16u32) | ((s[p + 2] as u32) << 8u32) | (s[p + 3] as u32)
}

/// The big-endian 64-bit number at `p` in `s`.
pub open spec fn be64_at(s: Seq<u8>, p: int) -> u64 {
    ((be32_at(s, p) as u64) << 32u64) | (be32_at(s, p + 4) as u64)
}

/// Reading back the bytes of a number gives the number.
proof fn lemma_be_bits(a: u16, b: u32, c: u64)
    by (bit_vector)
    ensures
        ((((a >> 8u16) as u8) as u16) << 8u16) | ((a as u8) as u16) == a,
        ((((b >> 24u32) as u8) as u32) << 24u32) | ((((b >> 16u32) as u8) as u32) << 16u32) | ((((b >> 8u32) as u8) as u32)
            << 8u32) | ((b as u8) as u32) == b,
        ((((c >> 32u64) as u32) as u64) << 32u64) | ((c as u32) as u64) == c,
{
}

/// Writing a number in big-endian bytes and reading it back at the same place gives it back.
pub proof fn lemma_be_roundtrip(pre: Seq<u8>, post: Seq<u8>, a: u16, b: u32, c: u64)
    ensures
        be16_at(pre + be16(a) + post, pre.len() as int) == a,
        be32_at(pre + be32(b) + post, pre.len() as int) == b,
        be64_at(pre + be64(c) + post, pre.len() as int) == c,
{
    lemma_be_bits(a, b, c);
    let s1 = pre + be16(a) + post;
    assert(s1[pre.len() as int] == be16(a)[0]);
    assert(s1[pre.len() as int + 1] == be16(a)[1]);
    let s2 = pre + be32(b) + post;
    assert(s2[pre.len() as int] == be32(b)[0]);
    assert(s2[pre.len() as int + 1] == be32(b)[1]);
    assert(s2[pre.len() as int + 2] == be32(b)[2]);
    assert(s2[pre.len() as int + 3] == be32(b)[3]);
    let s3 = pre + be64(c) + post;
    let hi = (c >> 32u64) as u32;
    let lo = c as u32;
    lemma_be_bits(a, hi, c);
    let h1 = be32_at(s3, pre.len() as int);
    let h2 = be32_at(s3, pre.len() as int + 4);
    assert(s3 =~= pre + be32(hi) + (be32(lo) + post));
    assert(s3 =~= (pre + be32(hi)) + be32(lo) + post);
    assert(s3[pre.len() as int] == be32(hi)[0]);
    assert(s3[pre.len() as int + 1] == be32(hi)[1]);
    assert(s3[pre.len() as int + 2] == be32(hi)[2]);
    assert(s3[pre.len() as int + 3] == be32(hi)[3]);
    assert(s3[pre.len() as int + 4] == be32(lo)[0]);
    assert(s3[pre.len() as int + 5] == be32(lo)[1]);
    assert(s3[pre.len() as int + 6] == be32(lo)[2]);
    assert(s3[pre.len() as int + 7] == be32(lo)[3]);
    lemma_be_bits(a, lo, c);
}

/// Appends the big-endian bytes of `v`.
pub fn push_u16(out: &mut Vec<u8>, v: u16)
    ensures
        final(out)@ == old(out)@ + be16(v),
{
    out.push((v >> 8) as u8);
    out.push(v as u8);
    assert(out@ =~= old(out)@ + be16(v));
}

/// Appends the big-endian bytes of `v`.
pub fn push_u32(out: &mut Vec<u8>, v: u32)
    ensures
        final(out)@ == old(out)@ + be32(v),
{
    out.push((v >> 24) as u8);
    out.push((v >> 16) as u8);
    out.push((v >> 8) as u8);
    out.push(v as u8);
    assert(out@ =~= old(out)@ + be32(v));
}

/// Appends the big-endian bytes of `v`.
pub fn push_u64(out: &mut Vec<u8>, v: u64)
    ensures
        final(out)@ == old(out)@ + be64(v),
{
    push_u32(out, (v >> 32) as u32);
    push_u32(out, v as u32);
    assert(out@ =~= old(out)@ + be64(v));
}

/// The big-endian 16-bit number at `p`.
pub fn get_u16(data: &[u8], p: usize) -> (r: u16)
    requires
        p + 2 <= data@.len(),
    ensures
        r == be16_at(data@, p as int),
{
    ((data[p] as u16) << 8) | (data[p + 1] as u16)
}

/// The big-endian 32-bit number at `p`.
pub fn get_u32(data: &[u8], p: usize) -> (r: u32)
    requires
        p + 4 <= data@.len(),
    ensures
        r == be32_at(data@, p as int),
{
    ((data[p] as u32) << 24) | ((data[p + 1] as u32) << 16) | ((data[p + 2] as u32) << 8) | (data[p + 3] as u32)
}

/// The big-endian 64-bit number at `p`.
pub fn get_u64(data: &[u8], p: usize) -> (r: u64)
    requires
        p + 8 <= data@.len(),
    ensures
        r == be64_at(data@, p as int),
{
    let n = data.len();
    assert(p + 8 <= n);
    ((get_u32(data, p) as u64) << 32) | (get_u32(data, p + 4) as u64)
}

/// A number read where its big-endian bytes stand is the number.
pub proof fn lemma_be_at(s: Seq<u8>, p: int, a: u16, b: u32, c: u64)
    requires
        0 <= p,
    ensures
        p + 2 <= s.len() && s.subrange(p, p + 2) == be16(a) ==> be16_at(s, p) == a,
        p + 4 <= s.len() && s.subrange(p, p + 4) == be32(b) ==> be32_at(s, p) == b,
        p + 8 <= s.len() && s.subrange(p, p + 8) == be64(c) ==> be64_at(s, p) == c,
{
    if p + 2 <= s.len() && s.subrange(p, p + 2) == be16(a) {
        lemma_be_roundtrip(s.take(p), s.skip(p + 2), a, b, c);
        assert(s =~= s.take(p) + be16(a) + s.skip(p + 2));
    }
    if p + 4 <= s.len() && s.subrange(p, p + 4) == be32(b) {
        lemma_be_roundtrip(s.take(p), s.skip(p + 4), a, b, c);
        assert(s =~= s.take(p) + be32(b) + s.skip(p + 4));
    }
    if p + 8 <= s.len() && s.subrange(p, p + 8) == be64(c) {
        lemma_be_roundtrip(s.take(p), s.skip(p + 8), a, b, c);
        assert(s =~= s.take(p) + be64(c) + s.skip(p + 8));
    }
}

/// Numbers read from the front part of a concatenation come from the front part; those read
/// after it come from the back part.
pub proof fn lemma_be_at_concat(a: Seq<u8>, b: Seq<u8>, p: int)
    requires
        0 <= p,
    ensures
        p + 2 <= a.len() ==> be16_at(a + b, p) == be16_at(a, p),
        p + 4 <= a.len() ==> be32_at(a + b, p) == be32_at(a, p),
        p + 8 <= a.len() ==> be64_at(a + b, p) == be64_at(a, p),
        p + 1 <= a.len() ==> (a + b)[p] == a[p],
        p >= a.len() && p + 2 <= a.len() + b.len() ==> be16_at(a + b, p) == be16_at(b, p - a.len()),
        p >= a.len() && p + 4 <= a.len() + b.len() ==> be32_at(a + b, p) == be32_at(b, p - a.len()),
        p >= a.len() && p + 8 <= a.len() + b.len() ==> be64_at(a + b, p) == be64_at(b, p - a.len()),
        p >= a.len() && p + 1 <= a.len() + b.len() ==> (a + b)[p] == b[p - a.len()],
{
}

/// Appends 32 bytes.
pub fn push_bytes32(out: &mut Vec<u8>, b: &[u8; 32])
    ensures
        final(out)@ == old(out)@ + b@,
{
    let ghost start = out@;
    let mut i: usize = 0;
    while i < 32
        invariant
            i <= 32,
            b@.len() == 32,
            out@ == start + b@.take(i as int),
        decreases 32 - i,
    {
        out.push(b[i]);
        i = i + 1;
        proof {
            assert(out@ =~= start + b@.take(i as int));
        }
    }
    assert(b@.take(32) =~= b@);
}

/// The 32 bytes at `p`.
pub fn get_bytes32(data: &[u8], p: usize) -> (r: [u8; 32])
    requires
        p + 32 <= data@.len(),
    ensures
        r@ == data@.subrange(p as int, p + 32),
{
    let n = data.len();
    let mut out = [0u8; 32];
    let mut i: usize = 0;
    while i < 32
        invariant
            i <= 32,
            n == data@.len(),
            p + 32 <= n,
            forall|j: int| 0 <= j < i ==> out@[j] == data@[p + j],
        decreases 32 - i,
    {
        out[i] = data[p + i];
        i = i + 1;
    }
    assert(out@ =~= data@.subrange(p as int, p + 32));
    out
}

/// 256 to the power `k`.
pub open spec fn pow256(k: nat) -> nat
    decreases k,
{
    if k == 0 {
        1
    } else {
        256 * pow256((k - 1) as nat)
    }
}

/// The `len` big-endian bytes of the low `8 * len` bits of `v`.
pub open spec fn be_bytes(v: nat, len: nat) -> Seq<u8>
    decreases len,
{
    if len == 0 {
        Seq::empty()
    } else {
        be_bytes(v / 256, (len - 1) as nat).push((v % 256) as u8)
    }
}

/// The number that big-endian bytes stand for.
pub open spec fn be_value(s: Seq<u8>) -> nat
    decreases s.len(),
{
    if s.len() == 0 {
        0
    } else {
        be_value(s.drop_last()) * 256 + (s.last() as nat)
    }
}

/// The number of bytes that `v` takes (none for zero).
pub open spec fn byte_len(v: nat) -> nat
    decreases v,
{
    if v == 0 {
        0
    } else {
        1 + byte_len(v / 256)
    }
}

/// The bytes of a number, as many as it takes, read back as the number.
pub proof fn lemma_be_bytes_value(v: nat)
    ensures
        be_bytes(v, byte_len(v)).len() == byte_len(v),
        be_value(be_bytes(v, byte_len(v))) == v,
    decreases v,
{
    if v > 0 {
        lemma_be_bytes_value(v / 256);
        let s = be_bytes(v, byte_len(v));
        assert(s.drop_last() =~= be_bytes(v / 256, byte_len(v / 256)));
        assert((v / 256) * 256 + v % 256 == v);
    }
}

/// A number below `256^k` takes at most `k` bytes.
pub proof fn lemma_byte_len_bound(v: nat, k: nat)
    requires
        v < pow256(k),
    ensures
        byte_len(v) <= k,
    decreases k,
{
    if v > 0 {
        assert(k > 0);
        assert(v / 256 < pow256((k - 1) as nat));
        lemma_byte_len_bound(v / 256, (k - 1) as nat);
    }
}

/// Big-endian bytes stand for a number below `256` to the power of their count.
pub proof fn lemma_be_value_bound(s: Seq<u8>)
    ensures
        be_value(s) < pow256(s.len()),
    decreases s.len(),
{
    if s.len() > 0 {
        lemma_be_value_bound(s.drop_last());
        let a = be_value(s.drop_last());
        let b = pow256(s.drop_last().len());
        assert(a * 256 + 255 < b * 256) by (nonlinear_arith)
            requires
                a < b,
        ;
    }
}

/// Powers of 256 grow with the exponent.
pub proof fn lemma_pow256_mono(a: nat, b: nat)
    requires
        a <= b,
    ensures
        pow256(a) <= pow256(b),
    decreases b,
{
    if a < b {
        lemma_pow256_mono(a, (b - 1) as nat);
    }
}

/// The powers of 256 that bound the integer types.
pub proof fn lemma_pow256_values()
    ensures
        pow256(6) == 0x1_0000_0000_0000,
        pow256(8) == 0x1_0000_0000_0000_0000,
        pow256(15) == 0x1_0000_0000_0000_0000_0000_0000_0000_00,
        pow256(16) == 0x1_0000_0000_0000_0000_0000_0000_0000_0000,
{
    reveal_with_fuel(pow256, 17);
}

/// Appends the `len` big-endian bytes of the low `8 * len` bits of `v`.
pub fn push_be_u128(out: &mut Vec<u8>, v: u128, len: usize)
    ensures
        final(out)@ == old(out)@ + be_bytes(v as nat, len as nat),
    decreases len,
{
    if len > 0 {
        push_be_u128(out, v / 256, len - 1);
        out.push((v % 256) as u8);
        assert(out@ =~= old(out)@ + be_bytes(v as nat, len as nat));
    } else {
        assert(out@ =~= old(out)@ + be_bytes(v as nat, len as nat));
    }
}

/// The number of bytes that `v` takes.
pub fn byte_len_u128(v: u128) -> (r: usize)
    ensures
        r == byte_len(v as nat),
        r <= 16,
{
    proof {
        lemma_pow256_values();
        lemma_byte_len_bound(v as nat, 16);
    }
    let mut x = v;
    let mut n: usize = 0;
    while x > 0
        invariant
            byte_len(v as nat) == n + byte_len(x as nat),
            byte_len(v as nat) <= 16,
        decreases x,
    {
        x = x / 256;
        n = n + 1;
    }
    n
}

/// The number that the `len` bytes at `p` stand for, high first.
pub fn get_be_u128(data: &[u8], p: usize, len: usize) -> (r: u128)
    requires
        len <= 16,
        p + len <= data@.len(),
    ensures
        r == be_value(data@.subrange(p as int, p + len)),
{
    proof {
        lemma_pow256_values();
    }
    let n = data.len();
    let mut acc: u128 = 0;
    let mut i: usize = 0;
    while i < len
        invariant
            i <= len <= 16,
            n == data@.len(),
            p + len <= n,
            acc == be_value(data@.subrange(p as int, p + i)),
            acc < pow256(i as nat),
            pow256(16) == 0x1_0000_0000_0000_0000_0000_0000_0000_0000,
        decreases len - i,
    {
        proof {
            lemma_pow256_mono((i + 1) as nat, 16);
            let a = acc as int;
            let b = pow256(i as nat) as int;
            assert(a * 256 + 255 < b * 256) by (nonlinear_arith)
                requires
                    a < b,
            ;
        }
        let next = acc * 256 + data[p + i] as u128;
        proof {
            assert(data@.subrange(p as int, p + i + 1).drop_last() =~= data@.subrange(p as int, p + i));
        }
        acc = next;
        i = i + 1;
    }
    acc
}

} // verus!
