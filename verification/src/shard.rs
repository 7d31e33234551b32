use vstd::prelude::*;
use vstd::arithmetic::div_mod::lemma_mod_multiples_basic;
use vstd::arithmetic::power2::{lemma2_to64, lemma2_to64_rest, lemma_pow2_adds, lemma_pow2_pos, lemma_pow2_strictly_increases, lemma_pow2_unfold, pow2};
use vstd::bits::{lemma_low_bits_mask_values, lemma_u64_low_bits_mask_is_mod, lemma_u64_pow2_no_overflow, lemma_u64_shl_is_mul};
use vstd::std_specs::bits::{
    axiom_u32_leading_zeros, axiom_u64_leading_zeros, axiom_u64_trailing_zeros, u32_leading_zeros,
    u64_leading_zeros, u64_trailing_zeros,
};

use crate::envelope_message::{regular_dest_bits, IntermediateAddress};
use crate::bytes::{be64_at, get_u64};
use crate::error::{message, BlockError};
use crate::types::UInt256;
use crate::text::{push_signed_decimal, push_upper_hex16, signed_dec_chars, upper_hex16};

verus! {

/// Deepest split of a workchain into shards.
pub const MAX_SPLIT_DEPTH: u8 = 60;

/// Workchain id of the masterchain.
pub const MASTERCHAIN_ID: i32 = -1;

/// Workchain id of the base workchain.
pub const BASE_WORKCHAIN_ID: i32 = 0;

/// Workchain id that no workchain may have.
pub const INVALID_WORKCHAIN_ID: i32 = -0x8000_0000;

/// Tagged prefix of a shard that covers its whole workchain.
pub const SHARD_FULL: u64 = 0x8000_0000_0000_0000;

/// The lowest set bit of `p` as a one-bit mask, zero when `p` is zero.
/// In a tagged shard prefix it is the tag that ends the prefix.
pub open spec fn lowest_bit(p: u64) -> u64 {
    if p == 0 {
        0
    } else {
        1u64 << (u64_trailing_zeros(p) as u64)
    }
}

/// The bit positions strictly above the one-bit mask `b` (zero when `b` is zero or the top bit).
pub open spec fn bits_above(b: u64) -> u64 {
    !(((b as int) * 2 - 1) as u64)
}

/// Number of prefix bits in the tagged prefix `p` (the bits above its tag; 64 when there is no tag).
pub open spec fn prefix_len_of(p: u64) -> nat {
    if p == 0 {
        64
    } else {
        (63 - u64_trailing_zeros(p)) as nat
    }
}

/// The shard of tagged prefix `p` covers the 64-bit address prefix `a`:
/// `a` agrees with `p` on every bit above the tag of `p`.
pub open spec fn covers(p: u64, a: u64) -> bool {
    (p ^ a) & bits_above(lowest_bit(p)) == 0
}

/// The first `n` bits (from the top) of `p` and `q` agree.
pub open spec fn top_bits_agree(p: u64, q: u64, n: nat) -> bool {
    n == 0 || p >> ((64 - n) as u64) == q >> ((64 - n) as u64)
}

/// The two's complement negation of `p`, modulo 2^64.
pub open spec fn negated(p: u64) -> u64 {
    if p == 0 {
        0
    } else {
        (0x1_0000_0000_0000_0000int - p) as u64
    }
}

/// The tagged prefix `p` stands for an ancestor (or the same shard) of the tagged prefix `c`:
/// its tag is not lower and `c` agrees with it above its tag.
pub open spec fn is_ancestor_prefix(p: u64, c: u64) -> bool {
    lowest_bit(p) >= lowest_bit(c) && covers(p, c)
}

/// The tagged prefix one bit shorter than `p`: its tag moves one position up.
pub open spec fn parent_prefix(p: u64) -> u64 {
    ((p - lowest_bit(p)) as u64) | ((lowest_bit(p) as int * 2) as u64)
}

/// The address `addr` (32 bytes) starts with the bits of the tagged prefix `p`, as many as its
/// prefix has; every address does when `p` covers the whole workchain.
pub open spec fn account_in_shard(p: u64, addr: Seq<u8>) -> bool {
    p == SHARD_FULL || (be64_at(addr, 0) >> ((64 - prefix_len_of(p)) as u64)) == (p >> ((64 - prefix_len_of(
        p,
    )) as u64))
}

/// The tagged prefix of the other child of the parent of `p`: the bit above the tag of `p` flips.
pub open spec fn sibling_prefix(p: u64) -> u64 {
    p ^ ((lowest_bit(p) as int * 2) as u64)
}

/// The two tagged prefixes overlap: the one with the higher tag covers the other.
pub open spec fn prefixes_intersect(x: u64, y: u64) -> bool {
    if lowest_bit(x) >= lowest_bit(y) {
        covers(x, y)
    } else {
        covers(y, x)
    }
}

/// The one-bit-longer prefix that `p` gets with a tag at position `63 - len`: the first `len`
/// bits of `p`, a one bit, then zeros.
pub open spec fn is_tagged_with_len(r: u64, p: u64, len: nat) -> bool {
    len <= 63 && lowest_bit(r) == 1u64 << ((63 - len) as u64) && covers(r, p)
}

/// Bit facts about one 64-bit word used throughout this module.
proof fn lemma_word(p: u64)
    by (bit_vector)
    ensures
        p & ((!p + 1) as u64) <= p,
        (p & ((!p + 1) as u64)) >> 1u64 == (p & ((!p + 1) as u64)) / 2,
        p as int + ((p & ((!p + 1) as u64)) >> 1u64) as int <= 0xffff_ffff_ffff_ffffint,
        (p & 0xffff_ffff_ffff_fff0u64) & 7 == 0,
        p == 0 <==> !p == 0xffff_ffff_ffff_ffffu64,
        p != 0 ==> (!p) as int + 1 == 0x1_0000_0000_0000_0000int - p,
        p != 0 ==> ((!p + 1) as u64) == (!p) + 1,
        ((!0u64 + 1) as u64) == 0,
        p >> 1u64 == p / 2,
        p >> 2u64 == p / 4,
        p & ((!p + 1) as u64) == 0x8000_0000_0000_0000u64 ==> p == 0x8000_0000_0000_0000u64,
{
}

proof fn lemma_lowest_bit(p: u64)
    ensures
        lowest_bit(p) == p & ((!p + 1) as u64),
        bits_above(lowest_bit(p)) == ((!lowest_bit(p) + 1) as u64) << 1u64,
        lowest_bit(p) as int * 2 <= 0x1_0000_0000_0000_0000int,
        ((lowest_bit(p) as int * 2) as u64) == lowest_bit(p) << 1u64,
        p != 0 ==> lowest_bit(p) != 0,
{
    let b = lowest_bit(p);
    if p == 0 {
        assert(p & ((!p + 1) as u64) == 0 && ((!0u64 + 1) as u64) << 1u64 == 0
            && !(((0u64 as int) * 2 - 1) as u64) == 0 && 0u64 << 1u64 == 0) by (bit_vector)
            requires p == 0;
    } else {
        axiom_u64_trailing_zeros(p);
        let t = u64_trailing_zeros(p) as u64;
        assert(t < 64 && (p >> t) & 1u64 == 1u64 && p << ((64 - t) as u64) == 0
            ==> p & ((!p + 1) as u64) == 1u64 << t) by (bit_vector);
        assert(t < 64 ==> 1u64 << t != 0 && !((((1u64 << t) as int) * 2 - 1) as u64)
            == ((!(1u64 << t) + 1) as u64) << 1u64 && ((1u64 << t) as int) * 2 <= 0x1_0000_0000_0000_0000int
            && ((((1u64 << t) as int) * 2) as u64) == (1u64 << t) << 1u64) by (bit_vector);
    }
}

///
/// Workchain id together with the first 64 bits of an account address.
///
#[derive(Clone, Copy, Debug, PartialEq, Eq, Hash)]
pub struct AccountIdPrefixFull {
    pub workchain_id: i32,
    pub prefix: u64,
}

impl Default for AccountIdPrefixFull {
    fn default() -> (r: Self)
        ensures
            r.workchain_id == INVALID_WORKCHAIN_ID,
            r.prefix == 0,
    {
        AccountIdPrefixFull { workchain_id: INVALID_WORKCHAIN_ID, prefix: 0 }
    }
}

/// The 96-bit address made of the workchain id (as 32 unsigned bits) followed by the 64-bit prefix.
pub open spec fn address96(workchain_id: i32, prefix: u64) -> u128 {
    (((workchain_id as u32) as u128) << 64u128) | (prefix as u128)
}

/// The low `96 - dest_bits` bits of a 96-bit address.
pub open spec fn low_mask96(dest_bits: nat) -> u128 {
    (0xffff_ffff_ffff_ffff_ffff_ffffu128) >> (dest_bits as u128)
}

impl AccountIdPrefixFull {
    /// The invalid prefix (workchain id `INVALID_WORKCHAIN_ID`, prefix 0).
    pub fn default() -> (r: Self)
        ensures
            r.workchain_id == INVALID_WORKCHAIN_ID,
            r.prefix == 0,
    {
        AccountIdPrefixFull { workchain_id: INVALID_WORKCHAIN_ID, prefix: 0 }
    }

    /// Tests address for validity (workchain_id != 0x80000000).
    pub fn is_valid(&self) -> (r: bool)
        ensures
            r == (self.workchain_id != INVALID_WORKCHAIN_ID),
    {
        self.workchain_id != INVALID_WORKCHAIN_ID
    }

    /// The shard of depth `MAX_SPLIT_DEPTH` that holds this address.
    pub fn shard_ident(&self) -> (r: Result<ShardIdent, BlockError>)
        ensures
            (self.workchain_id != INVALID_WORKCHAIN_ID) <==> r is Ok,
            r matches Ok(s) ==> s@ == (self.workchain_id, self.prefix & 0xffff_ffff_ffff_fff0u64),
    {
        let p = self.prefix;
        proof {
            lemma_word(p);
        }
        ShardIdent::with_tagged_prefix(self.workchain_id, self.prefix & 0xffff_ffff_ffff_fff0u64)
    }

    /// Is address belongs to masterchain (workchain_id == MASTERCHAIN_ID).
    pub fn is_masterchain(&self) -> (r: bool)
        ensures
            r == (self.workchain_id == MASTERCHAIN_ID),
    {
        self.workchain_id == MASTERCHAIN_ID
    }

    /// The workchain id.
    pub fn workchain_id(&self) -> (r: i32)
        ensures
            r == self.workchain_id,
    {
        self.workchain_id
    }

    /// Any address of the masterchain.
    pub fn any_masterchain() -> (r: Self)
        ensures
            r.workchain_id == MASTERCHAIN_ID,
            r.prefix == SHARD_FULL,
    {
        AccountIdPrefixFull { workchain_id: MASTERCHAIN_ID, prefix: SHARD_FULL }
    }

    /// The prefix of the given workchain id and address prefix.
    pub fn workchain(workchain_id: i32, prefix: u64) -> (r: Self)
        ensures
            r.workchain_id == workchain_id,
            r.prefix == prefix,
    {
        AccountIdPrefixFull { workchain_id, prefix }
    }

    /// Combines dest_bits bits from dest, remaining 96 - dest_bits bits from self
    /// (the 96-bit address is the workchain id followed by the prefix).
    pub fn interpolate_addr(&self, dest: &Self, dest_bits: u8) -> (r: Self)
        ensures
            dest_bits == 0 ==> r == *self,
            dest_bits >= 96 ==> r == *dest,
            dest_bits < 96 ==> address96(r.workchain_id, r.prefix)
                == (address96(dest.workchain_id, dest.prefix) & !low_mask96(dest_bits as nat))
                    | (address96(self.workchain_id, self.prefix) & low_mask96(dest_bits as nat)),
    {
        if dest_bits == 0 {
            proof {
                let a = address96(self.workchain_id, self.prefix);
                let b = address96(dest.workchain_id, dest.prefix);
                let sw = self.workchain_id as u32;
                let sp = self.prefix;
                assert(a == (((sw as u128) << 64u128) | (sp as u128)));
                let dw = dest.workchain_id as u32;
                let dp = dest.prefix;
                assert((((sw as u128) << 64u128) | (sp as u128)) & !(0xffff_ffff_ffff_ffff_ffff_ffffu128 >> 0u128)
                    == 0 && (((sw as u128) << 64u128) | (sp as u128)) & (0xffff_ffff_ffff_ffff_ffff_ffffu128 >> 0u128)
                    == (((sw as u128) << 64u128) | (sp as u128))
                    && (((dw as u128) << 64u128) | (dp as u128)) & !(0xffff_ffff_ffff_ffff_ffff_ffffu128 >> 0u128)
                    == 0 && 0u128 | (((sw as u128) << 64u128) | (sp as u128)) == (((sw as u128) << 64u128) | (sp as u128))) by (bit_vector);
                assert(low_mask96(0) == 0xffff_ffff_ffff_ffff_ffff_ffffu128 >> 0u128);
            }
            *self
        } else if dest_bits >= 96 {
            *dest
        } else if dest_bits >= 32 {
            let mask = 0xffff_ffff_ffff_ffffu64 >> (dest_bits - 32);
            let r = AccountIdPrefixFull {
                workchain_id: dest.workchain_id,
                prefix: (dest.prefix & !mask) | (self.prefix & mask),
            };
            proof {
                assert(low_mask96(dest_bits as nat) == 0xffff_ffff_ffff_ffff_ffff_ffffu128 >> (dest_bits as u128));
                let dw = dest.workchain_id as u32;
                let sw = self.workchain_id as u32;
                let dp = dest.prefix;
                let sp = self.prefix;
                let n = dest_bits;
                assert(32 <= n < 96 ==> ((((dw as u128) << 64u128) | (((dp & !(0xffff_ffff_ffff_ffffu64 >> ((n - 32) as u8))) | (sp & (0xffff_ffff_ffff_ffffu64 >> ((n - 32) as u8)))) as u128))
                    == (((((dw as u128) << 64u128) | (dp as u128)) & !(0xffff_ffff_ffff_ffff_ffff_ffffu128 >> (n as u128)))
                        | ((((sw as u128) << 64u128) | (sp as u128)) & (0xffff_ffff_ffff_ffff_ffff_ffffu128 >> (n as u128)))))) by (bit_vector);
            }
            r
        } else {
            let mask = 0xffff_ffffu32 >> dest_bits;
            let w = ((dest.workchain_id as u32) & !mask) | ((self.workchain_id as u32) & mask);
            let r = AccountIdPrefixFull { workchain_id: w as i32, prefix: self.prefix };
            proof {
                assert((w as i32) as u32 == w) by (bit_vector);
                assert(low_mask96(dest_bits as nat) == 0xffff_ffff_ffff_ffff_ffff_ffffu128 >> (dest_bits as u128));
                let dw = dest.workchain_id as u32;
                let sw = self.workchain_id as u32;
                let sp = self.prefix;
                let dp = dest.prefix;
                let n = dest_bits;
                assert(0 < n < 32 ==> ((((((dw & !(0xffff_ffffu32 >> n)) | (sw & (0xffff_ffffu32 >> n))) as u128) << 64u128) | (sp as u128))
                    == (((((dw as u128) << 64u128) | (dp as u128)) & !(0xffff_ffff_ffff_ffff_ffff_ffffu128 >> (n as u128)))
                        | ((((sw as u128) << 64u128) | (sp as u128)) & (0xffff_ffff_ffff_ffff_ffff_ffffu128 >> (n as u128)))))) by (bit_vector);
            }
            r
        }
    }
}

/// `r` takes its first `dest_bits` bits (of 96) from `dest` and the rest from `src`.
pub open spec fn interpolates(src: AccountIdPrefixFull, dest: AccountIdPrefixFull, dest_bits: u8, r: AccountIdPrefixFull) -> bool {
    &&& dest_bits == 0 ==> r == src
    &&& dest_bits >= 96 ==> r == dest
    &&& dest_bits < 96 ==> address96(r.workchain_id, r.prefix) == (address96(dest.workchain_id, dest.prefix)
        & !low_mask96(dest_bits as nat)) | (address96(src.workchain_id, src.prefix) & low_mask96(
        dest_bits as nat,
    ))
}

/// The address that takes its first `dest_bits` bits from `dest` and the rest from `src`.
pub open spec fn interpolated(src: AccountIdPrefixFull, dest: AccountIdPrefixFull, dest_bits: u8) -> AccountIdPrefixFull {
    choose|r: AccountIdPrefixFull| interpolates(src, dest, dest_bits, r)
}

/// Only one address takes given bits from two addresses.
proof fn lemma_interpolates_unique(src: AccountIdPrefixFull, dest: AccountIdPrefixFull, dest_bits: u8, r: AccountIdPrefixFull)
    requires
        interpolates(src, dest, dest_bits, r),
    ensures
        interpolated(src, dest, dest_bits) == r,
{
    let c = interpolated(src, dest, dest_bits);
    assert(interpolates(src, dest, dest_bits, c));
    if 0 < dest_bits < 96 {
        let w1 = c.workchain_id;
        let p1 = c.prefix;
        let w2 = r.workchain_id;
        let p2 = r.prefix;
        assert(address96(w1, p1) == address96(w2, p2));
        assert((((w1 as u32) as u128) << 64u128) | (p1 as u128) == (((w2 as u32) as u128) << 64u128) | (p2 as u128)
            ==> w1 == w2 && p1 == p2) by (bit_vector);
    }
}

/// Number of leading bits on which two 96-bit addresses agree.
pub open spec fn matching_bits(a: AccountIdPrefixFull, b: AccountIdPrefixFull) -> int {
    if a.workchain_id != b.workchain_id {
        u32_leading_zeros(((a.workchain_id as u32) ^ (b.workchain_id as u32)) as u32) as int
    } else if a.prefix != b.prefix {
        32 + u64_leading_zeros(a.prefix ^ b.prefix)
    } else {
        96
    }
}

/// The mask of the bits of a 64-bit prefix after its first `i` bits.
pub open spec fn mask_after(i: int) -> u64 {
    if i >= 64 {
        0
    } else {
        u64::MAX >> (i as u64)
    }
}

/// The prefix that takes its first `i` bits from `t ^ q` and the rest from `t`.
pub open spec fn hop_prefix(t: u64, q: u64, i: int) -> u64 {
    t ^ (q & !mask_after(i))
}

/// The number of leading prefix bits taken from the destination at the next hop: the first
/// `i + 4`, `i + 8`, ... (up to 64) whose hop prefix leaves the range `x..=y` of the current shard.
pub open spec fn route_bits(t: u64, q: u64, x: u64, y: u64, i: int) -> int
    decreases 64 - i,
{
    if i >= 60 {
        i + 4
    } else if hop_prefix(t, q, i + 4) < x || hop_prefix(t, q, i + 4) > y {
        i + 4
    } else {
        route_bits(t, q, x, y, i + 4)
    }
}

/// A tagged prefix covers an address prefix exactly when the address lies between the prefix
/// with its tag cleared and the prefix with every bit below the tag set.
proof fn lemma_contains_range(p: u64, a: u64)
    requires
        p != 0,
    ensures
        top_bits_agree(p, a, prefix_len_of(p)) <==> ((p & ((p - 1) as u64)) <= a && a <= (p | ((p - 1) as u64))),
{
    axiom_u64_trailing_zeros(p);
    let t = u64_trailing_zeros(p) as u64;
    assert(t < 64 && (p >> t) & 1u64 == 1u64 && p << ((64 - t) as u64) == 0 ==> (t == 63 || ((a >> ((t + 1) as u64)) == (p >> ((t + 1) as u64))))
        == ((p & ((p - 1) as u64)) <= a && a <= (p | ((p - 1) as u64)))) by (bit_vector);
    if t == 63 {
        assert(prefix_len_of(p) == 0);
    } else {
        assert(64 - prefix_len_of(p) == t + 1);
    }
}

impl AccountIdPrefixFull {
    /// The address that an intermediate address stands for on the way from `self` to `dest`;
    /// only a regular intermediate address can be resolved.
    pub fn interpolate_addr_intermediate(&self, dest: &Self, ia: &IntermediateAddress) -> (r: Result<Self, BlockError>)
        ensures
            r is Ok <==> *ia is Regular,
            r is Ok ==> r->Ok_0 == interpolated(*self, *dest, ia->Regular_0@),
    {
        if let IntermediateAddress::Regular(regular) = ia {
            let r = self.interpolate_addr(dest, regular.use_dest_bits());
            proof {
                lemma_interpolates_unique(*self, *dest, regular@, r);
            }
            Ok(r)
        } else {
            Err(BlockError::Other(message("IntermediateAddress::Regular is expected")))
        }
    }

    /// Number of leading bits on which the two addresses agree (96 when they are equal).
    pub fn count_matching_bits(&self, other: &Self) -> (r: u8)
        ensures
            r == matching_bits(*self, *other),
    {
        if self.workchain_id != other.workchain_id {
            let x: u32 = (self.workchain_id as u32) ^ (other.workchain_id as u32);
            proof {
                axiom_u32_leading_zeros(x);
            }
            x.leading_zeros() as u8
        } else if self.prefix != other.prefix {
            proof {
                axiom_u64_leading_zeros(self.prefix ^ other.prefix);
            }
            32 + (self.prefix ^ other.prefix).leading_zeros() as u8
        } else {
            96
        }
    }

    /// Hypercube routing of a message from `self` to `dest`, for the shard `cur_shard` that
    /// holds it at the intermediate address `ia`: returns the current and the next-hop
    /// intermediate addresses. Fails when `ia` is not regular or the shard does not hold the
    /// transit address. A destination in the shard is reached at once; messages to or from the
    /// masterchain go straight to their destination; across workchains the next hop takes the
    /// destination workchain; else the next hop is the first prefix, in steps of four bits,
    /// that leaves the shard.
    #[verifier::loop_isolation(false)]
    pub fn perform_hypercube_routing(
        &self,
        dest: &AccountIdPrefixFull,
        cur_shard: &ShardIdent,
        ia: IntermediateAddress,
    ) -> (r: Result<(IntermediateAddress, IntermediateAddress), BlockError>)
        requires
            cur_shard@.1 != 0,
        ensures
            ({
                let transit = interpolated(*self, *dest, ia->Regular_0@);
                let contains_transit = cur_shard@.0 == transit.workchain_id && top_bits_agree(
                    cur_shard@.1,
                    transit.prefix,
                    prefix_len_of(cur_shard@.1),
                );
                let contains_dest = cur_shard@.0 == dest.workchain_id && top_bits_agree(
                    cur_shard@.1,
                    dest.prefix,
                    prefix_len_of(cur_shard@.1),
                );
                let p = cur_shard@.1;
                let q = dest.prefix ^ transit.prefix;
                let i0 = (u64_leading_zeros(q) as u8 & 0xfc) as int;
                let n = route_bits(transit.prefix, q, p & ((p - 1) as u64), p | ((p - 1) as u64), i0);
                &&& r is Ok <==> (ia is Regular && contains_transit)
                &&& r is Ok && contains_dest ==> regular_dest_bits(r->Ok_0.0, 96) && regular_dest_bits(r->Ok_0.1, 96)
                &&& r is Ok && !contains_dest && (transit.workchain_id == MASTERCHAIN_ID || dest.workchain_id == MASTERCHAIN_ID)
                    ==> r->Ok_0.0 == ia && regular_dest_bits(r->Ok_0.1, 96)
                &&& r is Ok && !contains_dest && transit.workchain_id != MASTERCHAIN_ID && dest.workchain_id != MASTERCHAIN_ID
                    && transit.workchain_id != dest.workchain_id
                    ==> r->Ok_0.0 == ia && regular_dest_bits(r->Ok_0.1, 32)
                &&& r is Ok && !contains_dest && transit.workchain_id != MASTERCHAIN_ID && transit.workchain_id == dest.workchain_id
                    ==> regular_dest_bits(r->Ok_0.0, 28 + n) && regular_dest_bits(r->Ok_0.1, 32 + n)
            }),
    {
        let transit = self.interpolate_addr_intermediate(dest, &ia)?;
        if !cur_shard.contains_full_prefix(&transit) {
            return Err(BlockError::Other(message("Shard must fully contain transit prefix")));
        }
        if cur_shard.contains_full_prefix(dest) {
            return Ok((IntermediateAddress::full_dest(), IntermediateAddress::full_dest()));
        }
        if transit.is_masterchain() || dest.is_masterchain() {
            return Ok((ia, IntermediateAddress::full_dest()));
        }
        if transit.workchain_id != dest.workchain_id {
            return match IntermediateAddress::use_dest_bits(32) {
                Ok(next) => Ok((ia, next)),
                Err(e) => Err(e),
            };
        }
        let p = cur_shard.prefix;
        let x = p & (p - 1);
        let y = p | (p - 1);
        let t = transit.prefix;
        let q = dest.prefix ^ t;
        proof {
            lemma_contains_range(p, t);
            lemma_contains_range(p, dest.prefix);
            axiom_u64_leading_zeros(q);
            let dp = dest.prefix;
            assert(t != dp);
            assert(q != 0) by (bit_vector)
                requires q == dp ^ t, t != dp;
            assert(t ^ (q & !0u64) == dp) by (bit_vector)
                requires q == dp ^ t;
            assert(hop_prefix(t, q, 64) == dp);
        }
        let lz: u32 = q.leading_zeros();
        let mut i: u8 = (lz as u8) & 0xfc;
        let ghost i0: int = i as int;
        proof {
            let l = lz as u8;
            assert(l <= 63 ==> l & 0xfc <= 60 && (l & 0xfc) % 4 == 0) by (bit_vector);
            assert(u64_leading_zeros(q) <= 63);
        }
        let mut m: u64 = u64::MAX >> i;
        loop
            invariant
                i <= 60,
                i % 4 == 0,
                m == mask_after(i as int),
                route_bits(t, q, x, y, i as int) == route_bits(t, q, x, y, i0),
                hop_prefix(t, q, 64) < x || hop_prefix(t, q, 64) > y,
            decreases 60 - i,
        {
            proof {
                let k = i;
                assert(k <= 60 && k % 4 == 0 ==> (u64::MAX >> k) >> 4u64 == (if k + 4 >= 64 { 0u64 } else { u64::MAX >> ((k + 4) as u64) })) by (bit_vector);
            }
            m = m >> 4;
            let h = t ^ (q & !m);
            let ghost i_old: int = i as int;
            i = i + 4;
            assert(h == hop_prefix(t, q, i as int));
            if h < x || h > y {
                assert(route_bits(t, q, x, y, i_old) == i);
                let cur = IntermediateAddress::use_dest_bits(28 + i);
                let next = IntermediateAddress::use_dest_bits(32 + i);
                return match (cur, next) {
                    (Ok(c), Ok(n)) => Ok((c, n)),
                    (Err(e), _) => Err(e),
                    (_, Err(e)) => Err(e),
                };
            }
        }
    }
}

/// The lowercase hexadecimal digit of `d` (below 16).
pub open spec fn hex_digit_char(d: u64) -> char {
    seq!['0', '1', '2', '3', '4', '5', '6', '7', '8', '9', 'a', 'b', 'c', 'd', 'e', 'f'][d as int]
}

/// The 16 lowercase hexadecimal digits of `v`, most significant first.
pub open spec fn hex16(v: u64) -> Seq<char> {
    Seq::new(16, |i: int| hex_digit_char((v >> ((60 - 4 * i) as u64)) % 16))
}

///
/// Identifier of a shard: workchain id and tagged prefix
/// (prefix bits, then a one bit that ends them, then zeros).
///
#[derive(Clone, Copy, Debug, PartialEq, Eq, Hash, PartialOrd, Ord)]
pub struct ShardIdent {
    workchain_id: i32,
    prefix: u64,
}

impl View for ShardIdent {
    type V = (i32, u64);

    /// Workchain id and tagged prefix.
    closed spec fn view(&self) -> (i32, u64) {
        (self.workchain_id, self.prefix)
    }
}

impl Default for ShardIdent {
    fn default() -> (r: Self)
        ensures
            r@ == (0i32, SHARD_FULL),
    {
        ShardIdent { workchain_id: 0, prefix: SHARD_FULL }
    }
}

impl ShardIdent {
    /// The whole masterchain.
    pub fn masterchain() -> (r: Self)
        ensures
            r@ == (MASTERCHAIN_ID, SHARD_FULL),
    {
        ShardIdent { workchain_id: MASTERCHAIN_ID, prefix: SHARD_FULL }
    }

    /// The whole workchain `workchain_id`.
    pub fn full(workchain_id: i32) -> (r: Self)
        ensures
            r@ == (workchain_id, SHARD_FULL),
    {
        ShardIdent { workchain_id, prefix: SHARD_FULL }
    }

    /// The shard whose prefix is the first `shard_pfx_len` bits of `shard_prefix`.
    pub fn with_prefix_len(shard_pfx_len: u8, workchain_id: i32, shard_prefix: u64) -> (r: Result<Self, BlockError>)
        ensures
            (shard_pfx_len <= MAX_SPLIT_DEPTH && workchain_id != INVALID_WORKCHAIN_ID) <==> r is Ok,
            r matches Ok(s) ==> s@.0 == workchain_id
                && is_tagged_with_len(s@.1, shard_prefix, shard_pfx_len as nat),
    {
        if shard_pfx_len > MAX_SPLIT_DEPTH {
            return Err(BlockError::InvalidArg(message("Shard prefix length can't greater than 60")));
        }
        Self::check_workchain_id(workchain_id)?;
        Ok(ShardIdent { workchain_id, prefix: Self::add_tag(shard_prefix, shard_pfx_len) })
    }

    /// The shard with the given tagged prefix; its three lowest bits must be zero.
    pub fn with_tagged_prefix(workchain_id: i32, shard_prefix_tagged: u64) -> (r: Result<Self, BlockError>)
        ensures
            (shard_prefix_tagged & 7 == 0 && workchain_id != INVALID_WORKCHAIN_ID) <==> r is Ok,
            r matches Ok(s) ==> s@ == (workchain_id, shard_prefix_tagged),
    {
        if (shard_prefix_tagged & 7) != 0 {
            return Err(BlockError::InvalidArg(message("Shard prefix cannot be longer than 60")));
        }
        Self::check_workchain_id(workchain_id)?;
        Ok(ShardIdent { workchain_id, prefix: shard_prefix_tagged })
    }

    /// The whole workchain `workchain_id`, which must be valid.
    pub fn with_workchain_id(workchain_id: i32) -> (r: Result<Self, BlockError>)
        ensures
            (workchain_id != INVALID_WORKCHAIN_ID) <==> r is Ok,
            r matches Ok(s) ==> s@ == (workchain_id, SHARD_FULL),
    {
        Self::check_workchain_id(workchain_id)?;
        Ok(ShardIdent { workchain_id, prefix: SHARD_FULL })
    }

    /// Fails for `INVALID_WORKCHAIN_ID`.
    pub fn check_workchain_id(workchain_id: i32) -> (r: Result<(), BlockError>)
        ensures
            (workchain_id != INVALID_WORKCHAIN_ID) <==> r is Ok,
    {
        if workchain_id == INVALID_WORKCHAIN_ID {
            return Err(BlockError::InvalidArg(message("Workchain id 0x80000000 is invalid")));
        }
        Ok(())
    }

    /// The workchain id.
    pub fn workchain_id(&self) -> (r: i32)
        ensures
            r == self@.0,
    {
        self.workchain_id
    }

    /// `parent` is the parent of `self`.
    pub fn is_child_for(&self, parent: &ShardIdent) -> (r: bool)
        ensures
            r == (self@.1 != SHARD_FULL && parent@.0 == self@.0 && parent@.1 == parent_prefix(self@.1)),
    {
        parent.is_parent_for(self)
    }

    /// `child` is a child of `self`: same workchain, and `self` is `child` with a one bit shorter prefix.
    pub fn is_parent_for(&self, child: &ShardIdent) -> (r: bool)
        ensures
            r == (child@.1 != SHARD_FULL && self@.0 == child@.0 && self@.1 == parent_prefix(child@.1)),
    {
        if child.is_full() {
            return false;
        }
        let parent = child.merge();
        self.workchain_id() == child.workchain_id() && match parent {
            Ok(p) => self.shard_prefix_with_tag() == p.shard_prefix_with_tag(),
            Err(_) => false,
        }
    }

    /// The shard is the left child of its parent (the bit above its tag is zero).
    pub fn is_left_child(&self) -> (r: bool)
        ensures
            r == (self@.1 & ((lowest_bit(self@.1) as int * 2) as u64) == 0),
    {
        !self.is_right_child()
    }

    /// The shard is the right child of its parent (the bit above its tag is one).
    pub fn is_right_child(&self) -> (r: bool)
        ensures
            r == (self@.1 & ((lowest_bit(self@.1) as int * 2) as u64) != 0),
    {
        proof {
            lemma_lowest_bit(self.prefix);
        }
        (self.prefix & (self.prefix_lower_bits() << 1)) != 0
    }

    /// `self` is `descendant` or one of its ancestors.
    pub fn is_ancestor_for(&self, descendant: &ShardIdent) -> (r: bool)
        ensures
            r == (self@.0 == descendant@.0 && is_ancestor_prefix(self@.1, descendant@.1)),
    {
        self.workchain_id() == descendant.workchain_id() && Self::is_ancestor(self.prefix, descendant.prefix)
    }

    /// The lowest set bit of `prefix`, e.g. 1010000 -> 10000.
    pub fn lower_bits(prefix: u64) -> (r: u64)
        ensures
            r == lowest_bit(prefix),
    {
        proof {
            lemma_lowest_bit(prefix);
        }
        prefix & Self::negate_bits(prefix)
    }

    /// Two's complement negation.
    pub fn negate_bits(prefix: u64) -> (r: u64)
        ensures
            r == negated(prefix),
            r == ((!prefix + 1) as u64),
    {
        let r = (!prefix).wrapping_add(1);
        proof {
            lemma_word(prefix);
            if prefix != 0 {
                assert(r == (!prefix) + 1);
                assert(((0x1_0000_0000_0000_0000int - prefix) as u64) == (!prefix) + 1);
            } else {
                assert(r == 0);
            }
        }
        r
    }

    /// The shard of tagged prefix `parent` covers the prefix `child`.
    pub fn contains(parent: u64, child: u64) -> (r: bool)
        ensures
            r == covers(parent, child),
    {
        let x = Self::lower_bits(parent);
        proof {
            lemma_lowest_bit(parent);
        }
        ((parent ^ child) & (Self::negate_bits(x) << 1)) == 0
    }

    /// The tagged prefix `parent` stands for an ancestor of (or the same shard as) `child`.
    pub fn is_ancestor(parent: u64, child: u64) -> (r: bool)
        ensures
            r == is_ancestor_prefix(parent, child),
    {
        let x = Self::lower_bits(parent);
        let y = Self::lower_bits(child);
        proof {
            lemma_lowest_bit(parent);
        }
        x >= y && ((parent ^ child) & (Self::negate_bits(x) << 1)) == 0
    }

    /// The two shards overlap (same workchain, one contains the other).
    pub fn intersect_with(&self, other: &Self) -> (r: bool)
        ensures
            r == (self@.0 == other@.0 && prefixes_intersect(self@.1, other@.1)),
    {
        if self.workchain_id != other.workchain_id {
            return false;
        }
        Self::shard_intersects(self.shard_prefix_with_tag(), other.shard_prefix_with_tag())
    }

    /// Checks if one shard fully includes the other.
    pub fn shard_intersects(x: u64, y: u64) -> (r: bool)
        ensures
            r == prefixes_intersect(x, y),
    {
        let lx = Self::lower_bits(x);
        let ly = Self::lower_bits(y);
        let z = if lx >= ly { lx } else { ly };
        let z = Self::negate_bits(z) << 1;
        proof {
            lemma_lowest_bit(x);
            lemma_lowest_bit(y);
            assert((x ^ y) == (y ^ x)) by (bit_vector);
        }
        (x ^ y) & z == 0
    }

    /// The smaller of two overlapping shards (the one with the lower tag).
    pub fn shard_intersection(x: u64, y: u64) -> (r: u64)
        ensures
            r == if lowest_bit(x) < lowest_bit(y) { x } else { y },
    {
        if Self::lower_bits(x) < Self::lower_bits(y) {
            x
        } else {
            y
        }
    }

    /// The shards are neighbors (shards of the masterchain are neighbors of all).
    pub fn is_neighbor_for(&self, other: &Self) -> (r: bool)
        ensures
            r == ({
                let xs = self@.1;
                let ys = other@.1;
                let m = if lowest_bit(xs) >= lowest_bit(ys) { lowest_bit(xs) } else { lowest_bit(ys) };
                let z = (xs ^ ys) & negated((m as int * 2) as u64);
                if self@.0 == MASTERCHAIN_ID || other@.0 == MASTERCHAIN_ID {
                    true
                } else if z == 0 {
                    true
                } else if self@.0 != other@.0 {
                    false
                } else {
                    u64_leading_zeros(z) / 4 + u64_trailing_zeros(z) / 4 == 15
                }
            }),
    {
        if self.is_masterchain() || other.is_masterchain() {
            return true;
        }
        let xs = self.shard_prefix_with_tag();
        let ys = other.shard_prefix_with_tag();
        let xl = self.prefix_lower_bits();
        let yl = other.prefix_lower_bits();
        let m = if xl >= yl { xl } else { yl };
        proof {
            lemma_lowest_bit(xs);
            lemma_lowest_bit(ys);
        }
        let z = (xs ^ ys) & Self::negate_bits(m << 1);
        if z == 0 {
            return true;
        }
        if self.workchain_id() != other.workchain_id() {
            return false;
        }
        let a = z.leading_zeros();
        let b = z.trailing_zeros();
        proof {
            vstd::std_specs::bits::axiom_u64_leading_zeros(z);
            axiom_u64_trailing_zeros(z);
            assert(a >> 2 == a / 4 && b >> 2 == b / 4) by (bit_vector);
        }
        let c1 = a >> 2;
        let c2 = b >> 2;
        c1 + c2 == 15
    }

    /// The shard can be split once more.
    pub fn can_split(&self) -> (r: bool)
        ensures
            r == (prefix_len_of(self@.1) < MAX_SPLIT_DEPTH),
    {
        self.prefix_len() < MAX_SPLIT_DEPTH
    }

    /// The shard covers its whole workchain.
    pub fn is_full(&self) -> (r: bool)
        ensures
            r == (self@.1 == SHARD_FULL),
    {
        self.prefix == SHARD_FULL
    }

    /// The shard is in the masterchain.
    pub fn is_masterchain(&self) -> (r: bool)
        ensures
            r == (self@.0 == MASTERCHAIN_ID),
    {
        self.workchain_id == MASTERCHAIN_ID
    }

    /// The shard is the whole masterchain.
    pub fn is_masterchain_ext(&self) -> (r: bool)
        ensures
            r == (self@.0 == MASTERCHAIN_ID && self@.1 == SHARD_FULL),
    {
        self.is_masterchain() && self.is_full()
    }

    /// The shard is in the base workchain.
    pub fn is_base_workchain(&self) -> (r: bool)
        ensures
            r == (self@.0 == BASE_WORKCHAIN_ID),
    {
        self.workchain_id() == BASE_WORKCHAIN_ID
    }

    /// The shard is in a standard workchain (id 0..=255).
    pub fn is_standard_workchain(&self) -> (r: bool)
        ensures
            r == (0 <= self@.0 <= 255),
    {
        self.workchain_id() >= BASE_WORKCHAIN_ID && self.workchain_id() <= 255
    }

    /// The shard holds the address prefix.
    pub fn contains_full_prefix(&self, prefix: &AccountIdPrefixFull) -> (r: bool)
        ensures
            r == (self@.0 == prefix.workchain_id
                && top_bits_agree(self@.1, prefix.prefix, prefix_len_of(self@.1))),
    {
        self.contains_prefix(prefix.workchain_id, prefix.prefix)
    }

    /// The shard holds the address prefix: same workchain, and the prefix starts with the shard's prefix bits.
    pub fn contains_prefix(&self, workchain_id: i32, prefix_without_tag: u64) -> (r: bool)
        ensures
            r == (self@.0 == workchain_id
                && top_bits_agree(self@.1, prefix_without_tag, prefix_len_of(self@.1))),
    {
        if self.workchain_id == workchain_id {
            if self.prefix == SHARD_FULL {
                proof {
                    assert(u64_trailing_zeros(SHARD_FULL) == 63) by {
                        axiom_u64_trailing_zeros(SHARD_FULL);
                        let t = u64_trailing_zeros(SHARD_FULL) as u64;
                        assert(t <= 64 && (t < 64 ==> (SHARD_FULL >> t) & 1u64 == 1u64)
                            && SHARD_FULL << ((64 - t) as u64) == 0 ==> t == 63) by (bit_vector);
                    }
                }
                return true;
            }
            proof {
                axiom_u64_trailing_zeros(self.prefix);
                let p = self.prefix;
                let t = u64_trailing_zeros(p) as u64;
                assert(t == 63 && (p >> t) & 1u64 == 1u64 && p << ((64 - t) as u64) == 0
                    ==> p == 0x8000_0000_0000_0000u64) by (bit_vector);
            }
            let shift = 64 - self.prefix_len();
            return (self.prefix >> shift) == (prefix_without_tag >> shift);
        }
        false
    }

    /// The tagged prefix as 16 lowercase hexadecimal digits.
    pub fn shard_prefix_as_str_with_tag(&self) -> (r: String)
        ensures
            r@ == hex16(self@.1),
    {
        let digits = "0123456789abcdef";
        proof {
            reveal_strlit("0123456789abcdef");
            assert(digits@ =~= seq!['0', '1', '2', '3', '4', '5', '6', '7', '8', '9', 'a', 'b', 'c', 'd', 'e', 'f']);
        }
        let mut out = String::from_str("");
        proof {
            reveal_strlit("");
        }
        let mut i: u64 = 0;
        while i < 16
            invariant
                i <= 16,
                digits@ == seq!['0', '1', '2', '3', '4', '5', '6', '7', '8', '9', 'a', 'b', 'c', 'd', 'e', 'f'],
                digits.is_ascii(),
                out@ == hex16(self.prefix).take(i as int),
            decreases 16 - i,
        {
            let d = ((self.prefix >> (60 - 4 * i)) % 16) as usize;
            let c = digits.substring_ascii(d, d + 1);
            out.append(c);
            proof {
                assert(c@ =~= seq![hex_digit_char(d as u64)]);
                assert(hex16(self.prefix).take(i as int + 1) =~= hex16(self.prefix).take(i as int).push(hex_digit_char(d as u64)));
            }
            i = i + 1;
        }
        assert(hex16(self.prefix).take(16) =~= hex16(self.prefix));
        out
    }

    /// The tagged prefix.
    pub fn shard_prefix_with_tag(&self) -> (r: u64)
        ensures
            r == self@.1,
    {
        self.prefix
    }

    /// The prefix with its tag cleared.
    pub fn shard_prefix_without_tag(&self) -> (r: u64)
        ensures
            r == self@.1 - lowest_bit(self@.1),
    {
        proof {
            lemma_lowest_bit(self.prefix);
            lemma_word(self.prefix);
        }
        self.prefix - self.prefix_lower_bits()
    }

    /// The other child of this shard's parent.
    pub fn sibling(&self) -> (r: ShardIdent)
        ensures
            r@ == (self@.0, sibling_prefix(self@.1)),
    {
        proof {
            lemma_lowest_bit(self.prefix);
        }
        let prefix = self.prefix ^ ((self.prefix & Self::negate_bits(self.prefix)) << 1);
        ShardIdent { workchain_id: self.workchain_id, prefix }
    }

    /// The parent shard; fails for a full shard.
    pub fn merge(&self) -> (r: Result<ShardIdent, BlockError>)
        ensures
            (self@.1 != SHARD_FULL) <==> r is Ok,
            r matches Ok(s) ==> s@ == (self@.0, parent_prefix(self@.1)),
    {
        let lb = self.prefix_lower_bits();
        proof {
            lemma_lowest_bit(self.prefix);
            lemma_word(self.prefix);
        }
        if self.prefix == SHARD_FULL {
            Err(BlockError::InvalidArg(message("Can't merge full shard")))
        } else {
            Ok(ShardIdent { workchain_id: self.workchain_id, prefix: (self.prefix - lb) | (lb << 1) })
        }
    }

    /// The account at address `addr` belongs to this shard: the first bits of the address, as
    /// many as the prefix has, are the prefix (every address belongs to a shard that covers its
    /// workchain).
    pub fn contains_account(&self, addr: &UInt256) -> (r: bool)
        ensures
            r == account_in_shard(self@.1, addr@),
    {
        if self.prefix == SHARD_FULL {
            return true;
        }
        let len = self.prefix_len();
        proof {
            if self.prefix != 0 {
                lemma_lowest_bit_pow2(self.prefix);
                lemma_lowest_bit(self.prefix);
                lemma_word(self.prefix);
                lemma2_to64_rest();
            }
            addr.lemma_bytes(*addr);
        }
        let shift: u64 = 64 - len as u64;
        let top = get_u64(addr.as_array(), 0);
        (top >> shift) == (self.prefix >> shift)
    }

    /// The two children; fails when the shard is already split `MAX_SPLIT_DEPTH` times
    /// (the half of its tag would fall into the three lowest bits).
    pub fn split(&self) -> (r: Result<(ShardIdent, ShardIdent), BlockError>)
        ensures
            ((lowest_bit(self@.1) / 2) & 7 == 0) <==> r is Ok,
            r matches Ok((left, right)) ==>
                left@ == (self@.0, (self@.1 - lowest_bit(self@.1) / 2) as u64)
                && right@ == (self@.0, (self@.1 + lowest_bit(self@.1) / 2) as u64),
    {
        let lb = self.prefix_lower_bits() >> 1;
        proof {
            lemma_lowest_bit(self.prefix);
            lemma_word(self.prefix);
        }
        if lb & 7 != 0 {
            Err(BlockError::InvalidArg(message("Can't split shard, because of max split depth is 60")))
        } else {
            Ok((
                ShardIdent { workchain_id: self.workchain_id, prefix: self.prefix - lb },
                ShardIdent { workchain_id: self.workchain_id, prefix: self.prefix + lb },
            ))
        }
    }

    /// The shard of the deepest split just left of this one's first address.
    pub fn left_ancestor_mask(&self) -> (r: Result<Self, BlockError>)
        requires
            self@.1 != 0,
        ensures
            (self@.0 != INVALID_WORKCHAIN_ID) <==> r is Ok,
            r matches Ok(s) ==> s@ == (self@.0, ((self@.1 - 1) as u64) & 0xffff_ffff_ffff_fff0u64),
    {
        let p = self.prefix - 1;
        proof {
            lemma_word(p);
        }
        Self::with_tagged_prefix(self.workchain_id, (self.prefix - 1) & 0xffff_ffff_ffff_fff0u64)
    }

    /// The shard of the deepest split just right of this one's tag.
    pub fn right_ancestor_mask(&self) -> (r: Result<Self, BlockError>)
        requires
            self@.1 + 16 <= u64::MAX,
        ensures
            ((self@.1 + 16) as u64 & 7 == 0 && self@.0 != INVALID_WORKCHAIN_ID) <==> r is Ok,
            r matches Ok(s) ==> s@ == (self@.0, (self@.1 + 16) as u64),
    {
        Self::with_tagged_prefix(self.workchain_id, self.prefix + 16)
    }

    fn prefix_lower_bits(&self) -> (r: u64)
        ensures
            r == lowest_bit(self@.1),
    {
        Self::lower_bits(self.prefix)
    }

    fn add_tag(prefix: u64, len: u8) -> (r: u64)
        requires
            len <= 63,
        ensures
            is_tagged_with_len(r, prefix, len as nat),
    {
        let tag: u64 = 1u64 << (63 - len);
        let r = (prefix & Self::negate_bits(tag)) | tag;
        proof {
            lemma_lowest_bit(r);
            let t = (63 - len) as u64;
            assert(t < 64 ==> ((prefix & ((!(1u64 << t) + 1) as u64)) | (1u64 << t)) & ((!((prefix & ((!(1u64 << t) + 1) as u64)) | (1u64 << t)) + 1) as u64) == 1u64 << t) by (bit_vector);
            let b = 1u64 << t;
            assert(t < 64 ==> (((prefix & ((!(1u64 << t) + 1) as u64)) | (1u64 << t)) ^ prefix) & (((!(1u64 << t) + 1) as u64) << 1u64) == 0) by (bit_vector);
        }
        r
    }

    /// Number of prefix bits (64 for the degenerate prefix 0).
    pub fn prefix_len(&self) -> (r: u8)
        ensures
            r == prefix_len_of(self@.1),
    {
        if self.prefix == 0 {
            64
        } else {
            proof {
                axiom_u64_trailing_zeros(self.prefix);
            }
            63 - self.prefix.trailing_zeros() as u8
        }
    }
}

/// Splitting a shard and merging either child gives the shard back, and the two children are
/// each other's siblings.
pub proof fn law_split_then_merge(p: u64)
    requires
        p & 7 == 0,
        (lowest_bit(p) / 2) & 7 == 0,
    ensures
        parent_prefix((p - lowest_bit(p) / 2) as u64) == p,
        parent_prefix((p + lowest_bit(p) / 2) as u64) == p,
        sibling_prefix((p - lowest_bit(p) / 2) as u64) == (p + lowest_bit(p) / 2) as u64,
        sibling_prefix((p + lowest_bit(p) / 2) as u64) == (p - lowest_bit(p) / 2) as u64,
        lowest_bit((p - lowest_bit(p) / 2) as u64) == lowest_bit(p) / 2,
        lowest_bit((p + lowest_bit(p) / 2) as u64) == lowest_bit(p) / 2,
        p != 0 ==> (p - lowest_bit(p) / 2) as u64 != 0 && (p + lowest_bit(p) / 2) as u64 != 0,
{
    lemma_lowest_bit(p);
    let b = p & ((!p + 1) as u64);
    lemma_word(p);
    lemma_word(b);
    let l = (p - b / 2) as u64;
    let r = (p + b / 2) as u64;
    lemma_lowest_bit(l);
    lemma_lowest_bit(r);
    assert(p & 7 == 0 && (b >> 1u64) & 7 == 0 && b == p & ((!p + 1) as u64)
        && l == p - (b >> 1u64) && r == p + (b >> 1u64)
        ==> {
            &&& ((l - (l & ((!l + 1) as u64))) as u64) | ((l & ((!l + 1) as u64)) << 1u64) == p
            &&& ((r - (r & ((!r + 1) as u64))) as u64) | ((r & ((!r + 1) as u64)) << 1u64) == p
            &&& l ^ ((l & ((!l + 1) as u64)) << 1u64) == r
            &&& r ^ ((r & ((!r + 1) as u64)) << 1u64) == l
            &&& l & ((!l + 1) as u64) == b >> 1u64
            &&& r & ((!r + 1) as u64) == b >> 1u64
            &&& (p != 0 ==> l != 0 && r != 0)
        }) by (bit_vector);
    lemma_word(l);
    lemma_word(r);
}

/// Merging a shard and splitting the parent gives the shard back as one of the two children.
pub proof fn law_merge_then_split(p: u64)
    requires
        p & 7 == 0,
        p != 0,
        p != SHARD_FULL,
    ensures
        ({
            let m = parent_prefix(p);
            &&& (lowest_bit(m) / 2) & 7 == 0
            &&& (p == (m - lowest_bit(m) / 2) as u64 || p == (m + lowest_bit(m) / 2) as u64)
            &&& m != 0 && m & 7 == 0
        }),
{
    lemma_lowest_bit(p);
    let b = p & ((!p + 1) as u64);
    assert(b <= p) by (bit_vector)
        requires b == p & ((!p + 1) as u64);
    let m = parent_prefix(p);
    assert(m == ((p - b) as u64) | (b << 1u64));
    lemma_lowest_bit(m);
    let c = m & ((!m + 1) as u64);
    assert(p & 7 == 0 && p != 0 && p != 0x8000_0000_0000_0000u64 && b == p & ((!p + 1) as u64)
        && m == ((p - b) as u64) | (b << 1u64) && c == m & ((!m + 1) as u64)
        ==> (c >> 1u64) & 7 == 0 && c >> 1u64 == c / 2 && c >> 1u64 <= m
            && (p == m - (c >> 1u64) || p as int == m as int + (c >> 1u64) as int) && m != 0 && m & 7 == 0) by (bit_vector);
}

/// The lowest set bit of a nonzero tagged prefix is 2 to the power of 63 minus its prefix
/// length.
proof fn lemma_lowest_bit_pow2(p: u64)
    requires
        p != 0,
    ensures
        prefix_len_of(p) <= 63,
        lowest_bit(p) == pow2((63 - prefix_len_of(p)) as nat),
{
    axiom_u64_trailing_zeros(p);
    let t = u64_trailing_zeros(p) as u64;
    lemma_u64_pow2_no_overflow(t as nat);
    lemma_u64_shl_is_mul(1, t);
}

/// Between nonzero prefixes, the lower tag is the longer prefix.
proof fn lemma_lowest_bit_order(p: u64, c: u64)
    requires
        p != 0,
        c != 0,
    ensures
        (lowest_bit(p) >= lowest_bit(c)) == (prefix_len_of(p) <= prefix_len_of(c)),
        (lowest_bit(p) == lowest_bit(c)) == (prefix_len_of(p) == prefix_len_of(c)),
{
    lemma_lowest_bit_pow2(p);
    lemma_lowest_bit_pow2(c);
    let ep = (63 - prefix_len_of(p)) as nat;
    let ec = (63 - prefix_len_of(c)) as nat;
    if ep < ec {
        lemma_pow2_strictly_increases(ep, ec);
    } else if ec < ep {
        lemma_pow2_strictly_increases(ec, ep);
    }
}

/// Each child of a split has a prefix one bit longer than the shard's.
pub proof fn law_split_prefix_len(p: u64)
    requires
        p != 0,
        p & 7 == 0,
        (lowest_bit(p) / 2) & 7 == 0,
    ensures
        prefix_len_of((p - lowest_bit(p) / 2) as u64) == prefix_len_of(p) + 1,
        prefix_len_of((p + lowest_bit(p) / 2) as u64) == prefix_len_of(p) + 1,
{
    law_split_then_merge(p);
    let l = (p - lowest_bit(p) / 2) as u64;
    let r = (p + lowest_bit(p) / 2) as u64;
    lemma_lowest_bit_pow2(p);
    lemma_lowest_bit_pow2(l);
    lemma_lowest_bit_pow2(r);
    let ep = (63 - prefix_len_of(p)) as nat;
    let el = (63 - prefix_len_of(l)) as nat;
    let er = (63 - prefix_len_of(r)) as nat;
    lemma_pow2_pos(el);
    lemma_pow2_pos(er);
    if ep == 0 {
        lemma2_to64();
    }
    assert(ep > 0);
    lemma_pow2_unfold(ep);
    let e1 = (ep - 1) as nat;
    assert(pow2(el) == pow2(e1));
    assert(pow2(er) == pow2(e1));
    if el < e1 {
        lemma_pow2_strictly_increases(el, e1);
    } else if e1 < el {
        lemma_pow2_strictly_increases(e1, el);
    }
    if er < e1 {
        lemma_pow2_strictly_increases(er, e1);
    } else if e1 < er {
        lemma_pow2_strictly_increases(e1, er);
    }
}

/// A shard whose prefix has at most 60 bits can be split exactly when its prefix is shorter
/// than 60 bits.
pub proof fn law_split_depth(p: u64)
    requires
        p != 0,
        prefix_len_of(p) <= 60,
    ensures
        ((lowest_bit(p) / 2) & 7 == 0) == (prefix_len_of(p) < 60),
{
    lemma_lowest_bit_pow2(p);
    let e = (63 - prefix_len_of(p)) as nat;
    lemma_pow2_unfold(e);
    let e1 = (e - 1) as nat;
    let h: u64 = lowest_bit(p) / 2;
    assert(h == pow2(e1));
    lemma_u64_low_bits_mask_is_mod(h, 3);
    lemma_low_bits_mask_values();
    lemma2_to64();
    if e1 == 2 {
        assert(h % 8 == 4);
    } else {
        lemma_pow2_adds(3, (e1 - 3) as nat);
        let k = pow2((e1 - 3) as nat);
        assert(h == 8 * k);
        lemma_mod_multiples_basic(k as int, 8);
    }
}

/// The parent of a shard has a prefix one bit shorter.
pub proof fn law_merge_prefix_len(p: u64)
    requires
        p & 7 == 0,
        p != 0,
        p != SHARD_FULL,
    ensures
        prefix_len_of(parent_prefix(p)) + 1 == prefix_len_of(p),
{
    law_merge_then_split(p);
    law_split_prefix_len(parent_prefix(p));
}

/// For nonzero prefixes, one shard is an ancestor of another exactly when its prefix is no
/// longer and the other's prefix starts with it.
pub proof fn law_ancestor_by_prefix_len(p: u64, c: u64)
    requires
        p != 0,
        c != 0,
    ensures
        is_ancestor_prefix(p, c) == (prefix_len_of(p) <= prefix_len_of(c) && covers(p, c)),
{
    lemma_lowest_bit_order(p, c);
}

/// The sibling of the sibling of a shard is the shard itself.
pub proof fn law_sibling_involution(p: u64)
    ensures
        sibling_prefix(sibling_prefix(p)) == p,
{
    lemma_lowest_bit(p);
    let q = sibling_prefix(p);
    lemma_lowest_bit(q);
    assert(q == p ^ ((p & ((!p + 1) as u64)) << 1u64));
    assert(q == p ^ ((p & ((!p + 1) as u64)) << 1u64)
        ==> q ^ ((q & ((!q + 1) as u64)) << 1u64) == p) by (bit_vector);
}

/// A shard and its sibling have prefixes of the same length and the same parent; the sibling
/// differs from the shard unless the shard covers its whole workchain.
pub proof fn law_sibling_same_parent(p: u64)
    requires
        p != 0,
    ensures
        prefix_len_of(sibling_prefix(p)) == prefix_len_of(p),
        parent_prefix(sibling_prefix(p)) == parent_prefix(p),
        (sibling_prefix(p) == p) == (p == SHARD_FULL),
{
    lemma_lowest_bit(p);
    let q = sibling_prefix(p);
    lemma_lowest_bit(q);
    let b = p & ((!p + 1) as u64);
    let c = q & ((!q + 1) as u64);
    assert(p != 0 && b == p & ((!p + 1) as u64) && q == p ^ (b << 1u64) && c == q & ((!q + 1) as u64)
        ==> {
            &&& c == b
            &&& q != 0
            &&& ((q - c) as u64) | (c << 1u64) == ((p - b) as u64) | (b << 1u64)
            &&& (q == p) == (p == 0x8000_0000_0000_0000u64)
        }) by (bit_vector);
    lemma_lowest_bit_order(p, q);
}

/// A shard that is an ancestor of another covers every address the other covers.
pub proof fn law_ancestor_covers(x: u64, y: u64, a: u64)
    requires
        y != 0,
        is_ancestor_prefix(x, y),
        covers(y, a),
    ensures
        covers(x, a),
{
    lemma_lowest_bit(x);
    lemma_lowest_bit(y);
    let bx = x & ((!x + 1) as u64);
    let by_ = y & ((!y + 1) as u64);
    assert(y != 0 && bx == x & ((!x + 1) as u64) && by_ == y & ((!y + 1) as u64) && bx >= by_
        && (x ^ y) & (((!bx + 1) as u64) << 1u64) == 0
        && (y ^ a) & (((!by_ + 1) as u64) << 1u64) == 0
        ==> (x ^ a) & (((!bx + 1) as u64) << 1u64) == 0) by (bit_vector);
}

/// Every shard is an ancestor of itself.
pub proof fn law_ancestor_reflexive(p: u64)
    ensures
        is_ancestor_prefix(p, p),
{
    lemma_lowest_bit(p);
    let m = bits_above(lowest_bit(p));
    assert((p ^ p) & m == 0) by (bit_vector);
}

/// Being an ancestor is transitive.
pub proof fn law_ancestor_transitive(x: u64, y: u64, z: u64)
    requires
        y != 0,
        is_ancestor_prefix(x, y),
        is_ancestor_prefix(y, z),
    ensures
        is_ancestor_prefix(x, z),
{
    law_ancestor_covers(x, y, z);
}

/// Two shards overlap exactly when one of them is an ancestor of the other; overlapping is symmetric.
pub proof fn law_intersect_is_ancestry(x: u64, y: u64)
    ensures
        prefixes_intersect(x, y) == (is_ancestor_prefix(x, y) || is_ancestor_prefix(y, x)),
        prefixes_intersect(x, y) == prefixes_intersect(y, x),
{
    lemma_lowest_bit(x);
    lemma_lowest_bit(y);
    let bx = x & ((!x + 1) as u64);
    let by_ = y & ((!y + 1) as u64);
    assert(bx == x & ((!x + 1) as u64) && by_ == y & ((!y + 1) as u64) && bx == by_
        ==> ((x ^ y) & (((!bx + 1) as u64) << 1u64) == 0) == ((y ^ x) & (((!by_ + 1) as u64) << 1u64) == 0)) by (bit_vector);
    assert(bx == x & ((!x + 1) as u64) && by_ == y & ((!y + 1) as u64) && bx > by_
        ==> !((y ^ x) & (((!by_ + 1) as u64) << 1u64) == 0 && by_ >= bx)) by (bit_vector);
}

/// A parent is an ancestor of its child.
pub proof fn law_parent_is_ancestor(c: u64)
    requires
        c != 0,
        c != SHARD_FULL,
    ensures
        is_ancestor_prefix(parent_prefix(c), c),
{
    lemma_lowest_bit(c);
    let b = c & ((!c + 1) as u64);
    assert(b <= c) by (bit_vector)
        requires b == c & ((!c + 1) as u64);
    let m = parent_prefix(c);
    lemma_lowest_bit(m);
    assert(c != 0 && c != 0x8000_0000_0000_0000u64 && b == c & ((!c + 1) as u64)
        && m == ((c - b) as u64) | (b << 1u64)
        ==> (m & ((!m + 1) as u64)) >= b
            && (m ^ c) & ((((!(m & ((!m + 1) as u64))) + 1) as u64) << 1u64) == 0) by (bit_vector);
}

/// The tagged prefix made of the first `len` bits of `p` followed by the tag.
pub open spec fn tagged_prefix(p: u64, len: nat) -> u64 {
    choose|r: u64| is_tagged_with_len(r, p, len)
}

/// One tagged prefix only has a given tag position and given bits above it.
pub proof fn lemma_tagged_unique(r: u64, p: u64, len: nat)
    requires
        is_tagged_with_len(r, p, len),
    ensures
        tagged_prefix(p, len) == r,
{
    let c = tagged_prefix(p, len);
    assert(is_tagged_with_len(c, p, len));
    lemma_lowest_bit(r);
    lemma_lowest_bit(c);
    let b = 1u64 << ((63 - len) as u64);
    assert(r & ((!r + 1) as u64) == b && c & ((!c + 1) as u64) == b && (r ^ p) & (((!b + 1) as u64) << 1u64) == 0
        && (c ^ p) & (((!b + 1) as u64) << 1u64) == 0 && b != 0 ==> r == c) by (bit_vector);
    assert(len <= 63 ==> 1u64 << ((63 - len) as u64) != 0) by {
        let t = (63 - len) as u64;
        assert(t < 64 ==> 1u64 << t != 0) by (bit_vector);
    }
}

/// A tagged prefix of at most 63 bits is its own untagged prefix tagged again.
pub proof fn lemma_retag(p: u64)
    requires
        p != 0,
    ensures
        prefix_len_of(p) <= 63,
        is_tagged_with_len(p, (p - lowest_bit(p)) as u64, prefix_len_of(p)),
        tagged_prefix((p - lowest_bit(p)) as u64, prefix_len_of(p)) == p,
{
    lemma_lowest_bit(p);
    lemma_word(p);
    axiom_u64_trailing_zeros(p);
    let b = lowest_bit(p);
    assert(p & ((!p + 1) as u64) == b && b <= p ==> (p ^ ((p - b) as u64)) & (((!b + 1) as u64) << 1u64) == 0) by (bit_vector);
    lemma_tagged_unique(p, (p - lowest_bit(p)) as u64, prefix_len_of(p));
}

/// The shard of workchain `workchain_id` with tagged prefix `prefix`.
pub closed spec fn shard_of(workchain_id: i32, prefix: u64) -> ShardIdent {
    ShardIdent { workchain_id, prefix }
}

/// A shard is given by its workchain and tagged prefix.
pub proof fn lemma_shard_of(s: ShardIdent, workchain_id: i32, prefix: u64)
    ensures
        shard_of(workchain_id, prefix)@ == (workchain_id, prefix),
        s@ == (workchain_id, prefix) ==> s == shard_of(workchain_id, prefix),
{
}

impl ShardIdent {
    /// The text form `workchain:shard`, the tagged prefix as 16 lowercase hexadecimal digits.
    pub fn to_text(&self) -> (r: String)
        ensures
            r@ == signed_dec_chars(self@.0 as int) + seq![':'] + hex16(self@.1),
    {
        let mut out = String::new();
        push_signed_decimal(&mut out, self.workchain_id);
        out.append(":");
        proof {
            reveal_strlit(":");
        }
        let prefix = self.shard_prefix_as_str_with_tag();
        out.append(prefix.as_str());
        proof {
            assert(out@ =~= signed_dec_chars(self@.0 as int) + seq![':'] + hex16(self@.1));
        }
        out
    }
}

impl AccountIdPrefixFull {
    /// The text form `workchain:prefix`, the prefix as 16 uppercase hexadecimal digits.
    pub fn to_text(&self) -> (r: String)
        ensures
            r@ == signed_dec_chars(self.workchain_id as int) + seq![':'] + upper_hex16(self.prefix),
    {
        let mut out = String::new();
        push_signed_decimal(&mut out, self.workchain_id);
        out.append(":");
        proof {
            reveal_strlit(":");
        }
        push_upper_hex16(&mut out, self.prefix);
        proof {
            assert(out@ =~= signed_dec_chars(self.workchain_id as int) + seq![':'] + upper_hex16(self.prefix));
        }
        out
    }
}

} // verus!
