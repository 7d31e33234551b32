use vstd::prelude::*;

use crate::blocks::{BlockIdExt, BlockInfo, ExtBlkRef, ValueFlow};
use crate::copyleft::CopyleftRewards;
use crate::messages::CurrencyCollection;
use crate::shard::ShardIdent;
use crate::text::{push_signed_decimal, push_upper_hex16, signed_dec_chars, upper_hex16};
use crate::types::UInt256;

verus! {

/// Shard identifier with its workchain, the prefix carrying its terminating tag bit.
#[derive(Clone, Copy, Debug, Default)]
pub struct ShardIdentFull {
    pub workchain_id: i32,
    pub prefix: u64,
}

/// Augmentation of the old masterchain blocks dictionary: whether a key block is below,
/// and the largest end logical time below (`_ key:Bool max_end_lt:uint64 = KeyMaxLt`).
#[derive(Clone, Copy, Debug, Default, PartialEq, Eq)]
pub struct KeyMaxLt {
    pub key: bool,
    pub max_end_lt: u64,
}

impl KeyMaxLt {
    /// No key block, end logical time zero.
    pub fn new() -> (r: KeyMaxLt)
        ensures
            !r.key,
            r.max_end_lt == 0,
    {
        KeyMaxLt { key: false, max_end_lt: 0 }
    }

    /// Merges the augmentation of a neighbouring subtree into this one.
    pub fn calc(&mut self, other: &Self) -> (r: bool)
        ensures
            r,
            *final(self) == key_max_lt_join(*old(self), *other),
    {
        if other.key {
            self.key = true;
        }
        if self.max_end_lt < other.max_end_lt {
            self.max_end_lt = other.max_end_lt;
        }
        true
    }
}

/// The merge of two augmentations: a key block below either, the larger end time.
pub open spec fn key_max_lt_join(a: KeyMaxLt, b: KeyMaxLt) -> KeyMaxLt {
    KeyMaxLt {
        key: a.key || b.key,
        max_end_lt: if a.max_end_lt < b.max_end_lt { b.max_end_lt } else { a.max_end_lt },
    }
}

/// Merging augmentations does not depend on the order of the subtrees, nor on how they are
/// grouped, and merging one with itself changes nothing.
pub proof fn law_key_max_lt_join(a: KeyMaxLt, b: KeyMaxLt, c: KeyMaxLt)
    ensures
        key_max_lt_join(a, b) == key_max_lt_join(b, a),
        key_max_lt_join(key_max_lt_join(a, b), c) == key_max_lt_join(a, key_max_lt_join(b, c)),
        key_max_lt_join(a, a) == a,
{
}

/// Reference to an old masterchain block, with whether it is a key block
/// (`_ key:Bool blk_ref:ExtBlkRef = KeyExtBlkRef`).
#[derive(Clone, Copy, Debug, Default, PartialEq, Eq)]
pub struct KeyExtBlkRef {
    pub key: bool,
    pub blk_ref: ExtBlkRef,
}

impl KeyExtBlkRef {
    /// Whether the block is a key block.
    pub fn key(&self) -> (r: bool)
        ensures
            r == self.key,
    {
        self.key
    }

    /// The block reference.
    pub fn blk_ref(&self) -> (r: &ExtBlkRef)
        ensures
            *r == self.blk_ref,
    {
        &self.blk_ref
    }

    /// End logical time, masterchain block identifier and key flag.
    pub fn master_block_id(self) -> (r: (u64, BlockIdExt, bool))
        ensures
            r.0 == self.blk_ref.end_lt,
            r.1.shard_id@ == (crate::shard::MASTERCHAIN_ID, crate::shard::SHARD_FULL),
            r.1.seq_no == self.blk_ref.seq_no,
            r.1.root_hash == self.blk_ref.root_hash,
            r.1.file_hash == self.blk_ref.file_hash,
            r.2 == self.key,
    {
        (self.blk_ref.end_lt, BlockIdExt::from_ext_blk(self.blk_ref), self.key)
    }
}

/// Fees collected and currency created in a shard
/// (`_ fees:CurrencyCollection create:CurrencyCollection = ShardFeeCreated`).
#[derive(Debug, PartialEq, Eq)]
pub struct ShardFeeCreated {
    pub fees: CurrencyCollection,
    pub create: CurrencyCollection,
}

impl ShardFeeCreated {
    /// Nothing collected, nothing created.
    pub fn new() -> (r: ShardFeeCreated)
        ensures
            r.fees.grams@ == 0,
            r.fees.other@ == Map::<u32, nat>::empty(),
            r.create.grams@ == 0,
            r.create.other@ == Map::<u32, nat>::empty(),
    {
        ShardFeeCreated { fees: CurrencyCollection::new(), create: CurrencyCollection::new() }
    }

    /// The given fees, nothing created.
    pub fn with_fee(fees: CurrencyCollection) -> (r: Self)
        ensures
            r.fees == fees,
            r.create.grams@ == 0,
            r.create.other@ == Map::<u32, nat>::empty(),
    {
        ShardFeeCreated { fees, create: CurrencyCollection::new() }
    }
}

/// The fields of a block-creation counter.
pub struct CountersView {
    pub last_updated: u32,
    pub total: u64,
    pub cnt2048: u64,
    pub cnt65536: u64,
}

/// Block-creation counters: the time of the last update, the total count, and two
/// exponentially decaying counts scaled by 2^32
/// (`counters#_ last_updated:uint32 total:uint64 cnt2048:uint64 cnt65536:uint64 = Counters`).
#[derive(Clone, Copy, Debug, PartialEq, Eq)]
pub struct Counters {
    last_updated: u32,
    total: u64,
    cnt2048: u64,
    cnt65536: u64,
}

impl View for Counters {
    type V = CountersView;

    closed spec fn view(&self) -> CountersView {
        CountersView {
            last_updated: self.last_updated,
            total: self.total,
            cnt2048: self.cnt2048,
            cnt65536: self.cnt65536,
        }
    }
}

impl Default for Counters {
    /// Nothing counted, never updated.
    fn default() -> (r: Self)
        ensures
            r@ == (CountersView { last_updated: 0, total: 0, cnt2048: 0, cnt65536: 0 }),
            counters_valid(r@),
    {
        Counters { last_updated: 0, total: 0, cnt2048: 0, cnt65536: 0 }
    }
}

/// Counters are consistent: with no block counted the decaying counts are zero, and
/// once a block is counted the update time is set.
pub open spec fn counters_valid(c: CountersView) -> bool {
    if c.total == 0 {
        c.cnt2048 == 0 && c.cnt65536 == 0
    } else {
        c.last_updated != 0
    }
}

/// `count` in the scale of the decaying counts: its low 32 bits shifted up by 32.
pub open spec fn scaled_count(count: u64) -> int {
    (count % 0x1_0000_0000) * 0x1_0000_0000
}

/// Whether `count` blocks can be added to the counters: they are consistent and, unless
/// nothing was counted yet, neither the total nor a decaying count can overflow.
pub open spec fn increase_succeeds(c: CountersView, count: u64) -> bool {
    &&& counters_valid(c)
    &&& c.total == 0 || (c.total + count <= u64::MAX && c.cnt2048 + scaled_count(count) <= u64::MAX
        && c.cnt65536 + scaled_count(count) <= u64::MAX)
}

/// Seconds since the last update, zero when `now` is not later.
pub open spec fn elapsed(c: CountersView, now: u32) -> int {
    if now >= c.last_updated {
        now - c.last_updated
    } else {
        0
    }
}

/// Age from which the 2048-second count has decayed to zero: 48 * 2048 seconds.
pub const DECAY_2048_LIMIT: u32 = 98304;

/// The counters after adding `count` blocks at time `now`, given the decayed values of the
/// two counts (`decayed2048`, `decayed65536`), which are used when some time has passed.
pub open spec fn increased(
    c: CountersView,
    count: u64,
    now: u32,
    decayed2048: u64,
    decayed65536: u64,
) -> CountersView {
    if c.total == 0 {
        CountersView {
            last_updated: now,
            total: count,
            cnt2048: scaled_count(count) as u64,
            cnt65536: scaled_count(count) as u64,
        }
    } else {
        let dt = elapsed(c, now);
        let c2048: int = if dt == 0 {
            c.cnt2048 as int
        } else if dt >= DECAY_2048_LIMIT {
            0
        } else {
            decayed2048 as int
        };
        let c65536: int = if dt == 0 {
            c.cnt65536 as int
        } else {
            decayed65536 as int
        };
        CountersView {
            last_updated: now,
            total: (c.total + count) as u64,
            cnt2048: (c2048 + scaled_count(count)) as u64,
            cnt65536: (c65536 + scaled_count(count)) as u64,
        }
    }
}

impl Counters {
    /// Whether the counters are consistent.
    pub fn is_valid(&self) -> (r: bool)
        ensures
            r == counters_valid(self@),
    {
        let a = self.cnt2048;
        let b = self.cnt65536;
        assert((a | b) != 0 <==> (a != 0 || b != 0)) by (bit_vector);
        if self.total == 0 {
            if (self.cnt2048 | self.cnt65536) != 0 {
                return false;
            }
        } else if self.last_updated == 0 {
            return false;
        }
        true
    }

    /// Whether no block was counted.
    pub fn is_zero(&self) -> (r: bool)
        ensures
            r == (self@.total == 0),
    {
        self.total == 0
    }

    /// Whether both decaying counts are at most one.
    pub fn almost_zero(&self) -> (r: bool)
        ensures
            r == (self@.cnt2048 <= 1 && self@.cnt65536 <= 1),
    {
        let a = self.cnt2048;
        let b = self.cnt65536;
        assert((a | b) <= 1 <==> (a <= 1 && b <= 1)) by (bit_vector);
        (self.cnt2048 | self.cnt65536) <= 1
    }

    /// Same update time and total, decaying counts within one of each other.
    pub fn almost_equals(&self, other: &Self) -> (r: bool)
        requires
            self@.cnt2048 < u64::MAX,
            self@.cnt65536 < u64::MAX,
            other@.cnt2048 < u64::MAX,
            other@.cnt65536 < u64::MAX,
        ensures
            r == counters_almost_equal(self@, other@),
    {
        self.last_updated == other.last_updated && self.total == other.total && self.cnt2048
            <= other.cnt2048 + 1 && other.cnt2048 <= self.cnt2048 + 1 && self.cnt65536
            <= other.cnt65536 + 1 && other.cnt65536 <= self.cnt65536 + 1
    }

    /// Whether the counters were updated at `utime` or later.
    pub fn modified_since(&self, utime: u32) -> (r: bool)
        ensures
            r == (self@.last_updated >= utime),
    {
        self.last_updated >= utime
    }

    /// The arguments for the exponential decay of the two counts at time `now`:
    /// for the 2048-second count `dt * 32`, unless no time has passed or the count has
    /// decayed to zero; for the 65536-second count `dt`, unless no time has passed.
    pub fn decay_exponents(&self, now: u32) -> (r: (Option<u32>, Option<u32>))
        ensures
            r.0 == (if elapsed(self@, now) != 0 && elapsed(self@, now) < DECAY_2048_LIMIT {
                Some((elapsed(self@, now) * 32) as u32)
            } else {
                None::<u32>
            }),
            r.1 == (if elapsed(self@, now) != 0 {
                Some(elapsed(self@, now) as u32)
            } else {
                None::<u32>
            }),
    {
        let dt: u32 = if now >= self.last_updated {
            now - self.last_updated
        } else {
            0
        };
        let k2048 = if dt != 0 && dt < DECAY_2048_LIMIT {
            Some(dt * 32)
        } else {
            None
        };
        let k65536 = if dt != 0 {
            Some(dt)
        } else {
            None
        };
        (k2048, k65536)
    }

    /// Counts `count` new blocks at time `now`. The decaying counts first decay over the
    /// time since the last update, to the values `decayed2048` and `decayed65536` that the
    /// caller computed from `decay_exponents`; then the scaled count is added to both.
    /// Returns false, changing nothing, when the counters are inconsistent or would overflow.
    pub fn increase_by_decayed(
        &mut self,
        count: u64,
        now: u32,
        decayed2048: u64,
        decayed65536: u64,
    ) -> (r: bool)
        requires
            decayed2048 <= old(self)@.cnt2048,
            decayed65536 <= old(self)@.cnt65536,
        ensures
            r == increase_succeeds(old(self)@, count),
            r ==> final(self)@ == increased(old(self)@, count, now, decayed2048, decayed65536),
            !r ==> *final(self) == *old(self),
    {
        if !self.is_valid() {
            return false;
        }
        let scaled: u64 = count << 32u64;
        assert(scaled == scaled_count(count)) by {
            assert((count << 32u64) == (count % 0x1_0000_0000) * 0x1_0000_0000) by (bit_vector);
        }
        if self.total == 0 {
            self.last_updated = now;
            self.total = count;
            self.cnt2048 = scaled;
            self.cnt65536 = scaled;
            return true;
        }
        if count > u64::MAX - self.total || self.cnt2048 > u64::MAX - scaled || self.cnt65536
            > u64::MAX - scaled {
            return false;
        }
        let dt: u32 = if now >= self.last_updated {
            now - self.last_updated
        } else {
            0
        };
        if dt != 0 {
            self.cnt2048 = if dt >= DECAY_2048_LIMIT {
                0
            } else {
                decayed2048
            };
            self.cnt65536 = decayed65536;
        }
        self.total = self.total + count;
        self.cnt2048 = self.cnt2048 + scaled;
        self.cnt65536 = self.cnt65536 + scaled;
        self.last_updated = now;
        true
    }

    /// Total number of blocks counted.
    pub fn total(&self) -> (r: u64)
        ensures
            r == self@.total,
    {
        self.total
    }

    /// Time of the last update.
    pub fn last_updated(&self) -> (r: u32)
        ensures
            r == self@.last_updated,
    {
        self.last_updated
    }

    /// The count decaying over 2048 seconds, scaled by 2^32.
    pub fn cnt2048(&self) -> (r: u64)
        ensures
            r == self@.cnt2048,
    {
        self.cnt2048
    }

    /// The count decaying over 65536 seconds, scaled by 2^32.
    pub fn cnt65536(&self) -> (r: u64)
        ensures
            r == self@.cnt65536,
    {
        self.cnt65536
    }
}

/// Same update time and total, decaying counts within one of each other.
pub open spec fn counters_almost_equal(a: CountersView, b: CountersView) -> bool {
    &&& a.last_updated == b.last_updated
    &&& a.total == b.total
    &&& a.cnt2048 <= b.cnt2048 + 1 && b.cnt2048 <= a.cnt2048 + 1
    &&& a.cnt65536 <= b.cnt65536 + 1 && b.cnt65536 <= a.cnt65536 + 1
}

/// Counting blocks keeps consistent counters consistent, as long as the time of the update
/// is a set time (a count at time zero would leave a nonzero total with no update time).
/// A successful count adds exactly `count` to the total and records `now`.
pub proof fn law_increase_keeps_valid(
    c: CountersView,
    count: u64,
    now: u32,
    decayed2048: u64,
    decayed65536: u64,
)
    requires
        increase_succeeds(c, count),
        decayed2048 <= c.cnt2048,
        decayed65536 <= c.cnt65536,
        now != 0,
    ensures
        counters_valid(increased(c, count, now, decayed2048, decayed65536)),
        increased(c, count, now, decayed2048, decayed65536).total == c.total + count,
        increased(c, count, now, decayed2048, decayed65536).last_updated == now,
{
}

/// Being almost equal is reflexive and symmetric, and counters with nothing counted are
/// almost zero when consistent.
pub proof fn law_almost_equal(a: CountersView, b: CountersView)
    ensures
        counters_almost_equal(a, a),
        counters_almost_equal(a, b) == counters_almost_equal(b, a),
        counters_valid(a) && a.total == 0 ==> a.cnt2048 <= 1 && a.cnt65536 <= 1,
{
}

/// Block-creation statistics of one validator (`creator_info#4 mc_blocks:Counters
/// shard_blocks:Counters = CreatorStats`).
#[derive(Clone, Copy, Debug, Default, PartialEq, Eq)]
pub struct CreatorStats {
    pub mc_blocks: Counters,
    pub shard_blocks: Counters,
}

impl CreatorStats {
    /// Constructor tag.
    pub fn tag() -> (r: u32)
        ensures
            r == 4,
    {
        0x4
    }

    /// Length of the constructor tag in bits.
    pub fn tag_len_bits() -> (r: usize)
        ensures
            r == 4,
    {
        4
    }

    /// Counters of masterchain blocks.
    pub fn mc_blocks(&self) -> (r: &Counters)
        ensures
            *r == self.mc_blocks,
    {
        &self.mc_blocks
    }

    /// Counters of shardchain blocks.
    pub fn shard_blocks(&self) -> (r: &Counters)
        ensures
            *r == self.shard_blocks,
    {
        &self.shard_blocks
    }
}

/// Block-creation statistics by validator key
/// (`block_create_stats#17 counters:(HashmapE 256 CreatorStats) = BlockCreateStats`).
#[derive(Clone, Debug, Default)]
pub struct BlockCreateStats {
    pub counters: Vec<(UInt256, CreatorStats)>,
}

impl BlockCreateStats {
    /// Constructor tag.
    pub fn tag() -> (r: u32)
        ensures
            r == 0x17,
    {
        0x17
    }

    /// Length of the constructor tag in bits.
    pub fn tag_len_bits() -> (r: usize)
        ensures
            r == 8,
    {
        8
    }
}

/// A planned split or merge of a shard.
#[derive(Clone, Copy, Debug, PartialEq, Eq)]
pub enum FutureSplitMerge {
    Unplanned,
    Split { split_utime: u32, interval: u32 },
    Merge { merge_utime: u32, interval: u32 },
}

impl Default for FutureSplitMerge {
    fn default() -> (r: Self)
        ensures
            r == FutureSplitMerge::Unplanned,
    {
        FutureSplitMerge::Unplanned
    }
}

/// Whether two planned splits or merges are the same plan.
fn same_plan(a: &FutureSplitMerge, b: &FutureSplitMerge) -> (r: bool)
    ensures
        r == (*a == *b),
{
    match (a, b) {
        (FutureSplitMerge::Unplanned, FutureSplitMerge::Unplanned) => true,
        (
            FutureSplitMerge::Split { split_utime: t1, interval: i1 },
            FutureSplitMerge::Split { split_utime: t2, interval: i2 },
        ) => *t1 == *t2 && *i1 == *i2,
        (
            FutureSplitMerge::Merge { merge_utime: t1, interval: i1 },
            FutureSplitMerge::Merge { merge_utime: t2, interval: i2 },
        ) => *t1 == *t2 && *i1 == *i2,
        _ => false,
    }
}

/// Description of the latest block of a shard, as the masterchain keeps it.
#[derive(Clone, Debug)]
pub struct ShardDescr {
    pub seq_no: u32,
    pub reg_mc_seqno: u32,
    pub start_lt: u64,
    pub end_lt: u64,
    pub root_hash: UInt256,
    pub file_hash: UInt256,
    pub before_split: bool,
    pub before_merge: bool,
    pub want_split: bool,
    pub want_merge: bool,
    pub nx_cc_updated: bool,
    pub flags: u8,
    pub next_catchain_seqno: u32,
    pub next_validator_shard: u64,
    pub min_ref_mc_seqno: u32,
    pub gen_utime: u32,
    pub split_merge_at: FutureSplitMerge,
    pub fees_collected: CurrencyCollection,
    pub funds_created: CurrencyCollection,
    pub copyleft_rewards: CopyleftRewards,
}

impl ShardDescr {
    /// The description of block `seq_no` with the given logical times, root hash and plan;
    /// every other field zero, false or empty.
    pub fn with_params(
        seq_no: u32,
        start_lt: u64,
        end_lt: u64,
        root_hash: UInt256,
        split_merge_at: FutureSplitMerge,
    ) -> (r: Self)
        ensures
            r.seq_no == seq_no && r.start_lt == start_lt && r.end_lt == end_lt && r.root_hash == root_hash,
            r.split_merge_at == split_merge_at,
            r.reg_mc_seqno == 0 && r.file_hash@ == Seq::new(32, |i: int| 0u8),
            !r.before_split && !r.before_merge && !r.want_split && !r.want_merge && !r.nx_cc_updated,
            r.flags == 0 && r.next_catchain_seqno == 0 && r.next_validator_shard == 0,
            r.min_ref_mc_seqno == 0 && r.gen_utime == 0,
            r.fees_collected.grams@ == 0 && r.fees_collected.other@ == Map::<u32, nat>::empty(),
            r.funds_created.grams@ == 0 && r.funds_created.other@ == Map::<u32, nat>::empty(),
            r.copyleft_rewards@ == Map::<UInt256, nat>::empty(),
    {
        ShardDescr {
            seq_no,
            reg_mc_seqno: 0,
            start_lt,
            end_lt,
            root_hash,
            file_hash: UInt256::new(),
            before_split: false,
            before_merge: false,
            want_split: false,
            want_merge: false,
            nx_cc_updated: false,
            flags: 0,
            next_catchain_seqno: 0,
            next_validator_shard: 0,
            min_ref_mc_seqno: 0,
            gen_utime: 0,
            split_merge_at,
            fees_collected: CurrencyCollection::new(),
            funds_created: CurrencyCollection::new(),
            copyleft_rewards: CopyleftRewards::default(),
        }
    }

    /// Whether both descriptions plan the same split or merge.
    pub fn fsm_equal(&self, other: &Self) -> (r: bool)
        ensures
            r == (self.split_merge_at == other.split_merge_at),
    {
        same_plan(&self.split_merge_at, &other.split_merge_at)
    }

    /// Whether a merge is planned.
    pub fn is_fsm_merge(&self) -> (r: bool)
        ensures
            r == (self.split_merge_at is Merge),
    {
        matches!(self.split_merge_at, FutureSplitMerge::Merge { .. })
    }

    /// Whether a split is planned.
    pub fn is_fsm_split(&self) -> (r: bool)
        ensures
            r == (self.split_merge_at is Split),
    {
        matches!(self.split_merge_at, FutureSplitMerge::Split { .. })
    }

    /// Whether nothing is planned.
    pub fn is_fsm_none(&self) -> (r: bool)
        ensures
            r == (self.split_merge_at is Unplanned),
    {
        matches!(self.split_merge_at, FutureSplitMerge::Unplanned)
    }

    /// When the planned split or merge starts (zero when none is planned).
    pub fn fsm_utime(&self) -> (r: u32)
        ensures
            r == match self.split_merge_at {
                FutureSplitMerge::Split { split_utime, .. } => split_utime,
                FutureSplitMerge::Merge { merge_utime, .. } => merge_utime,
                FutureSplitMerge::Unplanned => 0,
            },
    {
        match self.split_merge_at {
            FutureSplitMerge::Split { split_utime, .. } => split_utime,
            FutureSplitMerge::Merge { merge_utime, .. } => merge_utime,
            FutureSplitMerge::Unplanned => 0,
        }
    }

    /// When the planned split or merge ends: its start plus its interval (zero when none is
    /// planned).
    pub fn fsm_utime_end(&self) -> (r: u32)
        requires
            match self.split_merge_at {
                FutureSplitMerge::Split { split_utime, interval } => split_utime + interval <= u32::MAX,
                FutureSplitMerge::Merge { merge_utime, interval } => merge_utime + interval <= u32::MAX,
                FutureSplitMerge::Unplanned => true,
            },
        ensures
            r == match self.split_merge_at {
                FutureSplitMerge::Split { split_utime, interval } => split_utime + interval,
                FutureSplitMerge::Merge { merge_utime, interval } => merge_utime + interval,
                FutureSplitMerge::Unplanned => 0,
            },
    {
        match self.split_merge_at {
            FutureSplitMerge::Split { split_utime, interval } => split_utime + interval,
            FutureSplitMerge::Merge { merge_utime, interval } => merge_utime + interval,
            FutureSplitMerge::Unplanned => 0,
        }
    }

    /// The interval of the planned split or merge (zero when none is planned).
    pub fn fsm_interval(&self) -> (r: u32)
        ensures
            r == match self.split_merge_at {
                FutureSplitMerge::Split { interval, .. } => interval,
                FutureSplitMerge::Merge { interval, .. } => interval,
                FutureSplitMerge::Unplanned => 0,
            },
    {
        match self.split_merge_at {
            FutureSplitMerge::Split { interval, .. } => interval,
            FutureSplitMerge::Merge { interval, .. } => interval,
            FutureSplitMerge::Unplanned => 0,
        }
    }
}

/// A shard's latest block as the masterchain records it: its description and its identifier.
#[derive(Clone, Debug)]
pub struct McShardRecord {
    pub descr: ShardDescr,
    pub block_id: BlockIdExt,
}

impl McShardRecord {
    /// The record of the block that `descr` describes in `shard`.
    pub fn from_shard_descr(shard: ShardIdent, descr: ShardDescr) -> (r: Self)
        ensures
            r.block_id.shard_id == shard,
            r.block_id.seq_no == descr.seq_no,
            r.block_id.root_hash == descr.root_hash,
            r.block_id.file_hash == descr.file_hash,
            r.descr.seq_no == descr.seq_no && r.descr.root_hash == descr.root_hash && r.descr.file_hash
                == descr.file_hash && r.descr.start_lt == descr.start_lt && r.descr.end_lt == descr.end_lt,
            r.descr.split_merge_at == descr.split_merge_at && r.descr.reg_mc_seqno == descr.reg_mc_seqno,
            r.descr.gen_utime == descr.gen_utime && r.descr.min_ref_mc_seqno == descr.min_ref_mc_seqno,
            r.descr.flags == descr.flags && r.descr.next_catchain_seqno == descr.next_catchain_seqno
                && r.descr.next_validator_shard == descr.next_validator_shard,
            r.descr.before_split == descr.before_split && r.descr.before_merge == descr.before_merge
                && r.descr.want_split == descr.want_split && r.descr.want_merge == descr.want_merge
                && r.descr.nx_cc_updated == descr.nx_cc_updated,
            r.descr.fees_collected.grams == descr.fees_collected.grams && r.descr.fees_collected.other@
                == descr.fees_collected.other@,
            r.descr.funds_created.grams == descr.funds_created.grams && r.descr.funds_created.other@
                == descr.funds_created.other@,
            r.descr.copyleft_rewards@ == descr.copyleft_rewards@,
    {
        let block_id = BlockIdExt::with_params(shard, descr.seq_no, descr.root_hash, descr.file_hash);
        McShardRecord { descr, block_id }
    }

    /// The record of a block from its header, its value flow and its identifier: the fields
    /// that the header and the flow give, and the registration sequence number `0xffffffff`.
    pub fn from_block_info(info: &BlockInfo, value_flow: ValueFlow, block_id: BlockIdExt) -> (r: Self)
        ensures
            r.block_id == block_id,
            r.descr.seq_no == info@.seq_no && r.descr.reg_mc_seqno == 0xffff_ffff,
            r.descr.start_lt == info@.start_lt && r.descr.end_lt == info@.end_lt,
            r.descr.root_hash == block_id.root_hash && r.descr.file_hash == block_id.file_hash,
            r.descr.before_split == info@.before_split && !r.descr.before_merge,
            r.descr.want_split == info@.want_split && r.descr.want_merge == info@.want_merge,
            !r.descr.nx_cc_updated && r.descr.flags == info@.flags & !7u8,
            r.descr.next_catchain_seqno == info@.gen_catchain_seqno,
            r.descr.next_validator_shard == info@.shard@.1,
            r.descr.min_ref_mc_seqno == info@.min_ref_mc_seqno,
            r.descr.gen_utime == info@.gen_utime@,
            r.descr.split_merge_at == FutureSplitMerge::Unplanned,
            r.descr.fees_collected == value_flow.fees_collected,
            r.descr.funds_created == value_flow.created,
            r.descr.copyleft_rewards == value_flow.copyleft_rewards,
    {
        let descr = ShardDescr {
            seq_no: info.seq_no(),
            reg_mc_seqno: 0xffff_ffff,
            start_lt: info.start_lt(),
            end_lt: info.end_lt(),
            root_hash: block_id.root_hash,
            file_hash: block_id.file_hash,
            before_split: info.before_split(),
            before_merge: false,
            want_split: info.want_split(),
            want_merge: info.want_merge(),
            nx_cc_updated: false,
            flags: info.flags() & !7u8,
            next_catchain_seqno: info.gen_catchain_seqno(),
            next_validator_shard: info.shard().shard_prefix_with_tag(),
            min_ref_mc_seqno: info.min_ref_mc_seqno(),
            gen_utime: info.gen_utime().as_u32(),
            split_merge_at: FutureSplitMerge::Unplanned,
            fees_collected: value_flow.fees_collected,
            funds_created: value_flow.created,
            copyleft_rewards: value_flow.copyleft_rewards,
        };
        McShardRecord { descr, block_id }
    }

    /// The shard.
    pub fn shard(&self) -> (r: &ShardIdent)
        ensures
            *r == self.block_id.shard_id,
    {
        &self.block_id.shard_id
    }

    /// The description.
    pub fn descr(&self) -> (r: &ShardDescr)
        ensures
            *r == self.descr,
    {
        &self.descr
    }

    /// The block identifier.
    pub fn blk_id(&self) -> (r: &BlockIdExt)
        ensures
            *r == self.block_id,
    {
        &self.block_id
    }

    /// The block identifier.
    pub fn block_id(&self) -> (r: &BlockIdExt)
        ensures
            *r == self.block_id,
    {
        &self.block_id
    }

    /// Whether both records agree on the block, its logical times, generation time, minimal
    /// masterchain reference, split and merge flags; and on the registration sequence number
    /// and on the fees, funds created and copyleft rewards when asked.
    pub fn basic_info_equal(&self, other: &Self, compare_fees: bool, compare_reg_seqno: bool) -> (r: bool)
        ensures
            r == (self.block_id == other.block_id && self.descr.start_lt == other.descr.start_lt
                && self.descr.end_lt == other.descr.end_lt && (!compare_reg_seqno || self.descr.reg_mc_seqno
                == other.descr.reg_mc_seqno) && self.descr.gen_utime == other.descr.gen_utime
                && self.descr.min_ref_mc_seqno == other.descr.min_ref_mc_seqno && self.descr.before_split
                == other.descr.before_split && self.descr.want_split == other.descr.want_split
                && self.descr.want_merge == other.descr.want_merge && (!compare_fees || (
            self.descr.fees_collected.grams@ == other.descr.fees_collected.grams@
                && self.descr.fees_collected.other@ == other.descr.fees_collected.other@
                && self.descr.funds_created.grams@ == other.descr.funds_created.grams@
                && self.descr.funds_created.other@ == other.descr.funds_created.other@
                && self.descr.copyleft_rewards@ == other.descr.copyleft_rewards@))),
    {
        self.block_id.equals(&other.block_id) && self.descr.start_lt == other.descr.start_lt && self.descr.end_lt
            == other.descr.end_lt && (!compare_reg_seqno || self.descr.reg_mc_seqno == other.descr.reg_mc_seqno)
            && self.descr.gen_utime == other.descr.gen_utime && self.descr.min_ref_mc_seqno
            == other.descr.min_ref_mc_seqno && self.descr.before_split == other.descr.before_split
            && self.descr.want_split == other.descr.want_split && self.descr.want_merge == other.descr.want_merge
            && (!compare_fees || (self.descr.fees_collected.equals(&other.descr.fees_collected)
            && self.descr.funds_created.equals(&other.descr.funds_created) && self.descr.copyleft_rewards.equals(
            &other.descr.copyleft_rewards,
        )))
    }
}

/// Reference to the masterchain block that a shardchain block refers to
/// (`master_info$_ master:ExtBlkRef = BlkMasterInfo`).
#[derive(Clone, Copy, Debug, Default, PartialEq, Eq)]
pub struct BlkMasterInfo {
    pub master: ExtBlkRef,
}

impl ShardIdentFull {
    /// The text form `workchain:prefix`, the prefix as 16 uppercase hexadecimal digits.
    pub fn to_text(&self) -> (r: String)
        ensures
            r@ == signed_dec_chars(self.workchain_id as int) + seq![':'] + upper_hex16(self.prefix),
    {
        let mut out = String::new();
        push_signed_decimal(&mut out, self.workchain_id);
        out.append(":");
        proof {
            reveal_strlit(":");
        }
        push_upper_hex16(&mut out, self.prefix);
        proof {
            assert(out@ =~= signed_dec_chars(self.workchain_id as int) + seq![':'] + upper_hex16(self.prefix));
        }
        out
    }
}

} // verus!
