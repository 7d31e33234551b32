use vstd::prelude::*;
use vstd::arithmetic::div_mod::lemma_fundamental_div_mod;

use crate::assoc::{assign, first_index, lemma_first_index, lookup};
use crate::blocks::GLOBAL_VERSION_TAG;
use crate::bytes::{be32, be32_at, be64, be64_at, get_u32, get_u64, lemma_be_roundtrip, push_u32, push_u64};
use crate::error::{message, BlockError};
use crate::messages::ExtraCurrencyCollection;
use crate::signature::{CryptoSignature, SigPubKey};
use crate::types::{ChildCell, Grams, Number12, Number16, Number32, UInt256, MAX_REFERENCES_COUNT};

verus! {

/// Capabilities that a global version may enable, each one bit of `capabilities`.
#[derive(Clone, Copy, Debug, PartialEq, Eq)]
pub enum GlobalCapabilities {
    CapNone,
    CapIhrEnabled,
    CapCreateStatsEnabled,
    CapBounceMsgBody,
    CapReportVersion,
    CapSplitMergeTransactions,
    CapShortDequeue,
    CapMbppEnabled,
    CapFastStorageStat,
    CapInitCodeHash,
    CapOffHypercube,
    CapMycode,
    CapSetLibCode,
    CapFixTupleIndexBug,
    CapRemp,
    CapDelections,
    CapFullBodyInBounced,
    CapStorageFeeToTvm,
    CapCopyleft,
    CapIndexAccounts,
    CapsTvmBugfixes2022,
    CapWorkchains,
    CapStcontNewFormat,
    CapFastStorageStatBugfix,
    CapResolveMerkleCell,
    CapBounceAfterFailedAction,
    CapFeeInGasUnits,
    CapBigCells,
    CapSuspendedList,
    CapFastFinality,
    CapTvmV19,
    CapSmft,
    CapCommonMessage,
}

/// The bit of `capabilities` that stands for a capability (none for `CapNone`).
pub open spec fn capability_bit(c: GlobalCapabilities) -> u64 {
    match c {
        GlobalCapabilities::CapNone => 0,
        GlobalCapabilities::CapIhrEnabled => 0x0000_0000_0001,
        GlobalCapabilities::CapCreateStatsEnabled => 0x0000_0000_0002,
        GlobalCapabilities::CapBounceMsgBody => 0x0000_0000_0004,
        GlobalCapabilities::CapReportVersion => 0x0000_0000_0008,
        GlobalCapabilities::CapSplitMergeTransactions => 0x0000_0000_0010,
        GlobalCapabilities::CapShortDequeue => 0x0000_0000_0020,
        GlobalCapabilities::CapMbppEnabled => 0x0000_0000_0040,
        GlobalCapabilities::CapFastStorageStat => 0x0000_0000_0080,
        GlobalCapabilities::CapInitCodeHash => 0x0000_0000_0100,
        GlobalCapabilities::CapOffHypercube => 0x0000_0000_0200,
        GlobalCapabilities::CapMycode => 0x0000_0000_0400,
        GlobalCapabilities::CapSetLibCode => 0x0000_0000_0800,
        GlobalCapabilities::CapFixTupleIndexBug => 0x0000_0000_1000,
        GlobalCapabilities::CapRemp => 0x0000_0000_2000,
        GlobalCapabilities::CapDelections => 0x0000_0000_4000,
        GlobalCapabilities::CapFullBodyInBounced => 0x0000_0001_0000,
        GlobalCapabilities::CapStorageFeeToTvm => 0x0000_0002_0000,
        GlobalCapabilities::CapCopyleft => 0x0000_0004_0000,
        GlobalCapabilities::CapIndexAccounts => 0x0000_0008_0000,
        GlobalCapabilities::CapsTvmBugfixes2022 => 0x0000_0020_0000,
        GlobalCapabilities::CapWorkchains => 0x0000_0040_0000,
        GlobalCapabilities::CapStcontNewFormat => 0x0000_0080_0000,
        GlobalCapabilities::CapFastStorageStatBugfix => 0x0000_0100_0000,
        GlobalCapabilities::CapResolveMerkleCell => 0x0000_0200_0000,
        GlobalCapabilities::CapBounceAfterFailedAction => 0x0000_0800_0000,
        GlobalCapabilities::CapFeeInGasUnits => 0x0000_2000_0000,
        GlobalCapabilities::CapBigCells => 0x0000_4000_0000,
        GlobalCapabilities::CapSuspendedList => 0x0000_8000_0000,
        GlobalCapabilities::CapFastFinality => 0x0001_0000_0000,
        GlobalCapabilities::CapTvmV19 => 0x0002_0000_0000,
        GlobalCapabilities::CapSmft => 0x0004_0000_0000,
        GlobalCapabilities::CapCommonMessage => 0x0008_0000_0000,
    }
}

impl GlobalCapabilities {
    /// The bit of `capabilities` that stands for this capability.
    pub fn bit(self) -> (r: u64)
        ensures
            r == capability_bit(self),
    {
        match self {
            GlobalCapabilities::CapNone => 0,
            GlobalCapabilities::CapIhrEnabled => 0x0000_0000_0001,
            GlobalCapabilities::CapCreateStatsEnabled => 0x0000_0000_0002,
            GlobalCapabilities::CapBounceMsgBody => 0x0000_0000_0004,
            GlobalCapabilities::CapReportVersion => 0x0000_0000_0008,
            GlobalCapabilities::CapSplitMergeTransactions => 0x0000_0000_0010,
            GlobalCapabilities::CapShortDequeue => 0x0000_0000_0020,
            GlobalCapabilities::CapMbppEnabled => 0x0000_0000_0040,
            GlobalCapabilities::CapFastStorageStat => 0x0000_0000_0080,
            GlobalCapabilities::CapInitCodeHash => 0x0000_0000_0100,
            GlobalCapabilities::CapOffHypercube => 0x0000_0000_0200,
            GlobalCapabilities::CapMycode => 0x0000_0000_0400,
            GlobalCapabilities::CapSetLibCode => 0x0000_0000_0800,
            GlobalCapabilities::CapFixTupleIndexBug => 0x0000_0000_1000,
            GlobalCapabilities::CapRemp => 0x0000_0000_2000,
            GlobalCapabilities::CapDelections => 0x0000_0000_4000,
            GlobalCapabilities::CapFullBodyInBounced => 0x0000_0001_0000,
            GlobalCapabilities::CapStorageFeeToTvm => 0x0000_0002_0000,
            GlobalCapabilities::CapCopyleft => 0x0000_0004_0000,
            GlobalCapabilities::CapIndexAccounts => 0x0000_0008_0000,
            GlobalCapabilities::CapsTvmBugfixes2022 => 0x0000_0020_0000,
            GlobalCapabilities::CapWorkchains => 0x0000_0040_0000,
            GlobalCapabilities::CapStcontNewFormat => 0x0000_0080_0000,
            GlobalCapabilities::CapFastStorageStatBugfix => 0x0000_0100_0000,
            GlobalCapabilities::CapResolveMerkleCell => 0x0000_0200_0000,
            GlobalCapabilities::CapBounceAfterFailedAction => 0x0000_0800_0000,
            GlobalCapabilities::CapFeeInGasUnits => 0x0000_2000_0000,
            GlobalCapabilities::CapBigCells => 0x0000_4000_0000,
            GlobalCapabilities::CapSuspendedList => 0x0000_8000_0000,
            GlobalCapabilities::CapFastFinality => 0x0001_0000_0000,
            GlobalCapabilities::CapTvmV19 => 0x0002_0000_0000,
            GlobalCapabilities::CapSmft => 0x0004_0000_0000,
            GlobalCapabilities::CapCommonMessage => 0x0008_0000_0000,
        }
    }
}

/// Global version and capabilities of the network
/// (`capabilities#c4 version:uint32 capabilities:uint64 = GlobalVersion`).
#[derive(Clone, Copy, Debug, Default, PartialEq, Eq)]
pub struct GlobalVersion {
    pub version: u32,
    pub capabilities: u64,
}

impl GlobalVersion {
    /// Version zero, no capabilities.
    pub fn new() -> (r: Self)
        ensures
            r.version == 0,
            r.capabilities == 0,
    {
        GlobalVersion { version: 0, capabilities: 0 }
    }

    /// Whether the bit of `capability` is set in `capabilities`.
    pub fn has_capability(&self, capability: GlobalCapabilities) -> (r: bool)
        ensures
            r == (self.capabilities & capability_bit(capability) != 0),
    {
        (self.capabilities & capability.bit()) != 0
    }
}

/// A global version as stored: its tag, version and capabilities (13 bytes).
pub open spec fn global_version_bytes(g: GlobalVersion) -> Seq<u8> {
    seq![GLOBAL_VERSION_TAG] + be32(g.version) + be64(g.capabilities)
}

/// The global version stored at `p` in `data`, or `None` when fewer than 13 bytes are left or
/// the tag is not that of a global version.
pub open spec fn parse_global_version(data: Seq<u8>, p: int) -> Option<GlobalVersion> {
    if p < 0 || p + 13 > data.len() || data[p] != GLOBAL_VERSION_TAG {
        None
    } else {
        Some(GlobalVersion { version: be32_at(data, p + 1), capabilities: be64_at(data, p + 5) })
    }
}

impl GlobalVersion {
    /// Appends the stored form of the version.
    pub fn write_to(&self, out: &mut Vec<u8>)
        ensures
            final(out)@ == old(out)@ + global_version_bytes(*self),
    {
        out.push(GLOBAL_VERSION_TAG);
        push_u32(out, self.version);
        push_u64(out, self.capabilities);
        assert(out@ =~= old(out)@ + global_version_bytes(*self));
    }

    /// Reads a version stored at `*pos` and moves `*pos` past it. Fails, changing nothing, when
    /// the data ends too soon or another tag is found (a constructor tag error).
    pub fn read_from(&mut self, data: &[u8], pos: &mut usize) -> (r: Result<(), BlockError>)
        ensures
            r is Ok <==> parse_global_version(data@, *old(pos) as int) is Some,
            r is Ok ==> Some(*final(self)) == parse_global_version(data@, *old(pos) as int) && *final(pos) == *old(pos)
                + 13,
            r is Err ==> *final(self) == *old(self) && *final(pos) == *old(pos),
            r is Err && *old(pos) < data@.len() && data@[*old(pos) as int] != GLOBAL_VERSION_TAG ==> r->Err_0 is InvalidConstructorTag,
    {
        let p = *pos;
        if p >= data.len() {
            return Err(BlockError::InvalidData(message("cell underflow")));
        }
        let tag = data[p];
        if tag != GLOBAL_VERSION_TAG {
            return Err(BlockError::InvalidConstructorTag { t: tag as u32, s: message("GlobalVersion") });
        }
        if data.len() - p < 13 {
            return Err(BlockError::InvalidData(message("cell underflow")));
        }
        self.version = get_u32(data, p + 1);
        self.capabilities = get_u64(data, p + 5);
        *pos = p + 13;
        Ok(())
    }
}

/// A stored global version reads back as itself.
pub proof fn law_global_version_roundtrip(g: GlobalVersion, pre: Seq<u8>, post: Seq<u8>)
    ensures
        parse_global_version(pre + global_version_bytes(g) + post, pre.len() as int) == Some(g),
{
    let d = pre + global_version_bytes(g) + post;
    let n = pre.len() as int;
    assert(d[n] == GLOBAL_VERSION_TAG);
    lemma_be_roundtrip(pre + seq![GLOBAL_VERSION_TAG], be64(g.capabilities) + post, 0, g.version, 0);
    assert(d =~= (pre + seq![GLOBAL_VERSION_TAG]) + be32(g.version) + (be64(g.capabilities) + post));
    lemma_be_roundtrip(pre + seq![GLOBAL_VERSION_TAG] + be32(g.version), post, 0, 0, g.capabilities);
    assert(d =~= (pre + seq![GLOBAL_VERSION_TAG] + be32(g.version)) + be64(g.capabilities) + post);
}

/// Address of the configuration smart contract (config parameter 0).
#[derive(Clone, Copy, Debug, Default, PartialEq, Eq)]
pub struct ConfigParam0 {
    pub config_addr: UInt256,
}

impl ConfigParam0 {
    /// The zero address.
    pub fn new() -> (r: Self)
        ensures
            r.config_addr@ == Seq::new(32, |i: int| 0u8),
    {
        ConfigParam0 { config_addr: UInt256::new() }
    }
}

/// Address of the elector smart contract (config parameter 1).
#[derive(Clone, Copy, Debug, Default, PartialEq, Eq)]
pub struct ConfigParam1 {
    pub elector_addr: UInt256,
}

impl ConfigParam1 {
    /// The zero address.
    pub fn new() -> (r: Self)
        ensures
            r.elector_addr@ == Seq::new(32, |i: int| 0u8),
    {
        ConfigParam1 { elector_addr: UInt256::new() }
    }
}

/// Address of the minter smart contract (config parameter 2).
#[derive(Clone, Copy, Debug, Default, PartialEq, Eq)]
pub struct ConfigParam2 {
    pub minter_addr: UInt256,
}

impl ConfigParam2 {
    /// The zero address.
    pub fn new() -> (r: Self)
        ensures
            r.minter_addr@ == Seq::new(32, |i: int| 0u8),
    {
        ConfigParam2 { minter_addr: UInt256::new() }
    }
}

/// Address of the fee collector smart contract (config parameter 3).
#[derive(Clone, Copy, Debug, Default, PartialEq, Eq)]
pub struct ConfigParam3 {
    pub fee_collector_addr: UInt256,
}

impl ConfigParam3 {
    /// The zero address.
    pub fn new() -> (r: Self)
        ensures
            r.fee_collector_addr@ == Seq::new(32, |i: int| 0u8),
    {
        ConfigParam3 { fee_collector_addr: UInt256::new() }
    }
}

/// Address of the root DNS smart contract (config parameter 4).
#[derive(Clone, Copy, Debug, Default, PartialEq, Eq)]
pub struct ConfigParam4 {
    pub dns_root_addr: UInt256,
}

impl ConfigParam4 {
    /// The zero address.
    pub fn new() -> (r: Self)
        ensures
            r.dns_root_addr@ == Seq::new(32, |i: int| 0u8),
    {
        ConfigParam4 { dns_root_addr: UInt256::new() }
    }
}

/// Address of the owner of the network (config parameter 5).
#[derive(Clone, Copy, Debug, Default, PartialEq, Eq)]
pub struct ConfigParam5 {
    pub owner_addr: UInt256,
}

impl ConfigParam5 {
    /// The zero address.
    pub fn new() -> (r: Self)
        ensures
            r.owner_addr@ == Seq::new(32, |i: int| 0u8),
    {
        ConfigParam5 { owner_addr: UInt256::new() }
    }
}

/// Prices of minting a new extra currency and of adding to one (config parameter 6).
#[derive(Clone, Copy, Debug, Default, PartialEq, Eq)]
pub struct ConfigParam6 {
    pub mint_new_price: Grams,
    pub mint_add_price: Grams,
}

impl ConfigParam6 {
    /// Both prices zero.
    pub fn new() -> (r: Self)
        ensures
            r.mint_new_price@ == 0,
            r.mint_add_price@ == 0,
    {
        ConfigParam6 { mint_new_price: Grams::zero(), mint_add_price: Grams::zero() }
    }
}

/// Extra currencies to mint (config parameter 7).
#[derive(Debug, PartialEq, Eq)]
pub struct ConfigParam7 {
    pub to_mint: ExtraCurrencyCollection,
}

impl ConfigParam7 {
    /// Nothing to mint.
    pub fn new() -> (r: Self)
        ensures
            r.to_mint@ == Map::<u32, nat>::empty(),
    {
        ConfigParam7 { to_mint: ExtraCurrencyCollection::new() }
    }
}

/// The global version (config parameter 8).
#[derive(Clone, Copy, Debug, Default, PartialEq, Eq)]
pub struct ConfigParam8 {
    pub global_version: GlobalVersion,
}

impl ConfigParam8 {
    /// Version zero, no capabilities.
    pub fn new() -> (r: Self)
        ensures
            r.global_version.version == 0,
            r.global_version.capabilities == 0,
    {
        ConfigParam8 { global_version: GlobalVersion::new() }
    }
}

/// Indices of the mandatory configuration parameters (config parameter 9).
#[derive(Clone, Debug, Default, PartialEq, Eq)]
pub struct ConfigParam9 {
    pub mandatory_params: Vec<u32>,
}

impl ConfigParam9 {
    /// No mandatory parameters.
    pub fn new() -> (r: Self)
        ensures
            r.mandatory_params@ == Seq::<u32>::empty(),
    {
        ConfigParam9 { mandatory_params: Vec::new() }
    }
}

/// Indices of the critical configuration parameters (config parameter 10).
#[derive(Clone, Debug, Default, PartialEq, Eq)]
pub struct ConfigParam10 {
    pub critical_params: Vec<u32>,
}

impl ConfigParam10 {
    /// No critical parameters.
    pub fn new() -> (r: Self)
        ensures
            r.critical_params@ == Seq::<u32>::empty(),
    {
        ConfigParam10 { critical_params: Vec::new() }
    }
}

/// Rewards for creating a block in the masterchain and in the basechain
/// (`block_grams_created#6b masterchain_block_fee:Grams basechain_block_fee:Grams`).
#[derive(Clone, Copy, Debug, Default, PartialEq, Eq)]
pub struct BlockCreateFees {
    pub masterchain_block_fee: Grams,
    pub basechain_block_fee: Grams,
}

impl BlockCreateFees {
    /// Both rewards zero.
    pub fn new() -> (r: Self)
        ensures
            r.masterchain_block_fee@ == 0,
            r.basechain_block_fee@ == 0,
    {
        BlockCreateFees { masterchain_block_fee: Grams::zero(), basechain_block_fee: Grams::zero() }
    }
}

/// Block creation rewards (config parameter 14).
#[derive(Clone, Copy, Debug, Default, PartialEq, Eq)]
pub struct ConfigParam14 {
    pub block_create_fees: BlockCreateFees,
}

impl ConfigParam14 {
    /// Both rewards zero.
    pub fn new() -> (r: Self)
        ensures
            r.block_create_fees.masterchain_block_fee@ == 0,
            r.block_create_fees.basechain_block_fee@ == 0,
    {
        ConfigParam14 { block_create_fees: BlockCreateFees::new() }
    }
}

/// Timing of validator elections (config parameter 15).
#[derive(Clone, Copy, Debug, Default, PartialEq, Eq)]
pub struct ConfigParam15 {
    pub validators_elected_for: u32,
    pub elections_start_before: u32,
    pub elections_end_before: u32,
    pub stake_held_for: u32,
}

impl ConfigParam15 {
    /// All times zero.
    pub fn new() -> (r: Self)
        ensures
            r == (ConfigParam15 {
                validators_elected_for: 0,
                elections_start_before: 0,
                elections_end_before: 0,
                stake_held_for: 0,
            }),
    {
        ConfigParam15 {
            validators_elected_for: 0,
            elections_start_before: 0,
            elections_end_before: 0,
            stake_held_for: 0,
        }
    }
}

/// Numbers of validators (config parameter 16).
#[derive(Clone, Copy, Debug, Default, PartialEq, Eq)]
pub struct ConfigParam16 {
    pub max_validators: Number16,
    pub max_main_validators: Number16,
    pub min_validators: Number16,
}

impl ConfigParam16 {
    /// All numbers zero.
    pub fn new() -> (r: Self)
        ensures
            r.max_validators@ == 0,
            r.max_main_validators@ == 0,
            r.min_validators@ == 0,
    {
        ConfigParam16 {
            max_validators: Number16::zero(),
            max_main_validators: Number16::zero(),
            min_validators: Number16::zero(),
        }
    }
}

/// Limits on validator stakes (config parameter 17).
#[derive(Clone, Copy, Debug, Default, PartialEq, Eq)]
pub struct ConfigParam17 {
    pub min_stake: Grams,
    pub max_stake: Grams,
    pub min_total_stake: Grams,
    pub max_stake_factor: u32,
}

impl ConfigParam17 {
    /// All limits zero.
    pub fn new() -> (r: Self)
        ensures
            r.min_stake@ == 0,
            r.max_stake@ == 0,
            r.min_total_stake@ == 0,
            r.max_stake_factor == 0,
    {
        ConfigParam17 {
            min_stake: Grams::zero(),
            max_stake: Grams::zero(),
            min_total_stake: Grams::zero(),
            max_stake_factor: 0,
        }
    }
}

/// Storage prices in force from a given time (`_#cc utime_since:uint32 bit_price_ps:uint64
/// cell_price_ps:uint64 mc_bit_price_ps:uint64 mc_cell_price_ps:uint64 = StoragePrices`).
#[derive(Clone, Copy, Debug, Default, PartialEq, Eq)]
pub struct StoragePrices {
    pub utime_since: u32,
    pub bit_price_ps: u64,
    pub cell_price_ps: u64,
    pub mc_bit_price_ps: u64,
    pub mc_cell_price_ps: u64,
}

impl StoragePrices {
    /// All prices zero, from time zero.
    pub fn new() -> (r: Self)
        ensures
            r == (StoragePrices {
                utime_since: 0,
                bit_price_ps: 0,
                cell_price_ps: 0,
                mc_bit_price_ps: 0,
                mc_cell_price_ps: 0,
            }),
    {
        StoragePrices {
            utime_since: 0,
            bit_price_ps: 0,
            cell_price_ps: 0,
            mc_bit_price_ps: 0,
            mc_cell_price_ps: 0,
        }
    }
}

/// The list of storage prices, indexed from zero in the order they were inserted
/// (config parameter 18).
#[derive(Clone, Debug, Default, PartialEq, Eq)]
pub struct ConfigParam18 {
    pub map: Vec<StoragePrices>,
}

impl ConfigParam18 {
    /// Number of entries.
    pub fn len(&self) -> (r: Result<usize, BlockError>)
        ensures
            r == Ok::<usize, BlockError>(self.map@.len() as usize),
    {
        Ok(self.map.len())
    }

    /// Whether there is no entry.
    pub fn is_empty(&self) -> (r: bool)
        ensures
            r == (self.map@.len() == 0),
    {
        self.map.len() == 0
    }

    /// The entry at `index`; fails with `InvalidIndex` when there is none.
    pub fn get(&self, index: u32) -> (r: Result<StoragePrices, BlockError>)
        ensures
            r is Ok <==> index < self.map@.len(),
            r is Ok ==> r->Ok_0 == self.map@[index as int],
            r is Err ==> r->Err_0 == BlockError::InvalidIndex(index as usize),
    {
        if (index as usize) < self.map.len() {
            Ok(self.map[index as usize])
        } else {
            Err(BlockError::InvalidIndex(index as usize))
        }
    }

    /// Appends an entry at the index after the largest one.
    pub fn insert(&mut self, sp: &StoragePrices) -> (r: Result<(), BlockError>)
        requires
            old(self).map@.len() < u32::MAX,
        ensures
            r is Ok,
            final(self).map@ == old(self).map@.push(*sp),
    {
        self.map.push(*sp);
        Ok(())
    }
}

/// Gas prices and limits. `gas_price` is in 1/65536 nanograms per gas unit; the first
/// `flat_gas_limit` units cost `flat_gas_price` together.
#[derive(Clone, Copy, Debug, Default, PartialEq, Eq)]
pub struct GasLimitsPrices {
    pub gas_price: u64,
    pub gas_limit: u64,
    pub special_gas_limit: u64,
    pub gas_credit: u64,
    pub block_gas_limit: u64,
    pub freeze_due_limit: u64,
    pub delete_due_limit: u64,
    pub flat_gas_limit: u64,
    pub flat_gas_price: u64,
    pub max_gas_threshold: u128,
}

/// The fee for `gas_used` units: the flat price up to the flat limit, and above it each
/// further unit at `gas_price / 65536`, rounded up.
pub open spec fn gas_fee(g: GasLimitsPrices, gas_used: u64) -> int {
    if gas_used <= g.flat_gas_limit {
        g.flat_gas_price as int
    } else {
        g.flat_gas_price + ((gas_used - g.flat_gas_limit) * g.gas_price + 0xffff) / 65536
    }
}

/// The gas that the part of `value` above the flat price buys beyond the flat limit:
/// that part shifted left by 16 bits (in 128 bits), divided by `gas_price`, in 64 bits.
pub open spec fn extra_gas(g: GasLimitsPrices, value: u128) -> u64 {
    ((((value - g.flat_gas_price) as u128) << 16u128) / (g.gas_price as u128)) as u64
}

/// Whether `calc_gas` is defined on `value`: no division by zero and no overflow.
pub open spec fn calc_gas_defined(g: GasLimitsPrices, value: u128) -> bool {
    value >= g.max_gas_threshold || value < g.flat_gas_price || (g.gas_price != 0
        && g.flat_gas_limit + extra_gas(g, value) <= u64::MAX)
}

/// The gas that `value` buys: the gas limit from the threshold on, nothing below the flat
/// price, else the flat limit and the extra gas.
pub open spec fn gas_for_value(g: GasLimitsPrices, value: u128) -> int {
    if value >= g.max_gas_threshold {
        g.gas_limit as int
    } else if value < g.flat_gas_price {
        0
    } else {
        g.flat_gas_limit + extra_gas(g, value)
    }
}

/// The value that buys the whole gas limit.
pub open spec fn max_gas_threshold(g: GasLimitsPrices) -> int {
    g.flat_gas_price + if g.gas_limit > g.flat_gas_limit {
        (g.gas_price * (g.gas_limit - g.flat_gas_limit)) / 65536
    } else {
        0
    }
}

/// Shifting right by 16 bits divides by 65536.
proof fn lemma_shr16(v: u128)
    by (bit_vector)
    ensures
        v >> 16u128 == v / 65536,
{
}

impl GasLimitsPrices {
    /// All prices and limits zero.
    pub fn new() -> (r: Self)
        ensures
            r == (GasLimitsPrices {
                gas_price: 0,
                gas_limit: 0,
                special_gas_limit: 0,
                gas_credit: 0,
                block_gas_limit: 0,
                freeze_due_limit: 0,
                delete_due_limit: 0,
                flat_gas_limit: 0,
                flat_gas_price: 0,
                max_gas_threshold: 0,
            }),
    {
        GasLimitsPrices {
            gas_price: 0,
            gas_limit: 0,
            special_gas_limit: 0,
            gas_credit: 0,
            block_gas_limit: 0,
            freeze_due_limit: 0,
            delete_due_limit: 0,
            flat_gas_limit: 0,
            flat_gas_price: 0,
            max_gas_threshold: 0,
        }
    }

    /// The fee for `gas_used` units of gas.
    pub fn calc_gas_fee(&self, gas_used: u64) -> (r: u128)
        ensures
            r == gas_fee(*self, gas_used),
    {
        if gas_used <= self.flat_gas_limit {
            self.flat_gas_price as u128
        } else {
            let x: u128 = (gas_used - self.flat_gas_limit) as u128;
            let p: u128 = self.gas_price as u128;
            proof {
                assert(x * p <= 0xffff_ffff_ffff_ffff_u128 * 0xffff_ffff_ffff_ffff_u128) by (nonlinear_arith)
                    requires x <= 0xffff_ffff_ffff_ffff_u128, p <= 0xffff_ffff_ffff_ffff_u128;
            }
            let v: u128 = x * p + 0xffff;
            proof {
                lemma_shr16(v);
            }
            self.flat_gas_price as u128 + (v >> 16)
        }
    }

    /// The gas price in nanograms per unit, rounded down.
    pub fn get_real_gas_price(&self) -> (r: u64)
        ensures
            r == self.gas_price / 65536,
    {
        let p = self.gas_price;
        assert(p >> 16u64 == p / 65536) by (bit_vector);
        self.gas_price >> 16
    }

    /// The gas that `value` nanograms buy.
    pub fn calc_gas(&self, value: u128) -> (r: u64)
        requires
            calc_gas_defined(*self, value),
        ensures
            r == gas_for_value(*self, value),
    {
        if value >= self.max_gas_threshold {
            return self.gas_limit;
        }
        if value < self.flat_gas_price as u128 {
            return 0;
        }
        let res = ((value - self.flat_gas_price as u128) << 16) / (self.gas_price as u128);
        self.flat_gas_limit + res as u64
    }

    /// The value that buys the whole gas limit.
    pub fn calc_max_gas_threshold(&self) -> (r: u128)
        ensures
            r == max_gas_threshold(*self),
    {
        let mut result = self.flat_gas_price as u128;
        if self.gas_limit > self.flat_gas_limit {
            let p: u128 = self.gas_price as u128;
            let x: u128 = (self.gas_limit - self.flat_gas_limit) as u128;
            proof {
                assert(p * x <= 0xffff_ffff_ffff_ffff_u128 * 0xffff_ffff_ffff_ffff_u128) by (nonlinear_arith)
                    requires x <= 0xffff_ffff_ffff_ffff_u128, p <= 0xffff_ffff_ffff_ffff_u128;
            }
            let v: u128 = p * x;
            proof {
                lemma_shr16(v);
            }
            assert(v / 65536 <= 0xffff_ffff_ffff_ffff_ffff_ffff_ffff_u128);
            result = result + (v >> 16);
        }
        result
    }
}

/// The gas fee does not decrease when more gas is used.
pub proof fn law_gas_fee_monotone(g: GasLimitsPrices, a: u64, b: u64)
    requires
        a <= b,
    ensures
        gas_fee(g, a) <= gas_fee(g, b),
{
    if a > g.flat_gas_limit {
        let x: int = a - g.flat_gas_limit;
        let y: int = b - g.flat_gas_limit;
        let p: int = g.gas_price as int;
        assert(x * p <= y * p) by (nonlinear_arith)
            requires x <= y, p >= 0;
        vstd::arithmetic::div_mod::lemma_div_is_ordered(x * p + 0xffff, y * p + 0xffff, 65536);
    } else if b > g.flat_gas_limit {
        let y: int = b - g.flat_gas_limit;
        let p: int = g.gas_price as int;
        assert(y * p >= 0) by (nonlinear_arith)
            requires y >= 0, p >= 0;
    }
}

/// With the threshold set to what `calc_max_gas_threshold` gives, `calc_gas` is defined on
/// every value and never buys more than the gas limit; from the flat price up to below the
/// threshold it buys strictly less than the gas limit, and the fee for the gas it buys is at
/// most the value.
pub proof fn law_calc_gas_defined(g: GasLimitsPrices, value: u128)
    requires
        g.max_gas_threshold == max_gas_threshold(g),
    ensures
        calc_gas_defined(g, value),
        gas_for_value(g, value) <= g.gas_limit,
        g.flat_gas_price <= value < g.max_gas_threshold ==> gas_for_value(g, value) < g.gas_limit
            && gas_fee(g, gas_for_value(g, value) as u64) <= value,
{
    if value < g.max_gas_threshold && value >= g.flat_gas_price {
        let l: int = g.gas_limit - g.flat_gas_limit;
        let p: int = g.gas_price as int;
        let x: int = p * l;
        let v: int = value - g.flat_gas_price;
        assert(l > 0);
        assert(v < x / 65536);
        let q: int = x / 65536;
        lemma_fundamental_div_mod(x, 65536);
        assert(v * 65536 < x) by (nonlinear_arith)
            requires
                v < q,
                x == 65536 * q + x % 65536,
                x % 65536 >= 0,
                v >= 0,
        ;
        assert(p > 0) by (nonlinear_arith)
            requires
                x == p * l,
                v * 65536 < x,
                v >= 0,
                p >= 0,
        ;
        assert(x <= 0xffff_ffff_ffff_ffff * 0xffff_ffff_ffff_ffff) by (nonlinear_arith)
            requires
                x == p * l,
                0 <= p <= 0xffff_ffff_ffff_ffff,
                0 < l <= 0xffff_ffff_ffff_ffff,
        ;
        let vv: u128 = (value - g.flat_gas_price) as u128;
        assert(vv == v);
        assert(vv < 0x1_0000_0000_0000_0000_0000_0000_0000u128 ==> vv << 16u128 == vv * 65536) by (bit_vector);
        let a: int = v * 65536;
        lemma_fundamental_div_mod(a, p);
        assert(a / p < l) by (nonlinear_arith)
            requires
                a < p * l,
                a == p * (a / p) + a % p,
                a % p >= 0,
                p > 0,
        ;
        assert(a / p >= 0) by (nonlinear_arith)
            requires
                a >= 0,
                p > 0,
        ;
        let e: int = a / p;
        assert(e * p <= a) by (nonlinear_arith)
            requires
                a == p * e + a % p,
                a % p >= 0,
        ;
        if e > 0 {
            let y: int = e * p + 0xffff;
            let z: int = 65536 * v + 0xffff;
            vstd::arithmetic::div_mod::lemma_div_is_ordered(y, z, 65536);
            lemma_fundamental_div_mod(z, 65536);
        }
    }
}

/// The fee for the whole gas limit is the value that buys it, or one nanogram more (the fee
/// rounds up where the threshold rounds down).
pub proof fn law_threshold_and_fee(g: GasLimitsPrices)
    ensures
        max_gas_threshold(g) <= gas_fee(g, g.gas_limit) <= max_gas_threshold(g) + 1,
{
    if g.gas_limit > g.flat_gas_limit {
        let l: int = g.gas_limit - g.flat_gas_limit;
        let p: int = g.gas_price as int;
        let x: int = p * l;
        assert(l * p == x) by (nonlinear_arith)
            requires
                x == p * l,
        ;
        lemma_fundamental_div_mod(x, 65536);
        lemma_fundamental_div_mod(x + 0xffff, 65536);
    }
}

/// Prices of forwarding messages.
#[derive(Clone, Copy, Debug, Default, PartialEq, Eq)]
pub struct MsgForwardPrices {
    pub lump_price: u64,
    pub bit_price: u64,
    pub cell_price: u64,
    pub ihr_price_factor: u32,
    pub first_frac: u16,
    pub next_frac: u16,
}

impl MsgForwardPrices {
    /// All prices zero.
    pub fn new() -> (r: Self)
        ensures
            r == (MsgForwardPrices {
                lump_price: 0,
                bit_price: 0,
                cell_price: 0,
                ihr_price_factor: 0,
                first_frac: 0,
                next_frac: 0,
            }),
    {
        MsgForwardPrices {
            lump_price: 0,
            bit_price: 0,
            cell_price: 0,
            ihr_price_factor: 0,
            first_frac: 0,
            next_frac: 0,
        }
    }
}

/// Catchain configuration (config parameter 28).
#[derive(Clone, Copy, Debug, Default, PartialEq, Eq)]
pub struct CatchainConfig {
    pub isolate_mc_validators: bool,
    pub shuffle_mc_validators: bool,
    pub mc_catchain_lifetime: u32,
    pub shard_catchain_lifetime: u32,
    pub shard_validators_lifetime: u32,
    pub shard_validators_num: u32,
}

impl CatchainConfig {
    /// Flags false, all numbers zero.
    pub fn new() -> (r: Self)
        ensures
            r == (CatchainConfig {
                isolate_mc_validators: false,
                shuffle_mc_validators: false,
                mc_catchain_lifetime: 0,
                shard_catchain_lifetime: 0,
                shard_validators_lifetime: 0,
                shard_validators_num: 0,
            }),
    {
        CatchainConfig {
            isolate_mc_validators: false,
            shuffle_mc_validators: false,
            mc_catchain_lifetime: 0,
            shard_catchain_lifetime: 0,
            shard_validators_lifetime: 0,
            shard_validators_num: 0,
        }
    }
}

/// Consensus configuration.
#[derive(Clone, Copy, Debug, Default, PartialEq, Eq)]
pub struct ConsensusConfig {
    pub new_catchain_ids: bool,
    pub round_candidates: u32,
    pub next_candidate_delay_ms: u32,
    pub consensus_timeout_ms: u32,
    pub fast_attempts: u32,
    pub attempt_duration: u32,
    pub catchain_max_deps: u32,
    pub max_block_bytes: u32,
    pub max_collated_bytes: u32,
}

/// The consensus configuration with flag false and all numbers zero.
pub open spec fn zero_consensus_config() -> ConsensusConfig {
    ConsensusConfig {
        new_catchain_ids: false,
        round_candidates: 0,
        next_candidate_delay_ms: 0,
        consensus_timeout_ms: 0,
        fast_attempts: 0,
        attempt_duration: 0,
        catchain_max_deps: 0,
        max_block_bytes: 0,
        max_collated_bytes: 0,
    }
}

impl ConsensusConfig {
    /// Flag false, all numbers zero.
    pub fn new() -> (r: Self)
        ensures
            r == zero_consensus_config(),
    {
        ConsensusConfig {
            new_catchain_ids: false,
            round_candidates: 0,
            next_candidate_delay_ms: 0,
            consensus_timeout_ms: 0,
            fast_attempts: 0,
            attempt_duration: 0,
            catchain_max_deps: 0,
            max_block_bytes: 0,
            max_collated_bytes: 0,
        }
    }
}

/// Consensus configuration (config parameter 29).
#[derive(Clone, Copy, Debug, Default, PartialEq, Eq)]
pub struct ConfigParam29 {
    pub consensus_config: ConsensusConfig,
}

impl ConfigParam29 {
    /// The zero consensus configuration.
    pub fn new() -> (r: Self)
        ensures
            r.consensus_config == zero_consensus_config(),
    {
        ConfigParam29 { consensus_config: ConsensusConfig::new() }
    }
}

/// Addresses of the fundamental smart contracts (config parameter 31), each once.
#[derive(Clone, Debug, Default)]
pub struct ConfigParam31 {
    pub fundamental_smc_addr: Vec<UInt256>,
}

impl ConfigParam31 {
    /// No address.
    pub fn new() -> (r: Self)
        ensures
            r.fundamental_smc_addr@ == Seq::<UInt256>::empty(),
    {
        ConfigParam31 { fundamental_smc_addr: Vec::new() }
    }

    /// Adds an address to the set; one already present is not added again.
    pub fn add_address(&mut self, address: UInt256)
        ensures
            final(self).fundamental_smc_addr@.to_set() == old(self).fundamental_smc_addr@.to_set().insert(address),
            old(self).fundamental_smc_addr@.no_duplicates() ==> final(self).fundamental_smc_addr@.no_duplicates(),
    {
        let mut i: usize = 0;
        while i < self.fundamental_smc_addr.len()
            invariant
                i <= self.fundamental_smc_addr@.len(),
                self.fundamental_smc_addr@ == old(self).fundamental_smc_addr@,
                forall|j: int| 0 <= j < i ==> self.fundamental_smc_addr@[j] != address,
            decreases self.fundamental_smc_addr@.len() - i,
        {
            if self.fundamental_smc_addr[i].equals(&address) {
                assert(self.fundamental_smc_addr@.to_set().insert(address) =~= self.fundamental_smc_addr@.to_set()) by {
                    assert(self.fundamental_smc_addr@.contains(address)) by {
                        assert(self.fundamental_smc_addr@[i as int] == address);
                    }
                }
                return;
            }
            i = i + 1;
        }
        let ghost before = self.fundamental_smc_addr@;
        self.fundamental_smc_addr.push(address);
        proof {
            assert(self.fundamental_smc_addr@.to_set() =~= before.to_set().insert(address)) by {
                assert forall|x: UInt256| #[trigger] self.fundamental_smc_addr@.contains(x) <==> (before.contains(x) || x == address) by {
                    if self.fundamental_smc_addr@.contains(x) {
                        let k = choose|k: int| 0 <= k < self.fundamental_smc_addr@.len() && self.fundamental_smc_addr@[k] == x;
                        if k < before.len() {
                            assert(before[k] == x);
                        }
                    }
                    if before.contains(x) {
                        let k = choose|k: int| 0 <= k < before.len() && before[k] == x;
                        assert(self.fundamental_smc_addr@[k] == x);
                    }
                    if x == address {
                        assert(self.fundamental_smc_addr@[before.len() as int] == x);
                    }
                }
            }
        }
    }
}

/// Basic workchain format (`wfmt_basic#1 vm_version:int32 vm_mode:uint64`).
#[derive(Clone, Copy, Debug, Default, PartialEq, Eq)]
pub struct WorkchainFormat1 {
    pub vm_version: i32,
    pub vm_mode: u64,
}

impl WorkchainFormat1 {
    /// Version and mode zero.
    pub fn new() -> (r: Self)
        ensures
            r.vm_version == 0 && r.vm_mode == 0,
    {
        WorkchainFormat1 { vm_version: 0, vm_mode: 0 }
    }

    /// The given version and mode.
    pub fn with_params(vm_version: i32, vm_mode: u64) -> (r: Self)
        ensures
            r.vm_version == vm_version && r.vm_mode == vm_mode,
    {
        WorkchainFormat1 { vm_version, vm_mode }
    }
}

/// Extended workchain format: address lengths and the workchain type
/// (`wfmt_ext#0 min_addr_len:(## 12) max_addr_len:(## 12) addr_len_step:(## 12)
/// workchain_type_id:(## 32)`).
#[derive(Clone, Copy, Debug, PartialEq, Eq)]
pub struct WorkchainFormat0 {
    min_addr_len: Number12,
    max_addr_len: Number12,
    addr_len_step: Number12,
    workchain_type_id: Number32,
}

/// The fields of an extended workchain format.
pub struct WorkchainFormat0View {
    pub min_addr_len: nat,
    pub max_addr_len: nat,
    pub addr_len_step: nat,
    pub workchain_type_id: nat,
}

impl View for WorkchainFormat0 {
    type V = WorkchainFormat0View;

    closed spec fn view(&self) -> WorkchainFormat0View {
        WorkchainFormat0View {
            min_addr_len: self.min_addr_len@,
            max_addr_len: self.max_addr_len@,
            addr_len_step: self.addr_len_step@,
            workchain_type_id: self.workchain_type_id@,
        }
    }
}

impl Default for WorkchainFormat0 {
    fn default() -> (r: Self)
        ensures
            r@ == (WorkchainFormat0View {
                min_addr_len: 64,
                max_addr_len: 64,
                addr_len_step: 0,
                workchain_type_id: 1,
            }),
    {
        WorkchainFormat0::new()
    }
}

/// Numbers that fit in 12 bits give numbers that `Number12` holds.
fn number12(value: u16) -> (r: Number12)
    requires
        value <= 4095,
    ensures
        r@ == value,
{
    match Number12::new(value as u32) {
        Ok(n) => n,
        Err(_) => Number12::default(),
    }
}

impl WorkchainFormat0 {
    /// Addresses of 64 bits, step zero, workchain type 1.
    pub fn new() -> (r: Self)
        ensures
            r@ == (WorkchainFormat0View {
                min_addr_len: 64,
                max_addr_len: 64,
                addr_len_step: 0,
                workchain_type_id: 1,
            }),
    {
        WorkchainFormat0 {
            min_addr_len: number12(64),
            max_addr_len: number12(64),
            addr_len_step: number12(0),
            workchain_type_id: Number32::new(1),
        }
    }

    /// A format with the given fields; refused unless
    /// `64 <= min_addr_len <= max_addr_len <= 1023`, `addr_len_step <= 1023` and
    /// `workchain_type_id >= 1`.
    pub fn with_params(
        min_addr_len: u16,
        max_addr_len: u16,
        addr_len_step: u16,
        workchain_type_id: u32,
    ) -> (r: Result<WorkchainFormat0, BlockError>)
        ensures
            r is Ok <==> (64 <= min_addr_len <= max_addr_len <= 1023 && addr_len_step <= 1023
                && workchain_type_id >= 1),
            r is Ok ==> r->Ok_0@ == (WorkchainFormat0View {
                min_addr_len: min_addr_len as nat,
                max_addr_len: max_addr_len as nat,
                addr_len_step: addr_len_step as nat,
                workchain_type_id: workchain_type_id as nat,
            }),
            r is Err ==> r->Err_0 is InvalidData,
    {
        if min_addr_len >= 64 && min_addr_len <= max_addr_len && max_addr_len <= 1023
            && addr_len_step <= 1023 && workchain_type_id >= 1 {
            Ok(
                WorkchainFormat0 {
                    min_addr_len: number12(min_addr_len),
                    max_addr_len: number12(max_addr_len),
                    addr_len_step: number12(addr_len_step),
                    workchain_type_id: Number32::new(workchain_type_id),
                },
            )
        } else {
            Err(
                BlockError::InvalidData(
                    message(
                        "min_addr_len >= 64 && min_addr_len <= max_addr_len && max_addr_len <= 1023 && addr_len_step <= 1023 && workchain_type_id >= 1",
                    ),
                ),
            )
        }
    }

    /// Smallest address length.
    pub fn min_addr_len(&self) -> (r: u16)
        ensures
            r == self@.min_addr_len,
    {
        self.min_addr_len.as_u16()
    }

    /// Sets the smallest address length; refused outside `64..=1023`.
    pub fn set_min_addr_len(&mut self, min_addr_len: u16) -> (r: Result<(), BlockError>)
        ensures
            r is Ok <==> 64 <= min_addr_len <= 1023,
            r is Ok ==> final(self)@ == (WorkchainFormat0View {
                min_addr_len: min_addr_len as nat,
                ..old(self)@
            }),
            r is Err ==> *final(self) == *old(self),
    {
        if 64 <= min_addr_len && min_addr_len <= 1023 {
            self.min_addr_len = number12(min_addr_len);
            Ok(())
        } else {
            Err(BlockError::InvalidData(message("should: min_addr_len >= 64 && min_addr_len <= 1023")))
        }
    }

    /// Largest address length.
    pub fn max_addr_len(&self) -> (r: u16)
        ensures
            r == self@.max_addr_len,
    {
        self.max_addr_len.as_u16()
    }

    /// Sets the largest address length; refused outside `64..=1023` or below the smallest.
    pub fn set_max_addr_len(&mut self, max_addr_len: u16) -> (r: Result<(), BlockError>)
        ensures
            r is Ok <==> (64 <= max_addr_len <= 1023 && old(self)@.min_addr_len <= max_addr_len),
            r is Ok ==> final(self)@ == (WorkchainFormat0View {
                max_addr_len: max_addr_len as nat,
                ..old(self)@
            }),
            r is Err ==> *final(self) == *old(self),
    {
        if 64 <= max_addr_len && max_addr_len <= 1023 && self.min_addr_len.as_u32() <= max_addr_len as u32 {
            self.max_addr_len = number12(max_addr_len);
            Ok(())
        } else {
            Err(
                BlockError::InvalidData(
                    message(
                        "should: max_addr_len >= 64 && max_addr_len <= 1023 && self.min_addr_len <= max_addr_len",
                    ),
                ),
            )
        }
    }

    /// Step of address lengths.
    pub fn addr_len_step(&self) -> (r: u16)
        ensures
            r == self@.addr_len_step,
    {
        self.addr_len_step.as_u16()
    }

    /// Sets the step of address lengths; refused above 1023.
    pub fn set_addr_len_step(&mut self, addr_len_step: u16) -> (r: Result<(), BlockError>)
        ensures
            r is Ok <==> addr_len_step <= 1023,
            r is Ok ==> final(self)@ == (WorkchainFormat0View {
                addr_len_step: addr_len_step as nat,
                ..old(self)@
            }),
            r is Err ==> *final(self) == *old(self),
    {
        if addr_len_step <= 1023 {
            self.addr_len_step = number12(addr_len_step);
            Ok(())
        } else {
            Err(BlockError::InvalidData(message("should: addr_len_step <= 1023")))
        }
    }

    /// The workchain type.
    pub fn workchain_type_id(&self) -> (r: u32)
        ensures
            r == self@.workchain_type_id,
    {
        self.workchain_type_id.as_u32()
    }

    /// Sets the workchain type; zero is refused.
    pub fn set_workchain_type_id(&mut self, workchain_type_id: u32) -> (r: Result<(), BlockError>)
        ensures
            r is Ok <==> workchain_type_id >= 1,
            r is Ok ==> final(self)@ == (WorkchainFormat0View {
                workchain_type_id: workchain_type_id as nat,
                ..old(self)@
            }),
            r is Err ==> *final(self) == *old(self),
    {
        if workchain_type_id >= 1 {
            self.workchain_type_id = Number32::new(workchain_type_id);
            Ok(())
        } else {
            Err(BlockError::InvalidData(message("should: workchain_type_id >= 1")))
        }
    }
}

/// Format of a workchain: basic or extended.
#[derive(Clone, Copy, Debug, PartialEq, Eq)]
pub enum WorkchainFormat {
    Basic(WorkchainFormat1),
    Extended(WorkchainFormat0),
}

impl Default for WorkchainFormat {
    fn default() -> (r: Self)
        ensures
            r == WorkchainFormat::Basic(WorkchainFormat1 { vm_version: 0, vm_mode: 0 }),
    {
        WorkchainFormat::Basic(WorkchainFormat1::new())
    }
}

/// Description of a workchain.
#[derive(Clone, Copy, Debug, PartialEq, Eq)]
pub struct WorkchainDescr {
    pub enabled_since: u32,
    actual_min_split: u8,
    min_split: u8,
    max_split: u8,
    pub active: bool,
    pub accept_msgs: bool,
    pub flags: u16,
    pub zerostate_root_hash: UInt256,
    pub zerostate_file_hash: UInt256,
    pub version: u32,
    pub format: WorkchainFormat,
}

/// The fields of a workchain description.
pub struct WorkchainDescrView {
    pub enabled_since: u32,
    pub actual_min_split: u8,
    pub min_split: u8,
    pub max_split: u8,
    pub active: bool,
    pub accept_msgs: bool,
    pub flags: u16,
    pub zerostate_root_hash: UInt256,
    pub zerostate_file_hash: UInt256,
    pub version: u32,
    pub format: WorkchainFormat,
}

impl View for WorkchainDescr {
    type V = WorkchainDescrView;

    closed spec fn view(&self) -> WorkchainDescrView {
        WorkchainDescrView {
            enabled_since: self.enabled_since,
            actual_min_split: self.actual_min_split,
            min_split: self.min_split,
            max_split: self.max_split,
            active: self.active,
            accept_msgs: self.accept_msgs,
            flags: self.flags,
            zerostate_root_hash: self.zerostate_root_hash,
            zerostate_file_hash: self.zerostate_file_hash,
            version: self.version,
            format: self.format,
        }
    }
}

impl WorkchainDescr {
    /// Everything zero or empty, with the basic format.
    pub fn new() -> (r: Self)
        ensures
            r@.enabled_since == 0,
            r@.actual_min_split == 0 && r@.min_split == 0 && r@.max_split == 0,
            !r@.active && !r@.accept_msgs,
            r@.flags == 0,
            r@.zerostate_root_hash@ == Seq::new(32, |i: int| 0u8),
            r@.zerostate_file_hash@ == Seq::new(32, |i: int| 0u8),
            r@.version == 0,
            r@.format == WorkchainFormat::Basic(WorkchainFormat1 { vm_version: 0, vm_mode: 0 }),
    {
        WorkchainDescr {
            enabled_since: 0,
            actual_min_split: 0,
            min_split: 0,
            max_split: 0,
            active: false,
            accept_msgs: false,
            flags: 0,
            zerostate_root_hash: UInt256::new(),
            zerostate_file_hash: UInt256::new(),
            version: 0,
            format: WorkchainFormat::default(),
        }
    }

    /// Minimal split depth.
    pub fn min_split(&self) -> (r: u8)
        ensures
            r == self@.min_split,
    {
        self.min_split
    }

    /// Sets the minimal split depth; refused above 60.
    pub fn set_min_split(&mut self, min_split: u8) -> (r: Result<(), BlockError>)
        ensures
            r is Ok <==> min_split <= 60,
            r is Ok ==> final(self)@ == (WorkchainDescrView { min_split, ..old(self)@ }),
            r is Err ==> *final(self) == *old(self),
    {
        if min_split <= 60 {
            self.min_split = min_split;
            Ok(())
        } else {
            Err(BlockError::InvalidData(message("should: min_split <= max_split && max_split <= 60")))
        }
    }

    /// Actual minimal split depth.
    pub fn actual_min_split(&self) -> (r: u8)
        ensures
            r == self@.actual_min_split,
    {
        self.actual_min_split
    }

    /// Maximal split depth.
    pub fn max_split(&self) -> (r: u8)
        ensures
            r == self@.max_split,
    {
        self.max_split
    }

    /// Sets the maximal split depth; refused below the minimal one or above 60.
    pub fn set_max_split(&mut self, max_split: u8) -> (r: Result<(), BlockError>)
        ensures
            r is Ok <==> (old(self)@.min_split <= max_split && max_split <= 60),
            r is Ok ==> final(self)@ == (WorkchainDescrView { max_split, ..old(self)@ }),
            r is Err ==> *final(self) == *old(self),
    {
        if self.min_split <= max_split && max_split <= 60 {
            self.max_split = max_split;
            Ok(())
        } else {
            Err(BlockError::InvalidData(message("should: min_split <= max_split && max_split <= 60")))
        }
    }

    /// Whether the workchain is active.
    pub fn active(&self) -> (r: bool)
        ensures
            r == self@.active,
    {
        self.active
    }

    /// Whether the workchain has the basic format.
    pub fn basic(&self) -> (r: bool)
        ensures
            r == (self@.format is Basic),
    {
        match self.format {
            WorkchainFormat::Basic(_) => true,
            WorkchainFormat::Extended(_) => false,
        }
    }
}

/// Setup of configuration proposals (`cfg_vote_cfg#36`).
#[derive(Clone, Copy, Debug, Default, PartialEq, Eq)]
pub struct ConfigProposalSetup {
    pub min_tot_rounds: u8,
    pub max_tot_rounds: u8,
    pub min_wins: u8,
    pub max_losses: u8,
    pub min_store_sec: u32,
    pub max_store_sec: u32,
    pub bit_price: u32,
    pub cell_price: u32,
}

/// Voting setup for normal and critical parameters, each in a child cell (config parameter 11).
#[derive(Clone, Copy, Debug, Default, PartialEq, Eq)]
pub struct ConfigVotingSetup {
    normal_params: ChildCell<ConfigProposalSetup>,
    critical_params: ChildCell<ConfigProposalSetup>,
}

impl ConfigVotingSetup {
    /// The setups stored, `None` while a cell is empty.
    pub closed spec fn setups(&self) -> (Option<ConfigProposalSetup>, Option<ConfigProposalSetup>) {
        (self.normal_params.spec_struct(), self.critical_params.spec_struct())
    }

    /// Stores both setups.
    pub fn new(normal_params: &ConfigProposalSetup, critical_params: &ConfigProposalSetup) -> (r: Result<Self, BlockError>)
        ensures
            r is Ok,
            r->Ok_0.setups() == (Some(*normal_params), Some(*critical_params)),
    {
        Ok(
            ConfigVotingSetup {
                normal_params: ChildCell::with_struct(normal_params),
                critical_params: ChildCell::with_struct(critical_params),
            },
        )
    }

    /// The setup for normal parameters; fails while its cell is empty.
    pub fn read_normal_params(&self) -> (r: Result<ConfigProposalSetup, BlockError>)
        ensures
            r is Ok <==> self.setups().0 is Some,
            r is Ok ==> Some(r->Ok_0) == self.setups().0,
    {
        self.normal_params.read_struct()
    }

    /// Replaces the setup for normal parameters.
    pub fn write_normal_params(&mut self, value: &ConfigProposalSetup) -> (r: Result<(), BlockError>)
        ensures
            r is Ok,
            final(self).setups() == (Some(*value), old(self).setups().1),
    {
        self.normal_params.write_struct(value);
        Ok(())
    }

    /// The setup for critical parameters; fails while its cell is empty.
    pub fn read_critical_params(&self) -> (r: Result<ConfigProposalSetup, BlockError>)
        ensures
            r is Ok <==> self.setups().1 is Some,
            r is Ok ==> Some(r->Ok_0) == self.setups().1,
    {
        self.critical_params.read_struct()
    }

    /// Replaces the setup for critical parameters.
    pub fn write_critical_params(&mut self, value: &ConfigProposalSetup) -> (r: Result<(), BlockError>)
        ensures
            r is Ok,
            final(self).setups() == (old(self).setups().0, Some(*value)),
    {
        self.critical_params.write_struct(value);
        Ok(())
    }
}

/// Descriptions of the workchains by workchain id (config parameter 12).
#[derive(Clone, Debug, Default)]
pub struct ConfigParam12 {
    pub workchains: Vec<(i32, WorkchainDescr)>,
}

impl ConfigParam12 {
    /// No workchain.
    pub fn new() -> (r: Self)
        ensures
            r.workchains@ == Seq::<(i32, WorkchainDescr)>::empty(),
    {
        ConfigParam12 { workchains: Vec::new() }
    }

    /// Number of entries.
    pub fn len(&self) -> (r: Result<usize, BlockError>)
        ensures
            r == Ok::<usize, BlockError>(self.workchains@.len() as usize),
    {
        Ok(self.workchains.len())
    }

    /// Whether there is no workchain.
    pub fn is_empty(&self) -> (r: bool)
        ensures
            r == (self.workchains@.len() == 0),
    {
        self.workchains.len() == 0
    }

    /// Position of the first entry for `workchain_id`, or the length.
    fn position(&self, workchain_id: i32) -> (r: usize)
        ensures
            r == first_index(self.workchains@, workchain_id),
    {
        proof {
            lemma_first_index(self.workchains@, workchain_id);
        }
        let mut i: usize = 0;
        while i < self.workchains.len()
            invariant
                i <= self.workchains@.len(),
                i <= first_index(self.workchains@, workchain_id),
                0 <= first_index(self.workchains@, workchain_id) <= self.workchains@.len(),
                forall|j: int| 0 <= j < first_index(self.workchains@, workchain_id) ==> self.workchains@[j].0 != workchain_id,
                first_index(self.workchains@, workchain_id) < self.workchains@.len() ==> self.workchains@[first_index(self.workchains@, workchain_id)].0 == workchain_id,
            decreases self.workchains@.len() - i,
        {
            if self.workchains[i].0 == workchain_id {
                return i;
            }
            i = i + 1;
        }
        i
    }

    /// The description of workchain `workchain_id`, if any.
    pub fn get(&self, workchain_id: i32) -> (r: Result<Option<WorkchainDescr>, BlockError>)
        ensures
            r == Ok::<Option<WorkchainDescr>, BlockError>(lookup(self.workchains@, workchain_id)),
    {
        proof {
            lemma_first_index(self.workchains@, workchain_id);
        }
        let i = self.position(workchain_id);
        if i < self.workchains.len() {
            Ok(Some(self.workchains[i].1))
        } else {
            Ok(None)
        }
    }

    /// Sets the description of workchain `workchain_id`.
    pub fn insert(&mut self, workchain_id: i32, sp: &WorkchainDescr) -> (r: Result<(), BlockError>)
        ensures
            r is Ok,
            final(self).workchains@ == assign(old(self).workchains@, workchain_id, *sp),
    {
        proof {
            lemma_first_index(self.workchains@, workchain_id);
        }
        let i = self.position(workchain_id);
        if i < self.workchains.len() {
            self.workchains.set(i, (workchain_id, *sp));
        } else {
            self.workchains.push((workchain_id, *sp));
        }
        Ok(())
    }
}

/// Parameters of slashing validators.
#[derive(Clone, Copy, Debug, PartialEq, Eq)]
pub struct SlashingConfig {
    pub slashing_period_mc_blocks_count: u32,
    pub resend_mc_blocks_count: u32,
    pub min_samples_count: u32,
    pub collations_score_weight: u32,
    pub signing_score_weight: u32,
    pub min_slashing_protection_score: u32,
    pub z_param_numerator: u32,
    pub z_param_denominator: u32,
}

/// The default slashing parameters.
pub open spec fn default_slashing_config() -> SlashingConfig {
    SlashingConfig {
        slashing_period_mc_blocks_count: 100,
        resend_mc_blocks_count: 4,
        min_samples_count: 30,
        collations_score_weight: 0,
        signing_score_weight: 1,
        min_slashing_protection_score: 70,
        z_param_numerator: 2326,
        z_param_denominator: 1000,
    }
}

impl SlashingConfig {
    /// The default parameters: 100 blocks per period, 4 to resend, 30 samples, weights 0 and 1,
    /// protection score 70, Z parameter 2326/1000.
    pub fn new() -> (r: Self)
        ensures
            r == default_slashing_config(),
    {
        SlashingConfig {
            slashing_period_mc_blocks_count: 100,
            resend_mc_blocks_count: 4,
            min_samples_count: 30,
            collations_score_weight: 0,
            signing_score_weight: 1,
            min_slashing_protection_score: 70,
            z_param_numerator: 2326,
            z_param_denominator: 1000,
        }
    }
}

impl Default for SlashingConfig {
    fn default() -> (r: Self)
        ensures
            r == default_slashing_config(),
    {
        SlashingConfig::new()
    }
}

/// Slashing parameters (config parameter 40).
#[derive(Clone, Copy, Debug, PartialEq, Eq)]
pub struct ConfigParam40 {
    pub slashing_config: SlashingConfig,
}

impl ConfigParam40 {
    /// The default slashing parameters.
    pub fn new() -> (r: Self)
        ensures
            r.slashing_config == default_slashing_config(),
    {
        ConfigParam40 { slashing_config: SlashingConfig::new() }
    }
}

impl Default for ConfigParam40 {
    fn default() -> (r: Self)
        ensures
            r.slashing_config == default_slashing_config(),
    {
        ConfigParam40::new()
    }
}

/// Levels of a block parameter, from below the underload limit to above the hard limit.
#[derive(Clone, Copy, Debug, PartialEq, Eq, PartialOrd, Ord)]
pub enum ParamLimitIndex {
    Underload,
    Normal,
    Soft,
    Medium,
    Hard,
}

/// Rank of a level, from 0 (underload) to 4 (hard).
pub open spec fn level_rank(l: ParamLimitIndex) -> int {
    match l {
        ParamLimitIndex::Underload => 0,
        ParamLimitIndex::Normal => 1,
        ParamLimitIndex::Soft => 2,
        ParamLimitIndex::Medium => 3,
        ParamLimitIndex::Hard => 4,
    }
}

/// The four limits of a parameter: underload, soft, medium and hard.
pub struct LimitsView {
    pub underload: u32,
    pub soft: u32,
    pub medium: u32,
    pub hard: u32,
}

/// Limits on one block parameter: `underload <= soft <= hard`, the medium limit half-way
/// between soft and hard (rounded down).
#[derive(Copy, Debug, PartialEq, Eq)]
pub struct ParamLimits {
    limits: [u32; 4],
}

impl View for ParamLimits {
    type V = LimitsView;

    closed spec fn view(&self) -> LimitsView {
        LimitsView {
            underload: self.limits[0],
            soft: self.limits[1],
            medium: self.limits[2],
            hard: self.limits[3],
        }
    }
}

/// Limits are ordered and the medium one lies half-way between soft and hard.
pub open spec fn limits_wf(l: LimitsView) -> bool {
    &&& l.underload <= l.soft <= l.hard
    &&& l.medium == l.soft + (l.hard - l.soft) / 2
}

/// The level of `value`: hard from the hard limit on, medium from the medium one, else soft
/// from the soft one, normal from the underload one, and underload below it.
pub open spec fn classify_value(l: LimitsView, value: u32) -> ParamLimitIndex {
    if value >= l.medium {
        if value >= l.hard {
            ParamLimitIndex::Hard
        } else {
            ParamLimitIndex::Medium
        }
    } else if value >= l.underload {
        if value >= l.soft {
            ParamLimitIndex::Soft
        } else {
            ParamLimitIndex::Normal
        }
    } else {
        ParamLimitIndex::Underload
    }
}

/// Whether `value` stays within `level`: below the next limit up (the hard level holds
/// every value).
pub open spec fn fits_level(l: LimitsView, level: ParamLimitIndex, value: u32) -> bool {
    match level {
        ParamLimitIndex::Underload => value < l.underload,
        ParamLimitIndex::Normal => value < l.soft,
        ParamLimitIndex::Soft => value < l.medium,
        ParamLimitIndex::Medium => value < l.hard,
        ParamLimitIndex::Hard => true,
    }
}

impl Clone for ParamLimits {
    fn clone(&self) -> (r: Self)
        ensures
            r == *self,
    {
        *self
    }
}

impl Default for ParamLimits {
    fn default() -> (r: Self)
        ensures
            r@ == (LimitsView { underload: 0, soft: 0, medium: 0, hard: 0 }),
    {
        ParamLimits { limits: [0, 0, 0, 0] }
    }
}

impl ParamLimits {
    #[verifier::type_invariant]
    closed spec fn ordered(self) -> bool {
        limits_wf(self@)
    }

    /// The medium limit: half-way from soft to hard, rounded down.
    fn compute_medium_limit(soft: u32, hard: u32) -> (r: u32)
        requires
            soft <= hard,
        ensures
            r == soft + (hard - soft) / 2,
    {
        let d = hard - soft;
        assert(d >> 1u32 == d / 2) by (bit_vector);
        soft + ((hard - soft) >> 1)
    }

    /// Limits from the underload, soft and hard ones; refused unless
    /// `underload <= soft <= hard`.
    pub fn with_limits(underload: u32, soft: u32, hard: u32) -> (r: Result<Self, BlockError>)
        ensures
            r is Ok <==> (underload <= soft && soft <= hard),
            r is Ok ==> r->Ok_0@ == (LimitsView {
                underload,
                soft,
                medium: (soft + (hard - soft) / 2) as u32,
                hard,
            }),
            r is Err ==> r->Err_0 is InvalidArg,
    {
        if underload > soft {
            return Err(BlockError::InvalidArg(message("underload have to be less or equal to soft limit")));
        }
        if soft > hard {
            return Err(BlockError::InvalidArg(message("soft limit have to be less or equal to hard one")));
        }
        let medium = Self::compute_medium_limit(soft, hard);
        Ok(ParamLimits { limits: [underload, soft, medium, hard] })
    }

    /// The level of `value`.
    pub fn classify(&self, value: u32) -> (r: ParamLimitIndex)
        ensures
            r == classify_value(self@, value),
            limits_wf(self@),
    {
        proof {
            use_type_invariant(self);
        }
        if value >= self.medium() {
            if value >= self.hard_limit() {
                ParamLimitIndex::Hard
            } else {
                ParamLimitIndex::Medium
            }
        } else if value >= self.underload() {
            if value >= self.soft_limit() {
                ParamLimitIndex::Soft
            } else {
                ParamLimitIndex::Normal
            }
        } else {
            ParamLimitIndex::Underload
        }
    }

    /// Whether `value` stays within `level`.
    pub fn fits(&self, level: ParamLimitIndex, value: u32) -> (r: bool)
        ensures
            r == fits_level(self@, level, value),
    {
        match level {
            ParamLimitIndex::Hard => true,
            ParamLimitIndex::Underload => value < self.limits[0],
            ParamLimitIndex::Normal => value < self.limits[1],
            ParamLimitIndex::Soft => value < self.limits[2],
            ParamLimitIndex::Medium => value < self.limits[3],
        }
    }

    /// Whether `value` stays below `percent` per cent of the soft limit
    /// (`value * 100 < soft * percent`, both products in 32 bits).
    pub fn fits_normal(&self, value: u32, percent: u32) -> (r: bool)
        requires
            value * 100 <= u32::MAX,
            self@.soft * percent <= u32::MAX,
        ensures
            r == (value * 100 < self@.soft * percent),
    {
        value * 100 < self.soft_limit() * percent
    }

    /// The underload limit.
    pub fn underload(&self) -> (r: u32)
        ensures
            r == self@.underload,
    {
        self.limits[0]
    }

    /// The soft limit.
    pub fn soft_limit(&self) -> (r: u32)
        ensures
            r == self@.soft,
    {
        self.limits[1]
    }

    /// The medium limit.
    pub fn medium(&self) -> (r: u32)
        ensures
            r == self@.medium,
    {
        self.limits[2]
    }

    /// The hard limit.
    pub fn hard_limit(&self) -> (r: u32)
        ensures
            r == self@.hard,
    {
        self.limits[3]
    }
}

/// For ordered limits: a value always fits the level it is classified at; fitting a level
/// implies fitting every higher one; and the level never falls as the value grows.
pub proof fn law_classify_fits(l: LimitsView, value: u32, other: u32, level: ParamLimitIndex, higher: ParamLimitIndex)
    requires
        limits_wf(l),
    ensures
        fits_level(l, classify_value(l, value), value),
        fits_level(l, level, value) && level_rank(level) <= level_rank(higher) ==> fits_level(l, higher, value),
        value <= other ==> level_rank(classify_value(l, value)) <= level_rank(classify_value(l, other)),
{
}

/// Limits on the size, the gas and the logical time span of a block.
#[derive(Clone, Copy, Debug, Default, PartialEq, Eq)]
pub struct BlockLimits {
    bytes: ParamLimits,
    gas: ParamLimits,
    lt_delta: ParamLimits,
}

impl BlockLimits {
    /// The limits of the three parameters.
    pub closed spec fn spec_limits(&self) -> (LimitsView, LimitsView, LimitsView) {
        (self.bytes@, self.gas@, self.lt_delta@)
    }

    /// Limits made of the given ones.
    pub fn with_limits(bytes: ParamLimits, gas: ParamLimits, lt_delta: ParamLimits) -> (r: Self)
        ensures
            r.spec_limits() == (bytes@, gas@, lt_delta@),
    {
        BlockLimits { bytes, gas, lt_delta }
    }

    /// Limits on the size in bytes.
    pub fn bytes(&self) -> (r: &ParamLimits)
        ensures
            r@ == self.spec_limits().0,
    {
        &self.bytes
    }

    /// Limits on the gas.
    pub fn gas(&self) -> (r: &ParamLimits)
        ensures
            r@ == self.spec_limits().1,
    {
        &self.gas
    }

    /// Limits on the logical time span.
    pub fn lt_delta(&self) -> (r: &ParamLimits)
        ensures
            r@ == self.spec_limits().2,
    {
        &self.lt_delta
    }

    /// Whether all three parameters stay within `level`.
    pub fn fits(&self, level: ParamLimitIndex, bytes: u32, gas: u32, lt_delta: u32) -> (r: bool)
        ensures
            r == (fits_level(self.spec_limits().1, level, gas) && fits_level(self.spec_limits().0, level, bytes)
                && fits_level(self.spec_limits().2, level, lt_delta)),
    {
        self.gas.fits(level, gas) && self.bytes.fits(level, bytes) && self.lt_delta.fits(level, lt_delta)
    }

    /// Whether all three parameters stay below `percent` per cent of their soft limits.
    /// The checks run in order gas, bytes, logical time, and stop at the first that fails.
    pub fn fits_normal(&self, bytes: u32, gas: u32, lt_delta: u32, percent: u32) -> (r: bool)
        requires
            gas * 100 <= u32::MAX,
            self.spec_limits().1.soft * percent <= u32::MAX,
            gas * 100 < self.spec_limits().1.soft * percent ==> bytes * 100 <= u32::MAX
                && self.spec_limits().0.soft * percent <= u32::MAX,
            gas * 100 < self.spec_limits().1.soft * percent && bytes * 100 < self.spec_limits().0.soft * percent
                ==> lt_delta * 100 <= u32::MAX && self.spec_limits().2.soft * percent <= u32::MAX,
        ensures
            r == (gas * 100 < self.spec_limits().1.soft * percent && bytes * 100 < self.spec_limits().0.soft
                * percent && lt_delta * 100 < self.spec_limits().2.soft * percent),
    {
        self.gas.fits_normal(gas, percent) && self.bytes.fits_normal(bytes, percent) && self.lt_delta.fits_normal(lt_delta, percent)
    }
}

/// Copyleft settings: the threshold from which rewards are paid out, and the license
/// rates by license type.
#[derive(Clone, Debug, Default)]
pub struct ConfigCopyleft {
    pub copyleft_reward_threshold: Grams,
    pub license_rates: Vec<(u8, u8)>,
}

impl ConfigCopyleft {
    /// Threshold zero, no license rates.
    pub fn new() -> (r: Self)
        ensures
            r.copyleft_reward_threshold@ == 0,
            r.license_rates@ == Seq::<(u8, u8)>::empty(),
    {
        ConfigCopyleft { copyleft_reward_threshold: Grams::zero(), license_rates: Vec::new() }
    }
}

/// The fields of a temporary validator key.
pub struct ValidatorTempKeyView {
    pub adnl_addr: UInt256,
    pub temp_public_key: SigPubKey,
    pub seqno: u32,
    pub valid_until: u32,
}

/// A temporary key of a validator: its ADNL address, the key, a sequence number and the
/// time until which it is valid.
#[derive(Clone, Copy, Debug, PartialEq, Eq)]
pub struct ValidatorTempKey {
    adnl_addr: UInt256,
    temp_public_key: SigPubKey,
    seqno: u32,
    valid_until: u32,
}

impl View for ValidatorTempKey {
    type V = ValidatorTempKeyView;

    closed spec fn view(&self) -> ValidatorTempKeyView {
        ValidatorTempKeyView {
            adnl_addr: self.adnl_addr,
            temp_public_key: self.temp_public_key,
            seqno: self.seqno,
            valid_until: self.valid_until,
        }
    }
}

impl ValidatorTempKey {
    /// Zero address and key, sequence number and validity zero.
    pub fn new() -> (r: Self)
        ensures
            r@.adnl_addr@ == Seq::new(32, |i: int| 0u8),
            r@.temp_public_key@ == Seq::new(32, |i: int| 0u8),
            r@.seqno == 0,
            r@.valid_until == 0,
    {
        ValidatorTempKey { adnl_addr: UInt256::new(), temp_public_key: SigPubKey::default(), seqno: 0, valid_until: 0 }
    }

    /// The given address, key, sequence number and validity.
    pub fn with_params(adnl_addr: UInt256, temp_public_key: SigPubKey, seqno: u32, valid_until: u32) -> (r: Self)
        ensures
            r@ == (ValidatorTempKeyView { adnl_addr, temp_public_key, seqno, valid_until }),
    {
        ValidatorTempKey { adnl_addr, temp_public_key, seqno, valid_until }
    }

    /// Sets the ADNL address.
    pub fn set_adnl_addr(&mut self, adnl_addr: UInt256)
        ensures
            final(self)@ == (ValidatorTempKeyView { adnl_addr, ..old(self)@ }),
    {
        self.adnl_addr = adnl_addr;
    }

    /// The ADNL address.
    pub fn adnl_addr(&self) -> (r: &UInt256)
        ensures
            *r == self@.adnl_addr,
    {
        &self.adnl_addr
    }

    /// Sets the key.
    pub fn set_key(&mut self, temp_public_key: SigPubKey)
        ensures
            final(self)@ == (ValidatorTempKeyView { temp_public_key, ..old(self)@ }),
    {
        self.temp_public_key = temp_public_key;
    }

    /// The key.
    pub fn temp_public_key(&self) -> (r: &SigPubKey)
        ensures
            *r == self@.temp_public_key,
    {
        &self.temp_public_key
    }

    /// Sets the sequence number.
    pub fn set_seqno(&mut self, seqno: u32)
        ensures
            final(self)@ == (ValidatorTempKeyView { seqno, ..old(self)@ }),
    {
        self.seqno = seqno;
    }

    /// The sequence number.
    pub fn seqno(&self) -> (r: u32)
        ensures
            r == self@.seqno,
    {
        self.seqno
    }

    /// Sets the time until which the key is valid.
    pub fn set_valid_until(&mut self, valid_until: u32)
        ensures
            final(self)@ == (ValidatorTempKeyView { valid_until, ..old(self)@ }),
    {
        self.valid_until = valid_until;
    }

    /// The time until which the key is valid.
    pub fn valid_until(&self) -> (r: u32)
        ensures
            r == self@.valid_until,
    {
        self.valid_until
    }
}

/// A temporary validator key with its signature.
#[derive(Clone, Copy, Debug, PartialEq, Eq)]
pub struct ValidatorSignedTempKey {
    key: ValidatorTempKey,
    signature: CryptoSignature,
}

impl ValidatorSignedTempKey {
    /// The key and the signature.
    pub closed spec fn parts(&self) -> (ValidatorTempKey, CryptoSignature) {
        (self.key, self.signature)
    }

    /// The given key and signature.
    pub fn with_key_and_signature(key: ValidatorTempKey, signature: CryptoSignature) -> (r: Self)
        ensures
            r.parts() == (key, signature),
    {
        ValidatorSignedTempKey { key, signature }
    }

    /// The key.
    pub fn key(&self) -> (r: &ValidatorTempKey)
        ensures
            *r == self.parts().0,
    {
        &self.key
    }

    /// The signature.
    pub fn signature(&self) -> (r: &CryptoSignature)
        ensures
            *r == self.parts().1,
    {
        &self.signature
    }
}

/// Signed temporary keys of the validators by public key (config parameter 39).
#[derive(Clone, Debug, Default)]
pub struct ConfigParam39 {
    pub validator_keys: Vec<(UInt256, ValidatorSignedTempKey)>,
}

impl ConfigParam39 {
    /// No key.
    pub fn new() -> (r: Self)
        ensures
            r.validator_keys@ == Seq::<(UInt256, ValidatorSignedTempKey)>::empty(),
    {
        ConfigParam39 { validator_keys: Vec::new() }
    }

    /// Number of entries.
    pub fn len(&self) -> (r: Result<usize, BlockError>)
        ensures
            r == Ok::<usize, BlockError>(self.validator_keys@.len() as usize),
    {
        Ok(self.validator_keys.len())
    }

    /// Whether there is no key.
    pub fn is_empty(&self) -> (r: bool)
        ensures
            r == (self.validator_keys@.len() == 0),
    {
        self.validator_keys.len() == 0
    }

    /// Position of the first entry for `key`, or the length.
    fn position(&self, key: &UInt256) -> (r: usize)
        ensures
            r == first_index(self.validator_keys@, *key),
    {
        proof {
            lemma_first_index(self.validator_keys@, *key);
        }
        let mut i: usize = 0;
        while i < self.validator_keys.len()
            invariant
                i <= self.validator_keys@.len(),
                i <= first_index(self.validator_keys@, *key),
                0 <= first_index(self.validator_keys@, *key) <= self.validator_keys@.len(),
                forall|j: int| 0 <= j < first_index(self.validator_keys@, *key) ==> self.validator_keys@[j].0 != *key,
                first_index(self.validator_keys@, *key) < self.validator_keys@.len() ==> self.validator_keys@[first_index(self.validator_keys@, *key)].0 == *key,
            decreases self.validator_keys@.len() - i,
        {
            if self.validator_keys[i].0.equals(key) {
                return i;
            }
            i = i + 1;
        }
        i
    }

    /// The signed key of `key`; fails with `InvalidArg` when there is none.
    pub fn get(&self, key: &UInt256) -> (r: Result<ValidatorSignedTempKey, BlockError>)
        ensures
            r is Ok <==> lookup(self.validator_keys@, *key) is Some,
            r is Ok ==> Some(r->Ok_0) == lookup(self.validator_keys@, *key),
            r is Err ==> r->Err_0 is InvalidArg,
    {
        proof {
            lemma_first_index(self.validator_keys@, *key);
        }
        let i = self.position(key);
        if i < self.validator_keys.len() {
            Ok(self.validator_keys[i].1)
        } else {
            Err(BlockError::InvalidArg(message("no temporary key for this validator")))
        }
    }

    /// Sets the signed key of `key`.
    pub fn insert(&mut self, key: &UInt256, validator_key: &ValidatorSignedTempKey) -> (r: Result<(), BlockError>)
        ensures
            r is Ok,
            final(self).validator_keys@ == assign(old(self).validator_keys@, *key, *validator_key),
    {
        proof {
            lemma_first_index(self.validator_keys@, *key);
        }
        let i = self.position(key);
        if i < self.validator_keys.len() {
            self.validator_keys.set(i, (*key, *validator_key));
        } else {
            self.validator_keys.push((*key, *validator_key));
        }
        Ok(())
    }
}

/// A configuration parameter, by its number. `ConfigParamAny` holds a parameter of any other
/// number as its stored bytes.
#[derive(Debug)]
pub enum ConfigParamEnum {
    ConfigParam0(ConfigParam0),
    ConfigParam1(ConfigParam1),
    ConfigParam2(ConfigParam2),
    ConfigParam3(ConfigParam3),
    ConfigParam4(ConfigParam4),
    ConfigParam5(ConfigParam5),
    ConfigParam6(ConfigParam6),
    ConfigParam7(ConfigParam7),
    ConfigParam8(ConfigParam8),
    ConfigParam9(ConfigParam9),
    ConfigParam10(ConfigParam10),
    ConfigParam11(ConfigVotingSetup),
    ConfigParam12(ConfigParam12),
    ConfigParam14(ConfigParam14),
    ConfigParam15(ConfigParam15),
    ConfigParam16(ConfigParam16),
    ConfigParam17(ConfigParam17),
    ConfigParam18(ConfigParam18),
    ConfigParam20(GasLimitsPrices),
    ConfigParam21(GasLimitsPrices),
    ConfigParam22(BlockLimits),
    ConfigParam23(BlockLimits),
    ConfigParam24(MsgForwardPrices),
    ConfigParam25(MsgForwardPrices),
    ConfigParam28(CatchainConfig),
    ConfigParam29(ConfigParam29),
    ConfigParam31(ConfigParam31),
    ConfigParam39(ConfigParam39),
    ConfigParam40(ConfigParam40),
    ConfigParam42(ConfigCopyleft),
    ConfigParamAny(u32, Vec<u8>),
}

/// The number of a configuration parameter.
pub open spec fn config_param_number(p: &ConfigParamEnum) -> u32 {
    match *p {
        ConfigParamEnum::ConfigParam0(_) => 0,
        ConfigParamEnum::ConfigParam1(_) => 1,
        ConfigParamEnum::ConfigParam2(_) => 2,
        ConfigParamEnum::ConfigParam3(_) => 3,
        ConfigParamEnum::ConfigParam4(_) => 4,
        ConfigParamEnum::ConfigParam5(_) => 5,
        ConfigParamEnum::ConfigParam6(_) => 6,
        ConfigParamEnum::ConfigParam7(_) => 7,
        ConfigParamEnum::ConfigParam8(_) => 8,
        ConfigParamEnum::ConfigParam9(_) => 9,
        ConfigParamEnum::ConfigParam10(_) => 10,
        ConfigParamEnum::ConfigParam11(_) => 11,
        ConfigParamEnum::ConfigParam12(_) => 12,
        ConfigParamEnum::ConfigParam14(_) => 14,
        ConfigParamEnum::ConfigParam15(_) => 15,
        ConfigParamEnum::ConfigParam16(_) => 16,
        ConfigParamEnum::ConfigParam17(_) => 17,
        ConfigParamEnum::ConfigParam18(_) => 18,
        ConfigParamEnum::ConfigParam20(_) => 20,
        ConfigParamEnum::ConfigParam21(_) => 21,
        ConfigParamEnum::ConfigParam22(_) => 22,
        ConfigParamEnum::ConfigParam23(_) => 23,
        ConfigParamEnum::ConfigParam24(_) => 24,
        ConfigParamEnum::ConfigParam25(_) => 25,
        ConfigParamEnum::ConfigParam28(_) => 28,
        ConfigParamEnum::ConfigParam29(_) => 29,
        ConfigParamEnum::ConfigParam31(_) => 31,
        ConfigParamEnum::ConfigParam39(_) => 39,
        ConfigParamEnum::ConfigParam40(_) => 40,
        ConfigParamEnum::ConfigParam42(_) => 42,
        ConfigParamEnum::ConfigParamAny(n, _) => n,
    }
}

impl ConfigParamEnum {
    /// Adds the parameter as the next child of a cell whose children are `cell`, and returns
    /// its number. Fails, adding nothing, when the cell already holds `MAX_REFERENCES_COUNT`
    /// children.
    pub fn write_to_cell<'a>(&'a self, cell: &mut Vec<&'a ConfigParamEnum>) -> (r: Result<u32, BlockError>)
        ensures
            r is Ok <==> old(cell)@.len() < MAX_REFERENCES_COUNT,
            r is Ok ==> final(cell)@ == old(cell)@.push(self) && r->Ok_0 == config_param_number(self),
            r is Err ==> final(cell)@ == old(cell)@,
    {
        if cell.len() >= MAX_REFERENCES_COUNT {
            return Err(BlockError::InvalidOperation(message("cell can't hold more references")));
        }
        cell.push(self);
        let n: u32 = match self {
            ConfigParamEnum::ConfigParam0(_) => 0,
            ConfigParamEnum::ConfigParam1(_) => 1,
            ConfigParamEnum::ConfigParam2(_) => 2,
            ConfigParamEnum::ConfigParam3(_) => 3,
            ConfigParamEnum::ConfigParam4(_) => 4,
            ConfigParamEnum::ConfigParam5(_) => 5,
            ConfigParamEnum::ConfigParam6(_) => 6,
            ConfigParamEnum::ConfigParam7(_) => 7,
            ConfigParamEnum::ConfigParam8(_) => 8,
            ConfigParamEnum::ConfigParam9(_) => 9,
            ConfigParamEnum::ConfigParam10(_) => 10,
            ConfigParamEnum::ConfigParam11(_) => 11,
            ConfigParamEnum::ConfigParam12(_) => 12,
            ConfigParamEnum::ConfigParam14(_) => 14,
            ConfigParamEnum::ConfigParam15(_) => 15,
            ConfigParamEnum::ConfigParam16(_) => 16,
            ConfigParamEnum::ConfigParam17(_) => 17,
            ConfigParamEnum::ConfigParam18(_) => 18,
            ConfigParamEnum::ConfigParam20(_) => 20,
            ConfigParamEnum::ConfigParam21(_) => 21,
            ConfigParamEnum::ConfigParam22(_) => 22,
            ConfigParamEnum::ConfigParam23(_) => 23,
            ConfigParamEnum::ConfigParam24(_) => 24,
            ConfigParamEnum::ConfigParam25(_) => 25,
            ConfigParamEnum::ConfigParam28(_) => 28,
            ConfigParamEnum::ConfigParam29(_) => 29,
            ConfigParamEnum::ConfigParam31(_) => 31,
            ConfigParamEnum::ConfigParam39(_) => 39,
            ConfigParamEnum::ConfigParam40(_) => 40,
            ConfigParamEnum::ConfigParam42(_) => 42,
            ConfigParamEnum::ConfigParamAny(index, _) => *index,
        };
        Ok(n)
    }
}

} // verus!
