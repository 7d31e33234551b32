use ton_block::config_params::{ConfigParam0, ConfigParam40, ConfigParamEnum};
use ton_block::config_params::{
    BlockLimits, ConfigParam12, ConfigParam18, ConfigParam31, ConfigParam39, ConfigProposalSetup, ConfigVotingSetup,
    GasLimitsPrices, GlobalCapabilities, GlobalVersion, ParamLimitIndex, ParamLimits, SlashingConfig, StoragePrices,
    ValidatorSignedTempKey, ValidatorTempKey, WorkchainDescr, WorkchainFormat0,
};
use ton_block::signature::{CryptoSignature, SigPubKey};
use ton_block::types::UInt256;

fn prices() -> GasLimitsPrices {
    let mut g = GasLimitsPrices::new();
    g.gas_price = 655_360;
    g.flat_gas_limit = 100;
    g.flat_gas_price = 1000;
    g.gas_limit = 1_000_000;
    g.max_gas_threshold = 10_000_000;
    g
}

#[test]
fn gas_fee_flat_and_above() {
    let g = prices();
    assert_eq!(g.calc_gas_fee(50), 1000);
    assert_eq!(g.calc_gas_fee(100), 1000);
    assert_eq!(g.calc_gas_fee(150), 1500);
    assert_eq!(g.calc_gas_fee(101), 1010);
    assert_eq!(g.get_real_gas_price(), 10);
}

#[test]
fn gas_for_value() {
    let g = prices();
    assert_eq!(g.calc_gas(999), 0);
    assert_eq!(g.calc_gas(1500), 150);
    assert_eq!(g.calc_gas(10_000_000), 1_000_000);
    assert_eq!(g.calc_max_gas_threshold(), 10_000_000);
}

#[test]
fn param_limits_classify() {
    let l = ParamLimits::with_limits(10, 20, 30).unwrap();
    assert_eq!(l.medium(), 25);
    assert_eq!(l.classify(5), ParamLimitIndex::Underload);
    assert_eq!(l.classify(15), ParamLimitIndex::Normal);
    assert_eq!(l.classify(22), ParamLimitIndex::Soft);
    assert_eq!(l.classify(26), ParamLimitIndex::Medium);
    assert_eq!(l.classify(30), ParamLimitIndex::Hard);
    assert!(l.fits(ParamLimitIndex::Normal, 19));
    assert!(!l.fits(ParamLimitIndex::Normal, 20));
    assert!(l.fits(ParamLimitIndex::Hard, u32::MAX));
    assert!(l.fits_normal(10, 60));
    assert!(!l.fits_normal(12, 60));
}

#[test]
fn param_limits_order_is_checked() {
    assert!(ParamLimits::with_limits(30, 20, 10).is_err());
    assert!(ParamLimits::with_limits(10, 20, 10).is_err());
    assert!(ParamLimits::with_limits(5, 5, 5).is_ok());
}

#[test]
fn block_limits_fit_all_three() {
    let bytes = ParamLimits::with_limits(10, 20, 30).unwrap();
    let gas = ParamLimits::with_limits(100, 200, 300).unwrap();
    let lt = ParamLimits::with_limits(1, 2, 3).unwrap();
    let b = BlockLimits::with_limits(bytes, gas, lt);
    assert_eq!(b.gas().soft_limit(), 200);
    assert!(b.fits(ParamLimitIndex::Medium, 29, 299, 2));
    assert!(!b.fits(ParamLimitIndex::Medium, 29, 299, 3));
    assert!(b.fits_normal(5, 50, 0, 50));
    assert!(!b.fits_normal(10, 50, 0, 50));
}

#[test]
fn capabilities() {
    let v = GlobalVersion { version: 1, capabilities: 0x0000_0001_0000 | 0x4 };
    assert!(v.has_capability(GlobalCapabilities::CapFullBodyInBounced));
    assert!(v.has_capability(GlobalCapabilities::CapBounceMsgBody));
    assert!(!v.has_capability(GlobalCapabilities::CapIhrEnabled));
    assert!(!v.has_capability(GlobalCapabilities::CapNone));
    assert_eq!(GlobalCapabilities::CapCommonMessage.bit(), 0x0008_0000_0000);
}

#[test]
fn workchain_format_bounds() {
    assert!(WorkchainFormat0::with_params(63, 100, 0, 1).is_err());
    assert!(WorkchainFormat0::with_params(64, 1024, 0, 1).is_err());
    assert!(WorkchainFormat0::with_params(64, 100, 1024, 1).is_err());
    assert!(WorkchainFormat0::with_params(64, 100, 0, 0).is_err());
    let mut f = WorkchainFormat0::with_params(64, 100, 8, 2).unwrap();
    assert_eq!(f.max_addr_len(), 100);
    assert!(f.set_max_addr_len(1023).is_ok());
    assert!(f.set_max_addr_len(1024).is_err());
    assert_eq!(f.max_addr_len(), 1023);
    assert!(f.set_max_addr_len(63).is_err());
    assert!(f.set_min_addr_len(1024).is_err());
    assert!(f.set_addr_len_step(1023).is_ok());
    assert!(f.set_addr_len_step(1024).is_err());
    assert_eq!(f.addr_len_step(), 1023);
    assert!(f.set_workchain_type_id(0).is_err());
    assert_eq!(f.workchain_type_id(), 2);
    let d = WorkchainFormat0::new();
    assert_eq!(d.min_addr_len(), 64);
    assert_eq!(d.addr_len_step(), 0);
}

#[test]
fn workchain_descr_splits() {
    let mut d = WorkchainDescr::new();
    assert!(d.basic());
    assert!(d.set_min_split(61).is_err());
    d.set_min_split(4).unwrap();
    assert!(d.set_max_split(3).is_err());
    d.set_max_split(10).unwrap();
    assert_eq!(d.min_split(), 4);
    assert_eq!(d.max_split(), 10);
    assert_eq!(d.actual_min_split(), 0);
}

#[test]
fn workchains_insert_and_get() {
    let mut p = ConfigParam12::new();
    assert!(p.is_empty());
    let mut d = WorkchainDescr::new();
    d.enabled_since = 7;
    p.insert(0, &d).unwrap();
    assert_eq!(p.get(0).unwrap().unwrap().enabled_since, 7);
    assert!(p.get(1).unwrap().is_none());
    d.enabled_since = 9;
    p.insert(0, &d).unwrap();
    assert_eq!(p.len().unwrap(), 1);
    assert_eq!(p.get(0).unwrap().unwrap().enabled_since, 9);
}

#[test]
fn storage_prices_by_index() {
    let mut p = ConfigParam18::default();
    assert!(p.is_empty());
    let mut sp = StoragePrices::new();
    sp.utime_since = 11;
    p.insert(&sp).unwrap();
    sp.utime_since = 22;
    p.insert(&sp).unwrap();
    assert_eq!(p.len().unwrap(), 2);
    assert_eq!(p.get(1).unwrap().utime_since, 22);
    assert!(p.get(2).is_err());
}

#[test]
fn validator_keys_insert_and_get() {
    let mut p = ConfigParam39::new();
    let key = UInt256::with_array([1; 32]);
    let tk = ValidatorTempKey::with_params(UInt256::new(), SigPubKey::with_bytes([2; 32]), 3, 4);
    let signed = ValidatorSignedTempKey::with_key_and_signature(tk, CryptoSignature::with_bytes([5; 64]));
    assert!(p.get(&key).is_err());
    p.insert(&key, &signed).unwrap();
    assert_eq!(p.get(&key).unwrap().key().seqno(), 3);
    assert!(!p.is_empty());
}

#[test]
fn fundamental_addresses_are_a_set() {
    let mut p = ConfigParam31::new();
    p.add_address(UInt256::with_array([1; 32]));
    p.add_address(UInt256::with_array([1; 32]));
    p.add_address(UInt256::with_array([2; 32]));
    assert_eq!(p.fundamental_smc_addr.len(), 2);
}

#[test]
fn voting_setup_cells() {
    let normal = ConfigProposalSetup { min_tot_rounds: 1, ..ConfigProposalSetup::default() };
    let critical = ConfigProposalSetup { min_tot_rounds: 2, ..ConfigProposalSetup::default() };
    let mut v = ConfigVotingSetup::new(&normal, &critical).unwrap();
    assert_eq!(v.read_normal_params().unwrap().min_tot_rounds, 1);
    v.write_critical_params(&normal).unwrap();
    assert_eq!(v.read_critical_params().unwrap().min_tot_rounds, 1);
    assert!(ConfigVotingSetup::default().read_normal_params().is_err());
}

#[test]
fn slashing_defaults() {
    let s = SlashingConfig::new();
    assert_eq!(s.slashing_period_mc_blocks_count, 100);
    assert_eq!(s.z_param_numerator, 2326);
    assert_eq!(s.z_param_denominator, 1000);
}

#[test]
fn gas_below_consistent_threshold_stays_within_limit() {
    let mut g = prices();
    g.max_gas_threshold = g.calc_max_gas_threshold();
    assert_eq!(g.max_gas_threshold, 1000 + 655_360 * (1_000_000 - 100) / 65536);
    assert_eq!(g.calc_gas(g.max_gas_threshold - 1), 999_999);
    assert_eq!(g.calc_gas(g.max_gas_threshold), 1_000_000);
    assert_eq!(g.calc_gas(999), 0);
    let fee = g.calc_gas_fee(g.gas_limit);
    assert!(fee >= g.max_gas_threshold && fee <= g.max_gas_threshold + 1);
}

#[test]
fn config_params_go_to_cells_by_number() {
    let a = ConfigParamEnum::ConfigParam0(ConfigParam0::new());
    let b = ConfigParamEnum::ConfigParam20(prices());
    let c = ConfigParamEnum::ConfigParam40(ConfigParam40::new());
    let d = ConfigParamEnum::ConfigParamAny(77, vec![1, 2]);
    let e = ConfigParamEnum::ConfigParam21(prices());
    let mut cell = Vec::new();
    assert_eq!(a.write_to_cell(&mut cell).unwrap(), 0);
    assert_eq!(b.write_to_cell(&mut cell).unwrap(), 20);
    assert_eq!(c.write_to_cell(&mut cell).unwrap(), 40);
    assert_eq!(d.write_to_cell(&mut cell).unwrap(), 77);
    assert_eq!(cell.len(), 4);
    assert!(e.write_to_cell(&mut cell).is_err());
    assert_eq!(cell.len(), 4);
}

#[test]
fn gas_bought_below_threshold_costs_at_most_the_value() {
    let mut g = prices();
    g.max_gas_threshold = g.calc_max_gas_threshold();
    for v in [1000u128, 1001, 5000, 123_456, 9_999_999] {
        let gas = g.calc_gas(v);
        assert!(gas < g.gas_limit);
        assert!(g.calc_gas_fee(gas) <= v);
    }
}
