use ton_block::master::{BlockCreateStats, Counters, CreatorStats, FutureSplitMerge, KeyExtBlkRef, KeyMaxLt, McShardRecord, ShardDescr, ShardFeeCreated, ShardIdentFull};
use ton_block::blocks::ExtBlkRef;
use ton_block::messages::CurrencyCollection;
use ton_block::shard::ShardIdent;

#[test]
fn first_count_sets_everything() {
    let mut c = Counters::default();
    assert!(c.is_valid());
    assert!(c.is_zero());
    assert!(c.increase_by_decayed(5, 100, 0, 0));
    assert_eq!(c.total(), 5);
    assert_eq!(c.last_updated(), 100);
    assert_eq!(c.cnt2048(), 5u64 << 32);
    assert_eq!(c.cnt65536(), 5u64 << 32);
    assert!(c.is_valid());
    assert!(c.modified_since(100));
    assert!(!c.modified_since(101));
}

#[test]
fn count_at_same_time_adds() {
    let mut c = Counters::default();
    c.increase_by_decayed(5, 100, 0, 0);
    assert_eq!(c.decay_exponents(100), (None, None));
    let (a, b) = (c.cnt2048(), c.cnt65536());
    assert!(c.increase_by_decayed(1, 100, a, b));
    assert_eq!(c.total(), 6);
    assert_eq!(c.cnt2048(), 6u64 << 32);
}

#[test]
fn later_count_uses_decayed_values() {
    let mut c = Counters::default();
    c.increase_by_decayed(5, 100, 0, 0);
    assert_eq!(c.decay_exponents(200), (Some(3200), Some(100)));
    assert!(c.increase_by_decayed(1, 200, 7, 9));
    assert_eq!(c.cnt2048(), 7 + (1u64 << 32));
    assert_eq!(c.cnt65536(), 9 + (1u64 << 32));
    assert_eq!(c.last_updated(), 200);
    assert_eq!(c.total(), 6);
}

#[test]
fn old_counts_decay_to_zero() {
    let mut c = Counters::default();
    c.increase_by_decayed(1, 1, 0, 0);
    let now = 1 + 48 * 2048;
    assert_eq!(c.decay_exponents(now), (None, Some(48 * 2048)));
    assert!(c.increase_by_decayed(1, now, 123, 5));
    assert_eq!(c.cnt2048(), 1u64 << 32);
    assert_eq!(c.cnt65536(), 5 + (1u64 << 32));
}

#[test]
fn overflowing_count_is_refused() {
    let mut c = Counters::default();
    c.increase_by_decayed(1, 1, 0, 0);
    let before = c;
    assert!(!c.increase_by_decayed(u64::MAX, 2, 0, 0));
    assert_eq!(c, before);
}

#[test]
fn first_count_at_time_zero_is_inconsistent() {
    let mut c = Counters::default();
    assert!(c.increase_by_decayed(1, 0, 0, 0));
    assert!(!c.is_valid());
    assert!(!c.increase_by_decayed(1, 5, 0, 0));
}

#[test]
fn almost_equal_counters() {
    let mut a = Counters::default();
    a.increase_by_decayed(2, 10, 0, 0);
    let b = a;
    assert!(a.almost_equals(&b));
    assert!(Counters::default().almost_zero());
    assert!(!a.almost_zero());
}

#[test]
fn key_max_lt_merges() {
    let mut a = KeyMaxLt { key: false, max_end_lt: 10 };
    assert!(a.calc(&KeyMaxLt { key: true, max_end_lt: 5 }));
    assert_eq!(a, KeyMaxLt { key: true, max_end_lt: 10 });
    assert!(a.calc(&KeyMaxLt { key: false, max_end_lt: 50 }));
    assert_eq!(a, KeyMaxLt { key: true, max_end_lt: 50 });
    assert_eq!(KeyMaxLt::new(), KeyMaxLt::default());
}

#[test]
fn key_ext_blk_ref_ids() {
    let r = KeyExtBlkRef { key: true, blk_ref: ExtBlkRef { end_lt: 9, seq_no: 4, ..ExtBlkRef::default() } };
    let (lt, id, key) = r.master_block_id();
    assert_eq!(lt, 9);
    assert_eq!(id.seq_no(), 4);
    assert_eq!(*id.shard(), ShardIdent::masterchain());
    assert!(key);
    assert!(r.key());
    assert_eq!(r.blk_ref().seq_no, 4);
}

#[test]
fn stats_tags() {
    assert_eq!(CreatorStats::tag(), 4);
    assert_eq!(CreatorStats::tag_len_bits(), 4);
    assert_eq!(BlockCreateStats::tag(), 0x17);
    assert_eq!(BlockCreateStats::tag_len_bits(), 8);
    let s = CreatorStats::default();
    assert!(s.mc_blocks().is_zero());
    assert!(s.shard_blocks().is_zero());
    assert_eq!(FutureSplitMerge::default(), FutureSplitMerge::Unplanned);
}

#[test]
fn shard_fee_created() {
    let f = ShardFeeCreated::with_fee(CurrencyCollection::with_grams(7));
    assert_eq!(f.fees.grams.as_u128(), 7);
    assert!(f.create.grams.is_zero());
    assert!(ShardFeeCreated::new().fees.grams.is_zero());
}

#[test]
fn shard_ident_full_text_form() {
    let s = ShardIdentFull { workchain_id: -1, prefix: 0x8000_0000_0000_0000 };
    assert_eq!(s.to_text(), "-1:8000000000000000");
}

#[test]
fn shard_descr_split_merge_plan() {
    let plan = FutureSplitMerge::Split { split_utime: 100, interval: 20 };
    let d = ShardDescr::with_params(5, 10, 20, ton_block::types::UInt256::new(), plan);
    assert!(d.is_fsm_split() && !d.is_fsm_merge() && !d.is_fsm_none());
    assert_eq!((d.fsm_utime(), d.fsm_utime_end(), d.fsm_interval()), (100, 120, 20));
    let m = ShardDescr::with_params(5, 10, 20, ton_block::types::UInt256::new(), FutureSplitMerge::Merge { merge_utime: 7, interval: 3 });
    assert!(m.is_fsm_merge());
    assert_eq!((m.fsm_utime(), m.fsm_utime_end(), m.fsm_interval()), (7, 10, 3));
    assert!(!d.fsm_equal(&m));
    assert!(d.fsm_equal(&d.clone()));
    let n = ShardDescr::with_params(1, 0, 0, ton_block::types::UInt256::new(), FutureSplitMerge::Unplanned);
    assert!(n.is_fsm_none());
    assert_eq!((n.fsm_utime(), n.fsm_utime_end(), n.fsm_interval()), (0, 0, 0));
    assert_eq!(n.seq_no, 1);
}

#[test]
fn mc_shard_record_basic_info() {
    let shard = ShardIdent::with_tagged_prefix(0, 0x4000_0000_0000_0000).unwrap();
    let mut descr = ShardDescr::with_params(9, 100, 200, ton_block::types::UInt256::with_array([1; 32]), FutureSplitMerge::Unplanned);
    descr.reg_mc_seqno = 3;
    let a = McShardRecord::from_shard_descr(shard, descr.clone());
    assert_eq!(a.block_id().seq_no, 9);
    assert_eq!(a.shard(), &shard);
    assert!(a.basic_info_equal(&a.clone(), true, true));
    let mut descr2 = descr.clone();
    descr2.reg_mc_seqno = 4;
    descr2.fees_collected = CurrencyCollection::with_grams(5);
    let b = McShardRecord::from_shard_descr(shard, descr2);
    assert!(a.basic_info_equal(&b, false, false));
    assert!(!a.basic_info_equal(&b, false, true));
    assert!(!a.basic_info_equal(&b, true, false));
    let mut descr3 = descr.clone();
    descr3.end_lt = 201;
    let c = McShardRecord::from_shard_descr(shard, descr3);
    assert!(!a.basic_info_equal(&c, false, false));
    let other_shard = ShardIdent::with_tagged_prefix(0, 0xc000_0000_0000_0000).unwrap();
    let d = McShardRecord::from_shard_descr(other_shard, descr);
    assert!(!a.basic_info_equal(&d, false, false));
}

#[test]
fn currency_collection_equality() {
    let mut x = CurrencyCollection::with_grams(7);
    let mut y = CurrencyCollection::with_grams(7);
    assert!(x.equals(&y));
    x.set_other(1, 100);
    assert!(!x.equals(&y));
    y.set_other(1, 100);
    assert!(x.equals(&y));
    y.set_other(2, 1);
    assert!(!x.equals(&y));
    assert!(!y.equals(&x));
}

#[test]
fn default_counters_count_up() {
    let mut c = Counters::default();
    assert!(c.is_valid());
    assert!(c.increase_by_decayed(3, 100, 0, 0));
    assert_eq!(c.total(), 3);
    assert_eq!(c.cnt2048(), 3u64 << 32);
    assert_eq!(c.cnt65536(), 3u64 << 32);
    assert_eq!(c.last_updated(), 100);
    let (a, b) = (c.cnt2048(), c.cnt65536());
    assert!(c.increase_by_decayed(2, 100, a, b));
    assert_eq!(c.total(), 5);
    assert_eq!(c.cnt2048(), 5u64 << 32);
    assert_eq!(c.cnt65536(), 5u64 << 32);
}
