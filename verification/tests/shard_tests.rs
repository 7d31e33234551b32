use ton_block::envelope_message::IntermediateAddress;
use ton_block::shard::{AccountIdPrefixFull, ShardIdent, INVALID_WORKCHAIN_ID, MASTERCHAIN_ID, SHARD_FULL};

#[test]
fn full_shard_splits_into_halves() {
    let full = ShardIdent::full(0);
    let (left, right) = full.split().unwrap();
    assert_eq!(left.shard_prefix_with_tag(), 0x4000_0000_0000_0000);
    assert_eq!(right.shard_prefix_with_tag(), 0xc000_0000_0000_0000);
    assert_eq!(left.merge().unwrap(), full);
    assert_eq!(right.merge().unwrap().shard_prefix_with_tag(), SHARD_FULL);
    assert!(left.is_left_child());
    assert!(right.is_right_child());
    assert_eq!(left.sibling(), right);
    assert_eq!(right.sibling(), left);
    assert!(full.is_parent_for(&left));
    assert!(left.is_child_for(&full));
    assert!(full.is_ancestor_for(&right));
    assert!(!left.intersect_with(&right));
    assert!(full.intersect_with(&left));
}

#[test]
fn merging_full_shard_fails() {
    assert!(ShardIdent::full(0).merge().is_err());
    assert!(ShardIdent::masterchain().is_full());
    assert!(ShardIdent::masterchain().is_masterchain());
}

#[test]
fn prefix_text_has_sixteen_digits() {
    assert_eq!(ShardIdent::full(0).shard_prefix_as_str_with_tag(), "8000000000000000");
    let s = ShardIdent::with_tagged_prefix(0, 0x1800_0000_0000_0000).unwrap();
    assert_eq!(s.shard_prefix_as_str_with_tag(), "1800000000000000");
    assert_eq!(s.prefix_len(), 4);
}

#[test]
fn tagged_prefix_checks() {
    assert!(ShardIdent::with_tagged_prefix(0, 0x4).is_err());
    assert!(ShardIdent::with_tagged_prefix(INVALID_WORKCHAIN_ID, SHARD_FULL).is_err());
    assert!(ShardIdent::with_tagged_prefix(MASTERCHAIN_ID, SHARD_FULL).is_ok());
}

#[test]
fn interpolate_takes_dest_bits() {
    let src = AccountIdPrefixFull::workchain(0, 0x1111_1111_1111_1111);
    let dst = AccountIdPrefixFull::workchain(0, 0xffff_ffff_ffff_ffff);
    let r = src.interpolate_addr(&dst, 32 + 4);
    assert_eq!(r.prefix, 0xf111_1111_1111_1111);
    assert_eq!(src.interpolate_addr(&dst, 0), src);
    assert_eq!(src.interpolate_addr(&dst, 96), dst);
    let via = src.interpolate_addr_intermediate(&dst, &IntermediateAddress::use_dest_bits(36).unwrap()).unwrap();
    assert_eq!(via, r);
    assert!(src.interpolate_addr_intermediate(&dst, &IntermediateAddress::any_masterchain()).is_err());
}

#[test]
fn matching_bits_count() {
    let a = AccountIdPrefixFull::workchain(0, 0xf000_0000_0000_0000);
    let b = AccountIdPrefixFull::workchain(0, 0xf800_0000_0000_0000);
    assert_eq!(a.count_matching_bits(&b), 32 + 4);
    assert_eq!(a.count_matching_bits(&a), 96);
    let c = AccountIdPrefixFull::workchain(-1, 0);
    assert_eq!(a.count_matching_bits(&c), 0);
}

#[test]
fn hypercube_routing_inside_shard_reaches_destination() {
    let src = AccountIdPrefixFull::workchain(0, 0x1000_0000_0000_0000);
    let dst = AccountIdPrefixFull::workchain(0, 0x2000_0000_0000_0000);
    let shard = ShardIdent::full(0);
    let (cur, next) = src.perform_hypercube_routing(&dst, &shard, IntermediateAddress::full_src()).unwrap();
    assert!(cur.dest_bits_equal(96));
    assert!(next.dest_bits_equal(96));
}

#[test]
fn hypercube_routing_steps_four_bits() {
    let src = AccountIdPrefixFull::workchain(0, 0x1000_0000_0000_0000);
    let dst = AccountIdPrefixFull::workchain(0, 0xf000_0000_0000_0000);
    let shard = ShardIdent::with_tagged_prefix(0, 0x1800_0000_0000_0000).unwrap();
    let (cur, next) = src.perform_hypercube_routing(&dst, &shard, IntermediateAddress::full_src()).unwrap();
    assert!(cur.dest_bits_equal(32));
    assert!(next.dest_bits_equal(36));
}

#[test]
fn hypercube_routing_to_masterchain_goes_direct() {
    let src = AccountIdPrefixFull::workchain(0, 0x1000_0000_0000_0000);
    let dst = AccountIdPrefixFull::workchain(-1, 0x1000_0000_0000_0000);
    let shard = ShardIdent::full(0);
    let (cur, next) = src.perform_hypercube_routing(&dst, &shard, IntermediateAddress::full_src()).unwrap();
    assert!(cur.dest_bits_equal(0));
    assert!(next.dest_bits_equal(96));
}

#[test]
fn hypercube_routing_needs_transit_in_shard() {
    let src = AccountIdPrefixFull::workchain(0, 0x1000_0000_0000_0000);
    let dst = AccountIdPrefixFull::workchain(0, 0xf000_0000_0000_0000);
    let shard = ShardIdent::with_tagged_prefix(0, 0xc000_0000_0000_0000).unwrap();
    assert!(src.perform_hypercube_routing(&dst, &shard, IntermediateAddress::full_src()).is_err());
    assert!(src.perform_hypercube_routing(&dst, &shard, IntermediateAddress::any_masterchain()).is_err());
}

#[test]
fn shard_text_forms() {
    assert_eq!(ShardIdent::masterchain().to_text(), "-1:8000000000000000");
    let s = ShardIdent::with_tagged_prefix(0, 0x1800_0000_0000_0000).unwrap();
    assert_eq!(s.to_text(), "0:1800000000000000");
    let p = AccountIdPrefixFull { workchain_id: 0, prefix: 0xabc };
    assert_eq!(p.to_text(), "0:0000000000000ABC");
    let q = AccountIdPrefixFull { workchain_id: -2147483648, prefix: 0xfedc_ba98_7654_3210 };
    assert_eq!(q.to_text(), "-2147483648:FEDCBA9876543210");
}

#[test]
fn shard_storage_roundtrip() {
    let s = ShardIdent::with_tagged_prefix(-1, 0x8000_0000_0000_0000).unwrap();
    let mut data = Vec::new();
    s.write_to(&mut data);
    assert_eq!(data, vec![0, 0xff, 0xff, 0xff, 0xff, 0, 0, 0, 0, 0, 0, 0, 0]);
    let mut back = ShardIdent::default();
    let mut pos = 0usize;
    back.read_from(&data, &mut pos).unwrap();
    assert_eq!(back, s);
    assert_eq!(pos, 13);
    data[0] = 61;
    let mut pos2 = 0usize;
    assert!(back.read_from(&data, &mut pos2).is_err());
    assert_eq!(pos2, 0);
    assert_eq!(back, s);
}

#[test]
fn split_and_merge_change_prefix_length_by_one() {
    let s = ShardIdent::with_tagged_prefix(0, 0x1800_0000_0000_0000).unwrap();
    assert_eq!(s.prefix_len(), 4);
    let (l, r) = s.split().unwrap();
    assert_eq!(l.prefix_len(), 5);
    assert_eq!(r.prefix_len(), 5);
    assert_eq!(l.shard_prefix_with_tag(), 0x1400_0000_0000_0000);
    assert_eq!(r.shard_prefix_with_tag(), 0x1c00_0000_0000_0000);
    assert_eq!(s.merge().unwrap().prefix_len(), 3);
    let sib = s.sibling();
    assert_eq!(sib.shard_prefix_with_tag(), 0x0800_0000_0000_0000);
    assert_eq!(sib.prefix_len(), 4);
    assert_eq!(sib.merge().unwrap(), s.merge().unwrap());
    assert_ne!(sib, s);
    assert_eq!(ShardIdent::full(0).sibling(), ShardIdent::full(0));
    assert!(s.is_ancestor_for(&l));
    assert!(!l.is_ancestor_for(&s));
    assert!(!sib.is_ancestor_for(&l));
}

#[test]
fn split_stops_at_sixty_bits() {
    let deepest = ShardIdent::with_tagged_prefix(0, 0x8).unwrap();
    assert_eq!(deepest.prefix_len(), 60);
    assert!(deepest.split().is_err());
    let almost = ShardIdent::with_tagged_prefix(0, 0x10).unwrap();
    assert_eq!(almost.prefix_len(), 59);
    let (l, r) = almost.split().unwrap();
    assert_eq!(l.prefix_len(), 60);
    assert_eq!(r.shard_prefix_with_tag(), 0x18);
}
