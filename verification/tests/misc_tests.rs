use ton_block::accounts::{AccountStatus, StorageInfo, StorageUsed, StorageUsedShort};
use ton_block::envelope_message::{IntermediateAddress, IntermediateAddressExt, IntermediateAddressRegular, IntermediateAddressSimple, MsgEnvelope};
use ton_block::inbound_messages::ImportFees;
use ton_block::miscellaneous::{IhrPendingSince, ProcessedInfoKey};
use ton_block::shard_accounts::DepthBalanceInfo;
use ton_block::shard::AccountIdPrefixFull;
use ton_block::signature::{BlockSignatures, BlockSignaturesPure, CryptoSignature, CryptoSignaturePair, SigPubKey};
use ton_block::signed_block::{calc_combined_hash, calc_merkle_hash, largest_power_of_two_less_than};
use ton_block::slice_text::parse_slice_base;
use ton_block::types::{Grams, Number5, UInt256};
use ton_block::messages::{AddSub, CurrencyCollection, TickTock};
use ton_block::Mask;

#[test]
fn storage_used_checked() {
    assert!(StorageUsed::with_values_checked(1, 2, 3).is_ok());
    assert!(StorageUsed::with_values_checked(1 << 56, 2, 3).is_err());
    assert!(StorageUsed::with_values_checked(1 << 48, 2, 3).is_err());
    assert!(StorageUsed::with_values_checked((1 << 48) - 1, 2, 3).is_ok());
    assert!(StorageUsedShort::with_values_checked(4, 1 << 48).is_err());
    let s = StorageUsedShort::with_values_checked(4, 5).unwrap();
    assert_eq!((s.cells(), s.bits()), (4, 5));
    let u = StorageUsed::with_values_checked(1, 2, 3).unwrap();
    assert_eq!((u.cells(), u.bits(), u.public_cells()), (1, 2, 3));
}

#[test]
fn append_counts_each_cell_once() {
    let mut s = StorageUsedShort::new();
    let a = UInt256::with_array([1; 32]);
    let b = UInt256::with_array([2; 32]);
    s.append(&vec![(a, 10), (b, 20), (a, 10)]);
    assert_eq!(s.cells(), 2);
    assert_eq!(s.bits(), 30);
    s.append(&vec![(a, 10)]);
    assert_eq!(s.cells(), 3);
}

#[test]
fn storage_info_values() {
    let i = StorageInfo::with_values(17, Some(Grams::from_u64(3)));
    assert_eq!(i.last_paid(), 17);
    assert_eq!(i.due_payment().unwrap().as_u128(), 3);
    assert_eq!(i.used().cells(), 0);
}

#[test]
fn account_status_tags() {
    assert_eq!(AccountStatus::AccStateActive.tag(), 2);
    assert_eq!(AccountStatus::from_tag(1), AccountStatus::AccStateFrozen);
    assert_eq!(AccountStatus::from_tag(7), AccountStatus::AccStateNonexist);
    assert_eq!(AccountStatus::default(), AccountStatus::AccStateUninit);
}

#[test]
fn intermediate_addresses() {
    let r = IntermediateAddressRegular::with_use_src_bits(10).unwrap();
    assert_eq!(r.use_dest_bits(), 86);
    assert_eq!(r.use_src_bits(), 10);
    assert!(IntermediateAddressRegular::with_use_dest_bits(97).is_err());
    let mut r2 = IntermediateAddressRegular::with_use_dest_bits(96).unwrap();
    assert!(r2.set_use_src_bits(100).is_err());
    r2.set_use_src_bits(96).unwrap();
    assert_eq!(r2.use_dest_bits(), 0);
    assert!(IntermediateAddress::full_dest().dest_bits_equal(96));
    assert!(IntermediateAddress::default().dest_bits_equal(0));
    assert!(IntermediateAddress::full_src().workchain_id().is_err());
    let m = IntermediateAddress::any_masterchain();
    assert_eq!(m.workchain_id().unwrap(), -1);
    assert_eq!(m.prefix().unwrap(), 0x8000_0000_0000_0000);
    let e = IntermediateAddress::Ext(IntermediateAddressExt::with_addr(7, 9));
    assert_eq!(e.workchain_id().unwrap(), 7);
    let mut s = IntermediateAddressSimple::with_addr(1, 2);
    s.set_addr_pfx(3);
    s.set_workchain_id(4);
    assert_eq!((s.workchain_id(), s.addr_pfx()), (4, 3));
}

#[test]
fn signature_from_hex_parts() {
    let r = "00".repeat(32);
    let s = "ff".repeat(32);
    let sig = CryptoSignature::from_r_s_str(&r, &s).unwrap();
    let (rb, sb) = sig.as_r_s_bytes();
    assert!(rb.iter().all(|b| *b == 0));
    assert!(sb.iter().all(|b| *b == 0xff));
    assert!(CryptoSignature::from_r_s_str("0", &s).is_err());
    assert!(CryptoSignature::from_r_s_str(&"zz".repeat(32), &s).is_err());
    let parsed: CryptoSignature = format!("{}{}", r, s).parse().unwrap();
    assert_eq!(parsed, sig);
}

#[test]
fn signature_from_bytes() {
    assert!(CryptoSignature::from_bytes(&[1u8; 63]).is_err());
    let sig = CryptoSignature::from_bytes(&[1u8; 64]).unwrap();
    assert_eq!(sig.as_bytes()[63], 1);
    let rs = CryptoSignature::from_r_s(&[1u8; 32], &[2u8; 32]).unwrap();
    assert_eq!(rs.to_bytes()[32], 2);
    assert!(CryptoSignature::from_r_s(&[1u8; 31], &[2u8; 32]).is_err());
    assert_eq!(CryptoSignature::with_r_s(&[1u8; 32], &[2u8; 32]), rs);
    let key: SigPubKey = "ab".repeat(32).parse().unwrap();
    assert_eq!(key.as_bytes()[0], 0xab);
    assert!(key.equals_uint256(&UInt256::with_array([0xab; 32])));
    assert!(SigPubKey::from_bytes(&[0u8; 3]).is_err());
}

#[test]
fn block_signatures_count_and_weight() {
    let mut p = BlockSignaturesPure::with_weight(10);
    p.add_sigpair(CryptoSignaturePair::new());
    p.add_sigpair(CryptoSignaturePair::with_params(UInt256::with_array([1; 32]), CryptoSignature::default()));
    assert_eq!(p.count(), 2);
    assert_eq!(p.weight(), 10);
    assert_eq!(p.signatures().len(), 2);
    assert_eq!(p.signatures()[1].0, 1);
    p.set_weight(3);
    assert_eq!(p.weight(), 3);
    let b = BlockSignatures::with_params(Default::default(), p);
    assert_eq!(b.pure_signatures.count(), 2);
    assert_eq!(BlockSignatures::new().pure_signatures.count(), 0);
}

#[test]
fn slice_text_bits() {
    assert_eq!(parse_slice_base("4", 0, 16).unwrap().to_vec(), vec![0x48]);
    assert_eq!(parse_slice_base("4_", 0, 16).unwrap().to_vec(), vec![0x40]);
    assert_eq!(parse_slice_base("", 0, 16).unwrap().to_vec(), vec![0x80]);
    assert_eq!(parse_slice_base("12", 0, 16).unwrap().to_vec(), vec![0x12, 0x80]);
    assert!(parse_slice_base("x", 0, 16).is_none());
    assert!(parse_slice_base("1_2", 0, 16).is_none());
}

#[test]
fn mask_bits() {
    assert!(0b1010u8.bit(0b1000));
    assert!(!0b1010u8.bit(0b1100));
    assert_eq!(0b1010u8.mask(0b0011), 0b0010);
    assert!(0b1010u8.any(0b0110));
    assert!(0b1010u8.non(0b0101));
}

#[test]
fn merkle_hash_of_short_data_is_its_digest() {
    let h = calc_merkle_hash(b"abc").unwrap();
    assert_eq!(h[0], 0xba);
    assert_eq!(h[31], 0xad);
    let long = vec![7u8; 300];
    let hl = calc_merkle_hash(&long).unwrap();
    assert_eq!(hl.len(), 32);
    assert_ne!(hl, calc_merkle_hash(&long[..256]).unwrap());
    let c = calc_combined_hash(&h, &hl);
    assert_eq!(c.len(), 32);
}

#[test]
fn powers_of_two_below() {
    assert_eq!(largest_power_of_two_less_than(257), 256);
    assert_eq!(largest_power_of_two_less_than(256), 128);
    assert_eq!(largest_power_of_two_less_than(300), 256);
    assert_eq!(largest_power_of_two_less_than(3), 2);
    assert_eq!(largest_power_of_two_less_than(2), 1);
    assert_eq!(largest_power_of_two_less_than(1), 0);
}

#[test]
fn small_records() {
    let k = ProcessedInfoKey::with_params(5, 6);
    assert_eq!(k.seq_no(), 6);
    assert_eq!(IhrPendingSince::with_import_lt(9).import_lt(), 9);
    assert_eq!(IhrPendingSince::new().import_lt(), 0);
    let f = ImportFees::with_grams(12);
    assert_eq!(f.fees_collected.as_u128(), 12);
    let cc = CurrencyCollection::with_grams(4);
    assert!(DepthBalanceInfo::new(31, &cc).is_err());
    let mut d = DepthBalanceInfo::new(30, &cc).unwrap();
    assert_eq!(d.balance().grams.as_u128(), 4);
    d.set_split_depth(Number5::new(3).unwrap());
    d.set_balance(CurrencyCollection::with_grams(8));
    assert_eq!(d.balance().grams.as_u128(), 8);
}

#[test]
fn currency_add_then_sub() {
    let mut a = CurrencyCollection::with_grams(10);
    a.set_other(1, 100);
    let mut b = CurrencyCollection::with_grams(3);
    b.set_other(1, 40);
    b.set_other(2, 5);
    a.add(&b).unwrap();
    assert_eq!(a.grams.as_u128(), 13);
    assert!(a.sub(&b).unwrap());
    assert_eq!(a.grams.as_u128(), 10);
    assert!(!a.sub(&CurrencyCollection::with_grams(11)).unwrap());
}

#[test]
fn tick_tock_text_form() {
    assert_eq!(TickTock::with_values(true, false).to_text(), "TickTick[Tick true, Tock false]");
    assert_eq!(TickTock::with_values(false, true).to_text(), "TickTick[Tick false, Tock true]");
}

#[test]
fn msg_envelope_routing_and_fee() {
    let mut env = MsgEnvelope::with_routing("msg", Grams::from_u64(10), IntermediateAddress::full_dest(), IntermediateAddress::full_dest());
    env.set_cur_addr(IntermediateAddress::full_src()).set_next_addr(IntermediateAddress::full_dest());
    assert_eq!(*env.message(), "msg");
    assert!(env.collect_fee(Grams::from_u64(4)));
    assert_eq!(env.fwd_fee_remaining().as_u128(), 6);
    assert!(!env.collect_fee(Grams::from_u64(7)));
    assert_eq!(env.fwd_fee_remaining().as_u128(), 6);
    let src = AccountIdPrefixFull { workchain_id: 0, prefix: 0x1111_1111_1111_1111 };
    let dst = AccountIdPrefixFull { workchain_id: -1, prefix: 0x2222_2222_2222_2222 };
    let (cur, next) = env.calc_cur_next_prefix(&src, &dst).unwrap();
    assert_eq!(cur, src);
    assert_eq!(next, dst);
    env.set_next_addr(IntermediateAddress::Simple(IntermediateAddressSimple::with_addr(0, 0)));
    assert!(env.calc_cur_next_prefix(&src, &dst).is_err());
}

#[test]
fn storage_used_storage_roundtrip() {
    let u = StorageUsed::with_values_checked(1, 2, 300).unwrap();
    let mut data = Vec::new();
    u.write_to(&mut data);
    assert_eq!(data, vec![1, 1, 1, 2, 2, 1, 44]);
    let mut back = StorageUsed::new();
    let mut pos = 0usize;
    back.read_from(&data, &mut pos).unwrap();
    assert_eq!(back, u);
    assert_eq!(pos, 7);
    let zero = StorageUsedShort::with_values_checked(0, 0xffff_ffff_ffff).unwrap();
    let mut short_data = Vec::new();
    zero.write_to(&mut short_data);
    assert_eq!(short_data, vec![0, 6, 0xff, 0xff, 0xff, 0xff, 0xff, 0xff]);
    let mut short_back = StorageUsedShort::new();
    let mut p2 = 0usize;
    short_back.read_from(&short_data, &mut p2).unwrap();
    assert_eq!(short_back, zero);
    // a length above 6 bytes is refused
    let bad = vec![7u8, 1, 1, 1, 1, 1, 1, 1];
    let mut p3 = 0usize;
    assert!(short_back.read_from(&bad, &mut p3).is_err());
    assert_eq!(p3, 0);
}

#[test]
fn storage_info_storage_roundtrip() {
    let info = StorageInfo::with_values(0x0102_0304, Some(Grams::from_u64(1000)));
    let mut data = Vec::new();
    info.write_to(&mut data);
    assert_eq!(data, vec![0, 0, 0, 1, 2, 3, 4, 1, 2, 0x03, 0xe8]);
    let mut back = StorageInfo::with_values(0, None);
    let mut pos = 0usize;
    back.read_from(&data, &mut pos).unwrap();
    assert_eq!(back.last_paid(), 0x0102_0304);
    assert_eq!(back.due_payment().unwrap().as_u128(), 1000);
    assert_eq!(pos, 11);
    let none = StorageInfo::with_values(5, None);
    let mut data2 = Vec::new();
    none.write_to(&mut data2);
    assert_eq!(data2, vec![0, 0, 0, 0, 0, 0, 5, 0]);
    data2[7] = 2;
    let mut p2 = 0usize;
    assert!(back.read_from(&data2, &mut p2).is_err());
    assert_eq!(p2, 0);
    assert_eq!(back.last_paid(), 0x0102_0304);
}

#[test]
fn intermediate_dest_bits_compare() {
    assert_eq!(IntermediateAddress::use_dest_bits(96).unwrap(), IntermediateAddress::full_dest());
    assert!(IntermediateAddress::use_dest_bits(97).is_err());
    let a = IntermediateAddress::use_dest_bits(40).unwrap();
    assert!(a.dest_bits_equal(40));
    assert_eq!(a.compare_dest_bits(41), Some(-1));
    assert_eq!(a.compare_dest_bits(40), Some(0));
    assert_eq!(a.compare_dest_bits(39), Some(1));
    assert_eq!(IntermediateAddress::any_masterchain().compare_dest_bits(0), None);
    let mut r = IntermediateAddressRegular::with_use_dest_bits(96).unwrap();
    let err = r.set_use_src_bits(97).unwrap_err();
    assert!(matches!(err, ton_block::error::BlockError::InvalidArg(_)));
    assert_eq!(r.use_dest_bits(), 96);
}
