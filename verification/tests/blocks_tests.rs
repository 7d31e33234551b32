use ton_block::blocks::{BlkPrevInfo, BlockIdExt, BlockInfo, BlockProcessingStatus, ExtBlkRef, TopBlockDescr, TopBlockDescrSet, ValueFlow};
use ton_block::config_params::GlobalVersion;
use ton_block::master::BlkMasterInfo;
use ton_block::signature::BlockSignatures;
use ton_block::shard::ShardIdent;
use ton_block::types::{ChildCell, UInt256, UnixTime32};

fn ext(seq_no: u32, end_lt: u64) -> ExtBlkRef {
    ExtBlkRef { end_lt, seq_no, root_hash: UInt256::with_array([seq_no as u8; 32]), file_hash: UInt256::new() }
}

#[test]
fn default_block_info() {
    let info = BlockInfo::new();
    assert_eq!(info.seq_no(), 1);
    assert_eq!(info.version(), 0);
    assert_eq!(info.flags(), 0);
    assert_eq!(*info.shard(), ShardIdent::full(0));
    assert!(info.read_master_ref().unwrap().is_none());
    assert!(info.read_prev_ref().is_err());
    assert!(info.gen_software().is_none());
    assert_eq!(BlockProcessingStatus::default(), BlockProcessingStatus::Unknown);
}

#[test]
fn seq_no_zero_is_refused() {
    let mut info = BlockInfo::new();
    assert!(info.set_seq_no(0).is_err());
    assert_eq!(info.seq_no(), 1);
    info.set_seq_no(42).unwrap();
    assert_eq!(info.seq_no(), 42);
}

#[test]
fn gen_utime_ms_round_trip() {
    let mut info = BlockInfo::new();
    info.set_gen_utime_ms(1_700_000_000_123);
    assert_eq!(info.gen_utime().as_u32(), 1_700_000_000);
    assert_eq!(info.gen_utime_ms_part(), 123);
    assert_eq!(info.gen_utime_ms(), 1_700_000_000_123);
    info.set_gen_utime(UnixTime32::new(5));
    assert_eq!(info.gen_utime_ms_part(), 0);
    assert_eq!(info.gen_utime_ms(), 5000);
}

#[test]
fn gen_software_sets_flag() {
    let mut info = BlockInfo::new();
    info.set_gen_software(Some(GlobalVersion { version: 3, capabilities: 0x10 }));
    assert_eq!(info.flags(), 1);
    assert_eq!(info.gen_software().unwrap().version, 3);
    info.set_gen_software(None);
    assert_eq!(info.flags(), 0);
}

#[test]
fn prev_stuff_must_match_merge_flag() {
    let mut info = BlockInfo::new();
    let one = BlkPrevInfo::new(vec![ext(7, 100)]).unwrap();
    let two = BlkPrevInfo::new(vec![ext(7, 100), ext(8, 200)]).unwrap();
    assert!(info.set_prev_stuff(true, &one).is_err());
    assert!(info.set_prev_stuff(false, &two).is_err());
    info.set_prev_stuff(false, &one).unwrap();
    assert_eq!(info.read_prev_ref().unwrap(), one);
    assert_eq!(info.read_master_id().unwrap(), ext(7, 100));
    let ids = info.read_prev_ids().unwrap();
    assert_eq!(ids.len(), 1);
    assert_eq!(ids[0].seq_no(), 7);
    assert_eq!(*ids[0].shard(), ShardIdent::full(0));
}

#[test]
fn prev_ids_after_merge_use_both_halves() {
    let mut info = BlockInfo::new();
    let two = BlkPrevInfo::new(vec![ext(7, 100), ext(8, 200)]).unwrap();
    info.set_prev_stuff(true, &two).unwrap();
    assert!(info.after_merge());
    let ids = info.read_prev_ids().unwrap();
    let (left, right) = ShardIdent::full(0).split().unwrap();
    assert_eq!(ids.len(), 2);
    assert_eq!(*ids[0].shard(), left);
    assert_eq!(*ids[1].shard(), right);
    assert_eq!(ids[1].seq_no(), 8);
}

#[test]
fn prev_ids_after_split_use_parent() {
    let mut info = BlockInfo::new();
    let (left, _) = ShardIdent::full(0).split().unwrap();
    info.set_shard(left);
    info.set_after_split(true);
    info.set_prev_stuff(false, &BlkPrevInfo::new(vec![ext(3, 30)]).unwrap()).unwrap();
    let ids = info.read_prev_ids().unwrap();
    assert_eq!(*ids[0].shard(), ShardIdent::full(0));
    info.set_shard(ShardIdent::full(0));
    assert!(info.read_prev_ids().is_err());
}

#[test]
fn master_ref_wins_over_prev() {
    let mut info = BlockInfo::new();
    info.set_prev_stuff(false, &BlkPrevInfo::new(vec![ext(3, 30)]).unwrap()).unwrap();
    info.write_master_ref(Some(&BlkMasterInfo { master: ext(9, 90) })).unwrap();
    assert_eq!(info.read_master_id().unwrap(), ext(9, 90));
}

#[test]
fn prev_info_lengths() {
    assert!(BlkPrevInfo::new(vec![]).is_err());
    assert!(BlkPrevInfo::new(vec![ext(1, 1), ext(2, 2), ext(3, 3)]).is_err());
    let two = BlkPrevInfo::new(vec![ext(1, 1), ext(2, 2)]).unwrap();
    assert!(!two.is_one_prev());
    assert_eq!(two.prev1().unwrap(), ext(1, 1));
    assert_eq!(two.prev2().unwrap(), Some(ext(2, 2)));
    let one = BlkPrevInfo::default_block();
    assert!(one.is_one_prev());
    assert_eq!(one.prev2().unwrap(), None);
    let empty = BlkPrevInfo::default_blocks();
    assert!(empty.prev1().is_err());
    assert!(empty.prev2().is_err());
}

#[test]
fn vertical_stuff_checks() {
    let mut info = BlockInfo::new();
    assert!(info.set_vertical_stuff(2, 1, Some(BlkPrevInfo::default_block())).is_err());
    assert!(info.set_vertical_stuff(1, 1, None).is_err());
    assert!(info.set_vertical_stuff(0, 1, Some(BlkPrevInfo::default_block())).is_err());
    info.set_vertical_stuff(1, 3, Some(BlkPrevInfo::default_block())).unwrap();
    assert_eq!(info.vert_seq_no(), 3);
    assert_eq!(info.vert_seqno_incr(), 1);
    assert!(info.read_prev_vert_ref().unwrap().is_some());
}

#[test]
fn block_id_from_text() {
    let text = "(0:1800000000000000, 1203696, rh 59b6e56610aa5df5e8ee4cc5f1081cd5d08473f10e0899f7763d580b2a635f90, fh 1b4d177339538562d10166d87823783b7e747ee80d85d033459928fd0605a126)";
    let id: BlockIdExt = text.parse().unwrap();
    assert_eq!(id.shard().workchain_id(), 0);
    assert_eq!(id.shard().shard_prefix_with_tag(), 0x1800_0000_0000_0000);
    assert_eq!(id.seq_no(), 1203696);
    assert_eq!(id.root_hash().as_array()[0], 0x59);
    assert_eq!(id.root_hash().as_array()[31], 0x90);
    assert_eq!(id.file_hash().as_array()[0], 0x1b);
}

#[test]
fn block_id_from_text_errors() {
    assert!(BlockIdExt::from_text("(x:8000000000000000, 1, rh 00, fh 00)").is_err());
    assert!(BlockIdExt::from_text("(0, 1)").is_err());
    assert!(BlockIdExt::from_text("(0:8000000000000000, 1, rh 00)").is_err());
    let zeros = "0000000000000000000000000000000000000000000000000000000000000000";
    let ok = format!("(-1:8000000000000000, 5, rh {}, fh {})", zeros, zeros);
    let id = BlockIdExt::from_text(&ok).unwrap();
    assert_eq!(id.shard().workchain_id(), -1);
    let bad_shard = format!("(0:8000000000000004, 5, rh {}, fh {})", zeros, zeros);
    assert!(BlockIdExt::from_text(&bad_shard).is_err());
}

#[test]
fn ext_blk_ref_ids() {
    let r = ext(5, 77);
    let (lt, id) = r.master_block_id();
    assert_eq!(lt, 77);
    assert_eq!(*id.shard(), ShardIdent::masterchain());
    let (lt2, id2) = r.workchain_block_id(ShardIdent::full(0));
    assert_eq!(lt2, 77);
    assert_eq!(id2.seq_no(), 5);
    assert_eq!(*id2.shard(), ShardIdent::full(0));
}

fn sample_info() -> BlockInfo {
    let mut info = BlockInfo::new();
    info.set_version(3);
    info.set_seq_no(77).unwrap();
    info.set_key_block(true);
    info.set_want_split(true);
    let (left, _) = ShardIdent::full(0).split().unwrap();
    info.set_shard(left);
    info.set_gen_utime_ms(1_700_000_000_250);
    info.set_start_lt(1000);
    info.set_end_lt(2000);
    info.set_gen_validator_list_hash_short(0xdead_beef);
    info.set_gen_catchain_seqno(12);
    info.set_min_ref_mc_seqno(5);
    info.set_prev_key_block_seqno(4);
    info.set_gen_software(Some(GlobalVersion { version: 7, capabilities: 0x2_0000_0000 }));
    info.write_master_ref(Some(&BlkMasterInfo { master: ext(9, 900) })).unwrap();
    info.set_prev_stuff(false, &BlkPrevInfo::new(vec![ext(76, 1999)]).unwrap()).unwrap();
    info.set_vertical_stuff(1, 2, Some(BlkPrevInfo::new(vec![ext(1, 1)]).unwrap())).unwrap();
    info
}

#[test]
fn block_info_write_then_read() {
    let info = sample_info();
    let cell = info.write_to().unwrap();
    assert_eq!(cell.data.len(), 37 + 32 + 13);
    assert_eq!(&cell.data[0..4], &[0x9b, 0xc7, 0xa9, 0x88]);
    assert_eq!(cell.data[8], 0x80 | 0x08 | 0x02 | 0x01);
    assert_eq!(cell.refs.len(), 3);
    let mut back = BlockInfo::new();
    back.read_from_ex(&cell, true).unwrap();
    assert_eq!(back, info);
    let mut v1_only = BlockInfo::new();
    assert!(v1_only.read_from_ex(&cell, false).is_err());
    assert_eq!(v1_only, BlockInfo::new());
}

#[test]
fn block_info_write_checks_gen_software_flag() {
    let mut info = sample_info();
    info.set_gen_software(None);
    let cell = info.write_to().unwrap();
    assert_eq!(cell.data.len(), 37 + 32);
    let mut back = BlockInfo::new();
    back.read_from_ex(&cell, true).unwrap();
    assert_eq!(back, info);
}

#[test]
fn block_info_read_refuses_short_data() {
    let info = sample_info();
    let mut cell = info.write_to().unwrap();
    cell.data.truncate(40);
    let mut back = BlockInfo::new();
    assert!(back.read_from_ex(&cell, true).is_err());
}

#[test]
fn top_block_descr_keeps_proofs_in_order() {
    let id = BlockIdExt::with_params(ShardIdent::masterchain(), 7, UInt256::new(), UInt256::new());
    let mut descr: TopBlockDescr<u32> = TopBlockDescr::with_id_and_signatures(id, BlockSignatures::new());
    descr.append_proof(10);
    descr.append_proof(20);
    assert_eq!(descr.chain(), &vec![10, 20]);
    assert_eq!(descr.proof_for().seq_no, 7);
    assert!(descr.signatures().is_some());
    let empty: TopBlockDescr<u32> = TopBlockDescr::default();
    assert!(empty.signatures().is_none());
    assert!(empty.chain().is_empty());
}

#[test]
fn top_block_descr_set_read_after_insert() {
    let left = ShardIdent::with_tagged_prefix(0, 0x4000_0000_0000_0000).unwrap();
    let right = ShardIdent::with_tagged_prefix(0, 0xc000_0000_0000_0000).unwrap();
    let mut set: TopBlockDescrSet<u32> = TopBlockDescrSet::default();
    assert!(set.is_empty());
    let id1 = BlockIdExt::with_params(left, 1, UInt256::new(), UInt256::new());
    let id2 = BlockIdExt::with_params(left, 2, UInt256::new(), UInt256::new());
    set.insert(&left, TopBlockDescr::with_id_and_signatures(id1, BlockSignatures::new()));
    assert!(!set.is_empty());
    assert_eq!(set.get_top_block_descr(&left).unwrap().proof_for().seq_no, 1);
    assert!(set.get_top_block_descr(&right).is_none());
    set.insert(&left, TopBlockDescr::with_id_and_signatures(id2, BlockSignatures::new()));
    assert_eq!(set.get_top_block_descr(&left).unwrap().proof_for().seq_no, 2);
    assert_eq!(set.collection().len(), 1);
}

#[test]
fn value_flow_default_is_empty() {
    let flow = ValueFlow::default();
    assert!(flow.read_in_full_depth().is_ok());
    assert_eq!(flow.minted.grams.as_u128(), 0);
}

#[test]
fn block_id_text_roundtrip() {
    let text = "(0:1800000000000000, 1203696, rh 59b6e56610aa5df5e8ee4cc5f1081cd5d08473f10e0899f7763d580b2a635f90, fh 1b4d177339538562d10166d87823783b7e747ee80d85d033459928fd0605a126)";
    let id = BlockIdExt::from_text(text).unwrap();
    assert_eq!(id.to_text(), text);
    let master = BlockIdExt::with_params(ShardIdent::masterchain(), 0, UInt256::new(), UInt256::with_array([0xab; 32]));
    let master_text = master.to_text();
    assert_eq!(
        master_text,
        format!("(-1:8000000000000000, 0, rh {}, fh {})", "0".repeat(64), "ab".repeat(32))
    );
    let back = BlockIdExt::from_text(&master_text).unwrap();
    assert_eq!(back, master);
}

#[test]
fn ext_blk_ref_storage_roundtrip() {
    let r = ext(42, 0x0102_0304_0506_0708);
    let mut data = vec![0xffu8];
    r.write_to(&mut data);
    assert_eq!(data.len(), 77);
    assert_eq!(&data[1..9], &[1, 2, 3, 4, 5, 6, 7, 8]);
    assert_eq!(&data[9..13], &[0, 0, 0, 42]);
    let mut back = ExtBlkRef::default();
    let mut pos = 1usize;
    back.read_from(&data, &mut pos).unwrap();
    assert_eq!(pos, 77);
    assert_eq!(back, r);
    let mut short = ExtBlkRef::default();
    let mut pos2 = 2usize;
    assert!(short.read_from(&data, &mut pos2).is_err());
    assert_eq!(pos2, 2);
    assert_eq!(short, ExtBlkRef::default());
}

#[test]
fn block_id_storage_roundtrip() {
    let shard = ShardIdent::with_tagged_prefix(0, 0x1800_0000_0000_0000).unwrap();
    let id = BlockIdExt::with_params(shard, 1203696, UInt256::with_array([7; 32]), UInt256::with_array([9; 32]));
    let mut data = Vec::new();
    id.write_to(&mut data);
    assert_eq!(data.len(), 81);
    assert_eq!(data[0], 4);
    assert_eq!(&data[1..5], &[0, 0, 0, 0]);
    assert_eq!(&data[5..13], &[0x10, 0, 0, 0, 0, 0, 0, 0]);
    let mut back = BlockIdExt::default();
    let mut pos = 0usize;
    back.read_from(&data, &mut pos).unwrap();
    assert_eq!(back, id);
    assert_eq!(pos, 81);
    data[0] = 0x40;
    let mut bad = BlockIdExt::default();
    let mut pos2 = 0usize;
    assert!(bad.read_from(&data, &mut pos2).is_err());
    assert_eq!(pos2, 0);
}

#[test]
fn global_version_storage_roundtrip() {
    let g = GlobalVersion { version: 5, capabilities: 0x2e };
    let mut data = Vec::new();
    g.write_to(&mut data);
    assert_eq!(data, vec![0xc4, 0, 0, 0, 5, 0, 0, 0, 0, 0, 0, 0, 0x2e]);
    let mut back = GlobalVersion::new();
    let mut pos = 0usize;
    back.read_from(&data, &mut pos).unwrap();
    assert_eq!(back, g);
    assert_eq!(pos, 13);
    data[0] = 0xc5;
    let mut pos2 = 0usize;
    let err = back.read_from(&data, &mut pos2).unwrap_err();
    assert!(matches!(err, ton_block::error::BlockError::InvalidConstructorTag { t: 0xc5, .. }));
    let mut pos3 = 0usize;
    assert!(back.read_from(&data[..5], &mut pos3).is_err());
}

#[test]
fn blk_prev_info_storage_roundtrip() {
    let one = BlkPrevInfo::new(vec![ext(3, 30)]).unwrap();
    let mut data = Vec::new();
    let mut refs: Vec<ChildCell<ExtBlkRef>> = Vec::new();
    one.write_to(&mut data, &mut refs);
    assert_eq!(data.len(), 76);
    assert!(refs.is_empty());
    let mut back = BlkPrevInfo::default_block();
    let (mut pos, mut ref_pos) = (0usize, 0usize);
    back.read_from(&data, &mut pos, &refs, &mut ref_pos).unwrap();
    assert_eq!(back, one);
    assert_eq!(pos, 76);

    let two = BlkPrevInfo::new(vec![ext(4, 40), ext(5, 50)]).unwrap();
    let mut data2 = Vec::new();
    let mut refs2: Vec<ChildCell<ExtBlkRef>> = Vec::new();
    two.write_to(&mut data2, &mut refs2);
    assert!(data2.is_empty());
    assert_eq!(refs2.len(), 2);
    let mut back2 = BlkPrevInfo::new(vec![ext(0, 0), ext(0, 0)]).unwrap();
    let (mut p2, mut r2) = (0usize, 0usize);
    back2.read_from(&data2, &mut p2, &refs2, &mut r2).unwrap();
    assert_eq!(back2, two);
    assert_eq!(r2, 2);
    let mut r3 = 1usize;
    assert!(back2.read_from(&data2, &mut p2, &refs2, &mut r3).is_err());
    assert_eq!(r3, 1);
}

#[test]
fn default_key_block_with_milliseconds_image() {
    let mut info = BlockInfo::new();
    info.set_key_block(true);
    info.set_gen_utime_ms(1500);
    let cell = info.write_to().unwrap();
    let mut expected: Vec<u8> = vec![
        0x9b, 0xc7, 0xa9, 0x88, 0, 0, 0, 0, 0x02, 0x00, 0, 0, 0, 1, 0, 0, 0, 0, 0x00, 0, 0, 0, 0,
        0, 0, 0, 0, 0, 0, 0, 0, 0, 0, 0, 1, 0x01, 0xf4,
    ];
    expected.extend_from_slice(&[0u8; 32]);
    assert_eq!(cell.data.len(), 69);
    assert_eq!(cell.data, expected);
    assert_eq!(cell.refs.len(), 1);
}

#[test]
fn v2_tag_alone_refused_without_v2() {
    let mut info = BlockInfo::default();
    let cell = ton_block::blocks::BlockInfoCell { data: vec![0x9b, 0xc7, 0xa9, 0x88], refs: Vec::new() };
    let err = info.read_from_ex(&cell, false).unwrap_err();
    assert!(matches!(err, ton_block::error::BlockError::InvalidConstructorTag { t: 0x9bc7a988, .. }));
    assert_eq!(info, BlockInfo::default());
}

#[test]
fn too_short_header_is_invalid_data() {
    let mut info = BlockInfo::default();
    let cell = ton_block::blocks::BlockInfoCell { data: vec![0x9b, 0xc7, 0xa9], refs: Vec::new() };
    let err = info.read_from_ex(&cell, true).unwrap_err();
    assert!(matches!(err, ton_block::error::BlockError::InvalidData(_)));
    assert_eq!(info, BlockInfo::default());
}

#[test]
fn top_block_descr_set_reads_back_insert() {
    let id = BlockIdExt::with_params(ShardIdent::masterchain(), 7, UInt256::new(), UInt256::new());
    let d1 = TopBlockDescr::<u8>::with_id_and_signatures(id.clone(), BlockSignatures::new());
    let d2 = TopBlockDescr::<u8>::with_id_and_signatures(id, BlockSignatures::new());
    let mut set = TopBlockDescrSet::<u8>::default();
    let a = ShardIdent::full(0);
    let b = ShardIdent::masterchain();
    set.insert(&a, d1);
    assert!(set.get_top_block_descr(&a).is_some());
    assert!(set.get_top_block_descr(&b).is_none());
    set.insert(&b, d2);
    assert!(set.get_top_block_descr(&a).is_some());
    assert!(set.get_top_block_descr(&b).is_some());
    assert_eq!(set.collection().len(), 2);
}
