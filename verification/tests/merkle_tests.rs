use ton_block::blocks::BlockInfo;
use ton_block::error::BlockError;
use ton_block::merkle_proof::{check_block_info_proof, check_message_in_block, check_transaction_id, check_transaction_in_block, MsgFound};
use ton_block::shard::ShardIdent;
use ton_block::types::UInt256;

fn h(b: u8) -> UInt256 {
    UInt256::with_array([b; 32])
}

fn info() -> BlockInfo {
    let mut i = BlockInfo::new();
    i.set_shard(ShardIdent::with_tagged_prefix(0, 0x4000_0000_0000_0000).unwrap());
    i.set_start_lt(100);
    i.set_end_lt(200);
    i
}

#[test]
fn transaction_in_block() {
    let i = info();
    let acc = h(0x12);
    assert!(check_transaction_in_block(&i, &h(1), &h(1), &acc, 150, Some(Some(h(9))), &h(9)).is_ok());
    assert!(check_transaction_in_block(&i, &h(1), &h(1), &acc, 150, Some(None), &h(9)).is_ok());
    let err = check_transaction_in_block(&i, &h(1), &h(2), &acc, 150, Some(Some(h(9))), &h(9)).unwrap_err();
    assert!(matches!(err, BlockError::WrongMerkleProof(_)));
    assert!(check_transaction_in_block(&i, &h(1), &h(1), &h(0x80), 150, Some(Some(h(9))), &h(9)).is_err());
    assert!(check_transaction_in_block(&i, &h(1), &h(1), &acc, 99, Some(Some(h(9))), &h(9)).is_err());
    assert!(check_transaction_in_block(&i, &h(1), &h(1), &acc, 201, Some(Some(h(9))), &h(9)).is_err());
    assert!(check_transaction_in_block(&i, &h(1), &h(1), &acc, 150, None, &h(9)).is_err());
    assert!(check_transaction_in_block(&i, &h(1), &h(1), &acc, 150, Some(Some(h(8))), &h(9)).is_err());
}

#[test]
fn shard_contains_account() {
    let s = ShardIdent::with_tagged_prefix(0, 0x4000_0000_0000_0000).unwrap();
    assert!(s.contains_account(&h(0x12)));
    assert!(!s.contains_account(&h(0x80)));
    assert!(ShardIdent::full(0).contains_account(&h(0xff)));
}

#[test]
fn transaction_ids() {
    assert!(check_transaction_id(None, None).is_ok());
    assert!(check_transaction_id(Some(h(1)), Some(h(1))).is_ok());
    assert!(check_transaction_id(Some(h(1)), Some(h(2))).is_err());
    assert!(check_transaction_id(None, Some(h(2))).is_err());
    assert!(check_transaction_id(Some(h(1)), None).is_err());
    assert!(check_block_info_proof(&h(1), &h(1)).is_ok());
    assert!(check_block_info_proof(&h(1), &h(2)).is_err());
}

#[test]
fn message_in_block() {
    let found = MsgFound { transaction: Some(h(5)), message: Some(h(7)) };
    assert!(check_message_in_block(&h(1), &h(1), &h(7), Some(h(5)), Some(found), None).is_ok());
    assert!(check_message_in_block(&h(1), &h(1), &h(7), None, Some(found), None).is_err());
    assert!(check_message_in_block(&h(1), &h(1), &h(7), Some(h(5)), None, Some(Some(found))).is_ok());
    assert!(check_message_in_block(&h(1), &h(1), &h(7), Some(h(5)), None, Some(None)).is_err());
    assert!(check_message_in_block(&h(1), &h(1), &h(7), Some(h(5)), None, None).is_err());
    let unreadable = MsgFound { transaction: Some(h(5)), message: None };
    assert!(check_message_in_block(&h(1), &h(1), &h(7), Some(h(5)), Some(unreadable), Some(Some(found))).is_err());
    assert!(check_message_in_block(&h(1), &h(2), &h(7), Some(h(5)), Some(found), None).is_err());
}
