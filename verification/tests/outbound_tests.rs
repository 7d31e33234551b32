use ton_block::outbound_messages::OutMsgQueueKey;
use ton_block::shard::AccountIdPrefixFull;
use ton_block::types::UInt256;

#[test]
fn out_msg_queue_key_forms() {
    let mut bytes = [0u8; 32];
    bytes[0] = 0xde;
    bytes[1] = 0xad;
    bytes[7] = 0x01;
    let hash = UInt256::with_array(bytes);
    assert_eq!(OutMsgQueueKey::first_u64(&hash), 0xdead_0000_0000_0001);
    let prefix = AccountIdPrefixFull { workchain_id: -1, prefix: 0xdead_0000_0000_0001 };
    let key = OutMsgQueueKey::with_account_prefix(&prefix, hash);
    assert_eq!(key, OutMsgQueueKey::with_workchain_id_and_prefix(-1, 0xdead_0000_0000_0001, hash));
    let expected = format!("-1:DEAD000000000001, hash: dead000000000001{}", "0".repeat(48));
    assert_eq!(key.to_hex_string(), expected);
}

#[test]
fn out_msg_queue_key_storage_roundtrip() {
    let key = OutMsgQueueKey::with_workchain_id_and_prefix(-2, 7, UInt256::with_array([3; 32]));
    let mut data = vec![1u8, 2];
    key.write_to(&mut data);
    assert_eq!(data.len(), 46);
    assert_eq!(&data[2..6], &[0xff, 0xff, 0xff, 0xfe]);
    let mut back = OutMsgQueueKey::default();
    let mut pos = 2usize;
    back.read_from(&data, &mut pos).unwrap();
    assert_eq!(back, key);
    assert_eq!(pos, 46);
    let mut pos2 = 3usize;
    assert!(back.read_from(&data, &mut pos2).is_err());
    assert_eq!(pos2, 3);
}
