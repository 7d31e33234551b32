use ton_block::error::BlockError;
use ton_block::out_actions::{OutAction, OutActionCell, ACTION_CHANGE_LIB, ACTION_RESERVE, ACTION_SEND_MSG};
use ton_block::types::{Grams, UInt256};

fn h(b: u8) -> UInt256 {
    UInt256::with_array([b; 32])
}

fn roundtrip(a: OutAction) {
    let cell = a.write_to().unwrap();
    let mut back = OutAction::default();
    back.read_from(&cell).unwrap();
    assert_eq!(back, a);
}

#[test]
fn send_msg_image() {
    let a = OutAction::SendMsg { mode: 3, out_msg: h(7) };
    let cell = a.write_to().unwrap();
    assert_eq!(cell.data, vec![0x0e, 0xc3, 0xc8, 0x6d, 3]);
    assert_eq!(cell.refs, vec![h(7)]);
    roundtrip(a);
}

#[test]
fn reserve_image() {
    let a = OutAction::ReserveCurrency { mode: 2, grams: Grams::new(0x1234).unwrap(), other: None };
    let cell = a.write_to().unwrap();
    assert_eq!(cell.data, vec![0x36, 0xe6, 0xb8, 0x09, 2, 2, 0x12, 0x34, 0]);
    assert!(cell.refs.is_empty());
    roundtrip(a);
    roundtrip(OutAction::ReserveCurrency { mode: 0, grams: Grams::zero(), other: Some(h(9)) });
}

#[test]
fn other_actions_roundtrip() {
    roundtrip(OutAction::SetCode { new_code: h(1) });
    roundtrip(OutAction::ChangeLibrary { mode: 0, code: None, hash: Some(h(2)) });
    roundtrip(OutAction::ChangeLibrary { mode: 1, code: Some(h(3)), hash: None });
    roundtrip(OutAction::CopyLeft { license: 5, address: h(4) });
    let cell = OutAction::CopyLeft { license: 5, address: h(4) }.write_to().unwrap();
    assert_eq!(cell.data.len(), 37);
    assert_eq!(&cell.data[0..5], &[0x24, 0x48, 0x6f, 0x7a, 5]);
}

#[test]
fn empty_action_is_not_stored() {
    let err = OutAction::NoAction.write_to().unwrap_err();
    assert!(matches!(err, BlockError::InvalidOperation(_)));
}

#[test]
fn short_or_unknown_action_is_refused() {
    let mut a = OutAction::SetCode { new_code: h(1) };
    let err = a.read_from(&OutActionCell { data: vec![0x0e, 0xc3, 0xc8], refs: vec![] }).unwrap_err();
    assert!(matches!(err, BlockError::InvalidArg(_)));
    let err = a.read_from(&OutActionCell { data: vec![1, 2, 3, 4], refs: vec![] }).unwrap_err();
    assert!(matches!(err, BlockError::InvalidConstructorTag { t: 0x01020304, .. }));
    assert!(a.read_from(&OutActionCell { data: ACTION_SEND_MSG.to_be_bytes().to_vec(), refs: vec![h(2)] }).is_err());
    let mut lib = ACTION_CHANGE_LIB.to_be_bytes().to_vec();
    lib.push(1);
    assert!(a.read_from(&OutActionCell { data: lib, refs: vec![] }).is_err());
    let mut reserve = ACTION_RESERVE.to_be_bytes().to_vec();
    reserve.extend_from_slice(&[0, 16]);
    assert!(a.read_from(&OutActionCell { data: reserve, refs: vec![] }).is_err());
    assert_eq!(a, OutAction::SetCode { new_code: h(1) });
}
