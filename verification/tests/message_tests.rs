use ton_block::messages::{
    message_layout, AnycastInfo, CellPart, Message, MessageChild, MsgAddrExt, MsgAddrStd, MsgAddrVar, MsgAddress,
};
use ton_block::types::UInt256;

fn part(bits: usize, refs: usize) -> CellPart {
    CellPart { bits: vec![true; bits], refs: (0..refs).map(|i| UInt256::with_array([i as u8; 32])).collect() }
}

#[test]
fn layout_decisions() {
    assert_eq!(message_layout(10, 0, true, 100, 2, 100, 2), (false, false));
    assert_eq!(message_layout(10, 3, true, 100, 1, 100, 1), (true, true));
    assert_eq!(message_layout(10, 0, false, 0, 0, 1100, 0), (true, false));
    assert_eq!(message_layout(10, 0, true, 1100, 0, 100, 0), (false, true));
    assert_eq!(message_layout(1000, 0, true, 100, 0, 100, 0), (true, true));
    assert_eq!(message_layout(2000, 0, false, 0, 0, 0, 0), (true, true));
}

#[test]
fn message_all_inline() {
    let m = Message { header: part(10, 1), init: None, body: Some(part(5, 1)) };
    let cell = m.write_to().unwrap();
    let mut expected = vec![true; 10];
    expected.push(false);
    expected.push(false);
    expected.extend(vec![true; 5]);
    assert_eq!(cell.bits, expected);
    assert_eq!(cell.refs.len(), 2);
    assert!(matches!(cell.refs[1], MessageChild::Hash(_)));
}

#[test]
fn message_body_and_init_to_children() {
    let m = Message { header: part(10, 0), init: None, body: Some(part(1100, 0)) };
    let cell = m.write_to().unwrap();
    let mut expected = vec![true; 10];
    expected.push(false);
    expected.push(true);
    assert_eq!(cell.bits, expected);
    assert_eq!(cell.refs, vec![MessageChild::Body]);

    let m = Message { header: part(10, 0), init: Some(part(1100, 0)), body: Some(part(100, 0)) };
    let cell = m.write_to().unwrap();
    let mut expected = vec![true; 10];
    expected.extend([true, true, false]);
    expected.extend(vec![true; 100]);
    assert_eq!(cell.bits, expected);
    assert_eq!(cell.refs, vec![MessageChild::Init]);
}

#[test]
fn message_too_big_header_is_refused() {
    let m = Message { header: part(1023, 0), init: None, body: None };
    assert!(m.write_to().is_err());
}

fn hex64(c: char) -> String {
    std::iter::repeat(c).take(64).collect()
}

#[test]
fn address_text_forms() {
    assert_eq!(MsgAddress::parse_msg_address("").unwrap(), MsgAddress::AddrNone);
    assert_eq!(MsgAddress::parse_msg_address(":12").unwrap(), MsgAddress::AddrExt(MsgAddrExt(vec![0x12, 0x80])));
    let mut addr = vec![0xaa; 32];
    addr.push(0x80);
    let text = format!("-1:{}", hex64('a'));
    assert_eq!(
        MsgAddress::parse_msg_address(&text).unwrap(),
        MsgAddress::AddrStd(MsgAddrStd { anycast: None, workchain_id: -1, address: addr.clone() })
    );
    let text = format!("1f:0:{}", hex64('a'));
    assert_eq!(
        text.parse::<MsgAddress>().unwrap(),
        MsgAddress::AddrStd(MsgAddrStd {
            anycast: Some(AnycastInfo { rewrite_pfx: vec![0x1f, 0x80] }),
            workchain_id: 0,
            address: addr.clone()
        })
    );
    let text = format!("200:{}", hex64('a'));
    assert_eq!(
        MsgAddress::parse_msg_address(&text).unwrap(),
        MsgAddress::AddrVar(MsgAddrVar { anycast: None, workchain_id: 200, address: addr })
    );
    assert_eq!(
        MsgAddress::parse_msg_address("5:ff").unwrap(),
        MsgAddress::AddrVar(MsgAddrVar { anycast: None, workchain_id: 5, address: vec![0xff, 0x80] })
    );
    assert_eq!(
        MsgAddress::parse_msg_address("8_").unwrap(),
        MsgAddress::AddrVar(MsgAddrVar { anycast: None, workchain_id: 0, address: vec![0x80] })
    );
}

#[test]
fn address_text_refusals() {
    assert!(MsgAddress::parse_msg_address(":").is_err());
    assert!(MsgAddress::parse_msg_address("a:b:c:d").is_err());
    assert!(MsgAddress::parse_msg_address("x:ff").is_err());
    assert!(MsgAddress::parse_msg_address("0:zz").is_err());
    assert!(MsgAddress::parse_msg_address(&format!(":0:{}", hex64('a'))).is_err());
    assert!(MsgAddress::parse_msg_address(&format!("123456789:0:{}", hex64('a'))).is_err());
    let long: String = std::iter::repeat('f').take(130).collect();
    assert!(MsgAddress::parse_msg_address(&format!(":{}", long)).is_err());
    assert!(MsgAddress::parse_msg_address(&format!("7:{}", long)).is_err());
}
