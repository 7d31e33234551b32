use ton_block::inbound_messages::{InMsg, IntMsgFees};
use ton_block::messages::CurrencyCollection;
use ton_block::types::Grams;

fn fees(value: u64, ihr: u64, fwd: u64) -> Option<IntMsgFees> {
    Some(IntMsgFees { value: CurrencyCollection::with_grams(value), ihr_fee: Grams::from_u64(ihr), fwd_fee: Grams::from_u64(fwd) })
}

#[test]
fn in_msg_aug_per_kind() {
    let f = InMsg::External { msg: fees(100, 3, 5) }.aug().unwrap();
    assert_eq!(f.fees_collected.as_u128(), 0);
    assert_eq!(f.value_imported.grams.as_u128(), 0);

    let f = InMsg::IHR { msg: fees(100, 3, 5) }.aug().unwrap();
    assert_eq!(f.fees_collected.as_u128(), 3);
    assert_eq!(f.value_imported.grams.as_u128(), 103);

    let f = InMsg::Immediate { msg: fees(100, 3, 5) }.aug().unwrap();
    assert_eq!(f.fees_collected.as_u128(), 5);
    assert_eq!(f.value_imported.grams.as_u128(), 0);

    let f = InMsg::Final { msg: fees(100, 3, 5), fwd_fee_remaining: Grams::from_u64(7), fwd_fee: Grams::from_u64(7) }
        .aug()
        .unwrap();
    assert_eq!(f.fees_collected.as_u128(), 7);
    assert_eq!(f.value_imported.grams.as_u128(), 110);

    let f = InMsg::Transit { msg: fees(100, 3, 5), fwd_fee_remaining: Grams::from_u64(9), transit_fee: Grams::from_u64(4) }
        .aug()
        .unwrap();
    assert_eq!(f.fees_collected.as_u128(), 4);
    assert_eq!(f.value_imported.grams.as_u128(), 112);

    let f = InMsg::DiscardedFinal { msg: fees(100, 3, 5) }.aug().unwrap();
    assert_eq!(f.fees_collected.as_u128(), 5);
    assert_eq!(f.value_imported.grams.as_u128(), 5);
    let f = InMsg::DiscardedTransit { msg: fees(100, 3, 6) }.aug().unwrap();
    assert_eq!(f.value_imported.grams.as_u128(), 6);
}

#[test]
fn in_msg_aug_refusals() {
    assert!(InMsg::NoMsg.aug().is_err());
    assert!(InMsg::Final { msg: fees(100, 3, 5), fwd_fee_remaining: Grams::from_u64(7), fwd_fee: Grams::from_u64(8) }
        .aug()
        .is_err());
    assert!(InMsg::Transit { msg: fees(100, 3, 5), fwd_fee_remaining: Grams::from_u64(3), transit_fee: Grams::from_u64(4) }
        .aug()
        .is_err());
    let big = Some(IntMsgFees {
        value: CurrencyCollection::from_grams(Grams::new(0xff_ffff_ffff_ffff_ffff_ffff_ffff_ffff).unwrap()),
        ihr_fee: Grams::from_u64(1),
        fwd_fee: Grams::from_u64(0),
    });
    assert!(InMsg::IHR { msg: big }.aug().is_err());
    let f = InMsg::Transit { msg: None, fwd_fee_remaining: Grams::from_u64(0), transit_fee: Grams::from_u64(4) }.aug().unwrap();
    assert_eq!(f.fees_collected.as_u128(), 0);
}
