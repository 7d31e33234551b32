use ton_block::copyleft::CopyleftRewards;
use ton_block::types::{Grams, UInt256};

fn account(first: u8) -> UInt256 {
    let mut bytes = [0u8; 32];
    bytes[0] = first;
    UInt256::with_array(bytes)
}

fn grams(value: u64) -> Grams {
    Grams::from_u64(value)
}

#[test]
fn copyleft_add_reward_accumulates() {
    let mut rewards = CopyleftRewards::default();
    let a = account(1);
    assert!(rewards.get(&a).is_none());
    rewards.add_copyleft_reward(&a, &grams(5)).unwrap();
    rewards.add_copyleft_reward(&a, &grams(7)).unwrap();
    assert_eq!(rewards.get(&a).unwrap().as_u128(), 12);
    assert!(rewards.get(&account(2)).is_none());
}

#[test]
fn copyleft_add_reward_overflow_keeps_rewards() {
    let mut rewards = CopyleftRewards::default();
    let a = account(1);
    let max = Grams::new(0xff_ffff_ffff_ffff_ffff_ffff_ffff_ffff).unwrap();
    rewards.add_copyleft_reward(&a, &max).unwrap();
    assert!(rewards.add_copyleft_reward(&a, &grams(1)).is_err());
    assert_eq!(rewards.get(&a).unwrap().as_u128(), 0xff_ffff_ffff_ffff_ffff_ffff_ffff_ffff);
}

#[test]
fn copyleft_set_and_remove() {
    let mut rewards = CopyleftRewards::default();
    rewards.set(&account(3), &grams(30));
    rewards.set(&account(1), &grams(10));
    rewards.set(&account(2), &grams(20));
    rewards.set(&account(1), &grams(11));
    assert_eq!(rewards.get(&account(1)).unwrap().as_u128(), 11);
    rewards.remove(&account(2));
    assert!(rewards.get(&account(2)).is_none());
    assert_eq!(rewards.get(&account(3)).unwrap().as_u128(), 30);
    rewards.remove(&account(9));
    assert_eq!(rewards.get(&account(1)).unwrap().as_u128(), 11);
}

#[test]
fn copyleft_merge_rewards_adds_per_account() {
    let mut rewards = CopyleftRewards::default();
    rewards.set(&account(1), &grams(10));
    rewards.set(&account(2), &grams(20));
    let mut other = CopyleftRewards::default();
    other.set(&account(2), &grams(2));
    other.set(&account(3), &grams(3));
    rewards.merge_rewards(&other).unwrap();
    assert_eq!(rewards.get(&account(1)).unwrap().as_u128(), 10);
    assert_eq!(rewards.get(&account(2)).unwrap().as_u128(), 22);
    assert_eq!(rewards.get(&account(3)).unwrap().as_u128(), 3);
}

#[test]
fn copyleft_merge_into_empty_gives_same_rewards() {
    let mut other = CopyleftRewards::default();
    other.set(&account(4), &grams(40));
    other.set(&account(1), &grams(10));
    let mut rewards = CopyleftRewards::default();
    rewards.merge_rewards(&other).unwrap();
    assert_eq!(rewards.get(&account(4)).unwrap().as_u128(), 40);
    assert_eq!(rewards.get(&account(1)).unwrap().as_u128(), 10);
}

#[test]
fn copyleft_merge_overflow_stops() {
    let max = Grams::new(0xff_ffff_ffff_ffff_ffff_ffff_ffff_ffff).unwrap();
    let mut rewards = CopyleftRewards::default();
    rewards.set(&account(2), &max);
    let mut other = CopyleftRewards::default();
    other.set(&account(1), &grams(1));
    other.set(&account(2), &grams(1));
    other.set(&account(3), &grams(1));
    assert!(rewards.merge_rewards(&other).is_err());
    // the account before the overflow was merged, the one after it was not
    assert_eq!(rewards.get(&account(1)).unwrap().as_u128(), 1);
    assert!(rewards.get(&account(3)).is_none());
}

#[test]
fn copyleft_merge_with_threshold_pays_out_in_order() {
    let mut rewards = CopyleftRewards::default();
    rewards.set(&account(1), &grams(90));
    rewards.set(&account(3), &grams(5));
    let mut other = CopyleftRewards::default();
    other.set(&account(3), &grams(200));
    other.set(&account(1), &grams(10));
    other.set(&account(2), &grams(50));
    let sent = rewards.merge_rewards_with_threshold(&other, &grams(100)).unwrap();
    assert_eq!(sent.len(), 2);
    assert!(sent[0].0.equals(&account(1)));
    assert_eq!(sent[0].1.as_u128(), 100);
    assert!(sent[1].0.equals(&account(3)));
    assert_eq!(sent[1].1.as_u128(), 205);
    assert!(rewards.get(&account(1)).is_none());
    assert!(rewards.get(&account(3)).is_none());
    assert_eq!(rewards.get(&account(2)).unwrap().as_u128(), 50);
}

#[test]
fn copyleft_equality() {
    let mut a = CopyleftRewards::default();
    let mut b = CopyleftRewards::default();
    assert!(a.equals(&b));
    a.set(&account(1), &grams(1));
    assert!(!a.equals(&b));
    b.set(&account(1), &grams(2));
    assert!(!a.equals(&b));
    b.set(&account(1), &grams(1));
    assert!(a.equals(&b));
}
