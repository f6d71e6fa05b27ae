use bitsave::address::Address;
use bitsave::errors::BitsaveErrors;
use bitsave::uint::U256;
use bitsave::Bitsave;

fn address(tag: u8) -> Address {
    Address::from_bytes([tag; 20])
}

#[test]
fn new_ledger_is_empty() {
    let ledger = Bitsave::new();
    assert_eq!(ledger.get_bitsave_user_count(), U256::zero());
    assert_eq!(ledger.get_bitsave_balance(), U256::zero());
    assert_eq!(ledger.get_accumulated_pool(), U256::zero());
    assert_eq!(ledger.get_tokens_balance(), U256::zero());
    assert!(ledger.user(address(1)).is_none());
}

#[test]
fn join_returns_the_callers_address() {
    let mut ledger = Bitsave::new();
    let alice = address(1);
    assert_eq!(ledger.join_bitsave(alice, "Alice".to_string()), Ok(alice));
    assert_eq!(ledger.get_bitsave_user_count(), U256::from_u64(1));
    let record = ledger.user(alice).unwrap();
    assert!(record.user_exists());
    assert_eq!(record.user_address(), alice);
    assert_eq!(record.get_user_id(), U256::from_u64(1));
    assert_eq!(record.user_name(), "Alice");
}

#[test]
fn second_join_fails_with_already_joined() {
    let mut ledger = Bitsave::new();
    let alice = address(1);
    assert_eq!(ledger.join_bitsave(alice, "Alice".to_string()), Ok(alice));
    assert_eq!(
        ledger.join_bitsave(alice, "Alice again".to_string()),
        Err(BitsaveErrors::AlreadyJoined(alice))
    );
    assert_eq!(ledger.get_bitsave_user_count(), U256::from_u64(1));
    assert_eq!(ledger.user(alice).unwrap().user_name(), "Alice");
}

#[test]
fn second_join_fails_after_other_calls() {
    let mut ledger = Bitsave::new();
    let alice = address(1);
    let bob = address(2);
    ledger.join_bitsave(alice, "Alice".to_string()).unwrap();
    ledger.join_bitsave(bob, "Bob".to_string()).unwrap();
    ledger.fund(bob, U256::from_u64(9));
    ledger
        .create_saving(alice, "car".to_string(), U256::from_u64(50), 1, false, U256::from_u64(3), 10)
        .unwrap();
    assert_eq!(
        ledger.join_bitsave(alice, "A".to_string()),
        Err(BitsaveErrors::AlreadyJoined(alice))
    );
    assert_eq!(ledger.get_bitsave_user_count(), U256::from_u64(2));
}

#[test]
fn user_count_counts_successful_joins() {
    let mut ledger = Bitsave::new();
    for tag in 1..=5u8 {
        assert!(ledger.join_bitsave(address(tag), format!("user {}", tag)).is_ok());
        assert!(ledger.join_bitsave(address(tag), format!("user {}", tag)).is_err());
        assert_eq!(ledger.get_bitsave_user_count(), U256::from_u64(tag as u64));
    }
}

#[test]
fn user_ids_follow_join_order() {
    let mut ledger = Bitsave::new();
    let order = [address(9), address(3), address(7)];
    for who in order {
        ledger.join_bitsave(who, "member".to_string()).unwrap();
    }
    assert_eq!(ledger.user(order[0]).unwrap().get_user_id(), U256::from_u64(1));
    assert_eq!(ledger.user(order[1]).unwrap().get_user_id(), U256::from_u64(2));
    assert_eq!(ledger.user(order[2]).unwrap().get_user_id(), U256::from_u64(3));
}

#[test]
fn addresses_differing_in_one_byte_are_different_members() {
    let mut ledger = Bitsave::new();
    let mut bytes = [0u8; 20];
    let first = Address::from_bytes(bytes);
    bytes[19] = 1;
    let second = Address::from_bytes(bytes);
    assert_ne!(first, second);
    assert_eq!(first, Address::zero());
    ledger.join_bitsave(first, "first".to_string()).unwrap();
    assert!(ledger.user(second).is_none());
    assert_eq!(ledger.join_bitsave(second, "second".to_string()), Ok(second));
    assert_eq!(ledger.user(second).unwrap().user_name(), "second");
    assert_eq!(second.into_bytes(), bytes);
    assert_eq!(second.bytes[19], 1);
}

#[test]
fn user_details_of_a_member() {
    let mut ledger = Bitsave::new();
    let alice = address(1);
    let bob = address(2);
    ledger.join_bitsave(alice, "Alice".to_string()).unwrap();
    ledger.join_bitsave(bob, "Bob".to_string()).unwrap();
    assert_eq!(
        ledger.get_user_details(bob),
        Ok(("Bob".to_string(), U256::from_u64(2), bob))
    );
    assert_eq!(
        ledger.get_user_details(alice),
        Ok(("Alice".to_string(), U256::from_u64(1), alice))
    );
}

#[test]
fn user_details_of_a_stranger() {
    let mut ledger = Bitsave::new();
    ledger.join_bitsave(address(1), "Alice".to_string()).unwrap();
    assert_eq!(ledger.get_user_details(address(2)), Err(BitsaveErrors::UserNotExist));
}

#[test]
fn fund_adds_to_the_general_fund() {
    let mut ledger = Bitsave::new();
    assert_eq!(ledger.fund(address(1), U256::from_u64(5)), U256::from_u64(5));
    assert_eq!(ledger.fund(address(2), U256::from_u64(7)), U256::from_u64(12));
    assert_eq!(ledger.get_bitsave_balance(), U256::from_u64(12));
    assert_eq!(ledger.get_tokens_balance(), U256::zero());
    assert_eq!(ledger.get_accumulated_pool(), U256::zero());
    assert_eq!(ledger.get_bitsave_user_count(), U256::zero());
}

#[test]
fn fund_carries_into_the_next_limb() {
    let mut ledger = Bitsave::new();
    ledger.fund(address(1), U256::from_u64(u64::MAX));
    assert_eq!(ledger.fund(address(1), U256::from_u64(1)), U256::from_limbs([0, 1, 0, 0]));
}

#[test]
fn fund_wraps_at_two_to_the_256() {
    let mut ledger = Bitsave::new();
    let max = U256::from_limbs([u64::MAX; 4]);
    assert_eq!(ledger.fund(address(1), max), max);
    assert_eq!(ledger.fund(address(1), U256::from_u64(2)), U256::from_u64(1));
}

#[test]
fn fund_agrees_with_the_256_bit_sum() {
    let mut ledger = Bitsave::new();
    let a = [0x0123_4567_89ab_cdef, u64::MAX, 17, 0x8000_0000_0000_0000];
    let b = [0xfedc_ba98_7654_3211, 1, u64::MAX, 0x8000_0000_0000_0001];
    ledger.fund(address(1), U256::from_limbs(a));
    let total = ledger.fund(address(1), U256::from_limbs(b));
    let expected = alloy_primitives::U256::from_limbs(a) + alloy_primitives::U256::from_limbs(b);
    assert_eq!(total.into_limbs(), expected.into_limbs());
}
