use bitsave::address::Address;
use bitsave::errors::BitsaveErrors;
use bitsave::uint::U256;
use bitsave::user_data::{SavingData, UserData};
use bitsave::Bitsave;

fn address(tag: u8) -> Address {
    Address::from_bytes([tag; 20])
}

fn record(tag: u8, id: u64, name: &str) -> UserData {
    let mut user = UserData::new();
    user.create_user(address(tag), U256::from_u64(id), name.to_string());
    user
}

fn kept_saving(amount: u64, is_valid: bool) -> SavingData {
    SavingData {
        is_valid,
        amount: U256::from_u64(amount),
        maturity_time: U256::from_u64(2000),
        start_time: U256::from_u64(1000),
        token_id: Address::zero(),
        is_safe_mode: true,
        interest_accumulated: U256::from_u64(7),
        penalty_perc: 10,
    }
}

fn restore(count: u64, users: Vec<UserData>) -> Option<Bitsave> {
    Bitsave::restore(
        U256::from_u64(count),
        U256::from_u64(11),
        U256::from_u64(22),
        U256::from_u64(33),
        users,
    )
}

#[test]
fn put_saving_sets_and_replaces() {
    let mut user = UserData::new();
    assert!(user.saving(&"car".to_string()).is_none());
    user.put_saving("car".to_string(), kept_saving(100, true));
    user.put_saving("house".to_string(), kept_saving(200, false));
    assert_eq!(user.saving(&"car".to_string()), Some(kept_saving(100, true)));
    assert_eq!(user.saving(&"house".to_string()), Some(kept_saving(200, false)));
    user.put_saving("car".to_string(), kept_saving(5, false));
    assert_eq!(user.saving(&"car".to_string()), Some(kept_saving(5, false)));
    assert_eq!(user.saving(&"house".to_string()), Some(kept_saving(200, false)));
}

#[test]
fn restore_rebuilds_a_ledger() {
    let mut alice = record(1, 1, "Alice");
    alice.put_saving("car".to_string(), kept_saving(1500, true));
    alice.put_saving("old".to_string(), kept_saving(0, false));
    let bob = record(2, 2, "Bob");
    let mut ledger = restore(2, vec![alice, bob]).unwrap();

    assert_eq!(ledger.get_bitsave_user_count(), U256::from_u64(2));
    assert_eq!(ledger.get_tokens_balance(), U256::from_u64(11));
    assert_eq!(ledger.get_accumulated_pool(), U256::from_u64(22));
    assert_eq!(ledger.get_bitsave_balance(), U256::from_u64(33));
    assert_eq!(
        ledger.get_user_details(address(2)),
        Ok(("Bob".to_string(), U256::from_u64(2), address(2)))
    );
    let car = ledger.user(address(1)).unwrap().saving(&"car".to_string()).unwrap();
    assert_eq!(car, kept_saving(1500, true));

    assert_eq!(
        ledger.join_bitsave(address(1), "Alice".to_string()),
        Err(BitsaveErrors::AlreadyJoined(address(1)))
    );
    assert_eq!(ledger.join_bitsave(address(3), "Cleo".to_string()), Ok(address(3)));
    assert_eq!(ledger.user(address(3)).unwrap().get_user_id(), U256::from_u64(3));
    assert_eq!(
        ledger.increment_saving(address(1), "old".to_string(), U256::from_u64(1)),
        Err(BitsaveErrors::SavingNotFound)
    );
    assert_eq!(ledger.withdraw_savings(address(1), "car".to_string(), 2001), Ok(U256::from_u64(1350)));
}

#[test]
fn restore_of_nothing_is_the_new_ledger() {
    let ledger = Bitsave::restore(U256::zero(), U256::zero(), U256::zero(), U256::zero(), Vec::new())
        .unwrap();
    assert_eq!(ledger.get_bitsave_user_count(), U256::zero());
    assert!(ledger.user(address(1)).is_none());
}

#[test]
fn restore_refuses_a_wrong_user_count() {
    assert!(restore(1, vec![record(1, 1, "Alice"), record(2, 2, "Bob")]).is_none());
    assert!(restore(3, vec![record(1, 1, "Alice"), record(2, 2, "Bob")]).is_none());
    assert!(restore(1, Vec::new()).is_none());
    let huge = Bitsave::restore(
        U256::from_limbs([2, 1, 0, 0]),
        U256::zero(),
        U256::zero(),
        U256::zero(),
        vec![record(1, 1, "Alice"), record(2, 2, "Bob")],
    );
    assert!(huge.is_none());
}

#[test]
fn restore_refuses_ids_out_of_order() {
    assert!(restore(2, vec![record(1, 2, "Alice"), record(2, 1, "Bob")]).is_none());
    assert!(restore(2, vec![record(1, 1, "Alice"), record(2, 3, "Bob")]).is_none());
    assert!(restore(1, vec![record(1, 0, "Alice")]).is_none());
    let mut far = UserData::new();
    far.create_user(address(1), U256::from_limbs([1, 0, 0, 1]), "Alice".to_string());
    assert!(restore(1, vec![far]).is_none());
}

#[test]
fn restore_refuses_an_address_twice() {
    assert!(restore(2, vec![record(1, 1, "Alice"), record(1, 2, "Alice too")]).is_none());
    assert!(restore(3, vec![record(1, 1, "a"), record(2, 2, "b"), record(1, 3, "c")]).is_none());
}

#[test]
fn restore_refuses_a_record_that_has_not_joined() {
    assert!(restore(1, vec![UserData::new()]).is_none());
    assert!(restore(2, vec![record(1, 1, "Alice"), UserData::new()]).is_none());
}
