use bitsave::uint::U256;

#[test]
fn from_u64_fills_the_lowest_limb() {
    assert_eq!(U256::from_u64(0), U256::zero());
    assert_eq!(U256::from_u64(42).into_limbs(), [42, 0, 0, 0]);
    assert_eq!(U256::from_u64(u64::MAX).into_limbs(), [u64::MAX, 0, 0, 0]);
}

#[test]
fn limbs_round_trip() {
    let limbs = [1, 2, 3, 4];
    assert_eq!(U256::from_limbs(limbs).into_limbs(), limbs);
    assert_ne!(U256::from_limbs([1, 2, 3, 4]), U256::from_limbs([4, 3, 2, 1]));
}

#[test]
fn limbs_are_least_significant_first() {
    let value = U256::from_limbs([5, 6, 7, 8]);
    let same = alloy_primitives::U256::from_limbs([5, 6, 7, 8]);
    let two_to_64 = alloy_primitives::U256::from(u64::MAX) + alloy_primitives::U256::from(1u64);
    let expected = ((alloy_primitives::U256::from(8u64) * two_to_64
        + alloy_primitives::U256::from(7u64))
        * two_to_64
        + alloy_primitives::U256::from(6u64))
        * two_to_64
        + alloy_primitives::U256::from(5u64);
    assert_eq!(same, expected);
    assert_eq!(value.into_limbs(), expected.into_limbs());
}

#[test]
fn as_u64_gives_small_values_only() {
    assert_eq!(U256::zero().as_u64(), Some(0));
    assert_eq!(U256::from_u64(u64::MAX).as_u64(), Some(u64::MAX));
    assert_eq!(U256::from_limbs([5, 1, 0, 0]).as_u64(), None);
    assert_eq!(U256::from_limbs([5, 0, 1, 0]).as_u64(), None);
    assert_eq!(U256::from_limbs([5, 0, 0, 1]).as_u64(), None);
}

#[test]
fn alloy_integers_are_those_of_ruint() {
    let value: ruint::Uint<256, 4> = alloy_primitives::U256::from_limbs([1, 2, 3, 4]);
    assert_eq!(U256::from_limbs(value.into_limbs()).into_limbs(), [1, 2, 3, 4]);
    assert_eq!(ruint::Uint::<256, 4>::MAX.into_limbs(), [u64::MAX; 4]);
}
