use device_driver::bit::Bit;

#[test]
fn sanity() {
    assert_eq!(Bit::SetHigh.is_set(), true);
    assert_eq!(Bit::SetHigh.is_cleared(), false);

    assert_eq!(Bit::Cleared.is_set(), false);
    assert_eq!(Bit::Cleared.is_cleared(), true);

    assert_eq!(bool::from(Bit::SetHigh), true);
    assert_eq!(bool::from(Bit::Cleared), false);

    assert_eq!(Bit::from(true), Bit::SetHigh);
    assert_eq!(Bit::from(false), Bit::Cleared);
}

#[test]
fn int_conversion() {
    assert_eq!(u8::from(Bit::SetHigh), 1);
    assert_eq!(u8::from(Bit::Cleared), 0);
    assert_eq!(u16::from(Bit::SetHigh), 1);
    assert_eq!(u16::from(Bit::Cleared), 0);
    assert_eq!(u32::from(Bit::SetHigh), 1);
    assert_eq!(u32::from(Bit::Cleared), 0);
    assert_eq!(u64::from(Bit::SetHigh), 1);
    assert_eq!(u64::from(Bit::Cleared), 0);
    assert_eq!(u128::from(Bit::SetHigh), 1);
    assert_eq!(u128::from(Bit::Cleared), 0);

    assert_eq!(i8::from(Bit::SetHigh), 1);
    assert_eq!(i8::from(Bit::Cleared), 0);
    assert_eq!(i16::from(Bit::SetHigh), 1);
    assert_eq!(i16::from(Bit::Cleared), 0);
    assert_eq!(i32::from(Bit::SetHigh), 1);
    assert_eq!(i32::from(Bit::Cleared), 0);
    assert_eq!(i64::from(Bit::SetHigh), 1);
    assert_eq!(i64::from(Bit::Cleared), 0);
    assert_eq!(i128::from(Bit::SetHigh), 1);
    assert_eq!(i128::from(Bit::Cleared), 0);
}

#[test]
fn bit_round_trips_through_ints() {
    for bit in [Bit::SetHigh, Bit::Cleared] {
        assert_eq!(Bit::from(bool::from(bit)), bit);
        assert_eq!(Bit::from(u8::from(bit)), bit);
        assert_eq!(Bit::from(i128::from(bit)), bit);
        assert_eq!(Bit::from(u64::from(bit)), bit);
    }
    assert_eq!(Bit::from(7u8), Bit::SetHigh);
    assert_eq!(Bit::from(-3i32), Bit::SetHigh);
    assert_eq!(Bit::from(0u128), Bit::Cleared);
}
