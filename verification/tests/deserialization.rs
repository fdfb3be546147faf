use device_driver::deserialization::ResetValue;

#[test]
fn fixed_reset_data_must_match() {
    let v = ResetValue::new(vec![0, 1, 2], true);
    assert_eq!(v.get_data(3, "Reg").unwrap(), vec![0, 1, 2]);
    assert_eq!(
        v.get_data(4, "Reg").unwrap_err().message(),
        "Reset value of register `Reg` has the wrong length (3 bytes): Must be 4 bytes"
    );
}

#[test]
fn unfixed_reset_data_is_padded() {
    let v = ResetValue::new(vec![0, 0, 1, 2], false);
    assert_eq!(v.get_data(4, "Reg").unwrap(), vec![0, 0, 1, 2]);
    assert_eq!(v.get_data(2, "Reg").unwrap(), vec![1, 2]);
    assert_eq!(v.get_data(3, "Reg").unwrap(), vec![0, 1, 2]);
    assert_eq!(
        v.get_data(1, "Reg").unwrap_err().message(),
        "Reset value of register `Reg` has the wrong length (2 bytes): Must be 1 bytes"
    );
    let zero = ResetValue::new(vec![0, 0], false);
    assert_eq!(zero.get_data(0, "Reg").unwrap(), Vec::<u8>::new());
    assert_eq!(zero.get_data(2, "Reg").unwrap(), vec![0, 0]);
}
