use device_driver::utils::SliceHexFormatter;

#[test]
fn slice_hex_formatter() {
    assert_eq!(
        SliceHexFormatter::new(&[0xDE, 0xAD, 0xBE, 0xEF, 0x00, 0x01]).to_string(),
        "DEADBEEF0001".to_string()
    );
}

#[test]
fn slice_hex_formatter_empty_and_small() {
    assert_eq!(SliceHexFormatter::new(&[]).to_string(), "");
    assert_eq!(SliceHexFormatter::new(&[0x0A, 0xF0]).to_string(), "0AF0");
}
