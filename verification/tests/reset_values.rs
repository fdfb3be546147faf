use device_driver::mir::{
    BitOrder, ByteOrder, Device, FieldSet, GlobalConfig, Object, Register, ResetValue,
};
use device_driver::passes::reset_values::run_pass;

fn device(
    global_config: GlobalConfig,
    reset_value: ResetValue,
    size_bits: u32,
    byte_order: ByteOrder,
    bit_order: BitOrder,
) -> Device {
    Device {
        name: None,
        global_config,
        objects: vec![Object::Register(Register {
            name: "Reg".into(),
            reset_value: Some(reset_value),
            field_set: FieldSet {
                size_bits,
                bit_order: Some(bit_order),
                byte_order: Some(byte_order),
                ..Default::default()
            },
            ..Default::default()
        })],
    }
}

fn le_config() -> GlobalConfig {
    GlobalConfig {
        default_byte_order: Some(ByteOrder::LE),
        ..Default::default()
    }
}

#[test]
fn correct_sizes() {
    let mut start_mir = device(
        Default::default(),
        ResetValue::Integer(0x1F),
        5,
        ByteOrder::LE,
        BitOrder::LSB0,
    );
    run_pass(&mut start_mir).unwrap();
    let end_mir = device(
        Default::default(),
        ResetValue::Array(vec![0x1F]),
        5,
        ByteOrder::LE,
        BitOrder::LSB0,
    );
    assert_eq!(start_mir, end_mir);

    let mut start_mir = device(
        Default::default(),
        ResetValue::Array(vec![0x1F]),
        5,
        ByteOrder::LE,
        BitOrder::LSB0,
    );
    run_pass(&mut start_mir).unwrap();
    let end_mir = device(
        Default::default(),
        ResetValue::Array(vec![0x1F]),
        5,
        ByteOrder::LE,
        BitOrder::LSB0,
    );
    assert_eq!(start_mir, end_mir);

    let mut start_mir = device(
        le_config(),
        ResetValue::Integer(0x423),
        11,
        ByteOrder::LE,
        BitOrder::LSB0,
    );
    run_pass(&mut start_mir).unwrap();
    let end_mir = device(
        le_config(),
        ResetValue::Array(vec![0x23, 0x04]),
        11,
        ByteOrder::LE,
        BitOrder::LSB0,
    );
    assert_eq!(start_mir, end_mir);

    let mut start_mir = device(
        Default::default(),
        ResetValue::Array(vec![0x04, 0x23]),
        11,
        ByteOrder::BE,
        BitOrder::LSB0,
    );
    run_pass(&mut start_mir).unwrap();
    let end_mir = device(
        Default::default(),
        ResetValue::Array(vec![0x04, 0x23]),
        11,
        ByteOrder::BE,
        BitOrder::LSB0,
    );
    assert_eq!(start_mir, end_mir);

    let mut start_mir = device(
        Default::default(),
        ResetValue::Array(vec![0x20, 0xC4]),
        11,
        ByteOrder::BE,
        BitOrder::MSB0,
    );
    run_pass(&mut start_mir).unwrap();
    let end_mir = device(
        Default::default(),
        ResetValue::Array(vec![0x20, 0xC4]),
        11,
        ByteOrder::BE,
        BitOrder::MSB0,
    );
    assert_eq!(start_mir, end_mir);
}

#[test]
fn incorrect_sizes() {
    let too_big = "The reset value of register `Reg` has (a) bit(s) specified above the size of the register. While you can specify them, this is likely a mistake and thus not accepted. Keep the bits `10..` all at zero";

    let mut start_mir = device(
        le_config(),
        ResetValue::Integer(0x423),
        10,
        ByteOrder::LE,
        BitOrder::LSB0,
    );
    assert_eq!(run_pass(&mut start_mir).unwrap_err().message(), too_big);

    let mut start_mir = device(
        Default::default(),
        ResetValue::Array(vec![0x04, 0x23]),
        10,
        ByteOrder::BE,
        BitOrder::LSB0,
    );
    assert_eq!(run_pass(&mut start_mir).unwrap_err().message(), too_big);

    let mut start_mir = device(
        Default::default(),
        ResetValue::Array(vec![0x20, 0xC4]),
        10,
        ByteOrder::BE,
        BitOrder::MSB0,
    );
    assert_eq!(run_pass(&mut start_mir).unwrap_err().message(), too_big);
}

#[test]
fn wrong_num_bytes_arry() {
    let mut start_mir = device(
        Default::default(),
        ResetValue::Array(vec![0, 0, 0]),
        32,
        ByteOrder::LE,
        BitOrder::LSB0,
    );

    assert_eq!(
        run_pass(&mut start_mir).unwrap_err().message(),
        "The reset value of register `Reg` has the incorrect length. It must be specified as 4 bytes, but now only has 3 elements"
    );
}

#[test]
fn int_msb0_parsed_correct() {
    let mut start_mir = device(
        Default::default(),
        ResetValue::Integer(0xF8),
        5,
        ByteOrder::LE,
        BitOrder::MSB0,
    );
    run_pass(&mut start_mir).unwrap();
    let end_mir = device(
        Default::default(),
        ResetValue::Array(vec![0xF8]),
        5,
        ByteOrder::LE,
        BitOrder::MSB0,
    );
    assert_eq!(start_mir, end_mir);
}

#[test]
fn big_endian_integer_reset_value() {
    let mut start_mir = device(
        Default::default(),
        ResetValue::Integer(0x0423),
        16,
        ByteOrder::BE,
        BitOrder::LSB0,
    );
    run_pass(&mut start_mir).unwrap();
    let end_mir = device(
        Default::default(),
        ResetValue::Array(vec![0x04, 0x23]),
        16,
        ByteOrder::BE,
        BitOrder::LSB0,
    );
    assert_eq!(start_mir, end_mir);
}
