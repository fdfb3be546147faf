use device_driver::mir::{Command, Device, Field, FieldSet, Object, Register};
use device_driver::passes::bit_ranges::run_pass;

fn register(size_bits: u32, allow_bit_overlap: bool, fields: Vec<Field>) -> Device {
    Device {
        name: None,
        global_config: Default::default(),
        objects: vec![Object::Register(Register {
            name: "MyReg".into(),
            field_set: FieldSet {
                size_bits,
                allow_bit_overlap,
                fields,
                ..Default::default()
            },
            ..Default::default()
        })],
    }
}

fn command(size_bits: u32, allow_bit_overlap: bool, fields: Vec<Field>, input: bool) -> Device {
    let fs = Some(FieldSet {
        size_bits,
        allow_bit_overlap,
        fields,
        ..Default::default()
    });
    let (field_set_in, field_set_out) = if input { (fs, None) } else { (None, fs) };
    Device {
        name: None,
        global_config: Default::default(),
        objects: vec![Object::Command(Command {
            name: "MyReg".into(),
            field_set_in,
            field_set_out,
            ..Default::default()
        })],
    }
}

fn field(name: &str, start: u32, end: u32) -> Field {
    Field {
        name: name.into(),
        field_address: start..end,
        ..Default::default()
    }
}

#[test]
fn max_len_exceeded() {
    let mut start_mir = register(10, false, vec![field("my_field", 0, 10)]);
    run_pass(&mut start_mir).unwrap();

    let mut start_mir = register(10, false, vec![field("my_field", 0, 11)]);
    assert_eq!(
        run_pass(&mut start_mir).unwrap_err().message(),
        "Object `MyReg` has field `my_field` who's address exceeds the given max size bits"
    );

    let mut start_mir = command(10, false, vec![field("my_field", 0, 10)], true);
    run_pass(&mut start_mir).unwrap();

    let mut start_mir = command(10, false, vec![field("my_field", 0, 11)], true);
    assert_eq!(
        run_pass(&mut start_mir).unwrap_err().message(),
        "Object `MyReg (in)` has field `my_field` who's address exceeds the given max size bits"
    );

    let mut start_mir = command(10, false, vec![field("my_field", 0, 10)], false);
    run_pass(&mut start_mir).unwrap();

    let mut start_mir = command(10, false, vec![field("my_field", 0, 11)], false);
    assert_eq!(
        run_pass(&mut start_mir).unwrap_err().message(),
        "Object `MyReg (out)` has field `my_field` who's address exceeds the given max size bits"
    );
}

#[test]
fn overlap_register() {
    let mut start_mir = register(
        10,
        false,
        vec![field("my_field", 0, 5), field("my_field2", 5, 10)],
    );
    run_pass(&mut start_mir).unwrap();

    let mut start_mir = register(
        10,
        true,
        vec![field("my_field", 0, 6), field("my_field2", 5, 10)],
    );
    run_pass(&mut start_mir).unwrap();

    let mut start_mir = register(
        10,
        false,
        vec![field("my_field", 0, 6), field("my_field2", 5, 10)],
    );
    assert_eq!(
        run_pass(&mut start_mir).unwrap_err().message(),
        "Object `MyReg` has two overlapping fields: `my_field` and `my_field2`. If this is intended, set the `AllowBitOverlap` option to true"
    );
}

#[test]
fn overlap_command_in() {
    let mut start_mir = command(
        10,
        false,
        vec![field("my_field", 0, 5), field("my_field2", 5, 10)],
        true,
    );
    run_pass(&mut start_mir).unwrap();

    let mut start_mir = command(
        10,
        true,
        vec![field("my_field", 0, 6), field("my_field2", 5, 10)],
        true,
    );
    run_pass(&mut start_mir).unwrap();

    let mut start_mir = command(
        10,
        false,
        vec![field("my_field", 0, 6), field("my_field2", 5, 10)],
        true,
    );
    assert_eq!(
        run_pass(&mut start_mir).unwrap_err().message(),
        "Object `MyReg (in)` has two overlapping fields: `my_field` and `my_field2`. If this is intended, set the `AllowBitOverlap` option to true"
    );
}

#[test]
fn overlap_command_out() {
    let mut start_mir = command(
        10,
        false,
        vec![field("my_field", 0, 5), field("my_field2", 5, 10)],
        false,
    );
    run_pass(&mut start_mir).unwrap();

    let mut start_mir = command(
        10,
        true,
        vec![field("my_field", 0, 6), field("my_field2", 5, 10)],
        false,
    );
    run_pass(&mut start_mir).unwrap();

    let mut start_mir = command(
        10,
        false,
        vec![field("my_field", 0, 6), field("my_field2", 5, 10)],
        false,
    );
    assert_eq!(
        run_pass(&mut start_mir).unwrap_err().message(),
        "Object `MyReg (out)` has two overlapping fields: `my_field` and `my_field2`. If this is intended, set the `AllowBitOverlap` option to true"
    );
}

#[test]
fn zero_bit_field_rejected() {
    let mut start_mir = register(10, false, vec![field("empty", 3, 3)]);
    assert_eq!(
        run_pass(&mut start_mir).unwrap_err().message(),
        "Object `MyReg` has field `empty` that is 0 bits. This is likely a mistake"
    );
}

#[test]
fn first_refused_register_gives_the_error() {
    let reg = |name: &str, fields: Vec<Field>| {
        Object::Register(Register {
            name: name.into(),
            field_set: FieldSet { size_bits: 8, fields, ..Default::default() },
            ..Default::default()
        })
    };
    let mut device = Device {
        name: None,
        global_config: Default::default(),
        objects: vec![
            reg("Good", vec![field("a", 0, 8)]),
            reg("First", vec![field("ok", 0, 2), field("overlapping", 1, 3), field("empty", 4, 4)]),
            reg("Second", vec![field("too_long", 0, 9)]),
        ],
    };
    // Fields outside the size or without bits come before overlaps.
    assert_eq!(
        run_pass(&mut device).unwrap_err().message(),
        "Object `First` has field `empty` that is 0 bits. This is likely a mistake"
    );
}
