use device_driver::mir::{ByteOrder, Command, Device, FieldSet, GlobalConfig, Object, Register};
use device_driver::passes::byte_order::run_pass;

#[test]
fn well_enough_specified() {
    let mut input = Device {
        name: None,
        global_config: Default::default(),
        objects: vec![
            Object::Register(Register {
                name: "MyRegister".into(),
                field_set: FieldSet {
                    size_bits: 8,
                    ..Default::default()
                },
                ..Default::default()
            }),
            Object::Register(Register {
                name: "MyRegister2".into(),
                field_set: FieldSet {
                    size_bits: 9,
                    byte_order: Some(ByteOrder::LE),
                    ..Default::default()
                },
                ..Default::default()
            }),
            Object::Command(Command {
                name: "MyCommand".into(),
                ..Default::default()
            }),
            Object::Command(Command {
                name: "MyCommand2".into(),
                field_set_in: Some(FieldSet {
                    size_bits: 9,
                    byte_order: Some(ByteOrder::LE),
                    ..Default::default()
                }),
                ..Default::default()
            }),
            Object::Command(Command {
                name: "MyCommand3".into(),
                field_set_out: Some(FieldSet {
                    size_bits: 9,
                    byte_order: Some(ByteOrder::LE),
                    ..Default::default()
                }),
                ..Default::default()
            }),
        ],
    };

    run_pass(&mut input).unwrap();
}

#[test]
fn not_enough_specified() {
    let mut input = Device {
        name: None,
        global_config: Default::default(),
        objects: vec![Object::Register(Register {
            name: "MyRegister".into(),
            field_set: FieldSet {
                size_bits: 9,
                ..Default::default()
            },
            ..Default::default()
        })],
    };

    assert_eq!(
        run_pass(&mut input).unwrap_err().message(),
        "No byte order is specified for register `MyRegister` while it's big enough that byte order is important. Specify it on the register or in the global config"
    );

    let mut input = Device {
        name: None,
        global_config: Default::default(),
        objects: vec![Object::Command(Command {
            name: "MyCommand".into(),
            field_set_in: Some(FieldSet {
                size_bits: 9,
                ..Default::default()
            }),
            ..Default::default()
        })],
    };

    assert_eq!(
        run_pass(&mut input).unwrap_err().message(),
        "No byte order is specified for command `MyCommand` while it's big enough that byte order is important. Specify it on the command or in the global config"
    );

    let mut input = Device {
        name: None,
        global_config: Default::default(),
        objects: vec![Object::Command(Command {
            name: "MyCommand".into(),
            field_set_out: Some(FieldSet {
                size_bits: 9,
                ..Default::default()
            }),
            ..Default::default()
        })],
    };

    assert_eq!(
        run_pass(&mut input).unwrap_err().message(),
        "No byte order is specified for command `MyCommand` while it's big enough that byte order is important. Specify it on the command or in the global config"
    );
}

#[test]
fn not_enough_specified_but_global_config() {
    let global_config = GlobalConfig {
        default_byte_order: Some(ByteOrder::LE),
        ..Default::default()
    };

    let mut input = Device {
        name: None,
        global_config,
        objects: vec![
            Object::Register(Register {
                name: "MyRegister".into(),
                field_set: FieldSet {
                    size_bits: 9,
                    ..Default::default()
                },
                ..Default::default()
            }),
            Object::Command(Command {
                name: "MyCommand".into(),
                field_set_in: Some(FieldSet {
                    size_bits: 9,
                    ..Default::default()
                }),
                ..Default::default()
            }),
            Object::Command(Command {
                name: "MyCommand".into(),
                field_set_out: Some(FieldSet {
                    size_bits: 9,
                    ..Default::default()
                }),
                ..Default::default()
            }),
        ],
    };

    run_pass(&mut input).unwrap();
}

#[test]
fn small_field_sets_get_a_byte_order() {
    let mut input = Device {
        name: None,
        global_config: Default::default(),
        objects: vec![Object::Register(Register {
            name: "MyRegister".into(),
            field_set: FieldSet {
                size_bits: 8,
                ..Default::default()
            },
            ..Default::default()
        })],
    };

    run_pass(&mut input).unwrap();
    match &input.objects[0] {
        Object::Register(r) => assert!(r.field_set.byte_order.is_some()),
        _ => unreachable!(),
    }
}
