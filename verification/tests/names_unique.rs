use device_driver::mir::{
    Buffer, Device, Enum, EnumVariant, Field, FieldConversion, FieldSet, GlobalConfig, Object,
    Register, WordBoundary,
};
use device_driver::passes::names_unique::run_pass;

fn hyphen_config() -> GlobalConfig {
    GlobalConfig {
        name_word_boundaries: vec![WordBoundary::Hyphen],
        ..Default::default()
    }
}

fn register_with_fields(fields: Vec<Field>) -> Object {
    Object::Register(Register {
        name: "Reg".into(),
        field_set: FieldSet {
            fields,
            ..Default::default()
        },
        ..Default::default()
    })
}

fn enum_field(field_name: &str, variants: Vec<EnumVariant>) -> Field {
    Field {
        name: field_name.into(),
        field_conversion: Some(FieldConversion::Enum {
            enum_value: Enum {
                name: "Enum".into(),
                variants,
                ..Default::default()
            },
            use_try: false,
        }),
        ..Default::default()
    }
}

fn run_or_panic(device: &mut Device) {
    if let Err(e) = run_pass(device) {
        panic!("{}", e.message());
    }
}

#[test]
#[should_panic(expected = "Duplicate object name found: `MyBuffer`")]
fn object_names_not_unique() {
    let mut start_mir = Device {
        name: Some("Device".into()),
        global_config: hyphen_config(),
        objects: vec![
            Object::Buffer(Buffer {
                name: "MyBuffer".into(),
                ..Default::default()
            }),
            Object::Buffer(Buffer {
                name: "MyBuffer".into(),
                ..Default::default()
            }),
        ],
    };

    run_or_panic(&mut start_mir);
}

#[test]
#[should_panic(expected = "Duplicate field name found in fieldset `Reg`: `field`")]
fn field_names_not_unique() {
    let mut start_mir = Device {
        name: Some("Device".into()),
        global_config: hyphen_config(),
        objects: vec![register_with_fields(vec![
            Field {
                name: "field".into(),
                ..Default::default()
            },
            Field {
                name: "field".into(),
                ..Default::default()
            },
        ])],
    };

    run_or_panic(&mut start_mir);
}

#[test]
#[should_panic(
    expected = "Duplicate generated enum name `Enum` found in fieldset `Reg` on field `field2`"
)]
fn duplicate_generated_enums() {
    let mut start_mir = Device {
        name: Some("Device".into()),
        global_config: hyphen_config(),
        objects: vec![register_with_fields(vec![
            enum_field("field", Default::default()),
            enum_field("field2", Default::default()),
        ])],
    };

    run_or_panic(&mut start_mir);
}

#[test]
#[should_panic(
    expected = "Duplicate field `Variant` found in generated enum `Enum` in fieldset `Reg` on field `field`"
)]
fn duplicate_generated_enum_variants() {
    let mut start_mir = Device {
        name: Some("Device".into()),
        global_config: hyphen_config(),
        objects: vec![register_with_fields(vec![enum_field(
            "field",
            vec![
                EnumVariant {
                    name: "Variant".into(),
                    ..Default::default()
                },
                EnumVariant {
                    name: "Variant".into(),
                    ..Default::default()
                },
            ],
        )])],
    };

    run_or_panic(&mut start_mir);
}

#[test]
fn unique_names_pass_and_device_name_counts() {
    let mut ok = Device {
        name: Some("Device".into()),
        global_config: hyphen_config(),
        objects: vec![
            Object::Buffer(Buffer {
                name: "MyBuffer".into(),
                ..Default::default()
            }),
            register_with_fields(vec![enum_field(
                "field",
                vec![EnumVariant {
                    name: "A".into(),
                    ..Default::default()
                }],
            )]),
        ],
    };
    assert!(run_pass(&mut ok).is_ok());

    let mut clash = Device {
        name: Some("Device".into()),
        global_config: hyphen_config(),
        objects: vec![Object::Buffer(Buffer {
            name: "Device".into(),
            ..Default::default()
        })],
    };
    assert_eq!(
        run_pass(&mut clash).unwrap_err().message(),
        "Duplicate object name found: `Device`"
    );
}

#[test]
fn first_collision_in_order_is_reported() {
    // The field names of `Reg` collide before the second buffer repeats a name.
    let mut device = Device {
        name: None,
        global_config: hyphen_config(),
        objects: vec![
            Object::Buffer(Buffer { name: "Buf".into(), ..Default::default() }),
            register_with_fields(vec![
                Field { name: "x".into(), ..Default::default() },
                Field { name: "x".into(), ..Default::default() },
            ]),
            Object::Buffer(Buffer { name: "Buf".into(), ..Default::default() }),
        ],
    };
    assert_eq!(
        run_pass(&mut device).unwrap_err().message(),
        "Duplicate field name found in fieldset `Reg`: `x`"
    );
}
