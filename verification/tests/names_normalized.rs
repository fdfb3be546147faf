use device_driver::mir::{
    Buffer, Device, Enum, EnumVariant, Field, FieldConversion, FieldSet, GlobalConfig, Object,
    Register, WordBoundary,
};
use device_driver::passes::names_normalized::run_pass;

fn device(
    register: &str,
    buffer: &str,
    field: &str,
    field2: &str,
    enum_name: &str,
    variant: &str,
) -> Device {
    Device {
        name: None,
        global_config: GlobalConfig {
            name_word_boundaries: vec![WordBoundary::Hyphen],
            ..Default::default()
        },
        objects: vec![
            Object::Register(Register {
                name: register.into(),
                field_set: FieldSet {
                    fields: vec![
                        Field {
                            name: field.into(),
                            ..Default::default()
                        },
                        Field {
                            name: field2.into(),
                            field_conversion: Some(FieldConversion::Enum {
                                enum_value: Enum {
                                    name: enum_name.into(),
                                    variants: vec![EnumVariant {
                                        name: variant.into(),
                                        ..Default::default()
                                    }],
                                    ..Default::default()
                                },
                                use_try: false,
                            }),
                            ..Default::default()
                        },
                    ],
                    ..Default::default()
                },
                ..Default::default()
            }),
            Object::Buffer(Buffer {
                name: buffer.into(),
                ..Default::default()
            }),
        ],
    }
}

#[test]
fn names_normalized() {
    let mut start_mir = device(
        "my-reGister",
        "my-buffer",
        "my-fielD",
        "my-fielD2",
        "mY-enum",
        "eNum-Variant",
    );
    let end_mir = device(
        "MyRegister",
        "MyBuffer",
        "my_field",
        "my_field2",
        "MyEnum",
        "EnumVariant",
    );

    run_pass(&mut start_mir);

    assert_eq!(start_mir, end_mir);
}

#[test]
fn default_boundaries_split_case_changes() {
    let mut start_mir = Device {
        name: None,
        global_config: Default::default(),
        objects: vec![Object::Buffer(Buffer {
            name: "rx_fifoData".into(),
            ..Default::default()
        })],
    };
    run_pass(&mut start_mir);
    match &start_mir.objects[0] {
        Object::Buffer(b) => assert_eq!(b.name, "RxFifoData"),
        _ => unreachable!(),
    }
}
