use device_driver::lir;
use device_driver::mir::{
    Access, BaseType, Block, ByteOrder, Command, Device, Enum, EnumValue, EnumVariant, Field,
    FieldConversion, FieldSet, GlobalConfig, Integer, Object, ObjectOverride, RefObject, Register,
    RegisterOverride, Repeat, ResetValue, WordBoundary,
};
use device_driver::passes::run_passes;

fn sample() -> Device {
    Device {
        name: Some("my-device".into()),
        global_config: GlobalConfig {
            default_byte_order: Some(ByteOrder::LE),
            register_address_type: Some(Integer::U8),
            command_address_type: Some(Integer::U8),
            name_word_boundaries: vec![WordBoundary::Hyphen, WordBoundary::Underscore],
            ..Default::default()
        },
        objects: vec![
            Object::Register(Register {
                name: "status-reg".into(),
                description: "The status".into(),
                address: 1,
                access: Access::RO,
                reset_value: Some(ResetValue::Integer(0x21)),
                field_set: FieldSet {
                    size_bits: 8,
                    fields: vec![
                        Field {
                            name: "Ready".into(),
                            field_address: 0..0,
                            base_type: BaseType::Bool,
                            ..Default::default()
                        },
                        Field {
                            name: "Mode".into(),
                            field_address: 4..6,
                            base_type: BaseType::Unspecified,
                            field_conversion: Some(FieldConversion::Enum {
                                enum_value: Enum {
                                    name: "power-mode".into(),
                                    variants: vec![
                                        EnumVariant {
                                            name: "off".into(),
                                            ..Default::default()
                                        },
                                        EnumVariant {
                                            name: "on".into(),
                                            ..Default::default()
                                        },
                                        EnumVariant {
                                            name: "other".into(),
                                            value: EnumValue::CatchAll,
                                            ..Default::default()
                                        },
                                    ],
                                    base_type: BaseType::Unspecified,
                                    size_bits: Some(2),
                                    ..Default::default()
                                },
                                use_try: false,
                            }),
                            ..Default::default()
                        },
                    ],
                    ..Default::default()
                },
                ..Default::default()
            }),
            Object::Block(Block {
                name: "channel".into(),
                address_offset: 0x10,
                repeat: Some(Repeat {
                    count: 2,
                    stride: 0x10,
                }),
                objects: vec![Object::Command(Command {
                    name: "start".into(),
                    address: 3,
                    ..Default::default()
                })],
                ..Default::default()
            }),
            Object::Ref(RefObject {
                name: "status-copy".into(),
                object_override: ObjectOverride::Register(RegisterOverride {
                    name: "status-reg".into(),
                    address: Some(2),
                    ..Default::default()
                }),
                ..Default::default()
            }),
        ],
    }
}

#[test]
fn passes_prepare_a_device_for_the_low_level_description() {
    let mut device = sample();
    run_passes(&mut device).unwrap();

    assert_eq!(device.name.as_deref(), Some("my-device"));
    let Object::Register(reg) = &device.objects[0] else {
        panic!("expected a register")
    };
    assert_eq!(reg.name, "StatusReg");
    assert_eq!(reg.reset_value, Some(ResetValue::Array(vec![0x21])));
    assert_eq!(reg.field_set.description, "The status");
    assert_eq!(reg.field_set.fields[0].name, "ready");
    assert_eq!(reg.field_set.fields[0].field_address, 0..1);
    assert_eq!(reg.field_set.fields[1].base_type, BaseType::Uint);
    let Some(FieldConversion::Enum { enum_value, .. }) = &reg.field_set.fields[1].field_conversion
    else {
        panic!("expected an enum")
    };
    assert_eq!(enum_value.name, "PowerMode");
    assert_eq!(enum_value.variants[1].value, EnumValue::Specified(1));

    let Object::Ref(r) = &device.objects[2] else {
        panic!("expected a ref")
    };
    assert_eq!(r.object_override.name(), "StatusReg");

    let low = lir::transform::transform(device).unwrap();
    assert_eq!(low.blocks.len(), 2);
    assert_eq!(low.blocks[0].name, "my-device");
    assert_eq!(low.blocks[1].name, "Channel");
    assert_eq!(low.enums[0].name, "PowerMode");
    assert_eq!(low.enums[0].variants[2].number, 2);
    assert!(lir::passes::addresses_non_overlapping::run_pass(&low).is_ok());
}

#[test]
fn passes_stop_at_the_first_refusal() {
    let mut device = sample();
    device.objects.push(Object::Register(Register {
        name: "status_reg".into(),
        ..Default::default()
    }));
    assert_eq!(
        run_passes(&mut device).unwrap_err().message(),
        "Duplicate object name found: `StatusReg`"
    );

    let mut device = sample();
    device.objects.push(Object::Ref(RefObject {
        name: "dangling".into(),
        object_override: ObjectOverride::Register(RegisterOverride {
            name: "nowhere".into(),
            ..Default::default()
        }),
        ..Default::default()
    }));
    assert_eq!(
        run_passes(&mut device).unwrap_err().message(),
        "Register ref `Dangling` refers to unknown register `Nowhere`"
    );
}
