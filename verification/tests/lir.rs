use device_driver::lir::passes::addresses_non_overlapping::run_pass;
use device_driver::lir::transform::transform;
use device_driver::lir::{
    Block, BlockMethod, BlockMethodKind, BlockMethodType, Device, FieldConversionMethod,
};
use device_driver::mir;
use device_driver::mir::{
    Access, BaseType, BitOrder, ByteOrder, Cfg, Integer, ObjectOverride, Repeat,
};

fn register_method(name: &str, address: i64, kind: BlockMethodKind) -> BlockMethod {
    BlockMethod {
        cfg_attr: String::new(),
        description: Default::default(),
        name: name.to_string(),
        address,
        allow_address_overlap: false,
        kind,
        method_type: BlockMethodType::Register {
            field_set_name: "bla".to_string(),
            access: Access::RW,
            address_type: Integer::U8,
            reset_value_function: "new".to_string(),
        },
    }
}

#[test]
fn deep_overlap_detected() {
    let mut device = Device {
        internal_address_type: Integer::U8,
        register_address_type: Integer::U8,
        blocks: vec![
            Block {
                cfg_attr: String::new(),
                description: Default::default(),
                root: true,
                name: "Root".to_string(),
                methods: vec![
                    BlockMethod {
                        cfg_attr: String::new(),
                        description: Default::default(),
                        name: "second_block".to_string(),
                        address: 10,
                        allow_address_overlap: false,
                        kind: BlockMethodKind::Repeated {
                            count: 10,
                            stride: 10,
                        },
                        method_type: BlockMethodType::Block {
                            name: "SecondBlock".to_string(),
                        },
                    },
                    register_method(
                        "register0",
                        75,
                        BlockMethodKind::Repeated {
                            count: 2,
                            stride: 5,
                        },
                    ),
                ],
            },
            Block {
                cfg_attr: String::new(),
                description: Default::default(),
                root: true,
                name: "SecondBlock".to_string(),
                methods: vec![register_method("register1", 0, BlockMethodKind::Normal)],
            },
        ],
        field_sets: Vec::new(),
        enums: Vec::new(),
        defmt_feature: None,
    };

    assert_eq!(
        run_pass(&mut device).unwrap_err().message(),
        "Objects \"SecondBlock (index: 7)::Register1\" and \"Register0 (index: 1)\" use the same address (80). If this is intended, then allow address overlap on both objects."
    );
}

#[test]
fn overlap_allowed_on_both_passes() {
    let mut a = register_method("reg_a", 4, BlockMethodKind::Normal);
    let mut b = register_method("reg_b", 4, BlockMethodKind::Normal);
    let device = |a: BlockMethod, b: BlockMethod| Device {
        internal_address_type: Integer::U8,
        register_address_type: Integer::U8,
        blocks: vec![Block {
            cfg_attr: String::new(),
            description: String::new(),
            root: true,
            name: "Root".to_string(),
            methods: vec![a, b],
        }],
        field_sets: Vec::new(),
        enums: Vec::new(),
        defmt_feature: None,
    };
    assert_eq!(
        run_pass(&device(
            register_method("reg_a", 4, BlockMethodKind::Normal),
            register_method("reg_b", 4, BlockMethodKind::Normal)
        ))
        .unwrap_err()
        .message(),
        "Objects \"RegA\" and \"RegB\" use the same address (4). If this is intended, then allow address overlap on both objects."
    );
    a.allow_address_overlap = true;
    b.allow_address_overlap = true;
    assert!(run_pass(&device(a, b)).is_ok());
}

fn field(name: &str, start: u32, end: u32, base_type: BaseType) -> mir::Field {
    mir::Field {
        name: name.into(),
        field_address: start..end,
        base_type,
        ..Default::default()
    }
}

fn sample_device() -> mir::Device {
    mir::Device {
        name: Some("MyDevice".into()),
        global_config: mir::GlobalConfig {
            register_address_type: Some(Integer::U8),
            buffer_address_type: Some(Integer::U16),
            ..Default::default()
        },
        objects: vec![
            mir::Object::Register(mir::Register {
                cfg_attr: Cfg::new(Some("feature = \"x\"")),
                description: "The status".into(),
                name: "StatusReg".into(),
                address: 3,
                reset_value: Some(mir::ResetValue::Array(vec![0x01])),
                field_set: mir::FieldSet {
                    size_bits: 8,
                    byte_order: Some(ByteOrder::LE),
                    bit_order: Some(BitOrder::LSB0),
                    fields: vec![
                        field("ready", 0, 1, BaseType::Bool),
                        field("count", 1, 4, BaseType::Uint),
                        mir::Field {
                            field_conversion: Some(mir::FieldConversion::Enum {
                                enum_value: mir::Enum {
                                    name: "Mode".into(),
                                    variants: vec![
                                        mir::EnumVariant {
                                            name: "Off".into(),
                                            ..Default::default()
                                        },
                                        mir::EnumVariant {
                                            name: "On".into(),
                                            value: mir::EnumValue::Specified(3),
                                            ..Default::default()
                                        },
                                        mir::EnumVariant {
                                            name: "Other".into(),
                                            value: mir::EnumValue::CatchAll,
                                            ..Default::default()
                                        },
                                    ],
                                    base_type: BaseType::FixedSize(Integer::U8),
                                    size_bits: Some(4),
                                    generation_style: Some(
                                        mir::EnumGenerationStyle::InfallibleWithinRange,
                                    ),
                                    ..Default::default()
                                },
                                use_try: false,
                            }),
                            ..field("mode", 4, 8, BaseType::Int)
                        },
                    ],
                    ..Default::default()
                },
                ..Default::default()
            }),
            mir::Object::Block(mir::Block {
                name: "Channel".into(),
                address_offset: 0x10,
                repeat: Some(Repeat {
                    count: 4,
                    stride: 0x10,
                }),
                objects: vec![mir::Object::Buffer(mir::Buffer {
                    name: "Fifo".into(),
                    address: 2,
                    ..Default::default()
                })],
                ..Default::default()
            }),
            mir::Object::Ref(mir::RefObject {
                name: "StatusCopy".into(),
                object_override: ObjectOverride::Register(mir::RegisterOverride {
                    name: "StatusReg".into(),
                    address: Some(4),
                    reset_value: Some(mir::ResetValue::Array(vec![0x02])),
                    ..Default::default()
                }),
                ..Default::default()
            }),
        ],
    }
}

#[test]
fn transform_builds_blocks_and_methods() {
    let device = transform(sample_device()).unwrap();

    assert_eq!(device.blocks.len(), 2);
    let root = &device.blocks[0];
    assert!(root.root);
    assert_eq!(root.name, "MyDevice");
    assert_eq!(root.description, "Root block of the MyDevice driver");
    assert_eq!(root.cfg_attr, "");
    assert_eq!(root.methods.len(), 3);

    let status = &root.methods[0];
    assert_eq!(status.name, "status_reg");
    assert_eq!(status.cfg_attr, "#[cfg(feature = \"x\")]");
    assert_eq!(status.address, 3);
    match &status.method_type {
        BlockMethodType::Register {
            field_set_name,
            reset_value_function,
            address_type,
            ..
        } => {
            assert_eq!(field_set_name, "StatusReg");
            assert_eq!(reset_value_function, "new");
            assert_eq!(*address_type, Integer::U8);
        }
        _ => panic!("not a register method"),
    }

    let channel = &root.methods[1];
    assert_eq!(channel.name, "channel");
    assert_eq!(
        channel.kind,
        BlockMethodKind::Repeated {
            count: 4,
            stride: 0x10
        }
    );

    let copy = &root.methods[2];
    assert_eq!(copy.name, "status_copy");
    assert_eq!(copy.address, 4);
    match &copy.method_type {
        BlockMethodType::Register {
            field_set_name,
            reset_value_function,
            ..
        } => {
            assert_eq!(field_set_name, "StatusReg");
            assert_eq!(reset_value_function, "new_as_status_copy");
        }
        _ => panic!("not a register method"),
    }

    let block = &device.blocks[1];
    assert!(!block.root);
    assert_eq!(block.name, "Channel");
    assert_eq!(block.methods[0].name, "fifo");

    // Addresses go up to 0x10 + 3 * 0x10 = 0x40, all positive.
    assert_eq!(device.internal_address_type, Integer::U8);
    assert_eq!(device.register_address_type, Integer::U8);
}

#[test]
fn transform_builds_field_sets_and_enums() {
    let device = transform(sample_device()).unwrap();

    assert_eq!(device.field_sets.len(), 1);
    let fs = &device.field_sets[0];
    assert_eq!(fs.name, "StatusReg");
    assert_eq!(fs.size_bytes(), 1);
    assert_eq!(fs.reset_value, vec![0x01]);
    assert_eq!(
        fs.ref_reset_overrides,
        vec![("StatusCopy".to_string(), vec![0x02])]
    );
    assert_eq!(fs.fields[0].base_type, "u8");
    assert!(matches!(fs.fields[0].conversion_method, FieldConversionMethod::Bool));
    assert_eq!(fs.fields[1].base_type, "u8");
    assert!(matches!(
        fs.fields[1].conversion_method,
        FieldConversionMethod::NoConversion
    ));
    assert_eq!(fs.fields[2].base_type, "i8");
    match &fs.fields[2].conversion_method {
        FieldConversionMethod::UnsafeInto(t) => assert_eq!(t, "Mode"),
        _ => panic!("expected an unchecked conversion"),
    }
    assert_eq!(
        fs.fields[2].conversion_method.conversion_type(),
        Some(&"Mode".to_string())
    );

    assert_eq!(device.enums.len(), 1);
    let e = &device.enums[0];
    assert_eq!(e.name, "Mode");
    assert_eq!(e.base_type, "i8");
    let numbers: Vec<i128> = e.variants.iter().map(|v| v.number).collect();
    assert_eq!(numbers, vec![0, 3, 4]);
    assert_eq!(e.catch_all_variant().unwrap().name, "Other");
    assert!(e.default_variant().is_none());
}

#[test]
fn transform_chooses_signed_internal_type() {
    let mut d = sample_device();
    d.objects.push(mir::Object::Buffer(mir::Buffer {
        name: "Below".into(),
        address: -200,
        ..Default::default()
    }));
    let device = transform(d).unwrap();
    assert_eq!(device.internal_address_type, Integer::I16);
}

#[test]
fn transformed_device_passes_address_check() {
    let device = transform(sample_device()).unwrap();
    assert!(run_pass(&device).is_ok());
}
