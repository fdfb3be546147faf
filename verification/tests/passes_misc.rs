use device_driver::mir::{
    BaseType, BitOrder, Block, Buffer, Cfg, Command, Device, Enum, Field, FieldConversion,
    FieldSet, GlobalConfig, Object, Register,
};
use device_driver::passes::{base_types, bit_order, bool_fields, descriptions, propagate_cfg};

fn register_with(field_set: FieldSet) -> Device {
    Device {
        name: None,
        global_config: Default::default(),
        objects: vec![Object::Register(Register {
            name: "Reg".into(),
            description: "Reg docs".into(),
            field_set,
            ..Default::default()
        })],
    }
}

fn only_field_set(device: &Device) -> &FieldSet {
    match &device.objects[0] {
        Object::Register(r) => &r.field_set,
        _ => unreachable!(),
    }
}

#[test]
fn bit_order_filled_from_global_config() {
    let mut device = register_with(FieldSet::default());
    device.global_config = GlobalConfig {
        default_bit_order: BitOrder::MSB0,
        ..Default::default()
    };
    bit_order::run_pass(&mut device);
    assert_eq!(only_field_set(&device).bit_order, Some(BitOrder::MSB0));

    let mut device = register_with(FieldSet {
        bit_order: Some(BitOrder::LSB0),
        ..Default::default()
    });
    device.global_config.default_bit_order = BitOrder::MSB0;
    bit_order::run_pass(&mut device);
    assert_eq!(only_field_set(&device).bit_order, Some(BitOrder::LSB0));
}

#[test]
fn base_types_follow_field_size() {
    let mut device = register_with(FieldSet {
        size_bits: 8,
        fields: vec![
            Field {
                name: "flag".into(),
                field_address: 0..1,
                base_type: BaseType::Unspecified,
                ..Default::default()
            },
            Field {
                name: "value".into(),
                field_address: 1..8,
                base_type: BaseType::Unspecified,
                ..Default::default()
            },
            Field {
                name: "signed".into(),
                field_address: 1..8,
                base_type: BaseType::Int,
                ..Default::default()
            },
        ],
        ..Default::default()
    });
    base_types::run_pass(&mut device);
    let fs = only_field_set(&device);
    assert_eq!(fs.fields[0].base_type, BaseType::Bool);
    assert_eq!(fs.fields[1].base_type, BaseType::Uint);
    assert_eq!(fs.fields[2].base_type, BaseType::Int);
}

#[test]
fn bool_fields_checked() {
    let bool_field = |end: u32, conversion: Option<FieldConversion>| Field {
        name: "flag".into(),
        field_address: 3..end,
        base_type: BaseType::Bool,
        field_conversion: conversion,
        ..Default::default()
    };

    let mut device = register_with(FieldSet {
        fields: vec![bool_field(3, None)],
        ..Default::default()
    });
    bool_fields::run_pass(&mut device).unwrap();
    assert_eq!(only_field_set(&device).fields[0].field_address, 3..4);

    let mut device = register_with(FieldSet {
        fields: vec![bool_field(5, None)],
        ..Default::default()
    });
    assert_eq!(
        bool_fields::run_pass(&mut device).unwrap_err().message(),
        "Object \"Reg\" has field \"flag\" which is of base type `bool` and is larger than 1 bit. A bool can only be zero or one bit."
    );

    let mut device = register_with(FieldSet {
        fields: vec![bool_field(
            4,
            Some(FieldConversion::Direct {
                type_path: "crate::Flag".into(),
                use_try: false,
            }),
        )],
        ..Default::default()
    });
    assert_eq!(
        bool_fields::run_pass(&mut device).unwrap_err().message(),
        "Object \"Reg\" has field \"flag\" which is of base type `bool` and has specified a conversion. This is not supported for bools."
    );
}

#[test]
fn field_set_descriptions_set() {
    let mut device = register_with(FieldSet::default());
    descriptions::run_pass(&mut device);
    assert_eq!(only_field_set(&device).description, "Reg docs");

    let mut device = register_with(FieldSet {
        description: "Own docs".into(),
        ..Default::default()
    });
    descriptions::run_pass(&mut device);
    assert_eq!(only_field_set(&device).description, "Own docs");

    let mut device = Device {
        name: None,
        global_config: Default::default(),
        objects: vec![Object::Command(Command {
            name: "Cmd".into(),
            description: "Cmd docs".into(),
            field_set_in: Some(FieldSet::default()),
            ..Default::default()
        })],
    };
    descriptions::run_pass(&mut device);
    match &device.objects[0] {
        Object::Command(c) => {
            assert_eq!(c.field_set_in.as_ref().unwrap().description, "Cmd docs");
            assert!(c.field_set_out.is_none());
        }
        _ => unreachable!(),
    }
}

#[test]
fn cfg_propagated_down_blocks() {
    let mut device = Device {
        name: None,
        global_config: Default::default(),
        objects: vec![Object::Block(Block {
            cfg_attr: Cfg::new(Some("a")),
            name: "Outer".into(),
            objects: vec![
                Object::Buffer(Buffer {
                    name: "Plain".into(),
                    ..Default::default()
                }),
                Object::Register(Register {
                    cfg_attr: Cfg::new(Some("b")),
                    name: "Reg".into(),
                    field_set: FieldSet {
                        fields: vec![Field {
                            name: "mode".into(),
                            cfg_attr: Cfg::new(Some("c")),
                            field_conversion: Some(FieldConversion::Enum {
                                enum_value: Enum {
                                    name: "Mode".into(),
                                    ..Default::default()
                                },
                                use_try: false,
                            }),
                            ..Default::default()
                        }],
                        ..Default::default()
                    },
                    ..Default::default()
                }),
            ],
            ..Default::default()
        })],
    };
    propagate_cfg::run_pass(&mut device);

    let Object::Block(outer) = &device.objects[0] else {
        unreachable!()
    };
    assert_eq!(outer.cfg_attr.to_string(), "#[cfg(a)]");
    let Object::Buffer(plain) = &outer.objects[0] else {
        unreachable!()
    };
    assert_eq!(plain.cfg_attr.inner(), Some("a"));
    let Object::Register(reg) = &outer.objects[1] else {
        unreachable!()
    };
    assert_eq!(reg.cfg_attr.inner(), Some("all(b, a)"));
    let Some(FieldConversion::Enum { enum_value, .. }) = &reg.field_set.fields[0].field_conversion
    else {
        unreachable!()
    };
    assert_eq!(enum_value.cfg_attr.inner(), Some("all(c, all(b, a))"));
}

#[test]
fn cfg_combine_cases() {
    let none = Cfg::new(None);
    let a = Cfg::new(Some("a"));
    let b = Cfg::new(Some("b"));
    assert_eq!(none.combine(&none).inner(), None);
    assert_eq!(none.combine(&a).inner(), Some("a"));
    assert_eq!(a.combine(&none).inner(), Some("a"));
    assert_eq!(a.combine(&a).inner(), Some("a"));
    assert_eq!(a.combine(&b).inner(), Some("all(a, b)"));
    assert_eq!(b.combine(&a).inner(), Some("all(b, a)"));
    assert_eq!(none.to_string(), "");
}
