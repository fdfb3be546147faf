use device_driver::dsl_device::{
    transform_dsl_device, transform_global_config, BlockItem, HirBlock, HirBuffer, HirDevice,
    HirGlobalConfig, HirObject, HirRefObject,
};
use device_driver::dsl_hir::{Attribute, AttributeList};
use device_driver::dsl_transform::{
    CommandItem, HirBaseType, HirCommand, HirCommandValue, HirField, HirFieldAddress, HirRegister,
    HirRepeat, RegisterItem,
};
use device_driver::mir::{
    Access, BitOrder, ByteOrder, Integer, Object, ObjectOverride, Repeat, ResetValue, WordBoundary,
};
use device_driver::pipeline::transform_dsl;

fn attrs(list: Vec<Attribute>) -> AttributeList {
    AttributeList { attributes: list }
}

fn device(objects: Vec<HirObject>) -> HirDevice {
    HirDevice { global_config_list: vec![], objects }
}

fn error_of(d: HirDevice) -> String {
    transform_dsl_device(&d).unwrap_err().message()
}

fn register_override(items: Vec<RegisterItem>) -> HirObject {
    HirObject::Register(HirRegister {
        attribute_list: attrs(vec![]),
        identifier: "Bar".to_string(),
        register_items: items,
        fields: vec![],
    })
}

fn reference(target: HirObject) -> HirObject {
    HirObject::Ref(HirRefObject {
        attribute_list: attrs(vec![]),
        identifier: "Foo".to_string(),
        object: Box::new(target),
    })
}

fn hir_buffer(name: &str, address: Option<u128>) -> HirObject {
    HirObject::Buffer(HirBuffer {
        attribute_list: attrs(vec![]),
        identifier: name.to_string(),
        access: None,
        address,
    })
}

fn hir_block(items: Vec<BlockItem>, objects: Vec<HirObject>) -> HirBlock {
    HirBlock { attribute_list: attrs(vec![]), identifier: "Bar".to_string(), block_items: items, objects }
}

fn command_override(items: Vec<CommandItem>) -> HirObject {
    HirObject::Command(HirCommand {
        attribute_list: attrs(vec![]),
        identifier: "Bar".to_string(),
        value: Some(HirCommandValue::Extended { items, in_fields: None, out_fields: None }),
    })
}

#[test]
fn mir_transform_no_double_global_settings() {
    let d = HirDevice {
        global_config_list: vec![
            HirGlobalConfig::DefaultRegisterAccess(Access::RW),
            HirGlobalConfig::DefaultRegisterAccess(Access::RW),
        ],
        objects: vec![],
    };
    assert_eq!(error_of(d), "Duplicate global config found: `DefaultRegisterAccess(RW)`");
}

#[test]
fn global_settings_read() {
    let g = transform_global_config(&vec![
        HirGlobalConfig::DefaultRegisterAccess(Access::RO),
        HirGlobalConfig::DefaultFieldAccess(Access::WO),
        HirGlobalConfig::DefaultBufferAccess(Access::WO),
        HirGlobalConfig::DefaultByteOrder(ByteOrder::LE),
        HirGlobalConfig::DefaultBitOrder(BitOrder::MSB0),
        HirGlobalConfig::RegisterAddressType("i8".to_string()),
        HirGlobalConfig::CommandAddressType("u64".to_string()),
        HirGlobalConfig::BufferAddressType("u32".to_string()),
        HirGlobalConfig::NameWordBoundaries(vec![WordBoundary::Hyphen]),
    ])
    .unwrap();
    assert_eq!(g.default_register_access, Access::RO);
    assert_eq!(g.default_field_access, Access::WO);
    assert_eq!(g.default_buffer_access, Access::WO);
    assert_eq!(g.default_byte_order, Some(ByteOrder::LE));
    assert_eq!(g.default_bit_order, BitOrder::MSB0);
    assert_eq!(g.register_address_type, Some(Integer::I8));
    assert_eq!(g.command_address_type, Some(Integer::U64));
    assert_eq!(g.buffer_address_type, Some(Integer::U32));
    assert_eq!(g.name_word_boundaries, vec![WordBoundary::Hyphen]);
}

#[test]
fn duplicate_boundaries_show_the_list() {
    let list = vec![
        HirGlobalConfig::NameWordBoundaries(vec![WordBoundary::Hyphen, WordBoundary::Underscore]),
        HirGlobalConfig::NameWordBoundaries(vec![]),
    ];
    assert_eq!(
        transform_global_config(&list).unwrap_err().message(),
        "Duplicate global config found: `NameWordBoundaries([Hyphen, Underscore])`"
    );
}

#[test]
fn test_integer_try_from_ident() {
    for name in ["u8", "u16", "u32", "u64", "i8", "i16", "i32", "i64"] {
        let g = transform_global_config(&vec![HirGlobalConfig::RegisterAddressType(name.to_string())]);
        assert!(g.is_ok(), "{name}");
    }
    let g = transform_global_config(&vec![HirGlobalConfig::RegisterAddressType("foo".to_string())]);
    assert_eq!(g.unwrap_err().message(), "Must be an integer type");
}

#[test]
fn buffer() {
    let mut b = HirBuffer {
        attribute_list: attrs(vec![
            Attribute::Doc(" Hello world!".to_string()),
            Attribute::Cfg("feature = \"foo\"".to_string()),
            Attribute::Doc(" This should be in order!".to_string()),
        ]),
        identifier: "Foo".to_string(),
        access: Some(Access::RW),
        address: Some(5),
    };
    let d = transform_dsl_device(&device(vec![HirObject::Buffer(b)])).unwrap();
    match &d.objects[0] {
        Object::Buffer(x) => {
            assert_eq!(x.cfg_attr.inner(), Some("feature = \"foo\""));
            assert_eq!(x.description, " Hello world!\n This should be in order!");
            assert_eq!(x.name, "Foo");
            assert_eq!(x.access, Access::RW);
            assert_eq!(x.address, 5);
        }
        _ => panic!("not a buffer"),
    }
    b = HirBuffer { attribute_list: attrs(vec![]), identifier: "Foo".to_string(), access: None, address: None };
    assert_eq!(error_of(device(vec![HirObject::Buffer(b)])), "Buffer `Foo` must have an address");
}

#[test]
fn block() {
    let d = transform_dsl_device(&device(vec![HirObject::Block(hir_block(vec![], vec![]))])).unwrap();
    match &d.objects[0] {
        Object::Block(x) => {
            assert_eq!(x.cfg_attr.inner(), None);
            assert_eq!(x.description, "");
            assert_eq!(x.address_offset, 0);
            assert_eq!(x.repeat, None);
            assert!(x.objects.is_empty());
        }
        _ => panic!("not a block"),
    }

    let mut b = hir_block(vec![BlockItem::AddressOffset(0x500)], vec![hir_buffer("Bla", Some(5))]);
    b.attribute_list = attrs(vec![Attribute::Doc(" Hello!".to_string()), Attribute::Cfg("bar".to_string())]);
    let d = transform_dsl_device(&device(vec![HirObject::Block(b)])).unwrap();
    match &d.objects[0] {
        Object::Block(x) => {
            assert_eq!(x.cfg_attr.inner(), Some("bar"));
            assert_eq!(x.description, " Hello!");
            assert_eq!(x.address_offset, 0x500);
            match &x.objects[0] {
                Object::Buffer(buf) => {
                    assert_eq!(buf.name, "Bla");
                    assert_eq!(buf.access, Access::RW);
                    assert_eq!(buf.address, 5);
                }
                _ => panic!("not a buffer"),
            }
        }
        _ => panic!("not a block"),
    }

    let b = hir_block(vec![BlockItem::Repeat(HirRepeat { count: 4, stride: 4 })], vec![]);
    let d = transform_dsl_device(&device(vec![HirObject::Block(b)])).unwrap();
    match &d.objects[0] {
        Object::Block(x) => assert_eq!(x.repeat, Some(Repeat { count: 4, stride: 4 })),
        _ => panic!("not a block"),
    }
}

#[test]
fn ref_no_buffer_or_ref() {
    assert_eq!(error_of(device(vec![reference(hir_buffer("Bar", None))])), "Ref `Foo` cannot ref a buffer");
    let inner = HirObject::Ref(HirRefObject {
        attribute_list: attrs(vec![]),
        identifier: "Bar".to_string(),
        object: Box::new(hir_buffer("X", None)),
    });
    assert_eq!(error_of(device(vec![reference(inner)])), "Ref `Foo` cannot ref another ref object");
}

#[test]
fn ref_register() {
    let d = transform_dsl_device(&device(vec![reference(register_override(vec![]))])).unwrap();
    match &d.objects[0] {
        Object::Ref(r) => {
            assert_eq!(r.name, "Foo");
            assert_eq!(r.description, "");
            match &r.object_override {
                ObjectOverride::Register(o) => {
                    assert_eq!(o.name, "Bar");
                    assert_eq!((o.address, o.repeat, o.access, &o.reset_value), (None, None, None, &None));
                }
                _ => panic!("not a register"),
            }
        }
        _ => panic!("not a ref"),
    }

    let d = transform_dsl_device(&device(vec![reference(register_override(vec![
        RegisterItem::Address(5),
        RegisterItem::Repeat(HirRepeat { count: 5, stride: 1 }),
        RegisterItem::Access(Access::WO),
        RegisterItem::ResetValueInt(123),
    ]))]))
    .unwrap();
    match &d.objects[0] {
        Object::Ref(r) => match &r.object_override {
            ObjectOverride::Register(o) => {
                assert_eq!(o.address, Some(5));
                assert_eq!(o.repeat, Some(Repeat { count: 5, stride: 1 }));
                assert_eq!(o.access, Some(Access::WO));
                assert_eq!(o.reset_value, Some(ResetValue::Integer(123)));
            }
            _ => panic!("not a register"),
        },
        _ => panic!("not a ref"),
    }

    let d = transform_dsl_device(&device(vec![reference(register_override(vec![
        RegisterItem::ResetValueArray(vec![1, 2, 3]),
    ]))]))
    .unwrap();
    match &d.objects[0] {
        Object::Ref(r) => match &r.object_override {
            ObjectOverride::Register(o) => assert_eq!(o.reset_value, Some(ResetValue::Array(vec![1, 2, 3]))),
            _ => panic!("not a register"),
        },
        _ => panic!("not a ref"),
    }

    assert_eq!(
        error_of(device(vec![reference(register_override(vec![RegisterItem::ByteOrder(ByteOrder::BE)]))])),
        "No ByteOrder is allowed on register overrides"
    );
    assert_eq!(
        error_of(device(vec![reference(register_override(vec![RegisterItem::BitOrder(BitOrder::LSB0)]))])),
        "No BitOrder is allowed on register overrides"
    );
    assert_eq!(
        error_of(device(vec![reference(register_override(vec![RegisterItem::SizeBits(5)]))])),
        "No SizeBits is allowed on register overrides"
    );
    let with_doc = HirObject::Register(HirRegister {
        attribute_list: attrs(vec![Attribute::Doc(" Hi!".to_string())]),
        identifier: "Bar".to_string(),
        register_items: vec![],
        fields: vec![],
    });
    assert_eq!(
        error_of(device(vec![reference(with_doc)])),
        "No attributes (cfg or doc) are allowed on register overrides"
    );
    let with_field = HirObject::Register(HirRegister {
        attribute_list: attrs(vec![]),
        identifier: "Bar".to_string(),
        register_items: vec![],
        fields: vec![HirField {
            attribute_list: attrs(vec![]),
            identifier: "val".to_string(),
            access: None,
            base_type: HirBaseType::Bool,
            field_conversion: None,
            field_address: HirFieldAddress::Integer(0),
        }],
    });
    assert_eq!(error_of(device(vec![reference(with_field)])), "No fields are allowed on register overrides");
}

#[test]
fn ref_command() {
    let d = transform_dsl_device(&device(vec![reference(command_override(vec![]))])).unwrap();
    match &d.objects[0] {
        Object::Ref(r) => match &r.object_override {
            ObjectOverride::Command(o) => {
                assert_eq!(o.name, "Bar");
                assert_eq!((o.address, o.repeat), (None, None));
            }
            _ => panic!("not a command"),
        },
        _ => panic!("not a ref"),
    }
    let d = transform_dsl_device(&device(vec![reference(command_override(vec![CommandItem::Address(6)]))])).unwrap();
    match &d.objects[0] {
        Object::Ref(r) => match &r.object_override {
            ObjectOverride::Command(o) => assert_eq!((o.address, o.repeat), (Some(6), None)),
            _ => panic!("not a command"),
        },
        _ => panic!("not a ref"),
    }
    let d = transform_dsl_device(&device(vec![reference(command_override(vec![
        CommandItem::Address(7),
        CommandItem::Repeat(HirRepeat { count: 4, stride: 4 }),
    ]))]))
    .unwrap();
    match &d.objects[0] {
        Object::Ref(r) => match &r.object_override {
            ObjectOverride::Command(o) => {
                assert_eq!((o.address, o.repeat), (Some(7), Some(Repeat { count: 4, stride: 4 })))
            }
            _ => panic!("not a command"),
        },
        _ => panic!("not a ref"),
    }
    assert_eq!(
        error_of(device(vec![reference(command_override(vec![CommandItem::SizeBitsOut(8)]))])),
        "No size bits out is allowed on command overrides"
    );
    let basic = HirObject::Command(HirCommand {
        attribute_list: attrs(vec![]),
        identifier: "Bar".to_string(),
        value: Some(HirCommandValue::Basic(1)),
    });
    assert_eq!(
        error_of(device(vec![reference(basic)])),
        "No basic address specifier is allowed on command overrides. Use the extended syntax with `{ }` instead"
    );
    let none = HirObject::Command(HirCommand { attribute_list: attrs(vec![]), identifier: "Bar".to_string(), value: None });
    assert_eq!(error_of(device(vec![reference(none)])), "A value is required on command overrides");
}

#[test]
fn ref_block() {
    let d = transform_dsl_device(&device(vec![reference(HirObject::Block(hir_block(vec![], vec![])))])).unwrap();
    match &d.objects[0] {
        Object::Ref(r) => match &r.object_override {
            ObjectOverride::Block(o) => {
                assert_eq!(o.name, "Bar");
                assert_eq!((o.address_offset, o.repeat), (None, None));
            }
            _ => panic!("not a block"),
        },
        _ => panic!("not a ref"),
    }
    let mut b = hir_block(vec![], vec![]);
    b.attribute_list = attrs(vec![Attribute::Doc(" Illegal comment!".to_string())]);
    assert_eq!(
        error_of(device(vec![reference(HirObject::Block(b))])),
        "No attributes (cfg or doc) are allowed on block overrides"
    );
    let b = hir_block(vec![], vec![hir_buffer("X", Some(1))]);
    assert_eq!(error_of(device(vec![reference(HirObject::Block(b))])), "No objects may be defined on block overrides");
}

#[test]
fn settings_fault_comes_before_objects() {
    let d = HirDevice {
        global_config_list: vec![HirGlobalConfig::BufferAddressType("u128x".to_string())],
        objects: vec![hir_buffer("Foo", None)],
    };
    assert_eq!(error_of(d), "Must be an integer type");
}

#[test]
fn dsl_device_gives_driver_code_or_compile_error() {
    let d = HirDevice {
        global_config_list: vec![HirGlobalConfig::BufferAddressType("u8".to_string())],
        objects: vec![hir_buffer("Fifo", Some(3))],
    };
    let code = transform_dsl(&d, "MyDriver");
    assert!(code.contains("pub struct MyDriver<I>"), "{code}");
    assert!(code.contains("pub fn fifo("), "{code}");

    let bad = device(vec![hir_buffer("Foo", None)]);
    assert_eq!(
        transform_dsl(&bad, "MyDriver"),
        "::core::compile_error! { \"Buffer `Foo` must have an address\" }\n"
    );
}
