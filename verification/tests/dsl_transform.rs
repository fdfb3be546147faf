use device_driver::dsl_hir::{Attribute, AttributeList};
use device_driver::dsl_transform::{
    transform_register, HirBaseType, HirEnumValue, HirEnumVariant, HirField, HirFieldAddress,
    HirFieldConversion, HirRegister, HirRepeat, RegisterItem,
};
use device_driver::mir::{Access, BaseType, BitOrder, ByteOrder, EnumValue, FieldConversion, GlobalConfig, Repeat, ResetValue};

fn attrs(list: Vec<Attribute>) -> AttributeList {
    AttributeList { attributes: list }
}

fn field(name: &str, base_type: HirBaseType, address: HirFieldAddress) -> HirField {
    HirField {
        attribute_list: attrs(vec![]),
        identifier: name.to_string(),
        access: None,
        base_type,
        field_conversion: None,
        field_address: address,
    }
}

fn register(items: Vec<RegisterItem>, fields: Vec<HirField>) -> HirRegister {
    HirRegister { attribute_list: attrs(vec![]), identifier: "Foo".to_string(), register_items: items, fields }
}

#[test]
fn written_register_is_read() {
    let mut gc = GlobalConfig::default();
    gc.default_byte_order = Some(ByteOrder::BE);
    gc.default_field_access = Access::RO;
    let mut conv_field = field("mode", HirBaseType::Uint, HirFieldAddress::RangeInclusive { start: 2, end: 4 });
    conv_field.field_conversion = Some(HirFieldConversion::Enum {
        identifier: "Mode".to_string(),
        variants: vec![
            HirEnumVariant { attribute_list: attrs(vec![]), identifier: "A".to_string(), enum_value: None },
            HirEnumVariant {
                attribute_list: attrs(vec![Attribute::Doc("Second".to_string())]),
                identifier: "B".to_string(),
                enum_value: Some(HirEnumValue::Specified(3)),
            },
        ],
    });
    let mut direct = field("x", HirBaseType::Int, HirFieldAddress::Range { start: 8, end: 16 });
    direct.field_conversion = Some(HirFieldConversion::Direct("crate :: X".to_string()));
    direct.access = Some(Access::WO);
    let mut r = register(
        vec![
            RegisterItem::Access(Access::RO),
            RegisterItem::Address(5),
            RegisterItem::Address(7),
            RegisterItem::SizeBits(16),
            RegisterItem::BitOrder(BitOrder::MSB0),
            RegisterItem::ResetValueInt(0x1234),
            RegisterItem::Repeat(HirRepeat { count: 4, stride: 2 }),
        ],
        vec![field("flag", HirBaseType::Bool, HirFieldAddress::Integer(0)), conv_field, direct],
    );
    r.attribute_list = attrs(vec![Attribute::Doc("Line one".to_string()), Attribute::Cfg("unix".to_string())]);
    let reg = transform_register(&r, &gc).unwrap();
    assert_eq!(reg.name, "Foo");
    assert_eq!(reg.description, "Line one");
    assert_eq!(reg.cfg_attr.to_string(), "#[cfg(unix)]");
    assert_eq!(reg.access, Access::RO);
    assert_eq!(reg.address, 5);
    assert_eq!(reg.reset_value, Some(ResetValue::Integer(0x1234)));
    assert_eq!(reg.repeat, Some(Repeat { count: 4, stride: 2 }));
    assert_eq!(reg.field_set.size_bits, 16);
    assert_eq!(reg.field_set.byte_order, Some(ByteOrder::BE));
    assert_eq!(reg.field_set.bit_order, Some(BitOrder::MSB0));
    let fields = &reg.field_set.fields;
    assert_eq!(fields.len(), 3);
    assert_eq!(fields[0].field_address, 0..0);
    assert_eq!(fields[0].base_type, BaseType::Bool);
    assert_eq!(fields[0].access, Access::RO);
    assert_eq!(fields[1].field_address, 2..5);
    match &fields[1].field_conversion {
        Some(FieldConversion::Enum { enum_value, use_try }) => {
            assert!(!use_try);
            assert_eq!(enum_value.name, "Mode");
            assert_eq!(enum_value.variants.len(), 2);
            assert_eq!(enum_value.variants[0].value, EnumValue::Unspecified);
            assert_eq!(enum_value.variants[1].value, EnumValue::Specified(3));
            assert_eq!(enum_value.variants[1].description, "Second");
        }
        _ => panic!("expected an enum"),
    }
    assert_eq!(fields[2].access, Access::WO);
    match &fields[2].field_conversion {
        Some(FieldConversion::Direct { type_path, use_try }) => {
            assert_eq!(type_path, "crate::X");
            assert!(!use_try);
        }
        _ => panic!("expected a direct conversion"),
    }
}

#[test]
fn register_without_address_is_refused() {
    let r = register(vec![RegisterItem::SizeBits(8)], vec![]);
    assert_eq!(
        transform_register(&r, &GlobalConfig::default()).unwrap_err().message(),
        "Register `Foo` must have an address"
    );
}

#[test]
fn max_one_cfg_attr() {
    let mut r = register(vec![RegisterItem::Address(1)], vec![]);
    r.attribute_list = attrs(vec![Attribute::Cfg("a".to_string()), Attribute::Cfg("b".to_string())]);
    assert_eq!(
        transform_register(&r, &GlobalConfig::default()).unwrap_err().message(),
        "Only one cfg attribute is allowed, but 2 are found"
    );
}

#[test]
fn first_faulty_field_gives_the_error() {
    let r = register(
        vec![RegisterItem::Address(1)],
        vec![
            field("ok", HirBaseType::Bool, HirFieldAddress::Integer(3)),
            field("wide", HirBaseType::Uint, HirFieldAddress::Integer(3)),
            field("big", HirBaseType::Uint, HirFieldAddress::Range { start: 0, end: 1 << 40 }),
        ],
    );
    assert_eq!(
        transform_register(&r, &GlobalConfig::default()).unwrap_err().message(),
        "Field `wide` has a non-bool base type and must specify the start and the end address"
    );
    let r = register(vec![RegisterItem::Address(1 << 63)], vec![]);
    assert_eq!(
        transform_register(&r, &GlobalConfig::default()).unwrap_err().message(),
        "number too large to fit in target type"
    );
}

use device_driver::dsl_transform::{transform_command, CommandItem, HirCommand, HirCommandValue};

fn command(value: Option<HirCommandValue>) -> HirCommand {
    HirCommand { attribute_list: attrs(vec![]), identifier: "Cmd".to_string(), value }
}

#[test]
fn written_command_is_read() {
    let c = command(Some(HirCommandValue::Basic(9)));
    let cmd = transform_command(&c, &GlobalConfig::default()).unwrap();
    assert_eq!(cmd.name, "Cmd");
    assert_eq!(cmd.address, 9);
    assert!(cmd.field_set_in.is_none() && cmd.field_set_out.is_none());

    let c = command(Some(HirCommandValue::Extended {
        items: vec![
            CommandItem::SizeBitsIn(8),
            CommandItem::Address(3),
            CommandItem::ByteOrder(ByteOrder::LE),
            CommandItem::Repeat(HirRepeat { count: 2, stride: 10 }),
        ],
        in_fields: Some(vec![field("a", HirBaseType::Uint, HirFieldAddress::Range { start: 0, end: 8 })]),
        out_fields: None,
    }));
    let cmd = transform_command(&c, &GlobalConfig::default()).unwrap();
    assert_eq!(cmd.address, 3);
    assert_eq!(cmd.repeat, Some(Repeat { count: 2, stride: 10 }));
    let fs = cmd.field_set_in.unwrap();
    assert_eq!(fs.size_bits, 8);
    assert_eq!(fs.byte_order, Some(ByteOrder::LE));
    assert_eq!(fs.bit_order, Some(BitOrder::LSB0));
    assert_eq!(fs.fields.len(), 1);
    assert!(cmd.field_set_out.is_none());
}

#[test]
fn refused_commands() {
    let gc = GlobalConfig::default();
    assert_eq!(transform_command(&command(None), &gc).unwrap_err().message(), "Command `Cmd` must have a value");
    let c = command(Some(HirCommandValue::Extended { items: vec![], in_fields: None, out_fields: None }));
    assert_eq!(transform_command(&c, &gc).unwrap_err().message(), "Command `Cmd` must have an address");
    let c = command(Some(HirCommandValue::Extended {
        items: vec![CommandItem::Address(1), CommandItem::SizeBitsOut(1 << 33)],
        in_fields: None,
        out_fields: None,
    }));
    assert_eq!(transform_command(&c, &gc).unwrap_err().message(), "number too large to fit in target type");
    let c = command(Some(HirCommandValue::Extended {
        items: vec![CommandItem::Address(1)],
        in_fields: Some(vec![]),
        out_fields: Some(vec![field("o", HirBaseType::Int, HirFieldAddress::Integer(2))]),
    }));
    assert_eq!(
        transform_command(&c, &gc).unwrap_err().message(),
        "Field `o` has a non-bool base type and must specify the start and the end address"
    );
}
