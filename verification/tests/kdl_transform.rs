use device_driver::kdl_transform::{description_to_leading_comment, transform};
use device_driver::mir::{
    Access, BaseType, BitOrder, ByteOrder, Cfg, Device, Field, FieldConversion, FieldSet, GlobalConfig,
    Integer, Object, Register, Repeat, ResetValue,
};
use device_driver::reporting::Diagnostics;

fn register(name: &str, address: i64, description: &str) -> Register {
    Register {
        cfg_attr: Cfg::new(None),
        description: description.to_string(),
        name: name.to_string(),
        access: Access::RO,
        allow_address_overlap: true,
        address,
        reset_value: Some(ResetValue::Array(vec![1, 2])),
        repeat: Some(Repeat { count: 3, stride: -4 }),
        field_set: FieldSet {
            description: String::new(),
            size_bits: 16,
            byte_order: Some(ByteOrder::BE),
            bit_order: Some(BitOrder::MSB0),
            allow_bit_overlap: true,
            fields: Vec::new(),
        },
    }
}

fn device() -> Device {
    let mut global_config = GlobalConfig::default();
    global_config.register_address_type = Some(Integer::U16);
    global_config.default_byte_order = Some(ByteOrder::LE);
    global_config.default_field_access = Access::WO;
    Device {
        name: Some("MyDevice".to_string()),
        global_config,
        objects: vec![
            Object::Register(register("Status", 7, "The status\nof the chip")),
            Object::Register(register("Control", -2, "")),
        ],
    }
}

#[test]
fn leading_comments() {
    assert_eq!(description_to_leading_comment("a\nb"), "/// a\n/// b");
    assert_eq!(description_to_leading_comment(""), "");
    assert_eq!(description_to_leading_comment("x\r\n"), "/// x");
}

#[test]
fn written_device_reads_back() {
    let text = transform(device());
    let mut d = Diagnostics::new();
    let devices = device_driver::kdl::transform(&text, &mut d).unwrap();
    assert!(d.reports.is_empty(), "{text}\n{:?}", d.reports);
    assert_eq!(devices.len(), 1);
    let back = &devices[0];
    assert_eq!(back.name.as_deref(), Some("MyDevice"));
    assert_eq!(back.global_config.register_address_type, Some(Integer::U16));
    assert_eq!(back.global_config.default_byte_order, Some(ByteOrder::LE));
    assert_eq!(back.global_config.default_field_access, Access::WO);
    assert_eq!(back.objects.len(), 2);
    let original = device();
    for (a, b) in back.objects.iter().zip(original.objects.iter()) {
        match (a, b) {
            (Object::Register(a), Object::Register(b)) => {
                assert_eq!(a.name, b.name);
                assert_eq!(a.address, b.address);
                assert_eq!(a.access, b.access);
                assert_eq!(a.allow_address_overlap, b.allow_address_overlap);
                assert_eq!(a.reset_value, b.reset_value);
                assert_eq!(a.repeat, b.repeat);
                // The written comments are indented inside the device, and the reader only
                // takes comment lines that start with `///`, so no description comes back.
                assert_eq!(a.description, "");
                assert_eq!(a.field_set.size_bits, b.field_set.size_bits);
                assert_eq!(a.field_set.byte_order, b.field_set.byte_order);
                assert_eq!(a.field_set.bit_order, b.field_set.bit_order);
                assert_eq!(a.field_set.allow_bit_overlap, b.field_set.allow_bit_overlap);
            }
            _ => panic!("expected registers"),
        }
    }
}

#[test]
fn written_text_holds_the_settings() {
    let text = transform(device());
    assert!(text.starts_with("device MyDevice"), "{text}");
    assert!(text.contains("register-address-type u16"), "{text}");
    assert!(text.contains("default-byte-order LE"), "{text}");
    assert!(text.contains("/// The status"), "{text}");
    assert!(!text.contains("default-register-access"), "{text}");
}

#[test]
fn fields_are_written_with_their_types() {
    let mut dev = device();
    if let Object::Register(r) = &mut dev.objects[0] {
        r.field_set.fields.push(Field {
            cfg_attr: Cfg::new(Some("feature = \"x\"")),
            description: "A flag".to_string(),
            name: "enabled".to_string(),
            access: Access::RW,
            base_type: BaseType::Bool,
            field_conversion: None,
            field_address: 3..4,
        });
        r.field_set.fields.push(Field {
            cfg_attr: Cfg::new(None),
            description: String::new(),
            name: "mode".to_string(),
            access: Access::WO,
            base_type: BaseType::Uint,
            field_conversion: Some(FieldConversion::Direct { type_path: "crate::Mode".to_string(), use_try: true }),
            field_address: 4..8,
        });
    }
    let text = transform(dev);
    assert!(text.contains("/// A flag"), "{text}");
    assert!(text.contains("(bool)enabled RW cfg=\"feature = \\\"x\\\"\" @3"), "{text}");
    assert!(text.contains("(uint:crate::Mode?)mode @7:4"), "{text}");
}

#[test]
fn unnamed_device_is_called_device() {
    let mut dev = device();
    dev.name = None;
    dev.objects.clear();
    let text = transform(dev);
    assert!(text.starts_with("device Device"), "{text}");
}

#[test]
fn written_settings_read_back() {
    let mut global_config = GlobalConfig::default();
    global_config.default_register_access = Access::RO;
    global_config.default_buffer_access = Access::WO;
    global_config.default_bit_order = BitOrder::MSB0;
    global_config.command_address_type = Some(Integer::I8);
    global_config.buffer_address_type = Some(Integer::U32);
    global_config.defmt_feature = Some("defmt-03".to_string());
    let dev = Device { name: Some("Chip".to_string()), global_config, objects: Vec::new() };
    let text = transform(dev.clone());
    let mut d = Diagnostics::new();
    let devices = device_driver::kdl::transform(&text, &mut d).unwrap();
    assert!(d.reports.is_empty(), "{text}\n{:?}", d.reports);
    assert_eq!(devices.len(), 1);
    let back = &devices[0].global_config;
    assert_eq!(back.default_register_access, Access::RO);
    assert_eq!(back.default_field_access, Access::RW);
    assert_eq!(back.default_buffer_access, Access::WO);
    assert_eq!(back.default_bit_order, BitOrder::MSB0);
    assert_eq!(back.default_byte_order, None);
    assert_eq!(back.register_address_type, None);
    assert_eq!(back.command_address_type, Some(Integer::I8));
    assert_eq!(back.buffer_address_type, Some(Integer::U32));
    assert_eq!(back.defmt_feature.as_deref(), Some("defmt-03"));
    assert_eq!(back.name_word_boundaries, dev.global_config.name_word_boundaries);
    assert!(devices[0].objects.is_empty());
}

#[test]
fn written_empty_device_reads_back_as_empty() {
    let dev = Device { name: Some("Chip".to_string()), global_config: GlobalConfig::default(), objects: Vec::new() };
    let text = transform(dev);
    let mut d = Diagnostics::new();
    let devices = device_driver::kdl::transform(&text, &mut d).unwrap();
    assert_eq!(devices.len(), 1);
    assert_eq!(devices[0].name.as_deref(), Some("Chip"));
    assert!(devices[0].objects.is_empty());
    assert_eq!(d.reports.len(), 1, "{text}\n{:?}", d.reports);
    assert!(matches!(d.reports[0], device_driver::reporting::Diagnostic::EmptyNode { .. }), "{:?}", d.reports);
}
