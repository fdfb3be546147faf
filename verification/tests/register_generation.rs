use device_driver::deserialization::ResetValue;
use device_driver::mir::ByteOrder;
use device_driver::register_generation::{
    generate_buffer_function, generate_command_function, generate_definitions,
    generate_device_functions, generate_device_impl, generate_field_read, generate_field_write,
    generate_register_definition, generate_register_function, BufferDef, CommandDef, FieldDef,
    RegisterDef,
};

fn field(name: &str, start: u32, end: Option<u32>) -> FieldDef {
    FieldDef {
        name: name.to_string(),
        description: None,
        conversion: None,
        strict_conversion: None,
        register_type: "u8".to_string(),
        is_bool: false,
        start,
        end,
        attributes: vec![],
        type_definition: None,
    }
}

fn register(fields: Vec<FieldDef>) -> RegisterDef {
    RegisterDef {
        name: "MyReg".to_string(),
        size_bits: 12,
        address: 3,
        rw_type: "device_driver::RW".to_string(),
        description: Some("A \"quoted\" register".to_string()),
        reset_value: None,
        fields,
        byte_order: None,
        cfg_attributes: vec!["#[cfg(unix)]".to_string()],
    }
}

#[test]
fn plain_field_getter() {
    assert_eq!(
        generate_field_read(&field("my_field", 0, Some(4)), false),
        "pub fn my_field(&self) -> u8 {\n    device_driver::read_field_no_convert::<Self, _, u8, 0, 4, { Self::SIZE_BYTES }>(self)\n}\n"
    );
}

#[test]
fn explicit_getter_has_get_prefix() {
    let out = generate_field_read(&field("MyField", 0, Some(4)), true);
    assert!(out.starts_with("pub fn get_my_field(&self) -> u8 {"));
}

#[test]
fn converted_field_getter_and_setter() {
    let mut f = field("mode", 2, Some(5));
    f.conversion = Some("Mode".to_string());
    f.description = Some("The mode".to_string());
    f.attributes = vec!["#[inline]".to_string()];
    assert_eq!(
        generate_field_read(&f, false),
        "#[doc = \"The mode\"]\n#[inline]\npub fn mode(&self) -> Result<Mode, <Mode as TryFrom<u8>>::Error> {\n    device_driver::read_field::<Self, _, Mode, u8, 2, 5, { Self::SIZE_BYTES }>(self)\n}\n"
    );
    assert_eq!(
        generate_field_write(&f),
        "#[doc = \"The mode\"]\n#[inline]\npub fn mode(&mut self, data: Mode) -> &mut Self {\n    device_driver::write_field::<Self, _, Mode, u8, 2, 5, { Self::SIZE_BYTES }>(self, data)\n}\n"
    );
}

#[test]
fn strict_bool_field_getter() {
    let mut f = field("flag", 7, Some(8));
    f.is_bool = true;
    f.register_type = "bool".to_string();
    f.strict_conversion = Some("State".to_string());
    assert_eq!(
        generate_field_read(&f, false),
        "pub fn flag(&self) -> State {\n    device_driver::read_field_bool_strict::<Self, _, State, 7, { Self::SIZE_BYTES }>(self)\n}\n"
    );
    f.strict_conversion = None;
    assert_eq!(
        generate_field_write(&f),
        "pub fn flag(&mut self, data: bool) -> &mut Self {\n    device_driver::write_field_bool_no_convert::<Self, _, 7, { Self::SIZE_BYTES }>(self, data)\n}\n"
    );
}

#[test]
fn both_conversions_are_an_error() {
    let mut f = field("mode", 0, Some(2));
    f.conversion = Some("A".to_string());
    f.strict_conversion = Some("B".to_string());
    let expected = "::core::compile_error! { \"Cannot have strict and non-strict conversion for field `mode`\" }\n";
    assert_eq!(generate_field_read(&f, false), expected);
    assert_eq!(generate_field_write(&f), expected);
}

#[test]
fn wide_bool_is_an_error() {
    let mut f = field("flag", 1, Some(3));
    f.is_bool = true;
    assert_eq!(
        generate_field_read(&f, true),
        "::core::compile_error! { \"Registers get_flag is a bool and must have no end or an end that is only 1 more than start\" }\n"
    );
}

#[test]
fn missing_end_is_an_error() {
    assert_eq!(
        generate_field_write(&field("value", 1, None)),
        "::core::compile_error! { \"Registers value has no end specified\" }\n"
    );
}

#[test]
fn definition_needs_address_type() {
    assert_eq!(
        generate_register_definition(&register(vec![]), None),
        "::core::compile_error! { \"register_address_type is not specified\" }\n"
    );
}

#[test]
fn definition_has_sizes_reset_and_fields() {
    let mut r = register(vec![field("my_field", 0, Some(4))]);
    r.reset_value = Some(ResetValue::new(vec![1], false));
    r.byte_order = Some(ByteOrder::LE);
    let out = generate_register_definition(&r, Some("u8"));
    assert!(out.starts_with("#[cfg(unix)]\n#[doc = \"A \\\"quoted\\\" register\"]\n#[derive(Copy, Clone, Eq, PartialEq)]\npub struct MyReg {"));
    assert!(out.contains("type AddressType = u8;\n    const ADDRESS: Self::AddressType = 3;"));
    assert!(out.contains("const SIZE_BITS: usize = 12;"));
    assert!(out.contains("pub const SIZE_BYTES: usize = 2;"));
    assert!(out.contains("const LE: bool = true;"));
    assert!(out.contains("BitArray::new([0u8, 1u8])"));
    assert!(out.contains("type WriteFields = my_reg::W;"));
    assert!(out.contains("pub mod my_reg {"));
    assert!(out.contains("pub fn get_my_field(&self) -> u8"));
    assert!(out.contains("fmt.debug_struct(\"MyReg\").field(\"my_field\", &self.my_field())"));
    assert!(out.contains("#[doc = \"Read struct for [MyReg]\"]"));
}

#[test]
fn definition_reports_wrong_reset_length() {
    let mut r = register(vec![]);
    r.reset_value = Some(ResetValue::new(vec![1, 2, 3], true));
    let out = generate_register_definition(&r, Some("u16"));
    assert!(out.contains("::core::compile_error! { \"Reset value of register `MyReg` has the wrong length (3 bytes): Must be 2 bytes\" }"));
    assert!(out.contains("const LE: bool = false;"));
}

#[test]
fn definition_type_errors_name_the_register() {
    let mut f = field("mode", 0, Some(2));
    f.conversion = Some("A".to_string());
    f.strict_conversion = Some("B".to_string());
    let out = generate_register_definition(&register(vec![f]), Some("u8"));
    assert!(out.ends_with("::core::compile_error! { \"Cannot have strict and non-strict conversion for field `MyReg`\" }\n"));
}

#[test]
fn definition_brings_type_definitions_of_converted_fields() {
    let mut f = field("mode", 0, Some(2));
    f.conversion = Some("Mode".to_string());
    f.type_definition = Some("pub enum Mode { A, B }".to_string());
    let mut g = field("raw", 2, Some(4));
    g.type_definition = Some("never shown".to_string());
    let out = generate_register_definition(&register(vec![f, g]), Some("u8"));
    assert!(out.ends_with("}\npub enum Mode { A, B }"));
    assert!(!out.contains("never shown"));
}

#[test]
fn register_function_reaches_the_register() {
    assert_eq!(
        generate_register_function(&register(vec![])),
        "#[doc = \"A \\\"quoted\\\" register\"]\n#[cfg(unix)]\npub fn my_reg(&mut self) -> device_driver::RegisterOperation<'_, Self, MyReg, { MyReg::SIZE_BYTES }> {\n    device_driver::RegisterOperation::new(self)\n}\n"
    );
}

#[test]
fn definitions_follow_the_registers() {
    let mut second = register(vec![]);
    second.name = "other_reg".to_string();
    let both = generate_definitions(&vec![register(vec![]), second], Some("u8"));
    let first = generate_register_definition(&register(vec![]), Some("u8"));
    assert!(both.starts_with(&first));
    assert!(both[first.len()..].contains("pub struct OtherReg {"));
    assert_eq!(
        generate_definitions(&vec![register(vec![])], None),
        "::core::compile_error! { \"register_address_type is not specified\" }\n"
    );
}

#[test]
fn command_and_buffer_functions() {
    let command = CommandDef {
        name: "SleepNow".to_string(),
        description: None,
        attributes: vec![],
        id: 7,
    };
    let buffer = BufferDef {
        name: "Fifo".to_string(),
        description: Some("Data".to_string()),
        attributes: vec!["#[cfg(unix)]".to_string()],
        id: 2,
        rw_type: "device_driver::RO".to_string(),
    };
    assert_eq!(
        generate_command_function(&command),
        "pub fn sleep_now(&mut self) -> device_driver::CommandOperation<'_, Self> {\n    device_driver::CommandOperation::new(self, 7)\n}\n"
    );
    assert_eq!(
        generate_buffer_function(&buffer),
        "#[doc = \"Data\"]\n#[cfg(unix)]\npub fn fifo(&mut self) -> device_driver::BufferOperation<'_, Self, device_driver::RO> {\n    device_driver::BufferOperation::new(self, 2)\n}\n"
    );
    let all = generate_device_functions(&vec![register(vec![])], &vec![command], &vec![buffer]);
    let reg = all.find("pub fn my_reg").unwrap();
    let cmd = all.find("pub fn sleep_now").unwrap();
    let buf = all.find("pub fn fifo").unwrap();
    assert!(reg < cmd && cmd < buf);
}

#[test]
fn device_impl_holds_the_methods() {
    let out = generate_device_impl(
        &vec!["#[allow(dead_code)]".to_string()],
        "<I: Interface>",
        "MyDevice<I>",
        &vec![register(vec![])],
        &vec![],
        &vec![],
    );
    assert!(out.starts_with("#[allow(dead_code)]\nimpl<I: Interface> MyDevice<I> {\n"));
    assert!(out.contains("pub fn my_reg(&mut self)"));
    assert!(out.ends_with("}\n"));
}
