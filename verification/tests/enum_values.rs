use device_driver::mir::{
    BaseType, Device, Enum, EnumGenerationStyle, EnumValue, EnumVariant, Field, FieldConversion,
    FieldSet, Integer, Object, Register,
};
use device_driver::passes::enum_values::{check_enum, find_smallest_integer, run_pass};

fn variant(name: &str, value: EnumValue) -> EnumVariant {
    EnumVariant {
        name: name.into(),
        value,
        ..Default::default()
    }
}

fn my_enum(
    variants: Vec<EnumVariant>,
    base_type: BaseType,
    size_bits: Option<u32>,
    generation_style: Option<EnumGenerationStyle>,
) -> Enum {
    Enum {
        cfg_attr: Default::default(),
        description: Default::default(),
        name: "MyEnum".into(),
        variants,
        base_type,
        size_bits,
        generation_style,
    }
}

/// A device whose only enum is the one generated for the field of its only register.
fn device_with(e: Enum) -> Device {
    Device {
        name: None,
        global_config: Default::default(),
        objects: vec![Object::Register(Register {
            name: "MyRegister".into(),
            field_set: FieldSet {
                size_bits: 8,
                fields: vec![Field {
                    name: "my_field".into(),
                    field_address: 0..8,
                    field_conversion: Some(FieldConversion::Enum {
                        enum_value: e,
                        use_try: false,
                    }),
                    ..Default::default()
                }],
                ..Default::default()
            },
            ..Default::default()
        })],
    }
}

#[test]
fn enum_values_correct() {
    let mut start_mir = device_with(my_enum(
        vec![
            variant("var0", EnumValue::Specified(1)),
            variant("var1", EnumValue::Unspecified),
            variant("var2", EnumValue::Unspecified),
            variant("var3", EnumValue::Specified(0)),
        ],
        BaseType::Unspecified,
        Some(2),
        None,
    ));

    let end_mir = device_with(my_enum(
        vec![
            variant("var0", EnumValue::Specified(1)),
            variant("var1", EnumValue::Specified(2)),
            variant("var2", EnumValue::Specified(3)),
            variant("var3", EnumValue::Specified(0)),
        ],
        BaseType::FixedSize(Integer::U8),
        Some(2),
        Some(EnumGenerationStyle::InfallibleWithinRange),
    ));

    run_pass(&mut start_mir).unwrap();

    assert_eq!(start_mir, end_mir);
}

#[test]
fn enum_values_infallible_with_fallback() {
    let mut start_mir = device_with(my_enum(
        vec![
            variant("var0", EnumValue::Unspecified),
            variant("var1", EnumValue::Default),
        ],
        BaseType::Unspecified,
        Some(8),
        None,
    ));

    let end_mir = device_with(my_enum(
        vec![
            variant("var0", EnumValue::Specified(0)),
            variant("var1", EnumValue::Default),
        ],
        BaseType::FixedSize(Integer::U8),
        Some(8),
        Some(EnumGenerationStyle::Fallback),
    ));

    run_pass(&mut start_mir).unwrap();

    assert_eq!(start_mir, end_mir);
}

#[test]
fn enum_values_fallible() {
    let mut start_mir = device_with(my_enum(
        vec![variant("var0", EnumValue::Unspecified)],
        BaseType::Unspecified,
        Some(16),
        None,
    ));

    let end_mir = device_with(my_enum(
        vec![variant("var0", EnumValue::Specified(0))],
        BaseType::FixedSize(Integer::U16),
        Some(16),
        Some(EnumGenerationStyle::Fallible),
    ));

    run_pass(&mut start_mir).unwrap();

    assert_eq!(start_mir, end_mir);
}

#[test]
fn enum_values_dont_fit() {
    let mut start_mir = device_with(my_enum(
        vec![
            variant("var0", EnumValue::Unspecified),
            variant("var0", EnumValue::Unspecified),
            variant("var0", EnumValue::Unspecified),
        ],
        BaseType::Unspecified,
        Some(1),
        None,
    ));

    assert_eq!(
        run_pass(&mut start_mir).unwrap_err().message(),
        "The value of variant `var0` is too high for enum `MyEnum`: 2 (max = 1)"
    );
}

#[test]
fn enum_values_no_duplicates() {
    let mut start_mir = device_with(my_enum(
        vec![
            variant("var0", EnumValue::Unspecified),
            variant("var0", EnumValue::Specified(0)),
        ],
        BaseType::Unspecified,
        Some(8),
        None,
    ));

    assert_eq!(
        run_pass(&mut start_mir).unwrap_err().message(),
        "Duplicated assigned value(s) for enum `MyEnum`: [\"var0: 0\"]"
    );
}

#[test]
fn enum_errors_have_their_messages() {
    let mut e = my_enum(vec![], BaseType::Unspecified, Some(8), None);
    assert_eq!(
        check_enum(&mut e).unwrap_err().message(),
        "Enum `MyEnum` has no variants which is not allowed. Add at least one variant"
    );

    let mut e = my_enum(
        vec![variant("a", EnumValue::Unspecified)],
        BaseType::Uint,
        None,
        None,
    );
    assert_eq!(
        check_enum(&mut e).unwrap_err().message(),
        "Enum `MyEnum` has an unknown size-bits. Either specify a fixed integer or bool as the base type or specify the size-bits directly"
    );

    let mut e = my_enum(
        vec![
            variant("a", EnumValue::Default),
            variant("b", EnumValue::Default),
        ],
        BaseType::Unspecified,
        Some(8),
        None,
    );
    assert_eq!(
        check_enum(&mut e).unwrap_err().message(),
        "More than one default defined on enum `MyEnum`"
    );

    let mut e = my_enum(
        vec![
            variant("a", EnumValue::CatchAll),
            variant("b", EnumValue::CatchAll),
        ],
        BaseType::Unspecified,
        Some(8),
        None,
    );
    assert_eq!(
        check_enum(&mut e).unwrap_err().message(),
        "More than one catch all defined on enum `MyEnum`"
    );

    let mut e = my_enum(
        vec![variant("a", EnumValue::Specified(-1))],
        BaseType::Uint,
        Some(8),
        None,
    );
    assert_eq!(
        check_enum(&mut e).unwrap_err().message(),
        "Enum `MyEnum` has a uint base type, but also has a negative variant"
    );

    let mut e = my_enum(
        vec![variant("a", EnumValue::Unspecified)],
        BaseType::Bool,
        Some(1),
        None,
    );
    assert_eq!(
        check_enum(&mut e).unwrap_err().message(),
        "Enum `MyEnum` has a bool base type. Only integers are supported"
    );
}

#[test]
fn smallest_integers() {
    assert_eq!(find_smallest_integer(0, 255, 8), Some(Integer::U8));
    assert_eq!(find_smallest_integer(0, 256, 8), Some(Integer::U16));
    assert_eq!(find_smallest_integer(-1, 127, 8), Some(Integer::I8));
    assert_eq!(find_smallest_integer(-129, 0, 8), Some(Integer::I16));
    assert_eq!(find_smallest_integer(0, 0, 17), Some(Integer::U32));
}
