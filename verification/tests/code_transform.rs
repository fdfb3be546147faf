use device_driver::lir::code_transform::{
    description_to_docstring, get_command_fieldset_name, get_defmt_fmt_string, get_super_prefix,
    is_white_space,
};
use device_driver::lir::{Field, FieldConversionMethod};
use device_driver::mir::Access;

fn field(name: &str, base_type: &str, conversion_method: FieldConversionMethod) -> Field {
    Field {
        cfg_attr: String::new(),
        description: String::new(),
        name: name.to_string(),
        address: 0..8,
        base_type: base_type.to_string(),
        conversion_method,
        access: Access::RW,
    }
}

#[test]
fn docstring_of_lines() {
    assert_eq!(
        description_to_docstring("Hello\n world\r\nlast"),
        "/// Hello\n/// world\n/// last"
    );
}

#[test]
fn docstring_of_empty_text() {
    assert_eq!(description_to_docstring(""), "");
}

#[test]
fn docstring_final_line_break_is_optional() {
    assert_eq!(description_to_docstring("a\n"), "/// a");
    assert_eq!(description_to_docstring("a"), "/// a");
}

#[test]
fn docstring_keeps_empty_lines() {
    assert_eq!(description_to_docstring("a\n\nb"), "/// a\n/// \n/// b");
    assert_eq!(description_to_docstring("\n"), "/// ");
}

#[test]
fn docstring_keeps_lone_carriage_return() {
    assert_eq!(description_to_docstring("x\r"), "/// x\r");
    assert_eq!(description_to_docstring("x\ry\n"), "/// x\ry");
}

#[test]
fn docstring_matches_str_lines() {
    let text = "first\r\n  second\n\nthird\r\n";
    let expected = text
        .lines()
        .map(|line| format!("///{}{line}", if line.starts_with(' ') { "" } else { " " }))
        .collect::<Vec<_>>()
        .join("\n");
    assert_eq!(description_to_docstring(text), expected);
}

#[test]
fn super_prefix_for_relative_paths() {
    assert_eq!(
        get_super_prefix(&FieldConversionMethod::Into("MyType".to_string())),
        "super::"
    );
    assert_eq!(
        get_super_prefix(&FieldConversionMethod::UnsafeInto("module::MyType".to_string())),
        "super::"
    );
    assert_eq!(
        get_super_prefix(&FieldConversionMethod::TryInto("cra".to_string())),
        "super::"
    );
}

#[test]
fn no_super_prefix_for_absolute_paths() {
    assert_eq!(
        get_super_prefix(&FieldConversionMethod::Into("  ::core::primitive::u8".to_string())),
        ""
    );
    assert_eq!(
        get_super_prefix(&FieldConversionMethod::TryInto("crate::Foo".to_string())),
        ""
    );
    assert_eq!(
        get_super_prefix(&FieldConversionMethod::Into("\u{3000}\tcrate_thing".to_string())),
        ""
    );
}

#[test]
fn no_super_prefix_without_type() {
    assert_eq!(get_super_prefix(&FieldConversionMethod::NoConversion), "");
    assert_eq!(get_super_prefix(&FieldConversionMethod::Bool), "");
}

#[test]
fn white_space_matches_std() {
    for c in ['\t', '\n', '\r', ' ', '\u{85}', '\u{a0}', '\u{2000}', '\u{3000}', 'a', '_', '\u{200b}'] {
        assert_eq!(is_white_space(c), c.is_whitespace());
    }
}

#[test]
fn command_fieldset_names() {
    assert_eq!(
        get_command_fieldset_name(&Some("FooFieldsIn".to_string())),
        "field_sets::FooFieldsIn"
    );
    assert_eq!(get_command_fieldset_name(&None), "()");
}

#[test]
fn defmt_fmt_strings() {
    assert_eq!(
        get_defmt_fmt_string(&field("value", "u8", FieldConversionMethod::NoConversion)),
        "value: {=u8}, "
    );
    assert_eq!(
        get_defmt_fmt_string(&field("flag", "u8", FieldConversionMethod::Bool)),
        "flag: {=bool}, "
    );
    assert_eq!(
        get_defmt_fmt_string(&field("mode", "u8", FieldConversionMethod::Into("Mode".to_string()))),
        "mode: {}, "
    );
}
