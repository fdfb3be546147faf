use device_driver::kdl::{
    parse_description, parse_repeat_entries, parse_reset_value_entries, parse_single_integer_entry,
    parse_single_string_entry, transform, transform_field_set,
};
use device_driver::kdl_tree::{Entry, Node, Value};
use device_driver::mir::{Access, BitOrder, ByteOrder, Integer, Object, Repeat, ResetValue};
use device_driver::reporting::{Diagnostic, Diagnostics, ExpectedList, Severity, Span};

fn span(offset: usize) -> Span {
    Span { offset, len: 1 }
}

fn entry(name: Option<&str>, value: Value, offset: usize) -> Entry {
    Entry { name: name.map(|n| n.to_string()), value, span: span(offset) }
}

fn node(name: &str, entries: Vec<Entry>) -> Node {
    Node {
        name: name.to_string(),
        ty: None,
        name_span: span(0),
        span: Span { offset: 0, len: 10 },
        entries,
        children: None,
        leading: None,
    }
}

#[test]
fn repeat_read() {
    let mut d = Diagnostics::new();
    let n = node(
        "repeat",
        vec![entry(Some("count"), Value::Integer(4), 1), entry(Some("stride"), Value::Integer(-2), 2)],
    );
    assert_eq!(parse_repeat_entries(&n, &mut d), Some(Repeat { count: 4, stride: -2 }));
    assert!(d.reports.is_empty());
}

#[test]
fn repeat_missing_stride_and_negative_count() {
    let mut d = Diagnostics::new();
    let n = node("repeat", vec![entry(Some("count"), Value::Integer(-1), 1), entry(None, Value::Bool(true), 2)]);
    assert_eq!(parse_repeat_entries(&n, &mut d), None);
    assert_eq!(d.reports.len(), 3);
    assert!(matches!(&d.reports[0], Diagnostic::UnexpectedEntries { superfluous_entries, .. } if superfluous_entries == &vec![span(2)]));
    assert_eq!(
        d.reports[1],
        Diagnostic::MissingEntry { node_name: span(0), expected_entries: ExpectedList::Stride }
    );
    assert_eq!(
        d.reports[2],
        Diagnostic::ValueOutOfRange { value: span(1), context: Some("The count is encoded as a u64"), range: "0..2^64" }
    );
}

#[test]
fn repeat_wrong_type() {
    let mut d = Diagnostics::new();
    let n = node(
        "repeat",
        vec![entry(Some("count"), Value::String("x".into()), 1), entry(Some("stride"), Value::Integer(1), 2)],
    );
    assert_eq!(parse_repeat_entries(&n, &mut d), None);
    assert_eq!(d.reports[0], Diagnostic::UnexpectedType { value_name: span(1), expected_type: "integer" });
    assert_eq!(
        d.reports[1],
        Diagnostic::MissingEntry { node_name: span(0), expected_entries: ExpectedList::Count }
    );
}

#[test]
fn reset_value_single_integer() {
    let mut d = Diagnostics::new();
    let n = node("reset-value", vec![entry(None, Value::Integer(0x1234), 1)]);
    assert_eq!(parse_reset_value_entries(&n, &mut d), Some(ResetValue::Integer(0x1234)));
    let n = node("reset-value", vec![entry(None, Value::Integer(-5), 1)]);
    assert_eq!(parse_reset_value_entries(&n, &mut d), None);
    assert_eq!(
        d.reports,
        vec![Diagnostic::ValueOutOfRange {
            value: span(1),
            context: Some("Negative reset values are not allowed"),
            range: "0..",
        }]
    );
}

#[test]
fn reset_value_bytes() {
    let mut d = Diagnostics::new();
    let n = node("reset-value", vec![entry(None, Value::Integer(1), 1), entry(None, Value::Integer(255), 2)]);
    assert_eq!(parse_reset_value_entries(&n, &mut d), Some(ResetValue::Array(vec![1, 255])));
    assert!(d.reports.is_empty());
    let n = node("reset-value", vec![entry(None, Value::Integer(1), 1), entry(None, Value::Integer(256), 2)]);
    assert_eq!(parse_reset_value_entries(&n, &mut d), None);
    assert_eq!(d.reports.len(), 1);
    assert!(matches!(d.reports[0], Diagnostic::ValueOutOfRange { value, range: "0..256", .. } if value == span(2)));
    let mut d = Diagnostics::new();
    let n = node("reset-value", vec![entry(None, Value::Null, 1)]);
    assert_eq!(parse_reset_value_entries(&n, &mut d), None);
    assert_eq!(d.reports, vec![Diagnostic::UnexpectedType { value_name: span(1), expected_type: "integer" }]);
}

#[test]
fn reset_value_empty_is_empty_array() {
    let mut d = Diagnostics::new();
    assert_eq!(parse_reset_value_entries(&node("reset-value", vec![]), &mut d), Some(ResetValue::Array(vec![])));
}

#[test]
fn single_entries() {
    let mut d = Diagnostics::new();
    let n = node("address", vec![entry(None, Value::Integer(7), 1), entry(None, Value::Integer(8), 2)]);
    assert_eq!(parse_single_integer_entry(&n, &mut d), (Some(7), Some(span(1))));
    assert!(matches!(&d.reports[0], Diagnostic::UnexpectedEntries { superfluous_entries, not_anonymous_entries, .. }
        if superfluous_entries == &vec![span(2)] && not_anonymous_entries.is_empty()));

    let mut d = Diagnostics::new();
    let n = node("register", vec![entry(Some("x"), Value::String("Foo".into()), 1)]);
    assert_eq!(parse_single_string_entry(&n, &mut d, None, true), (None, None));
    assert_eq!(d.reports.len(), 2);
    assert_eq!(
        d.reports[1],
        Diagnostic::MissingObjectName { object_keyword: span(0), found_instead: None, object_type: "register".into() }
    );

    let mut d = Diagnostics::new();
    let n = node("cfg", vec![]);
    assert_eq!(parse_single_string_entry(&n, &mut d, Some(ExpectedList::AccessNames), false), (None, None));
    assert_eq!(d.reports, vec![Diagnostic::MissingEntry { node_name: span(0), expected_entries: ExpectedList::AccessNames }]);
}

#[test]
fn field_set_entries() {
    let mut d = Diagnostics::new();
    let n = node(
        "fields",
        vec![
            entry(Some("size-bits"), Value::Integer(16), 1),
            entry(Some("byte-order"), Value::String("BE".into()), 2),
            entry(None, Value::String("allow-bit-overlap".into()), 3),
            entry(Some("bit-order"), Value::String("MSB0".into()), 4),
            entry(Some("size-bits"), Value::Integer(8), 5),
            entry(Some("colour"), Value::Integer(8), 6),
        ],
    );
    let fs = transform_field_set(&n, &mut d).unwrap();
    assert_eq!(fs.size_bits, 16);
    assert_eq!(fs.byte_order, Some(ByteOrder::BE));
    assert_eq!(fs.bit_order, Some(BitOrder::MSB0));
    assert!(fs.allow_bit_overlap);
    assert!(fs.fields.is_empty());
    assert_eq!(d.reports.len(), 2);
    assert_eq!(d.reports[0], Diagnostic::DuplicateEntry { duplicate: span(5), original: span(1) });
    assert!(matches!(&d.reports[1], Diagnostic::UnexpectedEntries { unexpected_name_entries, .. } if unexpected_name_entries == &vec![span(6)]));
}

#[test]
fn field_set_bad_values() {
    let mut d = Diagnostics::new();
    let n = node(
        "fields",
        vec![
            entry(Some("size-bits"), Value::Integer(1 << 40), 1),
            entry(Some("byte-order"), Value::String("XE".into()), 2),
            entry(Some("allow-bit-overlap"), Value::Integer(1), 3),
        ],
    );
    let fs = transform_field_set(&n, &mut d).unwrap();
    assert_eq!(fs.size_bits, 0);
    assert_eq!(fs.byte_order, None);
    assert!(!fs.allow_bit_overlap);
    assert_eq!(
        d.reports,
        vec![
            Diagnostic::ValueOutOfRange { value: span(1), context: Some("size-bits is encoded as a u32"), range: "0..2^32" },
            Diagnostic::UnexpectedValue { value_name: span(2), expected_values: ExpectedList::BitOrderNames },
            Diagnostic::UnexpectedType { value_name: span(3), expected_type: "bool" },
        ]
    );
}

#[test]
fn description_from_comments() {
    let mut n = node("register", vec![]);
    n.leading = Some("/// The id\r\n//////   of the chip  \n// not this\n///\n".to_string());
    assert_eq!(parse_description(&n), "The id\nof the chip\n");
    n.leading = None;
    assert_eq!(parse_description(&n), "");
}

const DEVICE: &str = "device Foo {
    default-register-access RO
    register-address-type u8
    name-word-boundaries \"-\"
    register Id {
        address 3
        reset-value 0x12
        repeat count=2 stride=4
        access WO
        fields size-bits=8 byte-order=LE
    }
}
";

#[test]
fn device_read() {
    let mut d = Diagnostics::new();
    let devices = transform(DEVICE, &mut d).unwrap();
    assert!(d.reports.is_empty(), "{:?}", d.reports);
    assert!(!d.has_error());
    assert_eq!(devices.len(), 1);
    let device = &devices[0];
    assert_eq!(device.name.as_deref(), Some("Foo"));
    assert_eq!(device.global_config.default_register_access, Access::RO);
    assert_eq!(device.global_config.register_address_type, Some(Integer::U8));
    assert_eq!(device.global_config.name_word_boundaries.len(), 1);
    assert_eq!(device.objects.len(), 1);
    match &device.objects[0] {
        Object::Register(r) => {
            assert_eq!(r.name, "Id");
            assert_eq!(r.address, 3);
            assert_eq!(r.access, Access::WO);
            assert_eq!(r.reset_value, Some(ResetValue::Integer(0x12)));
            assert_eq!(r.repeat, Some(Repeat { count: 2, stride: 4 }));
            assert_eq!(r.field_set.size_bits, 8);
            assert_eq!(r.field_set.byte_order, Some(ByteOrder::LE));
        }
        _ => panic!("expected a register"),
    }
}

#[test]
fn register_description_matches_kdl_comments() {
    let source = "device Foo {\n    /// The id\n    register Id {\n        address 3\n        fields size-bits=8\n    }\n}\n";
    let mut d = Diagnostics::new();
    let devices = transform(source, &mut d).unwrap();
    let doc: kdl::KdlDocument = source.parse().unwrap();
    let reg = &doc.nodes()[0].children().unwrap().nodes()[0];
    let expected = reg
        .format()
        .map(|f| {
            f.leading
                .lines()
                .filter(|l| l.starts_with("///"))
                .map(|l| l.trim_start_matches("///").trim())
                .collect::<Vec<_>>()
                .join("\n")
        })
        .unwrap_or_default();
    match &devices[0].objects[0] {
        Object::Register(r) => assert_eq!(r.description, expected),
        _ => panic!("expected a register"),
    }
}

#[test]
fn register_without_address_or_fields() {
    let mut d = Diagnostics::new();
    let devices = transform("device Foo {\n    register Id {\n        access RW\n    }\n}\n", &mut d).unwrap();
    assert!(devices[0].objects.is_empty());
    assert_eq!(d.reports.len(), 2);
    assert!(matches!(d.reports[0], Diagnostic::MissingChildNode { missing_node_type: "address", node_type: Some("register"), .. }));
    assert!(matches!(d.reports[1], Diagnostic::MissingChildNode { missing_node_type: "fields", .. }));
    assert!(d.has_error());
}

#[test]
fn duplicate_settings_and_unknown_nodes() {
    let mut d = Diagnostics::new();
    let source = "device Foo {\n    default-bit-order MSB0\n    default-bit-order LSB0\n    colour red\n}\nthing\n";
    let devices = transform(source, &mut d).unwrap();
    assert_eq!(devices.len(), 1);
    assert_eq!(devices[0].global_config.default_bit_order, BitOrder::MSB0);
    assert_eq!(d.reports.len(), 3);
    assert!(matches!(d.reports[0], Diagnostic::DuplicateNode { .. }));
    assert!(matches!(d.reports[1], Diagnostic::UnexpectedNode { expected_names: ExpectedList::DeviceContent, .. }));
    assert!(matches!(d.reports[2], Diagnostic::UnexpectedNode { expected_names: ExpectedList::Device, .. }));
}

#[test]
fn unknown_setting_value() {
    let mut d = Diagnostics::new();
    let devices = transform("device Foo {\n    buffer-address-type u64\n}\n", &mut d).unwrap();
    assert_eq!(devices[0].global_config.buffer_address_type, None);
    assert!(matches!(d.reports[0], Diagnostic::UnexpectedValue { expected_values: ExpectedList::IntegerNames, .. }));
    assert_eq!(ExpectedList::IntegerNames.names(), vec!["u8", "u16", "u32", "i8", "i16", "i32", "i64"]);
}

#[test]
fn empty_device_is_a_warning() {
    let mut d = Diagnostics::new();
    let devices = transform("device Foo\n", &mut d).unwrap();
    assert_eq!(devices.len(), 1);
    assert!(devices[0].objects.is_empty());
    assert!(matches!(d.reports[0], Diagnostic::EmptyNode { .. }));
    assert_eq!(d.reports[0].severity(), Severity::Warning);
    assert!(!d.has_error());
}

#[test]
fn device_without_name() {
    let mut d = Diagnostics::new();
    let devices = transform("device {\n    register-address-type u8\n}\n", &mut d).unwrap();
    assert!(devices.is_empty());
    assert!(matches!(&d.reports[0], Diagnostic::MissingObjectName { object_type, found_instead: None, .. } if object_type == "device"));
}

#[test]
fn not_kdl() {
    let mut d = Diagnostics::new();
    let devices = transform("device Foo {", &mut d).unwrap();
    assert!(devices.is_empty());
    assert!(!d.reports.is_empty());
    assert!(d.reports.iter().all(|r| matches!(r, Diagnostic::Parse { .. })));
    assert!(d.has_error());
}

#[test]
fn unread_objects_give_none() {
    let mut d = Diagnostics::new();
    assert!(transform("device Foo {\n    block Bar\n}\n", &mut d).is_none());
    assert!(d.reports.is_empty());
}

#[test]
fn messages_are_errors() {
    let mut d = Diagnostics::new();
    d.add_msg("something".to_string());
    assert!(d.has_error());
}

