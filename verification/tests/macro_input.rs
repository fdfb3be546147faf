use device_driver::macro_input::{parse_reset_value, ResetLiteral, ResetType};

fn path(p: &str) -> ResetType {
    ResetType::Path { path: p.to_string() }
}

fn message(t: ResetType, v: ResetLiteral) -> String {
    parse_reset_value(&t, &v).err().unwrap().message()
}

#[test]
fn integer_reset_value_gives_its_bytes() {
    let rv = parse_reset_value(&path("u16"), &ResetLiteral::Int(0x0102)).unwrap().unwrap();
    assert_eq!(rv.get_data(2, "R").unwrap(), vec![1, 2]);
    assert_eq!(rv.get_data(4, "R").unwrap(), vec![0, 0, 1, 2]);
    let rv = parse_reset_value(&path("u32"), &ResetLiteral::Int(5)).unwrap().unwrap();
    assert_eq!(rv.get_data(1, "R").unwrap(), vec![5]);
    let rv = parse_reset_value(&path("u128"), &ResetLiteral::Int(u128::MAX)).unwrap().unwrap();
    assert_eq!(rv.get_data(16, "R").unwrap(), vec![0xFF; 16]);
}

#[test]
fn array_reset_value_is_fixed() {
    let t = ResetType::Array { elem: "u8".to_string(), len: 2 };
    let rv = parse_reset_value(&t, &ResetLiteral::Array(vec![Some(0), Some(2)])).unwrap().unwrap();
    assert_eq!(rv.get_data(2, "R").unwrap(), vec![0, 2]);
    assert!(rv.get_data(3, "R").is_err());
    let s = ResetType::Slice { elem: "u8".to_string() };
    let rv = parse_reset_value(&s, &ResetLiteral::Array(vec![Some(7)])).unwrap().unwrap();
    assert_eq!(rv.get_data(1, "R").unwrap(), vec![7]);
}

#[test]
fn refused_reset_values() {
    let arr = |len| ResetType::Array { elem: "u8".to_string(), len };
    assert_eq!(
        message(arr(3), ResetLiteral::Array(vec![Some(1), Some(2)])),
        "Size of array (2) does not correspond with the array type"
    );
    assert_eq!(
        message(ResetType::Slice { elem: "u16".to_string() }, ResetLiteral::Array(vec![])),
        "Must be a u8 array"
    );
    assert_eq!(message(arr(2), ResetLiteral::Array(vec![None, Some(300)])), "Must be a u8 literal");
    assert_eq!(
        message(arr(2), ResetLiteral::Array(vec![Some(1), Some(300)])),
        "number too large to fit in target type"
    );
    assert_eq!(message(path("u8"), ResetLiteral::Int(256)), "number too large to fit in target type");
    assert_eq!(message(path("i16"), ResetLiteral::Int(1)), "Must be a u8, u16, u32, u64 or u128");
    assert_eq!(
        message(ResetType::Other, ResetLiteral::Int(1)),
        "Unsupported reset value type. Use `[u8; N]`, `[u8]` or an unsigned integer like `u16`"
    );
    assert_eq!(
        message(path("u8"), ResetLiteral::Array(vec![])),
        "Unsupported reset value type. Use `[u8; N]`, `[u8]` or an unsigned integer like `u16`"
    );
}
