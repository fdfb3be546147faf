use device_driver::lir::enum_generation::generate_enum;
use device_driver::lir::{Enum, EnumVariant};

fn variant(name: &str, number: i128, default: bool, catch_all: bool) -> EnumVariant {
    EnumVariant {
        cfg_attr: String::new(),
        description: String::new(),
        name: name.to_string(),
        number,
        default,
        catch_all,
    }
}

fn normalized(s: &str) -> String {
    s.split_whitespace().collect::<Vec<_>>().join(" ").replace(" ,", ",")
}

#[test]
fn enum_correct() {
    let mut first = variant("MyField", 0, false, false);
    first.cfg_attr = "#[cfg(unix)]".to_string();
    first.description = "Field!".to_string();
    let output = generate_enum(
        &Enum {
            cfg_attr: "#[cfg(windows)]".to_string(),
            description: "Docs are important!".to_string(),
            name: "MyEnum".to_string(),
            base_type: "u8".to_string(),
            variants: vec![first, variant("MyField1", 1, true, false), variant("MyField2", 4, false, true)],
        },
        Some("defmt-03"),
    );
    assert_eq!(
        normalized(&output),
        normalized(
            "/// Docs are important!
            #[cfg(windows)]
            #[repr(u8)]
            #[derive(Debug, Copy, Clone, Eq, PartialEq, Hash)]
            #[cfg_attr(feature = \"defmt-03\", derive(defmt::Format))]
            pub enum MyEnum {
                /// Field!
                #[cfg(unix)]
                MyField = 0,
                MyField1 = 1,
                MyField2 (u8) = 4
            }
            #[cfg(windows)]
            impl Default for MyEnum {
                fn default() -> Self {
                    Self::MyField1
                }
            }
            #[cfg(windows)]
            impl From<u8> for MyEnum {
                fn from(val: u8) -> Self {
                    match val {
                        #[cfg(unix)]
                        0 => Self::MyField,
                        1 => Self::MyField1,
                        val => Self::MyField2(val)
                    }
                }
            }
            #[cfg(windows)]
            impl From<MyEnum> for u8 {
                fn from(val: MyEnum) -> Self {
                    match val {
                        #[cfg(unix)]
                        MyEnum::MyField => 0,
                        MyEnum::MyField1 => 1,
                        MyEnum::MyField2(num) => num
                    }
                }
            }"
        )
    );
}

#[test]
fn enum_without_fallback_converts_fallibly() {
    let output = generate_enum(
        &Enum {
            cfg_attr: String::new(),
            description: String::new(),
            name: "E".to_string(),
            base_type: "i16".to_string(),
            variants: vec![variant("A", -1, false, false), variant("B", 2, false, false)],
        },
        None,
    );
    let n = normalized(&output);
    assert!(n.contains("impl core::convert::TryFrom<i16> for E { type Error = ::device_driver::ConversionError<i16>;"), "{n}");
    assert!(n.contains("-1 => Ok(Self::A), 2 => Ok(Self::B), val => Err(::device_driver::ConversionError { source: val, target: \"E\" })"), "{n}");
    assert!(!n.contains("impl Default"), "{n}");
    assert!(!n.contains("defmt"), "{n}");
    assert!(n.contains("E::A => -1, E::B => 2"), "{n}");
}

#[test]
fn default_catch_all_variant_keeps_its_number() {
    let output = generate_enum(
        &Enum {
            cfg_attr: String::new(),
            description: String::new(),
            name: "E".to_string(),
            base_type: "u8".to_string(),
            variants: vec![variant("A", 0, false, false), variant("Rest", 7, true, true)],
        },
        None,
    );
    let n = normalized(&output);
    assert!(n.contains("Self::Rest (7)"), "{n}");
    assert!(n.contains("0 => Self::A, val => Self::Rest(val)"), "{n}");
}
