use device_driver::lir::block_generation::{generate_block, generate_method};
use device_driver::lir::device_generation::{generate_field_set_enum, transform};
use device_driver::lir::field_set_generation::{generate_field_set, get_super_token};
use device_driver::lir::code_transform::get_super_prefix;
use device_driver::lir::{
    Block, BlockMethod, BlockMethodKind, BlockMethodType, Device, Field, FieldConversionMethod,
    FieldSet,
};
use device_driver::mir::{Access, BitOrder, ByteOrder, Integer};

/// The code as a string of tokens: doc attributes as doc comments, no white space,
/// no turbofish, and no comma before a closing bracket or a brace.
fn canon(s: &str) -> String {
    let mut out = String::new();
    let mut rest = s;
    while let Some(pos) = rest.find("#[doc = \"") {
        out.push_str(&rest[..pos]);
        let after = &rest[pos + 9..];
        let end = after.find("\"]").unwrap();
        out.push_str("///");
        out.push_str(&after[..end]);
        rest = &after[end + 2..];
    }
    out.push_str(rest);
    let squeezed: String = out.chars().filter(|c| !c.is_whitespace()).collect();
    let squeezed = squeezed.replace("::<", "<");
    let chars: Vec<char> = squeezed.chars().collect();
    let mut res = String::new();
    for (i, c) in chars.iter().enumerate() {
        if *c == ',' && matches!(chars.get(i + 1), Some('}') | Some(')') | Some(']') | Some('>') | Some('{')) {
            continue;
        }
        res.push(*c);
    }
    res
}

#[test]
fn root_block_correct() {
    let output = generate_block(
        &Block {
            cfg_attr: "#[cfg(unix)]".to_string(),
            description: "Hello!".to_string(),
            root: true,
            name: "RootBlock".to_string(),
            methods: vec![BlockMethod {
                cfg_attr: "#[cfg(unix)]".to_string(),
                description: "42 is the answer".to_string(),
                name: "my_register1".to_string(),
                address: 5,
                allow_address_overlap: false,
                kind: BlockMethodKind::Normal,
                method_type: BlockMethodType::Register {
                    field_set_name: "MyRegister".to_string(),
                    access: Access::RW,
                    address_type: Integer::U8,
                    reset_value_function: "new".to_string(),
                },
            }],
        },
        Integer::U8,
        Integer::U8,
    );

    assert_eq!(
        canon(&output),
        canon("                ///Hello!
                #[cfg(unix)]
                #[derive(Debug)]
                pub struct RootBlock<I> {
                    pub(crate) interface: I,
                    #[doc(hidden)]
                    base_address: u8,
                }
                #[cfg(unix)]
                impl<I> RootBlock<I> {
                    /// Create a new instance of the block based on device interface
                    pub const fn new(interface: I) -> Self {
                        Self { interface, base_address: 0 }
                    }
                    /// A reference to the interface used to communicate with the device
                    pub(crate) fn interface(&mut self) -> &mut I {
                        &mut self.interface
                    }
                    /// Read all readable register values in this block from the device.
                    /// The callback is called for each of them.
                    /// Any registers in child blocks are not included.
                    ///
                    /// The callback has three arguments:
                    ///
                    /// - The address of the register
                    /// - The name of the register (with index for repeated registers)
                    /// - The read value from the register
                    ///
                    /// This is useful for e.g. debug printing all values.
                    /// The given [field_sets::FieldSetValue] has a Debug and Format implementation that forwards to the concrete type
                    /// the lies within so it can be printed without matching on it.
                    pub fn read_all_registers(
                        &mut self,
                        mut callback: impl FnMut(u8, &'static str, field_sets::FieldSetValue),
                    ) -> Result<(), I::Error>
                    where
                        I: ::device_driver::RegisterInterface<AddressType = u8>,
                    {
                        #[cfg(unix)]
                        let reg = self.my_register1().read()?;
                        #[cfg(unix)] callback(5 + 0 * 0, \"my_register1\", reg.into());
                        Ok(())
                    }
                    /// Read all readable register values in this block from the device.
                    /// The callback is called for each of them.
                    /// Any registers in child blocks are not included.
                    ///
                    /// The callback has three arguments:
                    ///
                    /// - The address of the register
                    /// - The name of the register (with index for repeated registers)
                    /// - The read value from the register
                    ///
                    /// This is useful for e.g. debug printing all values.
                    /// The given [field_sets::FieldSetValue] has a Debug and Format implementation that forwards to the concrete type
                    /// the lies within so it can be printed without matching on it.
                    pub async fn read_all_registers_async(
                        &mut self,
                        mut callback: impl FnMut(u8, &'static str, field_sets::FieldSetValue),
                    ) -> Result<(), I::Error>
                    where
                        I: ::device_driver::AsyncRegisterInterface<AddressType = u8>,
                    {
                        #[cfg(unix)]
                        let reg = self.my_register1().read_async().await?;
                        #[cfg(unix)] callback(5 + 0 * 0, \"my_register1\", reg.into());
                        Ok(())
                    }
                    ///42 is the answer
                    #[cfg(unix)]
                    pub fn my_register1(
                        &mut self,
                    ) -> ::device_driver::RegisterOperation<
                        '_,
                        I,
                        u8,
                        field_sets::MyRegister,
                        ::device_driver::RW,
                    > {
                        let address = self.base_address + 5;
                        ::device_driver::RegisterOperation::<
                            '_,
                            I,
                            u8,
                            field_sets::MyRegister,
                            ::device_driver::RW,
                        >::new(self.interface(), address as u8, field_sets::MyRegister::new)
                    }
                }
            ")
    )
}

#[test]
fn non_root_block_correct() {
    let output = generate_block(
        &Block {
            cfg_attr: "#[cfg(unix)]".to_string(),
            description: "Hello!".to_string(),
            root: false,
            name: "AnyBlock".to_string(),
            methods: vec![BlockMethod {
                cfg_attr: "#[cfg(unix)]".to_string(),
                description: "42 is the answer".to_string(),
                name: "my_buffer".to_string(),
                address: 5,
                allow_address_overlap: false,
                kind: BlockMethodKind::Repeated { count: 4, stride: 1 },
                method_type: BlockMethodType::Buffer {
                    access: Access::RO,
                    address_type: Integer::I16,
                },
            }],
        },
        Integer::U8,
        Integer::U8,
    );

    assert_eq!(
        canon(&output),
        canon("                ///Hello!
                #[cfg(unix)]
                #[derive(Debug)]
                pub struct AnyBlock<'i, I> {
                    pub(crate) interface: &'i mut I,
                    #[doc(hidden)]
                    base_address: u8,
                }
                #[cfg(unix)]
                impl<'i, I> AnyBlock<'i, I> {
                    /// Create a new instance of the block based on device interface
                    #[doc(hidden)]
                    fn new(interface: &'i mut I, base_address: u8) -> Self {
                        Self {
                            interface,
                            base_address: base_address,
                        }
                    }
                    /// A reference to the interface used to communicate with the device
                    pub(crate) fn interface(&mut self) -> &mut I {
                        self.interface
                    }
                    /// Read all readable register values in this block from the device.
                    /// The callback is called for each of them.
                    /// Any registers in child blocks are not included.
                    ///
                    /// The callback has three arguments:
                    ///
                    /// - The address of the register
                    /// - The name of the register (with index for repeated registers)
                    /// - The read value from the register
                    ///
                    /// This is useful for e.g. debug printing all values.
                    /// The given [field_sets::FieldSetValue] has a Debug and Format implementation that forwards to the concrete type
                    /// the lies within so it can be printed without matching on it.
                    pub fn read_all_registers(
                        &mut self,
                        mut callback: impl FnMut(u8, &'static str, field_sets::FieldSetValue),
                    ) -> Result<(), I::Error>
                    where
                        I: ::device_driver::RegisterInterface<AddressType = u8>,
                    {
                        Ok(())
                    }
                    /// Read all readable register values in this block from the device.
                    /// The callback is called for each of them.
                    /// Any registers in child blocks are not included.
                    ///
                    /// The callback has three arguments:
                    ///
                    /// - The address of the register
                    /// - The name of the register (with index for repeated registers)
                    /// - The read value from the register
                    ///
                    /// This is useful for e.g. debug printing all values.
                    /// The given [field_sets::FieldSetValue] has a Debug and Format implementation that forwards to the concrete type
                    /// the lies within so it can be printed without matching on it.
                    pub async fn read_all_registers_async(
                        &mut self,
                        mut callback: impl FnMut(u8, &'static str, field_sets::FieldSetValue),
                    ) -> Result<(), I::Error>
                    where
                        I: ::device_driver::AsyncRegisterInterface<AddressType = u8>,
                    {
                        Ok(())
                    }
                    ///42 is the answer
                    ///
                    ///Valid index range: 0..4
                    #[cfg(unix)]
                    pub fn my_buffer(
                        &mut self,
                        index: usize,
                    ) -> ::device_driver::BufferOperation<'_, I, i16, ::device_driver::RO> {
                        let address = {
                            assert!(index < 4);
                            self.base_address + 5 + index as u8 * 1
                        };
                        ::device_driver::BufferOperation::<
                            '_,
                            I,
                            i16,
                            ::device_driver::RO,
                        >::new(self.interface(), address as i16)
                    }
                }
            ")
    )
}

fn sample_field_set() -> FieldSet {
    FieldSet {
        cfg_attr: "#[cfg(windows)]".to_string(),
        description: "Hiya!".to_string(),
        name: "MyRegister".to_string(),
        byte_order: ByteOrder::BE,
        bit_order: BitOrder::LSB0,
        size_bits: 20,
        reset_value: vec![1, 2, 3],
        ref_reset_overrides: vec![("MyRef".into(), vec![0, 1, 2])],
        fields: vec![
            Field {
                cfg_attr: "#[cfg(linux)]".to_string(),
                description: "Hiya again!".to_string(),
                name: "my_field".to_string(),
                address: 0..4,
                base_type: "u8".to_string(),
                conversion_method: FieldConversionMethod::UnsafeInto("FieldEnum".to_string()),
                access: Access::RW,
            },
            Field {
                cfg_attr: String::new(),
                description: String::new(),
                name: "my_field2".to_string(),
                address: 4..16,
                base_type: "i16".to_string(),
                conversion_method: FieldConversionMethod::NoConversion,
                access: Access::WO,
            },
        ],
    }
}

#[test]
fn field_set_correct() {
    let output = generate_field_set(&sample_field_set(), Some("defmt-03"));

    assert_eq!(
        canon(&output),
        canon("            ///Hiya!
            #[cfg(windows)]
            #[derive(Copy, Clone, Eq, PartialEq)]
            pub struct MyRegister {
                /// The internal bits
                bits: [u8; 3],
            }
            #[cfg(windows)]
            impl ::device_driver::FieldSet for MyRegister {
                const SIZE_BITS: u32 = 20;
                fn new_with_zero() -> Self {
                    Self::new_zero()
                }
                fn get_inner_buffer(&self) -> &[u8] {
                    &self.bits
                }
                fn get_inner_buffer_mut(&mut self) -> &mut [u8] {
                    &mut self.bits
                }
            }
            #[cfg(windows)]
            impl MyRegister {
                /// Create a new instance, loaded with the reset value (if any)
                pub const fn new() -> Self {
                    Self { bits: [1, 2, 3] }
                }
                /// Create a new instance, loaded with all zeroes
                pub const fn new_zero() -> Self {
                    Self { bits: [0; 3] }
                }
                ///Create a new instance, loaded with the reset value of the `MyRef` ref
                pub const fn new_as_my_ref() -> Self {
                    Self { bits: [0, 1, 2] }
                }
                ///Read the `my_field` field of the register.
                ///
                ///Hiya again!
                #[cfg(linux)]
                pub fn my_field(&self) -> super::FieldEnum {
                    let raw = unsafe {
                        ::device_driver::ops::load_lsb0::<
                            u8,
                            ::device_driver::ops::BE,
                        >(&self.bits, 0, 4)
                    };
                    unsafe { raw.try_into().unwrap_unchecked() }
                }
                ///Write the `my_field` field of the register.
                ///
                ///Hiya again!
                #[cfg(linux)]
                pub fn set_my_field(&mut self, value: super::FieldEnum) {
                    let raw = value.into();
                    unsafe {
                        ::device_driver::ops::store_lsb0::<
                            u8,
                            ::device_driver::ops::BE,
                        >(raw, 0, 4, &mut self.bits)
                    };
                }
                ///Write the `my_field2` field of the register.
                ///
                pub fn set_my_field2(&mut self, value: i16) {
                    let raw = value;
                    unsafe {
                        ::device_driver::ops::store_lsb0::<
                            i16,
                            ::device_driver::ops::BE,
                        >(raw, 4, 16, &mut self.bits)
                    };
                }
            }
            #[cfg(windows)]
            impl From<[u8; 3]> for MyRegister {
                fn from(bits: [u8; 3]) -> Self {
                    Self { bits }
                }
            }
            #[cfg(windows)]
            impl From<MyRegister> for [u8; 3] {
                fn from(val: MyRegister) -> Self {
                    val.bits
                }
            }
            #[cfg(windows)]
            impl core::fmt::Debug for MyRegister {
                fn fmt(&self, f: &mut core::fmt::Formatter<'_>) -> Result<(), core::fmt::Error> {
                    f.debug_struct(\"MyRegister\")
                        .field(\"my_field\", &self.my_field())
                        .field(\"my_field2\", &self.my_field2())
                        .finish()
                }
            }
            #[cfg(windows)]
            #[cfg(feature = \"defmt-03\")]
            impl defmt::Format for MyRegister {
                fn format(&self, f: defmt::Formatter) {
                    defmt::write!(
                        f, \"MyRegister {{ my_field: {}, my_field2: {=i16} }}\", self.my_field(), self
                        .my_field2()
                    )
                }
            }
            #[cfg(windows)]
            impl core::ops::BitAnd for MyRegister {
                type Output = Self;
                fn bitand(mut self, rhs: Self) -> Self::Output {
                    self &= rhs;
                    self
                }
            }
            #[cfg(windows)]
            impl core::ops::BitAndAssign for MyRegister {
                fn bitand_assign(&mut self, rhs: Self) {
                    for (l, r) in self.bits.iter_mut().zip(&rhs.bits) {
                        *l &= *r;
                    }
                }
            }
            #[cfg(windows)]
            impl core::ops::BitOr for MyRegister {
                type Output = Self;
                fn bitor(mut self, rhs: Self) -> Self::Output {
                    self |= rhs;
                    self
                }
            }
            #[cfg(windows)]
            impl core::ops::BitOrAssign for MyRegister {
                fn bitor_assign(&mut self, rhs: Self) {
                    for (l, r) in self.bits.iter_mut().zip(&rhs.bits) {
                        *l |= *r;
                    }
                }
            }
            #[cfg(windows)]
            impl core::ops::BitXor for MyRegister {
                type Output = Self;
                fn bitxor(mut self, rhs: Self) -> Self::Output {
                    self ^= rhs;
                    self
                }
            }
            #[cfg(windows)]
            impl core::ops::BitXorAssign for MyRegister {
                fn bitxor_assign(&mut self, rhs: Self) {
                    for (l, r) in self.bits.iter_mut().zip(&rhs.bits) {
                        *l ^= *r;
                    }
                }
            }
            #[cfg(windows)]
            impl core::ops::Not for MyRegister {
                type Output = Self;
                fn not(mut self) -> Self::Output {
                    for val in self.bits.iter_mut() {
                        *val = !*val;
                    }
                    self
                }
            }
            ")
    )
}

#[test]
fn field_set_without_bits_has_no_code() {
    let mut fs = sample_field_set();
    fs.size_bits = 0;
    assert_eq!(generate_field_set(&fs, None), "");
}

#[test]
fn field_set_without_defmt_feature_has_no_defmt_impl() {
    let output = generate_field_set(&sample_field_set(), None);
    assert!(!output.contains("defmt"));
    assert!(output.contains("bits: [u8; 3]"));
}

#[test]
fn read_only_field_has_no_setter_and_try_into_returns_result() {
    let mut fs = sample_field_set();
    fs.fields = vec![Field {
        cfg_attr: String::new(),
        description: String::new(),
        name: "ro".to_string(),
        address: 0..8,
        base_type: "u8".to_string(),
        conversion_method: FieldConversionMethod::TryInto("crate::Mode".to_string()),
        access: Access::RO,
    }];
    let output = canon(&generate_field_set(&fs, None));
    assert!(output.contains(&canon(
        "pub fn ro(&self) -> Result< crate::Mode, < crate::Mode as TryFrom<u8>>::Error> {"
    )));
    assert!(output.contains("raw.try_into()"));
    assert!(!output.contains("set_ro"));
}

#[test]
fn super_token_agrees_with_super_prefix() {
    let methods = vec![
        FieldConversionMethod::Into("MyEnum".to_string()),
        FieldConversionMethod::TryInto("crate::Foo".to_string()),
        FieldConversionMethod::UnsafeInto("  ::core::primitive::u8".to_string()),
        FieldConversionMethod::Bool,
        FieldConversionMethod::NoConversion,
    ];
    let expected = ["super::", "", "", "", ""];
    for (m, e) in methods.iter().zip(expected) {
        assert_eq!(get_super_token(m), e);
        assert_eq!(get_super_token(m), get_super_prefix(m));
    }
}

#[test]
fn method_with_negative_stride_subtracts() {
    let output = generate_method(
        &BlockMethod {
            cfg_attr: String::new(),
            description: String::new(),
            name: "cmd".to_string(),
            address: 10,
            allow_address_overlap: false,
            kind: BlockMethodKind::Repeated { count: 3, stride: -2 },
            method_type: BlockMethodType::Command {
                field_set_name_in: Some("In".to_string()),
                field_set_name_out: None,
                address_type: Integer::U16,
            },
        },
        Integer::I32,
    );
    let c = canon(&output);
    assert!(c.contains(&canon("self.base_address + 10 - index as i32 * 2")));
    assert!(c.contains(&canon(
        "::device_driver::CommandOperation::<'_, I, u16, field_sets::In, ()>"
    )));
    assert!(c.contains(&canon("Valid index range: 0..3")));
    assert!(c.contains("addressasu16)"));
}

#[test]
fn child_block_method_has_no_conversion() {
    let output = generate_method(
        &BlockMethod {
            cfg_attr: String::new(),
            description: String::new(),
            name: "child".to_string(),
            address: 0,
            allow_address_overlap: false,
            kind: BlockMethodKind::Normal,
            method_type: BlockMethodType::Block { name: "Child".to_string() },
        },
        Integer::U8,
    );
    assert!(canon(&output).contains(&canon("Child::<'_, I>::new(self.interface(), address )")));
}

#[test]
fn repeated_register_is_read_at_every_index() {
    let output = generate_block(
        &Block {
            cfg_attr: String::new(),
            description: String::new(),
            root: true,
            name: "Root".to_string(),
            methods: vec![BlockMethod {
                cfg_attr: String::new(),
                description: String::new(),
                name: "reg".to_string(),
                address: 2,
                allow_address_overlap: false,
                kind: BlockMethodKind::Repeated { count: 2, stride: 4 },
                method_type: BlockMethodType::Register {
                    field_set_name: "Reg".to_string(),
                    access: Access::RO,
                    address_type: Integer::U8,
                    reset_value_function: "new".to_string(),
                },
            }],
        },
        Integer::U8,
        Integer::U16,
    );
    let c = canon(&output);
    assert!(c.contains(&canon("let reg = self.reg(0).read()?; callback(2 + 0 * 4, \"reg[0]\", reg.into());")));
    assert!(c.contains(&canon("let reg = self.reg(1).read_async().await?; callback(2 + 1 * 4, \"reg[1]\", reg.into());")));
    assert!(c.contains(&canon("RegisterInterface<AddressType = u16>")));
}

#[test]
fn field_set_enum_skips_empty_field_sets() {
    let mut empty = sample_field_set();
    empty.name = "Empty".to_string();
    empty.size_bits = 0;
    let output = generate_field_set_enum(&vec![sample_field_set(), empty], Some("defmt-03"));
    let c = canon(&output);
    assert!(c.contains(&canon("#[cfg(windows)] /// Hiya! MyRegister(MyRegister)")));
    assert!(!c.contains("Empty"));
    assert!(c.contains(&canon("#[cfg(feature = \"defmt-03\")] impl defmt::Format for FieldSetValue")));
    assert!(c.contains(&canon("impl From<MyRegister> for FieldSetValue")));
}

#[test]
fn device_code_has_blocks_field_sets_and_enums() {
    let device = Device {
        internal_address_type: Integer::U8,
        register_address_type: Integer::U8,
        blocks: vec![Block {
            cfg_attr: String::new(),
            description: String::new(),
            root: true,
            name: "Dev".to_string(),
            methods: vec![],
        }],
        field_sets: vec![sample_field_set()],
        enums: vec![],
        defmt_feature: None,
    };
    let output = transform(device);
    let c = canon(&output);
    let block = c.find("pubstructDev<I>").unwrap();
    let module = c.find("pubmodfield_sets{usesuper::*;").unwrap();
    let fs = c.find("pubstructMyRegister").unwrap();
    let value = c.find("pubenumFieldSetValue").unwrap();
    assert!(block < module && module < fs && fs < value);
    assert!(!c.contains("defmt"));
}
