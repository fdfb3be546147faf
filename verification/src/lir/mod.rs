//! The low-level description of a device: the blocks with their methods, the field
//! sets and the enums, as the generated code lays them out.

use std::ops::Range;

use vstd::prelude::*;

use crate::mir::{Access, BitOrder, ByteOrder, Integer};

pub mod block_generation;
pub mod code_transform;
pub mod device_generation;
pub mod enum_generation;
pub mod field_set_generation;
pub mod passes;
pub mod transform;

verus! {

/// A device: its blocks, field sets and enums.
pub struct Device {
    pub internal_address_type: Integer,
    pub register_address_type: Integer,
    pub blocks: Vec<Block>,
    pub field_sets: Vec<FieldSet>,
    pub enums: Vec<Enum>,
    pub defmt_feature: Option<String>,
}

/// A block with the methods that reach its objects.
pub struct Block {
    pub cfg_attr: String,
    pub description: String,
    /// True for the root (top-level) block
    pub root: bool,
    pub name: String,
    pub methods: Vec<BlockMethod>,
}

/// A method of a block that reaches one of its objects.
pub struct BlockMethod {
    pub cfg_attr: String,
    pub description: String,
    pub name: String,
    pub address: i64,
    /// Only used for the checks on the low-level description, not for generating code.
    pub allow_address_overlap: bool,
    pub kind: BlockMethodKind,
    pub method_type: BlockMethodType,
}

/// Whether a method reaches one object or one of a row of repeated objects.
#[derive(Debug, Clone, Copy, PartialEq, Eq, Structural)]
pub enum BlockMethodKind {
    Normal,
    Repeated { count: u64, stride: i64 },
}

/// What a method reaches.
pub enum BlockMethodType {
    Block { name: String },
    Register {
        field_set_name: String,
        access: Access,
        address_type: Integer,
        reset_value_function: String,
    },
    Command {
        field_set_name_in: Option<String>,
        field_set_name_out: Option<String>,
        address_type: Integer,
    },
    Buffer { access: Access, address_type: Integer },
}

/// A set of fields, like a register or command in/out
pub struct FieldSet {
    pub cfg_attr: String,
    pub description: String,
    pub name: String,
    pub byte_order: ByteOrder,
    pub bit_order: BitOrder,
    pub size_bits: u32,
    pub reset_value: Vec<u8>,
    pub ref_reset_overrides: Vec<(String, Vec<u8>)>,
    pub fields: Vec<Field>,
}

/// A field of a field set.
pub struct Field {
    pub cfg_attr: String,
    pub description: String,
    pub name: String,
    pub address: Range<u32>,
    pub base_type: String,
    pub conversion_method: FieldConversionMethod,
    pub access: Access,
}

/// How the value of a field is converted to the type of the field.
pub enum FieldConversionMethod {
    NoConversion,
    Into(String),
    UnsafeInto(String),
    TryInto(String),
    Bool,
}

/// An enum to generate.
pub struct Enum {
    pub cfg_attr: String,
    pub description: String,
    pub name: String,
    pub base_type: String,
    pub variants: Vec<EnumVariant>,
}

/// A variant of an enum to generate, with its number.
pub struct EnumVariant {
    pub cfg_attr: String,
    pub description: String,
    pub name: String,
    pub number: i128,
    pub default: bool,
    pub catch_all: bool,
}

/// What a method reaches, as mathematical values.
pub ghost enum BlockMethodTypeV {
    Block { name: Seq<char> },
    Register {
        field_set_name: Seq<char>,
        access: Access,
        address_type: Integer,
        reset_value_function: Seq<char>,
    },
    Command {
        field_set_name_in: Option<Seq<char>>,
        field_set_name_out: Option<Seq<char>>,
        address_type: Integer,
    },
    Buffer { access: Access, address_type: Integer },
}

/// A method as mathematical values.
pub ghost struct BlockMethodV {
    pub cfg_attr: Seq<char>,
    pub description: Seq<char>,
    pub name: Seq<char>,
    pub address: i64,
    pub allow_address_overlap: bool,
    pub kind: BlockMethodKind,
    pub method_type: BlockMethodTypeV,
}

/// A block as mathematical values.
pub ghost struct BlockV {
    pub cfg_attr: Seq<char>,
    pub description: Seq<char>,
    pub root: bool,
    pub name: Seq<char>,
    pub methods: Seq<BlockMethodV>,
}

/// A conversion method as mathematical values.
pub ghost enum FieldConversionMethodV {
    NoConversion,
    Into(Seq<char>),
    UnsafeInto(Seq<char>),
    TryInto(Seq<char>),
    Bool,
}

/// A field as mathematical values.
pub ghost struct FieldV {
    pub cfg_attr: Seq<char>,
    pub description: Seq<char>,
    pub name: Seq<char>,
    pub address: Range<u32>,
    pub base_type: Seq<char>,
    pub conversion_method: FieldConversionMethodV,
    pub access: Access,
}

/// A field set as mathematical values.
pub ghost struct FieldSetV {
    pub cfg_attr: Seq<char>,
    pub description: Seq<char>,
    pub name: Seq<char>,
    pub byte_order: ByteOrder,
    pub bit_order: BitOrder,
    pub size_bits: u32,
    pub reset_value: Seq<u8>,
    pub ref_reset_overrides: Seq<(Seq<char>, Seq<u8>)>,
    pub fields: Seq<FieldV>,
}

/// An enum variant as mathematical values.
pub ghost struct EnumVariantV {
    pub cfg_attr: Seq<char>,
    pub description: Seq<char>,
    pub name: Seq<char>,
    pub number: i128,
    pub default: bool,
    pub catch_all: bool,
}

/// An enum as mathematical values.
pub ghost struct EnumV {
    pub cfg_attr: Seq<char>,
    pub description: Seq<char>,
    pub name: Seq<char>,
    pub base_type: Seq<char>,
    pub variants: Seq<EnumVariantV>,
}

/// A device as mathematical values.
pub ghost struct DeviceV {
    pub internal_address_type: Integer,
    pub register_address_type: Integer,
    pub blocks: Seq<BlockV>,
    pub field_sets: Seq<FieldSetV>,
    pub enums: Seq<EnumV>,
    pub defmt_feature: Option<Seq<char>>,
}

/// The view of an optional string.
pub open spec fn opt_view(s: Option<String>) -> Option<Seq<char>> {
    match s {
        Some(v) => Some(v@),
        None => None,
    }
}

impl View for BlockMethodType {
    type V = BlockMethodTypeV;

    open spec fn view(&self) -> BlockMethodTypeV {
        match self {
            BlockMethodType::Block { name } => BlockMethodTypeV::Block { name: name@ },
            BlockMethodType::Register {
                field_set_name,
                access,
                address_type,
                reset_value_function,
            } => BlockMethodTypeV::Register {
                field_set_name: field_set_name@,
                access: *access,
                address_type: *address_type,
                reset_value_function: reset_value_function@,
            },
            BlockMethodType::Command { field_set_name_in, field_set_name_out, address_type } =>
                BlockMethodTypeV::Command {
                field_set_name_in: opt_view(*field_set_name_in),
                field_set_name_out: opt_view(*field_set_name_out),
                address_type: *address_type,
            },
            BlockMethodType::Buffer { access, address_type } => BlockMethodTypeV::Buffer {
                access: *access,
                address_type: *address_type,
            },
        }
    }
}

impl View for BlockMethod {
    type V = BlockMethodV;

    open spec fn view(&self) -> BlockMethodV {
        BlockMethodV {
            cfg_attr: self.cfg_attr@,
            description: self.description@,
            name: self.name@,
            address: self.address,
            allow_address_overlap: self.allow_address_overlap,
            kind: self.kind,
            method_type: self.method_type@,
        }
    }
}

impl View for Block {
    type V = BlockV;

    open spec fn view(&self) -> BlockV {
        BlockV {
            cfg_attr: self.cfg_attr@,
            description: self.description@,
            root: self.root,
            name: self.name@,
            methods: self.methods@.map_values(|m: BlockMethod| m@),
        }
    }
}

impl View for FieldConversionMethod {
    type V = FieldConversionMethodV;

    open spec fn view(&self) -> FieldConversionMethodV {
        match self {
            FieldConversionMethod::NoConversion => FieldConversionMethodV::NoConversion,
            FieldConversionMethod::Into(t) => FieldConversionMethodV::Into(t@),
            FieldConversionMethod::UnsafeInto(t) => FieldConversionMethodV::UnsafeInto(t@),
            FieldConversionMethod::TryInto(t) => FieldConversionMethodV::TryInto(t@),
            FieldConversionMethod::Bool => FieldConversionMethodV::Bool,
        }
    }
}

impl View for Field {
    type V = FieldV;

    open spec fn view(&self) -> FieldV {
        FieldV {
            cfg_attr: self.cfg_attr@,
            description: self.description@,
            name: self.name@,
            address: self.address,
            base_type: self.base_type@,
            conversion_method: self.conversion_method@,
            access: self.access,
        }
    }
}

impl View for FieldSet {
    type V = FieldSetV;

    open spec fn view(&self) -> FieldSetV {
        FieldSetV {
            cfg_attr: self.cfg_attr@,
            description: self.description@,
            name: self.name@,
            byte_order: self.byte_order,
            bit_order: self.bit_order,
            size_bits: self.size_bits,
            reset_value: self.reset_value@,
            ref_reset_overrides: self.ref_reset_overrides@.map_values(
                |o: (String, Vec<u8>)| (o.0@, o.1@),
            ),
            fields: self.fields@.map_values(|f: Field| f@),
        }
    }
}

impl View for EnumVariant {
    type V = EnumVariantV;

    open spec fn view(&self) -> EnumVariantV {
        EnumVariantV {
            cfg_attr: self.cfg_attr@,
            description: self.description@,
            name: self.name@,
            number: self.number,
            default: self.default,
            catch_all: self.catch_all,
        }
    }
}

impl View for Enum {
    type V = EnumV;

    open spec fn view(&self) -> EnumV {
        EnumV {
            cfg_attr: self.cfg_attr@,
            description: self.description@,
            name: self.name@,
            base_type: self.base_type@,
            variants: self.variants@.map_values(|v: EnumVariant| v@),
        }
    }
}

impl View for Device {
    type V = DeviceV;

    open spec fn view(&self) -> DeviceV {
        DeviceV {
            internal_address_type: self.internal_address_type,
            register_address_type: self.register_address_type,
            blocks: self.blocks@.map_values(|b: Block| b@),
            field_sets: self.field_sets@.map_values(|f: FieldSet| f@),
            enums: self.enums@.map_values(|e: Enum| e@),
            defmt_feature: opt_view(self.defmt_feature),
        }
    }
}

impl FieldSet {
    /// The number of bytes that hold the bits of the field set.
    pub fn size_bytes(&self) -> (res: u32)
        ensures
            res == (self.size_bits + 7) / 8,
    {
        self.size_bits / 8 + if self.size_bits % 8 == 0 {
            0
        } else {
            1
        }
    }
}

impl FieldConversionMethod {
    /// The type that is converted to, if the conversion names one.
    pub fn conversion_type(&self) -> (res: Option<&String>)
        ensures
            match self {
                FieldConversionMethod::Into(t) => res == Some(t),
                FieldConversionMethod::UnsafeInto(t) => res == Some(t),
                FieldConversionMethod::TryInto(t) => res == Some(t),
                _ => res is None,
            },
    {
        match self {
            FieldConversionMethod::NoConversion => None,
            FieldConversionMethod::Into(type_path) => Some(type_path),
            FieldConversionMethod::UnsafeInto(type_path) => Some(type_path),
            FieldConversionMethod::TryInto(type_path) => Some(type_path),
            FieldConversionMethod::Bool => None,
        }
    }
}

impl Enum {
    /// The first variant that is the default, if there is one.
    pub fn default_variant(&self) -> (res: Option<&EnumVariant>)
        ensures
            match res {
                Some(v) => exists|i: int|
                    0 <= i < self.variants@.len() && self.variants@[i] == *v && v.default
                        && forall|j: int| 0 <= j < i ==> !(#[trigger] self.variants@[j]).default,
                None => forall|j: int|
                    0 <= j < self.variants@.len() ==> !(#[trigger] self.variants@[j]).default,
            },
    {
        let mut i: usize = 0;
        while i < self.variants.len()
            invariant
                i <= self.variants@.len(),
                forall|j: int| 0 <= j < i ==> !(#[trigger] self.variants@[j]).default,
            decreases self.variants@.len() - i,
        {
            if self.variants[i].default {
                return Some(&self.variants[i]);
            }
            i = i + 1;
        }
        None
    }

    /// The first variant that catches all other values, if there is one.
    pub fn catch_all_variant(&self) -> (res: Option<&EnumVariant>)
        ensures
            match res {
                Some(v) => exists|i: int|
                    0 <= i < self.variants@.len() && self.variants@[i] == *v && v.catch_all
                        && forall|j: int| 0 <= j < i ==> !(#[trigger] self.variants@[j]).catch_all,
                None => forall|j: int|
                    0 <= j < self.variants@.len() ==> !(#[trigger] self.variants@[j]).catch_all,
            },
    {
        let mut i: usize = 0;
        while i < self.variants.len()
            invariant
                i <= self.variants@.len(),
                forall|j: int| 0 <= j < i ==> !(#[trigger] self.variants@[j]).catch_all,
            decreases self.variants@.len() - i,
        {
            if self.variants[i].catch_all {
                return Some(&self.variants[i]);
            }
            i = i + 1;
        }
        None
    }
}

} // verus!
