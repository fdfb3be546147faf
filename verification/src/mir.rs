//! The mid-level description of a device: every required piece of data is present
//! and optional data can be filled in with defaults by the passes.

use std::ops::Range;
use vstd::prelude::*;

verus! {

/// A complete device description.
#[derive(Debug, Clone, PartialEq, Eq, Default)]
pub struct Device {
    pub name: Option<String>,
    pub global_config: GlobalConfig,
    pub objects: Vec<Object>,
}

/// The places where a name may be split into words when its case is normalized.
#[derive(Debug, Clone, Copy, PartialEq, Eq, Structural)]
pub enum WordBoundary {
    Hyphen,
    Underscore,
    Space,
    UpperLower,
    LowerUpper,
    DigitUpper,
    UpperDigit,
    DigitLower,
    LowerDigit,
    Acronym,
}

/// The boundaries that are used when nothing else is configured.
pub open spec fn default_word_boundaries() -> Seq<WordBoundary> {
    seq![
        WordBoundary::Underscore,
        WordBoundary::Hyphen,
        WordBoundary::Space,
        WordBoundary::LowerUpper,
        WordBoundary::LowerDigit,
        WordBoundary::UpperDigit,
        WordBoundary::DigitLower,
        WordBoundary::DigitUpper,
        WordBoundary::Acronym,
    ]
}

/// Settings that apply to the device as a whole.
#[derive(Debug, Clone, PartialEq, Eq)]
pub struct GlobalConfig {
    pub default_register_access: Access,
    pub default_field_access: Access,
    pub default_buffer_access: Access,
    pub default_byte_order: Option<ByteOrder>,
    pub default_bit_order: BitOrder,
    pub register_address_type: Option<Integer>,
    pub command_address_type: Option<Integer>,
    pub buffer_address_type: Option<Integer>,
    pub name_word_boundaries: Vec<WordBoundary>,
    pub defmt_feature: Option<String>,
}

/// The boundaries that are used when nothing else is configured.
pub fn default_boundaries() -> (res: Vec<WordBoundary>)
    ensures
        res@ == default_word_boundaries(),
{
    let res = vec![
        WordBoundary::Underscore,
        WordBoundary::Hyphen,
        WordBoundary::Space,
        WordBoundary::LowerUpper,
        WordBoundary::LowerDigit,
        WordBoundary::UpperDigit,
        WordBoundary::DigitLower,
        WordBoundary::DigitUpper,
        WordBoundary::Acronym,
    ];
    assert(res@ =~= default_word_boundaries());
    res
}

impl Default for GlobalConfig {
    fn default() -> (res: Self)
        ensures
            res.default_register_access == Access::RW,
            res.default_field_access == Access::RW,
            res.default_buffer_access == Access::RW,
            res.default_byte_order is None,
            res.default_bit_order == BitOrder::LSB0,
            res.register_address_type is None,
            res.command_address_type is None,
            res.buffer_address_type is None,
            res.name_word_boundaries@ == default_word_boundaries(),
            res.defmt_feature is None,
    {
        let name_word_boundaries = default_boundaries();
        GlobalConfig {
            default_register_access: Access::RW,
            default_field_access: Access::RW,
            default_buffer_access: Access::RW,
            default_byte_order: None,
            default_bit_order: BitOrder::LSB0,
            register_address_type: None,
            command_address_type: None,
            buffer_address_type: None,
            name_word_boundaries,
            defmt_feature: None,
        }
    }
}

/// The fixed size integer types a value can be stored in.
#[derive(Debug, Clone, Copy, PartialEq, Eq, Structural)]
pub enum Integer {
    U8,
    U16,
    U32,
    U64,
    I8,
    I16,
    I32,
    I64,
}

impl Integer {
    /// The smallest value of the type.
    pub open spec fn spec_min_value(self) -> int {
        match self {
            Integer::U8 | Integer::U16 | Integer::U32 | Integer::U64 => 0,
            Integer::I8 => -0x80,
            Integer::I16 => -0x8000,
            Integer::I32 => -0x8000_0000,
            Integer::I64 => -0x8000_0000_0000_0000,
        }
    }

    /// The largest value of the type.
    pub open spec fn spec_max_value(self) -> int {
        match self {
            Integer::U8 => 0xFF,
            Integer::U16 => 0xFFFF,
            Integer::U32 => 0xFFFF_FFFF,
            Integer::U64 => 0xFFFF_FFFF_FFFF_FFFF,
            Integer::I8 => 0x7F,
            Integer::I16 => 0x7FFF,
            Integer::I32 => 0x7FFF_FFFF,
            Integer::I64 => 0x7FFF_FFFF_FFFF_FFFF,
        }
    }

    /// The number of bits of the type.
    pub open spec fn spec_size_bits(self) -> u32 {
        match self {
            Integer::U8 | Integer::I8 => 8,
            Integer::U16 | Integer::I16 => 16,
            Integer::U32 | Integer::I32 => 32,
            Integer::U64 | Integer::I64 => 64,
        }
    }

    /// Whether the type can hold negative values.
    pub open spec fn spec_is_signed(self) -> bool {
        match self {
            Integer::U8 | Integer::U16 | Integer::U32 | Integer::U64 => false,
            _ => true,
        }
    }

    /// The smallest value of the type.
    pub fn min_value(&self) -> (res: i128)
        ensures
            res == self.spec_min_value(),
    {
        match self {
            Integer::U8 => 0,
            Integer::U16 => 0,
            Integer::U32 => 0,
            Integer::U64 => 0,
            Integer::I8 => -0x80,
            Integer::I16 => -0x8000,
            Integer::I32 => -0x8000_0000,
            Integer::I64 => -0x8000_0000_0000_0000,
        }
    }

    /// The largest value of the type.
    pub fn max_value(&self) -> (res: i128)
        ensures
            res == self.spec_max_value(),
    {
        match self {
            Integer::U8 => 0xFF,
            Integer::U16 => 0xFFFF,
            Integer::U32 => 0xFFFF_FFFF,
            Integer::U64 => 0xFFFF_FFFF_FFFF_FFFF,
            Integer::I8 => 0x7F,
            Integer::I16 => 0x7FFF,
            Integer::I32 => 0x7FFF_FFFF,
            Integer::I64 => 0x7FFF_FFFF_FFFF_FFFF,
        }
    }

    /// The number of bits of the type.
    pub fn size_bits(&self) -> (res: u32)
        ensures
            res == self.spec_size_bits(),
    {
        match self {
            Integer::U8 => 8,
            Integer::I8 => 8,
            Integer::U16 => 16,
            Integer::I16 => 16,
            Integer::U32 => 32,
            Integer::I32 => 32,
            Integer::U64 => 64,
            Integer::I64 => 64,
        }
    }

    /// Whether the type can hold negative values.
    pub fn is_signed(&self) -> (res: bool)
        ensures
            res == self.spec_is_signed(),
    {
        match self {
            Integer::U8 => false,
            Integer::U16 => false,
            Integer::U32 => false,
            Integer::U64 => false,
            _ => true,
        }
    }
}

/// The ways an object or field can be accessed.
#[derive(Debug, Clone, Copy, PartialEq, Eq, Default, Structural)]
pub enum Access {
    #[default]
    RW,
    RO,
    WO,
}

impl Access {
    /// Whether values can be read with this access.
    pub open spec fn spec_is_readable(self) -> bool {
        !(self is WO)
    }

    /// Whether values can be read with this access.
    pub fn is_readable(&self) -> (res: bool)
        ensures
            res == self.spec_is_readable(),
    {
        match self {
            Access::RW => true,
            Access::RO => true,
            Access::WO => false,
        }
    }
}

/// The order of the bytes of a multi-byte value.
#[derive(Debug, Clone, Copy, PartialEq, Eq, Structural)]
pub enum ByteOrder {
    LE,
    BE,
}

/// The numbering of the bits within a byte.
#[derive(Debug, Clone, Copy, PartialEq, Eq, Default, Structural)]
pub enum BitOrder {
    #[default]
    LSB0,
    MSB0,
}

/// The case that names are converted to.
#[derive(Debug, Copy, Clone, PartialEq, Eq, Default, Structural)]
pub enum NameCase {
    #[default]
    Varying,
    Pascal,
    Snake,
    ScreamingSnake,
    Camel,
    Kebab,
    Cobol,
}

/// Anything that can stand in a device or block.
#[derive(Debug, PartialEq, Eq)]
pub enum Object {
    Block(Block),
    Register(Register),
    Command(Command),
    Buffer(Buffer),
    Ref(RefObject),
}

/// A group of objects with a common address offset.
#[derive(Debug, PartialEq, Eq, Default)]
pub struct Block {
    pub cfg_attr: Cfg,
    pub description: String,
    pub name: String,
    pub address_offset: i64,
    pub repeat: Option<Repeat>,
    pub objects: Vec<Object>,
}

impl Clone for Object {
    fn clone(&self) -> (res: Self)
        decreases self,
    {
        match self {
            Object::Block(b) => Object::Block(b.clone()),
            Object::Register(r) => Object::Register(r.clone()),
            Object::Command(c) => Object::Command(c.clone()),
            Object::Buffer(b) => Object::Buffer(b.clone()),
            Object::Ref(r) => Object::Ref(r.clone()),
        }
    }
}

impl Clone for Block {
    fn clone(&self) -> (res: Self)
        decreases self,
    {
        let mut objects: Vec<Object> = Vec::new();
        let mut i: usize = 0;
        while i < self.objects.len()
            decreases self.objects.len() - i,
        {
            proof {
                assert(decreases_to!(self => self.objects));
                vstd::std_specs::vec::axiom_vec_index_decreases(self.objects, i as int);
            }
            objects.push(self.objects[i].clone());
            i = i + 1;
        }
        Block {
            cfg_attr: self.cfg_attr.clone(),
            description: self.description.clone(),
            name: self.name.clone(),
            address_offset: self.address_offset,
            repeat: self.repeat,
            objects,
        }
    }
}

/// An object that is present `count` times, `stride` addresses apart.
#[derive(Debug, Copy, Clone, PartialEq, Eq)]
pub struct Repeat {
    pub count: u64,
    pub stride: i64,
}

/// A register and the fields it holds.
#[derive(Debug, Clone, PartialEq, Eq, Default)]
pub struct Register {
    pub cfg_attr: Cfg,
    pub description: String,
    pub name: String,
    pub access: Access,
    pub allow_address_overlap: bool,
    pub address: i64,
    pub reset_value: Option<ResetValue>,
    pub repeat: Option<Repeat>,
    pub field_set: FieldSet,
}

/// A set of fields with the size and the ordering of the bits that hold them,
/// like the data of a register or the input or output of a command.
#[derive(Debug, Clone, PartialEq, Eq, Default)]
pub struct FieldSet {
    pub description: String,
    pub size_bits: u32,
    pub byte_order: Option<ByteOrder>,
    pub bit_order: Option<BitOrder>,
    pub allow_bit_overlap: bool,
    pub fields: Vec<Field>,
}

/// A range of bits within a field set.
#[derive(Debug, PartialEq, Eq, Default)]
pub struct Field {
    pub cfg_attr: Cfg,
    pub description: String,
    pub name: String,
    pub access: Access,
    pub base_type: BaseType,
    pub field_conversion: Option<FieldConversion>,
    pub field_address: Range<u32>,
}

impl Clone for Field {
    fn clone(&self) -> (res: Self)
        ensures
            res.cfg_attr@ == self.cfg_attr@,
            res.description@ == self.description@,
            res.name@ == self.name@,
            res.access == self.access,
            res.base_type == self.base_type,
            res.field_address == self.field_address,
    {
        Field {
            cfg_attr: self.cfg_attr.clone(),
            description: self.description.clone(),
            name: self.name.clone(),
            access: self.access,
            base_type: self.base_type,
            field_conversion: self.field_conversion.clone(),
            field_address: self.field_address.start..self.field_address.end,
        }
    }
}

/// The type a value is read as before any conversion.
#[derive(Debug, Clone, Copy, PartialEq, Eq, Default, Structural)]
pub enum BaseType {
    Unspecified,
    Bool,
    #[default]
    Uint,
    Int,
    FixedSize(Integer),
}

/// The type a field value is converted to.
#[derive(Debug, Clone, PartialEq, Eq)]
pub enum FieldConversion {
    Direct { type_path: String, use_try: bool },
    Enum { enum_value: Enum, use_try: bool },
}

impl FieldConversion {
    /// Whether the conversion may fail.
    pub fn use_try(&self) -> (res: bool)
        ensures
            res == match self {
                FieldConversion::Direct { use_try, .. } => *use_try,
                FieldConversion::Enum { use_try, .. } => *use_try,
            },
    {
        match self {
            FieldConversion::Direct { use_try, .. } => *use_try,
            FieldConversion::Enum { use_try, .. } => *use_try,
        }
    }

    /// The name of the type that is converted to.
    pub open spec fn spec_target_type(&self) -> Seq<char> {
        match self {
            FieldConversion::Direct { type_path, .. } => type_path@,
            FieldConversion::Enum { enum_value, .. } => enum_value.name@,
        }
    }

    /// The name of the type that is converted to.
    pub fn target_type(&self) -> (res: &str)
        ensures
            res@ == self.spec_target_type(),
    {
        match self {
            FieldConversion::Direct { type_path, .. } => type_path.as_str(),
            FieldConversion::Enum { enum_value, .. } => enum_value.name.as_str(),
        }
    }
}

/// An enum that is generated for a field.
#[derive(Debug, Clone, PartialEq, Eq, Default)]
pub struct Enum {
    pub cfg_attr: Cfg,
    pub description: String,
    pub name: String,
    pub variants: Vec<EnumVariant>,
    pub base_type: BaseType,
    pub size_bits: Option<u32>,
    pub generation_style: Option<EnumGenerationStyle>,
}

impl Enum {
    /// A new enum whose size, base type and generation style are yet to be determined.
    pub fn new(description: String, name: String, variants: Vec<EnumVariant>) -> (res: Self)
        ensures
            res.cfg_attr@ is None,
            res.description == description,
            res.name == name,
            res.variants == variants,
            res.base_type == BaseType::Unspecified,
            res.size_bits is None,
            res.generation_style is None,
    {
        Enum {
            cfg_attr: Cfg::new(None),
            description,
            name,
            variants,
            base_type: BaseType::Unspecified,
            size_bits: None,
            generation_style: None,
        }
    }
}

/// How the conversion from an integer to a generated enum is generated.
#[derive(Debug, Clone, Copy, PartialEq, Eq, Structural)]
pub enum EnumGenerationStyle {
    /// Not every value has a variant: the conversion can fail.
    Fallible,
    /// Every value that fits in the size bits has a variant.
    InfallibleWithinRange,
    /// A default or catch-all variant takes all values without a variant of their own.
    Fallback,
}

impl EnumGenerationStyle {
    /// Returns `true` if the enum generation style is [`EnumGenerationStyle::Fallible`].
    pub fn is_fallible(&self) -> (res: bool)
        ensures
            res == (*self is Fallible),
    {
        match self {
            EnumGenerationStyle::Fallible => true,
            _ => false,
        }
    }
}

/// A variant of a generated enum.
#[derive(Debug, Clone, PartialEq, Eq, Default)]
pub struct EnumVariant {
    pub cfg_attr: Cfg,
    pub description: String,
    pub name: String,
    pub value: EnumValue,
}

/// The value of an enum variant.
#[derive(Debug, Clone, Copy, PartialEq, Eq, Default, Structural)]
pub enum EnumValue {
    #[default]
    Unspecified,
    Specified(i128),
    Default,
    CatchAll,
}

impl EnumValue {
    /// Returns `true` if the enum value is [`EnumValue::Default`].
    pub fn is_default(&self) -> (res: bool)
        ensures
            res == (*self is Default),
    {
        match self {
            EnumValue::Default => true,
            _ => false,
        }
    }

    /// Returns `true` if the enum value is [`EnumValue::CatchAll`].
    pub fn is_catch_all(&self) -> (res: bool)
        ensures
            res == (*self is CatchAll),
    {
        match self {
            EnumValue::CatchAll => true,
            _ => false,
        }
    }
}

/// A command, with an optional field set going in and one coming out.
#[derive(Debug, Clone, PartialEq, Eq, Default)]
pub struct Command {
    pub cfg_attr: Cfg,
    pub description: String,
    pub name: String,
    pub allow_address_overlap: bool,
    pub address: i64,
    pub repeat: Option<Repeat>,
    pub field_set_in: Option<FieldSet>,
    pub field_set_out: Option<FieldSet>,
}

/// A buffer of bytes at an address.
#[derive(Debug, Clone, PartialEq, Eq, Default)]
pub struct Buffer {
    pub cfg_attr: Cfg,
    pub description: String,
    pub name: String,
    pub access: Access,
    pub address: i64,
}

/// An object that reuses another object, overriding some of its values.
#[derive(Debug, Clone, PartialEq, Eq, Default)]
pub struct RefObject {
    pub cfg_attr: Cfg,
    pub description: String,
    pub name: String,
    pub object_override: ObjectOverride,
}

/// What a ref object refers to, and what it overrides.
#[derive(Debug, Clone, PartialEq, Eq)]
pub enum ObjectOverride {
    Block(BlockOverride),
    Register(RegisterOverride),
    Command(CommandOverride),
}

impl Default for ObjectOverride {
    fn default() -> (res: Self)
        ensures
            res matches ObjectOverride::Register(r) && r.name@.len() == 0 && r.access is None
                && r.address is None && !r.allow_address_overlap && r.reset_value is None
                && r.repeat is None,
    {
        ObjectOverride::Register(RegisterOverride {
            name: String::new(),
            access: None,
            address: None,
            allow_address_overlap: false,
            reset_value: None,
            repeat: None,
        })
    }
}

impl ObjectOverride {
    /// The name of the object that is referred to.
    pub open spec fn spec_name(&self) -> Seq<char> {
        match self {
            ObjectOverride::Block(v) => v.name@,
            ObjectOverride::Register(v) => v.name@,
            ObjectOverride::Command(v) => v.name@,
        }
    }

    /// The name of the object that is referred to.
    pub fn name(&self) -> (res: &str)
        ensures
            res@ == self.spec_name(),
    {
        match self {
            ObjectOverride::Block(v) => v.name.as_str(),
            ObjectOverride::Register(v) => v.name.as_str(),
            ObjectOverride::Command(v) => v.name.as_str(),
        }
    }

    /// The register override, if this overrides a register.
    pub fn as_register(&self) -> (res: Option<&RegisterOverride>)
        ensures
            match self {
                ObjectOverride::Register(v) => res == Some(v),
                _ => res is None,
            },
    {
        match self {
            ObjectOverride::Register(v) => Some(v),
            _ => None,
        }
    }
}

/// The values a ref to a block overrides.
#[derive(Debug, Clone, PartialEq, Eq, Default)]
pub struct BlockOverride {
    pub name: String,
    pub address_offset: Option<i64>,
    pub repeat: Option<Repeat>,
}

/// The values a ref to a register overrides.
#[derive(Debug, Clone, PartialEq, Eq, Default)]
pub struct RegisterOverride {
    pub name: String,
    pub access: Option<Access>,
    pub address: Option<i64>,
    pub allow_address_overlap: bool,
    pub reset_value: Option<ResetValue>,
    pub repeat: Option<Repeat>,
}

/// The values a ref to a command overrides.
#[derive(Debug, Clone, PartialEq, Eq, Default)]
pub struct CommandOverride {
    pub name: String,
    pub address: Option<i64>,
    pub allow_address_overlap: bool,
    pub repeat: Option<Repeat>,
}

/// The value a register holds after a reset.
#[derive(Debug, PartialEq, Eq)]
pub enum ResetValue {
    Integer(u128),
    Array(Vec<u8>),
}

/// A reset value as a mathematical value.
pub ghost enum ResetValueView {
    Integer(u128),
    Array(Seq<u8>),
}

impl View for ResetValue {
    type V = ResetValueView;

    open spec fn view(&self) -> ResetValueView {
        match self {
            ResetValue::Integer(v) => ResetValueView::Integer(*v),
            ResetValue::Array(v) => ResetValueView::Array(v@),
        }
    }
}

impl Clone for ResetValue {
    fn clone(&self) -> (res: Self)
        ensures
            res@ == self@,
    {
        match self {
            ResetValue::Integer(v) => ResetValue::Integer(*v),
            ResetValue::Array(v) => {
                let c = v.clone();
                assert(c@ =~= v@);
                ResetValue::Array(c)
            },
        }
    }
}

impl ResetValue {
    /// The bytes of the reset value, if it is given as bytes.
    pub fn as_array(&self) -> (res: Option<&Vec<u8>>)
        ensures
            match self {
                ResetValue::Array(v) => res == Some(v),
                ResetValue::Integer(_) => res is None,
            },
    {
        match self {
            ResetValue::Array(v) => Some(v),
            ResetValue::Integer(_) => None,
        }
    }
}

/// An optional condition under which an item is compiled.
#[derive(Debug, Eq, PartialEq, Hash)]
pub struct Cfg {
    value: Option<String>,
}

impl View for Cfg {
    type V = Option<Seq<char>>;

    closed spec fn view(&self) -> Option<Seq<char>> {
        match self.value {
            Some(v) => Some(v@),
            None => None,
        }
    }
}

/// The condition that two conditions combined stand for.
pub open spec fn spec_cfg_combine(a: Option<Seq<char>>, b: Option<Seq<char>>) -> Option<Seq<char>> {
    match (a, b) {
        (None, None) => None,
        (None, Some(v)) => Some(v),
        (Some(v), None) => Some(v),
        (Some(v1), Some(v2)) => if v1 == v2 {
            Some(v1)
        } else {
            Some("all("@ + v1 + ", "@ + v2 + ")"@)
        },
    }
}

impl Default for Cfg {
    /// No condition.
    fn default() -> (res: Self)
        ensures
            res@ == None::<Seq<char>>,
    {
        Cfg { value: None }
    }
}

impl Clone for Cfg {
    fn clone(&self) -> (res: Self)
        ensures
            res@ == self@,
    {
        match &self.value {
            Some(v) => Cfg { value: Some(v.clone()) },
            None => Cfg { value: None },
        }
    }
}

impl Cfg {
    /// A condition with the given value, or no condition.
    pub fn new(value: Option<&str>) -> (res: Self)
        ensures
            res@ == match value {
                Some(v) => Some(v@),
                None => None::<Seq<char>>,
            },
    {
        match value {
            Some(v) => Cfg { value: Some(String::from_str(v)) },
            None => Cfg { value: None },
        }
    }

    /// A condition that holds when both conditions hold.
    #[must_use]
    pub fn combine(&self, other: &Self) -> (res: Self)
        ensures
            res@ == spec_cfg_combine(self@, other@),
    {
        match &self.value {
            None => other.clone(),
            Some(val1) => match &other.value {
                None => self.clone(),
                Some(val2) => {
                    if *val1 == *val2 {
                        self.clone()
                    } else {
                        let mut s = String::from_str("all(");
                        s.append(val1.as_str());
                        s.append(", ");
                        s.append(val2.as_str());
                        s.append(")");
                        let r = Cfg { value: Some(s) };
                        r
                    }
                },
            },
        }
    }

    /// The condition as an attribute of the generated code, or nothing when there is no
    /// condition.
    pub fn to_string(&self) -> (res: String)
        ensures
            res@ == cfg_text(self@),
    {
        match &self.value {
            Some(v) => {
                let mut s = String::from_str("#[cfg(");
                s.append(v.as_str());
                s.append(")]");
                s
            },
            None => String::new(),
        }
    }

    /// The value of the condition, if there is one.
    pub fn inner(&self) -> (res: Option<&str>)
        ensures
            match res {
                Some(v) => self@ == Some(v@),
                None => self@ is None,
            },
    {
        match &self.value {
            Some(v) => Some(v.as_str()),
            None => None,
        }
    }
}

/// How a condition is written as an attribute of the generated code.
pub open spec fn cfg_text(cfg: Option<Seq<char>>) -> Seq<char> {
    match cfg {
        Some(v) => "#[cfg("@ + v + ")]"@,
        None => Seq::empty(),
    }
}

/// The identity of a named item: its name and its condition.
#[derive(Debug, Eq, PartialEq, Hash)]
pub struct UniqueId {
    object_name: String,
    object_cfg: Cfg,
}

/// The identity of a named item as mathematical values.
pub ghost struct UniqueIdView {
    pub name: Seq<char>,
    pub cfg: Option<Seq<char>>,
}

impl View for UniqueId {
    type V = UniqueIdView;

    closed spec fn view(&self) -> UniqueIdView {
        UniqueIdView { name: self.object_name@, cfg: self.object_cfg@ }
    }
}

impl Clone for UniqueId {
    fn clone(&self) -> (res: Self)
        ensures
            res@ == self@,
    {
        UniqueId { object_name: self.object_name.clone(), object_cfg: self.object_cfg.clone() }
    }
}

/// How an identity is written in messages: the name, followed by the condition when
/// there is one.
pub open spec fn spec_unique_id_text(id: UniqueIdView) -> Seq<char> {
    match id.cfg {
        Some(cfg) => id.name + "(cfg=`"@ + cfg + "`)"@,
        None => id.name,
    }
}

impl UniqueId {
    /// The identity of an item with the given name and condition.
    pub fn new(object_name: &String, object_cfg: &Cfg) -> (res: Self)
        ensures
            res@ == (UniqueIdView { name: object_name@, cfg: object_cfg@ }),
    {
        UniqueId { object_name: object_name.clone(), object_cfg: object_cfg.clone() }
    }

    /// The identity as it is written in messages.
    pub fn to_text(&self) -> (res: String)
        ensures
            res@ == spec_unique_id_text(self@),
    {
        match self.object_cfg.inner() {
            Some(cfg) => {
                let mut s = self.object_name.clone();
                s.append("(cfg=`");
                s.append(cfg);
                s.append("`)");
                s
            },
            None => self.object_name.clone(),
        }
    }

    /// Whether two identities are the same.
    pub fn same_as(&self, other: &UniqueId) -> (res: bool)
        ensures
            res == (self@ == other@),
    {
        let names = self.object_name == other.object_name;
        let cfgs = match (self.object_cfg.inner(), other.object_cfg.inner()) {
            (None, None) => true,
            (Some(a), Some(b)) => {
                let a = String::from_str(a);
                let b = String::from_str(b);
                a == b
            },
            _ => false,
        };
        names && cfgs
    }
}

/// Items that have an identity.
pub trait Unique {
    /// The identity of the item.
    spec fn spec_id(&self) -> UniqueIdView;

    /// The identity of the item.
    fn id(&self) -> (res: UniqueId)
        ensures
            res@ == self.spec_id(),
    ;
}

impl Unique for Register {
    open spec fn spec_id(&self) -> UniqueIdView {
        UniqueIdView { name: self.name@, cfg: self.cfg_attr@ }
    }

    fn id(&self) -> (res: UniqueId) {
        let res = UniqueId::new(&self.name, &self.cfg_attr);
        assert(res@.name == self.spec_id().name);
        assert(res@.cfg == self.spec_id().cfg);
        res
    }
}

impl Unique for Command {
    open spec fn spec_id(&self) -> UniqueIdView {
        UniqueIdView { name: self.name@, cfg: self.cfg_attr@ }
    }

    fn id(&self) -> (res: UniqueId) {
        let res = UniqueId::new(&self.name, &self.cfg_attr);
        assert(res@.name == self.spec_id().name);
        assert(res@.cfg == self.spec_id().cfg);
        res
    }
}

impl Unique for Buffer {
    open spec fn spec_id(&self) -> UniqueIdView {
        UniqueIdView { name: self.name@, cfg: self.cfg_attr@ }
    }

    fn id(&self) -> (res: UniqueId) {
        let res = UniqueId::new(&self.name, &self.cfg_attr);
        assert(res@.name == self.spec_id().name);
        assert(res@.cfg == self.spec_id().cfg);
        res
    }
}

impl Unique for RefObject {
    open spec fn spec_id(&self) -> UniqueIdView {
        UniqueIdView { name: self.name@, cfg: self.cfg_attr@ }
    }

    fn id(&self) -> (res: UniqueId) {
        let res = UniqueId::new(&self.name, &self.cfg_attr);
        assert(res@.name == self.spec_id().name);
        assert(res@.cfg == self.spec_id().cfg);
        res
    }
}

impl Unique for Block {
    open spec fn spec_id(&self) -> UniqueIdView {
        UniqueIdView { name: self.name@, cfg: self.cfg_attr@ }
    }

    fn id(&self) -> (res: UniqueId) {
        let res = UniqueId::new(&self.name, &self.cfg_attr);
        assert(res@.name == self.spec_id().name);
        assert(res@.cfg == self.spec_id().cfg);
        res
    }
}

impl Unique for Enum {
    open spec fn spec_id(&self) -> UniqueIdView {
        UniqueIdView { name: self.name@, cfg: self.cfg_attr@ }
    }

    fn id(&self) -> (res: UniqueId) {
        let res = UniqueId::new(&self.name, &self.cfg_attr);
        assert(res@.name == self.spec_id().name);
        assert(res@.cfg == self.spec_id().cfg);
        res
    }
}

impl Unique for EnumVariant {
    open spec fn spec_id(&self) -> UniqueIdView {
        UniqueIdView { name: self.name@, cfg: self.cfg_attr@ }
    }

    fn id(&self) -> (res: UniqueId) {
        let res = UniqueId::new(&self.name, &self.cfg_attr);
        assert(res@.name == self.spec_id().name);
        assert(res@.cfg == self.spec_id().cfg);
        res
    }
}

impl Object {
    /// The name of the object.
    pub open spec fn spec_name(&self) -> Seq<char> {
        match self {
            Object::Block(v) => v.name@,
            Object::Register(v) => v.name@,
            Object::Command(v) => v.name@,
            Object::Buffer(v) => v.name@,
            Object::Ref(v) => v.name@,
        }
    }

    /// The condition of the object.
    pub open spec fn spec_cfg(&self) -> Option<Seq<char>> {
        match self {
            Object::Block(v) => v.cfg_attr@,
            Object::Register(v) => v.cfg_attr@,
            Object::Command(v) => v.cfg_attr@,
            Object::Buffer(v) => v.cfg_attr@,
            Object::Ref(v) => v.cfg_attr@,
        }
    }

    /// The name of the object.
    pub fn name(&self) -> (res: &String)
        ensures
            res@ == self.spec_name(),
    {
        match self {
            Object::Block(v) => &v.name,
            Object::Register(v) => &v.name,
            Object::Command(v) => &v.name,
            Object::Buffer(v) => &v.name,
            Object::Ref(v) => &v.name,
        }
    }

    /// The description of the object.
    pub fn description(&self) -> (res: &String)
        ensures
            res@ == crate::kdl_transform::object_description(*self),
    {
        match self {
            Object::Block(v) => &v.description,
            Object::Register(v) => &v.description,
            Object::Command(v) => &v.description,
            Object::Buffer(v) => &v.description,
            Object::Ref(v) => &v.description,
        }
    }

    /// The address of the object, if it is given: only a ref that doesn't override the
    /// address of its target has none.
    pub fn address(&self) -> (res: Option<i64>)
        ensures
            res == crate::lir::transform::object_address(*self),
    {
        match self {
            Object::Block(block) => Some(block.address_offset),
            Object::Register(register) => Some(register.address),
            Object::Command(command) => Some(command.address),
            Object::Buffer(buffer) => Some(buffer.address),
            Object::Ref(ref_object) => match &ref_object.object_override {
                ObjectOverride::Block(block_override) => block_override.address_offset,
                ObjectOverride::Register(register_override) => register_override.address,
                ObjectOverride::Command(command_override) => command_override.address,
            },
        }
    }

    /// The repeat of the object, if it has one.
    pub fn repeat(&self) -> (res: Option<Repeat>)
        ensures
            res == crate::lir::transform::object_repeat(*self),
    {
        match self {
            Object::Block(block) => block.repeat,
            Object::Register(register) => register.repeat,
            Object::Command(command) => command.repeat,
            Object::Buffer(_) => None,
            Object::Ref(ref_object) => match &ref_object.object_override {
                ObjectOverride::Block(block_override) => block_override.repeat,
                ObjectOverride::Register(register_override) => register_override.repeat,
                ObjectOverride::Command(command_override) => command_override.repeat,
            },
        }
    }
}

impl Unique for Object {
    open spec fn spec_id(&self) -> UniqueIdView {
        UniqueIdView { name: self.spec_name(), cfg: self.spec_cfg() }
    }

    fn id(&self) -> (res: UniqueId) {
        match self {
            Object::Block(v) => v.id(),
            Object::Register(v) => v.id(),
            Object::Command(v) => v.id(),
            Object::Buffer(v) => v.id(),
            Object::Ref(v) => v.id(),
        }
    }
}

/// The two blocks agree on everything but the objects they hold.
pub open spec fn same_block_header(a: Block, b: Block) -> bool {
    &&& a.cfg_attr == b.cfg_attr
    &&& a.description == b.description
    &&& a.name == b.name
    &&& a.address_offset == b.address_offset
    &&& a.repeat == b.repeat
}

/// Every object in the sequence and in the blocks below it satisfies `p`.
pub open spec fn all_objects(objects: Seq<Object>, p: spec_fn(Object) -> bool) -> bool
    decreases objects,
{
    if objects.len() == 0 {
        true
    } else {
        object_and_below(objects[0], p) && all_objects(objects.subrange(1, objects.len() as int), p)
    }
}

/// The object and every object in the blocks below it satisfy `p`.
pub open spec fn object_and_below(object: Object, p: spec_fn(Object) -> bool) -> bool
    decreases object,
{
    &&& p(object)
    &&& match object {
        Object::Block(b) => {
            proof {
                vstd::std_specs::vec::axiom_vec_decreases_to_view(b.objects);
            }
            all_objects(b.objects@, p)
        },
        _ => true,
    }
}

/// The two sequences have the same shape and every pair of objects at the same place,
/// in them and in the blocks below them, is related by `r`.
pub open spec fn related_objects(
    old_objects: Seq<Object>,
    new_objects: Seq<Object>,
    r: spec_fn(Object, Object) -> bool,
) -> bool
    decreases old_objects,
{
    if old_objects.len() == 0 {
        new_objects.len() == 0
    } else {
        &&& new_objects.len() > 0
        &&& related_object(old_objects[0], new_objects[0], r)
        &&& related_objects(
            old_objects.subrange(1, old_objects.len() as int),
            new_objects.subrange(1, new_objects.len() as int),
            r,
        )
    }
}

/// The two objects are related by `r`, and so are the objects in the blocks below them.
pub open spec fn related_object(old_object: Object, new_object: Object, r: spec_fn(Object, Object) -> bool) -> bool
    decreases old_object,
{
    &&& r(old_object, new_object)
    &&& match (old_object, new_object) {
        (Object::Block(ob), Object::Block(nb)) => {
            proof {
                vstd::std_specs::vec::axiom_vec_decreases_to_view(ob.objects);
            }
            related_objects(ob.objects@, nb.objects@, r)
        },
        (Object::Block(_), _) => false,
        (_, Object::Block(_)) => false,
        _ => true,
    }
}

/// [`all_objects`] holds exactly when every object of the sequence satisfies `p`
/// with the objects below it.
pub proof fn lemma_all_objects(objects: Seq<Object>, p: spec_fn(Object) -> bool)
    ensures
        all_objects(objects, p) <==> forall|i: int|
            0 <= i < objects.len() ==> #[trigger] object_and_below(objects[i], p),
    decreases objects.len(),
{
    if objects.len() > 0 {
        let rest = objects.subrange(1, objects.len() as int);
        lemma_all_objects(rest, p);
        assert(all_objects(objects, p) == (object_and_below(objects[0], p) && all_objects(rest, p)));
        if forall|i: int| 0 <= i < objects.len() ==> #[trigger] object_and_below(objects[i], p) {
            assert(object_and_below(objects[0], p));
            assert forall|i: int| 0 <= i < rest.len() implies #[trigger] object_and_below(rest[i], p) by {
                assert(rest[i] == objects[i + 1]);
                assert(object_and_below(objects[i + 1], p));
            }
            assert(all_objects(objects, p));
        }
        if all_objects(objects, p) {
            assert forall|i: int| 0 <= i < objects.len() implies #[trigger] object_and_below(objects[i], p) by {
                if i > 0 {
                    assert(objects[i] == rest[i - 1]);
                    assert(object_and_below(rest[i - 1], p));
                }
            }
        }
    }
}

/// A predicate that holds of every object holds of every object in a tree.
pub proof fn lemma_all_objects_holds(objects: Seq<Object>, p: spec_fn(Object) -> bool)
    requires
        forall|o: Object| #[trigger] p(o),
    ensures
        all_objects(objects, p),
    decreases objects, 0nat,
{
    if objects.len() > 0 {
        lemma_object_and_below_holds(objects[0], p);
        lemma_all_objects_holds(objects.subrange(1, objects.len() as int), p);
    }
}

/// A predicate that holds of every object holds of an object and the objects below it.
pub proof fn lemma_object_and_below_holds(object: Object, p: spec_fn(Object) -> bool)
    requires
        forall|o: Object| #[trigger] p(o),
    ensures
        object_and_below(object, p),
    decreases object, 0nat,
{
    if let Object::Block(b) = object {
        vstd::std_specs::vec::axiom_vec_decreases_to_view(b.objects);
        lemma_all_objects_holds(b.objects@, p);
    }
}

/// [`related_objects`] holds exactly when the sequences are as long and every pair of
/// objects at the same place is related by `r` with the objects below them.
pub proof fn lemma_related_objects(
    old_objects: Seq<Object>,
    new_objects: Seq<Object>,
    r: spec_fn(Object, Object) -> bool,
)
    ensures
        related_objects(old_objects, new_objects, r) <==> (old_objects.len() == new_objects.len()
            && forall|i: int|
            0 <= i < old_objects.len() ==> #[trigger] related_object(old_objects[i], new_objects[i], r)),
    decreases old_objects.len(),
{
    if old_objects.len() > 0 && new_objects.len() > 0 {
        let old_rest = old_objects.subrange(1, old_objects.len() as int);
        let new_rest = new_objects.subrange(1, new_objects.len() as int);
        lemma_related_objects(old_rest, new_rest, r);
        assert(related_objects(old_objects, new_objects, r) == (related_object(
            old_objects[0],
            new_objects[0],
            r,
        ) && related_objects(old_rest, new_rest, r)));
        if old_objects.len() == new_objects.len() && forall|i: int|
            0 <= i < old_objects.len() ==> #[trigger] related_object(old_objects[i], new_objects[i], r) {
            assert(related_object(old_objects[0], new_objects[0], r));
            assert forall|i: int| 0 <= i < old_rest.len() implies #[trigger] related_object(old_rest[i], new_rest[i], r) by {
                assert(old_rest[i] == old_objects[i + 1]);
                assert(new_rest[i] == new_objects[i + 1]);
                assert(related_object(old_objects[i + 1], new_objects[i + 1], r));
            }
        }
        if related_objects(old_objects, new_objects, r) {
            assert forall|i: int| 0 <= i < old_objects.len() implies #[trigger] related_object(old_objects[i], new_objects[i], r) by {
                if i > 0 {
                    assert(old_objects[i] == old_rest[i - 1]);
                    assert(new_objects[i] == new_rest[i - 1]);
                    assert(related_object(old_rest[i - 1], new_rest[i - 1], r));
                }
            }
        }
    }
}


/// The first object with the name, searching each block before the objects after it.
pub open spec fn search(objects: Seq<Object>, name: Seq<char>) -> Option<Object>
    decreases objects,
{
    if objects.len() == 0 {
        None
    } else if objects[0].spec_name() == name {
        Some(objects[0])
    } else {
        let rest = search(objects.subrange(1, objects.len() as int), name);
        match objects[0] {
            Object::Block(b) => {
                proof {
                    vstd::std_specs::vec::axiom_vec_decreases_to_view(b.objects);
                }
                match search(b.objects@, name) {
                    Some(found) => Some(found),
                    None => rest,
                }
            },
            _ => rest,
        }
    }
}

/// Finds the first object with the name, searching each block before the objects
/// after it.
pub fn search_object<'d>(name: &str, objects: &'d Vec<Object>) -> (res: Option<&'d Object>)
    ensures
        match res {
            Some(o) => search(objects@, name@) == Some(*o),
            None => search(objects@, name@) is None,
        },
{
    let name = name.to_owned();
    proof {
        assert(objects@.subrange(0, objects@.len() as int) =~= objects@);
    }
    search_from(&name, objects, 0)
}

fn search_from<'d>(name: &String, objects: &'d Vec<Object>, start: usize) -> (res: Option<&'d Object>)
    requires
        start <= objects@.len(),
    ensures
        match res {
            Some(o) => search(objects@.subrange(start as int, objects@.len() as int), name@)
                == Some(*o),
            None => search(objects@.subrange(start as int, objects@.len() as int), name@) is None,
        },
    decreases *objects, objects@.len() - start,
{
    let ghost s = objects@.subrange(start as int, objects@.len() as int);
    if start == objects.len() {
        return None;
    }
    proof {
        assert(s[0] == objects@[start as int]);
        assert(s.subrange(1, s.len() as int) =~= objects@.subrange(
            start + 1,
            objects@.len() as int,
        ));
        vstd::std_specs::vec::axiom_vec_index_decreases(*objects, start as int);
    }
    let object = &objects[start];
    if *object.name() == *name {
        return Some(object);
    }
    match object {
        Object::Block(b) => {
            proof {
                assert(b.objects@.subrange(0, b.objects@.len() as int) =~= b.objects@);
            }
            match search_from(name, &b.objects, 0) {
                Some(found) => {
                    return Some(found);
                },
                None => {},
            }
        },
        _ => {},
    }
    search_from(name, objects, start + 1)
}


/// Combining a condition with no condition, in either order, or with itself, gives the
/// condition back.
pub proof fn lemma_cfg_combine_identity(a: Option<Seq<char>>)
    ensures
        spec_cfg_combine(a, None) == a,
        spec_cfg_combine(None, a) == a,
        spec_cfg_combine(a, a) == a,
{
}

/// Combining two different conditions, in either order, gives a condition under which
/// both hold, naming the first one first.
pub proof fn lemma_cfg_combine_both(a: Seq<char>, b: Seq<char>)
    requires
        a != b,
    ensures
        spec_cfg_combine(Some(a), Some(b)) == Some("all("@ + a + ", "@ + b + ")"@),
        spec_cfg_combine(Some(b), Some(a)) == Some("all("@ + b + ", "@ + a + ")"@),
{
}


/// What a relation carries from an object to the one related to it holds of every
/// object related to one that has it: if every pair related by `r` whose first object
/// satisfies `p` has a second object that satisfies `q`, then `q` holds below the
/// sequence related to a sequence where `p` holds.
pub proof fn lemma_related_carries(
    a: Seq<Object>,
    b: Seq<Object>,
    r: spec_fn(Object, Object) -> bool,
    p: spec_fn(Object) -> bool,
    q: spec_fn(Object) -> bool,
)
    requires
        related_objects(a, b, r),
        all_objects(a, p),
        forall|x: Object, y: Object| #![trigger r(x, y)] r(x, y) && p(x) ==> q(y),
    ensures
        all_objects(b, q),
    decreases a, 1nat,
{
    if a.len() > 0 {
        lemma_related_object_carries(a[0], b[0], r, p, q);
        lemma_related_carries(
            a.subrange(1, a.len() as int),
            b.subrange(1, b.len() as int),
            r,
            p,
            q,
        );
    }
}

/// [`lemma_related_carries`] for one object and the objects below it.
pub proof fn lemma_related_object_carries(
    x: Object,
    y: Object,
    r: spec_fn(Object, Object) -> bool,
    p: spec_fn(Object) -> bool,
    q: spec_fn(Object) -> bool,
)
    requires
        related_object(x, y, r),
        object_and_below(x, p),
        forall|x: Object, y: Object| #![trigger r(x, y)] r(x, y) && p(x) ==> q(y),
    ensures
        object_and_below(y, q),
    decreases x, 0nat,
{
    assert(r(x, y) && p(x));
    if let (Object::Block(ob), Object::Block(nb)) = (x, y) {
        vstd::std_specs::vec::axiom_vec_decreases_to_view(ob.objects);
        lemma_related_carries(ob.objects@, nb.objects@, r, p, q);
    }
}

/// A predicate that follows from one that holds below the objects holds below them.
pub proof fn lemma_all_objects_weaken(s: Seq<Object>, p: spec_fn(Object) -> bool, q: spec_fn(Object) -> bool)
    requires
        all_objects(s, p),
        forall|o: Object| #[trigger] p(o) ==> q(o),
    ensures
        all_objects(s, q),
    decreases s, 1nat,
{
    if s.len() > 0 {
        lemma_object_weaken(s[0], p, q);
        lemma_all_objects_weaken(s.subrange(1, s.len() as int), p, q);
    }
}

/// [`lemma_all_objects_weaken`] for one object and the objects below it.
pub proof fn lemma_object_weaken(o: Object, p: spec_fn(Object) -> bool, q: spec_fn(Object) -> bool)
    requires
        object_and_below(o, p),
        forall|o: Object| #[trigger] p(o) ==> q(o),
    ensures
        object_and_below(o, q),
    decreases o, 0nat,
{
    if let Object::Block(b) = o {
        vstd::std_specs::vec::axiom_vec_decreases_to_view(b.objects);
        lemma_all_objects_weaken(b.objects@, p, q);
    }
}

} // verus!
