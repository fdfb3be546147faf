//! Registers written in the device description macro, and the registers of the
//! description model that they give.

use vstd::prelude::*;

use crate::dsl_hir::{cfg_values, doc_lines, get_cfg_attrs, get_description, joined_lines, AttributeList};
use crate::error::{Error, OverrideProblem};
use crate::mir::{
    Access, BaseType, BitOrder, ByteOrder, Cfg, Enum, EnumValue, EnumVariant, Field, FieldConversion,
    FieldSet, GlobalConfig, Register, Repeat, ResetValue, ResetValueView,
};

verus! {

/// The base type of a field as written.
#[derive(Debug, Clone, Copy, PartialEq, Eq, Structural)]
pub enum HirBaseType {
    Bool,
    Uint,
    Int,
}

/// The value of an enum variant as written: an integer literal, `default` or
/// `catch_all`.
#[derive(Debug, Clone, Copy, PartialEq, Eq, Structural)]
pub enum HirEnumValue {
    Specified(u128),
    Default,
    CatchAll,
}

/// A variant of an enum written in a field's conversion.
#[derive(Debug, Clone, PartialEq, Eq)]
pub struct HirEnumVariant {
    pub attribute_list: AttributeList,
    pub identifier: String,
    pub enum_value: Option<HirEnumValue>,
}

/// The conversion of a field as written: a type path, or an enum with its variants.
#[derive(Debug, Clone, PartialEq, Eq)]
pub enum HirFieldConversion {
    Direct(String),
    Enum { identifier: String, variants: Vec<HirEnumVariant> },
}

/// The bits of a field as written: one bit, a range, or an inclusive range; each
/// bound an integer literal.
#[derive(Debug, Clone, Copy, PartialEq, Eq, Structural)]
pub enum HirFieldAddress {
    Integer(u128),
    Range { start: u128, end: u128 },
    RangeInclusive { start: u128, end: u128 },
}

/// A field as written in a register.
#[derive(Debug, Clone, PartialEq, Eq)]
pub struct HirField {
    pub attribute_list: AttributeList,
    pub identifier: String,
    pub access: Option<Access>,
    pub base_type: HirBaseType,
    pub field_conversion: Option<HirFieldConversion>,
    pub field_address: HirFieldAddress,
}

/// A repeat as written: its count and stride literals.
#[derive(Debug, Clone, Copy, PartialEq, Eq, Structural)]
pub struct HirRepeat {
    pub count: u128,
    pub stride: u128,
}

/// A setting of a register as written.
#[derive(Debug, Clone, PartialEq, Eq)]
pub enum RegisterItem {
    Access(Access),
    ByteOrder(ByteOrder),
    BitOrder(BitOrder),
    Address(u128),
    SizeBits(u128),
    ResetValueInt(u128),
    ResetValueArray(Vec<u8>),
    Repeat(HirRepeat),
}

/// A register as written in the device description macro.
#[derive(Debug, Clone, PartialEq, Eq)]
pub struct HirRegister {
    pub attribute_list: AttributeList,
    pub identifier: String,
    pub register_items: Vec<RegisterItem>,
    pub fields: Vec<HirField>,
}

/// What reading a written register or field can fail on, in the order of the checks.
pub ghost enum HirFault {
    /// More than one condition, with their number.
    MultipleCfg(nat),
    /// An integer literal that doesn't fit the type it is read as.
    TooLarge,
    /// A register without an address.
    NoAddress,
    /// A field that isn't a bool and gives only its first bit.
    NoEnd,
    /// A command without a value.
    NoValue,
    /// A command without an address.
    NoCommandAddress,
    /// A buffer without an address.
    NoBufferAddress,
    /// A ref to a buffer.
    RefToBuffer,
    /// A ref to another ref.
    RefToRef,
    /// An override that holds what it may not hold.
    Override(OverrideProblem),
    /// A setting of the device written more than once, with the text of the first one.
    DuplicateConfig(Seq<char>),
    /// An address type that is no integer type.
    NotAnInteger,
}

/// Whether `e` is the error of the fault of the item with the given name.
pub open spec fn fault_error(f: HirFault, name: Seq<char>, e: Error) -> bool {
    match f {
        HirFault::MultipleCfg(n) => e == Error::MultipleCfg { count: n as usize },
        HirFault::TooLarge => e == Error::LiteralTooLarge,
        HirFault::NoAddress => e matches Error::RegisterWithoutAddress { register_name } && register_name@
            == name,
        HirFault::NoEnd => e matches Error::FieldWithoutEnd { field_name } && field_name@ == name,
        HirFault::NoValue => e matches Error::CommandWithoutValue { command_name } && command_name@
            == name,
        HirFault::NoCommandAddress => e matches Error::CommandWithoutAddress { command_name }
            && command_name@ == name,
        HirFault::NoBufferAddress => e matches Error::BufferWithoutAddress { buffer_name } && buffer_name@
            == name,
        HirFault::RefToBuffer => e matches Error::RefToBuffer { ref_name } && ref_name@ == name,
        HirFault::RefToRef => e matches Error::RefToRef { ref_name } && ref_name@ == name,
        HirFault::Override(p) => e == Error::InvalidOverride { problem: p },
        HirFault::DuplicateConfig(t) => e matches Error::DuplicateGlobalConfig { config } && config@ == t,
        HirFault::NotAnInteger => e == Error::NotAnIntegerType,
    }
}

/// The fault of the conditions: more than one is refused.
pub open spec fn cfg_fault(attrs: AttributeList) -> Option<HirFault> {
    let n = cfg_values(attrs.attributes@).len();
    if n > 1 {
        Some(HirFault::MultipleCfg(n))
    } else {
        None
    }
}

/// The condition of an item: its only condition, if it has one.
pub open spec fn cfg_of(attrs: AttributeList) -> Option<Seq<char>> {
    if cfg_values(attrs.attributes@).len() == 1 {
        Some(cfg_values(attrs.attributes@)[0])
    } else {
        None
    }
}

/// The fault of a literal read as a type whose largest value is `max`.
pub open spec fn literal_fault(v: u128, max: int) -> Option<HirFault> {
    if v > max {
        Some(HirFault::TooLarge)
    } else {
        None
    }
}

/// The fault of a written enum variant: its conditions, then its value, read as an
/// `i128`.
pub open spec fn variant_fault(v: HirEnumVariant) -> Option<HirFault> {
    match cfg_fault(v.attribute_list) {
        Some(f) => Some(f),
        None => match v.enum_value {
            Some(HirEnumValue::Specified(n)) => literal_fault(n, i128::MAX as int),
            _ => None,
        },
    }
}

/// The first fault of the variants of an enum.
pub open spec fn variants_fault(vs: Seq<HirEnumVariant>) -> Option<HirFault>
    decreases vs.len(),
{
    if vs.len() == 0 {
        None
    } else {
        match variants_fault(vs.drop_last()) {
            Some(f) => Some(f),
            None => variant_fault(vs.last()),
        }
    }
}

/// The fault of the bits of a field: a bool gives its one bit, other base types need a
/// range; each bound is read as a `u32`, the end of an inclusive range with one added.
pub open spec fn address_fault(f: HirField) -> Option<HirFault> {
    match f.field_address {
        HirFieldAddress::Integer(start) => if f.base_type == HirBaseType::Bool {
            literal_fault(start, u32::MAX as int)
        } else {
            Some(HirFault::NoEnd)
        },
        HirFieldAddress::Range { start, end } => match literal_fault(start, u32::MAX as int) {
            Some(x) => Some(x),
            None => literal_fault(end, u32::MAX as int),
        },
        HirFieldAddress::RangeInclusive { start, end } => match literal_fault(start, u32::MAX as int) {
            Some(x) => Some(x),
            None => literal_fault(end, u32::MAX - 1),
        },
    }
}

/// The first fault of a written field: its conditions, its enum's variants, its bits.
pub open spec fn field_fault(f: HirField) -> Option<HirFault> {
    match cfg_fault(f.attribute_list) {
        Some(x) => Some(x),
        None => match (match f.field_conversion {
            Some(HirFieldConversion::Enum { variants, .. }) => variants_fault(variants@),
            _ => None,
        }) {
            Some(x) => Some(x),
            None => address_fault(f),
        },
    }
}

/// The index of the first written field with a fault, if any.
pub open spec fn first_field_fault(fs: Seq<HirField>) -> Option<int>
    decreases fs.len(),
{
    if fs.len() == 0 {
        None
    } else {
        match first_field_fault(fs.drop_last()) {
            Some(i) => Some(i),
            None => if field_fault(fs.last()) is Some {
                Some(fs.len() - 1)
            } else {
                None
            },
        }
    }
}

/// The first setting of the written settings that `f` picks, if any.
pub open spec fn first_item<I, T>(items: Seq<I>, f: spec_fn(I) -> Option<T>) -> Option<T>
    decreases items.len(),
{
    if items.len() == 0 {
        None
    } else {
        match first_item(items.drop_last(), f) {
            Some(x) => Some(x),
            None => f(items.last()),
        }
    }
}

pub open spec fn pick_access(i: RegisterItem) -> Option<Access> {
    match i {
        RegisterItem::Access(a) => Some(a),
        _ => None,
    }
}

pub open spec fn pick_byte_order(i: RegisterItem) -> Option<ByteOrder> {
    match i {
        RegisterItem::ByteOrder(b) => Some(b),
        _ => None,
    }
}

pub open spec fn pick_bit_order(i: RegisterItem) -> Option<BitOrder> {
    match i {
        RegisterItem::BitOrder(b) => Some(b),
        _ => None,
    }
}

pub open spec fn pick_address(i: RegisterItem) -> Option<u128> {
    match i {
        RegisterItem::Address(a) => Some(a),
        _ => None,
    }
}

pub open spec fn pick_size_bits(i: RegisterItem) -> Option<u128> {
    match i {
        RegisterItem::SizeBits(s) => Some(s),
        _ => None,
    }
}

/// A written reset value, as the value it gives.
pub open spec fn pick_reset(i: RegisterItem) -> Option<ResetValueView> {
    match i {
        RegisterItem::ResetValueInt(v) => Some(ResetValueView::Integer(v)),
        RegisterItem::ResetValueArray(a) => Some(ResetValueView::Array(a@)),
        _ => None,
    }
}

pub open spec fn pick_repeat(i: RegisterItem) -> Option<HirRepeat> {
    match i {
        RegisterItem::Repeat(r) => Some(r),
        _ => None,
    }
}

/// The first fault of a written register: its conditions, its address (the first one,
/// read as an `i64`, which it must have), its size (the first one, read as a `u32`),
/// its repeat (the first one, its count read as a `u64` and its stride as an `i64`),
/// and then the first field with a fault.
pub open spec fn register_fault(r: HirRegister) -> Option<HirFault> {
    let items = r.register_items@;
    match cfg_fault(r.attribute_list) {
        Some(x) => Some(x),
        None => match first_item(items, |i: RegisterItem| pick_address(i)) {
            None => Some(HirFault::NoAddress),
            Some(a) => match literal_fault(a, i64::MAX as int) {
                Some(x) => Some(x),
                None => match (match first_item(items, |i: RegisterItem| pick_size_bits(i)) {
                    Some(s) => literal_fault(s, u32::MAX as int),
                    None => None,
                }) {
                    Some(x) => Some(x),
                    None => match (match first_item(items, |i: RegisterItem| pick_repeat(i)) {
                        Some(rp) => match literal_fault(rp.count, u64::MAX as int) {
                            Some(x) => Some(x),
                            None => literal_fault(rp.stride, i64::MAX as int),
                        },
                        None => None,
                    }) {
                        Some(x) => Some(x),
                        None => match first_field_fault(r.fields@) {
                            Some(k) => field_fault(r.fields@[k]),
                            None => None,
                        },
                    },
                },
            },
        },
    }
}

/// The name of the item whose fault is the register's first: the register, or its
/// first field with a fault.
pub open spec fn register_fault_name(r: HirRegister) -> Seq<char> {
    match first_field_fault(r.fields@) {
        Some(k) => if cfg_fault(r.attribute_list) is None && first_item(
            r.register_items@,
            |i: RegisterItem| pick_address(i),
        ) is Some {
            r.fields@[k].identifier@
        } else {
            r.identifier@
        },
        None => r.identifier@,
    }
}

/// The value of a written enum variant.
pub open spec fn variant_value(v: Option<HirEnumValue>) -> EnumValue {
    match v {
        None => EnumValue::Unspecified,
        Some(HirEnumValue::Specified(n)) => EnumValue::Specified(n as i128),
        Some(HirEnumValue::Default) => EnumValue::Default,
        Some(HirEnumValue::CatchAll) => EnumValue::CatchAll,
    }
}

/// Whether the variant is read from the written one.
pub open spec fn variant_read(h: HirEnumVariant, v: EnumVariant) -> bool {
    &&& v.cfg_attr@ == cfg_of(h.attribute_list)
    &&& v.description@ == joined_lines(doc_lines(h.attribute_list.attributes@))
    &&& v.name@ == h.identifier@
    &&& v.value == variant_value(h.enum_value)
}

/// The path of a type without its white space.
pub open spec fn without_white_space(s: Seq<char>) -> Seq<char>
    decreases s.len(),
{
    if s.len() == 0 {
        Seq::empty()
    } else {
        without_white_space(s.drop_last()) + if crate::lir::code_transform::white_space(s.last()) {
            Seq::empty()
        } else {
            seq![s.last()]
        }
    }
}

/// Whether the conversion is read from the written one.
pub open spec fn conversion_read(h: Option<HirFieldConversion>, c: Option<FieldConversion>) -> bool {
    match h {
        None => c is None,
        Some(HirFieldConversion::Direct(path)) => c matches Some(FieldConversion::Direct { type_path, use_try })
            && type_path@ == without_white_space(path@) && !use_try,
        Some(HirFieldConversion::Enum { identifier, variants }) => c matches Some(
            FieldConversion::Enum { enum_value, use_try },
        ) && !use_try && enum_value.name@ == identifier@ && enum_value.description@ == Seq::<char>::empty()
            && enum_value.cfg_attr@ is None && enum_value.base_type == BaseType::Unspecified
            && enum_value.size_bits is None && enum_value.generation_style is None
            && enum_value.variants@.len() == variants@.len() && forall|k: int|
            0 <= k < variants@.len() ==> variant_read(#[trigger] variants@[k], enum_value.variants@[k]),
    }
}

/// The bits a written field gets, as a start and an end.
pub open spec fn field_bits(a: HirFieldAddress) -> (int, int) {
    match a {
        HirFieldAddress::Integer(start) => (start as int, start as int),
        HirFieldAddress::Range { start, end } => (start as int, end as int),
        HirFieldAddress::RangeInclusive { start, end } => (start as int, end + 1),
    }
}

/// The base type of the model that a written base type stands for.
pub open spec fn base_type_of(b: HirBaseType) -> BaseType {
    match b {
        HirBaseType::Bool => BaseType::Bool,
        HirBaseType::Uint => BaseType::Uint,
        HirBaseType::Int => BaseType::Int,
    }
}

/// Whether the field is read from the written one with the device's settings.
pub open spec fn field_read(h: HirField, gc: GlobalConfig, f: Field) -> bool {
    &&& f.cfg_attr@ == cfg_of(h.attribute_list)
    &&& f.description@ == joined_lines(doc_lines(h.attribute_list.attributes@))
    &&& f.name@ == h.identifier@
    &&& f.access == match h.access {
        Some(a) => a,
        None => gc.default_field_access,
    }
    &&& f.base_type == base_type_of(h.base_type)
    &&& conversion_read(h.field_conversion, f.field_conversion)
    &&& f.field_address.start == field_bits(h.field_address).0
    &&& f.field_address.end == field_bits(h.field_address).1
}

/// Whether the register is read from the written one with the device's settings: the
/// first setting of each kind counts, and what isn't written comes from the device or
/// is left out.
pub open spec fn register_read(h: HirRegister, gc: GlobalConfig, r: Register) -> bool {
    let items = h.register_items@;
    &&& r.cfg_attr@ == cfg_of(h.attribute_list)
    &&& r.description@ == joined_lines(doc_lines(h.attribute_list.attributes@))
    &&& r.name@ == h.identifier@
    &&& r.access == match first_item(items, |i: RegisterItem| pick_access(i)) {
        Some(a) => a,
        None => gc.default_register_access,
    }
    &&& !r.allow_address_overlap
    &&& first_item(items, |i: RegisterItem| pick_address(i)) == Some(r.address as u128)
    &&& match first_item(items, |i: RegisterItem| pick_reset(i)) {
        Some(v) => r.reset_value matches Some(x) && x@ == v,
        None => r.reset_value is None,
    }
    &&& match first_item(items, |i: RegisterItem| pick_repeat(i)) {
        Some(rp) => r.repeat == Some(Repeat { count: rp.count as u64, stride: rp.stride as i64 }),
        None => r.repeat is None,
    }
    &&& r.field_set.description@ == Seq::<char>::empty()
    &&& r.field_set.size_bits == match first_item(items, |i: RegisterItem| pick_size_bits(i)) {
        Some(s) => s as u32,
        None => 0,
    }
    &&& r.field_set.byte_order == match first_item(items, |i: RegisterItem| pick_byte_order(i)) {
        Some(b) => Some(b),
        None => gc.default_byte_order,
    }
    &&& r.field_set.bit_order == Some(
        match first_item(items, |i: RegisterItem| pick_bit_order(i)) {
            Some(b) => b,
            None => gc.default_bit_order,
        },
    )
    &&& !r.field_set.allow_bit_overlap
    &&& r.field_set.fields@.len() == h.fields@.len()
    &&& forall|k: int| 0 <= k < h.fields@.len() ==> field_read(#[trigger] h.fields@[k], gc, r.field_set.fields@[k])
}

/// A setting of a command as written.
#[derive(Debug, Clone, Copy, PartialEq, Eq, Structural)]
pub enum CommandItem {
    ByteOrder(ByteOrder),
    BitOrder(BitOrder),
    Address(u128),
    SizeBitsIn(u128),
    SizeBitsOut(u128),
    Repeat(HirRepeat),
}

/// The value of a command as written: only its address, or its settings with the
/// fields going in and those coming out, where they are written.
#[derive(Debug, Clone, PartialEq, Eq)]
pub enum HirCommandValue {
    Basic(u128),
    Extended { items: Vec<CommandItem>, in_fields: Option<Vec<HirField>>, out_fields: Option<Vec<HirField>> },
}

/// A command as written in the device description macro.
#[derive(Debug, Clone, PartialEq, Eq)]
pub struct HirCommand {
    pub attribute_list: AttributeList,
    pub identifier: String,
    pub value: Option<HirCommandValue>,
}

pub open spec fn cmd_byte_order(i: CommandItem) -> Option<ByteOrder> {
    match i {
        CommandItem::ByteOrder(b) => Some(b),
        _ => None,
    }
}

pub open spec fn cmd_bit_order(i: CommandItem) -> Option<BitOrder> {
    match i {
        CommandItem::BitOrder(b) => Some(b),
        _ => None,
    }
}

pub open spec fn cmd_address(i: CommandItem) -> Option<u128> {
    match i {
        CommandItem::Address(a) => Some(a),
        _ => None,
    }
}

pub open spec fn cmd_size_in(i: CommandItem) -> Option<u128> {
    match i {
        CommandItem::SizeBitsIn(s) => Some(s),
        _ => None,
    }
}

pub open spec fn cmd_size_out(i: CommandItem) -> Option<u128> {
    match i {
        CommandItem::SizeBitsOut(s) => Some(s),
        _ => None,
    }
}

pub open spec fn cmd_repeat(i: CommandItem) -> Option<HirRepeat> {
    match i {
        CommandItem::Repeat(r) => Some(r),
        _ => None,
    }
}

/// The written address of a command: its only value, or its first address setting.
pub open spec fn command_address(v: HirCommandValue) -> Option<u128> {
    match v {
        HirCommandValue::Basic(a) => Some(a),
        HirCommandValue::Extended { items, .. } => first_item(items@, |i: CommandItem| cmd_address(i)),
    }
}

/// The settings of a written command; none with only an address.
pub open spec fn command_items(v: HirCommandValue) -> Seq<CommandItem> {
    match v {
        HirCommandValue::Basic(_) => Seq::empty(),
        HirCommandValue::Extended { items, .. } => items@,
    }
}

/// The fault of an optional size, read as a `u32`.
pub open spec fn opt_size_fault(s: Option<u128>) -> Option<HirFault> {
    match s {
        Some(v) => literal_fault(v, u32::MAX as int),
        None => None,
    }
}

/// The fault of an optional repeat: its count read as a `u64`, its stride as an `i64`.
pub open spec fn opt_repeat_fault(r: Option<HirRepeat>) -> Option<HirFault> {
    match r {
        Some(rp) => match literal_fault(rp.count, u64::MAX as int) {
            Some(x) => Some(x),
            None => literal_fault(rp.stride, i64::MAX as int),
        },
        None => None,
    }
}

/// The first faulty field of optional fields, with its name.
pub open spec fn opt_fields_fault(fs: Option<Vec<HirField>>) -> Option<(HirFault, Seq<char>)> {
    match fs {
        Some(v) => match first_field_fault(v@) {
            Some(k) => Some((field_fault(v@[k])->0, v@[k].identifier@)),
            None => None,
        },
        None => None,
    }
}

/// The first fault of a written command, with the name its error carries: it must have
/// a value; then its conditions; its address, which it must have, read as an `i64`;
/// its sizes going in and coming out (the first of each), read as `u32`; its repeat; the
/// first faulty field going in; the first faulty field coming out.
pub open spec fn command_fault(c: HirCommand) -> Option<(HirFault, Seq<char>)> {
    match c.value {
        None => Some((HirFault::NoValue, c.identifier@)),
        Some(v) => match cfg_fault(c.attribute_list) {
            Some(x) => Some((x, c.identifier@)),
            None => match command_address(v) {
                None => Some((HirFault::NoCommandAddress, c.identifier@)),
                Some(a) => match literal_fault(a, i64::MAX as int) {
                    Some(x) => Some((x, c.identifier@)),
                    None => {
                        let items = command_items(v);
                        match opt_size_fault(first_item(items, |i: CommandItem| cmd_size_in(i))) {
                            Some(x) => Some((x, c.identifier@)),
                            None => match opt_size_fault(first_item(items, |i: CommandItem| cmd_size_out(i))) {
                                Some(x) => Some((x, c.identifier@)),
                                None => match opt_repeat_fault(first_item(items, |i: CommandItem| cmd_repeat(i))) {
                                    Some(x) => Some((x, c.identifier@)),
                                    None => match v {
                                        HirCommandValue::Basic(_) => None,
                                        HirCommandValue::Extended { in_fields, out_fields, .. } => match opt_fields_fault(in_fields) {
                                            Some(x) => Some(x),
                                            None => opt_fields_fault(out_fields),
                                        },
                                    },
                                },
                            },
                        }
                    },
                },
            },
        },
    }
}

/// Whether the field set of one direction of a command is read from its written fields:
/// a field set where fields are written, with the command's size for that direction
/// and its byte and bit order; none where no fields are written.
pub open spec fn command_field_set_read(
    fields: Option<Vec<HirField>>,
    size: Option<u128>,
    items: Seq<CommandItem>,
    gc: GlobalConfig,
    fs: Option<FieldSet>,
) -> bool {
    match fields {
        None => fs is None,
        Some(hf) => fs matches Some(f) && {
            &&& f.description@ == Seq::<char>::empty()
            &&& f.size_bits == match size {
                Some(s) => s as u32,
                None => 0,
            }
            &&& f.byte_order == match first_item(items, |i: CommandItem| cmd_byte_order(i)) {
                Some(b) => Some(b),
                None => gc.default_byte_order,
            }
            &&& f.bit_order == Some(
                match first_item(items, |i: CommandItem| cmd_bit_order(i)) {
                    Some(b) => b,
                    None => gc.default_bit_order,
                },
            )
            &&& !f.allow_bit_overlap
            &&& f.fields@.len() == hf@.len()
            &&& forall|k: int| 0 <= k < hf@.len() ==> field_read(#[trigger] hf@[k], gc, f.fields@[k])
        },
    }
}

/// Whether the command is read from the written one with the device's settings.
pub open spec fn command_read(h: HirCommand, gc: GlobalConfig, c: crate::mir::Command) -> bool {
    h.value matches Some(v) && {
        let items = command_items(v);
        &&& c.cfg_attr@ == cfg_of(h.attribute_list)
        &&& c.description@ == joined_lines(doc_lines(h.attribute_list.attributes@))
        &&& c.name@ == h.identifier@
        &&& !c.allow_address_overlap
        &&& command_address(v) == Some(c.address as u128)
        &&& match first_item(items, |i: CommandItem| cmd_repeat(i)) {
            Some(rp) => c.repeat == Some(Repeat { count: rp.count as u64, stride: rp.stride as i64 }),
            None => c.repeat is None,
        }
        &&& match v {
            HirCommandValue::Basic(_) => c.field_set_in is None && c.field_set_out is None,
            HirCommandValue::Extended { in_fields, out_fields, .. } => {
                &&& command_field_set_read(
                    in_fields,
                    first_item(items, |i: CommandItem| cmd_size_in(i)),
                    items,
                    gc,
                    c.field_set_in,
                )
                &&& command_field_set_read(
                    out_fields,
                    first_item(items, |i: CommandItem| cmd_size_out(i)),
                    items,
                    gc,
                    c.field_set_out,
                )
            },
        }
    }
}

/// The condition of an item: none, or its only one; more than one is refused.
pub(crate) fn get_cfg_attr(attrs: &AttributeList) -> (res: Result<Cfg, Error>)
    ensures
        match cfg_fault(*attrs) {
            Some(f) => res matches Err(e) && fault_error(f, Seq::empty(), e),
            None => res matches Ok(c) && c@ == cfg_of(*attrs),
        },
{
    let cfgs = get_cfg_attrs(attrs);
    proof {
        assert(cfgs@.map_values(|s: String| s@).len() == cfgs@.len());
    }
    if cfgs.len() == 0 {
        Ok(Cfg::new(None))
    } else if cfgs.len() == 1 {
        proof {
            assert(cfgs@.map_values(|s: String| s@)[0] == cfgs@[0]@);
        }
        Ok(Cfg::new(Some(cfgs[0].as_str())))
    } else {
        Err(Error::MultipleCfg { count: cfgs.len() })
    }
}

/// Reads a written enum variant.
fn transform_enum_variant(v: &HirEnumVariant) -> (res: Result<EnumVariant, Error>)
    ensures
        match variant_fault(*v) {
            Some(f) => res matches Err(e) && fault_error(f, Seq::empty(), e),
            None => res matches Ok(x) && variant_read(*v, x),
        },
{
    let cfg_attr = match get_cfg_attr(&v.attribute_list) {
        Ok(c) => c,
        Err(e) => {
            return Err(e);
        },
    };
    let value = match v.enum_value {
        None => EnumValue::Unspecified,
        Some(HirEnumValue::Specified(n)) => {
            if n > i128::MAX as u128 {
                return Err(Error::LiteralTooLarge);
            }
            EnumValue::Specified(n as i128)
        },
        Some(HirEnumValue::Default) => EnumValue::Default,
        Some(HirEnumValue::CatchAll) => EnumValue::CatchAll,
    };
    Ok(EnumVariant { cfg_attr, description: get_description(&v.attribute_list), name: v.identifier.clone(), value })
}

/// Reads the written variants of an enum.
fn transform_variants(vs: &Vec<HirEnumVariant>) -> (res: Result<Vec<EnumVariant>, Error>)
    ensures
        match variants_fault(vs@) {
            Some(f) => res matches Err(e) && fault_error(f, Seq::empty(), e),
            None => res matches Ok(out) && out@.len() == vs@.len() && forall|k: int|
                0 <= k < vs@.len() ==> variant_read(#[trigger] vs@[k], out@[k]),
        },
{
    let mut out: Vec<EnumVariant> = Vec::new();
    let mut i: usize = 0;
    proof {
        assert(vs@.take(0) =~= Seq::<HirEnumVariant>::empty());
    }
    while i < vs.len()
        invariant
            i <= vs@.len(),
            variants_fault(vs@.take(i as int)) is None,
            out@.len() == i,
            forall|k: int| 0 <= k < i ==> variant_read(#[trigger] vs@[k], out@[k]),
        decreases vs@.len() - i,
    {
        let ghost next = vs@.take(i + 1);
        proof {
            assert(next.drop_last() =~= vs@.take(i as int));
            assert(next.last() == vs@[i as int]);
        }
        match transform_enum_variant(&vs[i]) {
            Ok(x) => {
                out.push(x);
            },
            Err(e) => {
                proof {
                    lemma_variants_fault_prefix(vs@, i as int + 1);
                }
                return Err(e);
            },
        }
        i = i + 1;
    }
    proof {
        assert(vs@.take(vs@.len() as int) =~= vs@);
    }
    Ok(out)
}

/// The variants of an enum can only have too many conditions or too large a value.
proof fn lemma_variants_fault_kind(vs: Seq<HirEnumVariant>)
    ensures
        variants_fault(vs) matches Some(f) ==> (f is MultipleCfg || f is TooLarge),
    decreases vs.len(),
{
    if vs.len() > 0 {
        lemma_variants_fault_kind(vs.drop_last());
    }
}

/// A fault in a prefix of the variants is the fault of all of them.
proof fn lemma_variants_fault_prefix(vs: Seq<HirEnumVariant>, n: int)
    requires
        0 <= n <= vs.len(),
        variants_fault(vs.take(n)) is Some,
    ensures
        variants_fault(vs) == variants_fault(vs.take(n)),
    decreases vs.len() - n,
{
    if n < vs.len() {
        assert(vs.take(n + 1).drop_last() =~= vs.take(n));
        lemma_variants_fault_prefix(vs, n + 1);
    } else {
        assert(vs.take(n) =~= vs);
    }
}

/// The path without its white space.
fn strip_white_space(s: &str) -> (res: String)
    ensures
        res@ == without_white_space(s@),
{
    let n = s.unicode_len();
    let mut out = String::from_str("");
    let mut i: usize = 0;
    proof {
        assert(s@.take(0) =~= Seq::<char>::empty());
        reveal_strlit("");
    }
    while i < n
        invariant
            n == s@.len(),
            i <= n,
            out@ == without_white_space(s@.take(i as int)),
        decreases n - i,
    {
        let c = s.get_char(i);
        proof {
            assert(s@.take(i + 1).drop_last() =~= s@.take(i as int));
            assert(s@.take(i + 1).last() == c);
        }
        if !crate::lir::code_transform::is_white_space(c) {
            let piece = s.substring_char(i, i + 1);
            proof {
                assert(piece@ =~= seq![c]);
            }
            out.append(piece);
        } else {
            proof {
                assert(out@ + Seq::<char>::empty() =~= out@);
            }
        }
        i = i + 1;
    }
    proof {
        assert(s@.take(n as int) =~= s@);
    }
    out
}

/// Reads the written conversion of a field.
fn transform_field_conversion(c: &HirFieldConversion) -> (res: Result<FieldConversion, Error>)
    ensures
        match (match *c {
            HirFieldConversion::Enum { variants, .. } => variants_fault(variants@),
            _ => None,
        }) {
            Some(f) => res matches Err(e) && fault_error(f, Seq::empty(), e),
            None => res matches Ok(x) && conversion_read(Some(*c), Some(x)),
        },
{
    match c {
        HirFieldConversion::Direct(path) => {
            Ok(FieldConversion::Direct { type_path: strip_white_space(path.as_str()), use_try: false })
        },
        HirFieldConversion::Enum { identifier, variants } => {
            match transform_variants(variants) {
                Ok(vs) => Ok(
                    FieldConversion::Enum {
                        enum_value: Enum::new(String::new(), identifier.clone(), vs),
                        use_try: false,
                    },
                ),
                Err(e) => Err(e),
            }
        },
    }
}

/// Reads a literal as a `u32`.
fn literal_u32(v: u128) -> (res: Result<u32, Error>)
    ensures
        match literal_fault(v, u32::MAX as int) {
            Some(f) => res matches Err(e) && fault_error(f, Seq::empty(), e),
            None => res == Ok::<u32, Error>(v as u32),
        },
{
    if v > u32::MAX as u128 {
        Err(Error::LiteralTooLarge)
    } else {
        Ok(v as u32)
    }
}

/// Reads a written field with the device's settings.
fn transform_field(f: &HirField, gc: &GlobalConfig) -> (res: Result<Field, Error>)
    ensures
        match field_fault(*f) {
            Some(x) => res matches Err(e) && fault_error(x, f.identifier@, e),
            None => res matches Ok(y) && field_read(*f, *gc, y),
        },
{
    let cfg_attr = match get_cfg_attr(&f.attribute_list) {
        Ok(c) => c,
        Err(e) => {
            proof {
                assert(cfg_fault(f.attribute_list) is Some);
                assert(field_fault(*f) == cfg_fault(f.attribute_list));
            }
            return Err(e);
        },
    };
    let field_conversion = match &f.field_conversion {
        None => None,
        Some(c) => match transform_field_conversion(c) {
            Ok(x) => Some(x),
            Err(e) => {
                proof {
                    assert(f.field_conversion == Some(*c));
                    assert(cfg_fault(f.attribute_list) is None);
                    if c is Enum {
                        assert(variants_fault(c->variants@) is Some);
                        lemma_variants_fault_kind(c->variants@);
                    }
                }
                return Err(e);
            },
        },
    };
    let (start, end) = match f.field_address {
        HirFieldAddress::Integer(start) => {
            if f.base_type != HirBaseType::Bool {
                return Err(Error::FieldWithoutEnd { field_name: f.identifier.clone() });
            }
            let s = match literal_u32(start) {
                Ok(s) => s,
                Err(e) => return Err(e),
            };
            (s, s)
        },
        HirFieldAddress::Range { start, end } => {
            let s = match literal_u32(start) {
                Ok(s) => s,
                Err(e) => return Err(e),
            };
            let e = match literal_u32(end) {
                Ok(e) => e,
                Err(e) => return Err(e),
            };
            (s, e)
        },
        HirFieldAddress::RangeInclusive { start, end } => {
            let s = match literal_u32(start) {
                Ok(s) => s,
                Err(e) => return Err(e),
            };
            if end > (u32::MAX - 1) as u128 {
                return Err(Error::LiteralTooLarge);
            }
            (s, (end as u32) + 1)
        },
    };
    let access = match f.access {
        Some(a) => a,
        None => gc.default_field_access,
    };
    let base_type = match f.base_type {
        HirBaseType::Bool => BaseType::Bool,
        HirBaseType::Uint => BaseType::Uint,
        HirBaseType::Int => BaseType::Int,
    };
    Ok(
        Field {
            cfg_attr,
            description: get_description(&f.attribute_list),
            name: f.identifier.clone(),
            access,
            base_type,
            field_conversion,
            field_address: start..end,
        },
    )
}

/// The first written settings of each kind.
pub(crate) struct Settings {
    pub(crate) access: Option<Access>,
    pub(crate) byte_order: Option<ByteOrder>,
    pub(crate) bit_order: Option<BitOrder>,
    pub(crate) address: Option<u128>,
    pub(crate) size_bits: Option<u128>,
    pub(crate) reset: Option<usize>,
    pub(crate) repeat: Option<HirRepeat>,
}

/// Finds the first written setting of each kind; for the reset value, its place.
pub(crate) fn scan_items(items: &Vec<RegisterItem>) -> (res: Settings)
    ensures
        res.access == first_item(items@, |i: RegisterItem| pick_access(i)),
        res.byte_order == first_item(items@, |i: RegisterItem| pick_byte_order(i)),
        res.bit_order == first_item(items@, |i: RegisterItem| pick_bit_order(i)),
        res.address == first_item(items@, |i: RegisterItem| pick_address(i)),
        res.size_bits == first_item(items@, |i: RegisterItem| pick_size_bits(i)),
        res.repeat == first_item(items@, |i: RegisterItem| pick_repeat(i)),
        match first_item(items@, |i: RegisterItem| pick_reset(i)) {
            Some(v) => res.reset matches Some(k) && k < items@.len() && pick_reset(items@[k as int]) == Some(v),
            None => res.reset is None,
        },
{
    let mut st = Settings {
        access: None,
        byte_order: None,
        bit_order: None,
        address: None,
        size_bits: None,
        reset: None,
        repeat: None,
    };
    let mut i: usize = 0;
    proof {
        assert(items@.take(0) =~= Seq::<RegisterItem>::empty());
    }
    while i < items.len()
        invariant
            i <= items@.len(),
            st.access == first_item(items@.take(i as int), |i: RegisterItem| pick_access(i)),
            st.byte_order == first_item(items@.take(i as int), |i: RegisterItem| pick_byte_order(i)),
            st.bit_order == first_item(items@.take(i as int), |i: RegisterItem| pick_bit_order(i)),
            st.address == first_item(items@.take(i as int), |i: RegisterItem| pick_address(i)),
            st.size_bits == first_item(items@.take(i as int), |i: RegisterItem| pick_size_bits(i)),
            st.repeat == first_item(items@.take(i as int), |i: RegisterItem| pick_repeat(i)),
            match first_item(items@.take(i as int), |i: RegisterItem| pick_reset(i)) {
                Some(v) => st.reset matches Some(k) && k < i && pick_reset(items@[k as int]) == Some(v),
                None => st.reset is None,
            },
        decreases items@.len() - i,
    {
        let ghost next = items@.take(i + 1);
        proof {
            assert(next.drop_last() =~= items@.take(i as int));
            assert(next.last() == items@[i as int]);
        }
        match &items[i] {
            RegisterItem::Access(a) => {
                if st.access.is_none() {
                    st.access = Some(*a);
                }
            },
            RegisterItem::ByteOrder(b) => {
                if st.byte_order.is_none() {
                    st.byte_order = Some(*b);
                }
            },
            RegisterItem::BitOrder(b) => {
                if st.bit_order.is_none() {
                    st.bit_order = Some(*b);
                }
            },
            RegisterItem::Address(a) => {
                if st.address.is_none() {
                    st.address = Some(*a);
                }
            },
            RegisterItem::SizeBits(s) => {
                if st.size_bits.is_none() {
                    st.size_bits = Some(*s);
                }
            },
            RegisterItem::ResetValueInt(_) | RegisterItem::ResetValueArray(_) => {
                if st.reset.is_none() {
                    st.reset = Some(i);
                }
            },
            RegisterItem::Repeat(r) => {
                if st.repeat.is_none() {
                    st.repeat = Some(*r);
                }
            },
        }
        i = i + 1;
    }
    proof {
        assert(items@.take(items@.len() as int) =~= items@);
    }
    st
}

/// Reads the written fields with the device's settings.
fn transform_fields(fs: &Vec<HirField>, gc: &GlobalConfig) -> (res: Result<Vec<Field>, Error>)
    ensures
        match first_field_fault(fs@) {
            Some(k) => res matches Err(e) && field_fault(fs@[k]) matches Some(x) && fault_error(
                x,
                fs@[k].identifier@,
                e,
            ),
            None => res matches Ok(out) && out@.len() == fs@.len() && forall|k: int|
                0 <= k < fs@.len() ==> field_read(#[trigger] fs@[k], *gc, out@[k]),
        },
{
    let mut out: Vec<Field> = Vec::new();
    let mut i: usize = 0;
    proof {
        assert(fs@.take(0) =~= Seq::<HirField>::empty());
    }
    while i < fs.len()
        invariant
            i <= fs@.len(),
            first_field_fault(fs@.take(i as int)) is None,
            out@.len() == i,
            forall|k: int| 0 <= k < i ==> field_read(#[trigger] fs@[k], *gc, out@[k]),
        decreases fs@.len() - i,
    {
        let ghost next = fs@.take(i + 1);
        proof {
            assert(next.drop_last() =~= fs@.take(i as int));
            assert(next.last() == fs@[i as int]);
        }
        match transform_field(&fs[i], gc) {
            Ok(x) => {
                out.push(x);
            },
            Err(e) => {
                proof {
                    assert(first_field_fault(next) == Some(i as int));
                    lemma_field_fault_prefix(fs@, i as int + 1);
                }
                return Err(e);
            },
        }
        i = i + 1;
    }
    proof {
        assert(fs@.take(fs@.len() as int) =~= fs@);
    }
    Ok(out)
}

/// A faulty field in a prefix of the fields is the first faulty field of all of them.
proof fn lemma_field_fault_prefix(fs: Seq<HirField>, n: int)
    requires
        0 <= n <= fs.len(),
        first_field_fault(fs.take(n)) is Some,
    ensures
        first_field_fault(fs) == first_field_fault(fs.take(n)),
    decreases fs.len() - n,
{
    if n < fs.len() {
        assert(fs.take(n + 1).drop_last() =~= fs.take(n));
        lemma_field_fault_prefix(fs, n + 1);
    } else {
        assert(fs.take(n) =~= fs);
    }
}

/// Reads a register written in the device description macro with the device's settings:
/// see [`register_fault`] for what it refuses, with the error of the register or of its
/// first faulty field, and [`register_read`] for the register it gives.
pub fn transform_register(r: &HirRegister, gc: &GlobalConfig) -> (res: Result<Register, Error>)
    ensures
        match register_fault(*r) {
            Some(f) => res matches Err(e) && fault_error(f, register_fault_name(*r), e),
            None => res matches Ok(x) && register_read(*r, *gc, x),
        },
{
    let cfg_attr = match get_cfg_attr(&r.attribute_list) {
        Ok(c) => c,
        Err(e) => return Err(e),
    };
    let st = scan_items(&r.register_items);
    let address: i64 = match st.address {
        None => return Err(Error::RegisterWithoutAddress { register_name: r.identifier.clone() }),
        Some(a) => {
            if a > i64::MAX as u128 {
                return Err(Error::LiteralTooLarge);
            }
            a as i64
        },
    };
    let size_bits: u32 = match st.size_bits {
        None => 0,
        Some(s) => match literal_u32(s) {
            Ok(s) => s,
            Err(e) => return Err(e),
        },
    };
    let repeat = match st.repeat {
        None => None,
        Some(rp) => {
            if rp.count > u64::MAX as u128 || rp.stride > i64::MAX as u128 {
                return Err(Error::LiteralTooLarge);
            }
            Some(Repeat { count: rp.count as u64, stride: rp.stride as i64 })
        },
    };
    let fields = match transform_fields(&r.fields, gc) {
        Ok(f) => f,
        Err(e) => return Err(e),
    };
    let reset_value = match st.reset {
        None => None,
        Some(k) => match &r.register_items[k] {
            RegisterItem::ResetValueInt(v) => Some(ResetValue::Integer(*v)),
            RegisterItem::ResetValueArray(a) => Some(ResetValue::Array(a.clone())),
            _ => None,
        },
    };
    Ok(
        Register {
            cfg_attr,
            description: get_description(&r.attribute_list),
            name: r.identifier.clone(),
            access: match st.access {
                Some(a) => a,
                None => gc.default_register_access,
            },
            allow_address_overlap: false,
            address,
            reset_value,
            repeat,
            field_set: FieldSet {
                description: String::new(),
                size_bits,
                byte_order: match st.byte_order {
                    Some(b) => Some(b),
                    None => gc.default_byte_order,
                },
                bit_order: Some(
                    match st.bit_order {
                        Some(b) => b,
                        None => gc.default_bit_order,
                    },
                ),
                allow_bit_overlap: false,
                fields,
            },
        },
    )
}

/// The first written settings of each kind of a command.
pub(crate) struct CommandSettings {
    pub(crate) byte_order: Option<ByteOrder>,
    pub(crate) bit_order: Option<BitOrder>,
    pub(crate) address: Option<u128>,
    pub(crate) size_in: Option<u128>,
    pub(crate) size_out: Option<u128>,
    pub(crate) repeat: Option<HirRepeat>,
}

/// Finds the first written setting of each kind of a command.
pub(crate) fn scan_command_items(items: &Vec<CommandItem>) -> (res: CommandSettings)
    ensures
        res.byte_order == first_item(items@, |i: CommandItem| cmd_byte_order(i)),
        res.bit_order == first_item(items@, |i: CommandItem| cmd_bit_order(i)),
        res.address == first_item(items@, |i: CommandItem| cmd_address(i)),
        res.size_in == first_item(items@, |i: CommandItem| cmd_size_in(i)),
        res.size_out == first_item(items@, |i: CommandItem| cmd_size_out(i)),
        res.repeat == first_item(items@, |i: CommandItem| cmd_repeat(i)),
{
    let mut st = CommandSettings {
        byte_order: None,
        bit_order: None,
        address: None,
        size_in: None,
        size_out: None,
        repeat: None,
    };
    let mut i: usize = 0;
    proof {
        assert(items@.take(0) =~= Seq::<CommandItem>::empty());
    }
    while i < items.len()
        invariant
            i <= items@.len(),
            st.byte_order == first_item(items@.take(i as int), |i: CommandItem| cmd_byte_order(i)),
            st.bit_order == first_item(items@.take(i as int), |i: CommandItem| cmd_bit_order(i)),
            st.address == first_item(items@.take(i as int), |i: CommandItem| cmd_address(i)),
            st.size_in == first_item(items@.take(i as int), |i: CommandItem| cmd_size_in(i)),
            st.size_out == first_item(items@.take(i as int), |i: CommandItem| cmd_size_out(i)),
            st.repeat == first_item(items@.take(i as int), |i: CommandItem| cmd_repeat(i)),
        decreases items@.len() - i,
    {
        let ghost next = items@.take(i + 1);
        proof {
            assert(next.drop_last() =~= items@.take(i as int));
            assert(next.last() == items@[i as int]);
        }
        match items[i] {
            CommandItem::ByteOrder(b) => {
                if st.byte_order.is_none() {
                    st.byte_order = Some(b);
                }
            },
            CommandItem::BitOrder(b) => {
                if st.bit_order.is_none() {
                    st.bit_order = Some(b);
                }
            },
            CommandItem::Address(a) => {
                if st.address.is_none() {
                    st.address = Some(a);
                }
            },
            CommandItem::SizeBitsIn(s) => {
                if st.size_in.is_none() {
                    st.size_in = Some(s);
                }
            },
            CommandItem::SizeBitsOut(s) => {
                if st.size_out.is_none() {
                    st.size_out = Some(s);
                }
            },
            CommandItem::Repeat(r) => {
                if st.repeat.is_none() {
                    st.repeat = Some(r);
                }
            },
        }
        i = i + 1;
    }
    proof {
        assert(items@.take(items@.len() as int) =~= items@);
    }
    st
}

/// Reads an optional size as a `u32`; no size is zero.
fn opt_size(s: Option<u128>) -> (res: Result<u32, Error>)
    ensures
        match opt_size_fault(s) {
            Some(f) => res matches Err(e) && fault_error(f, Seq::empty(), e),
            None => res == Ok::<u32, Error>(
                match s {
                    Some(v) => v as u32,
                    None => 0,
                },
            ),
        },
{
    match s {
        None => Ok(0),
        Some(v) => literal_u32(v),
    }
}

/// The field set of one direction of a command, where fields are written.
fn command_field_set(
    fields: &Option<Vec<HirField>>,
    size_bits: u32,
    byte_order: Option<ByteOrder>,
    bit_order: BitOrder,
    gc: &GlobalConfig,
) -> (res: Result<Option<FieldSet>, Error>)
    ensures
        match opt_fields_fault(*fields) {
            Some((f, name)) => res matches Err(e) && fault_error(f, name, e),
            None => res matches Ok(o) && match *fields {
                None => o is None,
                Some(hf) => o matches Some(fs) && {
                    &&& fs.description@ == Seq::<char>::empty()
                    &&& fs.size_bits == size_bits
                    &&& fs.byte_order == byte_order
                    &&& fs.bit_order == Some(bit_order)
                    &&& !fs.allow_bit_overlap
                    &&& fs.fields@.len() == hf@.len()
                    &&& forall|k: int| 0 <= k < hf@.len() ==> field_read(#[trigger] hf@[k], *gc, fs.fields@[k])
                },
            },
        },
{
    match fields {
        None => Ok(None),
        Some(hf) => match transform_fields(hf, gc) {
            Ok(fs) => Ok(
                Some(
                    FieldSet {
                        description: String::new(),
                        size_bits,
                        byte_order,
                        bit_order: Some(bit_order),
                        allow_bit_overlap: false,
                        fields: fs,
                    },
                ),
            ),
            Err(e) => Err(e),
        },
    }
}

/// Reads a command written in the device description macro with the device's settings:
/// see [`command_fault`] for what it refuses, with the error of the command or of its
/// first faulty field, and [`command_read`] for the command it gives.
pub fn transform_command(c: &HirCommand, gc: &GlobalConfig) -> (res: Result<crate::mir::Command, Error>)
    ensures
        match command_fault(*c) {
            Some((f, name)) => res matches Err(e) && fault_error(f, name, e),
            None => res matches Ok(x) && command_read(*c, *gc, x),
        },
{
    let value = match &c.value {
        None => return Err(Error::CommandWithoutValue { command_name: c.identifier.clone() }),
        Some(v) => v,
    };
    let cfg_attr = match get_cfg_attr(&c.attribute_list) {
        Ok(x) => x,
        Err(e) => return Err(e),
    };
    let empty: Vec<CommandItem> = Vec::new();
    let items = match value {
        HirCommandValue::Basic(_) => &empty,
        HirCommandValue::Extended { items, .. } => items,
    };
    proof {
        assert(items@ == command_items(*value));
    }
    let st = scan_command_items(items);
    let address_literal = match value {
        HirCommandValue::Basic(a) => Some(*a),
        HirCommandValue::Extended { .. } => st.address,
    };
    let address: i64 = match address_literal {
        None => return Err(Error::CommandWithoutAddress { command_name: c.identifier.clone() }),
        Some(a) => {
            if a > i64::MAX as u128 {
                return Err(Error::LiteralTooLarge);
            }
            a as i64
        },
    };
    let size_in = match opt_size(st.size_in) {
        Ok(s) => s,
        Err(e) => return Err(e),
    };
    let size_out = match opt_size(st.size_out) {
        Ok(s) => s,
        Err(e) => return Err(e),
    };
    let repeat = match st.repeat {
        None => None,
        Some(rp) => {
            if rp.count > u64::MAX as u128 || rp.stride > i64::MAX as u128 {
                return Err(Error::LiteralTooLarge);
            }
            Some(Repeat { count: rp.count as u64, stride: rp.stride as i64 })
        },
    };
    let byte_order = match st.byte_order {
        Some(b) => Some(b),
        None => gc.default_byte_order,
    };
    let bit_order = match st.bit_order {
        Some(b) => b,
        None => gc.default_bit_order,
    };
    let (field_set_in, field_set_out) = match value {
        HirCommandValue::Basic(_) => (None, None),
        HirCommandValue::Extended { in_fields, out_fields, .. } => {
            let fi = match command_field_set(in_fields, size_in, byte_order, bit_order, gc) {
                Ok(x) => x,
                Err(e) => return Err(e),
            };
            let fo = match command_field_set(out_fields, size_out, byte_order, bit_order, gc) {
                Ok(x) => x,
                Err(e) => return Err(e),
            };
            (fi, fo)
        },
    };
    Ok(
        crate::mir::Command {
            cfg_attr,
            description: get_description(&c.attribute_list),
            name: c.identifier.clone(),
            allow_address_overlap: false,
            address,
            repeat,
            field_set_in,
            field_set_out,
        },
    )
}

} // verus!
