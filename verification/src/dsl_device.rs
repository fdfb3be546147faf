//! A whole device written in the device description macro: its settings and its objects
//! (blocks, registers, commands, buffers and refs with their overrides), and the device
//! description they give.

use vstd::prelude::*;

use crate::dsl_hir::{doc_lines, get_description, joined_lines, AttributeList};
use crate::dsl_transform::{
    cfg_fault, cfg_of, command_fault, command_read, fault_error, first_item, get_cfg_attr,
    literal_fault, opt_repeat_fault, pick_access, pick_address, pick_reset, pick_repeat,
    cmd_address, cmd_repeat, scan_items, scan_command_items, register_fault, register_fault_name, register_read,
    transform_command, transform_register, CommandItem, HirCommand, HirCommandValue, HirFault,
    HirRegister, HirRepeat, RegisterItem,
};
use crate::error::{Error, OverrideProblem};
use crate::lir::block_generation::push_joined;
use crate::lir::enum_generation::{join_texts, Code};
use crate::mir::{
    default_word_boundaries, Access, BitOrder, Block, BlockOverride, Buffer, ByteOrder, CommandOverride,
    Device, GlobalConfig, Integer, Object, ObjectOverride, RefObject, RegisterOverride, Repeat,
    ResetValue, ResetValueView, WordBoundary,
};

verus! {

/// A setting of the whole device as written.
#[derive(Debug, Clone, PartialEq, Eq)]
pub enum HirGlobalConfig {
    DefaultRegisterAccess(Access),
    DefaultFieldAccess(Access),
    DefaultBufferAccess(Access),
    DefaultByteOrder(ByteOrder),
    DefaultBitOrder(BitOrder),
    /// The name of the integer type of register addresses.
    RegisterAddressType(String),
    /// The name of the integer type of command addresses.
    CommandAddressType(String),
    /// The name of the integer type of buffer addresses.
    BufferAddressType(String),
    NameWordBoundaries(Vec<WordBoundary>),
}

/// The settings of the device as mathematical values.
pub ghost struct GlobalConfigV {
    pub default_register_access: Access,
    pub default_field_access: Access,
    pub default_buffer_access: Access,
    pub default_byte_order: Option<ByteOrder>,
    pub default_bit_order: BitOrder,
    pub register_address_type: Option<Integer>,
    pub command_address_type: Option<Integer>,
    pub buffer_address_type: Option<Integer>,
    pub name_word_boundaries: Seq<WordBoundary>,
    pub defmt_feature: Option<Seq<char>>,
}

/// The settings of the device as mathematical values.
pub open spec fn config_view(g: GlobalConfig) -> GlobalConfigV {
    GlobalConfigV {
        default_register_access: g.default_register_access,
        default_field_access: g.default_field_access,
        default_buffer_access: g.default_buffer_access,
        default_byte_order: g.default_byte_order,
        default_bit_order: g.default_bit_order,
        register_address_type: g.register_address_type,
        command_address_type: g.command_address_type,
        buffer_address_type: g.buffer_address_type,
        name_word_boundaries: g.name_word_boundaries@,
        defmt_feature: match g.defmt_feature {
            Some(f) => Some(f@),
            None => None,
        },
    }
}

/// The settings of a device that sets nothing.
pub open spec fn default_config_v() -> GlobalConfigV {
    GlobalConfigV {
        default_register_access: Access::RW,
        default_field_access: Access::RW,
        default_buffer_access: Access::RW,
        default_byte_order: None,
        default_bit_order: BitOrder::LSB0,
        register_address_type: None,
        command_address_type: None,
        buffer_address_type: None,
        name_word_boundaries: default_word_boundaries(),
        defmt_feature: None,
    }
}

/// The kind of a setting: settings of one kind may be written only once.
pub open spec fn config_kind(c: HirGlobalConfig) -> int {
    match c {
        HirGlobalConfig::DefaultRegisterAccess(_) => 0,
        HirGlobalConfig::DefaultFieldAccess(_) => 1,
        HirGlobalConfig::DefaultBufferAccess(_) => 2,
        HirGlobalConfig::DefaultByteOrder(_) => 3,
        HirGlobalConfig::DefaultBitOrder(_) => 4,
        HirGlobalConfig::RegisterAddressType(_) => 5,
        HirGlobalConfig::CommandAddressType(_) => 6,
        HirGlobalConfig::BufferAddressType(_) => 7,
        HirGlobalConfig::NameWordBoundaries(_) => 8,
    }
}

/// How many settings of the list are of the kind.
pub open spec fn kind_count(list: Seq<HirGlobalConfig>, k: int) -> nat
    decreases list.len(),
{
    if list.len() == 0 {
        0
    } else {
        kind_count(list.drop_last(), k) + if config_kind(list.last()) == k {
            1nat
        } else {
            0nat
        }
    }
}

/// The integer type a written type name stands for, if it is one the device can use.
pub open spec fn integer_of(s: Seq<char>) -> Option<Integer> {
    if s == "u8"@ {
        Some(Integer::U8)
    } else if s == "u16"@ {
        Some(Integer::U16)
    } else if s == "u32"@ {
        Some(Integer::U32)
    } else if s == "u64"@ {
        Some(Integer::U64)
    } else if s == "i8"@ {
        Some(Integer::I8)
    } else if s == "i16"@ {
        Some(Integer::I16)
    } else if s == "i32"@ {
        Some(Integer::I32)
    } else if s == "i64"@ {
        Some(Integer::I64)
    } else {
        None
    }
}

/// The debug text of an access.
pub open spec fn access_debug(a: Access) -> Seq<char> {
    match a {
        Access::RW => "RW"@,
        Access::RO => "RO"@,
        Access::WO => "WO"@,
    }
}

/// The debug text of a byte order.
pub open spec fn byte_order_debug(b: ByteOrder) -> Seq<char> {
    match b {
        ByteOrder::LE => "LE"@,
        ByteOrder::BE => "BE"@,
    }
}

/// The debug text of a bit order.
pub open spec fn bit_order_debug(b: BitOrder) -> Seq<char> {
    match b {
        BitOrder::LSB0 => "LSB0"@,
        BitOrder::MSB0 => "MSB0"@,
    }
}

/// The debug text of a word boundary.
pub open spec fn boundary_debug(b: WordBoundary) -> Seq<char> {
    match b {
        WordBoundary::Hyphen => "Hyphen"@,
        WordBoundary::Underscore => "Underscore"@,
        WordBoundary::Space => "Space"@,
        WordBoundary::UpperLower => "UpperLower"@,
        WordBoundary::LowerUpper => "LowerUpper"@,
        WordBoundary::DigitUpper => "DigitUpper"@,
        WordBoundary::UpperDigit => "UpperDigit"@,
        WordBoundary::DigitLower => "DigitLower"@,
        WordBoundary::LowerDigit => "LowerDigit"@,
        WordBoundary::Acronym => "Acronym"@,
    }
}

/// The debug text of a setting, as the error about a repeated setting shows it.
pub open spec fn config_text(c: HirGlobalConfig) -> Seq<char> {
    match c {
        HirGlobalConfig::DefaultRegisterAccess(a) => "DefaultRegisterAccess("@ + access_debug(a) + ")"@,
        HirGlobalConfig::DefaultFieldAccess(a) => "DefaultFieldAccess("@ + access_debug(a) + ")"@,
        HirGlobalConfig::DefaultBufferAccess(a) => "DefaultBufferAccess("@ + access_debug(a) + ")"@,
        HirGlobalConfig::DefaultByteOrder(b) => "DefaultByteOrder("@ + byte_order_debug(b) + ")"@,
        HirGlobalConfig::DefaultBitOrder(b) => "DefaultBitOrder("@ + bit_order_debug(b) + ")"@,
        HirGlobalConfig::RegisterAddressType(s) => "RegisterAddressType(Ident("@ + s@ + "))"@,
        HirGlobalConfig::CommandAddressType(s) => "CommandAddressType(Ident("@ + s@ + "))"@,
        HirGlobalConfig::BufferAddressType(s) => "BufferAddressType(Ident("@ + s@ + "))"@,
        HirGlobalConfig::NameWordBoundaries(v) => "NameWordBoundaries(["@ + join_texts(
            v@.map_values(|b: WordBoundary| boundary_debug(b)),
            ", "@,
        ) + "])"@,
    }
}

/// The fault of the setting at `i`: written more than once, or an address type that is
/// no integer type.
pub open spec fn config_fault_at(list: Seq<HirGlobalConfig>, i: int) -> Option<HirFault> {
    let c = list[i];
    if kind_count(list, config_kind(c)) > 1 {
        Some(HirFault::DuplicateConfig(config_text(c)))
    } else {
        match c {
            HirGlobalConfig::RegisterAddressType(s) => if integer_of(s@) is None {
                Some(HirFault::NotAnInteger)
            } else {
                None
            },
            HirGlobalConfig::CommandAddressType(s) => if integer_of(s@) is None {
                Some(HirFault::NotAnInteger)
            } else {
                None
            },
            HirGlobalConfig::BufferAddressType(s) => if integer_of(s@) is None {
                Some(HirFault::NotAnInteger)
            } else {
                None
            },
            _ => None,
        }
    }
}

/// The first fault among the settings from `i` on.
pub open spec fn configs_fault_from(list: Seq<HirGlobalConfig>, i: int) -> Option<HirFault>
    decreases list.len() - i,
{
    if i < 0 || i >= list.len() {
        None
    } else {
        match config_fault_at(list, i) {
            Some(f) => Some(f),
            None => configs_fault_from(list, i + 1),
        }
    }
}

/// The settings after one more written setting.
pub open spec fn apply_config(g: GlobalConfigV, c: HirGlobalConfig) -> GlobalConfigV {
    match c {
        HirGlobalConfig::DefaultRegisterAccess(a) => GlobalConfigV { default_register_access: a, ..g },
        HirGlobalConfig::DefaultFieldAccess(a) => GlobalConfigV { default_field_access: a, ..g },
        HirGlobalConfig::DefaultBufferAccess(a) => GlobalConfigV { default_buffer_access: a, ..g },
        HirGlobalConfig::DefaultByteOrder(b) => GlobalConfigV { default_byte_order: Some(b), ..g },
        HirGlobalConfig::DefaultBitOrder(b) => GlobalConfigV { default_bit_order: b, ..g },
        HirGlobalConfig::RegisterAddressType(s) => GlobalConfigV { register_address_type: integer_of(s@), ..g },
        HirGlobalConfig::CommandAddressType(s) => GlobalConfigV { command_address_type: integer_of(s@), ..g },
        HirGlobalConfig::BufferAddressType(s) => GlobalConfigV { buffer_address_type: integer_of(s@), ..g },
        HirGlobalConfig::NameWordBoundaries(v) => GlobalConfigV { name_word_boundaries: v@, ..g },
    }
}

/// The settings the written ones give, applied in order to those of a device that sets
/// nothing.
pub open spec fn configs_result(list: Seq<HirGlobalConfig>) -> GlobalConfigV
    decreases list.len(),
{
    if list.len() == 0 {
        default_config_v()
    } else {
        apply_config(configs_result(list.drop_last()), list.last())
    }
}

/// The kind of a setting.
fn kind_of(c: &HirGlobalConfig) -> (res: u8)
    ensures
        res == config_kind(*c),
{
    match c {
        HirGlobalConfig::DefaultRegisterAccess(_) => 0,
        HirGlobalConfig::DefaultFieldAccess(_) => 1,
        HirGlobalConfig::DefaultBufferAccess(_) => 2,
        HirGlobalConfig::DefaultByteOrder(_) => 3,
        HirGlobalConfig::DefaultBitOrder(_) => 4,
        HirGlobalConfig::RegisterAddressType(_) => 5,
        HirGlobalConfig::CommandAddressType(_) => 6,
        HirGlobalConfig::BufferAddressType(_) => 7,
        HirGlobalConfig::NameWordBoundaries(_) => 8,
    }
}

/// Counts the settings of the kind.
fn count_kind(list: &Vec<HirGlobalConfig>, k: u8) -> (res: usize)
    ensures
        res == kind_count(list@, k as int),
{
    let mut n: usize = 0;
    let mut i: usize = 0;
    while i < list.len()
        invariant
            i <= list@.len(),
            n == kind_count(list@.take(i as int), k as int),
            n <= i,
        decreases list@.len() - i,
    {
        proof {
            assert(list@.take(i + 1).drop_last() =~= list@.take(i as int));
        }
        if kind_of(&list[i]) == k {
            n = n + 1;
        }
        i = i + 1;
    }
    proof {
        assert(list@.take(list@.len() as int) =~= list@);
    }
    n
}

/// The integer type a written type name stands for.
fn integer_from(s: &str) -> (res: Option<Integer>)
    ensures
        res == integer_of(s@),
{
    proof {
        reveal_strlit("u8");
        reveal_strlit("u16");
        reveal_strlit("u32");
        reveal_strlit("u64");
        reveal_strlit("i8");
        reveal_strlit("i16");
        reveal_strlit("i32");
        reveal_strlit("i64");
    }
    let owned = s.to_owned();
    if owned == String::from_str("u8") {
        Some(Integer::U8)
    } else if owned == String::from_str("u16") {
        Some(Integer::U16)
    } else if owned == String::from_str("u32") {
        Some(Integer::U32)
    } else if owned == String::from_str("u64") {
        Some(Integer::U64)
    } else if owned == String::from_str("i8") {
        Some(Integer::I8)
    } else if owned == String::from_str("i16") {
        Some(Integer::I16)
    } else if owned == String::from_str("i32") {
        Some(Integer::I32)
    } else if owned == String::from_str("i64") {
        Some(Integer::I64)
    } else {
        None
    }
}

/// The debug text of a setting.
fn config_debug(c: &HirGlobalConfig) -> (res: String)
    ensures
        res@ == config_text(*c),
{
    let mut t = Code::new();
    match c {
        HirGlobalConfig::DefaultRegisterAccess(a) => {
            t.add("DefaultRegisterAccess(");
            t.add(access_word(*a));
            t.add(")");
        },
        HirGlobalConfig::DefaultFieldAccess(a) => {
            t.add("DefaultFieldAccess(");
            t.add(access_word(*a));
            t.add(")");
        },
        HirGlobalConfig::DefaultBufferAccess(a) => {
            t.add("DefaultBufferAccess(");
            t.add(access_word(*a));
            t.add(")");
        },
        HirGlobalConfig::DefaultByteOrder(b) => {
            t.add("DefaultByteOrder(");
            match b {
                ByteOrder::LE => t.add("LE"),
                ByteOrder::BE => t.add("BE"),
            }
            t.add(")");
        },
        HirGlobalConfig::DefaultBitOrder(b) => {
            t.add("DefaultBitOrder(");
            match b {
                BitOrder::LSB0 => t.add("LSB0"),
                BitOrder::MSB0 => t.add("MSB0"),
            }
            t.add(")");
        },
        HirGlobalConfig::RegisterAddressType(s) => {
            t.add("RegisterAddressType(Ident(");
            t.add(s.as_str());
            t.add("))");
        },
        HirGlobalConfig::CommandAddressType(s) => {
            t.add("CommandAddressType(Ident(");
            t.add(s.as_str());
            t.add("))");
        },
        HirGlobalConfig::BufferAddressType(s) => {
            t.add("BufferAddressType(Ident(");
            t.add(s.as_str());
            t.add("))");
        },
        HirGlobalConfig::NameWordBoundaries(v) => {
            t.add("NameWordBoundaries([");
            let ghost start = t.s@;
            let ghost f = |b: WordBoundary| boundary_debug(b);
            let mut i: usize = 0;
            proof {
                assert(v@.take(0).map_values(f) =~= Seq::<Seq<char>>::empty());
                assert(start + Seq::<char>::empty() =~= start);
            }
            while i < v.len()
                invariant
                    i <= v@.len(),
                    f == (|b: WordBoundary| boundary_debug(b)),
                    t.s@ == start + join_texts(v@.take(i as int).map_values(f), ", "@),
                decreases v@.len() - i,
            {
                let word = boundary_word(v[i]);
                push_joined(&mut t, word, ", ", i == 0, Ghost(v@.take(i as int).map_values(f)), Ghost(start));
                proof {
                    assert(v@.take(i as int).map_values(f).push(word@) =~= v@.take(i + 1).map_values(f));
                }
                i = i + 1;
            }
            proof {
                assert(v@.take(v@.len() as int) =~= v@);
            }
            t.add("])");
        },
    }
    t.s
}

/// The debug text of an access.
fn access_word(a: Access) -> (res: &'static str)
    ensures
        res@ == access_debug(a),
{
    match a {
        Access::RW => "RW",
        Access::RO => "RO",
        Access::WO => "WO",
    }
}

/// The debug text of a word boundary.
fn boundary_word(b: WordBoundary) -> (res: &'static str)
    ensures
        res@ == boundary_debug(b),
{
    match b {
        WordBoundary::Hyphen => "Hyphen",
        WordBoundary::Underscore => "Underscore",
        WordBoundary::Space => "Space",
        WordBoundary::UpperLower => "UpperLower",
        WordBoundary::LowerUpper => "LowerUpper",
        WordBoundary::DigitUpper => "DigitUpper",
        WordBoundary::UpperDigit => "UpperDigit",
        WordBoundary::DigitLower => "DigitLower",
        WordBoundary::LowerDigit => "LowerDigit",
        WordBoundary::Acronym => "Acronym",
    }
}

/// Reads the settings of the device: the first setting, in order, that is written more
/// than once or names no integer type is refused; otherwise each setting replaces what a
/// device that sets nothing has.
pub fn transform_global_config(list: &Vec<HirGlobalConfig>) -> (res: Result<GlobalConfig, Error>)
    ensures
        match configs_fault_from(list@, 0) {
            Some(f) => res matches Err(e) && fault_error(f, Seq::empty(), e),
            None => res matches Ok(g) && config_view(g) == configs_result(list@),
        },
{
    let mut g = GlobalConfig::default();
    let mut i: usize = 0;
    proof {
        assert(list@.take(0) =~= Seq::<HirGlobalConfig>::empty());
    }
    while i < list.len()
        invariant
            i <= list@.len(),
            configs_fault_from(list@, 0) == configs_fault_from(list@, i as int),
            config_view(g) == configs_result(list@.take(i as int)),
        decreases list@.len() - i,
    {
        let c = &list[i];
        let n = count_kind(list, kind_of(c));
        if n > 1 {
            let text = config_debug(c);
            return Err(Error::DuplicateGlobalConfig { config: text });
        }
        let ghost before = config_view(g);
        proof {
            assert(list@.take(i + 1).drop_last() =~= list@.take(i as int));
            assert(list@.take(i + 1).last() == list@[i as int]);
        }
        match c {
            HirGlobalConfig::DefaultRegisterAccess(a) => g.default_register_access = *a,
            HirGlobalConfig::DefaultFieldAccess(a) => g.default_field_access = *a,
            HirGlobalConfig::DefaultBufferAccess(a) => g.default_buffer_access = *a,
            HirGlobalConfig::DefaultByteOrder(b) => g.default_byte_order = Some(*b),
            HirGlobalConfig::DefaultBitOrder(b) => g.default_bit_order = *b,
            HirGlobalConfig::RegisterAddressType(s) => match integer_from(s.as_str()) {
                Some(t) => g.register_address_type = Some(t),
                None => return Err(Error::NotAnIntegerType),
            },
            HirGlobalConfig::CommandAddressType(s) => match integer_from(s.as_str()) {
                Some(t) => g.command_address_type = Some(t),
                None => return Err(Error::NotAnIntegerType),
            },
            HirGlobalConfig::BufferAddressType(s) => match integer_from(s.as_str()) {
                Some(t) => g.buffer_address_type = Some(t),
                None => return Err(Error::NotAnIntegerType),
            },
            HirGlobalConfig::NameWordBoundaries(v) => {
                let mut copy: Vec<WordBoundary> = Vec::new();
                let mut k: usize = 0;
                while k < v.len()
                    invariant
                        k <= v@.len(),
                        copy@ == v@.take(k as int),
                    decreases v@.len() - k,
                {
                    copy.push(v[k]);
                    k = k + 1;
                    proof {
                        assert(copy@ =~= v@.take(k as int));
                    }
                }
                proof {
                    assert(copy@ =~= v@);
                }
                g.name_word_boundaries = copy;
            },
        }
        proof {
            assert(config_view(g) =~= apply_config(before, list@[i as int]));
        }
        i = i + 1;
    }
    proof {
        assert(list@.take(list@.len() as int) =~= list@);
    }
    Ok(g)
}

/// A setting of a block as written.
#[derive(Debug, Clone, Copy, PartialEq, Eq, Structural)]
pub enum BlockItem {
    AddressOffset(u128),
    Repeat(HirRepeat),
}

/// A block as written: its settings and the objects it holds.
#[derive(Debug)]
pub struct HirBlock {
    pub attribute_list: AttributeList,
    pub identifier: String,
    pub block_items: Vec<BlockItem>,
    pub objects: Vec<HirObject>,
}

/// A buffer as written.
#[derive(Debug)]
pub struct HirBuffer {
    pub attribute_list: AttributeList,
    pub identifier: String,
    pub access: Option<Access>,
    pub address: Option<u128>,
}

/// A ref as written: the object it overrides, written as an object of its kind.
#[derive(Debug)]
pub struct HirRefObject {
    pub attribute_list: AttributeList,
    pub identifier: String,
    pub object: Box<HirObject>,
}

/// An object as written.
#[derive(Debug)]
pub enum HirObject {
    Block(HirBlock),
    Register(HirRegister),
    Command(HirCommand),
    Buffer(HirBuffer),
    Ref(HirRefObject),
}

/// A whole device as written: its settings and its objects.
#[derive(Debug)]
pub struct HirDevice {
    pub global_config_list: Vec<HirGlobalConfig>,
    pub objects: Vec<HirObject>,
}

pub open spec fn pick_offset(i: BlockItem) -> Option<u128> {
    match i {
        BlockItem::AddressOffset(v) => Some(v),
        _ => None,
    }
}

pub open spec fn pick_block_repeat(i: BlockItem) -> Option<HirRepeat> {
    match i {
        BlockItem::Repeat(r) => Some(r),
        _ => None,
    }
}

/// The fault of an optional literal read as an `i64`.
pub open spec fn opt_i64_fault(v: Option<u128>) -> Option<HirFault> {
    match v {
        Some(x) => literal_fault(x, i64::MAX as int),
        None => None,
    }
}

/// An optional repeat as read: its count as a `u64` and its stride as an `i64`.
pub open spec fn repeat_read(r: Option<HirRepeat>) -> Option<Repeat> {
    match r {
        Some(rp) => Some(Repeat { count: rp.count as u64, stride: rp.stride as i64 }),
        None => None,
    }
}

/// An optional literal read as an `i64`.
pub open spec fn opt_i64(v: Option<u128>) -> Option<i64> {
    match v {
        Some(x) => Some(x as i64),
        None => None,
    }
}

/// The first fault of a block itself: its conditions, then its address offset (the first
/// one, read as an `i64`), then its repeat (the first one).
pub open spec fn block_own_fault(b: HirBlock) -> Option<HirFault> {
    match cfg_fault(b.attribute_list) {
        Some(f) => Some(f),
        None => match opt_i64_fault(first_item(b.block_items@, |i: BlockItem| pick_offset(i))) {
            Some(f) => Some(f),
            None => opt_repeat_fault(first_item(b.block_items@, |i: BlockItem| pick_block_repeat(i))),
        },
    }
}

/// The first fault of a buffer: its conditions, then its address, which it must have,
/// read as an `i64`.
pub open spec fn buffer_fault(b: HirBuffer) -> Option<(HirFault, Seq<char>)> {
    match cfg_fault(b.attribute_list) {
        Some(f) => Some((f, b.identifier@)),
        None => match b.address {
            None => Some((HirFault::NoBufferAddress, b.identifier@)),
            Some(a) => match literal_fault(a, i64::MAX as int) {
                Some(f) => Some((f, b.identifier@)),
                None => None,
            },
        },
    }
}

/// What a register override may not hold: a byte order, a bit order or a size.
pub open spec fn register_override_problem(i: RegisterItem) -> Option<OverrideProblem> {
    match i {
        RegisterItem::ByteOrder(_) => Some(OverrideProblem::RegisterByteOrder),
        RegisterItem::BitOrder(_) => Some(OverrideProblem::RegisterBitOrder),
        RegisterItem::SizeBits(_) => Some(OverrideProblem::RegisterSizeBits),
        _ => None,
    }
}

/// What a command override may not hold: a byte order, a bit order or a size.
pub open spec fn command_override_problem(i: CommandItem) -> Option<OverrideProblem> {
    match i {
        CommandItem::ByteOrder(_) => Some(OverrideProblem::CommandByteOrder),
        CommandItem::BitOrder(_) => Some(OverrideProblem::CommandBitOrder),
        CommandItem::SizeBitsIn(_) => Some(OverrideProblem::CommandSizeBitsIn),
        CommandItem::SizeBitsOut(_) => Some(OverrideProblem::CommandSizeBitsOut),
        _ => None,
    }
}

/// The first fault of a block override: it may hold no attributes and no objects; then
/// its address offset and its repeat.
pub open spec fn block_override_fault(b: HirBlock) -> Option<HirFault> {
    if b.attribute_list.attributes@.len() > 0 {
        Some(HirFault::Override(OverrideProblem::BlockAttributes))
    } else if b.objects@.len() > 0 {
        Some(HirFault::Override(OverrideProblem::BlockObjects))
    } else {
        match opt_i64_fault(first_item(b.block_items@, |i: BlockItem| pick_offset(i))) {
            Some(f) => Some(f),
            None => opt_repeat_fault(first_item(b.block_items@, |i: BlockItem| pick_block_repeat(i))),
        }
    }
}

/// The first fault of a register override: it may hold no attributes, no fields and
/// none of the settings it can't change; then its address and its repeat.
pub open spec fn register_override_fault(r: HirRegister) -> Option<HirFault> {
    let items = r.register_items@;
    if r.attribute_list.attributes@.len() > 0 {
        Some(HirFault::Override(OverrideProblem::RegisterAttributes))
    } else if r.fields@.len() > 0 {
        Some(HirFault::Override(OverrideProblem::RegisterFields))
    } else {
        match first_item(items, |i: RegisterItem| register_override_problem(i)) {
            Some(p) => Some(HirFault::Override(p)),
            None => match opt_i64_fault(first_item(items, |i: RegisterItem| pick_address(i))) {
                Some(f) => Some(f),
                None => opt_repeat_fault(first_item(items, |i: RegisterItem| pick_repeat(i))),
            },
        }
    }
}

/// The first fault of a command override: it may hold no attributes, must have the
/// extended value without field lists and without the settings it can't change; then its
/// address and its repeat.
pub open spec fn command_override_fault(c: HirCommand) -> Option<HirFault> {
    if c.attribute_list.attributes@.len() > 0 {
        Some(HirFault::Override(OverrideProblem::CommandAttributes))
    } else {
        match c.value {
            None => Some(HirFault::Override(OverrideProblem::CommandNoValue)),
            Some(HirCommandValue::Basic(_)) => Some(HirFault::Override(OverrideProblem::CommandBasicValue)),
            Some(HirCommandValue::Extended { items, in_fields, out_fields }) => if in_fields is Some {
                Some(HirFault::Override(OverrideProblem::CommandInFields))
            } else if out_fields is Some {
                Some(HirFault::Override(OverrideProblem::CommandOutFields))
            } else {
                match first_item(items@, |i: CommandItem| command_override_problem(i)) {
                    Some(p) => Some(HirFault::Override(p)),
                    None => match opt_i64_fault(first_item(items@, |i: CommandItem| cmd_address(i))) {
                        Some(f) => Some(f),
                        None => opt_repeat_fault(first_item(items@, |i: CommandItem| cmd_repeat(i))),
                    },
                }
            },
        }
    }
}

/// The fault of what a ref overrides, which must be a block, a register or a command.
pub open spec fn override_fault(o: HirObject) -> Option<HirFault> {
    match o {
        HirObject::Block(b) => block_override_fault(b),
        HirObject::Register(x) => register_override_fault(x),
        HirObject::Command(x) => command_override_fault(x),
        HirObject::Buffer(_) => Some(HirFault::RefToBuffer),
        HirObject::Ref(_) => Some(HirFault::RefToRef),
    }
}

/// The first fault of a ref: its conditions, then what it overrides.
pub open spec fn ref_fault(r: HirRefObject) -> Option<(HirFault, Seq<char>)> {
    match cfg_fault(r.attribute_list) {
        Some(f) => Some((f, r.identifier@)),
        None => match override_fault(*r.object) {
            Some(f) => Some((f, r.identifier@)),
            None => None,
        },
    }
}

/// The first fault of a written object and the objects in it, with the name its error
/// carries.
pub open spec fn object_fault(o: HirObject) -> Option<(HirFault, Seq<char>)>
    decreases o, 0nat,
{
    match o {
        HirObject::Block(b) => match block_own_fault(b) {
            Some(f) => Some((f, b.identifier@)),
            None => {
                proof {
                    vstd::std_specs::vec::axiom_vec_decreases_to_view(b.objects);
                }
                objects_fault(b.objects@)
            },
        },
        HirObject::Register(r) => match register_fault(r) {
            Some(f) => Some((f, register_fault_name(r))),
            None => None,
        },
        HirObject::Command(c) => command_fault(c),
        HirObject::Buffer(b) => buffer_fault(b),
        HirObject::Ref(r) => ref_fault(r),
    }
}

/// The first fault of the written objects, in order.
pub open spec fn objects_fault(s: Seq<HirObject>) -> Option<(HirFault, Seq<char>)>
    decreases s, 1nat,
{
    if s.len() == 0 {
        None
    } else {
        match object_fault(s[0]) {
            Some(f) => Some(f),
            None => objects_fault(s.subrange(1, s.len() as int)),
        }
    }
}

/// Whether the buffer is read from the written one with the device's settings.
pub open spec fn buffer_read(h: HirBuffer, gc: GlobalConfig, b: Buffer) -> bool {
    &&& b.cfg_attr@ == cfg_of(h.attribute_list)
    &&& b.description@ == joined_lines(doc_lines(h.attribute_list.attributes@))
    &&& b.name@ == h.identifier@
    &&& b.access == match h.access {
        Some(a) => a,
        None => gc.default_buffer_access,
    }
    &&& h.address == Some(b.address as u128)
}

/// Whether the override is read from the written object it stands for.
pub open spec fn override_read(h: HirObject, o: ObjectOverride) -> bool {
    match h {
        HirObject::Block(b) => o matches ObjectOverride::Block(x) && {
            &&& x.name@ == b.identifier@
            &&& x.address_offset == opt_i64(first_item(b.block_items@, |i: BlockItem| pick_offset(i)))
            &&& x.repeat == repeat_read(first_item(b.block_items@, |i: BlockItem| pick_block_repeat(i)))
        },
        HirObject::Register(r) => o matches ObjectOverride::Register(x) && {
            let items = r.register_items@;
            &&& x.name@ == r.identifier@
            &&& x.access == first_item(items, |i: RegisterItem| pick_access(i))
            &&& x.address == opt_i64(first_item(items, |i: RegisterItem| pick_address(i)))
            &&& !x.allow_address_overlap
            &&& match first_item(items, |i: RegisterItem| pick_reset(i)) {
                Some(v) => x.reset_value matches Some(rv) && rv@ == v,
                None => x.reset_value is None,
            }
            &&& x.repeat == repeat_read(first_item(items, |i: RegisterItem| pick_repeat(i)))
        },
        HirObject::Command(c) => o matches ObjectOverride::Command(x) && c.value matches Some(
            HirCommandValue::Extended { items, .. },
        ) && {
            &&& x.name@ == c.identifier@
            &&& x.address == opt_i64(first_item(items@, |i: CommandItem| cmd_address(i)))
            &&& !x.allow_address_overlap
            &&& x.repeat == repeat_read(first_item(items@, |i: CommandItem| cmd_repeat(i)))
        },
        _ => false,
    }
}

/// Whether the ref is read from the written one.
pub open spec fn ref_read(h: HirRefObject, r: RefObject) -> bool {
    &&& r.cfg_attr@ == cfg_of(h.attribute_list)
    &&& r.description@ == joined_lines(doc_lines(h.attribute_list.attributes@))
    &&& r.name@ == h.identifier@
    &&& override_read(*h.object, r.object_override)
}

/// Whether the block itself, without its objects, is read from the written one.
pub open spec fn block_own_read(h: HirBlock, b: Block) -> bool {
    &&& b.cfg_attr@ == cfg_of(h.attribute_list)
    &&& b.description@ == joined_lines(doc_lines(h.attribute_list.attributes@))
    &&& b.name@ == h.identifier@
    &&& b.address_offset == match first_item(h.block_items@, |i: BlockItem| pick_offset(i)) {
        Some(v) => v as i64,
        None => 0,
    }
    &&& b.repeat == repeat_read(first_item(h.block_items@, |i: BlockItem| pick_block_repeat(i)))
}

/// Whether the object is read from the written one with the device's settings.
pub open spec fn object_read(h: HirObject, gc: GlobalConfig, o: Object) -> bool
    decreases h, 0nat,
{
    match h {
        HirObject::Block(b) => o matches Object::Block(x) && block_own_read(b, x) && {
            proof {
                vstd::std_specs::vec::axiom_vec_decreases_to_view(b.objects);
            }
            objects_read(b.objects@, gc, x.objects@)
        },
        HirObject::Register(r) => o matches Object::Register(x) && register_read(r, gc, x),
        HirObject::Command(c) => o matches Object::Command(x) && command_read(c, gc, x),
        HirObject::Buffer(b) => o matches Object::Buffer(x) && buffer_read(b, gc, x),
        HirObject::Ref(r) => o matches Object::Ref(x) && ref_read(r, x),
    }
}

/// Whether the objects are read, one for one, from the written ones.
pub open spec fn objects_read(hs: Seq<HirObject>, gc: GlobalConfig, os: Seq<Object>) -> bool
    decreases hs, 1nat,
{
    &&& hs.len() == os.len()
    &&& hs.len() > 0 ==> object_read(hs[0], gc, os[0]) && objects_read(
        hs.subrange(1, hs.len() as int),
        gc,
        os.subrange(1, os.len() as int),
    )
}

/// The first fault of a written device: its settings, then its objects.
pub open spec fn device_fault(d: HirDevice) -> Option<(HirFault, Seq<char>)> {
    match configs_fault_from(d.global_config_list@, 0) {
        Some(f) => Some((f, Seq::empty())),
        None => objects_fault(d.objects@),
    }
}

/// Whether the device description is read from the written device: no name, the
/// settings the written ones give, and its objects read with those settings.
pub open spec fn device_read(d: HirDevice, x: Device) -> bool {
    &&& x.name is None
    &&& config_view(x.global_config) == configs_result(d.global_config_list@)
    &&& objects_read(d.objects@, x.global_config, x.objects@)
}

/// Finds the first address offset and the first repeat of a block's settings.
fn scan_block_items(items: &Vec<BlockItem>) -> (res: (Option<u128>, Option<HirRepeat>))
    ensures
        res.0 == first_item(items@, |i: BlockItem| pick_offset(i)),
        res.1 == first_item(items@, |i: BlockItem| pick_block_repeat(i)),
{
    let mut offset: Option<u128> = None;
    let mut repeat: Option<HirRepeat> = None;
    let mut i: usize = 0;
    proof {
        assert(items@.take(0) =~= Seq::<BlockItem>::empty());
    }
    while i < items.len()
        invariant
            i <= items@.len(),
            offset == first_item(items@.take(i as int), |i: BlockItem| pick_offset(i)),
            repeat == first_item(items@.take(i as int), |i: BlockItem| pick_block_repeat(i)),
        decreases items@.len() - i,
    {
        proof {
            let next = items@.take(i + 1);
            assert(next.drop_last() =~= items@.take(i as int));
            assert(next.last() == items@[i as int]);
        }
        match items[i] {
            BlockItem::AddressOffset(v) => {
                if offset.is_none() {
                    offset = Some(v);
                }
            },
            BlockItem::Repeat(r) => {
                if repeat.is_none() {
                    repeat = Some(r);
                }
            },
        }
        i = i + 1;
    }
    proof {
        assert(items@.take(items@.len() as int) =~= items@);
    }
    (offset, repeat)
}

/// Finds the first setting a register override may not hold.
fn first_register_problem(items: &Vec<RegisterItem>) -> (res: Option<OverrideProblem>)
    ensures
        res == first_item(items@, |i: RegisterItem| register_override_problem(i)),
{
    let mut i: usize = 0;
    proof {
        assert(items@.take(0) =~= Seq::<RegisterItem>::empty());
    }
    while i < items.len()
        invariant
            i <= items@.len(),
            first_item(items@.take(i as int), |i: RegisterItem| register_override_problem(i)) is None,
        decreases items@.len() - i,
    {
        proof {
            let next = items@.take(i + 1);
            assert(next.drop_last() =~= items@.take(i as int));
            assert(next.last() == items@[i as int]);
            if i + 1 == items@.len() {
                assert(next =~= items@);
            }
            lemma_first_item_prefix(items@, i + 1, |i: RegisterItem| register_override_problem(i));
        }
        let p = match &items[i] {
            RegisterItem::ByteOrder(_) => Some(OverrideProblem::RegisterByteOrder),
            RegisterItem::BitOrder(_) => Some(OverrideProblem::RegisterBitOrder),
            RegisterItem::SizeBits(_) => Some(OverrideProblem::RegisterSizeBits),
            _ => None,
        };
        if p.is_some() {
            return p;
        }
        i = i + 1;
    }
    proof {
        assert(items@.take(items@.len() as int) =~= items@);
    }
    None
}

/// Finds the first setting a command override may not hold.
fn first_command_problem(items: &Vec<CommandItem>) -> (res: Option<OverrideProblem>)
    ensures
        res == first_item(items@, |i: CommandItem| command_override_problem(i)),
{
    let mut i: usize = 0;
    proof {
        assert(items@.take(0) =~= Seq::<CommandItem>::empty());
    }
    while i < items.len()
        invariant
            i <= items@.len(),
            first_item(items@.take(i as int), |i: CommandItem| command_override_problem(i)) is None,
        decreases items@.len() - i,
    {
        proof {
            let next = items@.take(i + 1);
            assert(next.drop_last() =~= items@.take(i as int));
            assert(next.last() == items@[i as int]);
            lemma_first_item_prefix(items@, i + 1, |i: CommandItem| command_override_problem(i));
        }
        let p = match &items[i] {
            CommandItem::ByteOrder(_) => Some(OverrideProblem::CommandByteOrder),
            CommandItem::BitOrder(_) => Some(OverrideProblem::CommandBitOrder),
            CommandItem::SizeBitsIn(_) => Some(OverrideProblem::CommandSizeBitsIn),
            CommandItem::SizeBitsOut(_) => Some(OverrideProblem::CommandSizeBitsOut),
            _ => None,
        };
        if p.is_some() {
            return p;
        }
        i = i + 1;
    }
    proof {
        assert(items@.take(items@.len() as int) =~= items@);
    }
    None
}

/// Once a prefix of the settings has a first pick, the whole list has the same one.
proof fn lemma_first_item_prefix<I, T>(items: Seq<I>, n: int, f: spec_fn(I) -> Option<T>)
    requires
        0 <= n <= items.len(),
    ensures
        first_item(items.take(n), f) is Some ==> first_item(items, f) == first_item(items.take(n), f),
    decreases items.len() - n,
{
    if n < items.len() {
        lemma_first_item_prefix(items, n + 1, f);
        assert(items.take(n + 1).drop_last() =~= items.take(n));
    } else {
        assert(items.take(n) =~= items);
    }
}

/// Reads an optional literal as an `i64`.
fn read_i64(v: Option<u128>) -> (res: Result<Option<i64>, Error>)
    ensures
        match opt_i64_fault(v) {
            Some(f) => res matches Err(e) && fault_error(f, Seq::empty(), e),
            None => res == Ok::<Option<i64>, Error>(opt_i64(v)),
        },
{
    match v {
        None => Ok(None),
        Some(x) => if x > i64::MAX as u128 {
            Err(Error::LiteralTooLarge)
        } else {
            Ok(Some(x as i64))
        },
    }
}

/// Reads an optional repeat: its count as a `u64`, its stride as an `i64`.
fn read_repeat(r: Option<HirRepeat>) -> (res: Result<Option<Repeat>, Error>)
    ensures
        match opt_repeat_fault(r) {
            Some(f) => res matches Err(e) && fault_error(f, Seq::empty(), e),
            None => res == Ok::<Option<Repeat>, Error>(repeat_read(r)),
        },
{
    match r {
        None => Ok(None),
        Some(rp) => if rp.count > u64::MAX as u128 || rp.stride > i64::MAX as u128 {
            Err(Error::LiteralTooLarge)
        } else {
            Ok(Some(Repeat { count: rp.count as u64, stride: rp.stride as i64 }))
        },
    }
}

/// Reads what a ref overrides.
fn transform_override(o: &HirObject, ref_name: &String) -> (res: Result<ObjectOverride, Error>)
    ensures
        match override_fault(*o) {
            Some(f) => res matches Err(e) && fault_error(f, ref_name@, e),
            None => res matches Ok(x) && override_read(*o, x),
        },
{
    match o {
        HirObject::Block(b) => {
            if b.attribute_list.attributes.len() > 0 {
                return Err(Error::InvalidOverride { problem: OverrideProblem::BlockAttributes });
            }
            if b.objects.len() > 0 {
                return Err(Error::InvalidOverride { problem: OverrideProblem::BlockObjects });
            }
            let (offset, repeat) = scan_block_items(&b.block_items);
            let address_offset = match read_i64(offset) {
                Ok(v) => v,
                Err(e) => return Err(e),
            };
            let repeat = match read_repeat(repeat) {
                Ok(v) => v,
                Err(e) => return Err(e),
            };
            Ok(ObjectOverride::Block(BlockOverride { name: b.identifier.clone(), address_offset, repeat }))
        },
        HirObject::Register(r) => {
            if r.attribute_list.attributes.len() > 0 {
                return Err(Error::InvalidOverride { problem: OverrideProblem::RegisterAttributes });
            }
            if r.fields.len() > 0 {
                return Err(Error::InvalidOverride { problem: OverrideProblem::RegisterFields });
            }
            match first_register_problem(&r.register_items) {
                Some(p) => return Err(Error::InvalidOverride { problem: p }),
                None => {},
            }
            let st = scan_items(&r.register_items);
            let address = match read_i64(st.address) {
                Ok(v) => v,
                Err(e) => return Err(e),
            };
            let repeat = match read_repeat(st.repeat) {
                Ok(v) => v,
                Err(e) => return Err(e),
            };
            let reset_value = match st.reset {
                None => None,
                Some(k) => match &r.register_items[k] {
                    RegisterItem::ResetValueInt(v) => Some(ResetValue::Integer(*v)),
                    RegisterItem::ResetValueArray(a) => Some(ResetValue::Array(a.clone())),
                    _ => None,
                },
            };
            Ok(
                ObjectOverride::Register(
                    RegisterOverride {
                        name: r.identifier.clone(),
                        access: st.access,
                        address,
                        allow_address_overlap: false,
                        reset_value,
                        repeat,
                    },
                ),
            )
        },
        HirObject::Command(c) => {
            if c.attribute_list.attributes.len() > 0 {
                return Err(Error::InvalidOverride { problem: OverrideProblem::CommandAttributes });
            }
            let items = match &c.value {
                None => return Err(Error::InvalidOverride { problem: OverrideProblem::CommandNoValue }),
                Some(HirCommandValue::Basic(_)) => return Err(
                    Error::InvalidOverride { problem: OverrideProblem::CommandBasicValue },
                ),
                Some(HirCommandValue::Extended { items, in_fields, out_fields }) => {
                    if in_fields.is_some() {
                        return Err(Error::InvalidOverride { problem: OverrideProblem::CommandInFields });
                    }
                    if out_fields.is_some() {
                        return Err(Error::InvalidOverride { problem: OverrideProblem::CommandOutFields });
                    }
                    items
                },
            };
            match first_command_problem(items) {
                Some(p) => return Err(Error::InvalidOverride { problem: p }),
                None => {},
            }
            let st = scan_command_items(items);
            let address = match read_i64(st.address) {
                Ok(v) => v,
                Err(e) => return Err(e),
            };
            let repeat = match read_repeat(st.repeat) {
                Ok(v) => v,
                Err(e) => return Err(e),
            };
            Ok(
                ObjectOverride::Command(
                    CommandOverride { name: c.identifier.clone(), address, allow_address_overlap: false, repeat },
                ),
            )
        },
        HirObject::Buffer(_) => Err(Error::RefToBuffer { ref_name: ref_name.clone() }),
        HirObject::Ref(_) => Err(Error::RefToRef { ref_name: ref_name.clone() }),
    }
}

/// Reads a written ref.
fn transform_ref(r: &HirRefObject) -> (res: Result<RefObject, Error>)
    ensures
        match ref_fault(*r) {
            Some((f, name)) => res matches Err(e) && fault_error(f, name, e),
            None => res matches Ok(x) && ref_read(*r, x),
        },
{
    let cfg_attr = match get_cfg_attr(&r.attribute_list) {
        Ok(c) => c,
        Err(e) => return Err(e),
    };
    let object_override = match transform_override(&r.object, &r.identifier) {
        Ok(o) => o,
        Err(e) => return Err(e),
    };
    Ok(
        RefObject {
            cfg_attr,
            description: get_description(&r.attribute_list),
            name: r.identifier.clone(),
            object_override,
        },
    )
}

/// Reads a written buffer with the device's settings.
fn transform_buffer(b: &HirBuffer, gc: &GlobalConfig) -> (res: Result<Buffer, Error>)
    ensures
        match buffer_fault(*b) {
            Some((f, name)) => res matches Err(e) && fault_error(f, name, e),
            None => res matches Ok(x) && buffer_read(*b, *gc, x),
        },
{
    let cfg_attr = match get_cfg_attr(&b.attribute_list) {
        Ok(c) => c,
        Err(e) => return Err(e),
    };
    let address = match b.address {
        None => return Err(Error::BufferWithoutAddress { buffer_name: b.identifier.clone() }),
        Some(a) => {
            if a > i64::MAX as u128 {
                return Err(Error::LiteralTooLarge);
            }
            a as i64
        },
    };
    Ok(
        Buffer {
            cfg_attr,
            description: get_description(&b.attribute_list),
            name: b.identifier.clone(),
            access: match b.access {
                Some(a) => a,
                None => gc.default_buffer_access,
            },
            address,
        },
    )
}

/// The objects are read one for one when each is.
proof fn lemma_objects_read_each(hs: Seq<HirObject>, gc: GlobalConfig, os: Seq<Object>)
    requires
        hs.len() == os.len(),
        forall|k: int| 0 <= k < hs.len() ==> object_read(#[trigger] hs[k], gc, os[k]),
    ensures
        objects_read(hs, gc, os),
    decreases hs.len(),
{
    if hs.len() > 0 {
        let h2 = hs.subrange(1, hs.len() as int);
        let o2 = os.subrange(1, os.len() as int);
        assert forall|k: int| 0 <= k < h2.len() implies object_read(#[trigger] h2[k], gc, o2[k]) by {
            assert(h2[k] == hs[k + 1]);
            assert(o2[k] == os[k + 1]);
        }
        lemma_objects_read_each(h2, gc, o2);
        assert(object_read(hs[0], gc, os[0]));
    }
}

/// Reads a written block and the objects in it with the device's settings.
fn transform_block(b: &HirBlock, gc: &GlobalConfig) -> (res: Result<Block, Error>)
    ensures
        match object_fault(HirObject::Block(*b)) {
            Some((f, name)) => res matches Err(e) && fault_error(f, name, e),
            None => res matches Ok(x) && object_read(HirObject::Block(*b), *gc, Object::Block(x)),
        },
    decreases b, 0nat,
{
    let cfg_attr = match get_cfg_attr(&b.attribute_list) {
        Ok(c) => c,
        Err(e) => return Err(e),
    };
    let (offset, repeat) = scan_block_items(&b.block_items);
    let address_offset = match read_i64(offset) {
        Ok(v) => match v {
            Some(x) => x,
            None => 0,
        },
        Err(e) => return Err(e),
    };
    let repeat = match read_repeat(repeat) {
        Ok(v) => v,
        Err(e) => return Err(e),
    };
    proof {
        vstd::std_specs::vec::axiom_vec_decreases_to_view(b.objects);
    }
    let objects = match transform_objects(&b.objects, gc) {
        Ok(v) => v,
        Err(e) => return Err(e),
    };
    Ok(
        Block {
            cfg_attr,
            description: get_description(&b.attribute_list),
            name: b.identifier.clone(),
            address_offset,
            repeat,
            objects,
        },
    )
}

/// Reads a written object with the device's settings.
fn transform_object(o: &HirObject, gc: &GlobalConfig) -> (res: Result<Object, Error>)
    ensures
        match object_fault(*o) {
            Some((f, name)) => res matches Err(e) && fault_error(f, name, e),
            None => res matches Ok(x) && object_read(*o, *gc, x),
        },
    decreases o, 0nat,
{
    match o {
        HirObject::Block(b) => match transform_block(b, gc) {
            Ok(x) => Ok(Object::Block(x)),
            Err(e) => Err(e),
        },
        HirObject::Register(r) => match transform_register(r, gc) {
            Ok(x) => Ok(Object::Register(x)),
            Err(e) => Err(e),
        },
        HirObject::Command(c) => match transform_command(c, gc) {
            Ok(x) => Ok(Object::Command(x)),
            Err(e) => Err(e),
        },
        HirObject::Buffer(b) => match transform_buffer(b, gc) {
            Ok(x) => Ok(Object::Buffer(x)),
            Err(e) => Err(e),
        },
        HirObject::Ref(r) => match transform_ref(r) {
            Ok(x) => Ok(Object::Ref(x)),
            Err(e) => Err(e),
        },
    }
}

/// Reads the written objects in order with the device's settings; the first that is
/// refused gives the error.
fn transform_objects(s: &Vec<HirObject>, gc: &GlobalConfig) -> (res: Result<Vec<Object>, Error>)
    ensures
        match objects_fault(s@) {
            Some((f, name)) => res matches Err(e) && fault_error(f, name, e),
            None => res matches Ok(x) && objects_read(s@, *gc, x@),
        },
    decreases s@, 1nat,
{
    let mut out: Vec<Object> = Vec::new();
    let mut i: usize = 0;
    proof {
        assert(s@.subrange(0, s@.len() as int) =~= s@);
    }
    while i < s.len()
        invariant
            i <= s@.len(),
            out@.len() == i,
            objects_fault(s@) == objects_fault(s@.subrange(i as int, s@.len() as int)),
            forall|k: int| 0 <= k < i ==> object_read(#[trigger] s@[k], *gc, out@[k]),
        decreases s@.len() - i,
    {
        let ghost rest = s@.subrange(i as int, s@.len() as int);
        proof {
            assert(rest[0] == s@[i as int]);
            assert(rest.subrange(1, rest.len() as int) =~= s@.subrange(i + 1, s@.len() as int));
        }
        let x = match transform_object(&s[i], gc) {
            Ok(x) => x,
            Err(e) => return Err(e),
        };
        out.push(x);
        i = i + 1;
    }
    proof {
        lemma_objects_read_each(s@, *gc, out@);
    }
    Ok(out)
}

/// Reads a whole written device: its settings, then its objects with those settings.
/// The first fault, in that order, gives the error.
pub fn transform_dsl_device(d: &HirDevice) -> (res: Result<Device, Error>)
    ensures
        match device_fault(*d) {
            Some((f, name)) => res matches Err(e) && fault_error(f, name, e),
            None => res matches Ok(x) && device_read(*d, x),
        },
{
    let global_config = match transform_global_config(&d.global_config_list) {
        Ok(g) => g,
        Err(e) => return Err(e),
    };
    let objects = match transform_objects(&d.objects, &global_config) {
        Ok(v) => v,
        Err(e) => return Err(e),
    };
    Ok(Device { name: None, global_config, objects })
}

} // verus!
