//! The Rust code of a block: its struct holding the interface and the base address, the
//! methods that reach its registers, commands, buffers and child blocks, and the reading
//! of all its readable registers.

use vstd::prelude::*;

use crate::lir::code_transform::{description_to_docstring, docstring_text};
use crate::lir::enum_generation::{join_texts, Code};
use crate::lir::{Block, BlockMethod, BlockMethodKind, BlockMethodType, BlockMethodTypeV, BlockMethodV, BlockV};
use crate::mir::{Access, Integer};
use crate::text::{decimal, decimal_string};

verus! {

/// The name of an integer type in Rust.
pub open spec fn integer_text(i: Integer) -> Seq<char> {
    match i {
        Integer::U8 => "u8"@,
        Integer::U16 => "u16"@,
        Integer::U32 => "u32"@,
        Integer::U64 => "u64"@,
        Integer::I8 => "i8"@,
        Integer::I16 => "i16"@,
        Integer::I32 => "i32"@,
        Integer::I64 => "i64"@,
    }
}

/// The name of an access.
pub open spec fn access_text(a: Access) -> Seq<char> {
    match a {
        Access::RW => "RW"@,
        Access::RO => "RO"@,
        Access::WO => "WO"@,
    }
}

/// The name of an integer type in Rust.
pub fn integer_name(i: Integer) -> (res: &'static str)
    ensures
        res@ == integer_text(i),
{
    match i {
        Integer::U8 => "u8",
        Integer::U16 => "u16",
        Integer::U32 => "u32",
        Integer::U64 => "u64",
        Integer::I8 => "i8",
        Integer::I16 => "i16",
        Integer::I32 => "i32",
        Integer::I64 => "i64",
    }
}

/// The name of an access.
pub fn access_name(a: Access) -> (res: &'static str)
    ensures
        res@ == access_text(a),
{
    match a {
        Access::RW => "RW",
        Access::RO => "RO",
        Access::WO => "WO",
    }
}

/// The field set type of one side of a command: `()` when the side has none.
pub open spec fn command_side_text(fs: Option<Seq<char>>) -> Seq<char> {
    match fs {
        Some(v) => "field_sets::"@ + v,
        None => "()"@,
    }
}

/// The type of what a method returns.
pub open spec fn return_type_text(t: BlockMethodTypeV) -> Seq<char> {
    match t {
        BlockMethodTypeV::Block { name } => name + "::<'_, I>"@,
        BlockMethodTypeV::Register { field_set_name, access, address_type, .. } =>
            "::device_driver::RegisterOperation::<'_, I, "@ + integer_text(address_type)
            + ", field_sets::"@ + field_set_name + ", ::device_driver::"@ + access_text(access)
            + ">"@,
        BlockMethodTypeV::Command { field_set_name_in, field_set_name_out, address_type } =>
            "::device_driver::CommandOperation::<'_, I, "@ + integer_text(address_type) + ", "@
            + command_side_text(field_set_name_in) + ", "@ + command_side_text(field_set_name_out)
            + ">"@,
        BlockMethodTypeV::Buffer { access, address_type } =>
            "::device_driver::BufferOperation::<'_, I, "@ + integer_text(address_type)
            + ", ::device_driver::"@ + access_text(access) + ">"@,
    }
}

/// How the address is converted to the address type of what the method reaches: not at
/// all for a child block.
pub open spec fn address_conversion_text(t: BlockMethodTypeV) -> Seq<char> {
    match t {
        BlockMethodTypeV::Block { .. } => Seq::empty(),
        BlockMethodTypeV::Register { address_type, .. } => "as "@ + integer_text(address_type),
        BlockMethodTypeV::Command { address_type, .. } => "as "@ + integer_text(address_type),
        BlockMethodTypeV::Buffer { address_type, .. } => "as "@ + integer_text(address_type),
    }
}

/// The function that gives a register its reset value, as the last argument; nothing for
/// the others.
pub open spec fn default_arg_text(t: BlockMethodTypeV) -> Seq<char> {
    match t {
        BlockMethodTypeV::Register { field_set_name, reset_value_function, .. } =>
            ", field_sets::"@ + field_set_name + "::"@ + reset_value_function,
        _ => Seq::empty(),
    }
}

/// The size of the stride, without its sign.
pub open spec fn stride_size(stride: i64) -> int {
    if stride < 0 {
        -stride
    } else {
        stride as int
    }
}

/// The parameter of the method: the index for repeated objects.
pub open spec fn index_param_text(kind: BlockMethodKind) -> Seq<char> {
    match kind {
        BlockMethodKind::Normal => Seq::empty(),
        BlockMethodKind::Repeated { .. } => "index: usize,"@,
    }
}

/// How the method computes the address: the base address plus the method's address, and
/// for repeated objects the checked index times the stride, added or, for a negative
/// stride, subtracted.
pub open spec fn address_calc_text(m: BlockMethodV, internal: Integer) -> Seq<char> {
    match m.kind {
        BlockMethodKind::Normal => "self.base_address + "@ + decimal(m.address as int),
        BlockMethodKind::Repeated { count, stride } => "{\n        assert!(index < "@ + decimal(
            count as int,
        ) + ");\n        self.base_address + "@ + decimal(m.address as int) + (if stride < 0 {
            " - "@
        } else {
            " + "@
        }) + "index as "@ + integer_text(internal) + " * "@ + decimal(stride_size(stride))
            + "\n    }"@,
    }
}

/// The extra documentation of a method for repeated objects: the valid indices.
pub open spec fn index_doc_text(kind: BlockMethodKind) -> Seq<char> {
    match kind {
        BlockMethodKind::Normal => Seq::empty(),
        BlockMethodKind::Repeated { count, .. } => "#[doc = \"\"]\n#[doc = \"Valid index range: 0.."@
            + decimal(count as int) + "\"]\n"@,
    }
}

/// The method of a block that reaches one of its objects, with addresses computed in the
/// internal address type.
pub open spec fn method_text(m: BlockMethodV, internal: Integer) -> Seq<char> {
    let rt = return_type_text(m.method_type);
    "\n"@ + docstring_text(m.description) + "\n"@ + index_doc_text(m.kind) + m.cfg_attr + "\npub fn "@
        + m.name + "(&mut self, "@ + index_param_text(m.kind) + ") -> "@ + rt
        + " {\n    let address = "@ + address_calc_text(m, internal) + ";\n    "@ + rt
        + "::new(self.interface(), address "@ + address_conversion_text(m.method_type) + " "@
        + default_arg_text(m.method_type) + ")\n}\n"@
}

/// Adds the decimal text of the number.
fn add_number(c: &mut Code, v: i128)
    ensures
        final(c).s@ == old(c).s@ + decimal(v as int),
{
    let d = decimal_string(v);
    c.add(d.as_str());
}

/// Adds the field set type of one side of a command.
fn add_command_side(c: &mut Code, fs: &Option<String>)
    ensures
        final(c).s@ == old(c).s@ + command_side_text(
            match fs {
                Some(v) => Some(v@),
                None => None,
            },
        ),
{
    match fs {
        Some(v) => {
            c.add("field_sets::");
            c.add(v.as_str());
        },
        None => c.add("()"),
    }
}

/// The type of what a method returns.
fn return_type(t: &BlockMethodType) -> (res: String)
    ensures
        res@ == return_type_text(t@),
{
    let mut c = Code::new();
    match t {
        BlockMethodType::Block { name } => {
            c.add(name.as_str());
            c.add("::<'_, I>");
        },
        BlockMethodType::Register { field_set_name, access, address_type, .. } => {
            c.add("::device_driver::RegisterOperation::<'_, I, ");
            c.add(integer_name(*address_type));
            c.add(", field_sets::");
            c.add(field_set_name.as_str());
            c.add(", ::device_driver::");
            c.add(access_name(*access));
            c.add(">");
        },
        BlockMethodType::Command { field_set_name_in, field_set_name_out, address_type } => {
            c.add("::device_driver::CommandOperation::<'_, I, ");
            c.add(integer_name(*address_type));
            c.add(", ");
            add_command_side(&mut c, field_set_name_in);
            c.add(", ");
            add_command_side(&mut c, field_set_name_out);
            c.add(">");
        },
        BlockMethodType::Buffer { access, address_type } => {
            c.add("::device_driver::BufferOperation::<'_, I, ");
            c.add(integer_name(*address_type));
            c.add(", ::device_driver::");
            c.add(access_name(*access));
            c.add(">");
        },
    }
    c.s
}

/// Adds how the address is converted and the reset value argument.
#[verifier::rlimit(50)]
fn add_call_tail(c: &mut Code, t: &BlockMethodType)
    ensures
        final(c).s@ == old(c).s@ + address_conversion_text(t@) + " "@ + default_arg_text(t@),
{
    let ghost s0 = c.s@;
    match t {
        BlockMethodType::Block { .. } => {
            c.add(" ");
        },
        BlockMethodType::Register { field_set_name, address_type, reset_value_function, .. } => {
            c.add("as ");
            c.add(integer_name(*address_type));
            c.add(" ");
            c.add(", field_sets::");
            c.add(field_set_name.as_str());
            c.add("::");
            c.add(reset_value_function.as_str());
        },
        BlockMethodType::Command { address_type, .. } => {
            c.add("as ");
            c.add(integer_name(*address_type));
            c.add(" ");
        },
        BlockMethodType::Buffer { address_type, .. } => {
            c.add("as ");
            c.add(integer_name(*address_type));
            c.add(" ");
        },
    }
    proof {
        assert(c.s@ =~= s0 + address_conversion_text(t@) + " "@ + default_arg_text(t@));
    }
}

/// Adds how the method computes the address.
#[verifier::rlimit(50)]
fn add_address_calc(c: &mut Code, m: &BlockMethod, internal: Integer)
    ensures
        final(c).s@ == old(c).s@ + address_calc_text(m@, internal),
{
    let ghost s0 = c.s@;
    match m.kind {
        BlockMethodKind::Normal => {
            c.add("self.base_address + ");
            add_number(c, m.address as i128);
        },
        BlockMethodKind::Repeated { count, stride } => {
            c.add("{\n        assert!(index < ");
            add_number(c, count as i128);
            c.add(");\n        self.base_address + ");
            add_number(c, m.address as i128);
            let size: i128 = if stride < 0 {
                c.add(" - ");
                -(stride as i128)
            } else {
                c.add(" + ");
                stride as i128
            };
            c.add("index as ");
            c.add(integer_name(internal));
            c.add(" * ");
            add_number(c, size);
            c.add("\n    }");
        },
    }
    proof {
        assert(c.s@ =~= s0 + address_calc_text(m@, internal));
    }
}

/// The method of a block that reaches one of its objects: see [`method_text`].
#[verifier::rlimit(50)]
pub fn generate_method(method: &BlockMethod, internal_address_type: Integer) -> (res: String)
    ensures
        res@ == method_text(method@, internal_address_type),
{
    let doc = description_to_docstring(method.description.as_str());
    let rt = return_type(&method.method_type);
    let mut c = Code::new();
    c.add("\n");
    c.add(doc.as_str());
    c.add("\n");
    match method.kind {
        BlockMethodKind::Normal => {},
        BlockMethodKind::Repeated { count, .. } => {
            c.add("#[doc = \"\"]\n#[doc = \"Valid index range: 0..");
            add_number(&mut c, count as i128);
            c.add("\"]\n");
        },
    }
    c.add(method.cfg_attr.as_str());
    c.add("\npub fn ");
    c.add(method.name.as_str());
    c.add("(&mut self, ");
    match method.kind {
        BlockMethodKind::Normal => {},
        BlockMethodKind::Repeated { .. } => c.add("index: usize,"),
    }
    c.add(") -> ");
    c.add(rt.as_str());
    c.add(" {\n    let address = ");
    add_address_calc(&mut c, method, internal_address_type);
    c.add(";\n    ");
    c.add(rt.as_str());
    c.add("::new(self.interface(), address ");
    add_call_tail(&mut c, &method.method_type);
    c.add(")\n}\n");
    proof {
        assert(c.s@ =~= method_text(method@, internal_address_type));
    }
    c.s
}

/// The reading of one register in the reading of all registers: the register at the
/// index for repeated ones, passed on to the callback with its address and name.
pub open spec fn read_item_text(m: BlockMethodV, index: int, repeated: bool, stride: i64, is_async: bool) -> Seq<char> {
    "\n"@ + m.cfg_attr + "\nlet reg = self."@ + m.name + "("@ + (if repeated {
        decimal(index)
    } else {
        Seq::empty()
    }) + ")."@ + (if is_async {
        "read_async().await"@
    } else {
        "read()"@
    }) + "?;\n"@ + m.cfg_attr + "\ncallback("@ + decimal(m.address as int) + " + "@ + decimal(index)
        + " * "@ + decimal(stride as int) + ", \""@ + (if repeated {
        m.name + "["@ + decimal(index) + "]"@
    } else {
        m.name
    }) + "\", reg.into());\n"@
}

/// Whether the method reaches a register that can be read.
pub open spec fn reads_register(m: BlockMethodV) -> bool {
    match m.method_type {
        BlockMethodTypeV::Register { access, .. } => access.spec_is_readable(),
        _ => false,
    }
}

/// The readings of the registers a method reaches: one for each index of repeated
/// registers, none for what is not a readable register.
pub open spec fn method_read_items(m: BlockMethodV, is_async: bool) -> Seq<Seq<char>> {
    if reads_register(m) {
        match m.kind {
            BlockMethodKind::Normal => Seq::new(1, |k: int| read_item_text(m, k, false, 0, is_async)),
            BlockMethodKind::Repeated { count, stride } => Seq::new(
                count as nat,
                |k: int| read_item_text(m, k, true, stride, is_async),
            ),
        }
    } else {
        Seq::empty()
    }
}

/// The readings of the registers of all methods, in order.
pub open spec fn read_items(ms: Seq<BlockMethodV>, is_async: bool) -> Seq<Seq<char>>
    decreases ms.len(),
{
    if ms.len() == 0 {
        Seq::empty()
    } else {
        read_items(ms.drop_last(), is_async) + method_read_items(ms.last(), is_async)
    }
}

/// The documentation of the reading of all registers.
pub open spec fn read_all_docs() -> Seq<char> {
    "\n    /// Read all readable register values in this block from the device.\n    /// The callback is called for each of them.\n    /// Any registers in child blocks are not included.\n    ///\n    /// The callback has three arguments:\n    ///\n    /// - The address of the register\n    /// - The name of the register (with index for repeated registers)\n    /// - The read value from the register\n    ///\n    /// This is useful for e.g. debug printing all values.\n    /// The given [field_sets::FieldSetValue] has a Debug and Format implementation that forwards to the concrete type\n    /// the lies within so it can be printed without matching on it.\n"@
}

/// The reading of all readable registers of the block, with the callback.
pub open spec fn read_all_text(b: BlockV, rt: Seq<char>, is_async: bool) -> Seq<char> {
    "\n"@ + read_all_docs() + "    pub "@ + (if is_async {
        "async "@
    } else {
        Seq::empty()
    }) + "fn read_all_registers"@ + (if is_async {
        "_async"@
    } else {
        Seq::empty()
    }) + "(\n        &mut self,\n        mut callback: impl FnMut("@ + rt
        + ", &'static str, field_sets::FieldSetValue)\n    ) -> Result<(), I::Error>\n        where I: ::device_driver::"@
        + (if is_async {
        "AsyncRegisterInterface"@
    } else {
        "RegisterInterface"@
    }) + "<AddressType = "@ + rt + ">\n    {\n        "@ + join_texts(read_items(b.methods, is_async), "\n"@)
        + "\n        Ok(())\n    }\n"@
}

/// The generic parameters of the block: a child block borrows the interface for `'i`.
pub open spec fn block_generics(root: bool) -> Seq<char> {
    if root {
        "I"@
    } else {
        "'i, I"@
    }
}

/// The type of the interface the block holds: the root block owns it.
pub open spec fn block_interface(root: bool) -> Seq<char> {
    if root {
        "I"@
    } else {
        "&'i mut I"@
    }
}

/// The struct of the block, with its interface and its base address.
pub open spec fn block_struct_text(b: BlockV, internal: Integer) -> Seq<char> {
    "\n"@ + docstring_text(b.description) + "\n"@ + b.cfg_attr + "\n#[derive(Debug)]\npub struct "@
        + b.name + "<"@ + block_generics(b.root) + "> {\n    pub(crate) interface: "@ + block_interface(
        b.root,
    ) + ",\n    #[doc(hidden)]\n    base_address: "@ + integer_text(internal) + ",\n}\n\n"@
}

/// The start of the impl of the block: its constructor, public for the root block,
/// which starts at address 0, and hidden for a child block, which gets its base address;
/// and the access to the interface.
pub open spec fn block_impl_start_text(b: BlockV, internal: Integer) -> Seq<char> {
    let generics = block_generics(b.root);
    b.cfg_attr + "\nimpl<"@ + generics + "> "@ + b.name + "<"@ + generics
        + "> {\n    /// Create a new instance of the block based on device interface\n    "@ + (if b.root {
        Seq::empty()
    } else {
        "#[doc(hidden)]"@
    }) + "\n    "@ + (if b.root {
        "pub const"@
    } else {
        " "@
    }) + " fn new(interface: "@ + block_interface(b.root) + ", "@ + (if b.root {
        Seq::empty()
    } else {
        "base_address: "@ + integer_text(internal)
    }) + ") -> Self {\n        Self {\n            interface,\n            base_address: "@ + (if b.root {
        "0"@
    } else {
        "base_address"@
    })
        + ",\n        }\n    }\n\n    /// A reference to the interface used to communicate with the device\n    pub(crate) fn interface(&mut self) -> &mut I {\n        "@
        + (if b.root {
        "&mut self.interface"@
    } else {
        "self.interface"@
    }) + "\n    }\n"@
}

/// The struct of the block and the start of its impl.
pub open spec fn block_head_text(b: BlockV, internal: Integer) -> Seq<char> {
    block_struct_text(b, internal) + block_impl_start_text(b, internal)
}

/// The code of a block with addresses computed in the internal address type and
/// registers addressed by the register address type: its struct, its constructor, the
/// reading of all its readable registers, and its methods.
#[verifier::opaque]
pub open spec fn block_text(b: BlockV, internal: Integer, register_address_type: Integer) -> Seq<char> {
    let rt = integer_text(register_address_type);
    block_head_text(b, internal) + read_all_text(b, rt, false) + read_all_text(b, rt, true) + "\n    "@
        + join_texts(b.methods.map_values(|m: BlockMethodV| method_text(m, internal)), "\n"@) + "\n}\n"@
}

/// Whether the counts of the repeated readable registers are numbers of the reading code.
pub open spec fn read_counts_fit(ms: Seq<BlockMethodV>) -> bool {
    forall|i: int|
        0 <= i < ms.len() && reads_register(#[trigger] ms[i]) ==> (ms[i].kind matches BlockMethodKind::Repeated {
            count,
            ..
        } ==> count <= i64::MAX)
}

/// Adds the piece to the texts joined so far.
pub(crate) fn push_joined(
    c: &mut Code,
    piece: &str,
    sep: &str,
    first: bool,
    Ghost(items): Ghost<Seq<Seq<char>>>,
    Ghost(start): Ghost<Seq<char>>,
)
    requires
        old(c).s@ == start + join_texts(items, sep@),
        first == (items.len() == 0),
    ensures
        final(c).s@ == start + join_texts(items.push(piece@), sep@),
{
    let ghost next = items.push(piece@);
    proof {
        assert(next.drop_last() =~= items);
    }
    if !first {
        c.add(sep);
    }
    c.add(piece);
    proof {
        if first {
            assert(next.len() == 1);
            assert(c.s@ =~= start + join_texts(next, sep@));
        } else {
            assert(c.s@ =~= start + join_texts(next, sep@));
        }
    }
}

/// The reading of one register in the reading of all registers.
#[verifier::rlimit(50)]
fn read_item(m: &BlockMethod, index: u64, repeated: bool, stride: i64, is_async: bool) -> (res: String)
    requires
        index <= i64::MAX,
    ensures
        res@ == read_item_text(m@, index as int, repeated, stride, is_async),
{
    let mut c = Code::new();
    c.add("\n");
    c.add(m.cfg_attr.as_str());
    c.add("\nlet reg = self.");
    c.add(m.name.as_str());
    c.add("(");
    if repeated {
        add_number(&mut c, index as i128);
    }
    c.add(").");
    if is_async {
        c.add("read_async().await");
    } else {
        c.add("read()");
    }
    c.add("?;\n");
    c.add(m.cfg_attr.as_str());
    c.add("\ncallback(");
    add_number(&mut c, m.address as i128);
    c.add(" + ");
    add_number(&mut c, index as i128);
    c.add(" * ");
    add_number(&mut c, stride as i128);
    c.add(", \"");
    c.add(m.name.as_str());
    if repeated {
        c.add("[");
        add_number(&mut c, index as i128);
        c.add("]");
    }
    c.add("\", reg.into());\n");
    proof {
        assert(c.s@ =~= read_item_text(m@, index as int, repeated, stride, is_async));
    }
    c.s
}

/// Whether the method reaches a register that can be read.
fn is_read_register(m: &BlockMethod) -> (res: bool)
    ensures
        res == reads_register(m@),
{
    match &m.method_type {
        BlockMethodType::Register { access, .. } => match access {
            Access::WO => false,
            _ => true,
        },
        _ => false,
    }
}

/// Adds the readings of the registers of all methods, separated by line breaks.
#[verifier::rlimit(50)]
fn add_read_items(c: &mut Code, ms: &Vec<BlockMethod>, is_async: bool)
    requires
        read_counts_fit(ms@.map_values(|m: BlockMethod| m@)),
    ensures
        final(c).s@ == old(c).s@ + join_texts(
            read_items(ms@.map_values(|m: BlockMethod| m@), is_async),
            "\n"@,
        ),
{
    let ghost start = c.s@;
    let ghost mv = ms@.map_values(|m: BlockMethod| m@);
    let mut any = false;
    let mut i: usize = 0;
    proof {
        assert(mv.take(0) =~= Seq::<BlockMethodV>::empty());
        assert(start + Seq::<char>::empty() =~= start);
    }
    while i < ms.len()
        invariant
            i <= ms@.len(),
            mv == ms@.map_values(|m: BlockMethod| m@),
            read_counts_fit(mv),
            c.s@ == start + join_texts(read_items(mv.take(i as int), is_async), "\n"@),
            any == (read_items(mv.take(i as int), is_async).len() > 0),
        decreases ms@.len() - i,
    {
        let m = &ms[i];
        let ghost before = read_items(mv.take(i as int), is_async);
        let ghost mine = method_read_items(m@, is_async);
        proof {
            assert(mv.take(i + 1).drop_last() =~= mv.take(i as int));
            assert(mv.take(i + 1).last() == m@);
            assert(read_items(mv.take(i + 1), is_async) == before + mine);
        }
        if is_read_register(m) {
            let (count, stride, repeated) = match m.kind {
                BlockMethodKind::Normal => (1u64, 0i64, false),
                BlockMethodKind::Repeated { count, stride } => (count, stride, true),
            };
            proof {
                assert(mv[i as int] == m@);
                assert(reads_register(mv[i as int]));
                assert(mine.len() == count);
                assert(before + mine.take(0) =~= before);
            }
            let mut k: u64 = 0;
            while k < count
                invariant
                    k <= count,
                    count <= i64::MAX,
                    mine == method_read_items(m@, is_async),
                    mine.len() == count,
                    forall|j: int|
                        0 <= j < count ==> #[trigger] mine[j] == read_item_text(
                            m@,
                            j,
                            repeated,
                            stride,
                            is_async,
                        ),
                    c.s@ == start + join_texts(before + mine.take(k as int), "\n"@),
                    any == ((before + mine.take(k as int)).len() > 0),
                decreases count - k,
            {
                let piece = read_item(m, k, repeated, stride, is_async);
                push_joined(
                    c,
                    piece.as_str(),
                    "\n",
                    !any,
                    Ghost(before + mine.take(k as int)),
                    Ghost(start),
                );
                proof {
                    assert((before + mine.take(k as int)).push(piece@) =~= before + mine.take(k + 1));
                }
                any = true;
                k = k + 1;
            }
            proof {
                assert(mine.take(count as int) =~= mine);
            }
        } else {
            proof {
                assert(before + mine =~= before);
            }
        }
        i = i + 1;
    }
    proof {
        assert(mv.take(ms@.len() as int) =~= mv);
    }
}

/// Adds the reading of all readable registers of the block.
#[verifier::rlimit(50)]
fn add_read_all(c: &mut Code, b: &Block, rt: &str, is_async: bool)
    requires
        read_counts_fit(b@.methods),
    ensures
        final(c).s@ == old(c).s@ + read_all_text(b@, rt@, is_async),
{
    let ghost s0 = c.s@;
    c.add("\n");
    c.add("\n    /// Read all readable register values in this block from the device.\n    /// The callback is called for each of them.\n    /// Any registers in child blocks are not included.\n    ///\n    /// The callback has three arguments:\n    ///\n    /// - The address of the register\n    /// - The name of the register (with index for repeated registers)\n    /// - The read value from the register\n    ///\n    /// This is useful for e.g. debug printing all values.\n    /// The given [field_sets::FieldSetValue] has a Debug and Format implementation that forwards to the concrete type\n    /// the lies within so it can be printed without matching on it.\n");
    c.add("    pub ");
    if is_async {
        c.add("async ");
    }
    c.add("fn read_all_registers");
    if is_async {
        c.add("_async");
    }
    c.add("(\n        &mut self,\n        mut callback: impl FnMut(");
    c.add(rt);
    c.add(
        ", &'static str, field_sets::FieldSetValue)\n    ) -> Result<(), I::Error>\n        where I: ::device_driver::",
    );
    if is_async {
        c.add("AsyncRegisterInterface");
    } else {
        c.add("RegisterInterface");
    }
    c.add("<AddressType = ");
    c.add(rt);
    c.add(">\n    {\n        ");
    add_read_items(c, &b.methods, is_async);
    c.add("\n        Ok(())\n    }\n");
    proof {
        assert(c.s@ =~= s0 + read_all_text(b@, rt@, is_async));
    }
}

/// The generic parameters of the block.
fn generics_of(root: bool) -> (res: &'static str)
    ensures
        res@ == block_generics(root),
{
    if root {
        "I"
    } else {
        "'i, I"
    }
}

/// The type of the interface the block holds.
fn interface_of(root: bool) -> (res: &'static str)
    ensures
        res@ == block_interface(root),
{
    if root {
        "I"
    } else {
        "&'i mut I"
    }
}

/// Adds the struct of the block.
#[verifier::rlimit(50)]
fn add_block_struct(c: &mut Code, b: &Block, internal: Integer)
    ensures
        final(c).s@ == old(c).s@ + block_struct_text(b@, internal),
{
    let ghost s0 = c.s@;
    let doc = description_to_docstring(b.description.as_str());
    c.add("\n");
    c.add(doc.as_str());
    c.add("\n");
    c.add(b.cfg_attr.as_str());
    c.add("\n#[derive(Debug)]\npub struct ");
    c.add(b.name.as_str());
    c.add("<");
    c.add(generics_of(b.root));
    c.add("> {\n    pub(crate) interface: ");
    c.add(interface_of(b.root));
    c.add(",\n    #[doc(hidden)]\n    base_address: ");
    c.add(integer_name(internal));
    c.add(",\n}\n\n");
    proof {
        assert(c.s@ =~= s0 + block_struct_text(b@, internal));
    }
}

/// Adds the start of the impl of the block.
#[verifier::rlimit(50)]
fn add_block_impl_start(c: &mut Code, b: &Block, internal: Integer)
    ensures
        final(c).s@ == old(c).s@ + block_impl_start_text(b@, internal),
{
    let ghost s0 = c.s@;
    let generics = generics_of(b.root);
    c.add(b.cfg_attr.as_str());
    c.add("\nimpl<");
    c.add(generics);
    c.add("> ");
    c.add(b.name.as_str());
    c.add("<");
    c.add(generics);
    c.add("> {\n    /// Create a new instance of the block based on device interface\n    ");
    let ghost s1 = c.s@;
    if b.root {
        c.add("\n    ");
        c.add("pub const");
        c.add(" fn new(interface: ");
        c.add(interface_of(b.root));
        c.add(", ");
        c.add(") -> Self {\n        Self {\n            interface,\n            base_address: ");
        c.add("0");
    } else {
        c.add("#[doc(hidden)]");
        c.add("\n    ");
        c.add(" ");
        c.add(" fn new(interface: ");
        c.add(interface_of(b.root));
        c.add(", ");
        c.add("base_address: ");
        c.add(integer_name(internal));
        c.add(") -> Self {\n        Self {\n            interface,\n            base_address: ");
        c.add("base_address");
    }
    c.add(
        ",\n        }\n    }\n\n    /// A reference to the interface used to communicate with the device\n    pub(crate) fn interface(&mut self) -> &mut I {\n        ",
    );
    if b.root {
        c.add("&mut self.interface");
    } else {
        c.add("self.interface");
    }
    c.add("\n    }\n");
    proof {
        assert(c.s@ =~= s0 + block_impl_start_text(b@, internal));
    }
}

/// Adds the struct of the block and the start of its impl.
#[verifier::rlimit(50)]
fn add_block_head(c: &mut Code, b: &Block, internal: Integer)
    ensures
        final(c).s@ == old(c).s@ + block_head_text(b@, internal),
{
    let ghost s0 = c.s@;
    add_block_struct(c, b, internal);
    add_block_impl_start(c, b, internal);
    proof {
        assert(c.s@ =~= s0 + block_head_text(b@, internal));
    }
}

/// Adds the methods of the block, separated by line breaks.
#[verifier::rlimit(50)]
fn add_methods(c: &mut Code, ms: &Vec<BlockMethod>, internal: Integer)
    ensures
        final(c).s@ == old(c).s@ + join_texts(
            ms@.map_values(|m: BlockMethod| m@).map_values(|m: BlockMethodV| method_text(m, internal)),
            "\n"@,
        ),
{
    let ghost start = c.s@;
    let ghost mv = ms@.map_values(|m: BlockMethod| m@);
    let ghost f = |m: BlockMethodV| method_text(m, internal);
    let mut i: usize = 0;
    proof {
        assert(mv.take(0).map_values(f) =~= Seq::<Seq<char>>::empty());
        assert(start + Seq::<char>::empty() =~= start);
    }
    while i < ms.len()
        invariant
            i <= ms@.len(),
            mv == ms@.map_values(|m: BlockMethod| m@),
            f == (|m: BlockMethodV| method_text(m, internal)),
            c.s@ == start + join_texts(mv.take(i as int).map_values(f), "\n"@),
        decreases ms@.len() - i,
    {
        let text = generate_method(&ms[i], internal);
        push_joined(c, text.as_str(), "\n", i == 0, Ghost(mv.take(i as int).map_values(f)), Ghost(start));
        proof {
            assert(mv.take(i as int).map_values(f).push(text@) =~= mv.take(i + 1).map_values(f));
        }
        i = i + 1;
    }
    proof {
        assert(mv.take(ms@.len() as int) =~= mv);
    }
}

/// The code of a block: see [`block_text`].
#[verifier::rlimit(50)]
pub fn generate_block(value: &Block, internal_address_type: Integer, register_address_type: Integer) -> (res: String)
    requires
        read_counts_fit(value@.methods),
    ensures
        res@ == block_text(value@, internal_address_type, register_address_type),
{
    let rt = integer_name(register_address_type);
    let mut c = Code::new();
    add_block_head(&mut c, value, internal_address_type);
    add_read_all(&mut c, value, rt, false);
    add_read_all(&mut c, value, rt, true);
    c.add("\n    ");
    add_methods(&mut c, &value.methods, internal_address_type);
    c.add("\n}\n");
    proof {
        reveal(block_text);
        assert(c.s@ =~= block_text(value@, internal_address_type, register_address_type));
    }
    c.s
}

/// Different accesses are written differently.
pub proof fn lemma_access_text_distinct(a: Access, b: Access)
    ensures
        access_text(a) == access_text(b) <==> a == b,
        access_text(a).len() == 2,
{
    reveal_strlit("RW");
    reveal_strlit("RO");
    reveal_strlit("WO");
    if a != b {
        assert(access_text(a)[0] != access_text(b)[0] || access_text(a)[1] != access_text(b)[1]);
    }
}

/// The part of `p + x + q` after `p` that is as long as `x` is `x`.
proof fn lemma_middle(p: Seq<char>, x: Seq<char>, q: Seq<char>)
    ensures
        (p + x + q).subrange(p.len() as int, (p.len() + x.len()) as int) == x,
{
    assert((p + x + q).subrange(p.len() as int, (p.len() + x.len()) as int) =~= x);
}

/// The operation type of a register or buffer method names the object's own access:
/// two methods that differ only in access get different operation types, so a
/// write-only register never gets a type that reads.
pub proof fn lemma_operation_names_access(t1: BlockMethodTypeV, t2: BlockMethodTypeV)
    requires
        (t1 matches BlockMethodTypeV::Register { field_set_name: f1, access: _, address_type: at1, reset_value_function: r1 }
            && t2 matches BlockMethodTypeV::Register { field_set_name: f2, access: _, address_type: at2, reset_value_function: r2 }
            && f1 == f2 && at1 == at2 && r1 == r2) || (t1 matches BlockMethodTypeV::Buffer { access: _, address_type: at1 }
            && t2 matches BlockMethodTypeV::Buffer { access: _, address_type: at2 } && at1 == at2),
        return_type_text(t1) == return_type_text(t2),
    ensures
        t1 == t2,
{
    match (t1, t2) {
        (
            BlockMethodTypeV::Register { field_set_name, access: a1, address_type, reset_value_function: _ },
            BlockMethodTypeV::Register { access: a2, .. },
        ) => {
            let p = "::device_driver::RegisterOperation::<'_, I, "@ + integer_text(address_type)
                + ", field_sets::"@ + field_set_name + ", ::device_driver::"@;
            lemma_access_text_distinct(a1, a2);
            assert(return_type_text(t1) == p + access_text(a1) + ">"@);
            assert(return_type_text(t2) == p + access_text(a2) + ">"@);
            lemma_middle(p, access_text(a1), ">"@);
            lemma_middle(p, access_text(a2), ">"@);
        },
        (BlockMethodTypeV::Buffer { access: a1, address_type }, BlockMethodTypeV::Buffer { access: a2, .. }) => {
            let p = "::device_driver::BufferOperation::<'_, I, "@ + integer_text(address_type)
                + ", ::device_driver::"@;
            lemma_access_text_distinct(a1, a2);
            assert(return_type_text(t1) == p + access_text(a1) + ">"@);
            assert(return_type_text(t2) == p + access_text(a2) + ">"@);
            lemma_middle(p, access_text(a1), ">"@);
            lemma_middle(p, access_text(a2), ">"@);
        },
        _ => {},
    }
}

/// Different integer types are written differently.
pub proof fn lemma_integer_text_distinct(a: Integer, b: Integer)
    ensures
        integer_text(a) == integer_text(b) <==> a == b,
{
    reveal_strlit("u8");
    reveal_strlit("u16");
    reveal_strlit("u32");
    reveal_strlit("u64");
    reveal_strlit("i8");
    reveal_strlit("i16");
    reveal_strlit("i32");
    reveal_strlit("i64");
    if a != b && integer_text(a) == integer_text(b) {
        let x = integer_text(a);
        let y = integer_text(b);
        assert(x.len() == y.len());
        assert(x[0] == y[0]);
        assert(x[1] == y[1]);
        if x.len() == 3 {
            assert(x[2] == y[2]);
        }
    }
}

/// A method for repeated objects steps through them with the stride's sign: a negative
/// stride subtracts the index times its size where a positive one of the same size adds
/// it, so the two give different address computations.
pub proof fn lemma_stride_sign_kept(m: BlockMethodV, internal: Integer, count: u64, s: i64)
    requires
        s > 0,
    ensures
        address_calc_text(BlockMethodV { kind: BlockMethodKind::Repeated { count, stride: s }, ..m }, internal)
            != address_calc_text(
            BlockMethodV { kind: BlockMethodKind::Repeated { count, stride: (-s) as i64 }, ..m },
            internal,
        ),
{
    reveal_strlit(" - ");
    reveal_strlit(" + ");
    let p = "{\n        assert!(index < "@ + decimal(count as int) + ");\n        self.base_address + "@ + decimal(
        m.address as int,
    );
    let q = "index as "@ + integer_text(internal) + " * "@ + decimal(s as int) + "\n    }"@;
    let m1 = BlockMethodV { kind: BlockMethodKind::Repeated { count, stride: s }, ..m };
    let m2 = BlockMethodV { kind: BlockMethodKind::Repeated { count, stride: (-s) as i64 }, ..m };
    assert(address_calc_text(m1, internal) =~= p + " + "@ + q);
    assert(address_calc_text(m2, internal) =~= p + " - "@ + q);
    lemma_middle(p, " + "@, q);
    lemma_middle(p, " - "@, q);
    assert(" + "@[1] != " - "@[1]);
}

} // verus!
