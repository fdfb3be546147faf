//! The Rust code of a register of the register macro: its register type, the reader and
//! writer types with a method per field, and the types its fields convert to. Where the
//! description is wrong, the code is a compile error that says why.

use vstd::prelude::*;

use crate::case::{case_converted, convert_name, TargetCase};
use crate::deserialization::{zeros, ResetValue};
use crate::error::{escape_text, escaped};
use crate::lir::enum_generation::{concat_texts, join_texts, Code};
use crate::mir::{default_boundaries, default_word_boundaries, ByteOrder};
use crate::text::{decimal, decimal_string};

verus! {

/// A field of a register: where its bits are, the type the register stores it as, and
/// the type it converts to, if any.
pub struct FieldDef {
    pub name: String,
    pub description: Option<String>,
    /// The type the field converts to, where the conversion may fail.
    pub conversion: Option<String>,
    /// The type the field converts to, where the conversion can't fail.
    pub strict_conversion: Option<String>,
    /// The Rust type the register stores the field as.
    pub register_type: String,
    /// Whether the field is a single bit stored as a `bool`.
    pub is_bool: bool,
    pub start: u32,
    pub end: Option<u32>,
    pub attributes: Vec<String>,
    /// The definition of the type the field converts to, when the field brings one along.
    pub type_definition: Option<String>,
}

/// A register: its size, address and access, its reset value and its fields.
pub struct RegisterDef {
    pub name: String,
    pub size_bits: u64,
    pub address: u64,
    /// The Rust type that says how the register may be accessed.
    pub rw_type: String,
    pub description: Option<String>,
    pub reset_value: Option<ResetValue>,
    pub fields: Vec<FieldDef>,
    pub byte_order: Option<ByteOrder>,
    pub cfg_attributes: Vec<String>,
}

/// An optional text as a mathematical value.
pub open spec fn opt_text(o: Option<String>) -> Option<Seq<char>> {
    match o {
        Some(s) => Some(s@),
        None => None,
    }
}

/// The name in snake case.
pub open spec fn snake_text(name: Seq<char>) -> Seq<char> {
    case_converted(name, default_word_boundaries(), TargetCase::Snake)
}

/// The name in Pascal case.
pub open spec fn pascal_text(name: Seq<char>) -> Seq<char> {
    case_converted(name, default_word_boundaries(), TargetCase::Pascal)
}

/// The doc attribute with the text, if there is one.
pub open spec fn doc_attr_text(d: Option<Seq<char>>) -> Seq<char> {
    match d {
        Some(s) => "#[doc = \""@ + escaped(s) + "\"]\n"@,
        None => Seq::empty(),
    }
}

/// The lines one after the other, each ended by a newline.
pub open spec fn lines_text(items: Seq<String>) -> Seq<char> {
    concat_texts(items.map_values(|a: String| a@ + "\n"@))
}

/// The code that fails to compile with the message.
pub open spec fn compile_error_text(msg: Seq<char>) -> Seq<char> {
    "::core::compile_error! { \""@ + escaped(msg) + "\" }\n"@
}

/// The error for a field with a conversion that may fail and one that can't.
pub open spec fn both_conversions_message(name: Seq<char>) -> Seq<char> {
    "Cannot have strict and non-strict conversion for field `"@ + name + "`"@
}

/// Whether the field has both a conversion that may fail and one that can't.
pub open spec fn has_both_conversions(f: FieldDef) -> bool {
    f.conversion is Some && f.strict_conversion is Some
}

/// The type the field converts to, and whether the conversion can't fail.
pub open spec fn chosen_conversion(f: FieldDef) -> Option<(Seq<char>, bool)> {
    match f.conversion {
        Some(c) => Some((c@, false)),
        None => match f.strict_conversion {
            Some(c) => Some((c@, true)),
            None => None,
        },
    }
}

/// Whether a bool field ends where it should: nowhere, or one bit after its start.
pub open spec fn bool_end_ok(f: FieldDef) -> bool {
    match f.end {
        Some(e) => e == f.start + 1,
        None => true,
    }
}

/// The error for a bool field that is wider than one bit.
pub open spec fn wide_bool_message(fname: Seq<char>) -> Seq<char> {
    "Registers "@ + fname + " is a bool and must have no end or an end that is only 1 more than start"@
}

/// The error for a field without an end.
pub open spec fn no_end_message(fname: Seq<char>) -> Seq<char> {
    "Registers "@ + fname + " has no end specified"@
}

/// What a field's methods all start with: its doc attribute and its attributes.
pub open spec fn field_head_text(f: FieldDef) -> Seq<char> {
    doc_attr_text(opt_text(f.description)) + lines_text(f.attributes@)
}

/// The getter of a field, named after the field (with `get_` in front when `explicit`):
/// it reads the field's bits and converts them to the conversion type, if any. A field
/// with both kinds of conversion, a bool field wider than one bit, and a field without an
/// end give a compile error.
pub open spec fn field_read_text(f: FieldDef, explicit: bool) -> Seq<char> {
    let fname = snake_text(if explicit { "get_"@ + f.name@ } else { f.name@ });
    let rt = f.register_type@;
    let start = decimal(f.start as int);
    let head = field_head_text(f) + "pub fn "@ + fname + "(&self) -> "@;
    if has_both_conversions(f) {
        compile_error_text(both_conversions_message(f.name@))
    } else if f.is_bool {
        if !bool_end_ok(f) {
            compile_error_text(wide_bool_message(fname))
        } else {
            match chosen_conversion(f) {
                Some(p) => if p.1 {
                    head + p.0 + " {\n    device_driver::read_field_bool_strict::<Self, _, "@ + p.0
                        + ", "@ + start + ", { Self::SIZE_BYTES }>(self)\n}\n"@
                } else {
                    head + "Result<"@ + p.0 + ", <"@ + p.0 + " as TryFrom<"@ + rt
                        + ">>::Error> {\n    device_driver::read_field_bool::<Self, _, "@ + p.0
                        + ", "@ + start + ", { Self::SIZE_BYTES }>(self)\n}\n"@
                },
                None => head + rt + " {\n    device_driver::read_field_bool_no_convert::<Self, _, "@
                    + start + ", { Self::SIZE_BYTES }>(self)\n}\n"@,
            }
        }
    } else {
        match f.end {
            None => compile_error_text(no_end_message(fname)),
            Some(e) => {
                let end = decimal(e as int);
                match chosen_conversion(f) {
                    Some(p) => if p.1 {
                        head + p.0 + " {\n    device_driver::read_field_strict::<Self, _, "@ + p.0
                            + ", "@ + rt + ", "@ + start + ", "@ + end
                            + ", { Self::SIZE_BYTES }>(self)\n}\n"@
                    } else {
                        head + "Result<"@ + p.0 + ", <"@ + p.0 + " as TryFrom<"@ + rt
                            + ">>::Error> {\n    device_driver::read_field::<Self, _, "@ + p.0 + ", "@
                            + rt + ", "@ + start + ", "@ + end + ", { Self::SIZE_BYTES }>(self)\n}\n"@
                    },
                    None => head + rt + " {\n    device_driver::read_field_no_convert::<Self, _, "@ + rt
                        + ", "@ + start + ", "@ + end + ", { Self::SIZE_BYTES }>(self)\n}\n"@,
                }
            },
        }
    }
}

/// The setter of a field, named after the field: it converts the value from the
/// conversion type, if any, and writes the field's bits. The same fields as for the
/// getter give a compile error.
pub open spec fn field_write_text(f: FieldDef) -> Seq<char> {
    let fname = snake_text(f.name@);
    let rt = f.register_type@;
    let start = decimal(f.start as int);
    let head = field_head_text(f) + "pub fn "@ + fname + "(&mut self, data: "@;
    if has_both_conversions(f) {
        compile_error_text(both_conversions_message(f.name@))
    } else if f.is_bool {
        if !bool_end_ok(f) {
            compile_error_text(wide_bool_message(fname))
        } else {
            match chosen_conversion(f) {
                Some(p) => head + p.0 + ") -> &mut Self {\n    device_driver::write_field_bool::<Self, _, "@
                    + p.0 + ", "@ + start + ", { Self::SIZE_BYTES }>(self, data)\n}\n"@,
                None => head + rt
                    + ") -> &mut Self {\n    device_driver::write_field_bool_no_convert::<Self, _, "@
                    + start + ", { Self::SIZE_BYTES }>(self, data)\n}\n"@,
            }
        }
    } else {
        match f.end {
            None => compile_error_text(no_end_message(fname)),
            Some(e) => {
                let end = decimal(e as int);
                match chosen_conversion(f) {
                    Some(p) => head + p.0 + ") -> &mut Self {\n    device_driver::write_field::<Self, _, "@
                        + p.0 + ", "@ + rt + ", "@ + start + ", "@ + end
                        + ", { Self::SIZE_BYTES }>(self, data)\n}\n"@,
                    None => head + rt
                        + ") -> &mut Self {\n    device_driver::write_field_no_convert::<Self, _, "@ + rt
                        + ", "@ + start + ", "@ + end + ", { Self::SIZE_BYTES }>(self, data)\n}\n"@,
                }
            },
        }
    }
}

/// Whether the generator can look at the field without an overflow: a bool field with an
/// end is compared with the bit after its start, which must exist.
pub open spec fn field_checkable(f: FieldDef) -> bool {
    f.is_bool && f.end is Some && !has_both_conversions(f) ==> f.start < u32::MAX
}

/// Adds the text, escaped as in a string literal.
fn add_escaped(c: &mut Code, piece: &str)
    ensures
        final(c).s@ == old(c).s@ + escaped(piece@),
{
    let e = escape_text(piece);
    c.add(e.as_str());
}

/// Adds the decimal text of the number.
fn add_number(c: &mut Code, v: i128)
    ensures
        final(c).s@ == old(c).s@ + decimal(v as int),
{
    let d = decimal_string(v);
    c.add(d.as_str());
}

/// Adds the doc attribute with the text, if there is one.
fn add_doc_attr(c: &mut Code, d: &Option<String>)
    ensures
        final(c).s@ == old(c).s@ + doc_attr_text(opt_text(*d)),
{
    match d {
        Some(s) => {
            c.add("#[doc = \"");
            add_escaped(c, s.as_str());
            c.add("\"]\n");
        },
        None => {
            proof {
                assert(c.s@ + Seq::<char>::empty() =~= c.s@);
            }
        },
    }
}

/// Adds the lines, each ended by a newline.
fn add_lines(c: &mut Code, items: &Vec<String>)
    ensures
        final(c).s@ == old(c).s@ + lines_text(items@),
{
    let ghost start = c.s@;
    let ghost f = |a: String| a@ + "\n"@;
    let mut i: usize = 0;
    proof {
        assert(items@.take(0).map_values(f) =~= Seq::<Seq<char>>::empty());
        assert(start + Seq::<char>::empty() =~= start);
    }
    while i < items.len()
        invariant
            i <= items@.len(),
            f == (|a: String| a@ + "\n"@),
            c.s@ == start + concat_texts(items@.take(i as int).map_values(f)),
        decreases items@.len() - i,
    {
        let ghost before = items@.take(i as int).map_values(f);
        let ghost next = items@.take(i + 1).map_values(f);
        proof {
            assert(next.drop_last() =~= before);
            assert(next.last() == f(items@[i as int]));
        }
        c.add(items[i].as_str());
        c.add("\n");
        proof {
            assert(c.s@ =~= start + concat_texts(next));
        }
        i = i + 1;
    }
    proof {
        assert(items@.take(items@.len() as int) =~= items@);
    }
}

/// The code that fails to compile with the message.
pub fn error_code(msg: &str) -> (res: String)
    ensures
        res@ == compile_error_text(msg@),
{
    let mut c = Code::new();
    add_compile_error(&mut c, msg);
    c.s
}

/// Adds a compile error with the message.
fn add_compile_error(c: &mut Code, msg: &str)
    ensures
        final(c).s@ == old(c).s@ + compile_error_text(msg@),
{
    c.add("::core::compile_error! { \"");
    add_escaped(c, msg);
    c.add("\" }\n");
}

/// The name in snake case.
fn snake_name(name: &str) -> (res: String)
    ensures
        res@ == snake_text(name@),
{
    let b = default_boundaries();
    convert_name(name, &b, TargetCase::Snake)
}

/// The name in Pascal case.
fn pascal_name(name: &str) -> (res: String)
    ensures
        res@ == pascal_text(name@),
{
    let b = default_boundaries();
    convert_name(name, &b, TargetCase::Pascal)
}

/// The message for a field with both kinds of conversion.
fn both_conversions_error(name: &str) -> (res: String)
    ensures
        res@ == both_conversions_message(name@),
{
    let mut c = Code::new();
    c.add("Cannot have strict and non-strict conversion for field `");
    c.add(name);
    c.add("`");
    c.s
}

/// The message for a field that is either a bool wider than one bit or has no end.
fn field_shape_error(fname: &str, is_bool: bool) -> (res: String)
    ensures
        res@ == (if is_bool { wide_bool_message(fname@) } else { no_end_message(fname@) }),
{
    let mut c = Code::new();
    c.add("Registers ");
    c.add(fname);
    if is_bool {
        c.add(" is a bool and must have no end or an end that is only 1 more than start");
    } else {
        c.add(" has no end specified");
    }
    c.s
}

/// The type the field converts to, and whether the conversion can't fail.
fn field_conversion(f: &FieldDef) -> (res: (Option<&String>, bool))
    requires
        !has_both_conversions(*f),
    ensures
        match chosen_conversion(*f) {
            Some(p) => res.0 matches Some(ct) && ct@ == p.0 && res.1 == p.1,
            None => res.0 is None,
        },
{
    match &f.conversion {
        Some(ct) => (Some(ct), false),
        None => match &f.strict_conversion {
            Some(ct) => (Some(ct), true),
            None => (None, false),
        },
    }
}

/// Whether the bool field ends where it should.
fn bool_end_fits(f: &FieldDef) -> (res: bool)
    requires
        field_checkable(*f),
        f.is_bool,
        !has_both_conversions(*f),
    ensures
        res == bool_end_ok(*f),
{
    match f.end {
        Some(e) => e == f.start + 1,
        None => true,
    }
}

/// The getter of a field: see [`field_read_text`].
#[verifier::rlimit(50)]
pub fn generate_field_read(field: &FieldDef, explicit: bool) -> (res: String)
    requires
        field_checkable(*field),
    ensures
        res@ == field_read_text(*field, explicit),
{
    let mut c = Code::new();
    if field.conversion.is_some() && field.strict_conversion.is_some() {
        let msg = both_conversions_error(field.name.as_str());
        add_compile_error(&mut c, msg.as_str());
        return c.s;
    }
    let fname = if explicit {
        let mut n = String::from_str("get_");
        n.append(field.name.as_str());
        snake_name(n.as_str())
    } else {
        snake_name(field.name.as_str())
    };
    let (conv, strict) = field_conversion(field);
    let rt = field.register_type.as_str();
    let start = decimal_string(field.start as i128);
    if field.is_bool && !bool_end_fits(field) {
        let msg = field_shape_error(fname.as_str(), true);
        add_compile_error(&mut c, msg.as_str());
        return c.s;
    }
    if !field.is_bool && field.end.is_none() {
        let msg = field_shape_error(fname.as_str(), false);
        add_compile_error(&mut c, msg.as_str());
        return c.s;
    }
    add_doc_attr(&mut c, &field.description);
    add_lines(&mut c, &field.attributes);
    c.add("pub fn ");
    c.add(fname.as_str());
    c.add("(&self) -> ");
    if field.is_bool {
        match conv {
            Some(ct) => {
                if strict {
                    c.add(ct.as_str());
                    c.add(" {\n    device_driver::read_field_bool_strict::<Self, _, ");
                    c.add(ct.as_str());
                } else {
                    c.add("Result<");
                    c.add(ct.as_str());
                    c.add(", <");
                    c.add(ct.as_str());
                    c.add(" as TryFrom<");
                    c.add(rt);
                    c.add(">>::Error> {\n    device_driver::read_field_bool::<Self, _, ");
                    c.add(ct.as_str());
                }
                c.add(", ");
                c.add(start.as_str());
                c.add(", { Self::SIZE_BYTES }>(self)\n}\n");
            },
            None => {
                c.add(rt);
                c.add(" {\n    device_driver::read_field_bool_no_convert::<Self, _, ");
                c.add(start.as_str());
                c.add(", { Self::SIZE_BYTES }>(self)\n}\n");
            },
        }
    } else {
        let end = match field.end {
            Some(e) => decimal_string(e as i128),
            None => String::new(),
        };
        match conv {
            Some(ct) => {
                if strict {
                    c.add(ct.as_str());
                    c.add(" {\n    device_driver::read_field_strict::<Self, _, ");
                    c.add(ct.as_str());
                } else {
                    c.add("Result<");
                    c.add(ct.as_str());
                    c.add(", <");
                    c.add(ct.as_str());
                    c.add(" as TryFrom<");
                    c.add(rt);
                    c.add(">>::Error> {\n    device_driver::read_field::<Self, _, ");
                    c.add(ct.as_str());
                }
                c.add(", ");
            },
            None => {
                c.add(rt);
                c.add(" {\n    device_driver::read_field_no_convert::<Self, _, ");
            },
        }
        c.add(rt);
        c.add(", ");
        c.add(start.as_str());
        c.add(", ");
        c.add(end.as_str());
        c.add(", { Self::SIZE_BYTES }>(self)\n}\n");
    }
    c.s
}

/// The setter of a field: see [`field_write_text`].
#[verifier::rlimit(50)]
pub fn generate_field_write(field: &FieldDef) -> (res: String)
    requires
        field_checkable(*field),
    ensures
        res@ == field_write_text(*field),
{
    let mut c = Code::new();
    if field.conversion.is_some() && field.strict_conversion.is_some() {
        let msg = both_conversions_error(field.name.as_str());
        add_compile_error(&mut c, msg.as_str());
        return c.s;
    }
    let fname = snake_name(field.name.as_str());
    let (conv, _strict) = field_conversion(field);
    let rt = field.register_type.as_str();
    let start = decimal_string(field.start as i128);
    if field.is_bool && !bool_end_fits(field) {
        let msg = field_shape_error(fname.as_str(), true);
        add_compile_error(&mut c, msg.as_str());
        return c.s;
    }
    if !field.is_bool && field.end.is_none() {
        let msg = field_shape_error(fname.as_str(), false);
        add_compile_error(&mut c, msg.as_str());
        return c.s;
    }
    add_doc_attr(&mut c, &field.description);
    add_lines(&mut c, &field.attributes);
    c.add("pub fn ");
    c.add(fname.as_str());
    c.add("(&mut self, data: ");
    if field.is_bool {
        match conv {
            Some(ct) => {
                c.add(ct.as_str());
                c.add(") -> &mut Self {\n    device_driver::write_field_bool::<Self, _, ");
                c.add(ct.as_str());
                c.add(", ");
            },
            None => {
                c.add(rt);
                c.add(") -> &mut Self {\n    device_driver::write_field_bool_no_convert::<Self, _, ");
            },
        }
        c.add(start.as_str());
        c.add(", { Self::SIZE_BYTES }>(self, data)\n}\n");
    } else {
        let end = match field.end {
            Some(e) => decimal_string(e as i128),
            None => String::new(),
        };
        match conv {
            Some(ct) => {
                c.add(ct.as_str());
                c.add(") -> &mut Self {\n    device_driver::write_field::<Self, _, ");
                c.add(ct.as_str());
                c.add(", ");
            },
            None => {
                c.add(rt);
                c.add(") -> &mut Self {\n    device_driver::write_field_no_convert::<Self, _, ");
            },
        }
        c.add(rt);
        c.add(", ");
        c.add(start.as_str());
        c.add(", ");
        c.add(end.as_str());
        c.add(", { Self::SIZE_BYTES }>(self, data)\n}\n");
    }
    c.s
}

/// The number of bytes of a register of the size in bits.
pub open spec fn size_bytes(size_bits: u64) -> int {
    (size_bits + 7) / 8
}

/// Whether the register stores its values little endian (big endian when not given).
pub open spec fn is_le(r: RegisterDef) -> bool {
    r.byte_order == Some(ByteOrder::LE)
}

/// The text a field contributes to one part of the register's code.
#[derive(Clone, Copy)]
pub enum FieldPiece {
    /// Its setter on the writer.
    Write,
    /// Its getter on the reader.
    Read,
    /// Its getter with `get_` in front on the writer.
    ReadExplicit,
    /// Its entry in the debug output of the reader.
    DebugCall,
    /// The definition of the type it converts to.
    TypeDefinition,
}

/// What the field contributes to one part of the code of the register named `reg_name`.
/// A field with both kinds of conversion makes its type definition a compile error that
/// names the register.
pub open spec fn field_piece_text(f: FieldDef, piece: FieldPiece, reg_name: Seq<char>) -> Seq<char> {
    match piece {
        FieldPiece::Write => field_write_text(f),
        FieldPiece::Read => field_read_text(f, false),
        FieldPiece::ReadExplicit => field_read_text(f, true),
        FieldPiece::DebugCall => ".field(\""@ + escaped(snake_text(f.name@)) + "\", &self."@
            + snake_text(f.name@) + "())"@,
        FieldPiece::TypeDefinition => if has_both_conversions(f) {
            compile_error_text(both_conversions_message(reg_name))
        } else if chosen_conversion(f) is Some {
            match f.type_definition {
                Some(t) => t@,
                None => Seq::empty(),
            }
        } else {
            Seq::empty()
        },
    }
}

/// What all fields contribute to one part of the code, one after the other.
pub open spec fn fields_text(fs: Seq<FieldDef>, piece: FieldPiece, reg_name: Seq<char>) -> Seq<char> {
    concat_texts(fs.map_values(|f: FieldDef| field_piece_text(f, piece, reg_name)))
}

/// The bytes as `u8` literals, separated by commas.
pub open spec fn bytes_text(bs: Seq<u8>) -> Seq<char> {
    join_texts(bs.map_values(|b: u8| decimal(b as int) + "u8"@), ", "@)
}

/// The error for reset data of the wrong length.
pub open spec fn wrong_length_message(name: Seq<char>, actual: int, expected: int) -> Seq<char> {
    "Reset value of register `"@ + name + "` has the wrong length ("@ + decimal(actual)
        + " bytes): Must be "@ + decimal(expected) + " bytes"@
}

/// The reset value of the register type: its bytes, with zero bytes in front to fill the
/// register when the length is not fixed; a compile error when they do not fit; nothing
/// without a reset value.
pub open spec fn reset_text(r: RegisterDef) -> Seq<char> {
    match r.reset_value {
        None => Seq::empty(),
        Some(rv) => {
            let n = size_bytes(r.size_bits);
            let d = rv@.data;
            if (if rv@.fixed {
                d.len() == n
            } else {
                d.len() <= n
            }) {
                "fn reset_value() -> Self\nwhere\n    Self: Sized,\n{\n    Self {\n        bits: device_driver::bitvec::array::BitArray::new(["@
                    + bytes_text(zeros(n - d.len()) + d) + "]),\n    }\n}\n"@
            } else {
                compile_error_text(wrong_length_message(pascal_text(r.name@), d.len() as int, n))
            }
        },
    }
}

/// The register type and its `Register` impl.
pub open spec fn register_type_text(r: RegisterDef, address_type: Seq<char>) -> Seq<char> {
    let cfgs = lines_text(r.cfg_attributes@);
    let p = pascal_text(r.name@);
    let s = snake_text(r.name@);
    cfgs + doc_attr_text(opt_text(r.description))
        + "#[derive(Copy, Clone, Eq, PartialEq)]\npub struct "@ + p
        + " {\n    bits: device_driver::bitvec::array::BitArray<[u8; Self::SIZE_BYTES]>,\n}\n"@ + cfgs
        + "impl device_driver::Register<{ Self::SIZE_BYTES }> for "@ + p
        + " {\n    const ZERO: Self = Self {\n        bits: device_driver::bitvec::array::BitArray::ZERO,\n    };\n    type AddressType = "@
        + address_type + ";\n    const ADDRESS: Self::AddressType = "@ + decimal(r.address as int)
        + ";\n    type RWType = "@ + r.rw_type@ + ";\n    const SIZE_BITS: usize = "@ + decimal(
        r.size_bits as int,
    ) + ";\n    type WriteFields = "@ + s + "::W;\n    type ReadFields = "@ + s
        + "::R;\n    const LE: bool = "@ + (if is_le(r) {
        "true"@
    } else {
        "false"@
    })
        + ";\n    fn bits_mut(&mut self) -> &mut device_driver::bitvec::array::BitArray<[u8; Self::SIZE_BYTES]> {\n        &mut self.bits\n    }\n    fn bits(&self) -> &device_driver::bitvec::array::BitArray<[u8; Self::SIZE_BYTES]> {\n        &self.bits\n    }\n"@
        + reset_text(r) + "}\n"@
}

/// A bit operation between two register values.
pub open spec fn bit_op_text(
    cfgs: Seq<char>,
    p: Seq<char>,
    tr: Seq<char>,
    method: Seq<char>,
    ctor: Seq<char>,
    op: Seq<char>,
) -> Seq<char> {
    cfgs + "impl<T: Into<"@ + p + ">> core::ops::"@ + tr + "<T> for "@ + p
        + " {\n    type Output = Self;\n    fn "@ + method + "(self, rhs: T) -> Self::Output {\n        "@
        + ctor + " { bits: self.bits "@ + op + " rhs.into().bits }\n    }\n}\n"@
}

/// The inherent impl of the register type and its bit operations.
pub open spec fn register_impls_text(cfgs: Seq<char>, p: Seq<char>, s: Seq<char>, sb: Seq<char>) -> Seq<char> {
    cfgs + "impl "@ + p + " {\n    pub const SIZE_BYTES: usize = "@ + sb
        + ";\n    /// Turn this register value into a writer\n    pub fn into_w(self) -> "@ + s
        + "::W {\n        self.into()\n    }\n    /// Turn this register value into a reader\n    pub fn into_r(self) -> "@
        + s + "::R {\n        self.into()\n    }\n}\n"@ + bit_op_text(cfgs, p, "BitAnd"@, "bitand"@, p, "&"@)
        + bit_op_text(cfgs, p, "BitOr"@, "bitor"@, "Self"@, "|"@) + bit_op_text(
        cfgs,
        p,
        "BitXor"@,
        "bitxor"@,
        "Self"@,
        "^"@,
    )
}

/// A reader or writer type `n` around the register type `p`, with the conversions both
/// ways.
pub open spec fn wrapper_struct_text(p: Seq<char>, n: Seq<char>) -> Seq<char> {
    "#[derive(Copy, Clone, Eq, PartialEq)]\npub struct "@ + n + " {\n    inner: "@ + p
        + ",\n}\nimpl From<"@ + p + "> for "@ + n + " {\n    fn from(val: "@ + p
        + ") -> Self {\n        Self {\n            inner: val,\n        }\n    }\n}\nimpl From<"@ + n
        + "> for "@ + p + " {\n    fn from(val: "@ + n + ") -> Self {\n        val.inner\n    }\n}\n"@
}

/// The reader or writer type `n` dereferences to the register type `p`.
pub open spec fn deref_text(p: Seq<char>, n: Seq<char>) -> Seq<char> {
    "impl core::ops::Deref for "@ + n + " {\n    type Target = "@ + p
        + ";\n    fn deref(&self) -> &Self::Target {\n        &self.inner\n    }\n}\nimpl core::ops::DerefMut for "@
        + n
        + " {\n    fn deref_mut(&mut self) -> &mut Self::Target {\n        &mut self.inner\n    }\n}\n"@
}

/// The start of the inherent impl of the reader or writer type `n`.
pub open spec fn wrapper_impl_head(p: Seq<char>, n: Seq<char>, sb: Seq<char>, what: Seq<char>) -> Seq<char> {
    "impl "@ + n + " {\n    pub const SIZE_BYTES: usize = "@ + sb + ";\n    /// Turn this "@ + what
        + " into the register type\n    pub fn into_register(self) -> "@ + p
        + " {\n        self.into()\n    }\n"@
}

/// The debug output of the reader: the register's name and its fields.
pub open spec fn debug_text(p: Seq<char>, calls: Seq<char>) -> Seq<char> {
    "impl core::fmt::Debug for R {\n    fn fmt(&self, fmt: &mut core::fmt::Formatter<'_>) -> Result<(), core::fmt::Error> {\n        fmt.debug_struct(\""@
        + escaped(p) + "\")"@ + calls + "\n            .finish()\n    }\n}\n"@
}

/// The writer of the register: it has the setters and the getters with `get_` in front.
pub open spec fn writer_text(p: Seq<char>, sb: Seq<char>, fs: Seq<FieldDef>, rn: Seq<char>) -> Seq<char> {
    doc_attr_text(Some("Write struct for ["@ + p + "]"@)) + wrapper_struct_text(p, "W"@) + deref_text(
        p,
        "W"@,
    ) + wrapper_impl_head(p, "W"@, sb, "writer"@) + fields_text(fs, FieldPiece::Write, rn)
        + fields_text(fs, FieldPiece::ReadExplicit, rn) + "}\n"@
}

/// The reader of the register: it has the getters and shows the fields in its debug
/// output.
pub open spec fn reader_text(p: Seq<char>, sb: Seq<char>, fs: Seq<FieldDef>, rn: Seq<char>) -> Seq<char> {
    doc_attr_text(Some("Read struct for ["@ + p + "]"@)) + wrapper_struct_text(p, "R"@) + debug_text(
        p,
        fields_text(fs, FieldPiece::DebugCall, rn),
    ) + deref_text(p, "R"@) + wrapper_impl_head(p, "R"@, sb, "reader"@) + fields_text(
        fs,
        FieldPiece::Read,
        rn,
    ) + "}\n"@
}

/// The module with the writer and the reader of the register.
pub open spec fn register_module_text(r: RegisterDef) -> Seq<char> {
    let p = pascal_text(r.name@);
    let sb = decimal(size_bytes(r.size_bits));
    lines_text(r.cfg_attributes@) + doc_attr_text(Some("Implementation of R and W types for ["@ + p + "]"@))
        + "pub mod "@ + snake_text(r.name@) + " {\n    use super::*;\n"@ + writer_text(
        p,
        sb,
        r.fields@,
        r.name@,
    ) + reader_text(p, sb, r.fields@, r.name@) + "}\n"@
}

/// The code of the register for registers addressed by `address_type`: the register type
/// with `SIZE_BYTES` the size in bits rounded up to bytes, its reset value, its bit
/// operations, the module with its writer and reader, and the types its fields convert to.
#[verifier::opaque]
pub open spec fn register_definition_text(r: RegisterDef, address_type: Seq<char>) -> Seq<char> {
    register_type_text(r, address_type) + register_impls_text(
        lines_text(r.cfg_attributes@),
        pascal_text(r.name@),
        snake_text(r.name@),
        decimal(size_bytes(r.size_bits)),
    ) + register_module_text(r) + fields_text(r.fields@, FieldPiece::TypeDefinition, r.name@)
}

/// Whether every field of the register can be looked at.
pub open spec fn fields_checkable(fs: Seq<FieldDef>) -> bool {
    forall|i: int| 0 <= i < fs.len() ==> field_checkable(#[trigger] fs[i])
}

/// Adds what the field contributes to one part of the code.
fn add_field_piece(c: &mut Code, f: &FieldDef, piece: FieldPiece, reg_name: &str)
    requires
        field_checkable(*f),
    ensures
        final(c).s@ == old(c).s@ + field_piece_text(*f, piece, reg_name@),
{
    match piece {
        FieldPiece::Write => {
            let t = generate_field_write(f);
            c.add(t.as_str());
        },
        FieldPiece::Read => {
            let t = generate_field_read(f, false);
            c.add(t.as_str());
        },
        FieldPiece::ReadExplicit => {
            let t = generate_field_read(f, true);
            c.add(t.as_str());
        },
        FieldPiece::DebugCall => {
            let n = snake_name(f.name.as_str());
            c.add(".field(\"");
            add_escaped(c, n.as_str());
            c.add("\", &self.");
            c.add(n.as_str());
            c.add("())");
        },
        FieldPiece::TypeDefinition => {
            if f.conversion.is_some() && f.strict_conversion.is_some() {
                let msg = both_conversions_error(reg_name);
                add_compile_error(c, msg.as_str());
            } else if f.conversion.is_some() || f.strict_conversion.is_some() {
                match &f.type_definition {
                    Some(t) => c.add(t.as_str()),
                    None => {
                        proof {
                            assert(c.s@ + Seq::<char>::empty() =~= c.s@);
                        }
                    },
                }
            } else {
                proof {
                    assert(c.s@ + Seq::<char>::empty() =~= c.s@);
                }
            }
        },
    }
}

/// Adds what all fields contribute to one part of the code.
fn add_fields(c: &mut Code, fs: &Vec<FieldDef>, piece: FieldPiece, reg_name: &str)
    requires
        fields_checkable(fs@),
    ensures
        final(c).s@ == old(c).s@ + fields_text(fs@, piece, reg_name@),
{
    let ghost start = c.s@;
    let ghost f = |x: FieldDef| field_piece_text(x, piece, reg_name@);
    let mut i: usize = 0;
    proof {
        assert(fs@.take(0).map_values(f) =~= Seq::<Seq<char>>::empty());
        assert(start + Seq::<char>::empty() =~= start);
    }
    while i < fs.len()
        invariant
            i <= fs@.len(),
            fields_checkable(fs@),
            f == (|x: FieldDef| field_piece_text(x, piece, reg_name@)),
            c.s@ == start + concat_texts(fs@.take(i as int).map_values(f)),
        decreases fs@.len() - i,
    {
        let ghost before = fs@.take(i as int).map_values(f);
        let ghost next = fs@.take(i + 1).map_values(f);
        proof {
            assert(next.drop_last() =~= before);
            assert(next.last() == f(fs@[i as int]));
        }
        add_field_piece(c, &fs[i], piece, reg_name);
        proof {
            assert(c.s@ =~= start + concat_texts(next));
        }
        i = i + 1;
    }
    proof {
        assert(fs@.take(fs@.len() as int) =~= fs@);
    }
}

/// Adds the bytes as `u8` literals, separated by commas.
fn add_bytes(c: &mut Code, bs: &Vec<u8>)
    ensures
        final(c).s@ == old(c).s@ + bytes_text(bs@),
{
    let ghost start = c.s@;
    let ghost f = |b: u8| decimal(b as int) + "u8"@;
    let mut i: usize = 0;
    proof {
        assert(bs@.take(0).map_values(f) =~= Seq::<Seq<char>>::empty());
        assert(start + Seq::<char>::empty() =~= start);
    }
    while i < bs.len()
        invariant
            i <= bs@.len(),
            f == (|b: u8| decimal(b as int) + "u8"@),
            c.s@ == start + join_texts(bs@.take(i as int).map_values(f), ", "@),
        decreases bs@.len() - i,
    {
        let ghost items = bs@.take(i as int).map_values(f);
        let ghost next = bs@.take(i + 1).map_values(f);
        proof {
            assert(next.drop_last() =~= items);
            assert(next.last() == f(bs@[i as int]));
        }
        if i > 0 {
            c.add(", ");
        }
        add_number(c, bs[i] as i128);
        c.add("u8");
        proof {
            if i == 0 {
                assert(next.len() == 1);
                assert(c.s@ =~= start + join_texts(next, ", "@));
            } else {
                assert(c.s@ =~= start + join_texts(next, ", "@));
            }
        }
        i = i + 1;
    }
    proof {
        assert(bs@.take(bs@.len() as int) =~= bs@);
    }
}

/// Adds the reset value of the register type.
fn add_reset(c: &mut Code, r: &RegisterDef, p: &str)
    requires
        p@ == pascal_text(r.name@),
        size_bytes(r.size_bits) <= usize::MAX,
    ensures
        final(c).s@ == old(c).s@ + reset_text(*r),
{
    match &r.reset_value {
        None => {
            proof {
                assert(c.s@ + Seq::<char>::empty() =~= c.s@);
            }
        },
        Some(rv) => {
            let n = r.size_bits / 8 + if r.size_bits % 8 == 0 { 0 } else { 1 };
            assert(n == size_bytes(r.size_bits));
            match rv.get_data(n as usize, p) {
                Ok(bytes) => {
                    c.add(
                        "fn reset_value() -> Self\nwhere\n    Self: Sized,\n{\n    Self {\n        bits: device_driver::bitvec::array::BitArray::new([",
                    );
                    add_bytes(c, &bytes);
                    c.add("]),\n    }\n}\n");
                },
                Err(e) => {
                    let msg = e.message();
                    add_compile_error(c, msg.as_str());
                },
            }
        },
    }
}

/// Adds the register type and its `Register` impl.
#[verifier::rlimit(50)]
fn add_register_type(c: &mut Code, r: &RegisterDef, address_type: &str, p: &str, s: &str)
    requires
        p@ == pascal_text(r.name@),
        s@ == snake_text(r.name@),
        size_bytes(r.size_bits) <= usize::MAX,
    ensures
        final(c).s@ == old(c).s@ + register_type_text(*r, address_type@),
{
    let ghost s0 = c.s@;
    add_lines(c, &r.cfg_attributes);
    add_doc_attr(c, &r.description);
    c.add("#[derive(Copy, Clone, Eq, PartialEq)]\npub struct ");
    c.add(p);
    c.add(" {\n    bits: device_driver::bitvec::array::BitArray<[u8; Self::SIZE_BYTES]>,\n}\n");
    add_lines(c, &r.cfg_attributes);
    c.add("impl device_driver::Register<{ Self::SIZE_BYTES }> for ");
    c.add(p);
    c.add(
        " {\n    const ZERO: Self = Self {\n        bits: device_driver::bitvec::array::BitArray::ZERO,\n    };\n    type AddressType = ",
    );
    c.add(address_type);
    c.add(";\n    const ADDRESS: Self::AddressType = ");
    add_number(c, r.address as i128);
    c.add(";\n    type RWType = ");
    c.add(r.rw_type.as_str());
    c.add(";\n    const SIZE_BITS: usize = ");
    add_number(c, r.size_bits as i128);
    c.add(";\n    type WriteFields = ");
    c.add(s);
    c.add("::W;\n    type ReadFields = ");
    c.add(s);
    c.add("::R;\n    const LE: bool = ");
    let le = match r.byte_order {
        Some(ByteOrder::LE) => true,
        _ => false,
    };
    if le {
        c.add("true");
    } else {
        c.add("false");
    }
    c.add(
        ";\n    fn bits_mut(&mut self) -> &mut device_driver::bitvec::array::BitArray<[u8; Self::SIZE_BYTES]> {\n        &mut self.bits\n    }\n    fn bits(&self) -> &device_driver::bitvec::array::BitArray<[u8; Self::SIZE_BYTES]> {\n        &self.bits\n    }\n",
    );
    add_reset(c, r, p);
    c.add("}\n");
    proof {
        assert(c.s@ =~= s0 + register_type_text(*r, address_type@));
    }
}

/// Adds a bit operation between two register values.
fn add_bit_op(
    c: &mut Code,
    cfgs: &Vec<String>,
    p: &str,
    tr: &str,
    method: &str,
    ctor: &str,
    op: &str,
)
    ensures
        final(c).s@ == old(c).s@ + bit_op_text(lines_text(cfgs@), p@, tr@, method@, ctor@, op@),
{
    add_lines(c, cfgs);
    c.add("impl<T: Into<");
    c.add(p);
    c.add(">> core::ops::");
    c.add(tr);
    c.add("<T> for ");
    c.add(p);
    c.add(" {\n    type Output = Self;\n    fn ");
    c.add(method);
    c.add("(self, rhs: T) -> Self::Output {\n        ");
    c.add(ctor);
    c.add(" { bits: self.bits ");
    c.add(op);
    c.add(" rhs.into().bits }\n    }\n}\n");
}

/// Adds the inherent impl of the register type and its bit operations.
#[verifier::rlimit(50)]
fn add_register_impls(c: &mut Code, cfgs: &Vec<String>, p: &str, s: &str, sb: &str)
    ensures
        final(c).s@ == old(c).s@ + register_impls_text(lines_text(cfgs@), p@, s@, sb@),
{
    add_lines(c, cfgs);
    c.add("impl ");
    c.add(p);
    c.add(" {\n    pub const SIZE_BYTES: usize = ");
    c.add(sb);
    c.add(";\n    /// Turn this register value into a writer\n    pub fn into_w(self) -> ");
    c.add(s);
    c.add(
        "::W {\n        self.into()\n    }\n    /// Turn this register value into a reader\n    pub fn into_r(self) -> ",
    );
    c.add(s);
    c.add("::R {\n        self.into()\n    }\n}\n");
    add_bit_op(c, cfgs, p, "BitAnd", "bitand", p, "&");
    add_bit_op(c, cfgs, p, "BitOr", "bitor", "Self", "|");
    add_bit_op(c, cfgs, p, "BitXor", "bitxor", "Self", "^");
}

/// Adds a reader or writer type around the register type.
fn add_wrapper_struct(c: &mut Code, p: &str, n: &str)
    ensures
        final(c).s@ == old(c).s@ + wrapper_struct_text(p@, n@),
{
    c.add("#[derive(Copy, Clone, Eq, PartialEq)]\npub struct ");
    c.add(n);
    c.add(" {\n    inner: ");
    c.add(p);
    c.add(",\n}\nimpl From<");
    c.add(p);
    c.add("> for ");
    c.add(n);
    c.add(" {\n    fn from(val: ");
    c.add(p);
    c.add(") -> Self {\n        Self {\n            inner: val,\n        }\n    }\n}\nimpl From<");
    c.add(n);
    c.add("> for ");
    c.add(p);
    c.add(" {\n    fn from(val: ");
    c.add(n);
    c.add(") -> Self {\n        val.inner\n    }\n}\n");
}

/// Adds the dereferencing of a reader or writer type to the register type.
fn add_deref(c: &mut Code, p: &str, n: &str)
    ensures
        final(c).s@ == old(c).s@ + deref_text(p@, n@),
{
    c.add("impl core::ops::Deref for ");
    c.add(n);
    c.add(" {\n    type Target = ");
    c.add(p);
    c.add(
        ";\n    fn deref(&self) -> &Self::Target {\n        &self.inner\n    }\n}\nimpl core::ops::DerefMut for ",
    );
    c.add(n);
    c.add(" {\n    fn deref_mut(&mut self) -> &mut Self::Target {\n        &mut self.inner\n    }\n}\n");
}

/// Adds the start of the inherent impl of a reader or writer type.
fn add_wrapper_impl_head(c: &mut Code, p: &str, n: &str, sb: &str, what: &str)
    ensures
        final(c).s@ == old(c).s@ + wrapper_impl_head(p@, n@, sb@, what@),
{
    c.add("impl ");
    c.add(n);
    c.add(" {\n    pub const SIZE_BYTES: usize = ");
    c.add(sb);
    c.add(";\n    /// Turn this ");
    c.add(what);
    c.add(" into the register type\n    pub fn into_register(self) -> ");
    c.add(p);
    c.add(" {\n        self.into()\n    }\n");
}

/// Adds the doc attribute with the text that starts with `prefix`, names the register
/// type in square brackets and ends there.
fn add_type_doc(c: &mut Code, prefix: &str, p: &str)
    ensures
        final(c).s@ == old(c).s@ + doc_attr_text(Some(prefix@ + p@ + "]"@)),
{
    let mut t = Code::new();
    t.add(prefix);
    t.add(p);
    t.add("]");
    c.add("#[doc = \"");
    add_escaped(c, t.s.as_str());
    c.add("\"]\n");
}

/// Adds the writer of the register.
#[verifier::rlimit(50)]
fn add_writer(c: &mut Code, p: &str, sb: &str, fs: &Vec<FieldDef>, rn: &str)
    requires
        fields_checkable(fs@),
    ensures
        final(c).s@ == old(c).s@ + writer_text(p@, sb@, fs@, rn@),
{
    let ghost s0 = c.s@;
    add_type_doc(c, "Write struct for [", p);
    add_wrapper_struct(c, p, "W");
    add_deref(c, p, "W");
    add_wrapper_impl_head(c, p, "W", sb, "writer");
    add_fields(c, fs, FieldPiece::Write, rn);
    add_fields(c, fs, FieldPiece::ReadExplicit, rn);
    c.add("}\n");
    proof {
        assert(c.s@ =~= s0 + writer_text(p@, sb@, fs@, rn@));
    }
}

/// Adds the debug output of the reader.
#[verifier::rlimit(50)]
fn add_debug(c: &mut Code, p: &str, fs: &Vec<FieldDef>, rn: &str)
    requires
        fields_checkable(fs@),
    ensures
        final(c).s@ == old(c).s@ + debug_text(p@, fields_text(fs@, FieldPiece::DebugCall, rn@)),
{
    let ghost s0 = c.s@;
    c.add(
        "impl core::fmt::Debug for R {\n    fn fmt(&self, fmt: &mut core::fmt::Formatter<'_>) -> Result<(), core::fmt::Error> {\n        fmt.debug_struct(\"",
    );
    add_escaped(c, p);
    c.add("\")");
    add_fields(c, fs, FieldPiece::DebugCall, rn);
    c.add("\n            .finish()\n    }\n}\n");
    proof {
        assert(c.s@ =~= s0 + debug_text(p@, fields_text(fs@, FieldPiece::DebugCall, rn@)));
    }
}

/// Adds the reader of the register.
#[verifier::rlimit(50)]
fn add_reader(c: &mut Code, p: &str, sb: &str, fs: &Vec<FieldDef>, rn: &str)
    requires
        fields_checkable(fs@),
    ensures
        final(c).s@ == old(c).s@ + reader_text(p@, sb@, fs@, rn@),
{
    let ghost s0 = c.s@;
    add_type_doc(c, "Read struct for [", p);
    add_wrapper_struct(c, p, "R");
    add_debug(c, p, fs, rn);
    add_deref(c, p, "R");
    add_wrapper_impl_head(c, p, "R", sb, "reader");
    add_fields(c, fs, FieldPiece::Read, rn);
    c.add("}\n");
    proof {
        assert(c.s@ =~= s0 + reader_text(p@, sb@, fs@, rn@));
    }
}

/// Adds the module with the writer and the reader of the register.
#[verifier::rlimit(50)]
fn add_register_module(c: &mut Code, r: &RegisterDef, p: &str, s: &str, sb: &str)
    requires
        p@ == pascal_text(r.name@),
        s@ == snake_text(r.name@),
        sb@ == decimal(size_bytes(r.size_bits)),
        fields_checkable(r.fields@),
    ensures
        final(c).s@ == old(c).s@ + register_module_text(*r),
{
    let ghost s0 = c.s@;
    add_lines(c, &r.cfg_attributes);
    add_type_doc(c, "Implementation of R and W types for [", p);
    c.add("pub mod ");
    c.add(s);
    c.add(" {\n    use super::*;\n");
    add_writer(c, p, sb, &r.fields, r.name.as_str());
    add_reader(c, p, sb, &r.fields, r.name.as_str());
    c.add("}\n");
    proof {
        assert(c.s@ =~= s0 + register_module_text(*r));
    }
}

/// The code of a register: see [`register_definition_text`]. Without the address type of
/// the registers it is a compile error that says so.
#[verifier::rlimit(50)]
pub fn generate_register_definition(register: &RegisterDef, register_address_type: Option<&str>) -> (res: String)
    requires
        fields_checkable(register.fields@),
        size_bytes(register.size_bits) <= usize::MAX,
    ensures
        match register_address_type {
            None => res@ == compile_error_text("register_address_type is not specified"@),
            Some(at) => res@ == register_definition_text(*register, at@),
        },
{
    let mut c = Code::new();
    match register_address_type {
        None => {
            add_compile_error(&mut c, "register_address_type is not specified");
            c.s
        },
        Some(at) => {
            proof {
                reveal(register_definition_text);
            }
            let p = pascal_name(register.name.as_str());
            let s = snake_name(register.name.as_str());
            let n = register.size_bits / 8 + if register.size_bits % 8 == 0 { 0 } else { 1 };
            let sb = decimal_string(n as i128);
            add_register_type(&mut c, register, at, p.as_str(), s.as_str());
            add_register_impls(&mut c, &register.cfg_attributes, p.as_str(), s.as_str(), sb.as_str());
            add_register_module(&mut c, register, p.as_str(), s.as_str(), sb.as_str());
            add_fields(&mut c, &register.fields, FieldPiece::TypeDefinition, register.name.as_str());
            c.s
        },
    }
}

/// The method of the device that reaches the register: named after the register in
/// snake case, it gives an operation on the register type.
pub open spec fn register_function_text(r: RegisterDef) -> Seq<char> {
    let p = pascal_text(r.name@);
    doc_attr_text(opt_text(r.description)) + lines_text(r.cfg_attributes@) + "pub fn "@ + snake_text(r.name@)
        + "(&mut self) -> device_driver::RegisterOperation<'_, Self, "@ + p + ", { "@ + p
        + "::SIZE_BYTES }> {\n    device_driver::RegisterOperation::new(self)\n}\n"@
}

/// The method of the device that reaches the register: see [`register_function_text`].
#[verifier::rlimit(50)]
pub fn generate_register_function(register: &RegisterDef) -> (res: String)
    ensures
        res@ == register_function_text(*register),
{
    let p = pascal_name(register.name.as_str());
    let s = snake_name(register.name.as_str());
    let mut c = Code::new();
    add_doc_attr(&mut c, &register.description);
    add_lines(&mut c, &register.cfg_attributes);
    c.add("pub fn ");
    c.add(s.as_str());
    c.add("(&mut self) -> device_driver::RegisterOperation<'_, Self, ");
    c.add(p.as_str());
    c.add(", { ");
    c.add(p.as_str());
    c.add("::SIZE_BYTES }> {\n    device_driver::RegisterOperation::new(self)\n}\n");
    c.s
}

/// Whether every register can be generated.
pub open spec fn registers_generatable(rs: Seq<RegisterDef>) -> bool {
    forall|i: int|
        0 <= i < rs.len() ==> fields_checkable(#[trigger] rs[i].fields@) && size_bytes(rs[i].size_bits)
            <= usize::MAX
}

/// The code of a register for the address type: a compile error without one.
pub open spec fn definition_text(r: RegisterDef, address_type: Option<Seq<char>>) -> Seq<char> {
    match address_type {
        None => compile_error_text("register_address_type is not specified"@),
        Some(at) => register_definition_text(r, at),
    }
}

/// The code of all registers of a device, one after the other.
pub open spec fn definitions_text(rs: Seq<RegisterDef>, address_type: Option<Seq<char>>) -> Seq<char> {
    concat_texts(rs.map_values(|r: RegisterDef| definition_text(r, address_type)))
}

/// The code of all registers of a device: see [`definitions_text`].
#[verifier::rlimit(50)]
pub fn generate_definitions(registers: &Vec<RegisterDef>, register_address_type: Option<&str>) -> (res: String)
    requires
        registers_generatable(registers@),
    ensures
        res@ == definitions_text(
            registers@,
            match register_address_type {
                Some(a) => Some(a@),
                None => None,
            },
        ),
{
    let ghost at = match register_address_type {
        Some(a) => Some(a@),
        None => None,
    };
    let ghost g = |r: RegisterDef| definition_text(r, at);
    let mut c = Code::new();
    let ghost start = c.s@;
    let mut i: usize = 0;
    proof {
        assert(registers@.take(0).map_values(g) =~= Seq::<Seq<char>>::empty());
    }
    while i < registers.len()
        invariant
            i <= registers@.len(),
            registers_generatable(registers@),
            at == match register_address_type {
                Some(a) => Some(a@),
                None => None,
            },
            g == (|r: RegisterDef| definition_text(r, at)),
            start == Seq::<char>::empty(),
            c.s@ == start + definitions_text(registers@.take(i as int), at),
        decreases registers@.len() - i,
    {
        proof {
            assert(fields_checkable(registers@[i as int].fields@));
        }
        let text = generate_register_definition(&registers[i], register_address_type);
        c.add(text.as_str());
        proof {
            let next = registers@.take(i + 1).map_values(g);
            assert(next.drop_last() =~= registers@.take(i as int).map_values(g));
            assert(next.last() == text@);
            assert(c.s@ =~= start + definitions_text(registers@.take(i + 1), at));
        }
        i = i + 1;
    }
    proof {
        assert(registers@.take(registers@.len() as int) =~= registers@);
        assert(c.s@ =~= definitions_text(registers@, at));
    }
    c.s
}

/// A command of the register macro: the number it is sent with.
pub struct CommandDef {
    pub name: String,
    pub description: Option<String>,
    pub attributes: Vec<String>,
    pub id: u32,
}

/// A buffer of the register macro: the number it is reached with and how it may be
/// accessed.
pub struct BufferDef {
    pub name: String,
    pub description: Option<String>,
    pub attributes: Vec<String>,
    pub id: u32,
    /// The Rust type that says how the buffer may be accessed.
    pub rw_type: String,
}

/// The method of the device that sends the command.
pub open spec fn command_function_text(c: CommandDef) -> Seq<char> {
    doc_attr_text(opt_text(c.description)) + lines_text(c.attributes@) + "pub fn "@ + snake_text(c.name@)
        + "(&mut self) -> device_driver::CommandOperation<'_, Self> {\n    device_driver::CommandOperation::new(self, "@
        + decimal(c.id as int) + ")\n}\n"@
}

/// The method of the device that reaches the buffer.
pub open spec fn buffer_function_text(b: BufferDef) -> Seq<char> {
    doc_attr_text(opt_text(b.description)) + lines_text(b.attributes@) + "pub fn "@ + snake_text(b.name@)
        + "(&mut self) -> device_driver::BufferOperation<'_, Self, "@ + b.rw_type@
        + "> {\n    device_driver::BufferOperation::new(self, "@ + decimal(b.id as int) + ")\n}\n"@
}

/// The method of the device that sends the command: see [`command_function_text`].
#[verifier::rlimit(50)]
pub fn generate_command_function(command: &CommandDef) -> (res: String)
    ensures
        res@ == command_function_text(*command),
{
    let s = snake_name(command.name.as_str());
    let mut c = Code::new();
    add_doc_attr(&mut c, &command.description);
    add_lines(&mut c, &command.attributes);
    c.add("pub fn ");
    c.add(s.as_str());
    c.add("(&mut self) -> device_driver::CommandOperation<'_, Self> {\n    device_driver::CommandOperation::new(self, ");
    add_number(&mut c, command.id as i128);
    c.add(")\n}\n");
    c.s
}

/// The method of the device that reaches the buffer: see [`buffer_function_text`].
#[verifier::rlimit(50)]
pub fn generate_buffer_function(buffer: &BufferDef) -> (res: String)
    ensures
        res@ == buffer_function_text(*buffer),
{
    let s = snake_name(buffer.name.as_str());
    let mut c = Code::new();
    add_doc_attr(&mut c, &buffer.description);
    add_lines(&mut c, &buffer.attributes);
    c.add("pub fn ");
    c.add(s.as_str());
    c.add("(&mut self) -> device_driver::BufferOperation<'_, Self, ");
    c.add(buffer.rw_type.as_str());
    c.add("> {\n    device_driver::BufferOperation::new(self, ");
    add_number(&mut c, buffer.id as i128);
    c.add(")\n}\n");
    c.s
}

/// The methods of the device: those of its registers, then of its commands, then of its
/// buffers.
pub open spec fn device_functions_text(rs: Seq<RegisterDef>, cs: Seq<CommandDef>, bs: Seq<BufferDef>) -> Seq<char> {
    concat_texts(rs.map_values(|r: RegisterDef| register_function_text(r))) + concat_texts(
        cs.map_values(|c: CommandDef| command_function_text(c)),
    ) + concat_texts(bs.map_values(|b: BufferDef| buffer_function_text(b)))
}

/// The methods of the device: see [`device_functions_text`].
#[verifier::rlimit(50)]
pub fn generate_device_functions(
    registers: &Vec<RegisterDef>,
    commands: &Vec<CommandDef>,
    buffers: &Vec<BufferDef>,
) -> (res: String)
    ensures
        res@ == device_functions_text(registers@, commands@, buffers@),
{
    let mut c = Code::new();
    let ghost fr = |r: RegisterDef| register_function_text(r);
    let ghost fc = |x: CommandDef| command_function_text(x);
    let ghost fb = |b: BufferDef| buffer_function_text(b);
    let mut i: usize = 0;
    proof {
        assert(registers@.take(0).map_values(fr) =~= Seq::<Seq<char>>::empty());
    }
    while i < registers.len()
        invariant
            i <= registers@.len(),
            fr == (|r: RegisterDef| register_function_text(r)),
            c.s@ == concat_texts(registers@.take(i as int).map_values(fr)),
        decreases registers@.len() - i,
    {
        let t = generate_register_function(&registers[i]);
        c.add(t.as_str());
        proof {
            let next = registers@.take(i + 1).map_values(fr);
            assert(next.drop_last() =~= registers@.take(i as int).map_values(fr));
            assert(c.s@ =~= concat_texts(next));
        }
        i = i + 1;
    }
    proof {
        assert(registers@.take(registers@.len() as int) =~= registers@);
    }
    let ghost s1 = c.s@;
    let mut j: usize = 0;
    proof {
        assert(commands@.take(0).map_values(fc) =~= Seq::<Seq<char>>::empty());
        assert(s1 + Seq::<char>::empty() =~= s1);
    }
    while j < commands.len()
        invariant
            j <= commands@.len(),
            fc == (|x: CommandDef| command_function_text(x)),
            c.s@ == s1 + concat_texts(commands@.take(j as int).map_values(fc)),
        decreases commands@.len() - j,
    {
        let t = generate_command_function(&commands[j]);
        c.add(t.as_str());
        proof {
            let next = commands@.take(j + 1).map_values(fc);
            assert(next.drop_last() =~= commands@.take(j as int).map_values(fc));
            assert(c.s@ =~= s1 + concat_texts(next));
        }
        j = j + 1;
    }
    proof {
        assert(commands@.take(commands@.len() as int) =~= commands@);
    }
    let ghost s2 = c.s@;
    let mut k: usize = 0;
    proof {
        assert(buffers@.take(0).map_values(fb) =~= Seq::<Seq<char>>::empty());
        assert(s2 + Seq::<char>::empty() =~= s2);
    }
    while k < buffers.len()
        invariant
            k <= buffers@.len(),
            fb == (|b: BufferDef| buffer_function_text(b)),
            c.s@ == s2 + concat_texts(buffers@.take(k as int).map_values(fb)),
        decreases buffers@.len() - k,
    {
        let t = generate_buffer_function(&buffers[k]);
        c.add(t.as_str());
        proof {
            let next = buffers@.take(k + 1).map_values(fb);
            assert(next.drop_last() =~= buffers@.take(k as int).map_values(fb));
            assert(c.s@ =~= s2 + concat_texts(next));
        }
        k = k + 1;
    }
    proof {
        assert(buffers@.take(buffers@.len() as int) =~= buffers@);
        assert(c.s@ =~= device_functions_text(registers@, commands@, buffers@));
    }
    c.s
}

/// The impl block of the device type with its methods: its attributes, `impl` with its
/// generic parameters, the device type, and the methods of its registers, commands and
/// buffers.
pub open spec fn device_impl_text(
    attributes: Seq<String>,
    generics: Seq<char>,
    device_type: Seq<char>,
    rs: Seq<RegisterDef>,
    cs: Seq<CommandDef>,
    bs: Seq<BufferDef>,
) -> Seq<char> {
    lines_text(attributes) + "impl"@ + generics + " "@ + device_type + " {\n"@ + device_functions_text(rs, cs, bs)
        + "}\n"@
}

/// The impl block of the device type with its methods: see [`device_impl_text`].
#[verifier::rlimit(50)]
pub fn generate_device_impl(
    attributes: &Vec<String>,
    generics: &str,
    device_type: &str,
    registers: &Vec<RegisterDef>,
    commands: &Vec<CommandDef>,
    buffers: &Vec<BufferDef>,
) -> (res: String)
    ensures
        res@ == device_impl_text(attributes@, generics@, device_type@, registers@, commands@, buffers@),
{
    let mut c = Code::new();
    add_lines(&mut c, attributes);
    c.add("impl");
    c.add(generics);
    c.add(" ");
    c.add(device_type);
    c.add(" {\n");
    let f = generate_device_functions(registers, commands, buffers);
    c.add(f.as_str());
    c.add("}\n");
    c.s
}

} // verus!
