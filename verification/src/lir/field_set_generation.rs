//! The Rust code of a field set: a struct of bytes with a getter and a setter per field,
//! its constructors with the reset values, conversions from and into bytes, its debug and
//! `defmt` output, and the bitwise operations.

use vstd::prelude::*;

use crate::case::{case_converted, convert_name, TargetCase};
use crate::lir::block_generation::push_joined;
use crate::lir::code_transform::{
    description_to_docstring, docstring_text, defmt_hint, get_super_prefix, super_prefix_text,
};
use crate::lir::enum_generation::{join_texts, Code};
use crate::lir::{Field, FieldConversionMethod, FieldSet};
use crate::mir::{default_boundaries, default_word_boundaries, Access, BitOrder, ByteOrder};
use crate::text::{decimal, decimal_string};

verus! {

/// The prefix that a field set's code puts before the type that a conversion converts to:
/// the same as [`get_super_prefix`] gives.
pub fn get_super_token(conversion_method: &FieldConversionMethod) -> (res: &'static str)
    ensures
        res@ == super_prefix_text(*conversion_method),
{
    get_super_prefix(conversion_method)
}

/// The name of a byte order in the generated code.
pub open spec fn byte_order_text(bo: ByteOrder) -> Seq<char> {
    match bo {
        ByteOrder::LE => "LE"@,
        ByteOrder::BE => "BE"@,
    }
}

/// The name of a bit order in the generated code.
pub open spec fn bit_order_text(bit: BitOrder) -> Seq<char> {
    match bit {
        BitOrder::LSB0 => "lsb0"@,
        BitOrder::MSB0 => "msb0"@,
    }
}

/// The function of `device_driver` that loads or stores (`kind`) a field of the base type
/// with the byte and bit order.
pub open spec fn ops_fn_text(kind: Seq<char>, bt: Seq<char>, bo: ByteOrder, bit: BitOrder) -> Seq<char> {
    "::device_driver::ops::"@ + kind + "_"@ + bit_order_text(bit) + "::<"@ + bt
        + ", ::device_driver::ops::"@ + byte_order_text(bo) + ">"@
}

/// What the getter of a field returns.
pub open spec fn read_return_text(f: Field) -> Seq<char> {
    let sup = super_prefix_text(f.conversion_method);
    match f.conversion_method {
        FieldConversionMethod::NoConversion => f.base_type@,
        FieldConversionMethod::Into(t) => sup + " "@ + t@,
        FieldConversionMethod::UnsafeInto(t) => sup + " "@ + t@,
        FieldConversionMethod::TryInto(t) => "Result<"@ + sup + " "@ + t@ + ", <"@ + sup + " "@ + t@
            + " as TryFrom<"@ + f.base_type@ + ">>::Error>"@,
        FieldConversionMethod::Bool => "bool"@,
    }
}

/// How the getter converts the raw value.
pub open spec fn read_conversion_text(m: FieldConversionMethod) -> Seq<char> {
    match m {
        FieldConversionMethod::NoConversion => "raw"@,
        FieldConversionMethod::Into(_) => "raw.into()"@,
        FieldConversionMethod::UnsafeInto(_) => "unsafe { raw.try_into().unwrap_unchecked() }"@,
        FieldConversionMethod::TryInto(_) => "raw.try_into()"@,
        FieldConversionMethod::Bool => "raw > 0"@,
    }
}

/// The type the setter of a field takes, after the prefix.
pub open spec fn write_input_text(f: Field) -> Seq<char> {
    match f.conversion_method {
        FieldConversionMethod::NoConversion => f.base_type@,
        FieldConversionMethod::Into(t) => t@,
        FieldConversionMethod::UnsafeInto(t) => t@,
        FieldConversionMethod::TryInto(t) => t@,
        FieldConversionMethod::Bool => "bool"@,
    }
}

/// How the setter converts the value.
pub open spec fn write_conversion_text(m: FieldConversionMethod) -> Seq<char> {
    match m {
        FieldConversionMethod::NoConversion => "value"@,
        FieldConversionMethod::Bool => "value as _"@,
        _ => "value.into()"@,
    }
}

/// The getter of a field: it loads the field's bits and converts them. A field that
/// can't be read has none.
pub open spec fn read_fn_text(f: Field, bo: ByteOrder, bit: BitOrder) -> Seq<char> {
    if !f.access.spec_is_readable() {
        Seq::empty()
    } else {
        "\n#[doc = \"Read the `"@ + f.name@ + "` field of the register.\"]\n#[doc = \"\"]\n"@
            + docstring_text(f.description@) + "\n"@ + f.cfg_attr@ + "\npub fn "@ + f.name@
            + "(&self) -> "@ + read_return_text(f) + " {\n    let raw = unsafe { "@ + ops_fn_text(
            "load"@,
            f.base_type@,
            bo,
            bit,
        ) + "(&self.bits, "@ + decimal(f.address.start as int) + ", "@ + decimal(f.address.end as int)
            + ") };\n    "@ + read_conversion_text(f.conversion_method) + "\n}\n"@
    }
}

/// The setter of a field: it converts the value and stores the field's bits. A field that
/// can't be written has none.
pub open spec fn write_fn_text(f: Field, bo: ByteOrder, bit: BitOrder) -> Seq<char> {
    if f.access is RO {
        Seq::empty()
    } else {
        "\n#[doc = \"Write the `"@ + f.name@ + "` field of the register.\"]\n#[doc = \"\"]\n"@
            + docstring_text(f.description@) + "\n"@ + f.cfg_attr@ + "\npub fn set_"@ + f.name@
            + "(&mut self, value: "@ + super_prefix_text(f.conversion_method) + " "@ + write_input_text(f)
            + ") {\n    let raw = "@ + write_conversion_text(f.conversion_method) + ";\n    unsafe { "@
            + ops_fn_text("store"@, f.base_type@, bo, bit) + "(raw, "@ + decimal(f.address.start as int)
            + ", "@ + decimal(f.address.end as int) + ", &mut self.bits) };\n}\n"@
    }
}

/// The parts of the field set's code that each field contributes to.
#[derive(Clone, Copy)]
pub enum FieldSetPiece {
    /// Its getter.
    Read,
    /// Its setter.
    Write,
    /// Its entry in the debug output.
    Debug,
    /// Its entry in the `defmt` format text.
    DefmtFormat,
    /// Its value in the `defmt` output.
    DefmtCall,
}

/// What a field contributes to a part of the field set's code.
pub open spec fn piece_text(f: Field, piece: FieldSetPiece, bo: ByteOrder, bit: BitOrder) -> Seq<char> {
    match piece {
        FieldSetPiece::Read => read_fn_text(f, bo, bit),
        FieldSetPiece::Write => write_fn_text(f, bo, bit),
        FieldSetPiece::Debug => ".field(\""@ + f.name@ + "\", &self."@ + f.name@ + "())"@,
        FieldSetPiece::DefmtFormat => f.name@ + ": {"@ + defmt_hint(f) + "}"@,
        FieldSetPiece::DefmtCall => "self."@ + f.name@ + "()"@,
    }
}

/// What all fields contribute to a part, joined by the separator.
pub open spec fn pieces_text(
    fs: Seq<Field>,
    piece: FieldSetPiece,
    bo: ByteOrder,
    bit: BitOrder,
    sep: Seq<char>,
) -> Seq<char> {
    join_texts(fs.map_values(|f: Field| piece_text(f, piece, bo, bit)), sep)
}

/// The bytes as numbers separated by commas.
pub open spec fn byte_values_text(bs: Seq<u8>) -> Seq<char> {
    join_texts(bs.map_values(|b: u8| decimal(b as int)), ","@)
}

/// The constructor with the reset value of a ref that overrides it.
pub open spec fn ref_ctor_text(r: (String, Vec<u8>)) -> Seq<char> {
    "\n#[doc = \"Create a new instance, loaded with the reset value of the `"@ + r.0@
        + "` ref\"]\npub const fn new_as_"@ + case_converted(r.0@, default_word_boundaries(), TargetCase::Snake)
        + "() -> Self {\n    Self {\n        bits: ["@ + byte_values_text(r.1@) + "],\n    }\n}\n"@
}

/// The constructors with the reset values of the refs, separated by line breaks.
pub open spec fn ref_ctors_text(rs: Seq<(String, Vec<u8>)>) -> Seq<char> {
    join_texts(rs.map_values(|r: (String, Vec<u8>)| ref_ctor_text(r)), "\n"@)
}

/// The number of bytes of a field set of the size in bits.
pub open spec fn field_set_bytes(size_bits: u32) -> int {
    (size_bits + 7) / 8
}

/// The struct of the field set and its `FieldSet` impl.
pub open spec fn field_set_struct_text(v: FieldSet) -> Seq<char> {
    let sb = decimal(field_set_bytes(v.size_bits));
    "\n"@ + docstring_text(v.description@) + "\n"@ + v.cfg_attr@
        + "\n#[derive(Copy, Clone, Eq, PartialEq)]\npub struct "@ + v.name@
        + " {\n    /// The internal bits\n    bits: [u8; "@ + sb + "],\n}\n\n"@ + v.cfg_attr@
        + "\nimpl ::device_driver::FieldSet for "@ + v.name@ + " {\n    const SIZE_BITS: u32 = "@ + decimal(
        v.size_bits as int,
    )
        + ";\n    fn new_with_zero() -> Self {\n        Self::new_zero()\n    }\n    fn get_inner_buffer(&self) -> &[u8] {\n        &self.bits\n    }\n    fn get_inner_buffer_mut(&mut self) -> &mut [u8] {\n        &mut self.bits\n    }\n}\n\n"@
}

/// The inherent impl of the field set: its constructors, getters and setters.
pub open spec fn field_set_impl_text(v: FieldSet) -> Seq<char> {
    let sb = decimal(field_set_bytes(v.size_bits));
    v.cfg_attr@ + "\nimpl "@ + v.name@
        + " {\n    /// Create a new instance, loaded with the reset value (if any)\n    pub const fn new() -> Self {\n        Self {\n            bits: ["@
        + byte_values_text(v.reset_value@)
        + "],\n        }\n    }\n    /// Create a new instance, loaded with all zeroes\n    pub const fn new_zero() -> Self {\n        Self {\n            bits: [0; "@
        + sb + "],\n        }\n    }\n\n"@ + ref_ctors_text(v.ref_reset_overrides@) + "\n\n"@ + pieces_text(
        v.fields@,
        FieldSetPiece::Read,
        v.byte_order,
        v.bit_order,
        "\n"@,
    ) + "\n\n"@ + pieces_text(v.fields@, FieldSetPiece::Write, v.byte_order, v.bit_order, "\n"@)
        + "\n}\n\n"@
}

/// The conversions of the field set from and into its bytes, and its debug output.
pub open spec fn field_set_conversions_text(v: FieldSet) -> Seq<char> {
    let sb = decimal(field_set_bytes(v.size_bits));
    "\n"@ + v.cfg_attr@ + "\nimpl From<[u8; "@ + sb + "]> for "@ + v.name@ + " {\n    fn from(bits: [u8; "@ + sb
        + "]) -> Self {\n        Self {\n            bits,\n        }\n    }\n}\n"@ + "\n"@ + v.cfg_attr@
        + "\nimpl From<"@ + v.name@ + "> for [u8; "@ + sb + "] {\n    fn from(val: "@ + v.name@
        + ") -> Self {\n        val.bits\n    }\n}\n"@ + "\n"@ + v.cfg_attr@ + "\nimpl core::fmt::Debug for "@
        + v.name@
        + " {\n    fn fmt(&self, f: &mut core::fmt::Formatter<'_>) -> Result<(), core::fmt::Error> {\n        f.debug_struct(\""@
        + v.name@ + "\")\n            "@ + pieces_text(
        v.fields@,
        FieldSetPiece::Debug,
        v.byte_order,
        v.bit_order,
        "\n"@,
    ) + "\n            .finish()\n    }\n}\n"@
}

/// The text that `defmt` formats the field set with, and the values that go into it.
pub open spec fn defmt_args_text(v: FieldSet) -> Seq<char> {
    "\""@ + v.name@ + " {{ "@ + pieces_text(v.fields@, FieldSetPiece::DefmtFormat, v.byte_order, v.bit_order, ", "@)
        + " }}\" "@ + (if v.fields@.len() == 0 {
        Seq::empty()
    } else {
        ","@
    }) + "\n            "@ + pieces_text(
        v.fields@,
        FieldSetPiece::DefmtCall,
        v.byte_order,
        v.bit_order,
        ",\n"@,
    )
}

/// The `defmt` output of the field set under the feature: the name and each field with
/// its formatting hint.
pub open spec fn defmt_impl_text(v: FieldSet, feat: Seq<char>) -> Seq<char> {
    "\n"@ + v.cfg_attr@ + "\n#[cfg(feature = \""@ + feat + "\")]\nimpl defmt::Format for "@ + v.name@
        + " {\n    fn format(&self, f: defmt::Formatter) {\n        defmt::write!(\n            f,\n            "@
        + defmt_args_text(v) + "\n        )\n    }\n}\n"@
}

/// The `defmt` output of the field set under the feature, if there is one.
pub open spec fn field_set_defmt_text(v: FieldSet, defmt_feature: Option<Seq<char>>) -> Seq<char> {
    match defmt_feature {
        None => Seq::empty(),
        Some(feat) => defmt_impl_text(v, feat),
    }
}

/// A bitwise operation of two field sets and its assigning form.
pub open spec fn bin_op_text(
    cfg: Seq<char>,
    name: Seq<char>,
    tr: Seq<char>,
    method: Seq<char>,
    sym: Seq<char>,
) -> Seq<char> {
    "\n"@ + cfg + "\nimpl core::ops::"@ + tr + " for "@ + name + " {\n    type Output = Self;\n    fn "@ + method
        + "(mut self, rhs: Self) -> Self::Output {\n        self "@ + sym
        + "= rhs;\n        self\n    }\n}\n\n"@ + cfg + "\nimpl core::ops::"@ + tr + "Assign for "@ + name
        + " {\n    fn "@ + method
        + "_assign(&mut self, rhs: Self) {\n        for (l, r) in self.bits.iter_mut().zip(&rhs.bits) {\n            *l "@
        + sym + "= *r;\n        }\n    }\n}\n"@
}

/// The bitwise operations of the field set.
pub open spec fn field_set_ops_text(cfg: Seq<char>, name: Seq<char>) -> Seq<char> {
    bin_op_text(cfg, name, "BitAnd"@, "bitand"@, "&"@) + bin_op_text(cfg, name, "BitOr"@, "bitor"@, "|"@)
        + bin_op_text(cfg, name, "BitXor"@, "bitxor"@, "^"@) + "\n"@ + cfg + "\nimpl core::ops::Not for "@
        + name
        + " {\n    type Output = Self;\n    fn not(mut self) -> Self::Output {\n        for val in self.bits.iter_mut() {\n            *val = !*val;\n        }\n        self\n    }\n}\n"@
}

/// The code of a field set, with a `defmt` implementation under the feature, if any.
/// A field set without bits has no code: the unit type stands for it.
#[verifier::opaque]
pub open spec fn field_set_text(v: FieldSet, defmt_feature: Option<Seq<char>>) -> Seq<char> {
    if v.size_bits == 0 {
        Seq::empty()
    } else {
        field_set_struct_text(v) + field_set_impl_text(v) + field_set_conversions_text(v)
            + field_set_defmt_text(v, defmt_feature) + field_set_ops_text(v.cfg_attr@, v.name@)
    }
}

/// Adds the decimal text of the number.
fn add_number(c: &mut Code, v: i128)
    ensures
        final(c).s@ == old(c).s@ + decimal(v as int),
{
    let d = decimal_string(v);
    c.add(d.as_str());
}

/// Adds the function of `device_driver` that loads or stores a field.
fn add_ops_fn(c: &mut Code, kind: &str, bt: &str, bo: ByteOrder, bit: BitOrder)
    ensures
        final(c).s@ == old(c).s@ + ops_fn_text(kind@, bt@, bo, bit),
{
    let ghost s0 = c.s@;
    c.add("::device_driver::ops::");
    c.add(kind);
    c.add("_");
    match bit {
        BitOrder::LSB0 => c.add("lsb0"),
        BitOrder::MSB0 => c.add("msb0"),
    }
    c.add("::<");
    c.add(bt);
    c.add(", ::device_driver::ops::");
    match bo {
        ByteOrder::LE => c.add("LE"),
        ByteOrder::BE => c.add("BE"),
    }
    c.add(">");
    proof {
        assert(c.s@ =~= s0 + ops_fn_text(kind@, bt@, bo, bit));
    }
}

/// Adds what the getter of a field returns.
#[verifier::rlimit(50)]
fn add_read_return(c: &mut Code, f: &Field)
    ensures
        final(c).s@ == old(c).s@ + read_return_text(*f),
{
    let ghost s0 = c.s@;
    let sup = get_super_token(&f.conversion_method);
    match &f.conversion_method {
        FieldConversionMethod::NoConversion => c.add(f.base_type.as_str()),
        FieldConversionMethod::Into(t) => {
            c.add(sup);
            c.add(" ");
            c.add(t.as_str());
        },
        FieldConversionMethod::UnsafeInto(t) => {
            c.add(sup);
            c.add(" ");
            c.add(t.as_str());
        },
        FieldConversionMethod::TryInto(t) => {
            c.add("Result<");
            c.add(sup);
            c.add(" ");
            c.add(t.as_str());
            c.add(", <");
            c.add(sup);
            c.add(" ");
            c.add(t.as_str());
            c.add(" as TryFrom<");
            c.add(f.base_type.as_str());
            c.add(">>::Error>");
        },
        FieldConversionMethod::Bool => c.add("bool"),
    }
    proof {
        assert(c.s@ =~= s0 + read_return_text(*f));
    }
}

/// The text of how the getter converts the raw value.
fn read_conversion(m: &FieldConversionMethod) -> (res: &'static str)
    ensures
        res@ == read_conversion_text(*m),
{
    match m {
        FieldConversionMethod::NoConversion => "raw",
        FieldConversionMethod::Into(_) => "raw.into()",
        FieldConversionMethod::UnsafeInto(_) => "unsafe { raw.try_into().unwrap_unchecked() }",
        FieldConversionMethod::TryInto(_) => "raw.try_into()",
        FieldConversionMethod::Bool => "raw > 0",
    }
}

/// The type the setter of a field takes.
fn write_input(f: &Field) -> (res: &str)
    ensures
        res@ == write_input_text(*f),
{
    match &f.conversion_method {
        FieldConversionMethod::NoConversion => f.base_type.as_str(),
        FieldConversionMethod::Into(t) => t.as_str(),
        FieldConversionMethod::UnsafeInto(t) => t.as_str(),
        FieldConversionMethod::TryInto(t) => t.as_str(),
        FieldConversionMethod::Bool => "bool",
    }
}

/// The text of how the setter converts the value.
fn write_conversion(m: &FieldConversionMethod) -> (res: &'static str)
    ensures
        res@ == write_conversion_text(*m),
{
    match m {
        FieldConversionMethod::NoConversion => "value",
        FieldConversionMethod::Bool => "value as _",
        _ => "value.into()",
    }
}

/// Adds the getter of a field.
#[verifier::rlimit(50)]
fn add_read_fn(c: &mut Code, f: &Field, bo: ByteOrder, bit: BitOrder)
    ensures
        final(c).s@ == old(c).s@ + read_fn_text(*f, bo, bit),
{
    let ghost s0 = c.s@;
    if matches!(f.access, Access::WO) {
        proof {
            assert(c.s@ =~= s0 + read_fn_text(*f, bo, bit));
        }
        return;
    }
    let doc = description_to_docstring(f.description.as_str());
    c.add("\n#[doc = \"Read the `");
    c.add(f.name.as_str());
    c.add("` field of the register.\"]\n#[doc = \"\"]\n");
    c.add(doc.as_str());
    c.add("\n");
    c.add(f.cfg_attr.as_str());
    c.add("\npub fn ");
    c.add(f.name.as_str());
    c.add("(&self) -> ");
    add_read_return(c, f);
    c.add(" {\n    let raw = unsafe { ");
    add_ops_fn(c, "load", f.base_type.as_str(), bo, bit);
    c.add("(&self.bits, ");
    add_number(c, f.address.start as i128);
    c.add(", ");
    add_number(c, f.address.end as i128);
    c.add(") };\n    ");
    c.add(read_conversion(&f.conversion_method));
    c.add("\n}\n");
    proof {
        assert(c.s@ =~= s0 + read_fn_text(*f, bo, bit));
    }
}

/// Adds the setter of a field.
#[verifier::rlimit(50)]
fn add_write_fn(c: &mut Code, f: &Field, bo: ByteOrder, bit: BitOrder)
    ensures
        final(c).s@ == old(c).s@ + write_fn_text(*f, bo, bit),
{
    let ghost s0 = c.s@;
    if matches!(f.access, Access::RO) {
        proof {
            assert(c.s@ =~= s0 + write_fn_text(*f, bo, bit));
        }
        return;
    }
    let doc = description_to_docstring(f.description.as_str());
    c.add("\n#[doc = \"Write the `");
    c.add(f.name.as_str());
    c.add("` field of the register.\"]\n#[doc = \"\"]\n");
    c.add(doc.as_str());
    c.add("\n");
    c.add(f.cfg_attr.as_str());
    c.add("\npub fn set_");
    c.add(f.name.as_str());
    c.add("(&mut self, value: ");
    c.add(get_super_token(&f.conversion_method));
    c.add(" ");
    c.add(write_input(f));
    c.add(") {\n    let raw = ");
    c.add(write_conversion(&f.conversion_method));
    c.add(";\n    unsafe { ");
    add_ops_fn(c, "store", f.base_type.as_str(), bo, bit);
    c.add("(raw, ");
    add_number(c, f.address.start as i128);
    c.add(", ");
    add_number(c, f.address.end as i128);
    c.add(", &mut self.bits) };\n}\n");
    proof {
        assert(c.s@ =~= s0 + write_fn_text(*f, bo, bit));
    }
}

/// What a field contributes to a part of the field set's code.
#[verifier::rlimit(50)]
fn piece(f: &Field, which: FieldSetPiece, bo: ByteOrder, bit: BitOrder) -> (res: String)
    ensures
        res@ == piece_text(*f, which, bo, bit),
{
    let mut c = Code::new();
    let ghost s0 = c.s@;
    match which {
        FieldSetPiece::Read => add_read_fn(&mut c, f, bo, bit),
        FieldSetPiece::Write => add_write_fn(&mut c, f, bo, bit),
        FieldSetPiece::Debug => {
            c.add(".field(\"");
            c.add(f.name.as_str());
            c.add("\", &self.");
            c.add(f.name.as_str());
            c.add("())");
        },
        FieldSetPiece::DefmtFormat => {
            c.add(f.name.as_str());
            c.add(": {");
            match &f.conversion_method {
                FieldConversionMethod::NoConversion => {
                    c.add("=");
                    c.add(f.base_type.as_str());
                },
                FieldConversionMethod::Bool => c.add("=bool"),
                _ => {},
            }
            c.add("}");
        },
        FieldSetPiece::DefmtCall => {
            c.add("self.");
            c.add(f.name.as_str());
            c.add("()");
        },
    }
    proof {
        assert(c.s@ =~= piece_text(*f, which, bo, bit));
    }
    c.s
}

/// Adds what all fields contribute to a part, joined by the separator.
#[verifier::rlimit(50)]
fn add_pieces(c: &mut Code, fs: &Vec<Field>, which: FieldSetPiece, bo: ByteOrder, bit: BitOrder, sep: &str)
    ensures
        final(c).s@ == old(c).s@ + pieces_text(fs@, which, bo, bit, sep@),
{
    let ghost start = c.s@;
    let ghost f = |x: Field| piece_text(x, which, bo, bit);
    let mut i: usize = 0;
    proof {
        assert(fs@.take(0).map_values(f) =~= Seq::<Seq<char>>::empty());
        assert(start + Seq::<char>::empty() =~= start);
    }
    while i < fs.len()
        invariant
            i <= fs@.len(),
            f == (|x: Field| piece_text(x, which, bo, bit)),
            c.s@ == start + join_texts(fs@.take(i as int).map_values(f), sep@),
        decreases fs@.len() - i,
    {
        let text = piece(&fs[i], which, bo, bit);
        push_joined(c, text.as_str(), sep, i == 0, Ghost(fs@.take(i as int).map_values(f)), Ghost(start));
        proof {
            assert(fs@.take(i as int).map_values(f).push(text@) =~= fs@.take(i + 1).map_values(f));
        }
        i = i + 1;
    }
    proof {
        assert(fs@.take(fs@.len() as int) =~= fs@);
    }
}

/// Adds the bytes as numbers separated by commas.
#[verifier::rlimit(50)]
fn add_byte_values(c: &mut Code, bs: &Vec<u8>)
    ensures
        final(c).s@ == old(c).s@ + byte_values_text(bs@),
{
    let ghost start = c.s@;
    let ghost f = |b: u8| decimal(b as int);
    let mut i: usize = 0;
    proof {
        assert(bs@.take(0).map_values(f) =~= Seq::<Seq<char>>::empty());
        assert(start + Seq::<char>::empty() =~= start);
    }
    while i < bs.len()
        invariant
            i <= bs@.len(),
            f == (|b: u8| decimal(b as int)),
            c.s@ == start + join_texts(bs@.take(i as int).map_values(f), ","@),
        decreases bs@.len() - i,
    {
        let text = decimal_string(bs[i] as i128);
        push_joined(c, text.as_str(), ",", i == 0, Ghost(bs@.take(i as int).map_values(f)), Ghost(start));
        proof {
            assert(bs@.take(i as int).map_values(f).push(text@) =~= bs@.take(i + 1).map_values(f));
        }
        i = i + 1;
    }
    proof {
        assert(bs@.take(bs@.len() as int) =~= bs@);
    }
}

/// The constructor with the reset value of a ref.
#[verifier::rlimit(50)]
fn ref_ctor(r: &(String, Vec<u8>)) -> (res: String)
    ensures
        res@ == ref_ctor_text(*r),
{
    let b = default_boundaries();
    let n = convert_name(r.0.as_str(), &b, TargetCase::Snake);
    let mut c = Code::new();
    c.add("\n#[doc = \"Create a new instance, loaded with the reset value of the `");
    c.add(r.0.as_str());
    c.add("` ref\"]\npub const fn new_as_");
    c.add(n.as_str());
    c.add("() -> Self {\n    Self {\n        bits: [");
    add_byte_values(&mut c, &r.1);
    c.add("],\n    }\n}\n");
    proof {
        assert(c.s@ =~= ref_ctor_text(*r));
    }
    c.s
}

/// Adds the constructors with the reset values of the refs.
#[verifier::rlimit(50)]
fn add_ref_ctors(c: &mut Code, rs: &Vec<(String, Vec<u8>)>)
    ensures
        final(c).s@ == old(c).s@ + ref_ctors_text(rs@),
{
    let ghost start = c.s@;
    let ghost f = |r: (String, Vec<u8>)| ref_ctor_text(r);
    let mut i: usize = 0;
    proof {
        assert(rs@.take(0).map_values(f) =~= Seq::<Seq<char>>::empty());
        assert(start + Seq::<char>::empty() =~= start);
    }
    while i < rs.len()
        invariant
            i <= rs@.len(),
            f == (|r: (String, Vec<u8>)| ref_ctor_text(r)),
            c.s@ == start + join_texts(rs@.take(i as int).map_values(f), "\n"@),
        decreases rs@.len() - i,
    {
        let text = ref_ctor(&rs[i]);
        push_joined(c, text.as_str(), "\n", i == 0, Ghost(rs@.take(i as int).map_values(f)), Ghost(start));
        proof {
            assert(rs@.take(i as int).map_values(f).push(text@) =~= rs@.take(i + 1).map_values(f));
        }
        i = i + 1;
    }
    proof {
        assert(rs@.take(rs@.len() as int) =~= rs@);
    }
}

/// Adds the struct of the field set and its `FieldSet` impl.
#[verifier::rlimit(50)]
fn add_struct(c: &mut Code, v: &FieldSet, sb: &str)
    requires
        sb@ == decimal(field_set_bytes(v.size_bits)),
    ensures
        final(c).s@ == old(c).s@ + field_set_struct_text(*v),
{
    let ghost s0 = c.s@;
    let doc = description_to_docstring(v.description.as_str());
    c.add("\n");
    c.add(doc.as_str());
    c.add("\n");
    c.add(v.cfg_attr.as_str());
    c.add("\n#[derive(Copy, Clone, Eq, PartialEq)]\npub struct ");
    c.add(v.name.as_str());
    c.add(" {\n    /// The internal bits\n    bits: [u8; ");
    c.add(sb);
    c.add("],\n}\n\n");
    c.add(v.cfg_attr.as_str());
    c.add("\nimpl ::device_driver::FieldSet for ");
    c.add(v.name.as_str());
    c.add(" {\n    const SIZE_BITS: u32 = ");
    add_number(c, v.size_bits as i128);
    c.add(
        ";\n    fn new_with_zero() -> Self {\n        Self::new_zero()\n    }\n    fn get_inner_buffer(&self) -> &[u8] {\n        &self.bits\n    }\n    fn get_inner_buffer_mut(&mut self) -> &mut [u8] {\n        &mut self.bits\n    }\n}\n\n",
    );
    proof {
        assert(c.s@ =~= s0 + field_set_struct_text(*v));
    }
}

/// Adds the inherent impl of the field set.
#[verifier::rlimit(50)]
fn add_impl(c: &mut Code, v: &FieldSet, sb: &str)
    requires
        sb@ == decimal(field_set_bytes(v.size_bits)),
    ensures
        final(c).s@ == old(c).s@ + field_set_impl_text(*v),
{
    let ghost s0 = c.s@;
    c.add(v.cfg_attr.as_str());
    c.add("\nimpl ");
    c.add(v.name.as_str());
    c.add(
        " {\n    /// Create a new instance, loaded with the reset value (if any)\n    pub const fn new() -> Self {\n        Self {\n            bits: [",
    );
    add_byte_values(c, &v.reset_value);
    c.add(
        "],\n        }\n    }\n    /// Create a new instance, loaded with all zeroes\n    pub const fn new_zero() -> Self {\n        Self {\n            bits: [0; ",
    );
    c.add(sb);
    c.add("],\n        }\n    }\n\n");
    add_ref_ctors(c, &v.ref_reset_overrides);
    c.add("\n\n");
    add_pieces(c, &v.fields, FieldSetPiece::Read, v.byte_order, v.bit_order, "\n");
    c.add("\n\n");
    add_pieces(c, &v.fields, FieldSetPiece::Write, v.byte_order, v.bit_order, "\n");
    c.add("\n}\n\n");
    proof {
        assert(c.s@ =~= s0 + field_set_impl_text(*v));
    }
}

/// Adds the conversions from and into bytes and the debug output.
#[verifier::rlimit(50)]
fn add_conversions(c: &mut Code, v: &FieldSet, sb: &str)
    requires
        sb@ == decimal(field_set_bytes(v.size_bits)),
    ensures
        final(c).s@ == old(c).s@ + field_set_conversions_text(*v),
{
    let ghost s0 = c.s@;
    c.add("\n");
    c.add(v.cfg_attr.as_str());
    c.add("\nimpl From<[u8; ");
    c.add(sb);
    c.add("]> for ");
    c.add(v.name.as_str());
    c.add(" {\n    fn from(bits: [u8; ");
    c.add(sb);
    c.add("]) -> Self {\n        Self {\n            bits,\n        }\n    }\n}\n");
    c.add("\n");
    c.add(v.cfg_attr.as_str());
    c.add("\nimpl From<");
    c.add(v.name.as_str());
    c.add("> for [u8; ");
    c.add(sb);
    c.add("] {\n    fn from(val: ");
    c.add(v.name.as_str());
    c.add(") -> Self {\n        val.bits\n    }\n}\n");
    c.add("\n");
    c.add(v.cfg_attr.as_str());
    c.add("\nimpl core::fmt::Debug for ");
    c.add(v.name.as_str());
    c.add(
        " {\n    fn fmt(&self, f: &mut core::fmt::Formatter<'_>) -> Result<(), core::fmt::Error> {\n        f.debug_struct(\"",
    );
    c.add(v.name.as_str());
    c.add("\")\n            ");
    add_pieces(c, &v.fields, FieldSetPiece::Debug, v.byte_order, v.bit_order, "\n");
    c.add("\n            .finish()\n    }\n}\n");
    proof {
        assert(c.s@ =~= s0 + field_set_conversions_text(*v));
    }
}

/// Adds the text that `defmt` formats the field set with, and the values.
#[verifier::rlimit(50)]
fn add_defmt_args(c: &mut Code, v: &FieldSet)
    ensures
        final(c).s@ == old(c).s@ + defmt_args_text(*v),
{
    let ghost s0 = c.s@;
    c.add("\"");
    c.add(v.name.as_str());
    c.add(" {{ ");
    add_pieces(c, &v.fields, FieldSetPiece::DefmtFormat, v.byte_order, v.bit_order, ", ");
    c.add(" }}\" ");
    let ghost s1 = c.s@;
    if v.fields.len() > 0 {
        c.add(",");
    } else {
        proof {
            assert(c.s@ =~= s1 + Seq::<char>::empty());
        }
    }
    c.add("\n            ");
    add_pieces(c, &v.fields, FieldSetPiece::DefmtCall, v.byte_order, v.bit_order, ",\n");
    proof {
        assert(c.s@ =~= s0 + defmt_args_text(*v));
    }
}

/// Adds the `defmt` output of the field set under the feature, if there is one.
#[verifier::rlimit(50)]
fn add_defmt(c: &mut Code, v: &FieldSet, defmt_feature: Option<&str>)
    ensures
        final(c).s@ == old(c).s@ + field_set_defmt_text(
            *v,
            match defmt_feature {
                Some(f) => Some(f@),
                None => None,
            },
        ),
{
    let ghost s0 = c.s@;
    match defmt_feature {
        None => {
            proof {
                assert(c.s@ =~= s0 + Seq::<char>::empty());
            }
        },
        Some(feat) => {
            c.add("\n");
            c.add(v.cfg_attr.as_str());
            c.add("\n#[cfg(feature = \"");
            c.add(feat);
            c.add("\")]\nimpl defmt::Format for ");
            c.add(v.name.as_str());
            c.add(
                " {\n    fn format(&self, f: defmt::Formatter) {\n        defmt::write!(\n            f,\n            ",
            );
            add_defmt_args(c, v);
            c.add("\n        )\n    }\n}\n");
            proof {
                assert(c.s@ =~= s0 + defmt_impl_text(*v, feat@));
            }
        },
    }
}

/// Adds a bitwise operation of two field sets and its assigning form.
#[verifier::rlimit(50)]
fn add_bin_op(c: &mut Code, cfg: &str, name: &str, tr: &str, method: &str, sym: &str)
    ensures
        final(c).s@ == old(c).s@ + bin_op_text(cfg@, name@, tr@, method@, sym@),
{
    let ghost s0 = c.s@;
    c.add("\n");
    c.add(cfg);
    c.add("\nimpl core::ops::");
    c.add(tr);
    c.add(" for ");
    c.add(name);
    c.add(" {\n    type Output = Self;\n    fn ");
    c.add(method);
    c.add("(mut self, rhs: Self) -> Self::Output {\n        self ");
    c.add(sym);
    c.add("= rhs;\n        self\n    }\n}\n\n");
    c.add(cfg);
    c.add("\nimpl core::ops::");
    c.add(tr);
    c.add("Assign for ");
    c.add(name);
    c.add(" {\n    fn ");
    c.add(method);
    c.add("_assign(&mut self, rhs: Self) {\n        for (l, r) in self.bits.iter_mut().zip(&rhs.bits) {\n            *l ");
    c.add(sym);
    c.add("= *r;\n        }\n    }\n}\n");
    proof {
        assert(c.s@ =~= s0 + bin_op_text(cfg@, name@, tr@, method@, sym@));
    }
}

/// Adds the bitwise operations of the field set.
#[verifier::rlimit(50)]
fn add_ops(c: &mut Code, cfg: &str, name: &str)
    ensures
        final(c).s@ == old(c).s@ + field_set_ops_text(cfg@, name@),
{
    let ghost s0 = c.s@;
    add_bin_op(c, cfg, name, "BitAnd", "bitand", "&");
    add_bin_op(c, cfg, name, "BitOr", "bitor", "|");
    add_bin_op(c, cfg, name, "BitXor", "bitxor", "^");
    c.add("\n");
    c.add(cfg);
    c.add("\nimpl core::ops::Not for ");
    c.add(name);
    c.add(
        " {\n    type Output = Self;\n    fn not(mut self) -> Self::Output {\n        for val in self.bits.iter_mut() {\n            *val = !*val;\n        }\n        self\n    }\n}\n",
    );
    proof {
        assert(c.s@ =~= s0 + field_set_ops_text(cfg@, name@));
    }
}

/// The code of a field set: see [`field_set_text`].
#[verifier::rlimit(50)]
pub fn generate_field_set(value: &FieldSet, defmt_feature: Option<&str>) -> (res: String)
    ensures
        res@ == field_set_text(
            *value,
            match defmt_feature {
                Some(f) => Some(f@),
                None => None,
            },
        ),
{
    proof {
        reveal(field_set_text);
    }
    if value.size_bits == 0 {
        return String::new();
    }
    let n: u32 = value.size_bits / 8 + if value.size_bits % 8 == 0 { 0 } else { 1 };
    assert(n == field_set_bytes(value.size_bits));
    let sb = decimal_string(n as i128);
    let mut c = Code::new();
    add_struct(&mut c, value, sb.as_str());
    add_impl(&mut c, value, sb.as_str());
    add_conversions(&mut c, value, sb.as_str());
    add_defmt(&mut c, value, defmt_feature);
    add_ops(&mut c, value.cfg_attr.as_str(), value.name.as_str());
    proof {
        assert(c.s@ =~= field_set_text(
            *value,
            match defmt_feature {
                Some(f) => Some(f@),
                None => None,
            },
        ));
    }
    c.s
}

/// The text holds `t` somewhere.
pub open spec fn contains_text(s: Seq<char>, t: Seq<char>) -> bool {
    exists|k: int| 0 <= k && k + t.len() <= s.len() && #[trigger] s.subrange(k, k + t.len()) == t
}

/// The name of the operation of `device_driver` that loads or stores (`kind`) a field
/// with the bit order: `kind`, an underscore and the order.
pub open spec fn op_call_name(kind: Seq<char>, bit: BitOrder) -> Seq<char> {
    kind + "_"@ + bit_order_text(bit)
}

/// The part of `p + x + q` after `p` that is as long as `x` is `x`.
proof fn lemma_middle_part(p: Seq<char>, x: Seq<char>, q: Seq<char>)
    ensures
        (p + x + q).subrange(p.len() as int, (p.len() + x.len()) as int) == x,
        contains_text(p + x + q, x),
{
    assert((p + x + q).subrange(p.len() as int, (p.len() + x.len()) as int) =~= x);
}

/// The two bit orders are written differently, as `lsb0` and `msb0`.
pub proof fn lemma_bit_order_names()
    ensures
        bit_order_text(BitOrder::LSB0) != bit_order_text(BitOrder::MSB0),
        op_call_name("load"@, BitOrder::LSB0) == "load_lsb0"@,
        op_call_name("load"@, BitOrder::MSB0) == "load_msb0"@,
        op_call_name("store"@, BitOrder::LSB0) == "store_lsb0"@,
        op_call_name("store"@, BitOrder::MSB0) == "store_msb0"@,
        forall|kind: Seq<char>| #[trigger] op_call_name(kind, BitOrder::LSB0) != op_call_name(kind, BitOrder::MSB0),
{
    reveal_strlit("lsb0");
    reveal_strlit("msb0");
    reveal_strlit("load");
    reveal_strlit("store");
    reveal_strlit("_");
    reveal_strlit("load_lsb0");
    reveal_strlit("load_msb0");
    reveal_strlit("store_lsb0");
    reveal_strlit("store_msb0");
    assert(bit_order_text(BitOrder::LSB0)[0] != bit_order_text(BitOrder::MSB0)[0]);
    assert(op_call_name("load"@, BitOrder::LSB0) =~= "load_lsb0"@);
    assert(op_call_name("load"@, BitOrder::MSB0) =~= "load_msb0"@);
    assert(op_call_name("store"@, BitOrder::LSB0) =~= "store_lsb0"@);
    assert(op_call_name("store"@, BitOrder::MSB0) =~= "store_msb0"@);
    assert forall|kind: Seq<char>| #[trigger] op_call_name(kind, BitOrder::LSB0) != op_call_name(kind, BitOrder::MSB0) by {
        let k = kind.len() as int + 1;
        assert(op_call_name(kind, BitOrder::LSB0)[k] == 'l');
        assert(op_call_name(kind, BitOrder::MSB0)[k] == 'm');
    }
}

/// The getter of a readable field loads its bits with the field set's bit order: its code
/// calls `load_msb0` for MSB0 and `load_lsb0` for LSB0, at a place that doesn't depend on
/// the order, so the two orders give different getters.
#[verifier::rlimit(80)]
pub proof fn lemma_getter_uses_bit_order(f: Field, bo: ByteOrder, bit: BitOrder)
    requires
        f.access.spec_is_readable(),
    ensures
        contains_text(read_fn_text(f, bo, bit), op_call_name("load"@, bit)),
        bit is MSB0 ==> contains_text(read_fn_text(f, bo, bit), "load_msb0"@),
        bit is LSB0 ==> contains_text(read_fn_text(f, bo, bit), "load_lsb0"@),
        read_fn_text(f, bo, BitOrder::LSB0) != read_fn_text(f, bo, BitOrder::MSB0),
{
    let pre = "\n#[doc = \"Read the `"@ + f.name@ + "` field of the register.\"]\n#[doc = \"\"]\n"@
        + docstring_text(f.description@) + "\n"@ + f.cfg_attr@ + "\npub fn "@ + f.name@ + "(&self) -> "@
        + read_return_text(f) + " {\n    let raw = unsafe { "@ + "::device_driver::ops::"@;
    let post = "::<"@ + f.base_type@ + ", ::device_driver::ops::"@ + byte_order_text(bo) + ">"@
        + "(&self.bits, "@ + decimal(f.address.start as int) + ", "@ + decimal(f.address.end as int)
        + ") };\n    "@ + read_conversion_text(f.conversion_method) + "\n}\n"@;
    assert(read_fn_text(f, bo, BitOrder::LSB0) =~= pre + op_call_name("load"@, BitOrder::LSB0) + post);
    assert(read_fn_text(f, bo, BitOrder::MSB0) =~= pre + op_call_name("load"@, BitOrder::MSB0) + post);
    lemma_middle_part(pre, op_call_name("load"@, bit), post);
    lemma_middle_part(pre, op_call_name("load"@, BitOrder::LSB0), post);
    lemma_middle_part(pre, op_call_name("load"@, BitOrder::MSB0), post);
    lemma_bit_order_names();
}

/// The setter of a writable field stores its bits with the field set's bit order: its
/// code calls `store_msb0` for MSB0 and `store_lsb0` for LSB0, so the two orders give
/// different setters.
#[verifier::rlimit(80)]
pub proof fn lemma_setter_uses_bit_order(f: Field, bo: ByteOrder, bit: BitOrder)
    requires
        !(f.access is RO),
    ensures
        contains_text(write_fn_text(f, bo, bit), op_call_name("store"@, bit)),
        bit is MSB0 ==> contains_text(write_fn_text(f, bo, bit), "store_msb0"@),
        bit is LSB0 ==> contains_text(write_fn_text(f, bo, bit), "store_lsb0"@),
        write_fn_text(f, bo, BitOrder::LSB0) != write_fn_text(f, bo, BitOrder::MSB0),
{
    let pre = "\n#[doc = \"Write the `"@ + f.name@ + "` field of the register.\"]\n#[doc = \"\"]\n"@
        + docstring_text(f.description@) + "\n"@ + f.cfg_attr@ + "\npub fn set_"@ + f.name@
        + "(&mut self, value: "@ + super_prefix_text(f.conversion_method) + " "@ + write_input_text(f)
        + ") {\n    let raw = "@ + write_conversion_text(f.conversion_method) + ";\n    unsafe { "@
        + "::device_driver::ops::"@;
    let post = "::<"@ + f.base_type@ + ", ::device_driver::ops::"@ + byte_order_text(bo) + ">"@ + "(raw, "@
        + decimal(f.address.start as int) + ", "@ + decimal(f.address.end as int)
        + ", &mut self.bits) };\n}\n"@;
    assert(write_fn_text(f, bo, BitOrder::LSB0) =~= pre + op_call_name("store"@, BitOrder::LSB0) + post);
    assert(write_fn_text(f, bo, BitOrder::MSB0) =~= pre + op_call_name("store"@, BitOrder::MSB0) + post);
    lemma_middle_part(pre, op_call_name("store"@, bit), post);
    lemma_middle_part(pre, op_call_name("store"@, BitOrder::LSB0), post);
    lemma_middle_part(pre, op_call_name("store"@, BitOrder::MSB0), post);
    lemma_bit_order_names();
}

/// Holding a text is transitive.
proof fn lemma_contains_trans(s: Seq<char>, t: Seq<char>, u: Seq<char>)
    requires
        contains_text(s, t),
        contains_text(t, u),
    ensures
        contains_text(s, u),
{
    let k1 = choose|k: int| 0 <= k && k + t.len() <= s.len() && #[trigger] s.subrange(k, k + t.len()) == t;
    let k2 = choose|k: int| 0 <= k && k + u.len() <= t.len() && #[trigger] t.subrange(k, k + u.len()) == u;
    assert(s.subrange(k1 + k2, k1 + k2 + u.len()) =~= t.subrange(k2, k2 + u.len()));
}

/// What a text holds, the text with more on either side holds too.
proof fn lemma_contains_extend(a: Seq<char>, t: Seq<char>, b: Seq<char>, x: Seq<char>)
    requires
        contains_text(t, x),
    ensures
        contains_text(a + t, x),
        contains_text(t + b, x),
        contains_text(a + t + b, x),
{
    let k = choose|k: int| 0 <= k && k + x.len() <= t.len() && #[trigger] t.subrange(k, k + x.len()) == x;
    assert((a + t).subrange(a.len() + k, a.len() + k + x.len()) =~= t.subrange(k, k + x.len()));
    assert((t + b).subrange(k, k + x.len()) =~= t.subrange(k, k + x.len()));
    assert((a + t + b).subrange(a.len() + k, a.len() + k + x.len()) =~= t.subrange(k, k + x.len()));
}

/// Texts joined by a separator hold each of them.
proof fn lemma_join_contains(items: Seq<Seq<char>>, sep: Seq<char>, i: int)
    requires
        0 <= i < items.len(),
    ensures
        contains_text(join_texts(items, sep), items[i]),
    decreases items.len(),
{
    if items.len() == 1 {
        assert(join_texts(items, sep) == items[0]);
        assert(join_texts(items, sep).subrange(0int, 0int + items[0].len()) =~= items[0]);
    } else if i == items.len() - 1 {
        lemma_middle_part(join_texts(items.drop_last(), sep) + sep, items[i], Seq::empty());
        assert(join_texts(items.drop_last(), sep) + sep + items[i] + Seq::<char>::empty() =~= join_texts(
            items,
            sep,
        ));
    } else {
        lemma_join_contains(items.drop_last(), sep, i);
        lemma_contains_extend(Seq::empty(), join_texts(items.drop_last(), sep), sep + items.last(), items[i]);
        assert(join_texts(items.drop_last(), sep) + (sep + items.last()) =~= join_texts(items, sep));
    }
}

/// The code of a field set with bits holds the getter and the setter of each of its
/// fields, and these load and store the field's bits with the field set's own bit order:
/// with MSB0 its code calls `load_msb0` and `store_msb0`, with LSB0 `load_lsb0` and
/// `store_lsb0`.
#[verifier::rlimit(80)]
pub proof fn lemma_field_set_code_uses_bit_order(v: FieldSet, defmt: Option<Seq<char>>, k: int)
    requires
        v.size_bits != 0,
        0 <= k < v.fields@.len(),
    ensures
        v.fields@[k].access.spec_is_readable() ==> contains_text(
            field_set_text(v, defmt),
            read_fn_text(v.fields@[k], v.byte_order, v.bit_order),
        ) && contains_text(field_set_text(v, defmt), op_call_name("load"@, v.bit_order)),
        !(v.fields@[k].access is RO) ==> contains_text(
            field_set_text(v, defmt),
            write_fn_text(v.fields@[k], v.byte_order, v.bit_order),
        ) && contains_text(field_set_text(v, defmt), op_call_name("store"@, v.bit_order)),
{
    reveal(field_set_text);
    let sb = decimal(field_set_bytes(v.size_bits));
    let fs = v.fields@;
    let reads = pieces_text(fs, FieldSetPiece::Read, v.byte_order, v.bit_order, "\n"@);
    let writes = pieces_text(fs, FieldSetPiece::Write, v.byte_order, v.bit_order, "\n"@);
    let pre = v.cfg_attr@ + "\nimpl "@ + v.name@
        + " {\n    /// Create a new instance, loaded with the reset value (if any)\n    pub const fn new() -> Self {\n        Self {\n            bits: ["@
        + byte_values_text(v.reset_value@)
        + "],\n        }\n    }\n    /// Create a new instance, loaded with all zeroes\n    pub const fn new_zero() -> Self {\n        Self {\n            bits: [0; "@
        + sb + "],\n        }\n    }\n\n"@ + ref_ctors_text(v.ref_reset_overrides@) + "\n\n"@;
    assert(field_set_impl_text(v) =~= pre + reads + ("\n\n"@ + writes + "\n}\n\n"@));
    assert(field_set_impl_text(v) =~= (pre + reads + "\n\n"@) + writes + "\n}\n\n"@);
    let head = field_set_struct_text(v);
    let tail = field_set_conversions_text(v) + field_set_defmt_text(v, defmt) + field_set_ops_text(
        v.cfg_attr@,
        v.name@,
    );
    assert(field_set_text(v, defmt) =~= head + field_set_impl_text(v) + tail);
    let f = fs[k];
    if f.access.spec_is_readable() {
        let g = read_fn_text(f, v.byte_order, v.bit_order);
        assert(fs.map_values(|x: Field| piece_text(x, FieldSetPiece::Read, v.byte_order, v.bit_order))[k]
            == g);
        lemma_join_contains(
            fs.map_values(|x: Field| piece_text(x, FieldSetPiece::Read, v.byte_order, v.bit_order)),
            "\n"@,
            k,
        );
        lemma_contains_extend(pre, reads, "\n\n"@ + writes + "\n}\n\n"@, g);
        lemma_contains_extend(head, field_set_impl_text(v), tail, g);
        lemma_getter_uses_bit_order(f, v.byte_order, v.bit_order);
        lemma_contains_trans(field_set_text(v, defmt), g, op_call_name("load"@, v.bit_order));
    }
    if !(f.access is RO) {
        let g = write_fn_text(f, v.byte_order, v.bit_order);
        assert(fs.map_values(|x: Field| piece_text(x, FieldSetPiece::Write, v.byte_order, v.bit_order))[k]
            == g);
        lemma_join_contains(
            fs.map_values(|x: Field| piece_text(x, FieldSetPiece::Write, v.byte_order, v.bit_order)),
            "\n"@,
            k,
        );
        lemma_contains_extend(pre + reads + "\n\n"@, writes, "\n}\n\n"@, g);
        lemma_contains_extend(head, field_set_impl_text(v), tail, g);
        lemma_setter_uses_bit_order(f, v.byte_order, v.bit_order);
        lemma_contains_trans(field_set_text(v, defmt), g, op_call_name("store"@, v.bit_order));
    }
}

/// The two byte orders are written differently, as `LE` and `BE`, in the operations the
/// getters and setters call.
pub proof fn lemma_byte_order_names()
    ensures
        byte_order_text(ByteOrder::LE) == "LE"@,
        byte_order_text(ByteOrder::BE) == "BE"@,
        byte_order_text(ByteOrder::LE) != byte_order_text(ByteOrder::BE),
        forall|kind: Seq<char>, bt: Seq<char>, bit: BitOrder|
            #[trigger] ops_fn_text(kind, bt, ByteOrder::LE, bit) != ops_fn_text(kind, bt, ByteOrder::BE, bit),
{
    reveal_strlit("LE");
    reveal_strlit("BE");
    assert(byte_order_text(ByteOrder::LE)[0] != byte_order_text(ByteOrder::BE)[0]);
    assert forall|kind: Seq<char>, bt: Seq<char>, bit: BitOrder|
        #[trigger] ops_fn_text(kind, bt, ByteOrder::LE, bit) != ops_fn_text(kind, bt, ByteOrder::BE, bit) by {
        let p = "::device_driver::ops::"@ + kind + "_"@ + bit_order_text(bit) + "::<"@ + bt
            + ", ::device_driver::ops::"@;
        assert(ops_fn_text(kind, bt, ByteOrder::LE, bit) =~= p + "LE"@ + ">"@);
        assert(ops_fn_text(kind, bt, ByteOrder::BE, bit) =~= p + "BE"@ + ">"@);
        lemma_middle_part(p, "LE"@, ">"@);
        lemma_middle_part(p, "BE"@, ">"@);
    }
}

/// The kind of a conversion, without the type it converts to.
pub open spec fn conversion_kind(m: FieldConversionMethod) -> int {
    match m {
        FieldConversionMethod::NoConversion => 0,
        FieldConversionMethod::Into(_) => 1,
        FieldConversionMethod::UnsafeInto(_) => 2,
        FieldConversionMethod::TryInto(_) => 3,
        FieldConversionMethod::Bool => 4,
    }
}

/// Getters of different kinds of conversion convert the raw value differently: the raw
/// value as it is, `into`, the unchecked conversion, `try_into`, or a comparison with
/// zero for a bool.
pub proof fn lemma_read_conversions_distinct(a: FieldConversionMethod, b: FieldConversionMethod)
    ensures
        read_conversion_text(a) == read_conversion_text(b) <==> conversion_kind(a) == conversion_kind(b),
        a is Bool ==> read_conversion_text(a) == "raw > 0"@,
        a is NoConversion ==> read_conversion_text(a) == "raw"@,
{
    reveal_strlit("raw");
    reveal_strlit("raw.into()");
    reveal_strlit("unsafe { raw.try_into().unwrap_unchecked() }");
    reveal_strlit("raw.try_into()");
    reveal_strlit("raw > 0");
    let x = read_conversion_text(a);
    let y = read_conversion_text(b);
    if conversion_kind(a) != conversion_kind(b) && x == y {
        assert(x.len() == y.len());
        if x.len() > 4 {
            assert(x[4] == y[4]);
        }
    }
}

/// Setters convert the value as their conversion says: as it is without one, with a
/// cast for a bool, and with `into` for every other.
pub proof fn lemma_write_conversions(a: FieldConversionMethod)
    ensures
        a is NoConversion ==> write_conversion_text(a) == "value"@,
        a is Bool ==> write_conversion_text(a) == "value as _"@,
        !(a is NoConversion) && !(a is Bool) ==> write_conversion_text(a) == "value.into()"@,
        write_conversion_text(FieldConversionMethod::NoConversion) != write_conversion_text(FieldConversionMethod::Bool),
{
    reveal_strlit("value");
    reveal_strlit("value as _");
    assert(write_conversion_text(FieldConversionMethod::NoConversion).len() != write_conversion_text(
        FieldConversionMethod::Bool,
    ).len());
}

} // verus!
