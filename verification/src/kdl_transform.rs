//! Writing the mid-level description of a device back as KDL, with the same
//! information as the text it was read from.

use vstd::prelude::*;

use crate::dsl_hir::joined_lines;
use crate::kdl_tree::{
    floatless, kdl_rendered, node_view, nodes_view, push_node, render_kdl, Entry, EntryV, Node,
    NodeV, Value, ValueV,
};
use crate::lir::code_transform::{split_lines, text_lines, texts_view};
use crate::mir::{
    default_word_boundaries, Access, BaseType, BitOrder, Block, Buffer, ByteOrder, Cfg, Command,
    Device, EnumValue, EnumVariant, Field, FieldConversion, FieldSet, GlobalConfig, Integer, Object,
    ObjectOverride, RefObject, Register, Repeat, ResetValue, WordBoundary,
};
use crate::reporting::Span;
use crate::text::{decimal, decimal_string};

verus! {

/// An anonymous string entry.
pub open spec fn str_entry(s: Seq<char>) -> EntryV {
    EntryV { name: None, value: ValueV::String(s) }
}

/// An anonymous integer entry.
pub open spec fn int_entry(i: i128) -> EntryV {
    EntryV { name: None, value: ValueV::Integer(i) }
}

/// A property: a named entry.
pub open spec fn prop(name: Seq<char>, value: ValueV) -> EntryV {
    EntryV { name: Some(name), value }
}

/// A node with entries only.
pub open spec fn leaf(name: Seq<char>, entries: Seq<EntryV>) -> NodeV {
    NodeV { name, ty: None, entries, children: None, leading: None }
}

/// The comment that precedes a node with a description: each line of the description
/// after `/// `, joined by line breaks.
pub open spec fn leading_comment(description: Seq<char>) -> Seq<char> {
    joined_lines(text_lines(description).map_values(|l: Seq<char>| "/// "@ + l))
}

/// The name of an access kind.
pub open spec fn access_text(a: Access) -> Seq<char> {
    match a {
        Access::RW => "RW"@,
        Access::RO => "RO"@,
        Access::WO => "WO"@,
    }
}

/// The name of a byte order.
pub open spec fn byte_order_text(b: ByteOrder) -> Seq<char> {
    match b {
        ByteOrder::LE => "LE"@,
        ByteOrder::BE => "BE"@,
    }
}

/// The name of a bit order.
pub open spec fn bit_order_text(b: BitOrder) -> Seq<char> {
    match b {
        BitOrder::LSB0 => "LSB0"@,
        BitOrder::MSB0 => "MSB0"@,
    }
}

/// The name of an integer type.
pub open spec fn integer_text(i: Integer) -> Seq<char> {
    match i {
        Integer::U8 => "u8"@,
        Integer::U16 => "u16"@,
        Integer::U32 => "u32"@,
        Integer::U64 => "u64"@,
        Integer::I8 => "i8"@,
        Integer::I16 => "i16"@,
        Integer::I32 => "i32"@,
        Integer::I64 => "i64"@,
    }
}

/// The name of a word boundary.
pub open spec fn boundary_text(b: WordBoundary) -> Seq<char> {
    match b {
        WordBoundary::Hyphen => "Hyphen"@,
        WordBoundary::Underscore => "Underscore"@,
        WordBoundary::Space => "Space"@,
        WordBoundary::UpperLower => "UpperLower"@,
        WordBoundary::LowerUpper => "LowerUpper"@,
        WordBoundary::DigitUpper => "DigitUpper"@,
        WordBoundary::UpperDigit => "UpperDigit"@,
        WordBoundary::DigitLower => "DigitLower"@,
        WordBoundary::LowerDigit => "LowerDigit"@,
        WordBoundary::Acronym => "Acronym"@,
    }
}

/// The node of a condition, if there is one.
pub open spec fn cfg_nodes(cfg: Cfg) -> Seq<NodeV> {
    match cfg@ {
        Some(v) => seq![leaf("cfg"@, seq![str_entry(v)])],
        None => Seq::empty(),
    }
}

/// The node of a repeat.
pub open spec fn repeat_node(r: Repeat) -> NodeV {
    leaf(
        "repeat"@,
        seq![
            prop("count"@, ValueV::Integer(r.count as i128)),
            prop("stride"@, ValueV::Integer(r.stride as i128)),
        ],
    )
}

/// A node with one string entry.
pub open spec fn text_node(name: Seq<char>, text: Seq<char>) -> NodeV {
    leaf(name, seq![str_entry(text)])
}

/// A node with one optional setting: a string entry, if there is a setting.
pub open spec fn opt_node<T>(name: Seq<char>, v: Option<T>, text: spec_fn(T) -> Seq<char>) -> Seq<NodeV> {
    match v {
        Some(x) => seq![text_node(name, text(x))],
        None => Seq::empty(),
    }
}

/// A node with one setting, if it differs from its default.
pub open spec fn changed_node(name: Seq<char>, differs: bool, text: Seq<char>) -> Seq<NodeV> {
    if differs {
        seq![text_node(name, text)]
    } else {
        Seq::empty()
    }
}

/// The nodes of the settings of a device that differ from the defaults.
pub open spec fn config_nodes(gc: GlobalConfig) -> Seq<NodeV> {
    changed_node("default-register-access"@, gc.default_register_access != Access::RW, access_text(gc.default_register_access))
        + changed_node("default-field-access"@, gc.default_field_access != Access::RW, access_text(gc.default_field_access))
        + changed_node("default-buffer-access"@, gc.default_buffer_access != Access::RW, access_text(gc.default_buffer_access))
        + opt_node("default-byte-order"@, gc.default_byte_order, |b: ByteOrder| byte_order_text(b))
        + changed_node("default-bit-order"@, gc.default_bit_order != BitOrder::LSB0, bit_order_text(gc.default_bit_order))
        + opt_node("register-address-type"@, gc.register_address_type, |i: Integer| integer_text(i))
        + opt_node("command-address-type"@, gc.command_address_type, |i: Integer| integer_text(i))
        + opt_node("buffer-address-type"@, gc.buffer_address_type, |i: Integer| integer_text(i))
        + if gc.name_word_boundaries@ != default_word_boundaries() {
            seq![
                leaf(
                    "name-word-boundaries"@,
                    gc.name_word_boundaries@.map_values(|b: WordBoundary| str_entry(boundary_text(b))),
                ),
            ]
        } else {
            Seq::empty()
        }
        + match gc.defmt_feature {
            Some(f) => seq![text_node("defmt-feature"@, f@)],
            None => Seq::empty(),
        }
}

/// An anonymous string entry.
fn string_entry(s: String) -> (res: Entry)
    ensures
        crate::kdl_tree::entry_view(res) == str_entry(s@),
{
    Entry { name: None, value: Value::String(s), span: Span { offset: 0, len: 0 } }
}

/// An anonymous integer entry.
fn integer_entry(i: i128) -> (res: Entry)
    ensures
        crate::kdl_tree::entry_view(res) == int_entry(i),
{
    Entry { name: None, value: Value::Integer(i), span: Span { offset: 0, len: 0 } }
}

/// A property with an integer value.
fn integer_prop(name: &str, i: i128) -> (res: Entry)
    ensures
        crate::kdl_tree::entry_view(res) == prop(name@, ValueV::Integer(i)),
{
    Entry { name: Some(String::from_str(name)), value: Value::Integer(i), span: Span { offset: 0, len: 0 } }
}

/// A property with a string value.
fn string_prop(name: &str, s: String) -> (res: Entry)
    ensures
        crate::kdl_tree::entry_view(res) == prop(name@, ValueV::String(s@)),
{
    Entry { name: Some(String::from_str(name)), value: Value::String(s), span: Span { offset: 0, len: 0 } }
}

/// A node with the entries only.
fn leaf_node(name: &str, entries: Vec<Entry>) -> (res: Node)
    ensures
        node_view(res) == leaf(name@, crate::kdl_tree::entries_view(entries@)),
{
    Node {
        name: String::from_str(name),
        ty: None,
        name_span: Span { offset: 0, len: 0 },
        span: Span { offset: 0, len: 0 },
        entries,
        children: None,
        leading: None,
    }
}

/// A node with one string entry.
fn text_leaf(name: &str, text: &str) -> (res: Node)
    ensures
        node_view(res) == text_node(name@, text@),
{
    let e = string_entry(String::from_str(text));
    let entries = vec![e];
    proof {
        assert(crate::kdl_tree::entries_view(entries@) =~= seq![str_entry(text@)]);
    }
    let res = leaf_node(name, entries);
    res
}

/// The comment that precedes a node with the description.
pub fn description_to_leading_comment(description: &str) -> (res: String)
    ensures
        res@ == leading_comment(description@),
{
    let lines = split_lines(description);
    let ghost all = texts_view(lines@);
    let ghost f = |l: Seq<char>| "/// "@ + l;
    let mut res = String::new();
    let mut i: usize = 0;
    proof {
        assert(all.take(0).map_values(f) =~= Seq::<Seq<char>>::empty());
    }
    while i < lines.len()
        invariant
            i <= lines@.len(),
            all == texts_view(lines@),
            all.len() == lines@.len(),
            f == (|l: Seq<char>| "/// "@ + l),
            res@ == joined_lines(all.take(i as int).map_values(f)),
        decreases lines@.len() - i,
    {
        let line = lines[i].as_str();
        let ghost before = all.take(i as int).map_values(f);
        proof {
            assert(all[i as int] == line@);
        }
        if i > 0 {
            res.append("\n");
        }
        res.append("/// ");
        res.append(line);
        proof {
            let after = all.take(i + 1).map_values(f);
            assert(after.drop_last() =~= before);
            assert(after.last() == "/// "@ + line@);
            assert(res@ =~= joined_lines(after));
        }
        i = i + 1;
    }
    proof {
        assert(all.take(all.len() as int) =~= all);
    }
    res
}

/// The name of an access kind.
fn access_name(a: Access) -> (res: &'static str)
    ensures
        res@ == access_text(a),
{
    match a {
        Access::RW => "RW",
        Access::RO => "RO",
        Access::WO => "WO",
    }
}

/// The name of a byte order.
fn byte_order_name(b: ByteOrder) -> (res: &'static str)
    ensures
        res@ == byte_order_text(b),
{
    match b {
        ByteOrder::LE => "LE",
        ByteOrder::BE => "BE",
    }
}

/// The name of a bit order.
fn bit_order_name(b: BitOrder) -> (res: &'static str)
    ensures
        res@ == bit_order_text(b),
{
    match b {
        BitOrder::LSB0 => "LSB0",
        BitOrder::MSB0 => "MSB0",
    }
}

/// The name of an integer type.
fn integer_name(i: Integer) -> (res: &'static str)
    ensures
        res@ == integer_text(i),
{
    match i {
        Integer::U8 => "u8",
        Integer::U16 => "u16",
        Integer::U32 => "u32",
        Integer::U64 => "u64",
        Integer::I8 => "i8",
        Integer::I16 => "i16",
        Integer::I32 => "i32",
        Integer::I64 => "i64",
    }
}

/// The name of a word boundary.
fn boundary_name(b: WordBoundary) -> (res: &'static str)
    ensures
        res@ == boundary_text(b),
{
    match b {
        WordBoundary::Hyphen => "Hyphen",
        WordBoundary::Underscore => "Underscore",
        WordBoundary::Space => "Space",
        WordBoundary::UpperLower => "UpperLower",
        WordBoundary::LowerUpper => "LowerUpper",
        WordBoundary::DigitUpper => "DigitUpper",
        WordBoundary::UpperDigit => "UpperDigit",
        WordBoundary::DigitLower => "DigitLower",
        WordBoundary::LowerDigit => "LowerDigit",
        WordBoundary::Acronym => "Acronym",
    }
}

/// The node of a condition, if there is one.
pub fn transform_cfg_config(cfg: &Cfg) -> (res: Option<Node>)
    ensures
        match res {
            Some(n) => seq![node_view(n)] == cfg_nodes(*cfg),
            None => cfg_nodes(*cfg) == Seq::<NodeV>::empty(),
        },
{
    match cfg.inner() {
        Some(v) => {
            let n = text_leaf("cfg", v);
            Some(n)
        },
        None => None,
    }
}

/// Adds the node of a condition, if there is one.
fn push_cfg(out: &mut Vec<Node>, cfg: &Cfg)
    ensures
        nodes_view(final(out)@) == nodes_view(old(out)@) + cfg_nodes(*cfg),
{
    match transform_cfg_config(cfg) {
        Some(n) => {
            push_node(out, n);
            proof {
                assert(nodes_view(final(out)@) =~= nodes_view(old(out)@) + cfg_nodes(*cfg));
            }
        },
        None => {
            proof {
                assert(nodes_view(old(out)@) + cfg_nodes(*cfg) =~= nodes_view(old(out)@));
            }
        },
    }
}

/// The node of a repeat.
pub fn transform_repeat_config(repeat: &Repeat) -> (res: Node)
    ensures
        node_view(res) == repeat_node(*repeat),
{
    let entries = vec![integer_prop("count", repeat.count as i128), integer_prop("stride", repeat.stride as i128)];
    proof {
        assert(crate::kdl_tree::entries_view(entries@) =~= repeat_node(*repeat).entries);
    }
    leaf_node("repeat", entries)
}

/// Adds a node with one string entry.
fn push_text(out: &mut Vec<Node>, name: &str, text: &str)
    ensures
        nodes_view(final(out)@) == nodes_view(old(out)@) + seq![text_node(name@, text@)],
{
    push_node(out, text_leaf(name, text));
    proof {
        assert(nodes_view(final(out)@) =~= nodes_view(old(out)@) + seq![text_node(name@, text@)]);
    }
}

/// Whether the two lists of word boundaries are the same.
fn same_boundaries(a: &Vec<WordBoundary>, b: &Vec<WordBoundary>) -> (res: bool)
    ensures
        res == (a@ == b@),
{
    if a.len() != b.len() {
        return false;
    }
    let mut i: usize = 0;
    while i < a.len()
        invariant
            i <= a@.len(),
            a@.len() == b@.len(),
            forall|j: int| 0 <= j < i ==> a@[j] == b@[j],
        decreases a@.len() - i,
    {
        if a[i] != b[i] {
            return false;
        }
        i = i + 1;
    }
    proof {
        assert(a@ =~= b@);
    }
    true
}

/// Adds a node with one string entry when the setting differs from its default.
fn push_changed(out: &mut Vec<Node>, name: &str, differs: bool, text: &str)
    ensures
        nodes_view(final(out)@) == nodes_view(old(out)@) + changed_node(name@, differs, text@),
{
    if differs {
        push_text(out, name, text);
    } else {
        proof {
            assert(nodes_view(old(out)@) + changed_node(name@, differs, text@) =~= nodes_view(old(out)@));
        }
    }
}

/// Adds a node with one integer type, if there is one.
fn push_integer_type(out: &mut Vec<Node>, name: &str, v: Option<Integer>)
    ensures
        nodes_view(final(out)@) == nodes_view(old(out)@) + opt_node(name@, v, |i: Integer| integer_text(i)),
{
    match v {
        Some(i) => push_text(out, name, integer_name(i)),
        None => {
            proof {
                assert(nodes_view(old(out)@) + opt_node(name@, v, |i: Integer| integer_text(i)) =~= nodes_view(old(out)@));
            }
        },
    }
}

/// The node that lists the word boundaries.
fn boundaries_node(bs: &Vec<WordBoundary>) -> (res: Node)
    ensures
        node_view(res) == leaf(
            "name-word-boundaries"@,
            bs@.map_values(|b: WordBoundary| str_entry(boundary_text(b))),
        ),
{
    let mut entries: Vec<Entry> = Vec::new();
    let mut k: usize = 0;
    proof {
        assert(crate::kdl_tree::entries_view(entries@) =~= bs@.take(0).map_values(|b: WordBoundary| str_entry(boundary_text(b))));
    }
    while k < bs.len()
        invariant
            k <= bs@.len(),
            crate::kdl_tree::entries_view(entries@) == bs@.take(k as int).map_values(
                |b: WordBoundary| str_entry(boundary_text(b)),
            ),
        decreases bs@.len() - k,
    {
        let b = bs[k];
        let e = string_entry(String::from_str(boundary_name(b)));
        let ghost before = entries@;
        entries.push(e);
        proof {
            assert(entries@ =~= before.push(e));
            assert(crate::kdl_tree::entries_view(entries@) =~= crate::kdl_tree::entries_view(before).push(
                str_entry(boundary_text(b)),
            ));
            assert(bs@.take(k + 1).map_values(|b: WordBoundary| str_entry(boundary_text(b))) =~= bs@.take(
                k as int,
            ).map_values(|b: WordBoundary| str_entry(boundary_text(b))).push(str_entry(boundary_text(b))));
        }
        k = k + 1;
    }
    proof {
        assert(bs@.take(bs@.len() as int) =~= bs@);
    }
    leaf_node("name-word-boundaries", entries)
}

/// The nodes of the settings of a device that differ from the defaults.
pub fn transform_global_config(global_config: &GlobalConfig) -> (res: Vec<Node>)
    ensures
        nodes_view(res@) == config_nodes(*global_config),
{
    let gc = global_config;
    let mut out: Vec<Node> = Vec::new();
    proof {
        assert(nodes_view(out@) =~= Seq::<NodeV>::empty());
    }
    push_changed(&mut out, "default-register-access", gc.default_register_access != Access::RW, access_name(gc.default_register_access));
    push_changed(&mut out, "default-field-access", gc.default_field_access != Access::RW, access_name(gc.default_field_access));
    push_changed(&mut out, "default-buffer-access", gc.default_buffer_access != Access::RW, access_name(gc.default_buffer_access));
    let ghost s3 = nodes_view(out@);
    match gc.default_byte_order {
        Some(b) => push_text(&mut out, "default-byte-order", byte_order_name(b)),
        None => {},
    }
    proof {
        assert(nodes_view(out@) =~= s3 + opt_node("default-byte-order"@, gc.default_byte_order, |b: ByteOrder| byte_order_text(b)));
    }
    push_changed(&mut out, "default-bit-order", gc.default_bit_order != BitOrder::LSB0, bit_order_name(gc.default_bit_order));
    push_integer_type(&mut out, "register-address-type", gc.register_address_type);
    push_integer_type(&mut out, "command-address-type", gc.command_address_type);
    push_integer_type(&mut out, "buffer-address-type", gc.buffer_address_type);
    let ghost s8 = nodes_view(out@);
    let defaults = crate::mir::default_boundaries();
    if !same_boundaries(&gc.name_word_boundaries, &defaults) {
        push_node(&mut out, boundaries_node(&gc.name_word_boundaries));
    }
    let ghost s9 = nodes_view(out@);
    proof {
        assert(s9 =~= s8 + if gc.name_word_boundaries@ != default_word_boundaries() {
            seq![
                leaf(
                    "name-word-boundaries"@,
                    gc.name_word_boundaries@.map_values(|b: WordBoundary| str_entry(boundary_text(b))),
                ),
            ]
        } else {
            Seq::empty()
        });
    }
    if let Some(f) = &gc.defmt_feature {
        push_text(&mut out, "defmt-feature", f.as_str());
    }
    proof {
        assert(nodes_view(out@) =~= config_nodes(*gc));
    }
    out
}

/// The text of a base type.
pub open spec fn base_text(bt: BaseType) -> Seq<char> {
    match bt {
        BaseType::Unspecified => ""@,
        BaseType::Bool => "bool"@,
        BaseType::Uint => "uint"@,
        BaseType::Int => "int"@,
        BaseType::FixedSize(i) => integer_text(i),
    }
}

/// Whether the conversion may fail.
pub open spec fn conversion_try(fc: FieldConversion) -> bool {
    match fc {
        FieldConversion::Direct { use_try, .. } => use_try,
        FieldConversion::Enum { use_try, .. } => use_try,
    }
}

/// The type annotation of a field: its base type, then, where it is converted, a `:`
/// when there is a base type, the type it is converted to, and a `?` when the
/// conversion may fail.
pub open spec fn field_ty(f: Field) -> Seq<char> {
    let base = base_text(f.base_type);
    match f.field_conversion {
        Some(fc) => base + (if base.len() == 0 {
            ""@
        } else {
            ":"@
        }) + fc.spec_target_type() + (if conversion_try(fc) {
            "?"@
        } else {
            ""@
        }),
        None => base,
    }
}

/// The bits of a field: `@` and its only bit, or `@`, its last bit, `:` and its first.
pub open spec fn address_text(start: u32, end: u32) -> Seq<char> {
    if start >= end || end - start == 1 {
        "@"@ + decimal(start as int)
    } else {
        "@"@ + decimal(end - 1) + ":"@ + decimal(start as int)
    }
}

/// The property of a condition, if there is one.
pub open spec fn cfg_props(cfg: Cfg) -> Seq<EntryV> {
    match cfg@ {
        Some(c) => seq![prop("cfg"@, ValueV::String(c))],
        None => Seq::empty(),
    }
}

/// The node of an enum variant.
pub open spec fn variant_node(v: EnumVariant) -> NodeV {
    NodeV {
        name: v.name@,
        ty: None,
        entries: match v.value {
            EnumValue::Unspecified => Seq::empty(),
            EnumValue::Specified(n) => seq![int_entry(n)],
            EnumValue::Default => seq![str_entry("default"@)],
            EnumValue::CatchAll => seq![str_entry("catch-all"@)],
        } + cfg_props(v.cfg_attr),
        children: None,
        leading: Some(leading_comment(v.description@)),
    }
}

/// The node of a field.
pub open spec fn field_node(f: Field, gc: GlobalConfig) -> NodeV {
    NodeV {
        name: f.name@,
        ty: Some(field_ty(f)),
        entries: (if f.access != gc.default_field_access {
            seq![str_entry(access_text(f.access))]
        } else {
            Seq::empty()
        }) + cfg_props(f.cfg_attr) + seq![str_entry(address_text(f.field_address.start, f.field_address.end))],
        children: match f.field_conversion {
            Some(FieldConversion::Enum { enum_value, .. }) => Some(
                enum_value.variants@.map_values(|v: EnumVariant| variant_node(v)),
            ),
            _ => None,
        },
        leading: Some(leading_comment(f.description@)),
    }
}

/// The node of a field set with the given name.
pub open spec fn field_set_node(name: Seq<char>, fs: FieldSet, gc: GlobalConfig) -> NodeV {
    NodeV {
        name,
        ty: None,
        entries: match fs.byte_order {
            Some(b) => seq![prop("byte-order"@, ValueV::String(byte_order_text(b)))],
            None => Seq::empty(),
        } + match fs.bit_order {
            Some(b) => if b != gc.default_bit_order {
                seq![prop("bit-order"@, ValueV::String(bit_order_text(b)))]
            } else {
                Seq::empty()
            },
            None => Seq::empty(),
        } + (if fs.allow_bit_overlap {
            seq![str_entry("allow-bit-overlap"@)]
        } else {
            Seq::empty()
        }) + seq![prop("size-bits"@, ValueV::Integer(fs.size_bits as i128))],
        children: if fs.fields@.len() > 0 {
            Some(fs.fields@.map_values(|f: Field| field_node(f, gc)))
        } else {
            None
        },
        leading: None,
    }
}

/// Adds the property of a condition, if there is one.
fn push_cfg_prop(entries: &mut Vec<Entry>, cfg: &Cfg)
    ensures
        crate::kdl_tree::entries_view(final(entries)@) == crate::kdl_tree::entries_view(old(entries)@) + cfg_props(*cfg),
{
    if let Some(c) = cfg.inner() {
        let e = string_prop("cfg", String::from_str(c));
        entries.push(e);
    }
    proof {
        assert(crate::kdl_tree::entries_view(final(entries)@) =~= crate::kdl_tree::entries_view(old(entries)@) + cfg_props(*cfg));
    }
}

/// The text of a base type.
fn base_name(bt: BaseType) -> (res: &'static str)
    ensures
        res@ == base_text(bt),
{
    match bt {
        BaseType::Unspecified => "",
        BaseType::Bool => "bool",
        BaseType::Uint => "uint",
        BaseType::Int => "int",
        BaseType::FixedSize(i) => integer_name(i),
    }
}

/// The type annotation of a field.
fn field_type_text(f: &Field) -> (res: String)
    ensures
        res@ == field_ty(*f),
{
    let base = base_name(f.base_type);
    let mut res = String::from_str(base);
    if let Some(fc) = &f.field_conversion {
        let ghost b = base@;
        if base.unicode_len() != 0 {
            res.append(":");
        }
        let ghost r1 = res@;
        proof {
            assert(r1 == b + (if b.len() == 0 {
                ""@
            } else {
                ":"@
            })) by {
                if b.len() == 0 {
                    assert(r1 =~= b + ""@) by {
                        reveal_strlit("");
                    }
                }
            }
        }
        let t = fc.target_type();
        res.append(t);
        let ghost r2 = res@;
        if fc.use_try() {
            res.append("?");
        }
        proof {
            assert(res@ == r2 + (if conversion_try(*fc) {
                "?"@
            } else {
                ""@
            })) by {
                if !conversion_try(*fc) {
                    reveal_strlit("");
                    assert(res@ =~= r2 + ""@);
                }
            }
            assert(res@ =~= field_ty(*f));
        }
    }
    res
}

/// The bits of a field as text.
fn field_address_text(start: u32, end: u32) -> (res: String)
    ensures
        res@ == address_text(start, end),
{
    let mut res = String::from_str("@");
    if start >= end || end - start == 1 {
        let d = decimal_string(start as i128);
        res.append(d.as_str());
    } else {
        let d = decimal_string((end - 1) as i128);
        res.append(d.as_str());
        res.append(":");
        let d2 = decimal_string(start as i128);
        res.append(d2.as_str());
    }
    proof {
        assert(res@ =~= address_text(start, end));
    }
    res
}

/// The node of an enum variant.
pub fn transform_enum_variant(v: &EnumVariant) -> (res: Node)
    ensures
        node_view(res) == variant_node(*v),
{
    let mut entries: Vec<Entry> = Vec::new();
    match v.value {
        EnumValue::Unspecified => {},
        EnumValue::Specified(n) => entries.push(integer_entry(n)),
        EnumValue::Default => entries.push(string_entry(String::from_str("default"))),
        EnumValue::CatchAll => entries.push(string_entry(String::from_str("catch-all"))),
    }
    proof {
        assert(crate::kdl_tree::entries_view(entries@) =~= match v.value {
            EnumValue::Unspecified => Seq::<EntryV>::empty(),
            EnumValue::Specified(n) => seq![int_entry(n)],
            EnumValue::Default => seq![str_entry("default"@)],
            EnumValue::CatchAll => seq![str_entry("catch-all"@)],
        });
    }
    push_cfg_prop(&mut entries, &v.cfg_attr);
    let res = Node {
        name: v.name.clone(),
        ty: None,
        name_span: Span { offset: 0, len: 0 },
        span: Span { offset: 0, len: 0 },
        entries,
        children: None,
        leading: Some(description_to_leading_comment(v.description.as_str())),
    };
    proof {
        assert(node_view(res).entries =~= variant_node(*v).entries);
    }
    res
}

/// The nodes of the variants, in order.
fn transform_variants(variants: &Vec<EnumVariant>) -> (res: Vec<Node>)
    ensures
        nodes_view(res@) == variants@.map_values(|v: EnumVariant| variant_node(v)),
{
    let mut res: Vec<Node> = Vec::new();
    let mut i: usize = 0;
    proof {
        assert(nodes_view(res@) =~= variants@.take(0).map_values(|v: EnumVariant| variant_node(v)));
    }
    while i < variants.len()
        invariant
            i <= variants@.len(),
            nodes_view(res@) == variants@.take(i as int).map_values(|v: EnumVariant| variant_node(v)),
        decreases variants@.len() - i,
    {
        push_node(&mut res, transform_enum_variant(&variants[i]));
        proof {
            assert(variants@.take(i + 1).map_values(|v: EnumVariant| variant_node(v)) =~= variants@.take(
                i as int,
            ).map_values(|v: EnumVariant| variant_node(v)).push(variant_node(variants@[i as int])));
        }
        i = i + 1;
    }
    proof {
        assert(variants@.take(variants@.len() as int) =~= variants@);
    }
    res
}

/// The node of a field.
pub fn transform_field(field: &Field, global_config: &GlobalConfig) -> (res: Node)
    ensures
        node_view(res) == field_node(*field, *global_config),
{
    let mut entries: Vec<Entry> = Vec::new();
    if field.access != global_config.default_field_access {
        entries.push(string_entry(String::from_str(access_name(field.access))));
    }
    let ghost e0 = crate::kdl_tree::entries_view(entries@);
    proof {
        assert(e0 =~= if field.access != global_config.default_field_access {
            seq![str_entry(access_text(field.access))]
        } else {
            Seq::<EntryV>::empty()
        });
    }
    push_cfg_prop(&mut entries, &field.cfg_attr);
    let ghost e1 = crate::kdl_tree::entries_view(entries@);
    entries.push(string_entry(field_address_text(field.field_address.start, field.field_address.end)));
    proof {
        assert(crate::kdl_tree::entries_view(entries@) =~= e1.push(
            str_entry(address_text(field.field_address.start, field.field_address.end)),
        ));
    }
    let children = match &field.field_conversion {
        Some(FieldConversion::Enum { enum_value, .. }) => Some(transform_variants(&enum_value.variants)),
        _ => None,
    };
    let res = Node {
        name: field.name.clone(),
        ty: Some(field_type_text(field)),
        name_span: Span { offset: 0, len: 0 },
        span: Span { offset: 0, len: 0 },
        entries,
        children,
        leading: Some(description_to_leading_comment(field.description.as_str())),
    };
    proof {
        assert(node_view(res).entries =~= field_node(*field, *global_config).entries);
    }
    res
}

/// The node of a field set with the given name.
pub fn transform_field_set(name: &str, field_set: &FieldSet, global_config: &GlobalConfig) -> (res: Node)
    ensures
        node_view(res) == field_set_node(name@, *field_set, *global_config),
{
    let mut entries: Vec<Entry> = Vec::new();
    if let Some(b) = field_set.byte_order {
        entries.push(string_prop("byte-order", String::from_str(byte_order_name(b))));
    }
    if let Some(b) = field_set.bit_order {
        if b != global_config.default_bit_order {
            entries.push(string_prop("bit-order", String::from_str(bit_order_name(b))));
        }
    }
    if field_set.allow_bit_overlap {
        entries.push(string_entry(String::from_str("allow-bit-overlap")));
    }
    entries.push(integer_prop("size-bits", field_set.size_bits as i128));
    proof {
        assert(crate::kdl_tree::entries_view(entries@) =~= field_set_node(name@, *field_set, *global_config).entries);
    }
    let children = if field_set.fields.len() > 0 {
        let mut nodes: Vec<Node> = Vec::new();
        let mut i: usize = 0;
        proof {
            assert(nodes_view(nodes@) =~= field_set.fields@.take(0).map_values(|f: Field| field_node(f, *global_config)));
        }
        while i < field_set.fields.len()
            invariant
                i <= field_set.fields@.len(),
                nodes_view(nodes@) == field_set.fields@.take(i as int).map_values(
                    |f: Field| field_node(f, *global_config),
                ),
            decreases field_set.fields@.len() - i,
        {
            push_node(&mut nodes, transform_field(&field_set.fields[i], global_config));
            proof {
                assert(field_set.fields@.take(i + 1).map_values(|f: Field| field_node(f, *global_config))
                    =~= field_set.fields@.take(i as int).map_values(|f: Field| field_node(f, *global_config)).push(
                    field_node(field_set.fields@[i as int], *global_config),
                ));
            }
            i = i + 1;
        }
        proof {
            assert(field_set.fields@.take(field_set.fields@.len() as int) =~= field_set.fields@);
        }
        Some(nodes)
    } else {
        None
    };
    Node {
        name: String::from_str(name),
        ty: None,
        name_span: Span { offset: 0, len: 0 },
        span: Span { offset: 0, len: 0 },
        entries,
        children,
        leading: None,
    }
}

/// The node of a repeat, if there is one.
pub open spec fn opt_repeat(r: Option<Repeat>) -> Seq<NodeV> {
    match r {
        Some(r) => seq![repeat_node(r)],
        None => Seq::empty(),
    }
}

/// The node of an address.
pub open spec fn address_node(a: i64) -> NodeV {
    leaf("address"@, seq![int_entry(a as i128)])
}

/// The node that allows an address overlap, where it is allowed.
pub open spec fn overlap_nodes(allowed: bool) -> Seq<NodeV> {
    if allowed {
        seq![leaf("allow-address-overlap"@, Seq::empty())]
    } else {
        Seq::empty()
    }
}

/// The node of a reset value.
pub open spec fn reset_node(rv: ResetValue) -> NodeV {
    leaf(
        "reset-value"@,
        match rv {
            ResetValue::Integer(n) => seq![int_entry(n as i128)],
            ResetValue::Array(bytes) => bytes@.map_values(|b: u8| int_entry(b as i128)),
        },
    )
}

/// The node of a reset value, if there is one.
pub open spec fn opt_reset(rv: Option<ResetValue>) -> Seq<NodeV> {
    match rv {
        Some(v) => seq![reset_node(v)],
        None => Seq::empty(),
    }
}

/// The node of an access kind, where it differs from the default.
pub open spec fn access_nodes(a: Access, default: Access) -> Seq<NodeV> {
    if a != default {
        seq![text_node("access"@, access_text(a))]
    } else {
        Seq::empty()
    }
}

/// The children of a register node.
pub open spec fn register_children(r: Register, gc: GlobalConfig) -> Seq<NodeV> {
    cfg_nodes(r.cfg_attr) + access_nodes(r.access, gc.default_register_access) + overlap_nodes(
        r.allow_address_overlap,
    ) + seq![address_node(r.address)] + opt_reset(r.reset_value) + opt_repeat(r.repeat) + seq![
        field_set_node("fields"@, r.field_set, gc),
    ]
}

/// The node of an optional field set with the given name.
pub open spec fn opt_field_set(name: Seq<char>, fs: Option<FieldSet>, gc: GlobalConfig) -> Seq<NodeV> {
    match fs {
        Some(fs) => seq![field_set_node(name, fs, gc)],
        None => Seq::empty(),
    }
}

/// The children of a command node.
pub open spec fn command_children(c: Command, gc: GlobalConfig) -> Seq<NodeV> {
    cfg_nodes(c.cfg_attr) + seq![address_node(c.address)] + overlap_nodes(c.allow_address_overlap)
        + opt_repeat(c.repeat) + opt_field_set("in"@, c.field_set_in, gc) + opt_field_set(
        "out"@,
        c.field_set_out,
        gc,
    )
}

/// The children of a buffer node.
pub open spec fn buffer_children(b: Buffer, gc: GlobalConfig) -> Seq<NodeV> {
    cfg_nodes(b.cfg_attr) + access_nodes(b.access, gc.default_buffer_access) + seq![address_node(b.address)]
}

/// The node of an optional address, or address offset, with the given name.
pub open spec fn opt_address(name: Seq<char>, a: Option<i64>) -> Seq<NodeV> {
    match a {
        Some(a) => seq![leaf(name, seq![int_entry(a as i128)])],
        None => Seq::empty(),
    }
}

/// The children of a ref node: what it overrides.
pub open spec fn ref_children(r: RefObject) -> Seq<NodeV> {
    match r.object_override {
        ObjectOverride::Block(o) => opt_address("address-offset"@, o.address_offset) + opt_repeat(o.repeat),
        ObjectOverride::Register(o) => (match o.access {
            Some(a) => seq![text_node("access"@, access_text(a))],
            None => Seq::empty(),
        }) + opt_address("address"@, o.address) + overlap_nodes(o.allow_address_overlap) + opt_reset(
            o.reset_value,
        ) + opt_repeat(o.repeat),
        ObjectOverride::Command(o) => opt_address("address"@, o.address) + overlap_nodes(
            o.allow_address_overlap,
        ) + opt_repeat(o.repeat),
    }
}

/// The nodes of a block before its objects.
pub open spec fn block_head(b: Block) -> Seq<NodeV> {
    cfg_nodes(b.cfg_attr) + seq![leaf("address-offset"@, seq![int_entry(b.address_offset as i128)])]
        + opt_repeat(b.repeat)
}

/// The keyword of an object's node.
pub open spec fn kind_name(o: Object) -> Seq<char> {
    match o {
        Object::Block(_) => "block"@,
        Object::Register(_) => "register"@,
        Object::Command(_) => "command"@,
        Object::Buffer(_) => "buffer"@,
        Object::Ref(_) => "ref"@,
    }
}

/// The description of an object.
pub open spec fn object_description(o: Object) -> Seq<char> {
    match o {
        Object::Block(v) => v.description@,
        Object::Register(v) => v.description@,
        Object::Command(v) => v.description@,
        Object::Buffer(v) => v.description@,
        Object::Ref(v) => v.description@,
    }
}

/// The entries of an object's node: its name, and for a ref the kind and name of its
/// target.
pub open spec fn object_entries(o: Object) -> Seq<EntryV> {
    seq![str_entry(o.spec_name())] + match o {
        Object::Ref(r) => match r.object_override {
            ObjectOverride::Block(v) => seq![prop("target-block"@, ValueV::String(v.name@))],
            ObjectOverride::Register(v) => seq![prop("target-register"@, ValueV::String(v.name@))],
            ObjectOverride::Command(v) => seq![prop("target-command"@, ValueV::String(v.name@))],
        },
        _ => Seq::empty(),
    }
}

/// The node of an object, with the nodes of what it holds.
pub open spec fn object_node(o: Object, gc: GlobalConfig) -> NodeV
    decreases o,
{
    NodeV {
        name: kind_name(o),
        ty: None,
        entries: object_entries(o),
        children: Some(
            match o {
                Object::Block(b) => {
                    proof {
                        vstd::std_specs::vec::axiom_vec_decreases_to_view(b.objects);
                    }
                    block_head(b) + objects_nodes(b.objects@, gc)
                },
                Object::Register(r) => register_children(r, gc),
                Object::Command(c) => command_children(c, gc),
                Object::Buffer(b) => buffer_children(b, gc),
                Object::Ref(r) => ref_children(r),
            },
        ),
        leading: Some(leading_comment(object_description(o))),
    }
}

/// The nodes of the objects, in order.
pub open spec fn objects_nodes(s: Seq<Object>, gc: GlobalConfig) -> Seq<NodeV>
    decreases s,
{
    if s.len() == 0 {
        Seq::empty()
    } else {
        objects_nodes(s.drop_last(), gc).push(object_node(s.last(), gc))
    }
}

/// The node of a device: its name, or `Device` when it has none, and as children the
/// settings that differ from the defaults and its objects.
pub open spec fn device_node(d: Device) -> NodeV {
    NodeV {
        name: "device"@,
        ty: None,
        entries: seq![
            str_entry(
                match d.name {
                    Some(n) => n@,
                    None => "Device"@,
                },
            ),
        ],
        children: Some(config_nodes(d.global_config) + objects_nodes(d.objects@, d.global_config)),
        leading: None,
    }
}

/// Adds the node of a repeat, if there is one.
fn push_repeat(out: &mut Vec<Node>, r: &Option<Repeat>)
    ensures
        nodes_view(final(out)@) == nodes_view(old(out)@) + opt_repeat(*r),
{
    if let Some(r) = r {
        push_node(out, transform_repeat_config(r));
    }
    proof {
        assert(nodes_view(final(out)@) =~= nodes_view(old(out)@) + opt_repeat(*r));
    }
}

/// Adds a node with one integer entry.
fn push_int_node(out: &mut Vec<Node>, name: &str, v: i128)
    ensures
        nodes_view(final(out)@) == nodes_view(old(out)@) + seq![leaf(name@, seq![int_entry(v)])],
{
    let entries = vec![integer_entry(v)];
    proof {
        assert(crate::kdl_tree::entries_view(entries@) =~= seq![int_entry(v)]);
    }
    push_node(out, leaf_node(name, entries));
    proof {
        assert(nodes_view(final(out)@) =~= nodes_view(old(out)@) + seq![leaf(name@, seq![int_entry(v)])]);
    }
}

/// Adds the node of an optional address with the given name.
fn push_opt_address(out: &mut Vec<Node>, name: &str, a: Option<i64>)
    ensures
        nodes_view(final(out)@) == nodes_view(old(out)@) + opt_address(name@, a),
{
    if let Some(a) = a {
        push_int_node(out, name, a as i128);
    }
    proof {
        assert(nodes_view(final(out)@) =~= nodes_view(old(out)@) + opt_address(name@, a));
    }
}

/// Adds the node that allows an address overlap, where it is allowed.
fn push_overlap(out: &mut Vec<Node>, allowed: bool)
    ensures
        nodes_view(final(out)@) == nodes_view(old(out)@) + overlap_nodes(allowed),
{
    if allowed {
        let entries: Vec<Entry> = Vec::new();
        proof {
            assert(crate::kdl_tree::entries_view(entries@) =~= Seq::<EntryV>::empty());
        }
        push_node(out, leaf_node("allow-address-overlap", entries));
    }
    proof {
        assert(nodes_view(final(out)@) =~= nodes_view(old(out)@) + overlap_nodes(allowed));
    }
}

/// The node of a reset value.
fn transform_reset_value(rv: &ResetValue) -> (res: Node)
    ensures
        node_view(res) == reset_node(*rv),
{
    let mut entries: Vec<Entry> = Vec::new();
    match rv {
        ResetValue::Integer(n) => {
            entries.push(integer_entry(*n as i128));
            proof {
                assert(crate::kdl_tree::entries_view(entries@) =~= seq![int_entry(*n as i128)]);
            }
        },
        ResetValue::Array(bytes) => {
            let mut i: usize = 0;
            proof {
                assert(crate::kdl_tree::entries_view(entries@) =~= bytes@.take(0).map_values(|b: u8| int_entry(b as i128)));
            }
            while i < bytes.len()
                invariant
                    i <= bytes@.len(),
                    crate::kdl_tree::entries_view(entries@) == bytes@.take(i as int).map_values(
                        |b: u8| int_entry(b as i128),
                    ),
                decreases bytes@.len() - i,
            {
                let e = integer_entry(bytes[i] as i128);
                let ghost before = entries@;
                entries.push(e);
                proof {
                    assert(entries@ =~= before.push(e));
                    assert(crate::kdl_tree::entries_view(entries@) =~= crate::kdl_tree::entries_view(before).push(
                        int_entry(bytes@[i as int] as i128),
                    ));
                    assert(bytes@.take(i + 1).map_values(|b: u8| int_entry(b as i128)) =~= bytes@.take(
                        i as int,
                    ).map_values(|b: u8| int_entry(b as i128)).push(int_entry(bytes@[i as int] as i128)));
                }
                i = i + 1;
            }
            proof {
                assert(bytes@.take(bytes@.len() as int) =~= bytes@);
            }
        },
    }
    leaf_node("reset-value", entries)
}

/// Adds the node of a reset value, if there is one.
fn push_reset(out: &mut Vec<Node>, rv: &Option<ResetValue>)
    ensures
        nodes_view(final(out)@) == nodes_view(old(out)@) + opt_reset(*rv),
{
    if let Some(v) = rv {
        push_node(out, transform_reset_value(v));
    }
    proof {
        assert(nodes_view(final(out)@) =~= nodes_view(old(out)@) + opt_reset(*rv));
    }
}

/// Adds the node of an access kind, where it differs from the default.
fn push_access(out: &mut Vec<Node>, a: Access, default: Access)
    ensures
        nodes_view(final(out)@) == nodes_view(old(out)@) + access_nodes(a, default),
{
    if a != default {
        push_text(out, "access", access_name(a));
    }
    proof {
        assert(nodes_view(final(out)@) =~= nodes_view(old(out)@) + access_nodes(a, default));
    }
}

/// Adds the node of an optional field set with the given name.
fn push_field_set(out: &mut Vec<Node>, name: &str, fs: &Option<FieldSet>, gc: &GlobalConfig)
    ensures
        nodes_view(final(out)@) == nodes_view(old(out)@) + opt_field_set(name@, *fs, *gc),
{
    if let Some(fs) = fs {
        push_node(out, transform_field_set(name, fs, gc));
    }
    proof {
        assert(nodes_view(final(out)@) =~= nodes_view(old(out)@) + opt_field_set(name@, *fs, *gc));
    }
}

/// Adds the nodes of a condition and an address after the others.
fn push_address(out: &mut Vec<Node>, a: i64)
    ensures
        nodes_view(final(out)@) == nodes_view(old(out)@) + seq![address_node(a)],
{
    push_int_node(out, "address", a as i128);
}

/// The children of a register node.
fn transform_register_children(r: &Register, gc: &GlobalConfig) -> (res: Vec<Node>)
    ensures
        nodes_view(res@) == register_children(*r, *gc),
{
    let mut out: Vec<Node> = Vec::new();
    proof {
        assert(nodes_view(out@) =~= Seq::<NodeV>::empty());
    }
    push_cfg(&mut out, &r.cfg_attr);
    push_access(&mut out, r.access, gc.default_register_access);
    push_overlap(&mut out, r.allow_address_overlap);
    push_address(&mut out, r.address);
    push_reset(&mut out, &r.reset_value);
    push_repeat(&mut out, &r.repeat);
    push_node(&mut out, transform_field_set("fields", &r.field_set, gc));
    proof {
        assert(nodes_view(out@) =~= register_children(*r, *gc));
    }
    out
}

/// The children of a command node.
fn transform_command_children(c: &Command, gc: &GlobalConfig) -> (res: Vec<Node>)
    ensures
        nodes_view(res@) == command_children(*c, *gc),
{
    let mut out: Vec<Node> = Vec::new();
    proof {
        assert(nodes_view(out@) =~= Seq::<NodeV>::empty());
    }
    push_cfg(&mut out, &c.cfg_attr);
    push_address(&mut out, c.address);
    push_overlap(&mut out, c.allow_address_overlap);
    push_repeat(&mut out, &c.repeat);
    push_field_set(&mut out, "in", &c.field_set_in, gc);
    push_field_set(&mut out, "out", &c.field_set_out, gc);
    proof {
        assert(nodes_view(out@) =~= command_children(*c, *gc));
    }
    out
}

/// The children of a buffer node.
fn transform_buffer_children(b: &Buffer, gc: &GlobalConfig) -> (res: Vec<Node>)
    ensures
        nodes_view(res@) == buffer_children(*b, *gc),
{
    let mut out: Vec<Node> = Vec::new();
    proof {
        assert(nodes_view(out@) =~= Seq::<NodeV>::empty());
    }
    push_cfg(&mut out, &b.cfg_attr);
    push_access(&mut out, b.access, gc.default_buffer_access);
    push_address(&mut out, b.address);
    proof {
        assert(nodes_view(out@) =~= buffer_children(*b, *gc));
    }
    out
}

/// The children of a ref node: what it overrides.
fn transform_ref_children(r: &RefObject) -> (res: Vec<Node>)
    ensures
        nodes_view(res@) == ref_children(*r),
{
    let mut out: Vec<Node> = Vec::new();
    proof {
        assert(nodes_view(out@) =~= Seq::<NodeV>::empty());
    }
    match &r.object_override {
        ObjectOverride::Block(o) => {
            push_opt_address(&mut out, "address-offset", o.address_offset);
            push_repeat(&mut out, &o.repeat);
        },
        ObjectOverride::Register(o) => {
            if let Some(a) = o.access {
                push_text(&mut out, "access", access_name(a));
            }
            proof {
                assert(nodes_view(out@) =~= match o.access {
                    Some(a) => seq![text_node("access"@, access_text(a))],
                    None => Seq::<NodeV>::empty(),
                });
            }
            push_opt_address(&mut out, "address", o.address);
            push_overlap(&mut out, o.allow_address_overlap);
            push_reset(&mut out, &o.reset_value);
            push_repeat(&mut out, &o.repeat);
        },
        ObjectOverride::Command(o) => {
            push_opt_address(&mut out, "address", o.address);
            push_overlap(&mut out, o.allow_address_overlap);
            push_repeat(&mut out, &o.repeat);
        },
    }
    proof {
        assert(nodes_view(out@) =~= ref_children(*r));
    }
    out
}

/// The nodes of a block before its objects.
fn transform_block_head(b: &Block) -> (res: Vec<Node>)
    ensures
        nodes_view(res@) == block_head(*b),
{
    let mut out: Vec<Node> = Vec::new();
    proof {
        assert(nodes_view(out@) =~= Seq::<NodeV>::empty());
    }
    push_cfg(&mut out, &b.cfg_attr);
    push_int_node(&mut out, "address-offset", b.address_offset as i128);
    push_repeat(&mut out, &b.repeat);
    proof {
        assert(nodes_view(out@) =~= block_head(*b));
    }
    out
}

/// The entries of an object's node.
fn transform_object_entries(object: &Object) -> (res: Vec<Entry>)
    ensures
        crate::kdl_tree::entries_view(res@) == object_entries(*object),
{
    let mut entries: Vec<Entry> = Vec::new();
    entries.push(string_entry(object.name().clone()));
    if let Object::Ref(r) = object {
        match &r.object_override {
            ObjectOverride::Block(v) => entries.push(string_prop("target-block", v.name.clone())),
            ObjectOverride::Register(v) => entries.push(string_prop("target-register", v.name.clone())),
            ObjectOverride::Command(v) => entries.push(string_prop("target-command", v.name.clone())),
        }
    }
    proof {
        assert(crate::kdl_tree::entries_view(entries@) =~= object_entries(*object));
    }
    entries
}

/// The keyword of an object's node.
fn kind_keyword(object: &Object) -> (res: &'static str)
    ensures
        res@ == kind_name(*object),
{
    match object {
        Object::Block(_) => "block",
        Object::Register(_) => "register",
        Object::Command(_) => "command",
        Object::Buffer(_) => "buffer",
        Object::Ref(_) => "ref",
    }
}

/// The children of a block node: its settings and its objects.
fn transform_block_children(b: &Block, global_config: &GlobalConfig) -> (res: Vec<Node>)
    ensures
        nodes_view(res@) == block_head(*b) + objects_nodes(b.objects@, *global_config),
    decreases b,
{
    let mut out = transform_block_head(b);
    let ghost head = nodes_view(out@);
    let mut i: usize = 0;
    proof {
        assert(b.objects@.take(0) =~= Seq::<Object>::empty());
        assert(nodes_view(out@) =~= head + objects_nodes(b.objects@.take(0), *global_config));
    }
    while i < b.objects.len()
        invariant
            i <= b.objects@.len(),
            head == block_head(*b),
            nodes_view(out@) == head + objects_nodes(b.objects@.take(i as int), *global_config),
        decreases b.objects@.len() - i,
    {
        proof {
            assert(decreases_to!(*b => b.objects));
            vstd::std_specs::vec::axiom_vec_index_decreases(b.objects, i as int);
        }
        let n = transform_object(&b.objects[i], global_config);
        push_node(&mut out, n);
        proof {
            let next = b.objects@.take(i + 1);
            assert(next.drop_last() =~= b.objects@.take(i as int));
            assert(next.last() == b.objects@[i as int]);
            assert(nodes_view(out@) =~= head + objects_nodes(next, *global_config));
        }
        i = i + 1;
    }
    proof {
        assert(b.objects@.take(b.objects@.len() as int) =~= b.objects@);
    }
    out
}

/// The node of an object, with the nodes of what it holds.
pub fn transform_object(object: &Object, global_config: &GlobalConfig) -> (res: Node)
    ensures
        node_view(res) == object_node(*object, *global_config),
    decreases object,
{
    let children = match object {
        Object::Block(b) => transform_block_children(b, global_config),
        Object::Register(r) => transform_register_children(r, global_config),
        Object::Command(c) => transform_command_children(c, global_config),
        Object::Buffer(b) => transform_buffer_children(b, global_config),
        Object::Ref(r) => transform_ref_children(r),
    };
    let res = Node {
        name: String::from_str(kind_keyword(object)),
        ty: None,
        name_span: Span { offset: 0, len: 0 },
        span: Span { offset: 0, len: 0 },
        entries: transform_object_entries(object),
        children: Some(children),
        leading: Some(description_to_leading_comment(object.description().as_str())),
    };
    proof {
        assert(node_view(res) =~= object_node(*object, *global_config));
    }
    res
}

/// The node of a device.
pub fn transform_device(device: &Device) -> (res: Node)
    ensures
        node_view(res) == device_node(*device),
{
    let name = match &device.name {
        Some(n) => n.clone(),
        None => String::from_str("Device"),
    };
    let mut children = transform_global_config(&device.global_config);
    let ghost head = nodes_view(children@);
    let mut i: usize = 0;
    proof {
        assert(device.objects@.take(0) =~= Seq::<Object>::empty());
        assert(nodes_view(children@) =~= head + objects_nodes(device.objects@.take(0), device.global_config));
    }
    while i < device.objects.len()
        invariant
            i <= device.objects@.len(),
            nodes_view(children@) == head + objects_nodes(device.objects@.take(i as int), device.global_config),
        decreases device.objects@.len() - i,
    {
        let n = transform_object(&device.objects[i], &device.global_config);
        push_node(&mut children, n);
        proof {
            let next = device.objects@.take(i + 1);
            assert(next.drop_last() =~= device.objects@.take(i as int));
            assert(next.last() == device.objects@[i as int]);
            assert(nodes_view(children@) =~= head + objects_nodes(next, device.global_config));
        }
        i = i + 1;
    }
    proof {
        assert(device.objects@.take(device.objects@.len() as int) =~= device.objects@);
    }
    let ghost name_text = name@;
    let entries = vec![string_entry(name)];
    proof {
        assert(name_text == match device.name {
            Some(n) => n@,
            None => "Device"@,
        });
        assert(crate::kdl_tree::entries_view(entries@) =~= seq![str_entry(name_text)]);
    }
    let res = Node {
        name: String::from_str("device"),
        ty: None,
        name_span: Span { offset: 0, len: 0 },
        span: Span { offset: 0, len: 0 },
        entries,
        children: Some(children),
        leading: None,
    };
    proof {
        assert(node_view(res) =~= device_node(*device));
    }
    res
}

/// Whether no entry of the node, or of the nodes below it, holds a floating point number.
pub open spec fn node_floatless(n: NodeV) -> bool {
    &&& forall|i: int| 0 <= i < n.entries.len() ==> !(#[trigger] n.entries[i].value is Float)
    &&& match n.children {
        Some(c) => floatless(c),
        None => true,
    }
}

/// The nodes hold no floating point number exactly when none of them does.
proof fn lemma_floatless_iff(s: Seq<NodeV>)
    ensures
        floatless(s) <==> forall|i: int| 0 <= i < s.len() ==> node_floatless(#[trigger] s[i]),
    decreases s.len(),
{
    if s.len() > 0 {
        lemma_floatless_iff(s.drop_last());
        assert forall|i: int| 0 <= i < s.len() - 1 implies s.drop_last()[i] == s[i] by {}
        if forall|i: int| 0 <= i < s.len() ==> node_floatless(#[trigger] s[i]) {
            assert(node_floatless(s[s.len() - 1]));
            assert(forall|i: int| 0 <= i < s.drop_last().len() ==> node_floatless(#[trigger] s.drop_last()[i]));
        }
    }
}

/// The nodes of the objects are the nodes of each object, in order.
proof fn lemma_objects_nodes_index(s: Seq<Object>, gc: GlobalConfig)
    ensures
        objects_nodes(s, gc).len() == s.len(),
        forall|i: int| 0 <= i < s.len() ==> #[trigger] objects_nodes(s, gc)[i] == object_node(s[i], gc),
    decreases s.len(),
{
    if s.len() > 0 {
        lemma_objects_nodes_index(s.drop_last(), gc);
    }
}

/// A sequence of written nodes holds no floating point number when each node doesn't.
proof fn lemma_floatless_from_nodes(s: Seq<NodeV>)
    requires
        forall|i: int| 0 <= i < s.len() ==> node_floatless(#[trigger] s[i]),
    ensures
        floatless(s),
{
    lemma_floatless_iff(s);
}

/// The written node of a field set holds no floating point number.
proof fn lemma_field_set_floatless(name: Seq<char>, fs: FieldSet, gc: GlobalConfig)
    ensures
        node_floatless(field_set_node(name, fs, gc)),
{
    let n = field_set_node(name, fs, gc);
    if fs.fields@.len() > 0 {
        let fields = fs.fields@.map_values(|f: Field| field_node(f, gc));
        assert forall|i: int| 0 <= i < fields.len() implies node_floatless(#[trigger] fields[i]) by {
            let f = fs.fields@[i];
            assert(fields[i] == field_node(f, gc));
            match f.field_conversion {
                Some(FieldConversion::Enum { enum_value, .. }) => {
                    let vs = enum_value.variants@.map_values(|v: EnumVariant| variant_node(v));
                    assert forall|j: int| 0 <= j < vs.len() implies node_floatless(#[trigger] vs[j]) by {
                        assert(vs[j] == variant_node(enum_value.variants@[j]));
                    }
                    lemma_floatless_from_nodes(vs);
                },
                _ => {},
            }
        }
        lemma_floatless_from_nodes(fields);
    }
}

/// Whether none of the nodes holds a floating point number.
pub open spec fn all_floatless(s: Seq<NodeV>) -> bool {
    forall|i: int| 0 <= i < s.len() ==> node_floatless(#[trigger] s[i])
}

proof fn lemma_concat(a: Seq<NodeV>, b: Seq<NodeV>)
    requires
        all_floatless(a),
        all_floatless(b),
    ensures
        all_floatless(a + b),
{
    assert forall|k: int| 0 <= k < (a + b).len() implies node_floatless(#[trigger] (a + b)[k]) by {
        if k < a.len() {
            assert((a + b)[k] == a[k]);
        } else {
            assert((a + b)[k] == b[k - a.len()]);
        }
    }
}

proof fn lemma_pieces_floatless(r: Option<Repeat>, rv: Option<ResetValue>, allowed: bool, c: Cfg, a: i64)
    ensures
        all_floatless(opt_repeat(r)),
        all_floatless(opt_reset(rv)),
        all_floatless(overlap_nodes(allowed)),
        all_floatless(cfg_nodes(c)),
        all_floatless(seq![address_node(a)]),
{
    if let Some(v) = rv {
        let n = reset_node(v);
        assert forall|i: int| 0 <= i < n.entries.len() implies !(#[trigger] n.entries[i].value is Float) by {
            match v {
                ResetValue::Integer(_) => {},
                ResetValue::Array(bytes) => {
                    assert(n.entries[i] == int_entry(bytes@[i] as i128));
                },
            }
        }
        assert(node_floatless(opt_reset(rv)[0]));
    }
}

proof fn lemma_register_children_floatless(r: Register, gc: GlobalConfig)
    ensures
        all_floatless(register_children(r, gc)),
{
    lemma_pieces_floatless(r.repeat, r.reset_value, r.allow_address_overlap, r.cfg_attr, r.address);
    lemma_field_set_floatless("fields"@, r.field_set, gc);
    let a = access_nodes(r.access, gc.default_register_access);
    assert(all_floatless(a));
    let s1 = cfg_nodes(r.cfg_attr) + a;
    lemma_concat(cfg_nodes(r.cfg_attr), a);
    lemma_concat(s1, overlap_nodes(r.allow_address_overlap));
    let s2 = s1 + overlap_nodes(r.allow_address_overlap);
    lemma_concat(s2, seq![address_node(r.address)]);
    let s3 = s2 + seq![address_node(r.address)];
    lemma_concat(s3, opt_reset(r.reset_value));
    let s4 = s3 + opt_reset(r.reset_value);
    lemma_concat(s4, opt_repeat(r.repeat));
    let s5 = s4 + opt_repeat(r.repeat);
    assert(all_floatless(seq![field_set_node("fields"@, r.field_set, gc)]));
    lemma_concat(s5, seq![field_set_node("fields"@, r.field_set, gc)]);
}

proof fn lemma_command_children_floatless(c: Command, gc: GlobalConfig)
    ensures
        all_floatless(command_children(c, gc)),
{
    lemma_pieces_floatless(c.repeat, None, c.allow_address_overlap, c.cfg_attr, c.address);
    if let Some(fs) = c.field_set_in {
        lemma_field_set_floatless("in"@, fs, gc);
    }
    if let Some(fs) = c.field_set_out {
        lemma_field_set_floatless("out"@, fs, gc);
    }
    assert(all_floatless(opt_field_set("in"@, c.field_set_in, gc)));
    assert(all_floatless(opt_field_set("out"@, c.field_set_out, gc)));
    let s1 = cfg_nodes(c.cfg_attr) + seq![address_node(c.address)];
    lemma_concat(cfg_nodes(c.cfg_attr), seq![address_node(c.address)]);
    lemma_concat(s1, overlap_nodes(c.allow_address_overlap));
    let s2 = s1 + overlap_nodes(c.allow_address_overlap);
    lemma_concat(s2, opt_repeat(c.repeat));
    let s3 = s2 + opt_repeat(c.repeat);
    lemma_concat(s3, opt_field_set("in"@, c.field_set_in, gc));
    let s4 = s3 + opt_field_set("in"@, c.field_set_in, gc);
    lemma_concat(s4, opt_field_set("out"@, c.field_set_out, gc));
}

proof fn lemma_buffer_children_floatless(b: Buffer, gc: GlobalConfig)
    ensures
        all_floatless(buffer_children(b, gc)),
{
    lemma_pieces_floatless(None, None, false, b.cfg_attr, b.address);
    let a = access_nodes(b.access, gc.default_buffer_access);
    assert(all_floatless(a));
    lemma_concat(cfg_nodes(b.cfg_attr), a);
    lemma_concat(cfg_nodes(b.cfg_attr) + a, seq![address_node(b.address)]);
}

proof fn lemma_ref_children_floatless(r: RefObject)
    ensures
        all_floatless(ref_children(r)),
{
    match r.object_override {
        ObjectOverride::Block(o) => {
            lemma_pieces_floatless(o.repeat, None, false, r.cfg_attr, 0);
            assert(all_floatless(opt_address("address-offset"@, o.address_offset)));
            lemma_concat(opt_address("address-offset"@, o.address_offset), opt_repeat(o.repeat));
        },
        ObjectOverride::Register(o) => {
            lemma_pieces_floatless(o.repeat, o.reset_value, o.allow_address_overlap, r.cfg_attr, 0);
            let acc = match o.access {
                Some(a) => seq![text_node("access"@, access_text(a))],
                None => Seq::empty(),
            };
            assert(all_floatless(acc));
            assert(all_floatless(opt_address("address"@, o.address)));
            lemma_concat(acc, opt_address("address"@, o.address));
            let s1 = acc + opt_address("address"@, o.address);
            lemma_concat(s1, overlap_nodes(o.allow_address_overlap));
            let s2 = s1 + overlap_nodes(o.allow_address_overlap);
            lemma_concat(s2, opt_reset(o.reset_value));
            lemma_concat(s2 + opt_reset(o.reset_value), opt_repeat(o.repeat));
        },
        ObjectOverride::Command(o) => {
            lemma_pieces_floatless(o.repeat, None, o.allow_address_overlap, r.cfg_attr, 0);
            assert(all_floatless(opt_address("address"@, o.address)));
            lemma_concat(opt_address("address"@, o.address), overlap_nodes(o.allow_address_overlap));
            lemma_concat(
                opt_address("address"@, o.address) + overlap_nodes(o.allow_address_overlap),
                opt_repeat(o.repeat),
            );
        },
    }
}

proof fn lemma_block_head_floatless(blk: Block)
    ensures
        all_floatless(block_head(blk)),
{
    lemma_pieces_floatless(blk.repeat, None, false, blk.cfg_attr, 0);
    let off = seq![leaf("address-offset"@, seq![int_entry(blk.address_offset as i128)])];
    assert(all_floatless(off));
    lemma_concat(cfg_nodes(blk.cfg_attr), off);
    lemma_concat(cfg_nodes(blk.cfg_attr) + off, opt_repeat(blk.repeat));
}

/// The written node of an object holds no floating point number.
proof fn lemma_object_floatless(o: Object, gc: GlobalConfig)
    ensures
        node_floatless(object_node(o, gc)),
    decreases o,
{
    let n = object_node(o, gc);
    let c = n.children->0;
    match o {
        Object::Block(b) => {
            vstd::std_specs::vec::axiom_vec_decreases_to_view(b.objects);
            lemma_objects_floatless(b.objects@, gc);
            lemma_block_head_floatless(b);
            lemma_concat(block_head(b), objects_nodes(b.objects@, gc));
        },
        Object::Register(r) => {
            lemma_register_children_floatless(r, gc);
        },
        Object::Command(cm) => {
            lemma_command_children_floatless(cm, gc);
        },
        Object::Buffer(bf) => {
            lemma_buffer_children_floatless(bf, gc);
        },
        Object::Ref(rf) => {
            lemma_ref_children_floatless(rf);
        },
    }
    lemma_floatless_iff(c);
    assert forall|i: int| 0 <= i < n.entries.len() implies !(#[trigger] n.entries[i].value is Float) by {}
}

/// The written nodes of the objects hold no floating point number.
proof fn lemma_objects_floatless(s: Seq<Object>, gc: GlobalConfig)
    ensures
        all_floatless(objects_nodes(s, gc)),
    decreases s,
{
    lemma_objects_nodes_index(s, gc);
    assert forall|i: int| 0 <= i < objects_nodes(s, gc).len() implies node_floatless(#[trigger] objects_nodes(s, gc)[i]) by {
        lemma_object_floatless(s[i], gc);
    }
}

proof fn lemma_changed_floatless(name: Seq<char>, differs: bool, text: Seq<char>)
    ensures
        all_floatless(changed_node(name, differs, text)),
{
    if differs {
        assert(node_floatless(text_node(name, text)));
    }
}

proof fn lemma_opt_floatless<T>(name: Seq<char>, v: Option<T>, f: spec_fn(T) -> Seq<char>)
    ensures
        all_floatless(opt_node(name, v, f)),
{
    if let Some(x) = v {
        assert(node_floatless(text_node(name, f(x))));
    }
}

/// The written settings hold no floating point number.
proof fn lemma_config_floatless(gc: GlobalConfig)
    ensures
        all_floatless(config_nodes(gc)),
{
    let p1 = changed_node("default-register-access"@, gc.default_register_access != Access::RW, access_text(gc.default_register_access));
    let p2 = changed_node("default-field-access"@, gc.default_field_access != Access::RW, access_text(gc.default_field_access));
    let p3 = changed_node("default-buffer-access"@, gc.default_buffer_access != Access::RW, access_text(gc.default_buffer_access));
    let p4 = opt_node("default-byte-order"@, gc.default_byte_order, |b: ByteOrder| byte_order_text(b));
    let p5 = changed_node("default-bit-order"@, gc.default_bit_order != BitOrder::LSB0, bit_order_text(gc.default_bit_order));
    let p6 = opt_node("register-address-type"@, gc.register_address_type, |i: Integer| integer_text(i));
    let p7 = opt_node("command-address-type"@, gc.command_address_type, |i: Integer| integer_text(i));
    let p8 = opt_node("buffer-address-type"@, gc.buffer_address_type, |i: Integer| integer_text(i));
    let p9 = if gc.name_word_boundaries@ != default_word_boundaries() {
        seq![
            leaf(
                "name-word-boundaries"@,
                gc.name_word_boundaries@.map_values(|b: WordBoundary| str_entry(boundary_text(b))),
            ),
        ]
    } else {
        Seq::<NodeV>::empty()
    };
    let p10 = match gc.defmt_feature {
        Some(f) => seq![text_node("defmt-feature"@, f@)],
        None => Seq::<NodeV>::empty(),
    };
    lemma_changed_floatless("default-register-access"@, gc.default_register_access != Access::RW, access_text(gc.default_register_access));
    lemma_changed_floatless("default-field-access"@, gc.default_field_access != Access::RW, access_text(gc.default_field_access));
    lemma_changed_floatless("default-buffer-access"@, gc.default_buffer_access != Access::RW, access_text(gc.default_buffer_access));
    lemma_opt_floatless("default-byte-order"@, gc.default_byte_order, |b: ByteOrder| byte_order_text(b));
    lemma_changed_floatless("default-bit-order"@, gc.default_bit_order != BitOrder::LSB0, bit_order_text(gc.default_bit_order));
    lemma_opt_floatless("register-address-type"@, gc.register_address_type, |i: Integer| integer_text(i));
    lemma_opt_floatless("command-address-type"@, gc.command_address_type, |i: Integer| integer_text(i));
    lemma_opt_floatless("buffer-address-type"@, gc.buffer_address_type, |i: Integer| integer_text(i));
    if gc.name_word_boundaries@ != default_word_boundaries() {
        let es = gc.name_word_boundaries@.map_values(|b: WordBoundary| str_entry(boundary_text(b)));
        assert forall|j: int| 0 <= j < es.len() implies !(#[trigger] es[j].value is Float) by {
            assert(es[j] == str_entry(boundary_text(gc.name_word_boundaries@[j])));
        }
        assert(node_floatless(p9[0]));
    }
    if let Some(f) = gc.defmt_feature {
        assert(node_floatless(text_node("defmt-feature"@, f@)));
    }
    lemma_concat(p1, p2);
    lemma_concat(p1 + p2, p3);
    lemma_concat(p1 + p2 + p3, p4);
    lemma_concat(p1 + p2 + p3 + p4, p5);
    lemma_concat(p1 + p2 + p3 + p4 + p5, p6);
    lemma_concat(p1 + p2 + p3 + p4 + p5 + p6, p7);
    lemma_concat(p1 + p2 + p3 + p4 + p5 + p6 + p7, p8);
    lemma_concat(p1 + p2 + p3 + p4 + p5 + p6 + p7 + p8, p9);
    lemma_concat(p1 + p2 + p3 + p4 + p5 + p6 + p7 + p8 + p9, p10);
    assert(config_nodes(gc) == p1 + p2 + p3 + p4 + p5 + p6 + p7 + p8 + p9 + p10);
}

/// The written node of a device holds no floating point number.
proof fn lemma_device_floatless(d: Device)
    ensures
        floatless(seq![device_node(d)]),
{
    lemma_config_floatless(d.global_config);
    lemma_objects_floatless(d.objects@, d.global_config);
    lemma_concat(config_nodes(d.global_config), objects_nodes(d.objects@, d.global_config));
    lemma_floatless_iff(config_nodes(d.global_config) + objects_nodes(d.objects@, d.global_config));
    lemma_floatless_iff(seq![device_node(d)]);
}

/// Writes the device as a KDL document: one `device` node, formatted by the `kdl` crate.
pub fn transform(device: Device) -> (res: String)
    ensures
        res@ == kdl_rendered(seq![device_node(device)]),
{
    let node = transform_device(&device);
    let mut nodes: Vec<Node> = Vec::new();
    push_node(&mut nodes, node);
    proof {
        assert(nodes_view(Seq::<Node>::empty()) =~= Seq::<NodeV>::empty());
        assert(nodes_view(nodes@) =~= seq![device_node(device)]);
        lemma_device_floatless(device);
    }
    render_kdl(&nodes)
}

} // verus!
