//! What reading gives back of what writing wrote: the nodes that the KDL writer makes
//! for a description, read by the KDL reader, give the description again.

use vstd::prelude::*;

use crate::kdl::{
    access_at, bit_order_at, byte_order_at, entry_spans, index_in, integer_at, named, named_value,
    byte_reports, field_set_allow_overlap, field_set_bit_order, field_set_byte_order, field_set_reports,
    field_set_scan, field_set_size_bits, field_set_step, is_overlap_flag, repeat_result, repeat_scan,
    reset_result, reset_scan, single_string, single_value, register_field_named, RegisterField,
    register_scan, register_step, register_settings, register_reports, register_ok, register_head,
    register_bare, register_tail_reports, children_of, single_integer, zero_entries_extra,
    node_description, fits_i64, register_ready, no_children, doc_comment_lines, RegisterScan,
};
use crate::kdl_transform::{
    access_text, bit_order_text, byte_order_text, field_set_node, int_entry, integer_text, prop,
    repeat_node, reset_node, str_entry, object_node, register_children, leading_comment, cfg_nodes,
    access_nodes, overlap_nodes, address_node, opt_reset, opt_repeat, text_node, leaf,
};
use crate::kdl_tree::{entry_view, entries_view, node_view, nodes_view, Node, NodeV, Value, ValueV};
use crate::dsl_hir::joined_lines;
use crate::lir::code_transform::text_lines;
use crate::mir::{
    Access, BitOrder, ByteOrder, FieldSet, GlobalConfig, Integer, Object, Register, Repeat,
    ResetValue, ResetValueView,
};
use crate::reporting::Span;
use crate::reporting::{expected_names, DiagnosticV, ExpectedList};

verus! {

/// A node with a single anonymous string entry is read as that string, without
/// diagnostics.
pub(crate) proof fn lemma_single_string(n: Node, t: Seq<char>, expected: Option<ExpectedList>)
    requires
        node_view(n).entries == seq![str_entry(t)],
    ensures
        forall|is_name: bool| #![trigger single_string(n, expected, is_name)] {
            &&& single_string(n, expected, is_name).0 == Some(t)
            &&& single_string(n, expected, is_name).1 == Some(n.entries@[0].span)
            &&& single_string(n, expected, is_name).2 == Seq::<DiagnosticV>::empty()
        },
{
    assert(entries_view(n.entries@).len() == 1);
    assert(entries_view(n.entries@)[0] == entry_view(n.entries@[0]));
    assert(entry_view(n.entries@[0]) == str_entry(t));
    assert(entry_spans(n.entries@.skip(1)) =~= Seq::empty());
}

/// An access kind written by its name is read back.
pub proof fn lemma_access_round_trip(n: Node, a: Access)
    requires
        node_view(n).entries == seq![str_entry(access_text(a))],
    ensures
        named_value(n, ExpectedList::AccessNames, |k: int| access_at(k)) == Some(a),
        single_value(n, ExpectedList::AccessNames).1 == Seq::<DiagnosticV>::empty(),
{
    lemma_single_string(n, access_text(a), Some(ExpectedList::AccessNames));
    reveal_strlit("RW");
    reveal_strlit("RO");
    reveal_strlit("WO");
    let names = expected_names(ExpectedList::AccessNames);
    match a {
        Access::RW => {
            assert(index_in(names, access_text(a), 0) == Some(0int));
        },
        Access::RO => {
            assert(names[0][1] != access_text(a)[1]);
            assert(index_in(names, access_text(a), 1) == Some(1int));
        },
        Access::WO => {
            assert(names[0][0] != access_text(a)[0]);
            assert(names[1][0] != access_text(a)[0]);
            assert(index_in(names, access_text(a), 2) == Some(2int));
        },
    }
}

/// Two texts differ when their lengths do, or a character at the same place does.
pub(crate) proof fn lemma_text_ne(a: Seq<char>, b: Seq<char>, i: int)
    requires
        a.len() != b.len() || (0 <= i < a.len() && i < b.len() && a[i] != b[i]),
    ensures
        a != b,
{
}

/// A byte order written by its name is read back.
pub proof fn lemma_byte_order_round_trip(n: Node, b: ByteOrder)
    requires
        node_view(n).entries == seq![str_entry(byte_order_text(b))],
    ensures
        named_value(n, ExpectedList::ByteOrderNames, |k: int| byte_order_at(k)) == Some(b),
        single_value(n, ExpectedList::ByteOrderNames).1 == Seq::<DiagnosticV>::empty(),
{
    lemma_single_string(n, byte_order_text(b), Some(ExpectedList::ByteOrderNames));
    reveal_strlit("LE");
    reveal_strlit("BE");
    let names = expected_names(ExpectedList::ByteOrderNames);
    match b {
        ByteOrder::LE => {
            assert(index_in(names, byte_order_text(b), 0) == Some(0int));
        },
        ByteOrder::BE => {
            lemma_text_ne(names[0], byte_order_text(b), 0);
            assert(index_in(names, byte_order_text(b), 1) == Some(1int));
        },
    }
}

/// A bit order written by its name is read back.
pub proof fn lemma_bit_order_round_trip(n: Node, b: BitOrder)
    requires
        node_view(n).entries == seq![str_entry(bit_order_text(b))],
    ensures
        named_value(n, ExpectedList::BitOrderNames, |k: int| bit_order_at(k)) == Some(b),
        single_value(n, ExpectedList::BitOrderNames).1 == Seq::<DiagnosticV>::empty(),
{
    lemma_single_string(n, bit_order_text(b), Some(ExpectedList::BitOrderNames));
    reveal_strlit("LSB0");
    reveal_strlit("MSB0");
    let names = expected_names(ExpectedList::BitOrderNames);
    match b {
        BitOrder::LSB0 => {
            assert(index_in(names, bit_order_text(b), 0) == Some(0int));
        },
        BitOrder::MSB0 => {
            lemma_text_ne(names[0], bit_order_text(b), 0);
            assert(index_in(names, bit_order_text(b), 1) == Some(1int));
        },
    }
}

/// An integer type written by its name is read back; the reader has no name for `u64`.
pub proof fn lemma_integer_round_trip(n: Node, i: Integer)
    requires
        node_view(n).entries == seq![str_entry(integer_text(i))],
        i != Integer::U64,
    ensures
        named_value(n, ExpectedList::IntegerNames, |k: int| integer_at(k)) == Some(i),
        single_value(n, ExpectedList::IntegerNames).1 == Seq::<DiagnosticV>::empty(),
{
    let t = integer_text(i);
    lemma_single_string(n, t, Some(ExpectedList::IntegerNames));
    reveal_strlit("u8");
    reveal_strlit("u16");
    reveal_strlit("u32");
    reveal_strlit("u64");
    reveal_strlit("i8");
    reveal_strlit("i16");
    reveal_strlit("i32");
    reveal_strlit("i64");
    let names = expected_names(ExpectedList::IntegerNames);
    match i {
        Integer::U8 => {
            assert(index_in(names, t, 0) == Some(0int));
        },
        Integer::U16 => {
            lemma_text_ne(names[0], t, 0);
            assert(index_in(names, t, 1) == Some(1int));
        },
        Integer::U32 => {
            lemma_text_ne(names[0], t, 0);
            lemma_text_ne(names[1], t, 1);
            assert(index_in(names, t, 2) == Some(2int));
        },
        Integer::I8 => {
            lemma_text_ne(names[0], t, 0);
            lemma_text_ne(names[1], t, 0);
            lemma_text_ne(names[2], t, 0);
            assert(index_in(names, t, 3) == Some(3int));
        },
        Integer::I16 => {
            lemma_text_ne(names[0], t, 0);
            lemma_text_ne(names[1], t, 0);
            lemma_text_ne(names[2], t, 0);
            lemma_text_ne(names[3], t, 0);
            assert(index_in(names, t, 4) == Some(4int));
        },
        Integer::I32 => {
            lemma_text_ne(names[0], t, 0);
            lemma_text_ne(names[1], t, 0);
            lemma_text_ne(names[2], t, 0);
            lemma_text_ne(names[3], t, 0);
            lemma_text_ne(names[4], t, 1);
            assert(index_in(names, t, 5) == Some(5int));
        },
        Integer::I64 => {
            lemma_text_ne(names[0], t, 0);
            lemma_text_ne(names[1], t, 0);
            lemma_text_ne(names[2], t, 0);
            lemma_text_ne(names[3], t, 0);
            lemma_text_ne(names[4], t, 1);
            lemma_text_ne(names[5], t, 1);
            assert(index_in(names, t, 6) == Some(6int));
        },
        Integer::U64 => {},
    }
}

/// The entries of a node, taken one by one, are the written ones.
proof fn lemma_entries_match(n: Node, es: Seq<crate::kdl_tree::EntryV>)
    requires
        entries_view(n.entries@) == es,
    ensures
        n.entries@.len() == es.len(),
        forall|i: int| 0 <= i < es.len() ==> entry_view(#[trigger] n.entries@[i]) == es[i],
{
    assert forall|i: int| 0 <= i < es.len() implies entry_view(#[trigger] n.entries@[i]) == es[i] by {
        assert(entries_view(n.entries@)[i] == entry_view(n.entries@[i]));
    }
}

/// A written repeat is read back.
pub proof fn lemma_repeat_round_trip(n: Node, r: Repeat)
    requires
        node_view(n).entries == repeat_node(r).entries,
    ensures
        repeat_result(n) == (Some(r), Seq::<DiagnosticV>::empty()),
{
    let es = repeat_node(r).entries;
    lemma_entries_match(n, es);
    reveal_strlit("count");
    reveal_strlit("stride");
    lemma_text_ne("count"@, "stride"@, 0);
    let entries = n.entries@;
    assert(entries.drop_last().drop_last() =~= Seq::<crate::kdl_tree::Entry>::empty());
    assert(named(entries[0], "count"));
    assert(!named(entries[1], "count"));
    assert(named(entries[1], "stride"));
    assert(entries.drop_last().last() == entries[0]);
    assert(entries[0].value == Value::Integer(r.count as i128));
    assert(entries[1].value == Value::Integer(r.stride as i128));
    let s0 = repeat_scan(entries.drop_last().drop_last());
    assert(s0.reports =~= Seq::<DiagnosticV>::empty());
    let s1 = repeat_scan(entries.drop_last());
    assert(s1 == crate::kdl::repeat_step(s0, entries[0]));
    assert(s1.count == Some(((r.count as i128), entries[0].span)));
    let st = repeat_scan(entries);
    assert(st == crate::kdl::repeat_step(s1, entries[1]));
    assert(st.count == Some(((r.count as i128), entries[0].span)));
    assert(st.stride == Some(r.stride as i128));
    assert(st.reports =~= Seq::<DiagnosticV>::empty());
    assert(st.superfluous =~= Seq::<crate::reporting::Span>::empty());
    assert(st.unexpected_name =~= Seq::<crate::reporting::Span>::empty());
    assert(repeat_result(n).1 =~= Seq::<DiagnosticV>::empty());
}

/// Entries that all hold integers are read as those integers with their places.
proof fn lemma_reset_scan_ints(entries: Seq<crate::kdl_tree::Entry>, vals: Seq<i128>)
    requires
        entries.len() == vals.len(),
        forall|i: int| 0 <= i < entries.len() ==> (#[trigger] entries[i]).value == Value::Integer(vals[i]),
    ensures
        reset_scan(entries).0.len() == entries.len(),
        forall|i: int| 0 <= i < entries.len() ==> #[trigger] reset_scan(entries).0[i] == (vals[i], entries[i].span),
        reset_scan(entries).1 == Seq::<DiagnosticV>::empty(),
    decreases entries.len(),
{
    if entries.len() > 0 {
        lemma_reset_scan_ints(entries.drop_last(), vals.drop_last());
        assert(entries.last().value == Value::Integer(vals.last()));
    }
}

/// Numbers that are all bytes give no diagnostics.
proof fn lemma_bytes_ok(ints: Seq<(i128, Span)>)
    requires
        forall|i: int| 0 <= i < ints.len() ==> 0 <= (#[trigger] ints[i]).0 <= 255,
    ensures
        byte_reports(ints) == Seq::<DiagnosticV>::empty(),
    decreases ints.len(),
{
    if ints.len() > 0 {
        lemma_bytes_ok(ints.drop_last());
        assert(ints.last() == ints[ints.len() - 1]);
    }
}

/// Whether a reset value is read back as it is written: an integer that fits in an
/// `i128`, which it is written as, or an array of bytes of other than one byte, which
/// would be read as an integer.
pub open spec fn reset_value_readable(rv: ResetValue) -> bool {
    match rv {
        ResetValue::Integer(v) => v <= i128::MAX,
        ResetValue::Array(bytes) => bytes@.len() != 1,
    }
}

/// A written reset value is read back.
pub proof fn lemma_reset_round_trip(n: Node, rv: ResetValue)
    requires
        node_view(n).entries == reset_node(rv).entries,
        reset_value_readable(rv),
    ensures
        reset_result(n) == (Some(rv@), Seq::<DiagnosticV>::empty()),
{
    let es = reset_node(rv).entries;
    lemma_entries_match(n, es);
    let entries = n.entries@;
    match rv {
        ResetValue::Integer(v) => {
            let vals = seq![v as i128];
            assert(entries[0].value == Value::Integer(vals[0]));
            lemma_reset_scan_ints(entries, vals);
        },
        ResetValue::Array(bytes) => {
            let vals = bytes@.map_values(|b: u8| b as i128);
            assert forall|i: int| 0 <= i < entries.len() implies (#[trigger] entries[i]).value == Value::Integer(vals[i]) by {
                assert(es[i] == int_entry(bytes@[i] as i128));
            }
            lemma_reset_scan_ints(entries, vals);
            let ints = reset_scan(entries).0;
            lemma_bytes_ok(ints);
            assert(ints.map_values(|p: (i128, Span)| p.0 as u8) =~= bytes@);
        },
    }
}

/// Whether a field set is read back as it is written: it has no fields and no
/// description, which aren't written, and its bit order, if it has one, differs from
/// the device's default, as one that doesn't isn't written.
pub open spec fn field_set_readable(fs: FieldSet, gc: GlobalConfig) -> bool {
    &&& fs.fields@.len() == 0
    &&& fs.description@.len() == 0
    &&& fs.bit_order matches Some(b) ==> b != gc.default_bit_order
}

/// The names of the settings of a field set are all different.
proof fn lemma_field_set_names()
    ensures
        "size-bits"@ != "byte-order"@,
        "size-bits"@ != "bit-order"@,
        "size-bits"@ != "allow-bit-overlap"@,
        "byte-order"@ != "bit-order"@,
        "byte-order"@ != "allow-bit-overlap"@,
        "bit-order"@ != "allow-bit-overlap"@,
        "LE"@ != "BE"@,
        "LSB0"@ != "MSB0"@,
{
    reveal_strlit("size-bits");
    reveal_strlit("byte-order");
    reveal_strlit("bit-order");
    reveal_strlit("allow-bit-overlap");
    reveal_strlit("LE");
    reveal_strlit("BE");
    reveal_strlit("LSB0");
    reveal_strlit("MSB0");
    assert("size-bits"@.len() == 9);
    assert("byte-order"@.len() == 10);
    lemma_text_ne("size-bits"@, "byte-order"@, 0);
    lemma_text_ne("size-bits"@, "bit-order"@, 0);
    lemma_text_ne("size-bits"@, "allow-bit-overlap"@, 0);
    lemma_text_ne("byte-order"@, "bit-order"@, 0);
    lemma_text_ne("byte-order"@, "allow-bit-overlap"@, 0);
    lemma_text_ne("bit-order"@, "allow-bit-overlap"@, 0);
    lemma_text_ne("LE"@, "BE"@, 0);
    lemma_text_ne("LSB0"@, "MSB0"@, 0);
}

/// Reading one more entry: the scan of the entries up to it.
proof fn lemma_scan_push(entries: Seq<crate::kdl_tree::Entry>, i: int)
    requires
        0 <= i < entries.len(),
    ensures
        field_set_scan(entries.take(i + 1)) == field_set_step(field_set_scan(entries.take(i)), entries[i]),
{
    assert(entries.take(i + 1).drop_last() =~= entries.take(i));
}

/// A written field set is read back.
pub proof fn lemma_field_set_round_trip(n: Node, name: Seq<char>, fs: FieldSet, gc: GlobalConfig)
    requires
        node_view(n).entries == field_set_node(name, fs, gc).entries,
        field_set_readable(fs, gc),
    ensures
        field_set_reports(n) == Seq::<DiagnosticV>::empty(),
        field_set_size_bits(field_set_scan(n.entries@)) == fs.size_bits,
        field_set_byte_order(field_set_scan(n.entries@)) == fs.byte_order,
        field_set_bit_order(field_set_scan(n.entries@)) == fs.bit_order,
        field_set_allow_overlap(field_set_scan(n.entries@)) == fs.allow_bit_overlap,
{
    let es = field_set_node(name, fs, gc).entries;
    lemma_entries_match(n, es);
    lemma_field_set_names();
    let entries = n.entries@;
    let mut i: int = 0;
    assert(entries.take(0) =~= Seq::<crate::kdl_tree::Entry>::empty());
    let st0 = field_set_scan(entries.take(0));
    assert(st0.reports =~= Seq::<DiagnosticV>::empty());
    if let Some(b) = fs.byte_order {
        assert(es[0] == prop("byte-order"@, ValueV::String(byte_order_text(b))));
        lemma_scan_push(entries, 0);
        i = 1;
    }
    let st1 = field_set_scan(entries.take(i));
    assert(st1.size_bits is None && st1.bit_order is None && st1.allow_bit_overlap is None);
    assert(st1.reports =~= Seq::<DiagnosticV>::empty());
    assert(st1.unexpected_name =~= Seq::<Span>::empty() && st1.unexpected_anonymous =~= Seq::<Span>::empty());
    assert(fs.byte_order matches Some(b) ==> (st1.byte_order matches Some(e) && e == entries[0]));
    assert(fs.byte_order is None ==> st1.byte_order is None);
    let i1 = i;
    if let Some(b) = fs.bit_order {
        assert(es[i1] == prop("bit-order"@, ValueV::String(bit_order_text(b))));
        lemma_scan_push(entries, i1);
        i = i1 + 1;
    }
    let st2 = field_set_scan(entries.take(i));
    assert(st2.size_bits is None && st2.allow_bit_overlap is None && st2.byte_order == st1.byte_order);
    assert(st2.reports =~= Seq::<DiagnosticV>::empty());
    assert(st2.unexpected_name =~= Seq::<Span>::empty() && st2.unexpected_anonymous =~= Seq::<Span>::empty());
    assert(fs.bit_order matches Some(b) ==> (st2.bit_order matches Some(e) && e == entries[i1]));
    assert(fs.bit_order is None ==> st2.bit_order is None);
    let i2 = i;
    if fs.allow_bit_overlap {
        assert(es[i2] == str_entry("allow-bit-overlap"@));
        assert(is_overlap_flag(entries[i2]));
        lemma_scan_push(entries, i2);
        i = i2 + 1;
    }
    let st3 = field_set_scan(entries.take(i));
    assert(st3.size_bits is None && st3.byte_order == st1.byte_order && st3.bit_order == st2.bit_order);
    assert(st3.reports =~= Seq::<DiagnosticV>::empty());
    assert(st3.unexpected_name =~= Seq::<Span>::empty() && st3.unexpected_anonymous =~= Seq::<Span>::empty());
    assert(fs.allow_bit_overlap ==> (st3.allow_bit_overlap matches Some(e) && e == entries[i2]));
    assert(!fs.allow_bit_overlap ==> st3.allow_bit_overlap is None);
    let i3 = i;
    assert(es[i3] == prop("size-bits"@, ValueV::Integer(fs.size_bits as i128)));
    lemma_scan_push(entries, i3);
    assert(entries.take(i3 + 1) =~= entries);
    let st = field_set_scan(entries);
    assert(st.size_bits matches Some(e) && e == entries[i3]);
    assert(st.reports =~= Seq::<DiagnosticV>::empty());
    reveal_strlit("allow-bit-overlap");
    assert(field_set_reports(n) =~= Seq::<DiagnosticV>::empty());
}

/// The nodes, taken one by one, are the written ones.
pub(crate) proof fn lemma_nodes_match(s: Seq<Node>)
    ensures
        nodes_view(s).len() == s.len(),
        forall|i: int| 0 <= i < s.len() ==> #[trigger] nodes_view(s)[i] == node_view(s[i]),
    decreases s.len(),
{
    if s.len() > 0 {
        lemma_nodes_match(s.drop_last());
    }
}

/// The names of the children of a register are told apart.
proof fn lemma_register_field_names()
    ensures
        register_field_named("cfg"@) == Some(RegisterField::Cfg),
        register_field_named("access"@) == Some(RegisterField::Access),
        register_field_named("allow-address-overlap"@) == Some(RegisterField::AllowAddressOverlap),
        register_field_named("address"@) == Some(RegisterField::Address),
        register_field_named("reset-value"@) == Some(RegisterField::ResetValue),
        register_field_named("repeat"@) == Some(RegisterField::Repeat),
        register_field_named("fields"@) == Some(RegisterField::FieldSet),
{
    reveal_strlit("cfg");
    reveal_strlit("access");
    reveal_strlit("allow-address-overlap");
    reveal_strlit("address");
    reveal_strlit("reset-value");
    reveal_strlit("repeat");
    reveal_strlit("fields");
    lemma_text_ne("access"@, "cfg"@, 0);
    lemma_text_ne("allow-address-overlap"@, "cfg"@, 0);
    lemma_text_ne("allow-address-overlap"@, "access"@, 0);
    lemma_text_ne("address"@, "cfg"@, 0);
    lemma_text_ne("address"@, "access"@, 0);
    lemma_text_ne("address"@, "allow-address-overlap"@, 0);
    lemma_text_ne("reset-value"@, "cfg"@, 0);
    lemma_text_ne("reset-value"@, "access"@, 0);
    lemma_text_ne("reset-value"@, "allow-address-overlap"@, 0);
    lemma_text_ne("reset-value"@, "address"@, 0);
    lemma_text_ne("repeat"@, "cfg"@, 0);
    lemma_text_ne("repeat"@, "access"@, 0);
    lemma_text_ne("repeat"@, "allow-address-overlap"@, 0);
    lemma_text_ne("repeat"@, "address"@, 0);
    lemma_text_ne("repeat"@, "reset-value"@, 0);
    lemma_text_ne("fields"@, "cfg"@, 0);
    lemma_text_ne("fields"@, "access"@, 0);
    lemma_text_ne("fields"@, "allow-address-overlap"@, 0);
    lemma_text_ne("fields"@, "address"@, 0);
    lemma_text_ne("fields"@, "reset-value"@, 0);
    lemma_text_ne("fields"@, "repeat"@, 0);
}

/// The description that the reader takes from a comment before a node.
pub open spec fn comment_description(leading: Seq<char>) -> Seq<char> {
    joined_lines(doc_comment_lines(text_lines(leading)))
}

/// Whether a register is read back as it is written: its reset value and its field set
/// are, its access is written (it differs from the device's default) or is the reader's
/// default, and its description survives being written as a comment and read back.
pub open spec fn register_readable(r: Register, gc: GlobalConfig) -> bool {
    &&& r.reset_value matches Some(v) ==> reset_value_readable(v)
    &&& field_set_readable(r.field_set, gc)
    &&& (r.access != gc.default_register_access || r.access == Access::RW)
    &&& comment_description(leading_comment(r.description@)) == r.description@
}

/// A node with a single anonymous integer entry is read as that integer, without
/// diagnostics.
proof fn lemma_single_integer(n: Node, v: i128)
    requires
        node_view(n).entries == seq![int_entry(v)],
    ensures
        single_integer(n).0 == Some(v),
        single_integer(n).2 == Seq::<DiagnosticV>::empty(),
{
    assert(entries_view(n.entries@).len() == 1);
    assert(entries_view(n.entries@)[0] == entry_view(n.entries@[0]));
    assert(entry_spans(n.entries@.skip(1)) =~= Seq::empty());
}

/// Whether a register that was read has the information of the written one.
pub open spec fn same_register(read: Register, written: Register) -> bool {
    &&& read.name@ == written.name@
    &&& read.address == written.address
    &&& read.cfg_attr@ == written.cfg_attr@
    &&& read.description@ == written.description@
    &&& read.access == written.access
    &&& read.allow_address_overlap == written.allow_address_overlap
    &&& match (read.reset_value, written.reset_value) {
        (Some(a), Some(b)) => a@ == b@,
        (None, None) => true,
        _ => false,
    }
    &&& read.repeat == written.repeat
    &&& read.field_set.size_bits == written.field_set.size_bits
    &&& read.field_set.byte_order == written.field_set.byte_order
    &&& read.field_set.bit_order == written.field_set.bit_order
    &&& read.field_set.allow_bit_overlap == written.field_set.allow_bit_overlap
    &&& read.field_set.fields@.len() == written.field_set.fields@.len()
    &&& read.field_set.description@ == written.field_set.description@
}

/// A condition child fills the condition.
proof fn lemma_cfg_step(st: RegisterScan, p: Node, c: Node, v: Seq<char>)
    requires
        c.name@ == "cfg"@,
        st.cfg is None,
        node_view(c).entries == seq![str_entry(v)],
    ensures
        register_step(st, p, c) == (RegisterScan { cfg: Some((v, c.name_span)), ..st }),
{
    lemma_register_field_names();
    lemma_single_string(c, v, None);
    assert(single_string(c, None, false).2 == Seq::<DiagnosticV>::empty());
    assert(st.reports + Seq::<DiagnosticV>::empty() =~= st.reports);
}

/// An access child fills the access.
proof fn lemma_access_step(st: RegisterScan, p: Node, c: Node, a: Access)
    requires
        c.name@ == "access"@,
        st.access is None,
        node_view(c).entries == seq![str_entry(access_text(a))],
    ensures
        register_step(st, p, c) == (RegisterScan { access: Some((a, c.name_span)), ..st }),
{
    lemma_register_field_names();
    lemma_access_round_trip(c, a);
    assert(st.reports + Seq::<DiagnosticV>::empty() =~= st.reports);
}

/// An address overlap child allows the overlap.
proof fn lemma_overlap_step(st: RegisterScan, p: Node, c: Node)
    requires
        c.name@ == "allow-address-overlap"@,
        st.allow_address_overlap is None,
        node_view(c).entries == Seq::<crate::kdl_tree::EntryV>::empty(),
    ensures
        register_step(st, p, c) == (RegisterScan { allow_address_overlap: Some((true, c.name_span)), ..st }),
{
    lemma_register_field_names();
    assert(entries_view(c.entries@).len() == 0);
    assert(zero_entries_extra(c) =~= Seq::<DiagnosticV>::empty());
    assert(st.reports + Seq::<DiagnosticV>::empty() =~= st.reports);
}

/// An address child fills the address.
proof fn lemma_address_step(st: RegisterScan, p: Node, c: Node, v: i128)
    requires
        c.name@ == "address"@,
        st.address is None,
        node_view(c).entries == seq![int_entry(v)],
    ensures
        register_step(st, p, c) == (RegisterScan { address: Some((v, c.name_span)), ..st }),
{
    lemma_register_field_names();
    lemma_single_integer(c, v);
    assert(st.reports + Seq::<DiagnosticV>::empty() =~= st.reports);
}

/// A reset value child fills the reset value.
proof fn lemma_reset_step(st: RegisterScan, p: Node, c: Node, rv: ResetValue)
    requires
        c.name@ == "reset-value"@,
        st.reset_value is None,
        node_view(c).entries == reset_node(rv).entries,
        reset_value_readable(rv),
    ensures
        register_step(st, p, c) == (RegisterScan { reset_value: Some((rv@, c.name_span)), ..st }),
{
    lemma_register_field_names();
    lemma_reset_round_trip(c, rv);
    assert(st.reports + Seq::<DiagnosticV>::empty() =~= st.reports);
}

/// A repeat child fills the repeat.
proof fn lemma_repeat_step(st: RegisterScan, p: Node, c: Node, rp: Repeat)
    requires
        c.name@ == "repeat"@,
        st.repeat is None,
        node_view(c).entries == repeat_node(rp).entries,
    ensures
        register_step(st, p, c) == (RegisterScan { repeat: Some((rp, c.name_span)), ..st }),
{
    lemma_register_field_names();
    lemma_repeat_round_trip(c, rp);
    assert(st.reports + Seq::<DiagnosticV>::empty() =~= st.reports);
}

/// A fields child fills the field set.
proof fn lemma_fields_step(st: RegisterScan, p: Node, c: Node, fs: FieldSet, gc: GlobalConfig)
    requires
        c.name@ == "fields"@,
        st.field_set is None,
        node_view(c).entries == field_set_node("fields"@, fs, gc).entries,
        field_set_readable(fs, gc),
    ensures
        register_step(st, p, c) == (RegisterScan { field_set: Some((c, c.name_span)), ..st }),
        field_set_size_bits(field_set_scan(c.entries@)) == fs.size_bits,
        field_set_byte_order(field_set_scan(c.entries@)) == fs.byte_order,
        field_set_bit_order(field_set_scan(c.entries@)) == fs.bit_order,
        field_set_allow_overlap(field_set_scan(c.entries@)) == fs.allow_bit_overlap,
{
    lemma_register_field_names();
    lemma_field_set_round_trip(c, "fields"@, fs, gc);
    assert(st.reports + Seq::<DiagnosticV>::empty() =~= st.reports);
}

/// Reading the children from a state on.
pub open spec fn scan_from(st: RegisterScan, p: Node, s: Seq<Node>) -> RegisterScan
    decreases s.len(),
{
    if s.len() == 0 {
        st
    } else {
        register_step(scan_from(st, p, s.drop_last()), p, s.last())
    }
}

proof fn lemma_scan_from_concat(st: RegisterScan, p: Node, a: Seq<Node>, b: Seq<Node>)
    ensures
        scan_from(st, p, a + b) == scan_from(scan_from(st, p, a), p, b),
    decreases b.len(),
{
    if b.len() == 0 {
        assert(a + b =~= a);
    } else {
        assert((a + b).drop_last() =~= a + b.drop_last());
        lemma_scan_from_concat(st, p, a, b.drop_last());
    }
}

proof fn lemma_register_scan_from(p: Node, s: Seq<Node>)
    ensures
        register_scan(p, s) == scan_from(register_scan(p, Seq::empty()), p, s),
    decreases s.len(),
{
    if s.len() > 0 {
        lemma_register_scan_from(p, s.drop_last());
    }
}

/// Reading one child from a state on.
proof fn lemma_scan_one(st: RegisterScan, p: Node, c: Node)
    ensures
        scan_from(st, p, seq![c]) == register_step(st, p, c),
{
    assert(seq![c].drop_last() =~= Seq::<Node>::empty());
    assert(scan_from(st, p, Seq::<Node>::empty()) == st);
    assert(seq![c].last() == c);
}

/// Reading an optional written child from a state on.
proof fn lemma_piece(st: RegisterScan, p: Node, seg: Seq<Node>, w: Seq<NodeV>)
    requires
        nodes_view(seg) == w,
        w.len() <= 1,
    ensures
        seg.len() == w.len(),
        w.len() == 0 ==> scan_from(st, p, seg) == st,
        w.len() == 1 ==> seg =~= seq![seg[0]] && node_view(seg[0]) == w[0] && scan_from(st, p, seg)
            == register_step(st, p, seg[0]),
{
    lemma_nodes_match(seg);
    if w.len() == 1 {
        assert(seg =~= seq![seg[0]]);
        lemma_scan_one(st, p, seg[0]);
    } else {
        assert(seg =~= Seq::<Node>::empty());
    }
}

/// The views of a part of the nodes are that part of their views.
pub(crate) proof fn lemma_nodes_view_subrange(s: Seq<Node>, i: int, j: int)
    requires
        0 <= i <= j <= s.len(),
    ensures
        nodes_view(s.subrange(i, j)) == nodes_view(s).subrange(i, j),
{
    lemma_nodes_match(s);
    lemma_nodes_match(s.subrange(i, j));
    assert(nodes_view(s.subrange(i, j)) =~= nodes_view(s).subrange(i, j));
}

/// The written children of a register, piece by piece: each piece is one node or none.
pub open spec fn register_pieces(r: Register, gc: GlobalConfig) -> Seq<Seq<NodeV>> {
    seq![
        cfg_nodes(r.cfg_attr),
        access_nodes(r.access, gc.default_register_access),
        overlap_nodes(r.allow_address_overlap),
        seq![address_node(r.address)],
        opt_reset(r.reset_value),
        opt_repeat(r.repeat),
        seq![field_set_node("fields"@, r.field_set, gc)],
    ]
}

/// Reading the pieces one after the other from a state on.
pub open spec fn scan_pieces(st: RegisterScan, p: Node, cs: Seq<Seq<Node>>) -> RegisterScan
    decreases cs.len(),
{
    if cs.len() == 0 {
        st
    } else {
        scan_from(scan_pieces(st, p, cs.drop_last()), p, cs.last())
    }
}

/// The concatenation of the pieces.
pub open spec fn flatten_pieces(cs: Seq<Seq<Node>>) -> Seq<Node>
    decreases cs.len(),
{
    if cs.len() == 0 {
        Seq::empty()
    } else {
        flatten_pieces(cs.drop_last()) + cs.last()
    }
}

proof fn lemma_scan_pieces(st: RegisterScan, p: Node, cs: Seq<Seq<Node>>)
    ensures
        scan_from(st, p, flatten_pieces(cs)) == scan_pieces(st, p, cs),
    decreases cs.len(),
{
    if cs.len() > 0 {
        lemma_scan_pieces(st, p, cs.drop_last());
        lemma_scan_from_concat(st, p, flatten_pieces(cs.drop_last()), cs.last());
    }
}

/// The children of a written register node, cut into the written pieces.
#[verifier::rlimit(100)]
proof fn lemma_register_split(n: Node, r: Register, gc: GlobalConfig) -> (cs: Seq<Seq<Node>>)
    requires
        node_view(n) == object_node(Object::Register(r), gc),
    ensures
        cs.len() == 7,
        flatten_pieces(cs) == children_of(n),
        forall|j: int| 0 <= j < 7 ==> nodes_view(#[trigger] cs[j]) == register_pieces(r, gc)[j],
        n.children is Some,
{
    let c = n.children->0;
    let children = c@;
    let ws = register_pieces(r, gc);
    let all = register_children(r, gc);
    assert(all == ws[0] + ws[1] + ws[2] + ws[3] + ws[4] + ws[5] + ws[6]);
    assert(nodes_view(children) == all);
    lemma_nodes_match(children);
    let k1 = ws[0].len() as int;
    let k2 = k1 + ws[1].len();
    let k3 = k2 + ws[2].len();
    let k4 = k3 + ws[3].len();
    let k5 = k4 + ws[4].len();
    let k6 = k5 + ws[5].len();
    let k7 = k6 + ws[6].len();
    let cs = seq![
        children.subrange(0, k1),
        children.subrange(k1, k2),
        children.subrange(k2, k3),
        children.subrange(k3, k4),
        children.subrange(k4, k5),
        children.subrange(k5, k6),
        children.subrange(k6, k7),
    ];
    lemma_nodes_view_subrange(children, 0, k1);
    lemma_nodes_view_subrange(children, k1, k2);
    lemma_nodes_view_subrange(children, k2, k3);
    lemma_nodes_view_subrange(children, k3, k4);
    lemma_nodes_view_subrange(children, k4, k5);
    lemma_nodes_view_subrange(children, k5, k6);
    lemma_nodes_view_subrange(children, k6, k7);
    assert(all.subrange(0, k1) =~= ws[0]);
    assert(all.subrange(k1, k2) =~= ws[1]);
    assert(all.subrange(k2, k3) =~= ws[2]);
    assert(all.subrange(k3, k4) =~= ws[3]);
    assert(all.subrange(k4, k5) =~= ws[4]);
    assert(all.subrange(k5, k6) =~= ws[5]);
    assert(all.subrange(k6, k7) =~= ws[6]);
    assert(flatten_pieces(cs) =~= children) by {
        reveal_with_fuel(flatten_pieces, 8);
        assert(cs.drop_last().drop_last().drop_last().drop_last().drop_last().drop_last().drop_last()
            =~= Seq::<Seq<Node>>::empty());
    }
    cs
}

/// The settings that the children of a written register node give are the register's.
proof fn lemma_register_settings(n: Node, r: Register, gc: GlobalConfig)
    requires
        node_view(n) == object_node(Object::Register(r), gc),
        register_readable(r, gc),
    ensures
        register_settings(n).reports == Seq::<DiagnosticV>::empty(),
        match register_settings(n).cfg {
            Some((v, _)) => Some(v),
            None => None,
        } == r.cfg_attr@,
        match register_settings(n).access {
            Some((a, _)) => a,
            None => Access::RW,
        } == r.access,
        match register_settings(n).allow_address_overlap {
            Some((b, _)) => b,
            None => false,
        } == r.allow_address_overlap,
        register_settings(n).address matches Some((a, _)) && a == r.address as i128,
        match (register_settings(n).reset_value, r.reset_value) {
            (Some((w, _)), Some(v)) => w == v@,
            (None, None) => true,
            _ => false,
        },
        match register_settings(n).repeat {
            Some((v, _)) => Some(v),
            None => None,
        } == r.repeat,
        register_settings(n).field_set matches Some((fc, _)) && {
            &&& field_set_size_bits(field_set_scan(fc.entries@)) == r.field_set.size_bits
            &&& field_set_byte_order(field_set_scan(fc.entries@)) == r.field_set.byte_order
            &&& field_set_bit_order(field_set_scan(fc.entries@)) == r.field_set.bit_order
            &&& field_set_allow_overlap(field_set_scan(fc.entries@)) == r.field_set.allow_bit_overlap
        },
        n.children is Some,
{
    let cs = lemma_register_split(n, r, gc);
    let ws = register_pieces(r, gc);
    let s0 = register_scan(n, Seq::empty());
    assert(s0.reports =~= Seq::<DiagnosticV>::empty());
    lemma_register_scan_from(n, children_of(n));
    lemma_scan_pieces(s0, n, cs);
    let s1 = scan_from(s0, n, cs[0]);
    let s2 = scan_from(s1, n, cs[1]);
    let s3 = scan_from(s2, n, cs[2]);
    let s4 = scan_from(s3, n, cs[3]);
    let s5 = scan_from(s4, n, cs[4]);
    let s6 = scan_from(s5, n, cs[5]);
    let s7 = scan_from(s6, n, cs[6]);
    assert(scan_pieces(s0, n, cs) == s7) by {
        reveal_with_fuel(scan_pieces, 8);
        assert(cs.drop_last().drop_last().drop_last().drop_last().drop_last().drop_last().drop_last()
            =~= Seq::<Seq<Node>>::empty());
        assert(cs.drop_last().drop_last().drop_last().drop_last().drop_last().drop_last().last() == cs[0]);
        assert(cs.drop_last().drop_last().drop_last().drop_last().drop_last().last() == cs[1]);
        assert(cs.drop_last().drop_last().drop_last().drop_last().last() == cs[2]);
        assert(cs.drop_last().drop_last().drop_last().last() == cs[3]);
        assert(cs.drop_last().drop_last().last() == cs[4]);
        assert(cs.drop_last().last() == cs[5]);
        assert(cs.last() == cs[6]);
    }
    assert(register_settings(n) == s7);
    lemma_register_pieces_effect(n, r, gc, cs, s0);
}

/// What the written pieces do to the settings, one after the other.
#[verifier::rlimit(40)]
proof fn lemma_register_pieces_effect(n: Node, r: Register, gc: GlobalConfig, cs: Seq<Seq<Node>>, s0: RegisterScan)
    requires
        cs.len() == 7,
        forall|j: int| 0 <= j < 7 ==> nodes_view(#[trigger] cs[j]) == register_pieces(r, gc)[j],
        register_readable(r, gc),
        s0 == register_scan(n, Seq::empty()),
    ensures
        ({
            let s7 = scan_from(scan_from(scan_from(scan_from(scan_from(scan_from(scan_from(s0, n, cs[0]), n, cs[1]), n, cs[2]), n, cs[3]), n, cs[4]), n, cs[5]), n, cs[6]);
            &&& s7.reports == Seq::<DiagnosticV>::empty()
            &&& match s7.cfg {
                Some((v, _)) => Some(v),
                None => None,
            } == r.cfg_attr@
            &&& match s7.access {
                Some((a, _)) => a,
                None => Access::RW,
            } == r.access
            &&& match s7.allow_address_overlap {
                Some((b, _)) => b,
                None => false,
            } == r.allow_address_overlap
            &&& s7.address matches Some((a, _)) && a == r.address as i128
            &&& match (s7.reset_value, r.reset_value) {
                (Some((w, _)), Some(v)) => w == v@,
                (None, None) => true,
                _ => false,
            }
            &&& match s7.repeat {
                Some((v, _)) => Some(v),
                None => None,
            } == r.repeat
            &&& s7.field_set matches Some((fc, _)) && {
                &&& field_set_size_bits(field_set_scan(fc.entries@)) == r.field_set.size_bits
                &&& field_set_byte_order(field_set_scan(fc.entries@)) == r.field_set.byte_order
                &&& field_set_bit_order(field_set_scan(fc.entries@)) == r.field_set.bit_order
                &&& field_set_allow_overlap(field_set_scan(fc.entries@)) == r.field_set.allow_bit_overlap
            }
        }),
{
    let ws = register_pieces(r, gc);
    assert(s0.reports =~= Seq::<DiagnosticV>::empty());
    let s1 = scan_from(s0, n, cs[0]);
    lemma_piece(s0, n, cs[0], ws[0]);
    if let Some(v) = r.cfg_attr@ {
        lemma_cfg_step(s0, n, cs[0][0], v);
    }
    let s2 = scan_from(s1, n, cs[1]);
    lemma_piece(s1, n, cs[1], ws[1]);
    if r.access != gc.default_register_access {
        lemma_access_step(s1, n, cs[1][0], r.access);
    }
    let s3 = scan_from(s2, n, cs[2]);
    lemma_piece(s2, n, cs[2], ws[2]);
    if r.allow_address_overlap {
        lemma_overlap_step(s2, n, cs[2][0]);
    }
    let s4 = scan_from(s3, n, cs[3]);
    lemma_piece(s3, n, cs[3], ws[3]);
    lemma_address_step(s3, n, cs[3][0], r.address as i128);
    let s5 = scan_from(s4, n, cs[4]);
    lemma_piece(s4, n, cs[4], ws[4]);
    if let Some(rv) = r.reset_value {
        lemma_reset_step(s4, n, cs[4][0], rv);
    }
    let s6 = scan_from(s5, n, cs[5]);
    lemma_piece(s5, n, cs[5], ws[5]);
    if let Some(rp) = r.repeat {
        lemma_repeat_step(s5, n, cs[5][0], rp);
    }
    lemma_piece(s6, n, cs[6], ws[6]);
    lemma_fields_step(s6, n, cs[6][0], r.field_set, gc);
}

/// Whether every `fields` child of a written register node has no children.
proof fn lemma_register_ready(n: Node, r: Register, gc: GlobalConfig)
    requires
        node_view(n) == object_node(Object::Register(r), gc),
        field_set_readable(r.field_set, gc),
    ensures
        register_ready(n),
{
    let children = children_of(n);
    let all = register_children(r, gc);
    assert(nodes_view(children) == all);
    lemma_nodes_match(children);
    lemma_register_field_names();
    reveal_strlit("cfg");
    reveal_strlit("fields");
    assert forall|k: int|
        0 <= k < children.len() && #[trigger] children[k].name@ == "fields"@ implies no_children(children[k]) by {
        assert(nodes_view(children)[k] == node_view(children[k]));
        assert(all[k].name == children[k].name@);
        if k < all.len() - 1 {
            assert(all[k].name != "fields"@);
        }
    }
}

/// Reading the node that the writer makes of a register gives a register, without
/// diagnostics, and any register read from it has the information of the written one.
pub proof fn lemma_register_round_trip(n: Node, r: Register, gc: GlobalConfig)
    requires
        node_view(n) == object_node(Object::Register(r), gc),
        register_readable(r, gc),
    ensures
        register_ready(n),
        register_ok(n),
        register_reports(n) == Seq::<DiagnosticV>::empty(),
        forall|read: Register| crate::kdl::register_matches(read, n) ==> same_register(read, r),
{
    lemma_register_settings(n, r, gc);
    lemma_register_ready(n, r, gc);
    let nv = node_view(n);
    assert(nv.entries == seq![str_entry(r.name@)]);
    lemma_single_string(n, r.name@, None);
    assert(single_string(n, None, true).0 == Some(r.name@));
    assert(single_string(n, None, true).2 == Seq::<DiagnosticV>::empty());
    let st = register_settings(n);
    assert(register_tail_reports(n) =~= Seq::<DiagnosticV>::empty());
    assert(register_reports(n) =~= Seq::<DiagnosticV>::empty());
    assert(n.leading matches Some(l) && l@ == leading_comment(r.description@));
    assert(node_description(n) == r.description@);
    assert forall|read: Register| crate::kdl::register_matches(read, n) implies same_register(read, r) by {
        assert(read.name@ == r.name@);
        assert(read.address as int == r.address as int);
        assert(read.cfg_attr@ == r.cfg_attr@);
        assert(read.description@ == r.description@);
        assert(read.access == r.access);
        assert(read.allow_address_overlap == r.allow_address_overlap);
        assert(read.repeat == r.repeat);
        assert(read.field_set.size_bits == r.field_set.size_bits);
        assert(read.field_set.fields@.len() == r.field_set.fields@.len());
        assert(read.field_set.byte_order == r.field_set.byte_order);
        assert(read.field_set.bit_order == r.field_set.bit_order);
        assert(read.field_set.allow_bit_overlap == r.field_set.allow_bit_overlap);
        assert(read.field_set.description@ =~= r.field_set.description@);
        match (read.reset_value, r.reset_value) {
            (Some(a), Some(b)) => {
                assert(a@ == b@);
            },
            (None, None) => {},
            (Some(a), None) => {
                assert(false);
            },
            (None, Some(b)) => {
                assert(false);
            },
        }
    }
}

} // verus!
