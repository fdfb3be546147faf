//! Reading a device description written in KDL into the mid-level description, with
//! a diagnostic for everything in it that is wrong or odd.

use vstd::prelude::*;

use crate::dsl_hir::joined_lines;
use crate::kdl_tree::{Entry, Node, Value};
use crate::lir::code_transform::{
    is_white_space, leading_space_len, lemma_leading_space_len, split_lines, text_lines,
    texts_view, trimmed_start, white_space,
};
use crate::case::{boundaries_from_pattern, boundaries_in_pattern};
use crate::kdl_tree::{kdl_parsed, parse_kdl};
use crate::mir::{
    default_word_boundaries, Access, BitOrder, ByteOrder, Cfg, Device, FieldSet, GlobalConfig,
    Integer, Object, Register, Repeat, ResetValue, ResetValueView, WordBoundary,
};
use crate::reporting::{
    expected_names, text_view, Diagnostic, DiagnosticV, Diagnostics, ExpectedList, Span,
};

verus! {

/// The places of the entries.
pub open spec fn entry_spans(entries: Seq<Entry>) -> Seq<Span> {
    entries.map_values(|e: Entry| e.span)
}

/// For a node that takes one anonymous entry: the diagnostic of its other entries, if
/// it has any, and of a name on its first entry.
pub open spec fn single_entry_extra(node: Node) -> Seq<DiagnosticV> {
    let entries = node.entries@;
    let superfluous = if entries.len() > 0 {
        entry_spans(entries.skip(1))
    } else {
        Seq::empty()
    };
    let not_anonymous = if entries.len() > 0 && entries[0].name is Some {
        seq![entries[0].span]
    } else {
        Seq::empty()
    };
    if superfluous.len() == 0 && not_anonymous.len() == 0 {
        Seq::empty()
    } else {
        seq![
            DiagnosticV::UnexpectedEntries {
                superfluous_entries: superfluous,
                unexpected_name_entries: Seq::empty(),
                not_anonymous_entries: not_anonymous,
                unexpected_anonymous_entries: Seq::empty(),
            },
        ]
    }
}

/// Whether the node's first entry is anonymous.
pub open spec fn first_anonymous(node: Node) -> bool {
    node.entries@.len() > 0 && node.entries@[0].name is None
}

/// The single integer of a node: the value and the place of its anonymous first entry,
/// and the diagnostics.
pub open spec fn single_integer(node: Node) -> (Option<i128>, Option<Span>, Seq<DiagnosticV>) {
    let extra = single_entry_extra(node);
    if first_anonymous(node) {
        let entry = node.entries@[0];
        match entry.value {
            Value::Integer(v) => (Some(v), Some(entry.span), extra),
            _ => (
                None,
                Some(entry.span),
                extra.push(DiagnosticV::UnexpectedType { value_name: entry.span, expected_type: "integer"@ }),
            ),
        }
    } else {
        (
            None,
            None,
            extra.push(
                DiagnosticV::MissingEntry { node_name: node.name_span, expected_entries: ExpectedList::Integer },
            ),
        )
    }
}

/// The single string of a node: the value and the place of its anonymous first entry,
/// and the diagnostics. Where the string is the name of an object, a missing or wrong
/// entry is reported as a missing name.
pub open spec fn single_string(node: Node, expected: Option<ExpectedList>, is_name: bool) -> (
    Option<Seq<char>>,
    Option<Span>,
    Seq<DiagnosticV>,
) {
    let extra = single_entry_extra(node);
    if first_anonymous(node) {
        let entry = node.entries@[0];
        match entry.value {
            Value::String(v) => (Some(v@), Some(entry.span), extra),
            _ => (
                None,
                Some(entry.span),
                extra.push(
                    if is_name {
                        DiagnosticV::MissingObjectName {
                            object_keyword: node.name_span,
                            found_instead: Some(entry.span),
                            object_type: node.name@,
                        }
                    } else {
                        DiagnosticV::UnexpectedType { value_name: entry.span, expected_type: "string"@ }
                    },
                ),
            ),
        }
    } else {
        (
            None,
            None,
            extra.push(
                if is_name {
                    DiagnosticV::MissingObjectName {
                        object_keyword: node.name_span,
                        found_instead: None,
                        object_type: node.name@,
                    }
                } else {
                    DiagnosticV::MissingEntry {
                        node_name: node.name_span,
                        expected_entries: match expected {
                            Some(list) => list,
                            None => ExpectedList::String,
                        },
                    }
                },
            ),
        )
    }
}

/// Reports the other entries of a node that takes one anonymous entry, and a name on
/// its first entry.
fn report_single_entry_extra(node: &Node, diagnostics: &mut Diagnostics)
    ensures
        final(diagnostics)@ == old(diagnostics)@ + single_entry_extra(*node),
{
    let ghost entries = node.entries@;
    let mut superfluous: Vec<Span> = Vec::new();
    if node.entries.len() > 0 {
        let mut i: usize = 1;
        proof {
            assert(entry_spans(entries.subrange(1, 1)) =~= Seq::<Span>::empty());
        }
        while i < node.entries.len()
            invariant
                1 <= i <= entries.len(),
                entries == node.entries@,
                superfluous@ == entry_spans(entries.subrange(1, i as int)),
            decreases entries.len() - i,
        {
            superfluous.push(node.entries[i].span);
            proof {
                assert(entry_spans(entries.subrange(1, i + 1)) =~= entry_spans(
                    entries.subrange(1, i as int),
                ).push(entries[i as int].span));
            }
            i = i + 1;
        }
        proof {
            assert(entries.subrange(1, entries.len() as int) =~= entries.skip(1));
        }
    }
    let mut not_anonymous: Vec<Span> = Vec::new();
    if node.entries.len() > 0 && node.entries[0].name.is_some() {
        not_anonymous.push(node.entries[0].span);
    }
    if superfluous.len() != 0 || not_anonymous.len() != 0 {
        let diagnostic = Diagnostic::UnexpectedEntries {
            superfluous_entries: superfluous,
            unexpected_name_entries: Vec::new(),
            not_anonymous_entries: not_anonymous,
            unexpected_anonymous_entries: Vec::new(),
        };
        proof {
            assert(diagnostic@ == single_entry_extra(*node)[0]);
            assert(single_entry_extra(*node) =~= seq![diagnostic@]);
        }
        diagnostics.add(diagnostic);
    } else {
        proof {
            assert(old(diagnostics)@ + single_entry_extra(*node) =~= old(diagnostics)@);
        }
    }
}

/// Reads the single integer of a node from its anonymous first entry: the value and the
/// place of the entry, as far as they are there.
pub fn parse_single_integer_entry(node: &Node, diagnostics: &mut Diagnostics) -> (res: (
    Option<i128>,
    Option<Span>,
))
    ensures
        res.0 == single_integer(*node).0,
        res.1 == single_integer(*node).1,
        final(diagnostics)@ == old(diagnostics)@ + single_integer(*node).2,
{
    report_single_entry_extra(node, diagnostics);
    let ghost mid = diagnostics@;
    if node.entries.len() > 0 && node.entries[0].name.is_none() {
        let entry = &node.entries[0];
        match &entry.value {
            Value::Integer(v) => (Some(*v), Some(entry.span)),
            _ => {
                diagnostics.add(
                    Diagnostic::UnexpectedType { value_name: entry.span, expected_type: "integer" },
                );
                proof {
                    assert(diagnostics@ =~= old(diagnostics)@ + single_integer(*node).2);
                }
                (None, Some(entry.span))
            },
        }
    } else {
        diagnostics.add(
            Diagnostic::MissingEntry { node_name: node.name_span, expected_entries: ExpectedList::Integer },
        );
        proof {
            assert(diagnostics@ =~= old(diagnostics)@ + single_integer(*node).2);
        }
        (None, None)
    }
}

/// Reads the single string of a node from its anonymous first entry: the value and the
/// place of the entry, as far as they are there. `expected_entries` names what a
/// missing entry should have been, and `is_name` tells that the string names an object.
pub fn parse_single_string_entry(
    node: &Node,
    diagnostics: &mut Diagnostics,
    expected_entries: Option<ExpectedList>,
    is_name: bool,
) -> (res: (Option<String>, Option<Span>))
    ensures
        text_view(res.0) == single_string(*node, expected_entries, is_name).0,
        res.1 == single_string(*node, expected_entries, is_name).1,
        final(diagnostics)@ == old(diagnostics)@ + single_string(*node, expected_entries, is_name).2,
{
    report_single_entry_extra(node, diagnostics);
    if node.entries.len() > 0 && node.entries[0].name.is_none() {
        let entry = &node.entries[0];
        match &entry.value {
            Value::String(v) => (Some(v.clone()), Some(entry.span)),
            _ => {
                if is_name {
                    diagnostics.add(
                        Diagnostic::MissingObjectName {
                            object_keyword: node.name_span,
                            found_instead: Some(entry.span),
                            object_type: node.name.clone(),
                        },
                    );
                } else {
                    diagnostics.add(
                        Diagnostic::UnexpectedType { value_name: entry.span, expected_type: "string" },
                    );
                }
                proof {
                    assert(diagnostics@ =~= old(diagnostics)@ + single_string(
                        *node,
                        expected_entries,
                        is_name,
                    ).2);
                }
                (None, Some(entry.span))
            },
        }
    } else {
        if is_name {
            diagnostics.add(
                Diagnostic::MissingObjectName {
                    object_keyword: node.name_span,
                    found_instead: None,
                    object_type: node.name.clone(),
                },
            );
        } else {
            let expected = match expected_entries {
                Some(list) => list,
                None => ExpectedList::String,
            };
            diagnostics.add(Diagnostic::MissingEntry { node_name: node.name_span, expected_entries: expected });
        }
        proof {
            assert(diagnostics@ =~= old(diagnostics)@ + single_string(*node, expected_entries, is_name).2);
        }
        (None, None)
    }
}

/// The position of the first name in the list, from position `i` on, that is the text.
pub open spec fn index_in(names: Seq<Seq<char>>, text: Seq<char>, i: int) -> Option<int>
    decreases names.len() - i,
{
    if i < 0 || i >= names.len() {
        None
    } else if names[i] == text {
        Some(i)
    } else {
        index_in(names, text, i + 1)
    }
}

/// A string entry that must be one of the names in the list: the position of the name
/// it is, and the diagnostics.
pub open spec fn single_value(node: Node, list: ExpectedList) -> (Option<int>, Seq<DiagnosticV>) {
    let (v, span, d) = single_string(node, Some(list), false);
    match v {
        Some(t) => match index_in(expected_names(list), t, 0) {
            Some(k) => (Some(k), d),
            None => (
                None,
                d.push(DiagnosticV::UnexpectedValue { value_name: span->0, expected_values: list }),
            ),
        },
        None => (None, d),
    }
}

/// Reads the single string of a node, which must be one of the names in the list, as
/// the position of that name in the list.
pub fn parse_single_string_value(node: &Node, list: ExpectedList, diagnostics: &mut Diagnostics) -> (res:
    Option<usize>)
    ensures
        match res {
            Some(k) => single_value(*node, list).0 == Some(k as int),
            None => single_value(*node, list).0 is None,
        },
        final(diagnostics)@ == old(diagnostics)@ + single_value(*node, list).1,
{
    let (value, span) = parse_single_string_entry(node, diagnostics, Some(list), false);
    match value {
        Some(val) => {
            let names = list.names();
            let ghost all = expected_names(list);
            let mut i: usize = 0;
            proof {
                assert(names@.len() == all.len()) by {
                    assert(names@.map_values(|s: &str| s@).len() == names@.len());
                }
            }
            while i < names.len()
                invariant
                    i <= names@.len(),
                    names@.len() == all.len(),
                    names@.map_values(|s: &str| s@) == all,
                    all == expected_names(list),
                    index_in(all, val@, 0) == index_in(all, val@, i as int),
                    single_string(*node, Some(list), false).0 == Some(val@),
                    single_string(*node, Some(list), false).1 == span,
                    diagnostics@ == old(diagnostics)@ + single_string(*node, Some(list), false).2,
                decreases names@.len() - i,
            {
                assert(names@.map_values(|s: &str| s@)[i as int] == names@[i as int]@);
                if String::from_str(names[i]) == val {
                    return Some(i);
                }
                i = i + 1;
            }
            diagnostics.add(Diagnostic::UnexpectedValue { value_name: span.unwrap(), expected_values: list });
            None
        },
        None => None,
    }
}

/// The access kind at the position in the list of their names.
pub open spec fn access_at(k: int) -> Access {
    if k == 0 {
        Access::RW
    } else if k == 1 {
        Access::RO
    } else {
        Access::WO
    }
}

/// The byte order at the position in the list of their names.
pub open spec fn byte_order_at(k: int) -> ByteOrder {
    if k == 0 {
        ByteOrder::LE
    } else {
        ByteOrder::BE
    }
}

/// The bit order at the position in the list of their names.
pub open spec fn bit_order_at(k: int) -> BitOrder {
    if k == 0 {
        BitOrder::LSB0
    } else {
        BitOrder::MSB0
    }
}

/// The integer type at the position in the list of their names.
pub open spec fn integer_at(k: int) -> Integer {
    if k == 0 {
        Integer::U8
    } else if k == 1 {
        Integer::U16
    } else if k == 2 {
        Integer::U32
    } else if k == 3 {
        Integer::I8
    } else if k == 4 {
        Integer::I16
    } else if k == 5 {
        Integer::I32
    } else {
        Integer::I64
    }
}

/// The value that a single string entry names, as read with `parse_single_string_value`.
pub open spec fn named_value<T>(node: Node, list: ExpectedList, at: spec_fn(int) -> T) -> Option<T> {
    match single_value(node, list).0 {
        Some(k) => Some(at(k)),
        None => None,
    }
}

/// Reads an access kind from the single string of a node.
pub fn parse_access(node: &Node, diagnostics: &mut Diagnostics) -> (res: Option<Access>)
    ensures
        res == named_value(*node, ExpectedList::AccessNames, |k: int| access_at(k)),
        final(diagnostics)@ == old(diagnostics)@ + single_value(*node, ExpectedList::AccessNames).1,
{
    match parse_single_string_value(node, ExpectedList::AccessNames, diagnostics) {
        Some(0) => Some(Access::RW),
        Some(1) => Some(Access::RO),
        Some(_) => Some(Access::WO),
        None => None,
    }
}

/// Reads a byte order from the single string of a node.
pub fn parse_byte_order(node: &Node, diagnostics: &mut Diagnostics) -> (res: Option<ByteOrder>)
    ensures
        res == named_value(*node, ExpectedList::ByteOrderNames, |k: int| byte_order_at(k)),
        final(diagnostics)@ == old(diagnostics)@ + single_value(*node, ExpectedList::ByteOrderNames).1,
{
    match parse_single_string_value(node, ExpectedList::ByteOrderNames, diagnostics) {
        Some(0) => Some(ByteOrder::LE),
        Some(_) => Some(ByteOrder::BE),
        None => None,
    }
}

/// Reads a bit order from the single string of a node.
pub fn parse_bit_order(node: &Node, diagnostics: &mut Diagnostics) -> (res: Option<BitOrder>)
    ensures
        res == named_value(*node, ExpectedList::BitOrderNames, |k: int| bit_order_at(k)),
        final(diagnostics)@ == old(diagnostics)@ + single_value(*node, ExpectedList::BitOrderNames).1,
{
    match parse_single_string_value(node, ExpectedList::BitOrderNames, diagnostics) {
        Some(0) => Some(BitOrder::LSB0),
        Some(_) => Some(BitOrder::MSB0),
        None => None,
    }
}

/// Reads an integer type from the single string of a node.
pub fn parse_integer_type(node: &Node, diagnostics: &mut Diagnostics) -> (res: Option<Integer>)
    ensures
        res == named_value(*node, ExpectedList::IntegerNames, |k: int| integer_at(k)),
        final(diagnostics)@ == old(diagnostics)@ + single_value(*node, ExpectedList::IntegerNames).1,
{
    match parse_single_string_value(node, ExpectedList::IntegerNames, diagnostics) {
        Some(0) => Some(Integer::U8),
        Some(1) => Some(Integer::U16),
        Some(2) => Some(Integer::U32),
        Some(3) => Some(Integer::I8),
        Some(4) => Some(Integer::I16),
        Some(5) => Some(Integer::I32),
        Some(_) => Some(Integer::I64),
        None => None,
    }
}

/// The diagnostic of a node that takes no entries but has some.
pub open spec fn zero_entries_extra(node: Node) -> Seq<DiagnosticV> {
    if node.entries@.len() == 0 {
        Seq::empty()
    } else {
        seq![
            DiagnosticV::UnexpectedEntries {
                superfluous_entries: entry_spans(node.entries@),
                unexpected_name_entries: Seq::empty(),
                not_anonymous_entries: Seq::empty(),
                unexpected_anonymous_entries: Seq::empty(),
            },
        ]
    }
}

/// The places of the entries, gathered in order.
fn spans_of(entries: &Vec<Entry>) -> (res: Vec<Span>)
    ensures
        res@ == entry_spans(entries@),
{
    let mut res: Vec<Span> = Vec::new();
    let mut i: usize = 0;
    while i < entries.len()
        invariant
            i <= entries@.len(),
            res@ == entry_spans(entries@.take(i as int)),
        decreases entries@.len() - i,
    {
        res.push(entries[i].span);
        proof {
            assert(entry_spans(entries@.take(i + 1)) =~= entry_spans(entries@.take(i as int)).push(
                entries@[i as int].span,
            ));
        }
        i = i + 1;
    }
    proof {
        assert(entries@.take(entries@.len() as int) =~= entries@);
    }
    res
}

/// Reports the entries of a node that takes none.
pub fn ensure_zero_entries(node: &Node, diagnostics: &mut Diagnostics)
    ensures
        final(diagnostics)@ == old(diagnostics)@ + zero_entries_extra(*node),
{
    if node.entries.len() != 0 {
        let diagnostic = Diagnostic::UnexpectedEntries {
            superfluous_entries: spans_of(&node.entries),
            unexpected_name_entries: Vec::new(),
            not_anonymous_entries: Vec::new(),
            unexpected_anonymous_entries: Vec::new(),
        };
        proof {
            assert(zero_entries_extra(*node) =~= seq![diagnostic@]);
        }
        diagnostics.add(diagnostic);
    } else {
        proof {
            assert(old(diagnostics)@ + zero_entries_extra(*node) =~= old(diagnostics)@);
        }
    }
}

/// What reading the entries of a repeat has found so far.
pub ghost struct RepeatScan {
    pub count: Option<(i128, Span)>,
    pub stride: Option<i128>,
    pub superfluous: Seq<Span>,
    pub unexpected_name: Seq<Span>,
    pub reports: Seq<DiagnosticV>,
}

/// Whether the entry has the name.
pub open spec fn named(e: Entry, name: &str) -> bool {
    e.name matches Some(n) && n@ == name@
}

/// Reading one more entry of a repeat: an integer `count` or `stride` is taken, a
/// `count` or `stride` of another type is reported, and any other entry is unexpected.
pub open spec fn repeat_step(st: RepeatScan, e: Entry) -> RepeatScan {
    if named(e, "count") || named(e, "stride") {
        match e.value {
            Value::Integer(v) => if named(e, "count") {
                RepeatScan { count: Some((v, e.span)), ..st }
            } else {
                RepeatScan { stride: Some(v), ..st }
            },
            _ => RepeatScan {
                reports: st.reports.push(
                    DiagnosticV::UnexpectedType { value_name: e.span, expected_type: "integer"@ },
                ),
                ..st
            },
        }
    } else if e.name is Some {
        RepeatScan { unexpected_name: st.unexpected_name.push(e.span), ..st }
    } else {
        RepeatScan { superfluous: st.superfluous.push(e.span), ..st }
    }
}

/// What reading the entries of a repeat finds.
pub open spec fn repeat_scan(entries: Seq<Entry>) -> RepeatScan
    decreases entries.len(),
{
    if entries.len() == 0 {
        RepeatScan {
            count: None,
            stride: None,
            superfluous: Seq::empty(),
            unexpected_name: Seq::empty(),
            reports: Seq::empty(),
        }
    } else {
        repeat_step(repeat_scan(entries.drop_last()), entries.last())
    }
}

/// The diagnostic of the unexpected entries of a repeat, if it has any.
pub open spec fn unexpected_report(superfluous: Seq<Span>, unexpected_name: Seq<Span>) -> Seq<
    DiagnosticV,
> {
    if superfluous.len() == 0 && unexpected_name.len() == 0 {
        Seq::empty()
    } else {
        seq![
            DiagnosticV::UnexpectedEntries {
                superfluous_entries: superfluous,
                unexpected_name_entries: unexpected_name,
                not_anonymous_entries: Seq::empty(),
                unexpected_anonymous_entries: Seq::empty(),
            },
        ]
    }
}

/// The diagnostic of a missing count or stride, if one is missing.
pub open spec fn repeat_missing(st: RepeatScan, node: Node) -> Seq<DiagnosticV> {
    if st.count is None && st.stride is None {
        seq![DiagnosticV::MissingEntry { node_name: node.name_span, expected_entries: ExpectedList::CountAndStride }]
    } else if st.count is None {
        seq![DiagnosticV::MissingEntry { node_name: node.name_span, expected_entries: ExpectedList::Count }]
    } else if st.stride is None {
        seq![DiagnosticV::MissingEntry { node_name: node.name_span, expected_entries: ExpectedList::Stride }]
    } else {
        Seq::empty()
    }
}

/// Whether the integer fits in a `u64`.
pub open spec fn fits_u64(v: i128) -> bool {
    0 <= v <= u64::MAX
}

/// Whether the integer fits in an `i64`.
pub open spec fn fits_i64(v: i128) -> bool {
    i64::MIN <= v <= i64::MAX
}

/// The diagnostic of a count that doesn't fit in a `u64`.
pub open spec fn count_range_report(st: RepeatScan) -> Seq<DiagnosticV> {
    match st.count {
        Some((c, span)) => if !fits_u64(c) {
            seq![
                DiagnosticV::ValueOutOfRange {
                    value: span,
                    context: Some("The count is encoded as a u64"@),
                    range: "0..2^64"@,
                },
            ]
        } else {
            Seq::empty()
        },
        None => Seq::empty(),
    }
}

/// The diagnostic of a stride that doesn't fit in an `i64`, placed at the node.
pub open spec fn stride_range_report(st: RepeatScan, node: Node) -> Seq<DiagnosticV> {
    match st.stride {
        Some(v) => if !fits_i64(v) {
            seq![
                DiagnosticV::ValueOutOfRange {
                    value: node.name_span,
                    context: Some("The stride is encoded as an i64"@),
                    range: "-2^63..2^63"@,
                },
            ]
        } else {
            Seq::empty()
        },
        None => Seq::empty(),
    }
}

/// The repeat that a node describes with its `count` and `stride` entries, and the
/// diagnostics.
pub open spec fn repeat_result(node: Node) -> (Option<Repeat>, Seq<DiagnosticV>) {
    let st = repeat_scan(node.entries@);
    let reports = st.reports + unexpected_report(st.superfluous, st.unexpected_name)
        + repeat_missing(st, node) + count_range_report(st) + stride_range_report(st, node);
    match (st.count, st.stride) {
        (Some((c, _)), Some(s)) => if fits_u64(c) && fits_i64(s) {
            (Some(Repeat { count: c as u64, stride: s as i64 }), reports)
        } else {
            (None, reports)
        },
        _ => (None, reports),
    }
}

/// Adds the diagnostic of unexpected entries when there are any.
fn report_unexpected(superfluous: Vec<Span>, unexpected_name: Vec<Span>, diagnostics: &mut Diagnostics)
    ensures
        final(diagnostics)@ == old(diagnostics)@ + unexpected_report(superfluous@, unexpected_name@),
{
    if superfluous.len() != 0 || unexpected_name.len() != 0 {
        let diagnostic = Diagnostic::UnexpectedEntries {
            superfluous_entries: superfluous,
            unexpected_name_entries: unexpected_name,
            not_anonymous_entries: Vec::new(),
            unexpected_anonymous_entries: Vec::new(),
        };
        proof {
            assert(unexpected_report(superfluous@, unexpected_name@) =~= seq![diagnostic@]);
        }
        diagnostics.add(diagnostic);
    } else {
        proof {
            assert(old(diagnostics)@ + unexpected_report(superfluous@, unexpected_name@)
                =~= old(diagnostics)@);
        }
    }
}

/// Whether the entry's name is the text.
fn entry_named(e: &Entry, name: &str) -> (res: bool)
    ensures
        res == named(*e, name),
{
    match &e.name {
        Some(n) => *n == String::from_str(name),
        None => false,
    }
}

/// Reads a repeat from the `count` and `stride` entries of a node.
pub fn parse_repeat_entries(node: &Node, diagnostics: &mut Diagnostics) -> (res: Option<Repeat>)
    ensures
        res == repeat_result(*node).0,
        final(diagnostics)@ == old(diagnostics)@ + repeat_result(*node).1,
{
    let ghost entries = node.entries@;
    let mut count: Option<(i128, Span)> = None;
    let mut stride: Option<i128> = None;
    let mut superfluous: Vec<Span> = Vec::new();
    let mut unexpected_name: Vec<Span> = Vec::new();
    let mut i: usize = 0;
    proof {
        assert(entries.take(0) =~= Seq::<Entry>::empty());
        assert(old(diagnostics)@ + Seq::<DiagnosticV>::empty() =~= old(diagnostics)@);
    }
    while i < node.entries.len()
        invariant
            i <= entries.len(),
            entries == node.entries@,
            count == repeat_scan(entries.take(i as int)).count,
            stride == repeat_scan(entries.take(i as int)).stride,
            superfluous@ == repeat_scan(entries.take(i as int)).superfluous,
            unexpected_name@ == repeat_scan(entries.take(i as int)).unexpected_name,
            diagnostics@ == old(diagnostics)@ + repeat_scan(entries.take(i as int)).reports,
        decreases entries.len() - i,
    {
        let entry = &node.entries[i];
        proof {
            let next = entries.take(i + 1);
            assert(next.drop_last() =~= entries.take(i as int));
            assert(next.last() == entries[i as int]);
        }
        let is_count = entry_named(entry, "count");
        let is_stride = entry_named(entry, "stride");
        if is_count || is_stride {
            match &entry.value {
                Value::Integer(v) => {
                    if is_count {
                        count = Some((*v, entry.span));
                    } else {
                        stride = Some(*v);
                    }
                },
                _ => {
                    diagnostics.add(
                        Diagnostic::UnexpectedType { value_name: entry.span, expected_type: "integer" },
                    );
                    proof {
                        assert(diagnostics@ =~= old(diagnostics)@ + repeat_scan(
                            entries.take(i + 1),
                        ).reports);
                    }
                },
            }
        } else if entry.name.is_some() {
            unexpected_name.push(entry.span);
        } else {
            superfluous.push(entry.span);
        }
        i = i + 1;
    }
    proof {
        assert(entries.take(entries.len() as int) =~= entries);
    }
    let ghost st = repeat_scan(entries);
    let ghost d0 = diagnostics@;
    report_unexpected(superfluous, unexpected_name, diagnostics);
    let ghost d1 = diagnostics@;
    let mut error = false;
    if count.is_none() && stride.is_none() {
        error = true;
        diagnostics.add(
            Diagnostic::MissingEntry { node_name: node.name_span, expected_entries: ExpectedList::CountAndStride },
        );
    } else if count.is_none() {
        error = true;
        diagnostics.add(Diagnostic::MissingEntry { node_name: node.name_span, expected_entries: ExpectedList::Count });
    } else if stride.is_none() {
        error = true;
        diagnostics.add(Diagnostic::MissingEntry { node_name: node.name_span, expected_entries: ExpectedList::Stride });
    }
    proof {
        assert(diagnostics@ =~= d1 + repeat_missing(st, *node));
    }
    let ghost d2 = diagnostics@;
    if let Some((c, span)) = count {
        if !(0 <= c && c <= 0xffff_ffff_ffff_ffff) {
            error = true;
            diagnostics.add(
                Diagnostic::ValueOutOfRange {
                    value: span,
                    context: Some("The count is encoded as a u64"),
                    range: "0..2^64",
                },
            );
        }
    }
    proof {
        assert(diagnostics@ =~= d2 + count_range_report(st));
    }
    let ghost d3 = diagnostics@;
    if let Some(s) = stride {
        if !(-0x8000_0000_0000_0000 <= s && s <= 0x7fff_ffff_ffff_ffff) {
            error = true;
            diagnostics.add(
                Diagnostic::ValueOutOfRange {
                    value: node.name_span,
                    context: Some("The stride is encoded as an i64"),
                    range: "-2^63..2^63",
                },
            );
        }
    }
    proof {
        assert(diagnostics@ =~= d3 + stride_range_report(st, *node));
        assert(diagnostics@ =~= old(diagnostics)@ + repeat_result(*node).1);
    }
    if error {
        None
    } else {
        let (c, _) = count.unwrap();
        Some(Repeat { count: c as u64, stride: stride.unwrap() as i64 })
    }
}

/// The integer entries of a reset value with their places, and the diagnostics of the
/// entries of other types.
pub open spec fn reset_scan(entries: Seq<Entry>) -> (Seq<(i128, Span)>, Seq<DiagnosticV>)
    decreases entries.len(),
{
    if entries.len() == 0 {
        (Seq::empty(), Seq::empty())
    } else {
        let (ints, reports) = reset_scan(entries.drop_last());
        let e = entries.last();
        match e.value {
            Value::Integer(v) => (ints.push((v, e.span)), reports),
            _ => (
                ints,
                reports.push(DiagnosticV::UnexpectedType { value_name: e.span, expected_type: "integer"@ }),
            ),
        }
    }
}

/// The diagnostics of the numbers of an array of reset bytes that are no bytes.
pub open spec fn byte_reports(ints: Seq<(i128, Span)>) -> Seq<DiagnosticV>
    decreases ints.len(),
{
    if ints.len() == 0 {
        Seq::empty()
    } else {
        let (b, span) = ints.last();
        byte_reports(ints.drop_last()) + if 0 <= b <= 255 {
            Seq::empty()
        } else {
            seq![
                DiagnosticV::ValueOutOfRange {
                    value: span,
                    context: Some(
                        "When specifying the reset values as an array, all numbers must be bytes"@,
                    ),
                    range: "0..256"@,
                },
            ]
        }
    }
}

/// The reset value that a node describes: one non-negative integer, or an array of
/// bytes; and the diagnostics.
pub open spec fn reset_result(node: Node) -> (Option<ResetValueView>, Seq<DiagnosticV>) {
    let (ints, reports) = reset_scan(node.entries@);
    if ints.len() < node.entries@.len() {
        (None, reports)
    } else if ints.len() == 1 {
        let (v, span) = ints[0];
        if v < 0 {
            (
                None,
                reports.push(
                    DiagnosticV::ValueOutOfRange {
                        value: span,
                        context: Some("Negative reset values are not allowed"@),
                        range: "0.."@,
                    },
                ),
            )
        } else {
            (Some(ResetValueView::Integer(v as u128)), reports)
        }
    } else if byte_reports(ints).len() > 0 {
        (None, reports + byte_reports(ints))
    } else {
        (Some(ResetValueView::Array(ints.map_values(|p: (i128, Span)| p.0 as u8))), reports)
    }
}

proof fn lemma_reset_scan_len(entries: Seq<Entry>)
    ensures
        reset_scan(entries).0.len() <= entries.len(),
        reset_scan(entries).0.len() == entries.len() <==> reset_scan(entries).1.len() == 0,
    decreases entries.len(),
{
    if entries.len() > 0 {
        lemma_reset_scan_len(entries.drop_last());
    }
}

/// Reads a reset value from the integer entries of a node: a single non-negative
/// integer, or an array of bytes.
pub fn parse_reset_value_entries(node: &Node, diagnostics: &mut Diagnostics) -> (res: Option<ResetValue>)
    ensures
        match res {
            Some(v) => reset_result(*node).0 == Some(v@),
            None => reset_result(*node).0 is None,
        },
        final(diagnostics)@ == old(diagnostics)@ + reset_result(*node).1,
{
    let ghost entries = node.entries@;
    let mut error = false;
    let mut array: Vec<(i128, Span)> = Vec::new();
    let mut i: usize = 0;
    proof {
        assert(entries.take(0) =~= Seq::<Entry>::empty());
        assert(old(diagnostics)@ + Seq::<DiagnosticV>::empty() =~= old(diagnostics)@);
    }
    while i < node.entries.len()
        invariant
            i <= entries.len(),
            entries == node.entries@,
            array@ == reset_scan(entries.take(i as int)).0,
            diagnostics@ == old(diagnostics)@ + reset_scan(entries.take(i as int)).1,
            error == (reset_scan(entries.take(i as int)).1.len() > 0),
        decreases entries.len() - i,
    {
        let entry = &node.entries[i];
        proof {
            let next = entries.take(i + 1);
            assert(next.drop_last() =~= entries.take(i as int));
            assert(next.last() == entries[i as int]);
        }
        match &entry.value {
            Value::Integer(v) => {
                array.push((*v, entry.span));
            },
            _ => {
                error = true;
                diagnostics.add(
                    Diagnostic::UnexpectedType { value_name: entry.span, expected_type: "integer" },
                );
                proof {
                    assert(diagnostics@ =~= old(diagnostics)@ + reset_scan(entries.take(i + 1)).1);
                }
            },
        }
        i = i + 1;
    }
    proof {
        assert(entries.take(entries.len() as int) =~= entries);
        lemma_reset_scan_len(entries);
    }
    if error {
        return None;
    }
    if array.len() == 1 {
        let (integer, span) = array[0];
        if integer < 0 {
            diagnostics.add(
                Diagnostic::ValueOutOfRange {
                    value: span,
                    range: "0..",
                    context: Some("Negative reset values are not allowed"),
                },
            );
            None
        } else {
            Some(ResetValue::Integer(integer as u128))
        }
    } else {
        let ghost ints = array@;
        let ghost d0 = diagnostics@;
        let mut bad = false;
        let mut bytes: Vec<u8> = Vec::new();
        let mut k: usize = 0;
        proof {
            assert(ints.take(0) =~= Seq::<(i128, Span)>::empty());
            assert(d0 + Seq::<DiagnosticV>::empty() =~= d0);
        }
        while k < array.len()
            invariant
                k <= ints.len(),
                ints == array@,
                diagnostics@ == d0 + byte_reports(ints.take(k as int)),
                bad == (byte_reports(ints.take(k as int)).len() > 0),
                !bad ==> bytes@ == ints.take(k as int).map_values(|p: (i128, Span)| p.0 as u8),
            decreases ints.len() - k,
        {
            let (byte, span) = array[k];
            proof {
                let next = ints.take(k + 1);
                assert(next.drop_last() =~= ints.take(k as int));
                assert(next.last() == ints[k as int]);
            }
            if !(0 <= byte && byte <= 255) {
                bad = true;
                diagnostics.add(
                    Diagnostic::ValueOutOfRange {
                        value: span,
                        range: "0..256",
                        context: Some(
                            "When specifying the reset values as an array, all numbers must be bytes",
                        ),
                    },
                );
                proof {
                    assert(diagnostics@ =~= d0 + byte_reports(ints.take(k + 1)));
                }
            } else {
                bytes.push(byte as u8);
                proof {
                    assert(diagnostics@ =~= d0 + byte_reports(ints.take(k + 1)));
                    if !bad {
                        assert(bytes@ =~= ints.take(k + 1).map_values(|p: (i128, Span)| p.0 as u8));
                    }
                }
            }
            k = k + 1;
        }
        proof {
            assert(ints.take(ints.len() as int) =~= ints);
        }
        if bad {
            None
        } else {
            Some(ResetValue::Array(bytes))
        }
    }
}

/// Whether the text starts with `///`.
pub open spec fn is_doc_comment(s: Seq<char>) -> bool {
    s.len() >= 3 && s[0] == '/' && s[1] == '/' && s[2] == '/'
}

/// The text with every `///` at its start removed, as `trim_start_matches("///")` does.
pub open spec fn strip_doc_prefixes(s: Seq<char>) -> Seq<char>
    decreases s.len(),
{
    if is_doc_comment(s) {
        strip_doc_prefixes(s.skip(3))
    } else {
        s
    }
}

/// The number of white space characters at the end of the text.
pub open spec fn trailing_space_len(s: Seq<char>) -> nat
    decreases s.len(),
{
    if s.len() > 0 && white_space(s.last()) {
        1 + trailing_space_len(s.drop_last())
    } else {
        0
    }
}

/// The text without white space at its start and its end, as `str::trim` gives it.
pub open spec fn trimmed(s: Seq<char>) -> Seq<char> {
    let t = trimmed_start(s);
    t.take(t.len() - trailing_space_len(t))
}

/// The description lines among the lines: the `///` comments, each without its `///`
/// marks and the white space around it.
pub open spec fn doc_comment_lines(lines: Seq<Seq<char>>) -> Seq<Seq<char>>
    decreases lines.len(),
{
    if lines.len() == 0 {
        Seq::empty()
    } else {
        doc_comment_lines(lines.drop_last()) + if is_doc_comment(lines.last()) {
            seq![trimmed(strip_doc_prefixes(lines.last()))]
        } else {
            Seq::empty()
        }
    }
}

/// The description of a node: the `///` comments before it, one per line.
pub open spec fn node_description(node: Node) -> Seq<char> {
    match node.leading {
        Some(l) => joined_lines(doc_comment_lines(text_lines(l@))),
        None => Seq::empty(),
    }
}

proof fn lemma_trailing_space_len(s: Seq<char>, m: int)
    requires
        0 <= m <= s.len(),
        forall|j: int| s.len() - m <= j < s.len() ==> white_space(#[trigger] s[j]),
        m == s.len() || !white_space(s[s.len() - m - 1]),
    ensures
        trailing_space_len(s) == m,
    decreases m,
{
    if m > 0 {
        let rest = s.drop_last();
        assert forall|j: int| rest.len() - (m - 1) <= j < rest.len() implies white_space(#[trigger] rest[j]) by {
            assert(rest[j] == s[j]);
        }
        if m < s.len() {
            assert(rest[rest.len() - (m - 1) - 1] == s[s.len() - m - 1]);
        }
        lemma_trailing_space_len(rest, m - 1);
    }
}

/// Where the `///` marks at the start of the line end.
fn doc_prefix_end(line: &str) -> (k: usize)
    ensures
        k <= line@.len(),
        strip_doc_prefixes(line@) == line@.skip(k as int),
{
    let ghost l = line@;
    let n = line.unicode_len();
    let mut k: usize = 0;
    proof {
        assert(l.skip(0) =~= l);
    }
    while n - k >= 3 && line.get_char(k) == '/' && line.get_char(k + 1) == '/' && line.get_char(k + 2)
        == '/'
        invariant
            n == l.len(),
            l == line@,
            k <= n,
            strip_doc_prefixes(l) == strip_doc_prefixes(l.skip(k as int)),
        decreases n - k,
    {
        proof {
            let r = l.skip(k as int);
            assert(r[0] == l[k as int] && r[1] == l[k + 1] && r[2] == l[k + 2]);
            assert(is_doc_comment(r));
            assert(r.skip(3) =~= l.skip(k + 3));
        }
        k = k + 3;
    }
    proof {
        let r = l.skip(k as int);
        if r.len() >= 3 {
            assert(r[0] == l[k as int] && r[1] == l[k + 1] && r[2] == l[k + 2]);
        }
        assert(!is_doc_comment(r));
    }
    k
}

/// Where the white space that starts at `from` ends.
fn leading_space_end(line: &str, from: usize) -> (j: usize)
    requires
        from <= line@.len(),
    ensures
        from <= j <= line@.len(),
        trimmed_start(line@.skip(from as int)) == line@.subrange(j as int, line@.len() as int),
{
    let ghost l = line@;
    let n = line.unicode_len();
    let mut j: usize = from;
    while j < n && is_white_space(line.get_char(j))
        invariant
            n == l.len(),
            l == line@,
            from <= j <= n,
            forall|q: int| from <= q < j ==> white_space(#[trigger] l[q]),
        decreases n - j,
    {
        j = j + 1;
    }
    proof {
        let s1 = l.skip(from as int);
        assert forall|q: int| 0 <= q < j - from implies white_space(#[trigger] s1[q]) by {
            assert(s1[q] == l[from + q]);
        }
        if j < n {
            assert(s1[j - from] == l[j as int]);
        }
        lemma_leading_space_len(s1, j - from);
        assert(trimmed_start(s1) =~= l.subrange(j as int, n as int));
    }
    j
}

/// Where the white space at the end of the line, after `from`, starts.
fn trailing_space_start(line: &str, from: usize) -> (e: usize)
    requires
        from <= line@.len(),
    ensures
        from <= e <= line@.len(),
        ({
            let t = line@.subrange(from as int, line@.len() as int);
            t.take(t.len() - trailing_space_len(t)) == line@.subrange(from as int, e as int)
        }),
{
    let ghost l = line@;
    let n = line.unicode_len();
    let ghost t = l.subrange(from as int, n as int);
    let mut e: usize = n;
    while e > from && is_white_space(line.get_char(e - 1))
        invariant
            n == l.len(),
            l == line@,
            from <= e <= n,
            forall|q: int| e <= q < n ==> white_space(#[trigger] l[q]),
        decreases e - from,
    {
        e = e - 1;
    }
    proof {
        let m = n - e;
        assert forall|q: int| t.len() - m <= q < t.len() implies white_space(#[trigger] t[q]) by {
            assert(t[q] == l[from + q]);
        }
        if m < t.len() {
            assert(t[t.len() - m - 1] == l[e - 1]);
        }
        lemma_trailing_space_len(t, m as int);
        assert(t.take(t.len() - m) =~= l.subrange(from as int, e as int));
    }
    e
}

/// The text of one `///` comment line: without the `///` marks at its start and the
/// white space around it.
fn doc_line_text(line: &str) -> (res: String)
    ensures
        res@ == trimmed(strip_doc_prefixes(line@)),
{
    let k = doc_prefix_end(line);
    let j = leading_space_end(line, k);
    let e = trailing_space_start(line, j);
    proof {
        let l = line@;
        assert(l.skip(j as int) =~= l.subrange(j as int, l.len() as int));
    }
    String::from_str(line.substring_char(j, e))
}

/// The description of a node: the `///` comments before it, each without its marks and
/// the white space around it, joined by line breaks.
pub fn parse_description(node: &Node) -> (res: String)
    ensures
        res@ == node_description(*node),
{
    match &node.leading {
        Some(leading) => {
            let lines = split_lines(leading.as_str());
            let ghost all = texts_view(lines@);
            let mut res = String::new();
            let mut any = false;
            let mut i: usize = 0;
            proof {
                assert(all.take(0) =~= Seq::<Seq<char>>::empty());
            }
            while i < lines.len()
                invariant
                    i <= lines@.len(),
                    all == texts_view(lines@),
                    all.len() == lines@.len(),
                    res@ == joined_lines(doc_comment_lines(all.take(i as int))),
                    any == (doc_comment_lines(all.take(i as int)).len() > 0),
                decreases lines@.len() - i,
            {
                let line = lines[i].as_str();
                proof {
                    let next = all.take(i + 1);
                    assert(next.drop_last() =~= all.take(i as int));
                    assert(next.last() == all[i as int]);
                    assert(all[i as int] == line@);
                }
                let n = line.unicode_len();
                if n >= 3 && line.get_char(0) == '/' && line.get_char(1) == '/' && line.get_char(2)
                    == '/' {
                    let text = doc_line_text(line);
                    let ghost before = doc_comment_lines(all.take(i as int));
                    if any {
                        res.append("\n");
                    }
                    res.append(text.as_str());
                    any = true;
                    proof {
                        let after = doc_comment_lines(all.take(i + 1));
                        assert(after =~= before.push(text@));
                        assert(after.drop_last() =~= before);
                        if before.len() == 0 {
                            assert(res@ =~= joined_lines(after));
                        } else {
                            assert(res@ =~= joined_lines(after));
                        }
                    }
                } else {
                    proof {
                        assert(doc_comment_lines(all.take(i + 1)) =~= doc_comment_lines(
                            all.take(i as int),
                        ));
                    }
                }
                i = i + 1;
            }
            proof {
                assert(all.take(all.len() as int) =~= all);
            }
            res
        },
        None => String::new(),
    }
}

/// What reading the entries of a field set has found so far: the entry that gives
/// each setting, the unexpected entries and the diagnostics.
pub ghost struct FieldSetScan {
    pub size_bits: Option<Entry>,
    pub byte_order: Option<Entry>,
    pub bit_order: Option<Entry>,
    pub allow_bit_overlap: Option<Entry>,
    pub unexpected_name: Seq<Span>,
    pub unexpected_anonymous: Seq<Span>,
    pub reports: Seq<DiagnosticV>,
}

/// Whether the entry is the anonymous string `allow-bit-overlap`.
pub open spec fn is_overlap_flag(e: Entry) -> bool {
    e.name is None && (e.value matches Value::String(v) && v@ == "allow-bit-overlap"@)
}

/// Taking the entry for a setting: the first entry gives it, and a later one is a
/// duplicate.
pub open spec fn take_setting(slot: Option<Entry>, e: Entry, reports: Seq<DiagnosticV>) -> (
    Option<Entry>,
    Seq<DiagnosticV>,
) {
    match slot {
        Some(original) => (
            slot,
            reports.push(DiagnosticV::DuplicateEntry { duplicate: e.span, original: original.span }),
        ),
        None => (Some(e), reports),
    }
}

/// Reading one more entry of a field set.
pub open spec fn field_set_step(st: FieldSetScan, e: Entry) -> FieldSetScan {
    if named(e, "size-bits") {
        let (slot, reports) = take_setting(st.size_bits, e, st.reports);
        FieldSetScan { size_bits: slot, reports, ..st }
    } else if named(e, "byte-order") {
        let (slot, reports) = take_setting(st.byte_order, e, st.reports);
        FieldSetScan { byte_order: slot, reports, ..st }
    } else if named(e, "bit-order") {
        let (slot, reports) = take_setting(st.bit_order, e, st.reports);
        FieldSetScan { bit_order: slot, reports, ..st }
    } else if named(e, "allow-bit-overlap") || is_overlap_flag(e) {
        let (slot, reports) = take_setting(st.allow_bit_overlap, e, st.reports);
        FieldSetScan { allow_bit_overlap: slot, reports, ..st }
    } else if e.name is Some {
        FieldSetScan { unexpected_name: st.unexpected_name.push(e.span), ..st }
    } else {
        FieldSetScan { unexpected_anonymous: st.unexpected_anonymous.push(e.span), ..st }
    }
}

/// What reading the entries of a field set finds.
pub open spec fn field_set_scan(entries: Seq<Entry>) -> FieldSetScan
    decreases entries.len(),
{
    if entries.len() == 0 {
        FieldSetScan {
            size_bits: None,
            byte_order: None,
            bit_order: None,
            allow_bit_overlap: None,
            unexpected_name: Seq::empty(),
            unexpected_anonymous: Seq::empty(),
            reports: Seq::empty(),
        }
    } else {
        field_set_step(field_set_scan(entries.drop_last()), entries.last())
    }
}

/// The diagnostic of the unexpected entries of a field set, if it has any.
pub open spec fn field_set_unexpected(st: FieldSetScan) -> Seq<DiagnosticV> {
    if st.unexpected_name.len() == 0 && st.unexpected_anonymous.len() == 0 {
        Seq::empty()
    } else {
        seq![
            DiagnosticV::UnexpectedEntries {
                superfluous_entries: Seq::empty(),
                unexpected_name_entries: st.unexpected_name,
                not_anonymous_entries: Seq::empty(),
                unexpected_anonymous_entries: st.unexpected_anonymous,
            },
        ]
    }
}

/// Whether the integer fits in a `u32`.
pub open spec fn fits_u32(v: i128) -> bool {
    0 <= v <= u32::MAX
}

/// The size of a field set in bits, from its `size-bits` entry, or 0.
pub open spec fn field_set_size_bits(st: FieldSetScan) -> u32 {
    match st.size_bits {
        Some(e) => match e.value {
            Value::Integer(v) => if fits_u32(v) {
                v as u32
            } else {
                0
            },
            _ => 0,
        },
        None => 0,
    }
}

/// The diagnostic of a missing or wrong `size-bits` entry.
pub open spec fn size_bits_report(st: FieldSetScan, node: Node) -> Seq<DiagnosticV> {
    match st.size_bits {
        Some(e) => match e.value {
            Value::Integer(v) => if fits_u32(v) {
                Seq::empty()
            } else {
                seq![
                    DiagnosticV::ValueOutOfRange {
                        value: e.span,
                        context: Some("size-bits is encoded as a u32"@),
                        range: "0..2^32"@,
                    },
                ]
            },
            _ => seq![DiagnosticV::UnexpectedType { value_name: e.span, expected_type: "integer"@ }],
        },
        None => seq![DiagnosticV::MissingEntry { node_name: node.name_span, expected_entries: ExpectedList::SizeBits }],
    }
}

/// The byte order that a string names, if it names one.
pub open spec fn byte_order_named(s: Seq<char>) -> Option<ByteOrder> {
    if s == "LE"@ {
        Some(ByteOrder::LE)
    } else if s == "BE"@ {
        Some(ByteOrder::BE)
    } else {
        None
    }
}

/// The bit order that a string names, if it names one.
pub open spec fn bit_order_named(s: Seq<char>) -> Option<BitOrder> {
    if s == "LSB0"@ {
        Some(BitOrder::LSB0)
    } else if s == "MSB0"@ {
        Some(BitOrder::MSB0)
    } else {
        None
    }
}

/// The byte order of a field set, from its `byte-order` entry.
pub open spec fn field_set_byte_order(st: FieldSetScan) -> Option<ByteOrder> {
    match st.byte_order {
        Some(e) => match e.value {
            Value::String(s) => byte_order_named(s@),
            _ => None,
        },
        None => None,
    }
}

/// The diagnostic of a wrong `byte-order` entry. A name that is no byte order is
/// reported with the names of the bit orders as the expected ones.
pub open spec fn byte_order_report(st: FieldSetScan) -> Seq<DiagnosticV> {
    match st.byte_order {
        Some(e) => match e.value {
            Value::String(s) => if byte_order_named(s@) is Some {
                Seq::empty()
            } else {
                seq![DiagnosticV::UnexpectedValue { value_name: e.span, expected_values: ExpectedList::BitOrderNames }]
            },
            _ => seq![DiagnosticV::UnexpectedType { value_name: e.span, expected_type: "string"@ }],
        },
        None => Seq::empty(),
    }
}

/// The bit order of a field set, from its `bit-order` entry.
pub open spec fn field_set_bit_order(st: FieldSetScan) -> Option<BitOrder> {
    match st.bit_order {
        Some(e) => match e.value {
            Value::String(s) => bit_order_named(s@),
            _ => None,
        },
        None => None,
    }
}

/// The diagnostic of a wrong `bit-order` entry. A name that is no bit order is
/// reported with the names of the byte orders as the expected ones.
pub open spec fn bit_order_report(st: FieldSetScan) -> Seq<DiagnosticV> {
    match st.bit_order {
        Some(e) => match e.value {
            Value::String(s) => if bit_order_named(s@) is Some {
                Seq::empty()
            } else {
                seq![DiagnosticV::UnexpectedValue { value_name: e.span, expected_values: ExpectedList::ByteOrderNames }]
            },
            _ => seq![DiagnosticV::UnexpectedType { value_name: e.span, expected_type: "string"@ }],
        },
        None => Seq::empty(),
    }
}

/// Whether the fields of a field set may overlap, from its `allow-bit-overlap` entry: a
/// boolean, or the flag itself.
pub open spec fn field_set_allow_overlap(st: FieldSetScan) -> bool {
    match st.allow_bit_overlap {
        Some(e) => match e.value {
            Value::Bool(b) => b,
            Value::String(s) => s@ == "allow-bit-overlap"@,
            _ => false,
        },
        None => false,
    }
}

/// The diagnostic of a wrong `allow-bit-overlap` entry.
pub open spec fn allow_overlap_report(st: FieldSetScan) -> Seq<DiagnosticV> {
    match st.allow_bit_overlap {
        Some(e) => match e.value {
            Value::Bool(_) => Seq::empty(),
            Value::String(s) => if s@ == "allow-bit-overlap"@ {
                Seq::empty()
            } else {
                seq![DiagnosticV::UnexpectedType { value_name: e.span, expected_type: "bool"@ }]
            },
            _ => seq![DiagnosticV::UnexpectedType { value_name: e.span, expected_type: "bool"@ }],
        },
        None => Seq::empty(),
    }
}

/// The diagnostics of reading a field set node.
pub open spec fn field_set_reports(node: Node) -> Seq<DiagnosticV> {
    let st = field_set_scan(node.entries@);
    st.reports + field_set_unexpected(st) + size_bits_report(st, node) + byte_order_report(st)
        + bit_order_report(st) + allow_overlap_report(st)
}

/// Whether the node has no child nodes.
pub open spec fn no_children(node: Node) -> bool {
    match node.children {
        Some(c) => c@.len() == 0,
        None => true,
    }
}

/// The entry at the position, if there is a position.
pub open spec fn entry_at(entries: Seq<Entry>, k: Option<usize>) -> Option<Entry> {
    match k {
        Some(i) => Some(entries[i as int]),
        None => None,
    }
}

/// Takes the entry at position `i` for a setting, or reports it as a duplicate.
fn take_setting_at(
    slot: &mut Option<usize>,
    entries: &Vec<Entry>,
    i: usize,
    diagnostics: &mut Diagnostics,
)
    requires
        i < entries@.len(),
        *old(slot) matches Some(k) ==> k < entries@.len(),
    ensures
        *final(slot) matches Some(k) ==> k < entries@.len(),
        entry_at(entries@, *final(slot)) == take_setting(
            entry_at(entries@, *old(slot)),
            entries@[i as int],
            old(diagnostics)@,
        ).0,
        final(diagnostics)@ == take_setting(
            entry_at(entries@, *old(slot)),
            entries@[i as int],
            old(diagnostics)@,
        ).1,
{
    match *slot {
        Some(k) => {
            diagnostics.add(
                Diagnostic::DuplicateEntry { duplicate: entries[i].span, original: entries[k].span },
            );
        },
        None => {
            *slot = Some(i);
        },
    }
}

/// The positions of the entries that give the settings of a field set, and the
/// places of its unexpected entries.
pub struct FieldSetEntries {
    pub size_bits: Option<usize>,
    pub byte_order: Option<usize>,
    pub bit_order: Option<usize>,
    pub allow_bit_overlap: Option<usize>,
    pub unexpected_name: Vec<Span>,
    pub unexpected_anonymous: Vec<Span>,
}

/// Whether the positions point into the entries and agree with the scan of them.
pub open spec fn entries_agree(fe: FieldSetEntries, entries: Seq<Entry>, st: FieldSetScan) -> bool {
    &&& fe.size_bits matches Some(k) ==> k < entries.len()
    &&& fe.byte_order matches Some(k) ==> k < entries.len()
    &&& fe.bit_order matches Some(k) ==> k < entries.len()
    &&& fe.allow_bit_overlap matches Some(k) ==> k < entries.len()
    &&& entry_at(entries, fe.size_bits) == st.size_bits
    &&& entry_at(entries, fe.byte_order) == st.byte_order
    &&& entry_at(entries, fe.bit_order) == st.bit_order
    &&& entry_at(entries, fe.allow_bit_overlap) == st.allow_bit_overlap
    &&& fe.unexpected_name@ == st.unexpected_name
    &&& fe.unexpected_anonymous@ == st.unexpected_anonymous
}

/// Reads the entries of a field set node: which entry gives each setting, and which
/// are unexpected; duplicates are reported.
fn scan_field_set_entries(node: &Node, diagnostics: &mut Diagnostics) -> (res: FieldSetEntries)
    ensures
        entries_agree(res, node.entries@, field_set_scan(node.entries@)),
        final(diagnostics)@ == old(diagnostics)@ + field_set_scan(node.entries@).reports,
{
    let ghost entries = node.entries@;
    let mut fe = FieldSetEntries {
        size_bits: None,
        byte_order: None,
        bit_order: None,
        allow_bit_overlap: None,
        unexpected_name: Vec::new(),
        unexpected_anonymous: Vec::new(),
    };
    let mut i: usize = 0;
    proof {
        assert(entries.take(0) =~= Seq::<Entry>::empty());
        assert(old(diagnostics)@ + Seq::<DiagnosticV>::empty() =~= old(diagnostics)@);
    }
    while i < node.entries.len()
        invariant
            i <= entries.len(),
            entries == node.entries@,
            entries_agree(fe, entries, field_set_scan(entries.take(i as int))),
            diagnostics@ == old(diagnostics)@ + field_set_scan(entries.take(i as int)).reports,
        decreases entries.len() - i,
    {
        let entry = &node.entries[i];
        proof {
            let next = entries.take(i + 1);
            assert(next.drop_last() =~= entries.take(i as int));
            assert(next.last() == entries[i as int]);
        }
        let is_overlap_flag = entry.name.is_none() && match &entry.value {
            Value::String(v) => *v == String::from_str("allow-bit-overlap"),
            _ => false,
        };
        if entry_named(entry, "size-bits") {
            take_setting_at(&mut fe.size_bits, &node.entries, i, diagnostics);
        } else if entry_named(entry, "byte-order") {
            take_setting_at(&mut fe.byte_order, &node.entries, i, diagnostics);
        } else if entry_named(entry, "bit-order") {
            take_setting_at(&mut fe.bit_order, &node.entries, i, diagnostics);
        } else if entry_named(entry, "allow-bit-overlap") || is_overlap_flag {
            take_setting_at(&mut fe.allow_bit_overlap, &node.entries, i, diagnostics);
        } else if entry.name.is_some() {
            fe.unexpected_name.push(entry.span);
        } else {
            fe.unexpected_anonymous.push(entry.span);
        }
        proof {
            assert(diagnostics@ =~= old(diagnostics)@ + field_set_scan(entries.take(i + 1)).reports);
        }
        i = i + 1;
    }
    proof {
        assert(entries.take(entries.len() as int) =~= entries);
    }
    fe
}

/// Reads the size of a field set from the entry that gives it, if any.
fn read_size_bits(node: &Node, k: Option<usize>, diagnostics: &mut Diagnostics) -> (res: u32)
    requires
        k matches Some(i) ==> i < node.entries@.len(),
    ensures
        ({
            let st = FieldSetScan { size_bits: entry_at(node.entries@, k), ..field_set_scan(node.entries@) };
            &&& res == field_set_size_bits(st)
            &&& final(diagnostics)@ == old(diagnostics)@ + size_bits_report(st, *node)
        }),
{
    match k {
        Some(k) => {
            let entry = &node.entries[k];
            match &entry.value {
                Value::Integer(sb) => {
                    if 0 <= *sb && *sb <= 0xffff_ffff {
                        proof {
                            assert(old(diagnostics)@ + Seq::<DiagnosticV>::empty() =~= old(diagnostics)@);
                        }
                        *sb as u32
                    } else {
                        diagnostics.add(
                            Diagnostic::ValueOutOfRange {
                                value: entry.span,
                                context: Some("size-bits is encoded as a u32"),
                                range: "0..2^32",
                            },
                        );
                        0
                    }
                },
                _ => {
                    diagnostics.add(
                        Diagnostic::UnexpectedType { value_name: entry.span, expected_type: "integer" },
                    );
                    0
                },
            }
        },
        None => {
            diagnostics.add(
                Diagnostic::MissingEntry { node_name: node.name_span, expected_entries: ExpectedList::SizeBits },
            );
            0
        },
    }
}

/// Reads the byte order of a field set from the entry that gives it, if any.
fn read_byte_order(node: &Node, k: Option<usize>, diagnostics: &mut Diagnostics) -> (res: Option<ByteOrder>)
    requires
        k matches Some(i) ==> i < node.entries@.len(),
    ensures
        ({
            let st = FieldSetScan { byte_order: entry_at(node.entries@, k), ..field_set_scan(node.entries@) };
            &&& res == field_set_byte_order(st)
            &&& final(diagnostics)@ == old(diagnostics)@ + byte_order_report(st)
        }),
{
    proof {
        assert(old(diagnostics)@ + Seq::<DiagnosticV>::empty() =~= old(diagnostics)@);
    }
    match k {
        Some(k) => {
            let entry = &node.entries[k];
            match &entry.value {
                Value::String(s) => {
                    if *s == String::from_str("LE") {
                        Some(ByteOrder::LE)
                    } else if *s == String::from_str("BE") {
                        Some(ByteOrder::BE)
                    } else {
                        diagnostics.add(
                            Diagnostic::UnexpectedValue {
                                value_name: entry.span,
                                expected_values: ExpectedList::BitOrderNames,
                            },
                        );
                        None
                    }
                },
                _ => {
                    diagnostics.add(
                        Diagnostic::UnexpectedType { value_name: entry.span, expected_type: "string" },
                    );
                    None
                },
            }
        },
        None => None,
    }
}

/// Reads the bit order of a field set from the entry that gives it, if any.
fn read_bit_order(node: &Node, k: Option<usize>, diagnostics: &mut Diagnostics) -> (res: Option<BitOrder>)
    requires
        k matches Some(i) ==> i < node.entries@.len(),
    ensures
        ({
            let st = FieldSetScan { bit_order: entry_at(node.entries@, k), ..field_set_scan(node.entries@) };
            &&& res == field_set_bit_order(st)
            &&& final(diagnostics)@ == old(diagnostics)@ + bit_order_report(st)
        }),
{
    proof {
        assert(old(diagnostics)@ + Seq::<DiagnosticV>::empty() =~= old(diagnostics)@);
    }
    match k {
        Some(k) => {
            let entry = &node.entries[k];
            match &entry.value {
                Value::String(s) => {
                    if *s == String::from_str("LSB0") {
                        Some(BitOrder::LSB0)
                    } else if *s == String::from_str("MSB0") {
                        Some(BitOrder::MSB0)
                    } else {
                        diagnostics.add(
                            Diagnostic::UnexpectedValue {
                                value_name: entry.span,
                                expected_values: ExpectedList::ByteOrderNames,
                            },
                        );
                        None
                    }
                },
                _ => {
                    diagnostics.add(
                        Diagnostic::UnexpectedType { value_name: entry.span, expected_type: "string" },
                    );
                    None
                },
            }
        },
        None => None,
    }
}

/// Reads whether the fields of a field set may overlap from the entry that says so, if any.
fn read_allow_overlap(node: &Node, k: Option<usize>, diagnostics: &mut Diagnostics) -> (res: bool)
    requires
        k matches Some(i) ==> i < node.entries@.len(),
    ensures
        ({
            let st = FieldSetScan {
                allow_bit_overlap: entry_at(node.entries@, k),
                ..field_set_scan(node.entries@)
            };
            &&& res == field_set_allow_overlap(st)
            &&& final(diagnostics)@ == old(diagnostics)@ + allow_overlap_report(st)
        }),
{
    proof {
        assert(old(diagnostics)@ + Seq::<DiagnosticV>::empty() =~= old(diagnostics)@);
    }
    match k {
        Some(k) => {
            let entry = &node.entries[k];
            match &entry.value {
                Value::Bool(b) => *b,
                Value::String(s) => {
                    if *s == String::from_str("allow-bit-overlap") {
                        true
                    } else {
                        diagnostics.add(
                            Diagnostic::UnexpectedType { value_name: entry.span, expected_type: "bool" },
                        );
                        false
                    }
                },
                _ => {
                    diagnostics.add(
                        Diagnostic::UnexpectedType { value_name: entry.span, expected_type: "bool" },
                    );
                    false
                },
            }
        },
        None => false,
    }
}

/// Reads a field set from the entries of its node: its size, its byte and bit order and
/// whether its fields may overlap. A field set node with child nodes, which would be its
/// fields, is not read here.
pub fn transform_field_set(node: &Node, diagnostics: &mut Diagnostics) -> (res: Option<FieldSet>)
    requires
        no_children(*node),
    ensures
        res matches Some(fs) && {
            let st = field_set_scan(node.entries@);
            &&& fs.size_bits == field_set_size_bits(st)
            &&& fs.byte_order == field_set_byte_order(st)
            &&& fs.bit_order == field_set_bit_order(st)
            &&& fs.allow_bit_overlap == field_set_allow_overlap(st)
            &&& fs.description@ == Seq::<char>::empty()
            &&& fs.fields@.len() == 0
        },
        final(diagnostics)@ == old(diagnostics)@ + field_set_reports(*node),
{
    let ghost st = field_set_scan(node.entries@);
    let fe = scan_field_set_entries(node, diagnostics);
    let ghost d0 = diagnostics@;
    let size_bits = fe.size_bits;
    let byte_order = fe.byte_order;
    let bit_order = fe.bit_order;
    let allow_bit_overlap = fe.allow_bit_overlap;
    report_unexpected_fields(fe.unexpected_name, fe.unexpected_anonymous, diagnostics);
    proof {
        assert(FieldSetScan { size_bits: entry_at(node.entries@, size_bits), ..st } == st);
        assert(FieldSetScan { byte_order: entry_at(node.entries@, byte_order), ..st } == st);
        assert(FieldSetScan { bit_order: entry_at(node.entries@, bit_order), ..st } == st);
        assert(FieldSetScan { allow_bit_overlap: entry_at(node.entries@, allow_bit_overlap), ..st } == st);
    }
    let size = read_size_bits(node, size_bits, diagnostics);
    let bo = read_byte_order(node, byte_order, diagnostics);
    let bi = read_bit_order(node, bit_order, diagnostics);
    let allow = read_allow_overlap(node, allow_bit_overlap, diagnostics);
    proof {
        assert(diagnostics@ =~= old(diagnostics)@ + field_set_reports(*node));
    }
    Some(
        FieldSet {
            description: String::new(),
            size_bits: size,
            byte_order: bo,
            bit_order: bi,
            allow_bit_overlap: allow,
            fields: Vec::new(),
        },
    )
}

/// Adds the diagnostic of the unexpected entries of a field set when there are any.
fn report_unexpected_fields(
    unexpected_name: Vec<Span>,
    unexpected_anonymous: Vec<Span>,
    diagnostics: &mut Diagnostics,
)
    ensures
        final(diagnostics)@ == old(diagnostics)@ + field_set_unexpected(
            FieldSetScan {
                size_bits: None,
                byte_order: None,
                bit_order: None,
                allow_bit_overlap: None,
                unexpected_name: unexpected_name@,
                unexpected_anonymous: unexpected_anonymous@,
                reports: Seq::empty(),
            },
        ),
{
    if unexpected_name.len() != 0 || unexpected_anonymous.len() != 0 {
        let diagnostic = Diagnostic::UnexpectedEntries {
            superfluous_entries: Vec::new(),
            unexpected_name_entries: unexpected_name,
            not_anonymous_entries: Vec::new(),
            unexpected_anonymous_entries: unexpected_anonymous,
        };
        proof {
            assert(seq![diagnostic@] =~= field_set_unexpected(
                FieldSetScan {
                    size_bits: None,
                    byte_order: None,
                    bit_order: None,
                    allow_bit_overlap: None,
                    unexpected_name: unexpected_name@,
                    unexpected_anonymous: unexpected_anonymous@,
                    reports: Seq::empty(),
                },
            ));
        }
        diagnostics.add(diagnostic);
    } else {
        proof {
            assert(old(diagnostics)@ + Seq::<DiagnosticV>::empty() =~= old(diagnostics)@);
        }
    }
}

/// The settings of a device that a node may give.
#[derive(Debug, Clone, Copy, PartialEq, Eq, Structural)]
pub enum GlobalConfigType {
    DefaultRegisterAccess,
    DefaultFieldAccess,
    DefaultBufferAccess,
    DefaultByteOrder,
    DefaultBitOrder,
    RegisterAddressType,
    CommandAddressType,
    BufferAddressType,
    NameWordBoundaries,
    DefmtFeature,
}

/// The setting that a node name gives, if it names one.
pub open spec fn global_config_type_named(s: Seq<char>) -> Option<GlobalConfigType> {
    if s == "default-register-access"@ {
        Some(GlobalConfigType::DefaultRegisterAccess)
    } else if s == "default-field-access"@ {
        Some(GlobalConfigType::DefaultFieldAccess)
    } else if s == "default-buffer-access"@ {
        Some(GlobalConfigType::DefaultBufferAccess)
    } else if s == "default-byte-order"@ {
        Some(GlobalConfigType::DefaultByteOrder)
    } else if s == "default-bit-order"@ {
        Some(GlobalConfigType::DefaultBitOrder)
    } else if s == "register-address-type"@ {
        Some(GlobalConfigType::RegisterAddressType)
    } else if s == "command-address-type"@ {
        Some(GlobalConfigType::CommandAddressType)
    } else if s == "buffer-address-type"@ {
        Some(GlobalConfigType::BufferAddressType)
    } else if s == "name-word-boundaries"@ {
        Some(GlobalConfigType::NameWordBoundaries)
    } else if s == "defmt-feature"@ {
        Some(GlobalConfigType::DefmtFeature)
    } else {
        None
    }
}

impl GlobalConfigType {
    /// The setting that a node name gives, if it names one.
    pub fn from_name(s: &String) -> (res: Option<GlobalConfigType>)
        ensures
            res == global_config_type_named(s@),
    {
        if *s == String::from_str("default-register-access") {
            Some(GlobalConfigType::DefaultRegisterAccess)
        } else if *s == String::from_str("default-field-access") {
            Some(GlobalConfigType::DefaultFieldAccess)
        } else if *s == String::from_str("default-buffer-access") {
            Some(GlobalConfigType::DefaultBufferAccess)
        } else if *s == String::from_str("default-byte-order") {
            Some(GlobalConfigType::DefaultByteOrder)
        } else if *s == String::from_str("default-bit-order") {
            Some(GlobalConfigType::DefaultBitOrder)
        } else if *s == String::from_str("register-address-type") {
            Some(GlobalConfigType::RegisterAddressType)
        } else if *s == String::from_str("command-address-type") {
            Some(GlobalConfigType::CommandAddressType)
        } else if *s == String::from_str("buffer-address-type") {
            Some(GlobalConfigType::BufferAddressType)
        } else if *s == String::from_str("name-word-boundaries") {
            Some(GlobalConfigType::NameWordBoundaries)
        } else if *s == String::from_str("defmt-feature") {
            Some(GlobalConfigType::DefmtFeature)
        } else {
            None
        }
    }
}

/// The settings of a device as a mathematical value.
pub ghost struct GlobalConfigV {
    pub default_register_access: Access,
    pub default_field_access: Access,
    pub default_buffer_access: Access,
    pub default_byte_order: Option<ByteOrder>,
    pub default_bit_order: BitOrder,
    pub register_address_type: Option<Integer>,
    pub command_address_type: Option<Integer>,
    pub buffer_address_type: Option<Integer>,
    pub name_word_boundaries: Seq<WordBoundary>,
    pub defmt_feature: Option<Seq<char>>,
}

/// The settings as a mathematical value.
pub open spec fn config_view(gc: GlobalConfig) -> GlobalConfigV {
    GlobalConfigV {
        default_register_access: gc.default_register_access,
        default_field_access: gc.default_field_access,
        default_buffer_access: gc.default_buffer_access,
        default_byte_order: gc.default_byte_order,
        default_bit_order: gc.default_bit_order,
        register_address_type: gc.register_address_type,
        command_address_type: gc.command_address_type,
        buffer_address_type: gc.buffer_address_type,
        name_word_boundaries: gc.name_word_boundaries@,
        defmt_feature: text_view(gc.defmt_feature),
    }
}

/// The word boundaries among the boundaries that `convert_case` found.
pub open spec fn present_boundaries(s: Seq<Option<WordBoundary>>) -> Seq<WordBoundary>
    decreases s.len(),
{
    if s.len() == 0 {
        Seq::empty()
    } else {
        present_boundaries(s.drop_last()) + match s.last() {
            Some(b) => seq![b],
            None => Seq::empty(),
        }
    }
}

/// The settings after a node of the given type: the value it names, where it names one.
pub open spec fn config_after(gc: GlobalConfigV, node: Node, t: GlobalConfigType) -> GlobalConfigV {
    match t {
        GlobalConfigType::DefaultRegisterAccess => match named_value(node, ExpectedList::AccessNames, |k: int| access_at(k)) {
            Some(v) => GlobalConfigV { default_register_access: v, ..gc },
            None => gc,
        },
        GlobalConfigType::DefaultFieldAccess => match named_value(node, ExpectedList::AccessNames, |k: int| access_at(k)) {
            Some(v) => GlobalConfigV { default_field_access: v, ..gc },
            None => gc,
        },
        GlobalConfigType::DefaultBufferAccess => match named_value(node, ExpectedList::AccessNames, |k: int| access_at(k)) {
            Some(v) => GlobalConfigV { default_buffer_access: v, ..gc },
            None => gc,
        },
        GlobalConfigType::DefaultByteOrder => match named_value(node, ExpectedList::ByteOrderNames, |k: int| byte_order_at(k)) {
            Some(v) => GlobalConfigV { default_byte_order: Some(v), ..gc },
            None => gc,
        },
        GlobalConfigType::DefaultBitOrder => match named_value(node, ExpectedList::BitOrderNames, |k: int| bit_order_at(k)) {
            Some(v) => GlobalConfigV { default_bit_order: v, ..gc },
            None => gc,
        },
        GlobalConfigType::RegisterAddressType => match named_value(node, ExpectedList::IntegerNames, |k: int| integer_at(k)) {
            Some(v) => GlobalConfigV { register_address_type: Some(v), ..gc },
            None => gc,
        },
        GlobalConfigType::CommandAddressType => match named_value(node, ExpectedList::IntegerNames, |k: int| integer_at(k)) {
            Some(v) => GlobalConfigV { command_address_type: Some(v), ..gc },
            None => gc,
        },
        GlobalConfigType::BufferAddressType => match named_value(node, ExpectedList::IntegerNames, |k: int| integer_at(k)) {
            Some(v) => GlobalConfigV { buffer_address_type: Some(v), ..gc },
            None => gc,
        },
        GlobalConfigType::NameWordBoundaries => match single_string(node, None, false).0 {
            Some(v) => GlobalConfigV { name_word_boundaries: present_boundaries(boundaries_in_pattern(v)), ..gc },
            None => gc,
        },
        GlobalConfigType::DefmtFeature => match single_string(node, None, false).0 {
            Some(v) => GlobalConfigV { defmt_feature: Some(v), ..gc },
            None => gc,
        },
    }
}

/// The diagnostics of a node of the given setting type.
pub open spec fn config_reports(node: Node, t: GlobalConfigType) -> Seq<DiagnosticV> {
    match t {
        GlobalConfigType::DefaultRegisterAccess | GlobalConfigType::DefaultFieldAccess
        | GlobalConfigType::DefaultBufferAccess => single_value(node, ExpectedList::AccessNames).1,
        GlobalConfigType::DefaultByteOrder => single_value(node, ExpectedList::ByteOrderNames).1,
        GlobalConfigType::DefaultBitOrder => single_value(node, ExpectedList::BitOrderNames).1,
        GlobalConfigType::RegisterAddressType | GlobalConfigType::CommandAddressType
        | GlobalConfigType::BufferAddressType => single_value(node, ExpectedList::IntegerNames).1,
        GlobalConfigType::NameWordBoundaries | GlobalConfigType::DefmtFeature => single_string(
            node,
            None,
            false,
        ).2,
    }
}

/// The word boundaries among the boundaries that `convert_case` found, in order.
fn keep_present(found: Vec<Option<WordBoundary>>) -> (res: Vec<WordBoundary>)
    ensures
        res@ == present_boundaries(found@),
{
    let mut res: Vec<WordBoundary> = Vec::new();
    let mut i: usize = 0;
    proof {
        assert(found@.take(0) =~= Seq::<Option<WordBoundary>>::empty());
    }
    while i < found.len()
        invariant
            i <= found@.len(),
            res@ == present_boundaries(found@.take(i as int)),
        decreases found@.len() - i,
    {
        proof {
            let next = found@.take(i + 1);
            assert(next.drop_last() =~= found@.take(i as int));
            assert(next.last() == found@[i as int]);
        }
        if let Some(b) = found[i] {
            res.push(b);
            proof {
                assert(res@ =~= present_boundaries(found@.take(i + 1)));
            }
        } else {
            proof {
                assert(res@ =~= present_boundaries(found@.take(i + 1)));
            }
        }
        i = i + 1;
    }
    proof {
        assert(found@.take(found@.len() as int) =~= found@);
    }
    res
}

/// Reads a node that gives a setting of the device into the settings.
pub fn transform_global_config_node(
    global_config: &mut GlobalConfig,
    node: &Node,
    global_config_type: GlobalConfigType,
    diagnostics: &mut Diagnostics,
)
    ensures
        config_view(*final(global_config)) == config_after(config_view(*old(global_config)), *node, global_config_type),
        final(diagnostics)@ == old(diagnostics)@ + config_reports(*node, global_config_type),
{
    match global_config_type {
        GlobalConfigType::DefaultRegisterAccess => {
            if let Some(value) = parse_access(node, diagnostics) {
                global_config.default_register_access = value;
            }
        },
        GlobalConfigType::DefaultFieldAccess => {
            if let Some(value) = parse_access(node, diagnostics) {
                global_config.default_field_access = value;
            }
        },
        GlobalConfigType::DefaultBufferAccess => {
            if let Some(value) = parse_access(node, diagnostics) {
                global_config.default_buffer_access = value;
            }
        },
        GlobalConfigType::DefaultByteOrder => {
            if let Some(value) = parse_byte_order(node, diagnostics) {
                global_config.default_byte_order = Some(value);
            }
        },
        GlobalConfigType::DefaultBitOrder => {
            if let Some(value) = parse_bit_order(node, diagnostics) {
                global_config.default_bit_order = value;
            }
        },
        GlobalConfigType::RegisterAddressType => {
            if let Some(value) = parse_integer_type(node, diagnostics) {
                global_config.register_address_type = Some(value);
            }
        },
        GlobalConfigType::CommandAddressType => {
            if let Some(value) = parse_integer_type(node, diagnostics) {
                global_config.command_address_type = Some(value);
            }
        },
        GlobalConfigType::BufferAddressType => {
            if let Some(value) = parse_integer_type(node, diagnostics) {
                global_config.buffer_address_type = Some(value);
            }
        },
        GlobalConfigType::NameWordBoundaries => {
            if let Some(value) = parse_single_string_entry(node, diagnostics, None, false).0 {
                let found = boundaries_from_pattern(value.as_str());
                global_config.name_word_boundaries = keep_present(found);
            }
        },
        GlobalConfigType::DefmtFeature => {
            if let Some(value) = parse_single_string_entry(node, diagnostics, None, false).0 {
                global_config.defmt_feature = Some(value);
            }
        },
    }
}

/// The child nodes that a register may have.
#[derive(Debug, Clone, Copy, PartialEq, Eq, Structural)]
pub enum RegisterField {
    Cfg,
    Access,
    AllowAddressOverlap,
    Address,
    ResetValue,
    Repeat,
    FieldSet,
}

/// The register child that a node name gives, if it names one.
pub open spec fn register_field_named(s: Seq<char>) -> Option<RegisterField> {
    if s == "cfg"@ {
        Some(RegisterField::Cfg)
    } else if s == "access"@ {
        Some(RegisterField::Access)
    } else if s == "allow-address-overlap"@ {
        Some(RegisterField::AllowAddressOverlap)
    } else if s == "address"@ {
        Some(RegisterField::Address)
    } else if s == "reset-value"@ {
        Some(RegisterField::ResetValue)
    } else if s == "repeat"@ {
        Some(RegisterField::Repeat)
    } else if s == "fields"@ {
        Some(RegisterField::FieldSet)
    } else {
        None
    }
}

impl RegisterField {
    /// The register child that a node name gives, if it names one.
    pub fn from_name(s: &String) -> (res: Option<RegisterField>)
        ensures
            res == register_field_named(s@),
    {
        if *s == String::from_str("cfg") {
            Some(RegisterField::Cfg)
        } else if *s == String::from_str("access") {
            Some(RegisterField::Access)
        } else if *s == String::from_str("allow-address-overlap") {
            Some(RegisterField::AllowAddressOverlap)
        } else if *s == String::from_str("address") {
            Some(RegisterField::Address)
        } else if *s == String::from_str("reset-value") {
            Some(RegisterField::ResetValue)
        } else if *s == String::from_str("repeat") {
            Some(RegisterField::Repeat)
        } else if *s == String::from_str("fields") {
            Some(RegisterField::FieldSet)
        } else {
            None
        }
    }
}

/// Whether the field set is the one read from the node.
pub open spec fn field_set_matches(fs: FieldSet, node: Node) -> bool {
    let st = field_set_scan(node.entries@);
    &&& fs.size_bits == field_set_size_bits(st)
    &&& fs.byte_order == field_set_byte_order(st)
    &&& fs.bit_order == field_set_bit_order(st)
    &&& fs.allow_bit_overlap == field_set_allow_overlap(st)
    &&& fs.description@ == Seq::<char>::empty()
    &&& fs.fields@.len() == 0
}

/// What reading the child nodes of a register has found so far: each setting with the
/// place of the node that gave it, and the diagnostics.
pub ghost struct RegisterScan {
    pub cfg: Option<(Seq<char>, Span)>,
    pub access: Option<(Access, Span)>,
    pub allow_address_overlap: Option<(bool, Span)>,
    pub address: Option<(i128, Span)>,
    pub reset_value: Option<(ResetValueView, Span)>,
    pub repeat: Option<(Repeat, Span)>,
    pub field_set: Option<(Node, Span)>,
    pub reports: Seq<DiagnosticV>,
}

/// The place of the setting that was read, if one was.
pub open spec fn setting_span<T>(slot: Option<(T, Span)>) -> Option<Span> {
    match slot {
        Some((_, span)) => Some(span),
        None => None,
    }
}

/// The value read with its place, if one was read.
pub open spec fn with_span<T>(v: Option<T>, span: Span) -> Option<(T, Span)> {
    match v {
        Some(x) => Some((x, span)),
        None => None,
    }
}

/// The reports after a child that repeats a setting that was read before.
pub open spec fn duplicate(reports: Seq<DiagnosticV>, c: Node, original: Span) -> Seq<DiagnosticV> {
    reports.push(DiagnosticV::DuplicateNode { duplicate: c.name_span, original })
}

/// Reading one more child node of a register. A setting that was read before is
/// reported as a duplicate, and a child with another name is reported at the
/// register's own name.
pub open spec fn register_step(st: RegisterScan, parent: Node, c: Node) -> RegisterScan {
    match register_field_named(c.name@) {
        Some(RegisterField::Cfg) => match setting_span(st.cfg) {
            Some(o) => RegisterScan { reports: duplicate(st.reports, c, o), ..st },
            None => {
                let (v, _, d) = single_string(c, None, false);
                RegisterScan { cfg: with_span(v, c.name_span), reports: st.reports + d, ..st }
            },
        },
        Some(RegisterField::Access) => match setting_span(st.access) {
            Some(o) => RegisterScan { reports: duplicate(st.reports, c, o), ..st },
            None => RegisterScan {
                access: with_span(named_value(c, ExpectedList::AccessNames, |k: int| access_at(k)), c.name_span),
                reports: st.reports + single_value(c, ExpectedList::AccessNames).1,
                ..st
            },
        },
        Some(RegisterField::AllowAddressOverlap) => match setting_span(st.allow_address_overlap) {
            Some(o) => RegisterScan { reports: duplicate(st.reports, c, o), ..st },
            None => RegisterScan {
                allow_address_overlap: Some((true, c.name_span)),
                reports: st.reports + zero_entries_extra(c),
                ..st
            },
        },
        Some(RegisterField::Address) => match setting_span(st.address) {
            Some(o) => RegisterScan { reports: duplicate(st.reports, c, o), ..st },
            None => RegisterScan {
                address: with_span(single_integer(c).0, c.name_span),
                reports: st.reports + single_integer(c).2,
                ..st
            },
        },
        Some(RegisterField::ResetValue) => match setting_span(st.reset_value) {
            Some(o) => RegisterScan { reports: duplicate(st.reports, c, o), ..st },
            None => RegisterScan {
                reset_value: with_span(reset_result(c).0, c.name_span),
                reports: st.reports + reset_result(c).1,
                ..st
            },
        },
        Some(RegisterField::Repeat) => match setting_span(st.repeat) {
            Some(o) => RegisterScan { reports: duplicate(st.reports, c, o), ..st },
            None => RegisterScan {
                repeat: with_span(repeat_result(c).0, c.name_span),
                reports: st.reports + repeat_result(c).1,
                ..st
            },
        },
        Some(RegisterField::FieldSet) => match setting_span(st.field_set) {
            Some(o) => RegisterScan { reports: duplicate(st.reports, c, o), ..st },
            None => RegisterScan {
                field_set: Some((c, c.name_span)),
                reports: st.reports + field_set_reports(c),
                ..st
            },
        },
        None => RegisterScan {
            reports: st.reports.push(
                DiagnosticV::UnexpectedNode { node_name: parent.name_span, expected_names: ExpectedList::RegisterContent },
            ),
            ..st
        },
    }
}

/// What reading the child nodes of a register finds.
pub open spec fn register_scan(parent: Node, children: Seq<Node>) -> RegisterScan
    decreases children.len(),
{
    if children.len() == 0 {
        RegisterScan {
            cfg: None,
            access: None,
            allow_address_overlap: None,
            address: None,
            reset_value: None,
            repeat: None,
            field_set: None,
            reports: Seq::empty(),
        }
    } else {
        register_step(register_scan(parent, children.drop_last()), parent, children.last())
    }
}

/// The child nodes of a node.
pub open spec fn children_of(node: Node) -> Seq<Node> {
    match node.children {
        Some(c) => c@,
        None => Seq::empty(),
    }
}

/// Whether every `fields` child of the register has no child nodes of its own.
pub open spec fn register_ready(node: Node) -> bool {
    forall|i: int|
        0 <= i < children_of(node).len() && #[trigger] children_of(node)[i].name@ == "fields"@
            ==> no_children(children_of(node)[i])
}

/// The settings as the register's own executable state holds them while its children
/// are read.
pub struct RegisterSlots {
    pub cfg: Option<(String, Span)>,
    pub access: Option<(Access, Span)>,
    pub allow_address_overlap: Option<(bool, Span)>,
    pub address: Option<(i128, Span)>,
    pub reset_value: Option<(ResetValue, Span)>,
    pub repeat: Option<(Repeat, Span)>,
    pub field_set: Option<(FieldSet, Span)>,
}

/// Whether the executable settings are the ones of the scan.
pub open spec fn slots_agree(sl: RegisterSlots, st: RegisterScan) -> bool {
    &&& match (sl.cfg, st.cfg) {
        (Some((v, a)), Some((w, b))) => v@ == w && a == b,
        (None, None) => true,
        _ => false,
    }
    &&& sl.access == st.access
    &&& sl.allow_address_overlap == st.allow_address_overlap
    &&& sl.address == st.address
    &&& match (sl.reset_value, st.reset_value) {
        (Some((v, a)), Some((w, b))) => v@ == w && a == b,
        (None, None) => true,
        _ => false,
    }
    &&& sl.repeat == st.repeat
    &&& match (sl.field_set, st.field_set) {
        (Some((fs, a)), Some((c, b))) => field_set_matches(fs, c) && a == b,
        (None, None) => true,
        _ => false,
    }
}

/// The place of an executable setting, if one was read.
fn slot_span<T>(slot: &Option<(T, Span)>) -> (res: Option<Span>)
    ensures
        res == setting_span(*slot),
{
    match slot {
        Some((_, span)) => Some(*span),
        None => None,
    }
}

/// Reads one more child node of a register into the settings.
fn scan_register_child(
    slots: &mut RegisterSlots,
    parent: &Node,
    c: &Node,
    diagnostics: &mut Diagnostics,
    Ghost(st): Ghost<RegisterScan>,
)
    requires
        slots_agree(*old(slots), st),
        st.reports == Seq::<DiagnosticV>::empty(),
        c.name@ == "fields"@ ==> no_children(*c),
    ensures
        slots_agree(*final(slots), register_step(st, *parent, *c)),
        final(diagnostics)@ == old(diagnostics)@ + register_step(st, *parent, *c).reports,
{
    proof {
        assert(st.reports + Seq::<DiagnosticV>::empty() =~= st.reports);
    }
    let ghost next = register_step(st, *parent, *c);
    match RegisterField::from_name(&c.name) {
        Some(RegisterField::Cfg) => {
            if let Some(o) = slot_span(&slots.cfg) {
                diagnostics.add(Diagnostic::DuplicateNode { duplicate: c.name_span, original: o });
            } else {
                let v = parse_single_string_entry(c, diagnostics, None, false).0;
                slots.cfg = match v {
                    Some(v) => Some((v, c.name_span)),
                    None => None,
                };
            }
        },
        Some(RegisterField::Access) => {
            if let Some(o) = slot_span(&slots.access) {
                diagnostics.add(Diagnostic::DuplicateNode { duplicate: c.name_span, original: o });
            } else {
                let v = parse_access(c, diagnostics);
                slots.access = match v {
                    Some(v) => Some((v, c.name_span)),
                    None => None,
                };
            }
        },
        Some(RegisterField::AllowAddressOverlap) => {
            if let Some(o) = slot_span(&slots.allow_address_overlap) {
                diagnostics.add(Diagnostic::DuplicateNode { duplicate: c.name_span, original: o });
            } else {
                ensure_zero_entries(c, diagnostics);
                slots.allow_address_overlap = Some((true, c.name_span));
            }
        },
        Some(RegisterField::Address) => {
            if let Some(o) = slot_span(&slots.address) {
                diagnostics.add(Diagnostic::DuplicateNode { duplicate: c.name_span, original: o });
            } else {
                let v = parse_single_integer_entry(c, diagnostics).0;
                slots.address = match v {
                    Some(v) => Some((v, c.name_span)),
                    None => None,
                };
            }
        },
        Some(RegisterField::ResetValue) => {
            if let Some(o) = slot_span(&slots.reset_value) {
                diagnostics.add(Diagnostic::DuplicateNode { duplicate: c.name_span, original: o });
            } else {
                let v = parse_reset_value_entries(c, diagnostics);
                slots.reset_value = match v {
                    Some(v) => Some((v, c.name_span)),
                    None => None,
                };
            }
        },
        Some(RegisterField::Repeat) => {
            if let Some(o) = slot_span(&slots.repeat) {
                diagnostics.add(Diagnostic::DuplicateNode { duplicate: c.name_span, original: o });
            } else {
                let v = parse_repeat_entries(c, diagnostics);
                slots.repeat = match v {
                    Some(v) => Some((v, c.name_span)),
                    None => None,
                };
            }
        },
        Some(RegisterField::FieldSet) => {
            if let Some(o) = slot_span(&slots.field_set) {
                diagnostics.add(Diagnostic::DuplicateNode { duplicate: c.name_span, original: o });
            } else {
                let v = transform_field_set(c, diagnostics);
                slots.field_set = match v {
                    Some(v) => Some((v, c.name_span)),
                    None => None,
                };
            }
        },
        None => {
            diagnostics.add(
                Diagnostic::UnexpectedNode { node_name: parent.name_span, expected_names: ExpectedList::RegisterContent },
            );
        },
    }
    proof {
        assert(final(diagnostics)@ =~= old(diagnostics)@ + next.reports);
    }
}

/// One more child adds its diagnostics after the earlier ones and sets the settings
/// as it does from a scan without diagnostics.
proof fn lemma_register_step_reports(st: RegisterScan, parent: Node, c: Node)
    ensures
        ({
            let fresh = RegisterScan { reports: Seq::empty(), ..st };
            let a = register_step(st, parent, c);
            let b = register_step(fresh, parent, c);
            &&& a.reports == st.reports + b.reports
            &&& a == RegisterScan { reports: a.reports, ..b }
        }),
{
    let fresh = RegisterScan { reports: Seq::empty(), ..st };
    let a = register_step(st, parent, c);
    let b = register_step(fresh, parent, c);
    assert(a.reports =~= st.reports + b.reports);
}

/// The name of a register and its diagnostics, from its first entry.
pub open spec fn register_head(node: Node) -> (Option<Seq<char>>, Option<Span>, Seq<DiagnosticV>) {
    single_string(node, None, true)
}

/// Whether a register node is only the keyword: it has no name and no children, so
/// nothing more is said of it.
pub open spec fn register_bare(node: Node) -> bool {
    register_head(node).0 is None && node.children is None
}

/// The settings that the children of a register node give.
pub open spec fn register_settings(node: Node) -> RegisterScan {
    register_scan(node, children_of(node))
}

/// Where a missing child of a register is reported: at its name, or at its keyword
/// when it has no name entry.
pub open spec fn register_anchor(node: Node) -> Span {
    match register_head(node).1 {
        Some(s) => s,
        None => node.name_span,
    }
}

/// The diagnostics of a missing or unfit address and of missing fields.
pub open spec fn register_tail_reports(node: Node) -> Seq<DiagnosticV> {
    let st = register_settings(node);
    let address_report = match st.address {
        None => seq![
            DiagnosticV::MissingChildNode {
                node: register_anchor(node),
                node_type: Some("register"@),
                missing_node_type: "address"@,
            },
        ],
        Some((a, span)) => if fits_i64(a) {
            Seq::empty()
        } else {
            seq![
                DiagnosticV::ValueOutOfRange {
                    value: span,
                    context: Some("The address is encoded as an i64"@),
                    range: "-2^63..2^63"@,
                },
            ]
        },
    };
    let fields_report = if st.field_set is None {
        seq![
            DiagnosticV::MissingChildNode {
                node: register_anchor(node),
                node_type: Some("register"@),
                missing_node_type: "fields"@,
            },
        ]
    } else {
        Seq::empty()
    };
    address_report + fields_report
}

/// The diagnostics of reading a register node.
pub open spec fn register_reports(node: Node) -> Seq<DiagnosticV> {
    if register_bare(node) {
        register_head(node).2
    } else {
        register_head(node).2 + register_settings(node).reports + register_tail_reports(node)
    }
}

/// Whether a register node gives a register: it has a name, an address that fits and
/// fields.
pub open spec fn register_ok(node: Node) -> bool {
    let st = register_settings(node);
    &&& !register_bare(node)
    &&& register_head(node).0 is Some
    &&& st.address matches Some((a, _)) && fits_i64(a)
    &&& st.field_set is Some
}

/// Whether the register is the one read from the node: its name, its address, its
/// description from the comments before it, and the settings from its children, with
/// read-write access and no address overlap where they aren't given.
pub open spec fn register_matches(r: Register, node: Node) -> bool {
    let st = register_settings(node);
    &&& r.name@ == register_head(node).0->0
    &&& r.address as int == (st.address->0).0
    &&& r.cfg_attr@ == match st.cfg {
        Some((v, _)) => Some(v),
        None => None,
    }
    &&& r.description@ == node_description(node)
    &&& r.access == match st.access {
        Some((a, _)) => a,
        None => Access::RW,
    }
    &&& r.allow_address_overlap == match st.allow_address_overlap {
        Some((b, _)) => b,
        None => false,
    }
    &&& match (r.reset_value, st.reset_value) {
        (Some(v), Some((w, _))) => v@ == w,
        (None, None) => true,
        _ => false,
    }
    &&& r.repeat == match st.repeat {
        Some((v, _)) => Some(v),
        None => None,
    }
    &&& field_set_matches(r.field_set, (st.field_set->0).0)
}

/// Reads the child nodes of a register into its settings.
fn scan_register_children(node: &Node, diagnostics: &mut Diagnostics) -> (res: RegisterSlots)
    requires
        register_ready(*node),
    ensures
        slots_agree(res, register_settings(*node)),
        final(diagnostics)@ == old(diagnostics)@ + register_settings(*node).reports,
{
    let mut slots = RegisterSlots {
        cfg: None,
        access: None,
        allow_address_overlap: None,
        address: None,
        reset_value: None,
        repeat: None,
        field_set: None,
    };
    let ghost children = children_of(*node);
    proof {
        assert(children.take(0) =~= Seq::<Node>::empty());
        assert(old(diagnostics)@ + Seq::<DiagnosticV>::empty() =~= old(diagnostics)@);
    }
    if let Some(list) = &node.children {
        let mut i: usize = 0;
        while i < list.len()
            invariant
                i <= children.len(),
                children == list@,
                register_ready(*node),
                children == children_of(*node),
                slots_agree(slots, register_scan(*node, children.take(i as int))),
                diagnostics@ == old(diagnostics)@ + register_scan(*node, children.take(i as int)).reports,
            decreases children.len() - i,
        {
            let ghost st = register_scan(*node, children.take(i as int));
            proof {
                let next = children.take(i + 1);
                assert(next.drop_last() =~= children.take(i as int));
                assert(next.last() == children[i as int]);
                lemma_register_step_reports(st, *node, children[i as int]);
                if children[i as int].name@ == "fields"@ {
                    assert(no_children(children[i as int]));
                }
            }
            let ghost d = diagnostics@;
            scan_register_child(
                &mut slots,
                node,
                &list[i],
                diagnostics,
                Ghost(RegisterScan { reports: Seq::empty(), ..st }),
            );
            proof {
                assert(diagnostics@ =~= old(diagnostics)@ + register_scan(*node, children.take(i + 1)).reports);
            }
            i = i + 1;
        }
        proof {
            assert(children.take(children.len() as int) =~= children);
        }
    }
    slots
}

/// Reads a register node: its name from its first entry and its settings from its
/// children. A register needs a name, an address that fits in an `i64` and fields;
/// without them there is no register, and each missing part is reported.
pub fn transform_register(node: &Node, diagnostics: &mut Diagnostics) -> (res: Option<Register>)
    requires
        register_ready(*node),
    ensures
        res is Some <==> register_ok(*node),
        res matches Some(r) ==> register_matches(r, *node),
        final(diagnostics)@ == old(diagnostics)@ + register_reports(*node),
{
    let (name, name_span) = parse_single_string_entry(node, diagnostics, None, true);
    if name.is_none() && node.children.is_none() {
        return None;
    }
    let ghost d0 = diagnostics@;
    let slots = scan_register_children(node, diagnostics);
    let ghost st = register_settings(*node);
    let ghost d1 = diagnostics@;
    let anchor = match name_span {
        Some(s) => s,
        None => node.name_span,
    };
    let mut error = name.is_none();
    match &slots.address {
        None => {
            error = true;
            diagnostics.add(
                Diagnostic::MissingChildNode { node: anchor, node_type: Some("register"), missing_node_type: "address" },
            );
        },
        Some((a, span)) => {
            if !(-0x8000_0000_0000_0000 <= *a && *a <= 0x7fff_ffff_ffff_ffff) {
                error = true;
                diagnostics.add(
                    Diagnostic::ValueOutOfRange {
                        value: *span,
                        context: Some("The address is encoded as an i64"),
                        range: "-2^63..2^63",
                    },
                );
            }
        },
    }
    if slots.field_set.is_none() {
        error = true;
        diagnostics.add(
            Diagnostic::MissingChildNode { node: anchor, node_type: Some("register"), missing_node_type: "fields" },
        );
    }
    proof {
        assert(diagnostics@ =~= d1 + register_tail_reports(*node));
        assert(diagnostics@ =~= old(diagnostics)@ + register_reports(*node));
    }
    if error {
        return None;
    }
    let description = parse_description(node);
    let RegisterSlots { cfg, access, allow_address_overlap, address, reset_value, repeat, field_set } = slots;
    let cfg_attr = match &cfg {
        Some((v, _)) => Cfg::new(Some(v.as_str())),
        None => Cfg::new(None),
    };
    let (address, _) = address.unwrap();
    let (field_set, _) = field_set.unwrap();
    Some(
        Register {
            cfg_attr,
            description,
            name: name.unwrap(),
            access: match access {
                Some((a, _)) => a,
                None => Access::RW,
            },
            allow_address_overlap: match allow_address_overlap {
                Some((b, _)) => b,
                None => false,
            },
            address: address as i64,
            reset_value: match reset_value {
                Some((v, _)) => Some(v),
                None => None,
            },
            repeat: match repeat {
                Some((v, _)) => Some(v),
                None => None,
            },
            field_set,
        },
    )
}

/// The position of a setting type in the list of settings.
pub open spec fn config_index(t: GlobalConfigType) -> int {
    match t {
        GlobalConfigType::DefaultRegisterAccess => 0,
        GlobalConfigType::DefaultFieldAccess => 1,
        GlobalConfigType::DefaultBufferAccess => 2,
        GlobalConfigType::DefaultByteOrder => 3,
        GlobalConfigType::DefaultBitOrder => 4,
        GlobalConfigType::RegisterAddressType => 5,
        GlobalConfigType::CommandAddressType => 6,
        GlobalConfigType::BufferAddressType => 7,
        GlobalConfigType::NameWordBoundaries => 8,
        GlobalConfigType::DefmtFeature => 9,
    }
}

/// The position of a setting type in the list of settings.
fn config_index_of(t: GlobalConfigType) -> (res: usize)
    ensures
        res == config_index(t),
        res < 10,
{
    match t {
        GlobalConfigType::DefaultRegisterAccess => 0,
        GlobalConfigType::DefaultFieldAccess => 1,
        GlobalConfigType::DefaultBufferAccess => 2,
        GlobalConfigType::DefaultByteOrder => 3,
        GlobalConfigType::DefaultBitOrder => 4,
        GlobalConfigType::RegisterAddressType => 5,
        GlobalConfigType::CommandAddressType => 6,
        GlobalConfigType::BufferAddressType => 7,
        GlobalConfigType::NameWordBoundaries => 8,
        GlobalConfigType::DefmtFeature => 9,
    }
}

/// What reading the child nodes of a device has found so far: its settings, the place
/// of the last node of each setting type, the register nodes that gave registers, and
/// the diagnostics.
pub ghost struct DeviceScan {
    pub config: GlobalConfigV,
    pub seen: Seq<Option<Span>>,
    pub registers: Seq<Node>,
    pub reports: Seq<DiagnosticV>,
}

/// Reading one more child node of a device. A setting that appeared before is reported
/// as a duplicate of the last node that gave it; a register is read; any other node is
/// unexpected.
pub open spec fn device_step(st: DeviceScan, n: Node) -> DeviceScan {
    match global_config_type_named(n.name@) {
        Some(t) => {
            let seen = st.seen.update(config_index(t), Some(n.span));
            match st.seen[config_index(t)] {
                Some(original) => DeviceScan {
                    seen,
                    reports: st.reports.push(DiagnosticV::DuplicateNode { duplicate: n.span, original }),
                    ..st
                },
                None => DeviceScan {
                    config: config_after(st.config, n, t),
                    seen,
                    reports: st.reports + config_reports(n, t),
                    ..st
                },
            }
        },
        None => if n.name@ == "register"@ {
            DeviceScan {
                registers: if register_ok(n) {
                    st.registers.push(n)
                } else {
                    st.registers
                },
                reports: st.reports + register_reports(n),
                ..st
            }
        } else {
            DeviceScan {
                reports: st.reports.push(
                    DiagnosticV::UnexpectedNode { node_name: n.name_span, expected_names: ExpectedList::DeviceContent },
                ),
                ..st
            }
        },
    }
}

/// What reading the child nodes of a device finds, from the given settings on.
pub open spec fn device_scan(config: GlobalConfigV, nodes: Seq<Node>) -> DeviceScan
    decreases nodes.len(),
{
    if nodes.len() == 0 {
        DeviceScan {
            config,
            seen: Seq::new(10, |i: int| None::<Span>),
            registers: Seq::empty(),
            reports: Seq::empty(),
        }
    } else {
        device_step(device_scan(config, nodes.drop_last()), nodes.last())
    }
}

/// Whether the node names one of the object kinds that aren't read yet: blocks,
/// commands, buffers and refs.
pub open spec fn unread_object(n: Node) -> bool {
    n.name@ == "block"@ || n.name@ == "command"@ || n.name@ == "buffer"@ || n.name@ == "ref"@
}

/// Whether every child node of a device can be read: it is no block, command, buffer or
/// ref, and a register has no fields of its own.
pub open spec fn device_children_ready(nodes: Seq<Node>) -> bool {
    forall|i: int|
        0 <= i < nodes.len() ==> !unread_object(#[trigger] nodes[i]) && (nodes[i].name@ == "register"@
            ==> register_ready(nodes[i]))
}

/// Whether the objects are the registers read from the register nodes, in order.
pub open spec fn registers_of(objects: Seq<Object>, nodes: Seq<Node>) -> bool {
    &&& objects.len() == nodes.len()
    &&& forall|j: int|
        0 <= j < objects.len() ==> (#[trigger] objects[j] matches Object::Register(r) && register_matches(
            r,
            nodes[j],
        ))
}

/// Whether the node names an object kind that isn't read yet.
fn is_unread_object(n: &Node) -> (res: bool)
    ensures
        res == unread_object(*n),
{
    n.name == String::from_str("block") || n.name == String::from_str("command") || n.name
        == String::from_str("buffer") || n.name == String::from_str("ref")
}

/// Reads the child nodes of a device: its settings and its registers.
pub fn transform_device_internals(device: &mut Device, nodes: &Vec<Node>, diagnostics: &mut Diagnostics)
    requires
        device_children_ready(nodes@),
    ensures
        config_view(final(device).global_config) == device_scan(
            config_view(old(device).global_config),
            nodes@,
        ).config,
        final(device).name == old(device).name,
        final(device).objects@.take(old(device).objects@.len() as int) == old(device).objects@,
        registers_of(
            final(device).objects@.skip(old(device).objects@.len() as int),
            device_scan(config_view(old(device).global_config), nodes@).registers,
        ),
        final(diagnostics)@ == old(diagnostics)@ + device_scan(
            config_view(old(device).global_config),
            nodes@,
        ).reports,
{
    let ghost c0 = config_view(device.global_config);
    let ghost o0 = device.objects@;
    let mut seen: Vec<Option<Span>> = vec![None, None, None, None, None, None, None, None, None, None];
    let mut i: usize = 0;
    proof {
        assert(nodes@.take(0) =~= Seq::<Node>::empty());
        assert(seen@ =~= Seq::new(10, |i: int| None::<Span>));
        assert(old(diagnostics)@ + Seq::<DiagnosticV>::empty() =~= old(diagnostics)@);
        assert(device.objects@.take(o0.len() as int) =~= o0);
        assert(device.objects@.skip(o0.len() as int) =~= Seq::<Object>::empty());
    }
    while i < nodes.len()
        invariant
            i <= nodes@.len(),
            device_children_ready(nodes@),
            seen@ == device_scan(c0, nodes@.take(i as int)).seen,
            seen@.len() == 10,
            config_view(device.global_config) == device_scan(c0, nodes@.take(i as int)).config,
            device.name == old(device).name,
            device.objects@.len() >= o0.len(),
            device.objects@.take(o0.len() as int) == o0,
            registers_of(device.objects@.skip(o0.len() as int), device_scan(c0, nodes@.take(i as int)).registers),
            diagnostics@ == old(diagnostics)@ + device_scan(c0, nodes@.take(i as int)).reports,
        decreases nodes@.len() - i,
    {
        let node = &nodes[i];
        let ghost st = device_scan(c0, nodes@.take(i as int));
        proof {
            let next = nodes@.take(i + 1);
            assert(next.drop_last() =~= nodes@.take(i as int));
            assert(next.last() == nodes@[i as int]);
            assert(!unread_object(nodes@[i as int]));
        }
        if let Some(t) = GlobalConfigType::from_name(&node.name) {
            let k = config_index_of(t);
            match seen[k] {
                None => {
                    seen.set(k, Some(node.span));
                    transform_global_config_node(&mut device.global_config, node, t, diagnostics);
                    proof {
                        assert(seen@ =~= device_scan(c0, nodes@.take(i + 1)).seen);
                        assert(diagnostics@ =~= old(diagnostics)@ + device_scan(c0, nodes@.take(i + 1)).reports);
                    }
                },
                Some(original) => {
                    seen.set(k, Some(node.span));
                    diagnostics.add(Diagnostic::DuplicateNode { duplicate: node.span, original });
                    proof {
                        assert(seen@ =~= device_scan(c0, nodes@.take(i + 1)).seen);
                        assert(diagnostics@ =~= old(diagnostics)@ + device_scan(c0, nodes@.take(i + 1)).reports);
                    }
                },
            }
        } else if node.name == String::from_str("register") {
            let ghost objs = device.objects@;
            let r = transform_register(node, diagnostics);
            if let Some(r) = r {
                device.objects.push(Object::Register(r));
            }
            proof {
                let regs = device_scan(c0, nodes@.take(i + 1)).registers;
                assert(device.objects@.take(o0.len() as int) =~= o0);
                let after = device.objects@.skip(o0.len() as int);
                if register_ok(nodes@[i as int]) {
                    assert(after =~= objs.skip(o0.len() as int).push(device.objects@.last()));
                    assert(regs =~= st.registers.push(nodes@[i as int]));
                } else {
                    assert(after =~= objs.skip(o0.len() as int));
                }
                assert(registers_of(after, regs));
                assert(diagnostics@ =~= old(diagnostics)@ + device_scan(c0, nodes@.take(i + 1)).reports);
            }
        } else {
            diagnostics.add(
                Diagnostic::UnexpectedNode { node_name: node.name_span, expected_names: ExpectedList::DeviceContent },
            );
            proof {
                assert(diagnostics@ =~= old(diagnostics)@ + device_scan(c0, nodes@.take(i + 1)).reports);
            }
        }
        i = i + 1;
    }
    proof {
        assert(nodes@.take(nodes@.len() as int) =~= nodes@);
    }
}

/// The settings of a device before any of its nodes: the defaults.
pub open spec fn default_config() -> GlobalConfigV {
    GlobalConfigV {
        default_register_access: Access::RW,
        default_field_access: Access::RW,
        default_buffer_access: Access::RW,
        default_byte_order: None,
        default_bit_order: BitOrder::LSB0,
        register_address_type: None,
        command_address_type: None,
        buffer_address_type: None,
        name_word_boundaries: default_word_boundaries(),
        defmt_feature: None,
    }
}

/// Whether a device node has child nodes.
pub open spec fn has_content(node: Node) -> bool {
    node.children matches Some(c) && c@.len() > 0
}

/// Whether a top-level node gives a device: it is a `device` node with a name.
pub open spec fn device_ok(node: Node) -> bool {
    node.name@ == "device"@ && register_head(node).0 is Some
}

/// The diagnostics of reading a top-level node.
pub open spec fn device_reports(node: Node) -> Seq<DiagnosticV> {
    if node.name@ != "device"@ {
        seq![DiagnosticV::UnexpectedNode { node_name: node.name_span, expected_names: ExpectedList::Device }]
    } else if register_head(node).0 is None {
        register_head(node).2
    } else if has_content(node) {
        register_head(node).2 + device_scan(default_config(), children_of(node)).reports
    } else {
        register_head(node).2.push(DiagnosticV::EmptyNode { node: node.span })
    }
}

/// Whether the device is the one read from the node: its name, and the settings and
/// registers that its children give.
pub open spec fn device_matches(d: Device, node: Node) -> bool {
    let st = device_scan(default_config(), children_of(node));
    &&& d.name matches Some(n) && n@ == register_head(node).0->0
    &&& config_view(d.global_config) == st.config
    &&& registers_of(d.objects@, st.registers)
}

/// Whether a top-level node can be read: the children of a device can.
pub open spec fn device_node_ready(node: Node) -> bool {
    node.name@ == "device"@ ==> device_children_ready(children_of(node))
}

/// Reads a top-level node as a device: a `device` node with a name, whose children give
/// its settings and registers. A device without children is reported as empty.
pub fn transform_device(node: &Node, diagnostics: &mut Diagnostics) -> (res: Option<Device>)
    requires
        device_node_ready(*node),
    ensures
        res is Some <==> device_ok(*node),
        res matches Some(d) ==> device_matches(d, *node),
        final(diagnostics)@ == old(diagnostics)@ + device_reports(*node),
{
    if node.name != String::from_str("device") {
        diagnostics.add(
            Diagnostic::UnexpectedNode { node_name: node.name_span, expected_names: ExpectedList::Device },
        );
        return None;
    }
    let device_name = match parse_single_string_entry(node, diagnostics, None, true).0 {
        Some(name) => name,
        None => return None,
    };
    let mut device = Device { name: Some(device_name), global_config: GlobalConfig::default(), objects: Vec::new() };
    proof {
        assert(config_view(device.global_config) == default_config());
    }
    let ghost d0 = diagnostics@;
    match &node.children {
        Some(children) => {
            if children.len() != 0 {
                transform_device_internals(&mut device, children, diagnostics);
                proof {
                    assert(device.objects@.skip(0) =~= device.objects@);
                }
            } else {
                diagnostics.add(Diagnostic::EmptyNode { node: node.span });
            }
        },
        None => {
            diagnostics.add(Diagnostic::EmptyNode { node: node.span });
        },
    }
    proof {
        if !has_content(*node) {
            assert(device.objects@ =~= Seq::<Object>::empty());
            assert(device_scan(default_config(), children_of(*node)).registers =~= Seq::<Node>::empty()) by {
                assert(children_of(*node) =~= Seq::<Node>::empty());
            }
        }
    }
    Some(device)
}

/// The top-level nodes that give devices, in order.
pub open spec fn document_devices(nodes: Seq<Node>) -> Seq<Node>
    decreases nodes.len(),
{
    if nodes.len() == 0 {
        Seq::empty()
    } else {
        document_devices(nodes.drop_last()) + if device_ok(nodes.last()) {
            seq![nodes.last()]
        } else {
            Seq::empty()
        }
    }
}

/// The diagnostics of reading the top-level nodes.
pub open spec fn document_reports(nodes: Seq<Node>) -> Seq<DiagnosticV>
    decreases nodes.len(),
{
    if nodes.len() == 0 {
        Seq::empty()
    } else {
        document_reports(nodes.drop_last()) + device_reports(nodes.last())
    }
}

/// Whether every top-level node can be read.
pub open spec fn document_ready(nodes: Seq<Node>) -> bool {
    forall|i: int| 0 <= i < nodes.len() ==> device_node_ready(#[trigger] nodes[i])
}

/// Whether the devices are the ones read from the device nodes, in order.
pub open spec fn devices_of(devices: Seq<Device>, nodes: Seq<Node>) -> bool {
    &&& devices.len() == nodes.len()
    &&& forall|j: int| 0 <= j < devices.len() ==> device_matches(#[trigger] devices[j], nodes[j])
}

/// Reads the top-level nodes of a document: a device from each `device` node.
pub fn transform_document(nodes: &Vec<Node>, diagnostics: &mut Diagnostics) -> (res: Vec<Device>)
    requires
        document_ready(nodes@),
    ensures
        devices_of(res@, document_devices(nodes@)),
        final(diagnostics)@ == old(diagnostics)@ + document_reports(nodes@),
{
    let mut res: Vec<Device> = Vec::new();
    let mut i: usize = 0;
    proof {
        assert(nodes@.take(0) =~= Seq::<Node>::empty());
        assert(old(diagnostics)@ + Seq::<DiagnosticV>::empty() =~= old(diagnostics)@);
    }
    while i < nodes.len()
        invariant
            i <= nodes@.len(),
            document_ready(nodes@),
            devices_of(res@, document_devices(nodes@.take(i as int))),
            diagnostics@ == old(diagnostics)@ + document_reports(nodes@.take(i as int)),
        decreases nodes@.len() - i,
    {
        proof {
            let next = nodes@.take(i + 1);
            assert(next.drop_last() =~= nodes@.take(i as int));
            assert(next.last() == nodes@[i as int]);
            assert(device_node_ready(nodes@[i as int]));
        }
        let ghost before = res@;
        if let Some(d) = transform_device(&nodes[i], diagnostics) {
            res.push(d);
            proof {
                assert(document_devices(nodes@.take(i + 1)) =~= document_devices(nodes@.take(i as int)).push(
                    nodes@[i as int],
                ));
            }
        } else {
            proof {
                assert(document_devices(nodes@.take(i + 1)) =~= document_devices(nodes@.take(i as int)));
            }
        }
        proof {
            assert(diagnostics@ =~= old(diagnostics)@ + document_reports(nodes@.take(i + 1)));
        }
        i = i + 1;
    }
    proof {
        assert(nodes@.take(nodes@.len() as int) =~= nodes@);
    }
    res
}

/// Whether no `fields` child of the register has children of its own.
fn register_ready_check(node: &Node) -> (res: bool)
    ensures
        res == register_ready(*node),
{
    match &node.children {
        Some(children) => {
            let mut i: usize = 0;
            while i < children.len()
                invariant
                    i <= children@.len(),
                    children@ == children_of(*node),
                    forall|j: int|
                        0 <= j < i && #[trigger] children@[j].name@ == "fields"@ ==> no_children(children@[j]),
                decreases children@.len() - i,
            {
                let c = &children[i];
                if c.name == String::from_str("fields") {
                    let empty = match &c.children {
                        Some(cc) => cc.len() == 0,
                        None => true,
                    };
                    if !empty {
                        return false;
                    }
                }
                i = i + 1;
            }
            true
        },
        None => true,
    }
}

/// Whether every child node of a device can be read.
fn device_children_ready_check(nodes: &Vec<Node>) -> (res: bool)
    ensures
        res == device_children_ready(nodes@),
{
    let mut i: usize = 0;
    while i < nodes.len()
        invariant
            i <= nodes@.len(),
            forall|j: int|
                0 <= j < i ==> !unread_object(#[trigger] nodes@[j]) && (nodes@[j].name@ == "register"@
                    ==> register_ready(nodes@[j])),
        decreases nodes@.len() - i,
    {
        let n = &nodes[i];
        if is_unread_object(n) {
            return false;
        }
        if n.name == String::from_str("register") && !register_ready_check(n) {
            return false;
        }
        i = i + 1;
    }
    true
}

/// Whether every top-level node can be read.
pub fn document_ready_check(nodes: &Vec<Node>) -> (res: bool)
    ensures
        res == document_ready(nodes@),
{
    let mut i: usize = 0;
    while i < nodes.len()
        invariant
            i <= nodes@.len(),
            forall|j: int| 0 <= j < i ==> device_node_ready(#[trigger] nodes@[j]),
        decreases nodes@.len() - i,
    {
        let n = &nodes[i];
        if n.name == String::from_str("device") {
            let ready = match &n.children {
                Some(children) => device_children_ready_check(children),
                None => true,
            };
            if !ready {
                proof {
                    assert(!device_node_ready(nodes@[i as int]));
                }
                return false;
            }
        }
        i = i + 1;
    }
    true
}

/// Reads a KDL device description: the devices that its `device` nodes describe, with a
/// diagnostic for everything in it that is wrong or odd. Text that is no KDL gives no
/// devices and the parser's diagnostics. The reader doesn't read blocks, commands,
/// buffers, refs or the fields of a field set yet; a description that holds any gives
/// `None` and no diagnostics.
pub fn transform(source: &str, diagnostics: &mut Diagnostics) -> (res: Option<Vec<Device>>)
    ensures
        match kdl_parsed(source@) {
            Err(ds) => res matches Some(v) && v@.len() == 0 && final(diagnostics)@ == old(diagnostics)@ + ds,
            Ok(nodes) => if document_ready(nodes) {
                res matches Some(v) && devices_of(v@, document_devices(nodes)) && final(diagnostics)@
                    == old(diagnostics)@ + document_reports(nodes)
            } else {
                res is None && final(diagnostics)@ == old(diagnostics)@
            },
        },
{
    match parse_kdl(source) {
        Ok(nodes) => {
            if document_ready_check(&nodes) {
                Some(transform_document(&nodes, diagnostics))
            } else {
                None
            }
        },
        Err(parse_diagnostics) => {
            let ghost all = parse_diagnostics@;
            let count = parse_diagnostics.len();
            let mut rest = parse_diagnostics;
            let mut i: usize = 0;
            proof {
                assert(old(diagnostics)@ + crate::reporting::reports_view(all.take(0))
                    =~= old(diagnostics)@);
                assert(rest@ =~= all.skip(0));
            }
            while rest.len() > 0
                invariant
                    i + rest@.len() == all.len(),
                    all.len() == count,
                    rest@ == all.skip(i as int),
                    diagnostics@ == old(diagnostics)@ + crate::reporting::reports_view(all.take(i as int)),
                decreases rest@.len(),
            {
                let d = rest.remove(0);
                proof {
                    assert(d == all[i as int]);
                    assert(rest@ =~= all.skip(i + 1));
                    assert(crate::reporting::reports_view(all.take(i + 1)) =~= crate::reporting::reports_view(
                        all.take(i as int),
                    ).push(all[i as int]@));
                }
                diagnostics.add(d);
                i = i + 1;
            }
            proof {
                assert(all.take(all.len() as int) =~= all);
            }
            Some(Vec::new())
        },
    }
}

} // verus!
