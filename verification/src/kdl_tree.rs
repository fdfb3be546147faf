//! A KDL document as plain values, and the reading of KDL text into it with the `kdl`
//! crate.

use vstd::prelude::*;

use crate::reporting::{reports_view, Diagnostic, DiagnosticV, Severity, Span};

verus! {

/// The value of an entry. A floating point number is only told apart from the others:
/// nothing here reads its value.
#[derive(Debug, Clone, PartialEq, Eq)]
pub enum Value {
    String(String),
    Integer(i128),
    Float,
    Bool(bool),
    Null,
}

/// An entry of a node: an argument, or a property when it has a name.
#[derive(Debug, Clone, PartialEq, Eq)]
pub struct Entry {
    pub name: Option<String>,
    pub value: Value,
    pub span: Span,
}

/// A node: its name, its type annotation, its entries, the nodes in its children block
/// if it has one, and the whitespace and comments that precede it.
#[derive(Debug, PartialEq, Eq)]
pub struct Node {
    pub name: String,
    pub ty: Option<String>,
    pub name_span: Span,
    pub span: Span,
    pub entries: Vec<Entry>,
    pub children: Option<Vec<Node>>,
    pub leading: Option<String>,
}

/// The value of an entry as a mathematical value.
pub ghost enum ValueV {
    String(Seq<char>),
    Integer(i128),
    Float,
    Bool(bool),
    Null,
}

/// An entry as a mathematical value, without its place.
pub ghost struct EntryV {
    pub name: Option<Seq<char>>,
    pub value: ValueV,
}

/// A node as a mathematical value, without its places.
pub ghost struct NodeV {
    pub name: Seq<char>,
    pub ty: Option<Seq<char>>,
    pub entries: Seq<EntryV>,
    pub children: Option<Seq<NodeV>>,
    pub leading: Option<Seq<char>>,
}

/// The value as a mathematical value.
pub open spec fn value_view(v: Value) -> ValueV {
    match v {
        Value::String(s) => ValueV::String(s@),
        Value::Integer(i) => ValueV::Integer(i),
        Value::Float => ValueV::Float,
        Value::Bool(b) => ValueV::Bool(b),
        Value::Null => ValueV::Null,
    }
}

/// The optional text as a mathematical value.
pub open spec fn opt_text(s: Option<String>) -> Option<Seq<char>> {
    match s {
        Some(t) => Some(t@),
        None => None,
    }
}

/// The entry as a mathematical value.
pub open spec fn entry_view(e: Entry) -> EntryV {
    EntryV { name: opt_text(e.name), value: value_view(e.value) }
}

/// The entries as mathematical values.
pub open spec fn entries_view(s: Seq<Entry>) -> Seq<EntryV> {
    s.map_values(|e: Entry| entry_view(e))
}

/// The node as a mathematical value.
pub open spec fn node_view(n: Node) -> NodeV
    decreases n,
{
    NodeV {
        name: n.name@,
        ty: opt_text(n.ty),
        entries: entries_view(n.entries@),
        children: match n.children {
            Some(c) => {
                proof {
                    vstd::std_specs::vec::axiom_vec_decreases_to_view(c);
                }
                Some(nodes_view(c@))
            },
            None => None,
        },
        leading: opt_text(n.leading),
    }
}

/// The nodes as mathematical values.
pub open spec fn nodes_view(s: Seq<Node>) -> Seq<NodeV>
    decreases s,
{
    if s.len() == 0 {
        Seq::empty()
    } else {
        nodes_view(s.drop_last()).push(node_view(s.last()))
    }
}

/// Whether no entry of the nodes, or of the nodes below them, holds a floating point
/// number.
pub open spec fn floatless(s: Seq<NodeV>) -> bool
    decreases s,
{
    if s.len() == 0 {
        true
    } else {
        let n = s.last();
        &&& floatless(s.drop_last())
        &&& forall|i: int| 0 <= i < n.entries.len() ==> !(#[trigger] n.entries[i].value is Float)
        &&& match n.children {
            Some(c) => floatless(c),
            None => true,
        }
    }
}

/// Adds the node after the others.
pub fn push_node(out: &mut Vec<Node>, n: Node)
    ensures
        nodes_view(final(out)@) == nodes_view(old(out)@).push(node_view(n)),
{
    out.push(n);
    proof {
        assert(final(out)@.drop_last() =~= old(out)@);
    }
}

/// What `kdl::KdlDocument::to_string` writes for a document of the nodes, made with
/// `KdlNode::new`, `set_ty`, `push`, `set_children` and `set_format`, after
/// `KdlDocument::autoformat`.
pub uninterp spec fn kdl_rendered(nodes: Seq<NodeV>) -> Seq<char>;

/// Builds a `kdl::KdlDocument` of the nodes, formats it with `autoformat` and writes it
/// with `to_string`. The text is a function of the nodes alone, named `kdl_rendered`;
/// nothing more of it is stated. The nodes hold no floating point number, which the
/// conversion has no value for.
#[verifier::external_body]
pub(crate) fn render_kdl(nodes: &Vec<Node>) -> (res: String)
    requires
        floatless(nodes_view(nodes@)),
    ensures
        res@ == kdl_rendered(nodes_view(nodes@)),
{
    let mut document = ::kdl::KdlDocument::new();
    document.nodes_mut().extend(nodes.iter().map(node_into));
    document.autoformat();
    document.to_string()
}

/// A node as a `kdl::KdlNode`, part by part; the places are left out.
#[verifier::external_body]
fn node_into(node: &Node) -> ::kdl::KdlNode {
    let mut n = ::kdl::KdlNode::new(node.name.as_str());
    if let Some(ty) = &node.ty {
        n.set_ty(ty.as_str());
    }
    n.entries_mut().extend(node.entries.iter().map(entry_into));
    if let Some(children) = &node.children {
        let mut document = ::kdl::KdlDocument::new();
        document.nodes_mut().extend(children.iter().map(node_into));
        n.set_children(document);
    }
    if let Some(leading) = &node.leading {
        n.set_format(::kdl::KdlNodeFormat { leading: leading.clone(), ..Default::default() });
    }
    n
}

/// An entry as a `kdl::KdlEntry`, variant by variant; a floating point number, which
/// `render_kdl` never gets, has no value here and is written as null.
#[verifier::external_body]
fn entry_into(entry: &Entry) -> ::kdl::KdlEntry {
    let value = match &entry.value {
        Value::String(s) => ::kdl::KdlValue::String(s.clone()),
        Value::Integer(i) => ::kdl::KdlValue::Integer(*i),
        Value::Bool(b) => ::kdl::KdlValue::Bool(*b),
        Value::Float | Value::Null => ::kdl::KdlValue::Null,
    };
    match &entry.name {
        Some(name) => ::kdl::KdlEntry::new_prop(name.as_str(), value),
        None => ::kdl::KdlEntry::new(value),
    }
}

/// What `kdl::KdlDocument::parse` makes of a text: the nodes of the document, or the
/// diagnostics of why it is no KDL document.
pub uninterp spec fn kdl_parsed(source: Seq<char>) -> Result<Seq<Node>, Seq<DiagnosticV>>;

/// Parses the text with `kdl::KdlDocument::parse` and gives the top-level nodes of the
/// document as plain values, or the parser's diagnostics. The result is a function of
/// the text alone, named `kdl_parsed`; nothing more of it is stated.
#[verifier::external_body]
pub(crate) fn parse_kdl(source: &str) -> (res: Result<Vec<Node>, Vec<Diagnostic>>)
    ensures
        match res {
            Ok(nodes) => kdl_parsed(source@) == Ok::<Seq<Node>, Seq<DiagnosticV>>(nodes@),
            Err(diagnostics) => kdl_parsed(source@) == Err::<Seq<Node>, Seq<DiagnosticV>>(
                reports_view(diagnostics@),
            ),
        },
{
    match ::kdl::KdlDocument::parse(source) {
        Ok(document) => Ok(document.nodes().iter().map(node_from).collect()),
        Err(error) => Err(error.diagnostics.iter().map(diagnostic_from).collect()),
    }
}

/// The node type of the `kdl` crate, handed to the conversion below.
#[verifier::external_type_specification]
#[verifier::external_body]
pub struct ExKdlNode(::kdl::KdlNode);

/// The entry type of the `kdl` crate, handed to the conversion below.
#[verifier::external_type_specification]
#[verifier::external_body]
pub struct ExKdlEntry(::kdl::KdlEntry);

/// The diagnostic type of the `kdl` crate, handed to the conversion below.
#[verifier::external_type_specification]
#[verifier::external_body]
pub struct ExKdlDiagnostic(::kdl::KdlDiagnostic);

/// A `kdl::KdlNode` as plain values, field by field.
#[verifier::external_body]
fn node_from(node: &::kdl::KdlNode) -> Node {
    let (name_span, span) = (node.name().span(), node.span());
    Node {
        name: node.name().value().to_string(),
        ty: node.ty().map(|ty| ty.value().to_string()),
        name_span: Span { offset: name_span.offset(), len: name_span.len() },
        span: Span { offset: span.offset(), len: span.len() },
        entries: node.entries().iter().map(entry_from).collect(),
        children: node.children().map(|document| document.nodes().iter().map(node_from).collect()),
        leading: node.format().map(|format| format.leading.clone()),
    }
}

/// A `kdl::KdlEntry` as plain values, field by field and variant by variant.
#[verifier::external_body]
fn entry_from(entry: &::kdl::KdlEntry) -> Entry {
    let value = match entry.value() {
        ::kdl::KdlValue::String(s) => Value::String(s.clone()),
        ::kdl::KdlValue::Integer(i) => Value::Integer(*i),
        ::kdl::KdlValue::Float(_) => Value::Float,
        ::kdl::KdlValue::Bool(b) => Value::Bool(*b),
        ::kdl::KdlValue::Null => Value::Null,
    };
    let span = entry.span();
    Entry {
        name: entry.name().map(|name| name.value().to_string()),
        value,
        span: Span { offset: span.offset(), len: span.len() },
    }
}

/// A `kdl::KdlDiagnostic` as a diagnostic of this library, field by field.
#[verifier::external_body]
fn diagnostic_from(diagnostic: &::kdl::KdlDiagnostic) -> Diagnostic {
    Diagnostic::Parse {
        span: Span { offset: diagnostic.span.offset(), len: diagnostic.span.len() },
        message: diagnostic.message.clone(),
        label: diagnostic.label.clone(),
        help: diagnostic.help.clone(),
        severity: match diagnostic.severity {
            ::miette::Severity::Advice => Severity::Advice,
            ::miette::Severity::Warning => Severity::Warning,
            ::miette::Severity::Error => Severity::Error,
        },
    }
}

} // verus!
