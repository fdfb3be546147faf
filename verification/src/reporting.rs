//! The diagnostics that reading a device description gives: what is wrong or odd in
//! the source, with the places in the source that they point at.

use vstd::prelude::*;

verus! {

/// A place in the source: an offset and a length, both counted in bytes.
#[derive(Debug, Clone, Copy, PartialEq, Eq, Structural)]
pub struct Span {
    pub offset: usize,
    pub len: usize,
}

/// How grave a diagnostic is.
#[derive(Debug, Clone, Copy, PartialEq, Eq, Structural)]
pub enum Severity {
    Advice,
    Warning,
    Error,
}

/// A fixed list of names that a diagnostic says were expected.
#[derive(Debug, Clone, Copy, PartialEq, Eq, Structural)]
pub enum ExpectedList {
    /// The node that a device description is made of.
    Device,
    /// The nodes that a device may hold: its settings and its objects.
    DeviceContent,
    /// The nodes that a register may hold.
    RegisterContent,
    /// The entries of a field set's size.
    SizeBits,
    /// Both entries of a repeat.
    CountAndStride,
    /// The count entry of a repeat.
    Count,
    /// The stride entry of a repeat.
    Stride,
    /// An integer entry.
    Integer,
    /// A string entry.
    String,
    /// The names of the access kinds.
    AccessNames,
    /// The names of the byte orders.
    ByteOrderNames,
    /// The names of the bit orders.
    BitOrderNames,
    /// The names of the integer types.
    IntegerNames,
}

/// The names in the list.
pub open spec fn expected_names(list: ExpectedList) -> Seq<Seq<char>> {
    match list {
        ExpectedList::Device => seq!["device"@],
        ExpectedList::DeviceContent => seq![
            "default-register-access"@,
            "default-field-access"@,
            "default-buffer-access"@,
            "default-byte-order"@,
            "default-bit-order"@,
            "register-address-type"@,
            "command-address-type"@,
            "buffer-address-type"@,
            "name-word-boundaries"@,
            "defmt-feature"@,
            "block"@,
            "register"@,
            "command"@,
            "buffer"@,
            "ref"@,
        ],
        ExpectedList::RegisterContent => seq![
            "cfg"@,
            "access"@,
            "allow-address-overlap"@,
            "address"@,
            "reset-value"@,
            "repeat"@,
            "fields"@,
        ],
        ExpectedList::SizeBits => seq!["size-bits"@],
        ExpectedList::CountAndStride => seq!["count=<integer>"@, "stride=<integer>"@],
        ExpectedList::Count => seq!["count=<integer>"@],
        ExpectedList::Stride => seq!["stride=<integer>"@],
        ExpectedList::Integer => seq!["integer"@],
        ExpectedList::String => seq!["string"@],
        ExpectedList::AccessNames => seq!["RW"@, "RO"@, "WO"@],
        ExpectedList::ByteOrderNames => seq!["LE"@, "BE"@],
        ExpectedList::BitOrderNames => seq!["LSB0"@, "MSB0"@],
        ExpectedList::IntegerNames => seq!["u8"@, "u16"@, "u32"@, "i8"@, "i16"@, "i32"@, "i64"@],
    }
}

impl ExpectedList {
    /// The names in the list, in order.
    pub fn names(&self) -> (res: Vec<&'static str>)
        ensures
            res@.map_values(|s: &str| s@) == expected_names(*self),
    {
        let res: Vec<&'static str> = match self {
            ExpectedList::Device => vec!["device"],
            ExpectedList::DeviceContent => vec![
                "default-register-access",
                "default-field-access",
                "default-buffer-access",
                "default-byte-order",
                "default-bit-order",
                "register-address-type",
                "command-address-type",
                "buffer-address-type",
                "name-word-boundaries",
                "defmt-feature",
                "block",
                "register",
                "command",
                "buffer",
                "ref",
            ],
            ExpectedList::RegisterContent => vec![
                "cfg",
                "access",
                "allow-address-overlap",
                "address",
                "reset-value",
                "repeat",
                "fields",
            ],
            ExpectedList::SizeBits => vec!["size-bits"],
            ExpectedList::CountAndStride => vec!["count=<integer>", "stride=<integer>"],
            ExpectedList::Count => vec!["count=<integer>"],
            ExpectedList::Stride => vec!["stride=<integer>"],
            ExpectedList::Integer => vec!["integer"],
            ExpectedList::String => vec!["string"],
            ExpectedList::AccessNames => vec!["RW", "RO", "WO"],
            ExpectedList::ByteOrderNames => vec!["LE", "BE"],
            ExpectedList::BitOrderNames => vec!["LSB0", "MSB0"],
            ExpectedList::IntegerNames => vec!["u8", "u16", "u32", "i8", "i16", "i32", "i64"],
        };
        proof {
            assert(res@.map_values(|s: &str| s@) =~= expected_names(*self));
        }
        res
    }
}

/// Something wrong or odd in a device description.
#[derive(Debug, Clone, PartialEq, Eq)]
pub enum Diagnostic {
    /// The text is not a KDL document.
    Parse {
        span: Span,
        message: Option<String>,
        label: Option<String>,
        help: Option<String>,
        severity: Severity,
    },
    /// An object has no name: its first entry is missing or is no string.
    MissingObjectName { object_keyword: Span, found_instead: Option<Span>, object_type: String },
    /// Entries that the node doesn't take.
    UnexpectedEntries {
        superfluous_entries: Vec<Span>,
        unexpected_name_entries: Vec<Span>,
        not_anonymous_entries: Vec<Span>,
        unexpected_anonymous_entries: Vec<Span>,
    },
    /// A node with a name that isn't expected where it stands.
    UnexpectedNode { node_name: Span, expected_names: ExpectedList },
    /// A value that isn't one of the expected ones.
    UnexpectedValue { value_name: Span, expected_values: ExpectedList },
    /// A node lacks an entry that it needs.
    MissingEntry { node_name: Span, expected_entries: ExpectedList },
    /// A node that may appear once appears again.
    DuplicateNode { duplicate: Span, original: Span },
    /// An entry that may appear once appears again.
    DuplicateEntry { duplicate: Span, original: Span },
    /// A node that should hold other nodes holds none.
    EmptyNode { node: Span },
    /// A node lacks a child node that it needs.
    MissingChildNode { node: Span, node_type: Option<&'static str>, missing_node_type: &'static str },
    /// A number that doesn't fit where it goes.
    ValueOutOfRange { value: Span, context: Option<&'static str>, range: &'static str },
    /// A value of another type than the expected one.
    UnexpectedType { value_name: Span, expected_type: &'static str },
    /// A message without a place.
    Message(String),
}

/// A diagnostic as a mathematical value.
pub ghost enum DiagnosticV {
    Parse {
        span: Span,
        message: Option<Seq<char>>,
        label: Option<Seq<char>>,
        help: Option<Seq<char>>,
        severity: Severity,
    },
    MissingObjectName { object_keyword: Span, found_instead: Option<Span>, object_type: Seq<char> },
    UnexpectedEntries {
        superfluous_entries: Seq<Span>,
        unexpected_name_entries: Seq<Span>,
        not_anonymous_entries: Seq<Span>,
        unexpected_anonymous_entries: Seq<Span>,
    },
    UnexpectedNode { node_name: Span, expected_names: ExpectedList },
    UnexpectedValue { value_name: Span, expected_values: ExpectedList },
    MissingEntry { node_name: Span, expected_entries: ExpectedList },
    DuplicateNode { duplicate: Span, original: Span },
    DuplicateEntry { duplicate: Span, original: Span },
    EmptyNode { node: Span },
    MissingChildNode { node: Span, node_type: Option<Seq<char>>, missing_node_type: Seq<char> },
    ValueOutOfRange { value: Span, context: Option<Seq<char>>, range: Seq<char> },
    UnexpectedType { value_name: Span, expected_type: Seq<char> },
    Message(Seq<char>),
}

/// The view of an optional text.
pub open spec fn text_view(s: Option<String>) -> Option<Seq<char>> {
    match s {
        Some(t) => Some(t@),
        None => None,
    }
}

/// The view of an optional fixed text.
pub open spec fn str_view(s: Option<&str>) -> Option<Seq<char>> {
    match s {
        Some(t) => Some(t@),
        None => None,
    }
}

impl View for Diagnostic {
    type V = DiagnosticV;

    open spec fn view(&self) -> DiagnosticV {
        match self {
            Diagnostic::Parse { span, message, label, help, severity } => DiagnosticV::Parse {
                span: *span,
                message: text_view(*message),
                label: text_view(*label),
                help: text_view(*help),
                severity: *severity,
            },
            Diagnostic::MissingObjectName { object_keyword, found_instead, object_type } =>
                DiagnosticV::MissingObjectName {
                object_keyword: *object_keyword,
                found_instead: *found_instead,
                object_type: object_type@,
            },
            Diagnostic::UnexpectedEntries {
                superfluous_entries,
                unexpected_name_entries,
                not_anonymous_entries,
                unexpected_anonymous_entries,
            } => DiagnosticV::UnexpectedEntries {
                superfluous_entries: superfluous_entries@,
                unexpected_name_entries: unexpected_name_entries@,
                not_anonymous_entries: not_anonymous_entries@,
                unexpected_anonymous_entries: unexpected_anonymous_entries@,
            },
            Diagnostic::UnexpectedNode { node_name, expected_names } => DiagnosticV::UnexpectedNode {
                node_name: *node_name,
                expected_names: *expected_names,
            },
            Diagnostic::UnexpectedValue { value_name, expected_values } =>
                DiagnosticV::UnexpectedValue {
                value_name: *value_name,
                expected_values: *expected_values,
            },
            Diagnostic::MissingEntry { node_name, expected_entries } => DiagnosticV::MissingEntry {
                node_name: *node_name,
                expected_entries: *expected_entries,
            },
            Diagnostic::DuplicateNode { duplicate, original } => DiagnosticV::DuplicateNode {
                duplicate: *duplicate,
                original: *original,
            },
            Diagnostic::DuplicateEntry { duplicate, original } => DiagnosticV::DuplicateEntry {
                duplicate: *duplicate,
                original: *original,
            },
            Diagnostic::EmptyNode { node } => DiagnosticV::EmptyNode { node: *node },
            Diagnostic::MissingChildNode { node, node_type, missing_node_type } =>
                DiagnosticV::MissingChildNode {
                node: *node,
                node_type: str_view(*node_type),
                missing_node_type: missing_node_type@,
            },
            Diagnostic::ValueOutOfRange { value, context, range } => DiagnosticV::ValueOutOfRange {
                value: *value,
                context: str_view(*context),
                range: range@,
            },
            Diagnostic::UnexpectedType { value_name, expected_type } =>
                DiagnosticV::UnexpectedType { value_name: *value_name, expected_type: expected_type@ },
            Diagnostic::Message(m) => DiagnosticV::Message(m@),
        }
    }
}

impl Diagnostic {
    /// How grave the diagnostic is: an empty node is a warning, a parse diagnostic has
    /// its own severity, and everything else is an error.
    pub fn severity(&self) -> (res: Severity)
        ensures
            res == match self@ {
                DiagnosticV::Parse { severity, .. } => severity,
                DiagnosticV::EmptyNode { .. } => Severity::Warning,
                _ => Severity::Error,
            },
    {
        match self {
            Diagnostic::Parse { severity, .. } => *severity,
            Diagnostic::EmptyNode { .. } => Severity::Warning,
            _ => Severity::Error,
        }
    }
}

/// The diagnostics gathered so far, in the order they were found.
pub struct Diagnostics {
    pub reports: Vec<Diagnostic>,
}

/// The views of the diagnostics.
pub open spec fn reports_view(reports: Seq<Diagnostic>) -> Seq<DiagnosticV> {
    reports.map_values(|d: Diagnostic| d@)
}

impl View for Diagnostics {
    type V = Seq<DiagnosticV>;

    open spec fn view(&self) -> Seq<DiagnosticV> {
        reports_view(self.reports@)
    }
}

/// Whether any of the diagnostics is an error.
pub open spec fn any_error(reports: Seq<DiagnosticV>) -> bool {
    exists|i: int|
        0 <= i < reports.len() && match #[trigger] reports[i] {
            DiagnosticV::Parse { severity, .. } => severity == Severity::Error,
            DiagnosticV::EmptyNode { .. } => false,
            _ => true,
        }
}

impl Diagnostics {
    /// No diagnostics.
    pub fn new() -> (res: Self)
        ensures
            res@ == Seq::<DiagnosticV>::empty(),
    {
        let res = Diagnostics { reports: Vec::new() };
        proof {
            assert(res@ =~= Seq::<DiagnosticV>::empty());
        }
        res
    }

    /// Adds a diagnostic after the others.
    pub fn add(&mut self, diagnostic: Diagnostic)
        ensures
            final(self)@ == old(self)@.push(diagnostic@),
    {
        self.reports.push(diagnostic);
        proof {
            assert(reports_view(self.reports@) =~= reports_view(old(self).reports@).push(
                diagnostic@,
            ));
        }
    }

    /// Adds a message without a place after the others.
    pub fn add_msg(&mut self, message: String)
        ensures
            final(self)@ == old(self)@.push(DiagnosticV::Message(message@)),
    {
        self.add(Diagnostic::Message(message));
    }

    /// Whether any of the diagnostics is an error.
    pub fn has_error(&self) -> (res: bool)
        ensures
            res == any_error(self@),
    {
        let mut i: usize = 0;
        while i < self.reports.len()
            invariant
                i <= self.reports@.len(),
                forall|j: int|
                    0 <= j < i ==> match #[trigger] self@[j] {
                        DiagnosticV::Parse { severity, .. } => severity != Severity::Error,
                        DiagnosticV::EmptyNode { .. } => true,
                        _ => false,
                    },
            decreases self.reports@.len() - i,
        {
            if self.reports[i].severity() == Severity::Error {
                proof {
                    assert(self@[i as int] == self.reports@[i as int]@);
                }
                return true;
            }
            proof {
                assert(self@[i as int] == self.reports@[i as int]@);
            }
            i = i + 1;
        }
        false
    }
}

} // verus!
