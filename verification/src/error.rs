//! The errors the checks and conversions of a device description can report.

use vstd::prelude::*;

use crate::passes::refs::RefKind;
use crate::text::{decimal, decimal_string};

verus! {

/// What a ref's override holds that an override may not hold.
#[derive(Debug, Clone, Copy, PartialEq, Eq, Structural)]
pub enum OverrideProblem {
    BlockAttributes,
    BlockObjects,
    RegisterAttributes,
    RegisterFields,
    RegisterByteOrder,
    RegisterBitOrder,
    RegisterSizeBits,
    CommandAttributes,
    CommandInFields,
    CommandOutFields,
    CommandByteOrder,
    CommandBitOrder,
    CommandSizeBitsIn,
    CommandSizeBitsOut,
    CommandBasicValue,
    CommandNoValue,
}

/// The message about what an override may not hold.
pub open spec fn override_problem_text(p: OverrideProblem) -> Seq<char> {
    match p {
        OverrideProblem::BlockAttributes => "No attributes (cfg or doc) are allowed on block overrides"@,
        OverrideProblem::BlockObjects => "No objects may be defined on block overrides"@,
        OverrideProblem::RegisterAttributes => "No attributes (cfg or doc) are allowed on register overrides"@,
        OverrideProblem::RegisterFields => "No fields are allowed on register overrides"@,
        OverrideProblem::RegisterByteOrder => "No ByteOrder is allowed on register overrides"@,
        OverrideProblem::RegisterBitOrder => "No BitOrder is allowed on register overrides"@,
        OverrideProblem::RegisterSizeBits => "No SizeBits is allowed on register overrides"@,
        OverrideProblem::CommandAttributes => "No attributes (cfg or doc) are allowed on command overrides"@,
        OverrideProblem::CommandInFields => "No `in` field list is allowed on command overrides"@,
        OverrideProblem::CommandOutFields => "No `out` field list is allowed on command overrides"@,
        OverrideProblem::CommandByteOrder => "No byte order is allowed on command overrides"@,
        OverrideProblem::CommandBitOrder => "No bit order is allowed on command overrides"@,
        OverrideProblem::CommandSizeBitsIn => "No size bits in is allowed on command overrides"@,
        OverrideProblem::CommandSizeBitsOut => "No size bits out is allowed on command overrides"@,
        OverrideProblem::CommandBasicValue => "No basic address specifier is allowed on command overrides. Use the extended syntax with `{ }` instead"@,
        OverrideProblem::CommandNoValue => "A value is required on command overrides"@,
    }
}

/// The message about what an override may not hold.
pub fn override_problem_message(p: OverrideProblem) -> (res: &'static str)
    ensures
        res@ == override_problem_text(p),
{
    match p {
        OverrideProblem::BlockAttributes => "No attributes (cfg or doc) are allowed on block overrides",
        OverrideProblem::BlockObjects => "No objects may be defined on block overrides",
        OverrideProblem::RegisterAttributes => "No attributes (cfg or doc) are allowed on register overrides",
        OverrideProblem::RegisterFields => "No fields are allowed on register overrides",
        OverrideProblem::RegisterByteOrder => "No ByteOrder is allowed on register overrides",
        OverrideProblem::RegisterBitOrder => "No BitOrder is allowed on register overrides",
        OverrideProblem::RegisterSizeBits => "No SizeBits is allowed on register overrides",
        OverrideProblem::CommandAttributes => "No attributes (cfg or doc) are allowed on command overrides",
        OverrideProblem::CommandInFields => "No `in` field list is allowed on command overrides",
        OverrideProblem::CommandOutFields => "No `out` field list is allowed on command overrides",
        OverrideProblem::CommandByteOrder => "No byte order is allowed on command overrides",
        OverrideProblem::CommandBitOrder => "No bit order is allowed on command overrides",
        OverrideProblem::CommandSizeBitsIn => "No size bits in is allowed on command overrides",
        OverrideProblem::CommandSizeBitsOut => "No size bits out is allowed on command overrides",
        OverrideProblem::CommandBasicValue => "No basic address specifier is allowed on command overrides. Use the extended syntax with `{ }` instead",
        OverrideProblem::CommandNoValue => "A value is required on command overrides",
    }
}

/// An error found in a device description.
#[derive(Debug, Clone, PartialEq, Eq)]
pub enum Error {
    /// A reset value has a bit set at or above the size of its object.
    ResetValueTooBig { object_type_name: String, object_name: String, size_bits: u32 },
    /// A reset value given as bytes has another number of bytes than its object needs.
    ResetValueWrongLength {
        object_type_name: String,
        object_name: String,
        expected_bytes: u32,
        actual_bytes: usize,
    },
    /// A field reaches past the size of its field set.
    FieldExceedsSize { object_name: String, field_name: String },
    /// A field has no bits.
    FieldZeroBits { object_name: String, field_name: String },
    /// Two fields of a field set that may not overlap share bits.
    FieldsOverlap { object_name: String, field_name: String, other_field_name: String },
    /// A bool field has more than one bit.
    BoolFieldTooLarge { object_name: String, field_name: String },
    /// A bool field has a conversion.
    BoolFieldWithConversion { object_name: String, field_name: String },
    /// A field set bigger than a byte has no byte order.
    NoByteOrder { object_type_name: String, object_name: String },
    /// A ref names a block, register or command that doesn't exist.
    UnknownRefTarget { kind: RefKind, ref_name: String, target_name: String },
    /// Two objects, or an object and the device or a generated enum, have the same identity.
    DuplicateObjectName { object_name: String },
    /// Two fields of a field set have the same name.
    DuplicateFieldName { field_set_name: String, field_name: String },
    /// Two generated enums, or an enum and an object, have the same identity.
    DuplicateEnumName { enum_name: String, field_set_name: String, field_name: String },
    /// Two variants of a generated enum have the same identity.
    DuplicateEnumVariant {
        variant_name: String,
        enum_name: String,
        field_set_name: String,
        field_name: String,
    },
    /// An enum has no size and its base type does not give one.
    EnumUnknownSize { enum_name: String },
    /// An enum has no variants.
    EnumNoVariants { enum_name: String },
    /// Variants of an enum get the same value and identity.
    EnumDuplicateValues { enum_name: String, duplicates: Vec<String> },
    /// A variant of an enum gets a value that does not fit in its size.
    EnumVariantTooHigh { enum_name: String, variant: String, value: i128, max: i128 },
    /// An enum has more than one default variant.
    EnumMultipleDefaults { enum_name: String },
    /// An enum has more than one catch-all variant.
    EnumMultipleCatchAlls { enum_name: String },
    /// An enum has a bool base type.
    EnumBoolBaseType { enum_name: String },
    /// An enum with an unsigned base type has a negative variant.
    EnumUintNegative { enum_name: String },
    /// The values of an enum with an unsigned base type fit in no unsigned type.
    EnumUintNoFit { enum_name: String, min: i128, max: i128 },
    /// The values of an enum with a signed base type fit in no signed type.
    EnumIntNoFit { enum_name: String, min: i128, max: i128 },
    /// Two objects of one kind claim the same address, and not both allow it.
    AddressesOverlap { name0: String, name1: String, address: i64 },
    /// Reset data for a register has more bytes than the register, or another number of
    /// bytes when its length is fixed.
    ResetDataWrongLength { register_name: String, actual_bytes: usize, expected_bytes: usize },
    /// The element type of a reset value array written in the register macro is not `u8`.
    ResetValueNotU8Array,
    /// A reset value array written in the register macro has another number of elements
    /// than its type says.
    ResetValueArraySize { elements: usize },
    /// An element of a reset value array written in the register macro is no integer
    /// literal.
    ResetValueNotU8Literal,
    /// An integer literal doesn't fit in the type it is read as.
    LiteralTooLarge,
    /// The integer type of a reset value written in the register macro is no unsigned type.
    ResetValueNotUnsigned,
    /// A reset value written in the register macro has a type that isn't supported.
    ResetValueUnsupportedType,
    /// An item written in the device description macro has more than one condition.
    MultipleCfg { count: usize },
    /// A register written in the device description macro has no address.
    RegisterWithoutAddress { register_name: String },
    /// A field written in the device description macro that isn't a bool gives only its
    /// first bit.
    FieldWithoutEnd { field_name: String },
    /// A command written in the device description macro has no value.
    CommandWithoutValue { command_name: String },
    /// A command written in the device description macro has no address.
    CommandWithoutAddress { command_name: String },
    /// A setting of the device description macro is written more than once; the text
    /// shows the first one.
    DuplicateGlobalConfig { config: String },
    /// An address type written in the device description macro is no integer type.
    NotAnIntegerType,
    /// A buffer written in the device description macro has no address.
    BufferWithoutAddress { buffer_name: String },
    /// A ref written in the device description macro refers to a buffer.
    RefToBuffer { ref_name: String },
    /// A ref written in the device description macro refers to another ref.
    RefToRef { ref_name: String },
    /// An override of a ref holds what it may not hold.
    InvalidOverride { problem: OverrideProblem },
}


/// How a character stands in the debug text of a string.
pub open spec fn escaped_char(c: char) -> Seq<char> {
    if c == '"' {
        seq!['\\', '"']
    } else if c == '\\' {
        seq!['\\', '\\']
    } else if c == '\n' {
        seq!['\\', 'n']
    } else if c == '\r' {
        seq!['\\', 'r']
    } else if c == '\t' {
        seq!['\\', 't']
    } else if c == '\0' {
        seq!['\\', '0']
    } else {
        seq![c]
    }
}

/// The characters of the text with quotes, backslashes, line breaks, tabs and nul
/// characters escaped.
pub open spec fn escaped(s: Seq<char>) -> Seq<char>
    decreases s.len(),
{
    if s.len() == 0 {
        Seq::empty()
    } else {
        escaped(s.drop_last()) + escaped_char(s.last())
    }
}

/// The texts in square brackets, each in quotes, separated by `, `.
pub open spec fn quoted_list(items: Seq<Seq<char>>) -> Seq<char> {
    "["@ + quoted_items(items) + "]"@
}

/// The texts, each in quotes, separated by `, `.
pub open spec fn quoted_items(items: Seq<Seq<char>>) -> Seq<char>
    decreases items.len(),
{
    if items.len() == 0 {
        Seq::empty()
    } else if items.len() == 1 {
        "\""@ + escaped(items[0]) + "\""@
    } else {
        quoted_items(items.drop_last()) + ", \""@ + escaped(items.last()) + "\""@
    }
}

/// The message of the error.
pub open spec fn message_text(e: Error) -> Seq<char> {
    match e {
        Error::ResetValueTooBig { object_type_name, object_name, size_bits } => "The reset value of "@
            + object_type_name@ + " `"@ + object_name@
            + "` has (a) bit(s) specified above the size of the register. While you can specify them, this is likely a mistake and thus not accepted. Keep the bits `"@
            + decimal(size_bits as int) + "..` all at zero"@,
        Error::ResetValueWrongLength {
            object_type_name,
            object_name,
            expected_bytes,
            actual_bytes,
        } => "The reset value of "@ + object_type_name@ + " `"@ + object_name@
            + "` has the incorrect length. It must be specified as "@ + decimal(
            expected_bytes as int,
        ) + " bytes, but now only has "@ + decimal(actual_bytes as int) + " elements"@,
        Error::FieldExceedsSize { object_name, field_name } => "Object `"@ + object_name@
            + "` has field `"@ + field_name@ + "` who's address exceeds the given max size bits"@,
        Error::FieldZeroBits { object_name, field_name } => "Object `"@ + object_name@
            + "` has field `"@ + field_name@ + "` that is 0 bits. This is likely a mistake"@,
        Error::FieldsOverlap { object_name, field_name, other_field_name } => "Object `"@
            + object_name@ + "` has two overlapping fields: `"@ + field_name@ + "` and `"@
            + other_field_name@
            + "`. If this is intended, set the `AllowBitOverlap` option to true"@,
        Error::BoolFieldTooLarge { object_name, field_name } => "Object \""@ + object_name@
            + "\" has field \""@ + field_name@
            + "\" which is of base type `bool` and is larger than 1 bit. A bool can only be zero or one bit."@,
        Error::BoolFieldWithConversion { object_name, field_name } => "Object \""@
            + object_name@ + "\" has field \""@ + field_name@
            + "\" which is of base type `bool` and has specified a conversion. This is not supported for bools."@,
        Error::NoByteOrder { object_type_name, object_name } => "No byte order is specified for "@
            + object_type_name@ + " `"@ + object_name@
            + "` while it's big enough that byte order is important. Specify it on the "@
            + object_type_name@ + " or in the global config"@,
        Error::UnknownRefTarget { kind, ref_name, target_name } => match kind {
            RefKind::Block => "Block ref `"@ + ref_name@ + "` refers to unknown block `"@
                + target_name@ + "`"@,
            RefKind::Register => "Register ref `"@ + ref_name@ + "` refers to unknown register `"@
                + target_name@ + "`"@,
            RefKind::Command => "Command ref `"@ + ref_name@ + "` refers to unknown command `"@
                + target_name@ + "`"@,
        },
        Error::DuplicateObjectName { object_name } => "Duplicate object name found: `"@
            + object_name@ + "`"@,
        Error::DuplicateFieldName { field_set_name, field_name } =>
            "Duplicate field name found in fieldset `"@ + field_set_name@ + "`: `"@ + field_name@
            + "`"@,
        Error::DuplicateEnumName { enum_name, field_set_name, field_name } =>
            "Duplicate generated enum name `"@ + enum_name@ + "` found in fieldset `"@
            + field_set_name@ + "` on field `"@ + field_name@ + "`"@,
        Error::DuplicateEnumVariant { variant_name, enum_name, field_set_name, field_name } =>
            "Duplicate field `"@ + variant_name@ + "` found in generated enum `"@ + enum_name@
            + "` in fieldset `"@ + field_set_name@ + "` on field `"@ + field_name@ + "`"@,
        Error::EnumUnknownSize { enum_name } => "Enum `"@ + enum_name@
            + "` has an unknown size-bits. Either specify a fixed integer or bool as the base type or specify the size-bits directly"@,
        Error::EnumNoVariants { enum_name } => "Enum `"@ + enum_name@
            + "` has no variants which is not allowed. Add at least one variant"@,
        Error::EnumDuplicateValues { enum_name, duplicates } =>
            "Duplicated assigned value(s) for enum `"@ + enum_name@ + "`: "@ + quoted_list(
            duplicates@.map_values(|d: String| d@),
        ),
        Error::EnumVariantTooHigh { enum_name, variant, value, max } =>
            "The value of variant `"@ + variant@ + "` is too high for enum `"@ + enum_name@
            + "`: "@ + decimal(value as int) + " (max = "@ + decimal(max as int) + ")"@,
        Error::EnumMultipleDefaults { enum_name } => "More than one default defined on enum `"@
            + enum_name@ + "`"@,
        Error::EnumMultipleCatchAlls { enum_name } => "More than one catch all defined on enum `"@
            + enum_name@ + "`"@,
        Error::EnumBoolBaseType { enum_name } => "Enum `"@ + enum_name@
            + "` has a bool base type. Only integers are supported"@,
        Error::EnumUintNegative { enum_name } => "Enum `"@ + enum_name@
            + "` has a uint base type, but also has a negative variant"@,
        Error::EnumUintNoFit { enum_name, min, max } => "Enum `"@ + enum_name@
            + "` has a variant that doesn't fit in any of the supported unsigned integer types. Min: "@
            + decimal(min as int) + ", max: "@ + decimal(max as int),
        Error::EnumIntNoFit { enum_name, min, max } => "Enum `"@ + enum_name@
            + "` has a variant that doesn't fit in any of the supported signed integer types. Min: "@
            + decimal(min as int) + ", max: "@ + decimal(max as int),
        Error::AddressesOverlap { name0, name1, address } => "Objects \""@ + name0@
            + "\" and \""@ + name1@ + "\" use the same address ("@ + decimal(address as int)
            + "). If this is intended, then allow address overlap on both objects."@,
        Error::ResetDataWrongLength { register_name, actual_bytes, expected_bytes } =>
            "Reset value of register `"@ + register_name@ + "` has the wrong length ("@ + decimal(
            actual_bytes as int,
        ) + " bytes): Must be "@ + decimal(expected_bytes as int) + " bytes"@,
        Error::ResetValueNotU8Array => "Must be a u8 array"@,
        Error::ResetValueArraySize { elements } => "Size of array ("@ + decimal(elements as int)
            + ") does not correspond with the array type"@,
        Error::ResetValueNotU8Literal => "Must be a u8 literal"@,
        Error::LiteralTooLarge => "number too large to fit in target type"@,
        Error::ResetValueNotUnsigned => "Must be a u8, u16, u32, u64 or u128"@,
        Error::ResetValueUnsupportedType =>
            "Unsupported reset value type. Use `[u8; N]`, `[u8]` or an unsigned integer like `u16`"@,
        Error::MultipleCfg { count } => "Only one cfg attribute is allowed, but "@ + decimal(count as int)
            + " are found"@,
        Error::RegisterWithoutAddress { register_name } => "Register `"@ + register_name@
            + "` must have an address"@,
        Error::FieldWithoutEnd { field_name } => "Field `"@ + field_name@
            + "` has a non-bool base type and must specify the start and the end address"@,
        Error::CommandWithoutValue { command_name } => "Command `"@ + command_name@
            + "` must have a value"@,
        Error::CommandWithoutAddress { command_name } => "Command `"@ + command_name@
            + "` must have an address"@,
        Error::DuplicateGlobalConfig { config } => "Duplicate global config found: `"@ + config@ + "`"@,
        Error::NotAnIntegerType => "Must be an integer type"@,
        Error::BufferWithoutAddress { buffer_name } => "Buffer `"@ + buffer_name@
            + "` must have an address"@,
        Error::RefToBuffer { ref_name } => "Ref `"@ + ref_name@ + "` cannot ref a buffer"@,
        Error::RefToRef { ref_name } => "Ref `"@ + ref_name@ + "` cannot ref another ref object"@,
        Error::InvalidOverride { problem } => override_problem_text(problem),
    }
}

/// A text that is built up piece by piece.
struct Text {
    s: String,
}

impl Text {
    fn new(start: &str) -> (res: Self)
        ensures
            res.s@ == start@,
    {
        Text { s: String::from_str(start) }
    }

    fn add(&mut self, piece: &str)
        ensures
            final(self).s@ == old(self).s@ + piece@,
    {
        self.s.append(piece);
    }

    fn add_number(&mut self, v: i128)
        ensures
            final(self).s@ == old(self).s@ + decimal(v as int),
    {
        let digits = decimal_string(v);
        self.s.append(digits.as_str());
    }
}

fn escape_into(t: &mut Text, piece: &str)
    ensures
        final(t).s@ == old(t).s@ + escaped(piece@),
{
    let owned = piece.to_owned();
    let ghost v = owned@;
    let n = owned.as_str().unicode_len();
    let mut i: usize = 0;
    proof {
        assert(v.take(0) =~= Seq::<char>::empty());
    }
    while i < n
        invariant
            n == v.len(),
            v == owned@,
            v == piece@,
            i <= n,
            t.s@ == old(t).s@ + escaped(v.take(i as int)),
        decreases n - i,
    {
        let c = owned.as_str().get_char(i);
        let ghost before = t.s@;
        if c == '"' {
            t.add("\\\"");
        } else if c == '\\' {
            t.add("\\\\");
        } else if c == '\n' {
            t.add("\\n");
        } else if c == '\r' {
            t.add("\\r");
        } else if c == '\t' {
            t.add("\\t");
        } else if c == '\0' {
            t.add("\\0");
        } else {
            let one = owned.as_str().substring_char(i, i + 1);
            proof {
                assert(one@ =~= seq![c]);
            }
            t.add(one);
        }
        proof {
            reveal_strlit("\\\"");
            reveal_strlit("\\\\");
            reveal_strlit("\\n");
            reveal_strlit("\\r");
            reveal_strlit("\\t");
            reveal_strlit("\\0");
            let next = v.take(i + 1);
            assert(next.drop_last() =~= v.take(i as int));
            assert(next.last() == c);
            assert(t.s@ =~= old(t).s@ + escaped(v.take(i + 1)));
        }
        i = i + 1;
    }
    proof {
        assert(v.take(n as int) =~= v);
    }
}

/// The text with quotes, backslashes and control characters escaped as in a Rust string
/// literal.
pub(crate) fn escape_text(piece: &str) -> (res: String)
    ensures
        res@ == escaped(piece@),
{
    let mut t = Text::new("");
    proof {
        reveal_strlit("");
        assert(t.s@ + escaped(piece@) =~= escaped(piece@));
    }
    escape_into(&mut t, piece);
    t.s
}

impl Error {
    /// The message of the error, as it is shown to the user.
    pub fn message(&self) -> (res: String)
        ensures
            res@ == message_text(*self),
    {
        let t = match self {
            Error::ResetValueTooBig { object_type_name, object_name, size_bits } => {
                let mut t = Text::new("The reset value of ");
                t.add(object_type_name.as_str());
                t.add(" `");
                t.add(object_name.as_str());
                t.add(
                    "` has (a) bit(s) specified above the size of the register. While you can specify them, this is likely a mistake and thus not accepted. Keep the bits `",
                );
                t.add_number(*size_bits as i128);
                t.add("..` all at zero");
                t
            },
            Error::ResetValueWrongLength {
                object_type_name,
                object_name,
                expected_bytes,
                actual_bytes,
            } => {
                let mut t = Text::new("The reset value of ");
                t.add(object_type_name.as_str());
                t.add(" `");
                t.add(object_name.as_str());
                t.add("` has the incorrect length. It must be specified as ");
                t.add_number(*expected_bytes as i128);
                t.add(" bytes, but now only has ");
                t.add_number(*actual_bytes as i128);
                t.add(" elements");
                t
            },
            Error::FieldExceedsSize { object_name, field_name } => {
                let mut t = Text::new("Object `");
                t.add(object_name.as_str());
                t.add("` has field `");
                t.add(field_name.as_str());
                t.add("` who's address exceeds the given max size bits");
                t
            },
            Error::FieldZeroBits { object_name, field_name } => {
                let mut t = Text::new("Object `");
                t.add(object_name.as_str());
                t.add("` has field `");
                t.add(field_name.as_str());
                t.add("` that is 0 bits. This is likely a mistake");
                t
            },
            Error::FieldsOverlap { object_name, field_name, other_field_name } => {
                let mut t = Text::new("Object `");
                t.add(object_name.as_str());
                t.add("` has two overlapping fields: `");
                t.add(field_name.as_str());
                t.add("` and `");
                t.add(other_field_name.as_str());
                t.add("`. If this is intended, set the `AllowBitOverlap` option to true");
                t
            },
            Error::BoolFieldTooLarge { object_name, field_name } => {
                let mut t = Text::new("Object \"");
                t.add(object_name.as_str());
                t.add("\" has field \"");
                t.add(field_name.as_str());
                t.add(
                    "\" which is of base type `bool` and is larger than 1 bit. A bool can only be zero or one bit.",
                );
                t
            },
            Error::BoolFieldWithConversion { object_name, field_name } => {
                let mut t = Text::new("Object \"");
                t.add(object_name.as_str());
                t.add("\" has field \"");
                t.add(field_name.as_str());
                t.add(
                    "\" which is of base type `bool` and has specified a conversion. This is not supported for bools.",
                );
                t
            },
            Error::NoByteOrder { object_type_name, object_name } => {
                let mut t = Text::new("No byte order is specified for ");
                t.add(object_type_name.as_str());
                t.add(" `");
                t.add(object_name.as_str());
                t.add(
                    "` while it's big enough that byte order is important. Specify it on the ",
                );
                t.add(object_type_name.as_str());
                t.add(" or in the global config");
                t
            },
            Error::UnknownRefTarget { kind, ref_name, target_name } => {
                let mut t = match kind {
                    RefKind::Block => Text::new("Block ref `"),
                    RefKind::Register => Text::new("Register ref `"),
                    RefKind::Command => Text::new("Command ref `"),
                };
                t.add(ref_name.as_str());
                match kind {
                    RefKind::Block => t.add("` refers to unknown block `"),
                    RefKind::Register => t.add("` refers to unknown register `"),
                    RefKind::Command => t.add("` refers to unknown command `"),
                }
                t.add(target_name.as_str());
                t.add("`");
                t
            },
            Error::DuplicateObjectName { object_name } => {
                let mut t = Text::new("Duplicate object name found: `");
                t.add(object_name.as_str());
                t.add("`");
                t
            },
            Error::DuplicateFieldName { field_set_name, field_name } => {
                let mut t = Text::new("Duplicate field name found in fieldset `");
                t.add(field_set_name.as_str());
                t.add("`: `");
                t.add(field_name.as_str());
                t.add("`");
                t
            },
            Error::DuplicateEnumName { enum_name, field_set_name, field_name } => {
                let mut t = Text::new("Duplicate generated enum name `");
                t.add(enum_name.as_str());
                t.add("` found in fieldset `");
                t.add(field_set_name.as_str());
                t.add("` on field `");
                t.add(field_name.as_str());
                t.add("`");
                t
            },
            Error::DuplicateEnumVariant { variant_name, enum_name, field_set_name, field_name } => {
                let mut t = Text::new("Duplicate field `");
                t.add(variant_name.as_str());
                t.add("` found in generated enum `");
                t.add(enum_name.as_str());
                t.add("` in fieldset `");
                t.add(field_set_name.as_str());
                t.add("` on field `");
                t.add(field_name.as_str());
                t.add("`");
                t
            },
            Error::EnumUnknownSize { enum_name } => {
                let mut t = Text::new("Enum `");
                t.add(enum_name.as_str());
                t.add(
                    "` has an unknown size-bits. Either specify a fixed integer or bool as the base type or specify the size-bits directly",
                );
                t
            },
            Error::EnumNoVariants { enum_name } => {
                let mut t = Text::new("Enum `");
                t.add(enum_name.as_str());
                t.add("` has no variants which is not allowed. Add at least one variant");
                t
            },
            Error::EnumDuplicateValues { enum_name, duplicates } => {
                let mut t = Text::new("Duplicated assigned value(s) for enum `");
                t.add(enum_name.as_str());
                t.add("`: ");
                let ghost prefix = t.s@;
                let ghost items = duplicates@.map_values(|d: String| d@);
                t.add("[");
                let mut i: usize = 0;
                proof {
                    assert(items.take(0) =~= Seq::<Seq<char>>::empty());
                }
                while i < duplicates.len()
                    invariant
                        i <= duplicates@.len(),
                        items == duplicates@.map_values(|d: String| d@),
                        t.s@ == prefix + "["@ + quoted_items(items.take(i as int)),
                    decreases duplicates@.len() - i,
                {
                    let ghost before = t.s@;
                    if i > 0 {
                        t.add(", ");
                    }
                    t.add("\"");
                    escape_into(&mut t, duplicates[i].as_str());
                    t.add("\"");
                    proof {
                        reveal_strlit(", ");
                        reveal_strlit("\"");
                        reveal_strlit(", \"");
                        let next = items.take(i + 1);
                        assert(next.drop_last() =~= items.take(i as int));
                        assert(next.last() == duplicates@[i as int]@);
                        if i == 0 {
                            assert(next.len() == 1);
                            assert(items.take(0) =~= Seq::<Seq<char>>::empty());
                        }
                        assert(t.s@ =~= prefix + "["@ + quoted_items(items.take(i + 1)));
                    }
                    i = i + 1;
                }
                t.add("]");
                proof {
                    assert(items.take(items.len() as int) =~= items);
                }
                t
            },
            Error::EnumVariantTooHigh { enum_name, variant, value, max } => {
                let mut t = Text::new("The value of variant `");
                t.add(variant.as_str());
                t.add("` is too high for enum `");
                t.add(enum_name.as_str());
                t.add("`: ");
                t.add_number(*value);
                t.add(" (max = ");
                t.add_number(*max);
                t.add(")");
                t
            },
            Error::EnumMultipleDefaults { enum_name } => {
                let mut t = Text::new("More than one default defined on enum `");
                t.add(enum_name.as_str());
                t.add("`");
                t
            },
            Error::EnumMultipleCatchAlls { enum_name } => {
                let mut t = Text::new("More than one catch all defined on enum `");
                t.add(enum_name.as_str());
                t.add("`");
                t
            },
            Error::EnumBoolBaseType { enum_name } => {
                let mut t = Text::new("Enum `");
                t.add(enum_name.as_str());
                t.add("` has a bool base type. Only integers are supported");
                t
            },
            Error::EnumUintNegative { enum_name } => {
                let mut t = Text::new("Enum `");
                t.add(enum_name.as_str());
                t.add("` has a uint base type, but also has a negative variant");
                t
            },
            Error::EnumUintNoFit { enum_name, min, max } => {
                let mut t = Text::new("Enum `");
                t.add(enum_name.as_str());
                t.add(
                    "` has a variant that doesn't fit in any of the supported unsigned integer types. Min: ",
                );
                t.add_number(*min);
                t.add(", max: ");
                t.add_number(*max);
                t
            },
            Error::EnumIntNoFit { enum_name, min, max } => {
                let mut t = Text::new("Enum `");
                t.add(enum_name.as_str());
                t.add(
                    "` has a variant that doesn't fit in any of the supported signed integer types. Min: ",
                );
                t.add_number(*min);
                t.add(", max: ");
                t.add_number(*max);
                t
            },
            Error::AddressesOverlap { name0, name1, address } => {
                let mut t = Text::new("Objects \"");
                t.add(name0.as_str());
                t.add("\" and \"");
                t.add(name1.as_str());
                t.add("\" use the same address (");
                t.add_number(*address as i128);
                t.add("). If this is intended, then allow address overlap on both objects.");
                t
            },
            Error::ResetDataWrongLength { register_name, actual_bytes, expected_bytes } => {
                let mut t = Text::new("Reset value of register `");
                t.add(register_name.as_str());
                t.add("` has the wrong length (");
                t.add_number(*actual_bytes as i128);
                t.add(" bytes): Must be ");
                t.add_number(*expected_bytes as i128);
                t.add(" bytes");
                t
            },
            Error::ResetValueNotU8Array => Text::new("Must be a u8 array"),
            Error::ResetValueArraySize { elements } => {
                let mut t = Text::new("Size of array (");
                t.add_number(*elements as i128);
                t.add(") does not correspond with the array type");
                t
            },
            Error::ResetValueNotU8Literal => Text::new("Must be a u8 literal"),
            Error::LiteralTooLarge => Text::new("number too large to fit in target type"),
            Error::ResetValueNotUnsigned => Text::new("Must be a u8, u16, u32, u64 or u128"),
            Error::ResetValueUnsupportedType => Text::new(
                "Unsupported reset value type. Use `[u8; N]`, `[u8]` or an unsigned integer like `u16`",
            ),
            Error::MultipleCfg { count } => {
                let mut t = Text::new("Only one cfg attribute is allowed, but ");
                t.add_number(*count as i128);
                t.add(" are found");
                t
            },
            Error::RegisterWithoutAddress { register_name } => {
                let mut t = Text::new("Register `");
                t.add(register_name.as_str());
                t.add("` must have an address");
                t
            },
            Error::FieldWithoutEnd { field_name } => {
                let mut t = Text::new("Field `");
                t.add(field_name.as_str());
                t.add("` has a non-bool base type and must specify the start and the end address");
                t
            },
            Error::CommandWithoutValue { command_name } => {
                let mut t = Text::new("Command `");
                t.add(command_name.as_str());
                t.add("` must have a value");
                t
            },
            Error::CommandWithoutAddress { command_name } => {
                let mut t = Text::new("Command `");
                t.add(command_name.as_str());
                t.add("` must have an address");
                t
            },
            Error::DuplicateGlobalConfig { config } => {
                let mut t = Text::new("Duplicate global config found: `");
                t.add(config.as_str());
                t.add("`");
                t
            },
            Error::NotAnIntegerType => Text::new("Must be an integer type"),
            Error::BufferWithoutAddress { buffer_name } => {
                let mut t = Text::new("Buffer `");
                t.add(buffer_name.as_str());
                t.add("` must have an address");
                t
            },
            Error::RefToBuffer { ref_name } => {
                let mut t = Text::new("Ref `");
                t.add(ref_name.as_str());
                t.add("` cannot ref a buffer");
                t
            },
            Error::RefToRef { ref_name } => {
                let mut t = Text::new("Ref `");
                t.add(ref_name.as_str());
                t.add("` cannot ref another ref object");
                t
            },
            Error::InvalidOverride { problem } => Text::new(override_problem_message(*problem)),
        };
        t.s
    }
}

} // verus!
