//! The Rust code of an enum to generate: the enum with its variants and numbers, its
//! `Default` when a variant is the default, and the conversions from and to its base
//! type.

use vstd::prelude::*;

use crate::lir::code_transform::{description_to_docstring, docstring_text};
use crate::lir::{Enum, EnumVariant};
use crate::text::{decimal, decimal_string};

verus! {

/// The texts joined by the separator.
pub open spec fn join_texts(items: Seq<Seq<char>>, sep: Seq<char>) -> Seq<char>
    decreases items.len(),
{
    if items.len() == 0 {
        Seq::empty()
    } else if items.len() == 1 {
        items[0]
    } else {
        join_texts(items.drop_last(), sep) + sep + items.last()
    }
}

/// The texts one after the other.
pub open spec fn concat_texts(items: Seq<Seq<char>>) -> Seq<char>
    decreases items.len(),
{
    if items.len() == 0 {
        Seq::empty()
    } else {
        concat_texts(items.drop_last()) + items.last()
    }
}

/// The number of a variant as written.
pub open spec fn number_text(v: EnumVariant) -> Seq<char> {
    decimal(v.number as int)
}

/// A variant in the enum: its doc comment, its condition, its name, the base type it
/// holds when it catches all other numbers, and its number.
pub open spec fn variant_text(v: EnumVariant, base_type: Seq<char>) -> Seq<char> {
    "\n            "@ + docstring_text(v.description@) + "\n            "@ + v.cfg_attr@
        + "\n            "@ + v.name@ + " "@ + (if v.catch_all {
        "\n                ("@ + base_type + ")\n            "@
    } else {
        Seq::empty()
    }) + " = "@ + number_text(v) + "\n        "@
}

/// The arm of the conversion from the base type for a variant that doesn't catch all,
/// followed by the separator; nothing for the one that does.
pub open spec fn from_arm(v: EnumVariant, fallible: bool) -> Seq<char> {
    if v.catch_all {
        Seq::empty()
    } else {
        "\n                        "@ + v.cfg_attr@ + "\n                        "@ + number_text(v) + (
        if fallible {
            " => Ok(Self::"@ + v.name@ + ")"@
        } else {
            " => Self::"@ + v.name@
        }) + "\n                    "@ + ",\n"@
    }
}

/// The arm of the conversion into the base type for a variant.
pub open spec fn into_arm(v: EnumVariant, enum_name: Seq<char>) -> Seq<char> {
    "\n                        "@ + v.cfg_attr@ + "\n                        "@ + enum_name + "::"@
        + v.name@ + (if v.catch_all {
        "(num) => num"@
    } else {
        " => "@ + number_text(v)
    }) + "\n                    "@
}

/// The first variant that is the default, if any.
pub open spec fn first_default(vs: Seq<EnumVariant>) -> Option<EnumVariant>
    decreases vs.len(),
{
    if vs.len() == 0 {
        None
    } else if vs[0].default {
        Some(vs[0])
    } else {
        first_default(vs.drop_first())
    }
}

/// The first variant that catches all other numbers, if any.
pub open spec fn first_catch_all(vs: Seq<EnumVariant>) -> Option<EnumVariant>
    decreases vs.len(),
{
    if vs.len() == 0 {
        None
    } else if vs[0].catch_all {
        Some(vs[0])
    } else {
        first_catch_all(vs.drop_first())
    }
}

/// The `Default` of the enum: the first default variant, holding its own number when it
/// catches all; nothing without a default variant.
pub open spec fn default_impl_text(e: Enum) -> Seq<char> {
    match first_default(e.variants@) {
        Some(v) => "\n            "@ + e.cfg_attr@ + "\n            impl Default for "@ + e.name@
            + " {\n                fn default() -> Self {\n                    Self::"@ + v.name@ + " "@
            + (if v.catch_all {
            "("@ + number_text(v) + ")"@
        } else {
            Seq::empty()
        }) + "\n                }\n            }\n        "@,
        None => Seq::empty(),
    }
}

/// The conversion from the base type. With a variant that catches all or a default
/// variant it can't fail: other numbers go to the first catch-all variant, else to the
/// default. Without either it can, with a conversion error naming the enum.
pub open spec fn from_impl_text(e: Enum) -> Seq<char> {
    let vs = e.variants@;
    let base = e.base_type@;
    if first_catch_all(vs) is Some || first_default(vs) is Some {
        let fallback = match first_catch_all(vs) {
            Some(c) => "val => Self::"@ + c.name@ + "(val)"@,
            None => "_ => Self::default()"@,
        };
        "\n            "@ + e.cfg_attr@ + "\n            impl From<"@ + base + "> for "@ + e.name@
            + " {\n                fn from(val: "@ + base
            + ") -> Self {\n                    match val {\n                        "@ + concat_texts(
            vs.map_values(|v: EnumVariant| from_arm(v, false)),
        ) + fallback + "\n                    }\n                }\n            }\n        "@
    } else {
        "\n            "@ + e.cfg_attr@ + "\n            impl core::convert::TryFrom<"@ + base + "> for "@
            + e.name@ + " {\n                type Error = ::device_driver::ConversionError<"@ + base
            + ">;\n                fn try_from(val: "@ + base
            + ") -> Result<Self, Self::Error> {\n                    match val {\n                        "@
            + concat_texts(vs.map_values(|v: EnumVariant| from_arm(v, true)))
            + "val => Err(::device_driver::ConversionError { source: val, target: \""@ + e.name@
            + "\" })"@ + "\n                    }\n                }\n            }\n        "@
    }
}

/// The conversion into the base type.
pub open spec fn into_impl_text(e: Enum) -> Seq<char> {
    "\n            "@ + e.cfg_attr@ + "\n            impl From<"@ + e.name@ + "> for "@ + e.base_type@
        + " {\n                fn from(val: "@ + e.name@
        + ") -> Self {\n                    match val {\n                        "@ + join_texts(
        e.variants@.map_values(|v: EnumVariant| into_arm(v, e.name@)),
        ",\n"@,
    ) + "\n                    }\n                }\n            }\n        "@
}

/// The attribute that derives `defmt::Format` under the feature, if there is one.
pub open spec fn defmt_attr_text(defmt_feature: Option<Seq<char>>) -> Seq<char> {
    match defmt_feature {
        Some(f) => "#[cfg_attr(feature = \""@ + f + "\", derive(defmt::Format))]"@,
        None => Seq::empty(),
    }
}

/// The code of the enum: its doc comment and condition, its representation as the base
/// type, the derives, its variants, and then its `Default` and its conversions.
#[verifier::opaque]
pub open spec fn enum_text(e: Enum, defmt_feature: Option<Seq<char>>) -> Seq<char> {
    "\n        "@ + docstring_text(e.description@) + "\n        "@ + e.cfg_attr@ + "\n        #[repr("@
        + e.base_type@ + ")]\n        #[derive(Debug, Copy, Clone, Eq, PartialEq, Hash)]\n        "@
        + defmt_attr_text(defmt_feature) + "\n        pub enum "@ + e.name@ + " {\n            "@
        + join_texts(e.variants@.map_values(|v: EnumVariant| variant_text(v, e.base_type@)), ",\n"@)
        + "\n        }\n\n        "@ + default_impl_text(e) + "\n\n        "@ + from_impl_text(e)
        + "\n\n        "@ + into_impl_text(e) + "\n    "@
}

/// A text that is built up piece by piece.
pub(crate) struct Code {
    pub(crate) s: String,
}

impl Code {
    pub(crate) fn new() -> (res: Self)
        ensures
            res.s@ == Seq::<char>::empty(),
    {
        Code { s: String::new() }
    }

    pub(crate) fn add(&mut self, piece: &str)
        ensures
            final(self).s@ == old(self).s@ + piece@,
    {
        self.s.append(piece);
    }
}

/// The first element of a non-empty sequence is its first one, and the rest follows.
proof fn lemma_skip_step(vs: Seq<EnumVariant>, i: int)
    requires
        0 <= i < vs.len(),
    ensures
        vs.skip(i)[0] == vs[i],
        vs.skip(i).drop_first() == vs.skip(i + 1),
{
    assert(vs.skip(i).drop_first() =~= vs.skip(i + 1));
}

/// Finds the first default variant.
fn find_default(vs: &Vec<EnumVariant>) -> (res: Option<usize>)
    ensures
        match first_default(vs@) {
            Some(v) => res matches Some(i) && i < vs@.len() && vs@[i as int] == v,
            None => res is None,
        },
{
    let mut i: usize = 0;
    proof {
        assert(vs@.skip(0) =~= vs@);
    }
    while i < vs.len()
        invariant
            i <= vs@.len(),
            first_default(vs@) == first_default(vs@.skip(i as int)),
        decreases vs@.len() - i,
    {
        proof {
            lemma_skip_step(vs@, i as int);
        }
        if vs[i].default {
            return Some(i);
        }
        i = i + 1;
    }
    proof {
        assert(vs@.skip(i as int) =~= Seq::<EnumVariant>::empty());
    }
    None
}

/// Finds the first variant that catches all other numbers.
fn find_catch_all(vs: &Vec<EnumVariant>) -> (res: Option<usize>)
    ensures
        match first_catch_all(vs@) {
            Some(v) => res matches Some(i) && i < vs@.len() && vs@[i as int] == v,
            None => res is None,
        },
{
    let mut i: usize = 0;
    proof {
        assert(vs@.skip(0) =~= vs@);
    }
    while i < vs.len()
        invariant
            i <= vs@.len(),
            first_catch_all(vs@) == first_catch_all(vs@.skip(i as int)),
        decreases vs@.len() - i,
    {
        proof {
            lemma_skip_step(vs@, i as int);
        }
        if vs[i].catch_all {
            return Some(i);
        }
        i = i + 1;
    }
    proof {
        assert(vs@.skip(i as int) =~= Seq::<EnumVariant>::empty());
    }
    None
}

/// Adds a variant of the enum.
fn add_variant(c: &mut Code, v: &EnumVariant, base_type: &str)
    ensures
        final(c).s@ == old(c).s@ + variant_text(*v, base_type@),
{
    let doc = description_to_docstring(v.description.as_str());
    let number = decimal_string(v.number);
    c.add("\n            ");
    c.add(doc.as_str());
    c.add("\n            ");
    c.add(v.cfg_attr.as_str());
    c.add("\n            ");
    c.add(v.name.as_str());
    c.add(" ");
    if v.catch_all {
        c.add("\n                (");
        c.add(base_type);
        c.add(")\n            ");
    }
    c.add(" = ");
    c.add(number.as_str());
    c.add("\n        ");
}

/// Adds the arm of the conversion from the base type for a variant.
fn add_from_arm(c: &mut Code, v: &EnumVariant, fallible: bool)
    ensures
        final(c).s@ == old(c).s@ + from_arm(*v, fallible),
{
    if v.catch_all {
        return;
    }
    let number = decimal_string(v.number);
    c.add("\n                        ");
    c.add(v.cfg_attr.as_str());
    c.add("\n                        ");
    c.add(number.as_str());
    if fallible {
        c.add(" => Ok(Self::");
        c.add(v.name.as_str());
        c.add(")");
    } else {
        c.add(" => Self::");
        c.add(v.name.as_str());
    }
    c.add("\n                    ");
    c.add(",\n");
}

/// Adds the arm of the conversion into the base type for a variant.
fn add_into_arm(c: &mut Code, v: &EnumVariant, enum_name: &str)
    ensures
        final(c).s@ == old(c).s@ + into_arm(*v, enum_name@),
{
    c.add("\n                        ");
    c.add(v.cfg_attr.as_str());
    c.add("\n                        ");
    c.add(enum_name);
    c.add("::");
    c.add(v.name.as_str());
    if v.catch_all {
        c.add("(num) => num");
    } else {
        let number = decimal_string(v.number);
        c.add(" => ");
        c.add(number.as_str());
    }
    c.add("\n                    ");
}

/// Adds the variants of the enum, separated by commas.
fn add_variants(c: &mut Code, vs: &Vec<EnumVariant>, base_type: &str)
    ensures
        final(c).s@ == old(c).s@ + join_texts(vs@.map_values(|v: EnumVariant| variant_text(v, base_type@)), ",\n"@),
{
    let ghost start = c.s@;
    let ghost f = |v: EnumVariant| variant_text(v, base_type@);
    let mut i: usize = 0;
    proof {
        assert(vs@.take(0).map_values(f) =~= Seq::<Seq<char>>::empty());
        assert(start + Seq::<char>::empty() =~= start);
    }
    while i < vs.len()
        invariant
            i <= vs@.len(),
            f == (|v: EnumVariant| variant_text(v, base_type@)),
            c.s@ == start + join_texts(vs@.take(i as int).map_values(f), ",\n"@),
        decreases vs@.len() - i,
    {
        let ghost items = vs@.take(i as int).map_values(f);
        let ghost next = vs@.take(i + 1).map_values(f);
        proof {
            assert(next.drop_last() =~= items);
            assert(next.last() == f(vs@[i as int]));
        }
        if i > 0 {
            c.add(",\n");
        }
        add_variant(c, &vs[i], base_type);
        proof {
            if i == 0 {
                assert(next.len() == 1);
                assert(items =~= Seq::<Seq<char>>::empty());
                assert(c.s@ =~= start + join_texts(next, ",\n"@));
            } else {
                assert(c.s@ =~= start + join_texts(next, ",\n"@));
            }
        }
        i = i + 1;
    }
    proof {
        assert(vs@.take(vs@.len() as int) =~= vs@);
    }
}

/// Adds the arms of the conversion into the base type, separated by commas.
fn add_into_arms(c: &mut Code, vs: &Vec<EnumVariant>, enum_name: &str)
    ensures
        final(c).s@ == old(c).s@ + join_texts(vs@.map_values(|v: EnumVariant| into_arm(v, enum_name@)), ",\n"@),
{
    let ghost start = c.s@;
    let ghost f = |v: EnumVariant| into_arm(v, enum_name@);
    let mut i: usize = 0;
    proof {
        assert(vs@.take(0).map_values(f) =~= Seq::<Seq<char>>::empty());
        assert(start + Seq::<char>::empty() =~= start);
    }
    while i < vs.len()
        invariant
            i <= vs@.len(),
            f == (|v: EnumVariant| into_arm(v, enum_name@)),
            c.s@ == start + join_texts(vs@.take(i as int).map_values(f), ",\n"@),
        decreases vs@.len() - i,
    {
        let ghost items = vs@.take(i as int).map_values(f);
        let ghost next = vs@.take(i + 1).map_values(f);
        proof {
            assert(next.drop_last() =~= items);
            assert(next.last() == f(vs@[i as int]));
        }
        if i > 0 {
            c.add(",\n");
        }
        add_into_arm(c, &vs[i], enum_name);
        proof {
            if i == 0 {
                assert(next.len() == 1);
                assert(items =~= Seq::<Seq<char>>::empty());
                assert(c.s@ =~= start + join_texts(next, ",\n"@));
            } else {
                assert(c.s@ =~= start + join_texts(next, ",\n"@));
            }
        }
        i = i + 1;
    }
    proof {
        assert(vs@.take(vs@.len() as int) =~= vs@);
    }
}

/// Adds the arms of the conversion from the base type, each followed by a comma.
fn add_from_arms(c: &mut Code, vs: &Vec<EnumVariant>, fallible: bool)
    ensures
        final(c).s@ == old(c).s@ + concat_texts(vs@.map_values(|v: EnumVariant| from_arm(v, fallible))),
{
    let ghost start = c.s@;
    let ghost f = |v: EnumVariant| from_arm(v, fallible);
    let mut i: usize = 0;
    proof {
        assert(vs@.take(0).map_values(f) =~= Seq::<Seq<char>>::empty());
        assert(start + Seq::<char>::empty() =~= start);
    }
    while i < vs.len()
        invariant
            i <= vs@.len(),
            f == (|v: EnumVariant| from_arm(v, fallible)),
            c.s@ == start + concat_texts(vs@.take(i as int).map_values(f)),
        decreases vs@.len() - i,
    {
        let ghost items = vs@.take(i as int).map_values(f);
        let ghost next = vs@.take(i + 1).map_values(f);
        proof {
            assert(next.drop_last() =~= items);
            assert(next.last() == f(vs@[i as int]));
        }
        add_from_arm(c, &vs[i], fallible);
        proof {
            assert(c.s@ =~= start + concat_texts(next));
        }
        i = i + 1;
    }
    proof {
        assert(vs@.take(vs@.len() as int) =~= vs@);
    }
}

/// Adds the `Default` of the enum.
fn add_default_impl(c: &mut Code, e: &Enum)
    ensures
        final(c).s@ == old(c).s@ + default_impl_text(*e),
{
    match find_default(&e.variants) {
        Some(i) => {
            let v = &e.variants[i];
            c.add("\n            ");
            c.add(e.cfg_attr.as_str());
            c.add("\n            impl Default for ");
            c.add(e.name.as_str());
            c.add(" {\n                fn default() -> Self {\n                    Self::");
            c.add(v.name.as_str());
            c.add(" ");
            if v.catch_all {
                let number = decimal_string(v.number);
                c.add("(");
                c.add(number.as_str());
                c.add(")");
            }
            c.add("\n                }\n            }\n        ");
        },
        None => {
            proof {
                assert(c.s@ + Seq::<char>::empty() =~= c.s@);
            }
        },
    }
}

/// Adds the conversion from the base type that can't fail, with the first variant that
/// catches all, if any, taking the other numbers.
fn add_total_from_impl(c: &mut Code, e: &Enum, catch_all: Option<usize>)
    requires
        first_catch_all(e.variants@) is Some || first_default(e.variants@) is Some,
        match first_catch_all(e.variants@) {
            Some(v) => catch_all matches Some(i) && i < e.variants@.len() && e.variants@[i as int] == v,
            None => catch_all is None,
        },
    ensures
        final(c).s@ == old(c).s@ + from_impl_text(*e),
{
    c.add("\n            ");
    c.add(e.cfg_attr.as_str());
    c.add("\n            impl From<");
    c.add(e.base_type.as_str());
    c.add("> for ");
    c.add(e.name.as_str());
    c.add(" {\n                fn from(val: ");
    c.add(e.base_type.as_str());
    c.add(") -> Self {\n                    match val {\n                        ");
    add_from_arms(c, &e.variants, false);
    match catch_all {
        Some(k) => {
            c.add("val => Self::");
            c.add(e.variants[k].name.as_str());
            c.add("(val)");
        },
        None => {
            c.add("_ => Self::default()");
        },
    }
    c.add("\n                    }\n                }\n            }\n        ");
}

/// Adds the conversion from the base type that fails on numbers without a variant.
fn add_fallible_from_impl(c: &mut Code, e: &Enum)
    requires
        first_catch_all(e.variants@) is None,
        first_default(e.variants@) is None,
    ensures
        final(c).s@ == old(c).s@ + from_impl_text(*e),
{
    c.add("\n            ");
    c.add(e.cfg_attr.as_str());
    c.add("\n            impl core::convert::TryFrom<");
    c.add(e.base_type.as_str());
    c.add("> for ");
    c.add(e.name.as_str());
    c.add(" {\n                type Error = ::device_driver::ConversionError<");
    c.add(e.base_type.as_str());
    c.add(">;\n                fn try_from(val: ");
    c.add(e.base_type.as_str());
    c.add(") -> Result<Self, Self::Error> {\n                    match val {\n                        ");
    add_from_arms(c, &e.variants, true);
    c.add("val => Err(::device_driver::ConversionError { source: val, target: \"");
    c.add(e.name.as_str());
    c.add("\" })");
    c.add("\n                    }\n                }\n            }\n        ");
}

/// Adds the conversion from the base type.
fn add_from_impl(c: &mut Code, e: &Enum)
    ensures
        final(c).s@ == old(c).s@ + from_impl_text(*e),
{
    let catch_all = find_catch_all(&e.variants);
    let default = find_default(&e.variants);
    if catch_all.is_some() || default.is_some() {
        add_total_from_impl(c, e, catch_all);
    } else {
        add_fallible_from_impl(c, e);
    }
}

/// Adds the conversion into the base type.
fn add_into_impl(c: &mut Code, e: &Enum)
    ensures
        final(c).s@ == old(c).s@ + into_impl_text(*e),
{
    c.add("\n            ");
    c.add(e.cfg_attr.as_str());
    c.add("\n            impl From<");
    c.add(e.name.as_str());
    c.add("> for ");
    c.add(e.base_type.as_str());
    c.add(" {\n                fn from(val: ");
    c.add(e.name.as_str());
    c.add(") -> Self {\n                    match val {\n                        ");
    add_into_arms(c, &e.variants, e.name.as_str());
    c.add("\n                    }\n                }\n            }\n        ");
}

/// The Rust code of the enum, with a derive of `defmt::Format` under the given feature:
/// see [`enum_text`].
pub fn generate_enum(value: &Enum, defmt_feature: Option<&str>) -> (res: String)
    ensures
        res@ == enum_text(
            *value,
            match defmt_feature {
                Some(f) => Some(f@),
                None => None,
            },
        ),
{
    proof {
        reveal(enum_text);
    }
    let doc = description_to_docstring(value.description.as_str());
    let mut c = Code::new();
    c.add("\n        ");
    c.add(doc.as_str());
    c.add("\n        ");
    c.add(value.cfg_attr.as_str());
    c.add("\n        #[repr(");
    c.add(value.base_type.as_str());
    c.add(")]\n        #[derive(Debug, Copy, Clone, Eq, PartialEq, Hash)]\n        ");
    match defmt_feature {
        Some(f) => {
            c.add("#[cfg_attr(feature = \"");
            c.add(f);
            c.add("\", derive(defmt::Format))]");
        },
        None => {},
    }
    c.add("\n        pub enum ");
    c.add(value.name.as_str());
    c.add(" {\n            ");
    add_variants(&mut c, &value.variants, value.base_type.as_str());
    c.add("\n        }\n\n        ");
    add_default_impl(&mut c, value);
    c.add("\n\n        ");
    add_from_impl(&mut c, value);
    c.add("\n\n        ");
    add_into_impl(&mut c, value);
    c.add("\n    ");
    c.s
}

} // verus!
