//! The Rust code of a whole device: its blocks, the module with its field sets and the
//! enum over all of them, and its enums.

use vstd::prelude::*;

use crate::lir::block_generation::{block_text, generate_block, read_counts_fit};
use crate::lir::code_transform::{description_to_docstring, docstring_text};
use crate::lir::enum_generation::{concat_texts, enum_text, generate_enum, Code};
use crate::lir::field_set_generation::{field_set_text, generate_field_set};
use crate::lir::{Block, Device, Enum, FieldSet};
use crate::mir::Integer;

verus! {

/// The parts of the enum over all field sets that each field set contributes to.
#[derive(Clone, Copy)]
pub enum FieldSetEnumPiece {
    /// Its variant.
    Variant,
    /// Its arm in the debug output.
    DebugArm,
    /// Its arm in the `defmt` output.
    DefmtArm,
    /// The conversion of the field set into the enum.
    FromImpl,
}

/// What a field set contributes to a part of the enum over all field sets: nothing for a
/// field set without bits, which has no type.
pub open spec fn enum_piece_text(fs: FieldSet, piece: FieldSetEnumPiece) -> Seq<char> {
    if fs.size_bits == 0 {
        Seq::empty()
    } else {
        match piece {
            FieldSetEnumPiece::Variant => fs.cfg_attr@ + "\n"@ + docstring_text(fs.description@) + "\n"@
                + fs.name@ + "("@ + fs.name@ + "),\n"@,
            FieldSetEnumPiece::DebugArm => fs.cfg_attr@ + "\nSelf::"@ + fs.name@
                + "(val) => core::fmt::Debug::fmt(val, f),\n"@,
            FieldSetEnumPiece::DefmtArm => fs.cfg_attr@ + "\nSelf::"@ + fs.name@
                + "(val) => defmt::Format::format(val, f),\n"@,
            FieldSetEnumPiece::FromImpl => fs.cfg_attr@ + "\nimpl From<"@ + fs.name@
                + "> for FieldSetValue {\n    fn from(val: "@ + fs.name@ + ") -> Self {\n        Self::"@
                + fs.name@ + "(val)\n    }\n}\n"@,
        }
    }
}

/// What all field sets contribute to a part, one after the other.
pub open spec fn enum_pieces_text(fss: Seq<FieldSet>, piece: FieldSetEnumPiece) -> Seq<char> {
    concat_texts(fss.map_values(|fs: FieldSet| enum_piece_text(fs, piece)))
}

/// The enum over all field sets with bits, with its debug output, its `defmt` output
/// under the feature, if any, and the conversions of the field sets into it.
pub open spec fn field_set_enum_text(fss: Seq<FieldSet>, defmt_feature: Option<Seq<char>>) -> Seq<char> {
    "/// Enum containing all possible field set types\npub enum FieldSetValue {\n"@ + enum_pieces_text(
        fss,
        FieldSetEnumPiece::Variant,
    )
        + "}\n\nimpl core::fmt::Debug for FieldSetValue {\n    fn fmt(&self, f: &mut core::fmt::Formatter<'_>) -> core::fmt::Result {\n        match self {\n"@
        + enum_pieces_text(fss, FieldSetEnumPiece::DebugArm) + "_ => unreachable!()\n        }\n    }\n}\n"@
        + match defmt_feature {
        Some(feat) => "#[cfg(feature = \""@ + feat
            + "\")]\nimpl defmt::Format for FieldSetValue {\n    fn format(&self, f: defmt::Formatter) {\n        match self {\n"@
            + enum_pieces_text(fss, FieldSetEnumPiece::DefmtArm)
            + "_ => unreachable!()\n        }\n    }\n}\n"@,
        None => Seq::empty(),
    } + enum_pieces_text(fss, FieldSetEnumPiece::FromImpl)
}

/// An optional text as a mathematical value.
pub open spec fn opt_str(o: Option<String>) -> Option<Seq<char>> {
    match o {
        Some(s) => Some(s@),
        None => None,
    }
}

/// The code of the blocks, one after the other.
pub open spec fn blocks_text(bs: Seq<Block>, internal: Integer, reg: Integer) -> Seq<char> {
    concat_texts(bs.map_values(|b: Block| block_text(b@, internal, reg)))
}

/// The code of the field sets, one after the other.
pub open spec fn field_sets_text(fss: Seq<FieldSet>, defmt: Option<Seq<char>>) -> Seq<char> {
    concat_texts(fss.map_values(|fs: FieldSet| field_set_text(fs, defmt)))
}

/// The code of the enums, one after the other.
pub open spec fn enums_text(es: Seq<Enum>, defmt: Option<Seq<char>>) -> Seq<char> {
    concat_texts(es.map_values(|e: Enum| enum_text(e, defmt)))
}

/// The code of a whole device: its blocks, then the module `field_sets` with the code of
/// each field set and the enum over them, then its enums.
pub open spec fn device_text(d: Device) -> Seq<char> {
    let defmt = opt_str(d.defmt_feature);
    blocks_text(d.blocks@, d.internal_address_type, d.register_address_type)
        + "\n/// Module containing the generated fieldsets of the registers and commands\npub mod field_sets {\n    use super::*;\n\n"@
        + field_sets_text(d.field_sets@, defmt) + field_set_enum_text(d.field_sets@, defmt) + "\n}\n"@
        + enums_text(d.enums@, defmt)
}

/// Whether the counts of the repeated readable registers of every block are numbers of
/// the reading code.
pub open spec fn blocks_fit(bs: Seq<Block>) -> bool {
    forall|i: int| 0 <= i < bs.len() ==> read_counts_fit(#[trigger] bs[i]@.methods)
}

/// What a field set contributes to a part of the enum over all field sets.
fn enum_piece(fs: &FieldSet, piece: FieldSetEnumPiece) -> (res: String)
    ensures
        res@ == enum_piece_text(*fs, piece),
{
    let mut c = Code::new();
    if fs.size_bits == 0 {
        return c.s;
    }
    match piece {
        FieldSetEnumPiece::Variant => {
            let doc = description_to_docstring(fs.description.as_str());
            c.add(fs.cfg_attr.as_str());
            c.add("\n");
            c.add(doc.as_str());
            c.add("\n");
            c.add(fs.name.as_str());
            c.add("(");
            c.add(fs.name.as_str());
            c.add("),\n");
        },
        FieldSetEnumPiece::DebugArm => {
            c.add(fs.cfg_attr.as_str());
            c.add("\nSelf::");
            c.add(fs.name.as_str());
            c.add("(val) => core::fmt::Debug::fmt(val, f),\n");
        },
        FieldSetEnumPiece::DefmtArm => {
            c.add(fs.cfg_attr.as_str());
            c.add("\nSelf::");
            c.add(fs.name.as_str());
            c.add("(val) => defmt::Format::format(val, f),\n");
        },
        FieldSetEnumPiece::FromImpl => {
            c.add(fs.cfg_attr.as_str());
            c.add("\nimpl From<");
            c.add(fs.name.as_str());
            c.add("> for FieldSetValue {\n    fn from(val: ");
            c.add(fs.name.as_str());
            c.add(") -> Self {\n        Self::");
            c.add(fs.name.as_str());
            c.add("(val)\n    }\n}\n");
        },
    }
    proof {
        assert(c.s@ =~= enum_piece_text(*fs, piece));
    }
    c.s
}

/// Adds what all field sets contribute to a part of the enum over them.
#[verifier::rlimit(50)]
fn add_enum_pieces(c: &mut Code, fss: &Vec<FieldSet>, piece: FieldSetEnumPiece)
    ensures
        final(c).s@ == old(c).s@ + enum_pieces_text(fss@, piece),
{
    let ghost start = c.s@;
    let ghost f = |fs: FieldSet| enum_piece_text(fs, piece);
    let mut i: usize = 0;
    proof {
        assert(fss@.take(0).map_values(f) =~= Seq::<Seq<char>>::empty());
        assert(start + Seq::<char>::empty() =~= start);
    }
    while i < fss.len()
        invariant
            i <= fss@.len(),
            f == (|fs: FieldSet| enum_piece_text(fs, piece)),
            c.s@ == start + concat_texts(fss@.take(i as int).map_values(f)),
        decreases fss@.len() - i,
    {
        let text = enum_piece(&fss[i], piece);
        c.add(text.as_str());
        proof {
            let next = fss@.take(i + 1).map_values(f);
            assert(next.drop_last() =~= fss@.take(i as int).map_values(f));
            assert(c.s@ =~= start + concat_texts(next));
        }
        i = i + 1;
    }
    proof {
        assert(fss@.take(fss@.len() as int) =~= fss@);
    }
}

/// The enum over all field sets: see [`field_set_enum_text`].
#[verifier::rlimit(50)]
pub fn generate_field_set_enum(field_sets: &Vec<FieldSet>, defmt_feature: Option<&str>) -> (res: String)
    ensures
        res@ == field_set_enum_text(
            field_sets@,
            match defmt_feature {
                Some(f) => Some(f@),
                None => None,
            },
        ),
{
    let mut c = Code::new();
    c.add("/// Enum containing all possible field set types\npub enum FieldSetValue {\n");
    add_enum_pieces(&mut c, field_sets, FieldSetEnumPiece::Variant);
    c.add(
        "}\n\nimpl core::fmt::Debug for FieldSetValue {\n    fn fmt(&self, f: &mut core::fmt::Formatter<'_>) -> core::fmt::Result {\n        match self {\n",
    );
    add_enum_pieces(&mut c, field_sets, FieldSetEnumPiece::DebugArm);
    c.add("_ => unreachable!()\n        }\n    }\n}\n");
    let ghost s1 = c.s@;
    match defmt_feature {
        Some(feat) => {
            c.add("#[cfg(feature = \"");
            c.add(feat);
            c.add(
                "\")]\nimpl defmt::Format for FieldSetValue {\n    fn format(&self, f: defmt::Formatter) {\n        match self {\n",
            );
            add_enum_pieces(&mut c, field_sets, FieldSetEnumPiece::DefmtArm);
            c.add("_ => unreachable!()\n        }\n    }\n}\n");
        },
        None => {
            proof {
                assert(c.s@ =~= s1 + Seq::<char>::empty());
            }
        },
    }
    add_enum_pieces(&mut c, field_sets, FieldSetEnumPiece::FromImpl);
    proof {
        assert(c.s@ =~= field_set_enum_text(
            field_sets@,
            match defmt_feature {
                Some(f) => Some(f@),
                None => None,
            },
        ));
    }
    c.s
}

/// Adds the code of the blocks, one after the other.
#[verifier::rlimit(50)]
fn add_blocks(c: &mut Code, bs: &Vec<Block>, internal: Integer, reg: Integer)
    requires
        blocks_fit(bs@),
    ensures
        final(c).s@ == old(c).s@ + blocks_text(bs@, internal, reg),
{
    let ghost start = c.s@;
    let ghost g = |b: Block| block_text(b@, internal, reg);
    let mut i: usize = 0;
    proof {
        assert(bs@.take(0).map_values(g) =~= Seq::<Seq<char>>::empty());
        assert(start + Seq::<char>::empty() =~= start);
    }
    while i < bs.len()
        invariant
            i <= bs@.len(),
            blocks_fit(bs@),
            g == (|b: Block| block_text(b@, internal, reg)),
            c.s@ == start + blocks_text(bs@.take(i as int), internal, reg),
        decreases bs@.len() - i,
    {
        proof {
            assert(read_counts_fit(bs@[i as int]@.methods));
        }
        let text = generate_block(&bs[i], internal, reg);
        c.add(text.as_str());
        proof {
            let next = bs@.take(i + 1).map_values(g);
            assert(next.drop_last() =~= bs@.take(i as int).map_values(g));
            assert(next.last() == text@);
            assert(c.s@ =~= start + blocks_text(bs@.take(i + 1), internal, reg));
        }
        i = i + 1;
    }
    proof {
        assert(bs@.take(bs@.len() as int) =~= bs@);
    }
}

/// Adds the code of the field sets, one after the other.
#[verifier::rlimit(50)]
fn add_field_sets(c: &mut Code, fss: &Vec<FieldSet>, defmt_feature: Option<&str>, Ghost(defmt): Ghost<Option<Seq<char>>>)
    requires
        defmt == match defmt_feature {
            Some(x) => Some(x@),
            None => None,
        },
    ensures
        final(c).s@ == old(c).s@ + field_sets_text(fss@, defmt),
{
    let ghost start = c.s@;
    let ghost g = |fs: FieldSet| field_set_text(fs, defmt);
    let mut i: usize = 0;
    proof {
        assert(fss@.take(0).map_values(g) =~= Seq::<Seq<char>>::empty());
        assert(start + Seq::<char>::empty() =~= start);
    }
    while i < fss.len()
        invariant
            i <= fss@.len(),
            defmt == match defmt_feature {
                Some(x) => Some(x@),
                None => None,
            },
            g == (|fs: FieldSet| field_set_text(fs, defmt)),
            c.s@ == start + field_sets_text(fss@.take(i as int), defmt),
        decreases fss@.len() - i,
    {
        let text = generate_field_set(&fss[i], defmt_feature);
        c.add(text.as_str());
        proof {
            let next = fss@.take(i + 1).map_values(g);
            assert(next.drop_last() =~= fss@.take(i as int).map_values(g));
            assert(next.last() == text@);
            assert(c.s@ =~= start + field_sets_text(fss@.take(i + 1), defmt));
        }
        i = i + 1;
    }
    proof {
        assert(fss@.take(fss@.len() as int) =~= fss@);
    }
}

/// Adds the code of the enums, one after the other.
#[verifier::rlimit(50)]
fn add_enums(c: &mut Code, es: &Vec<Enum>, defmt_feature: Option<&str>, Ghost(defmt): Ghost<Option<Seq<char>>>)
    requires
        defmt == match defmt_feature {
            Some(x) => Some(x@),
            None => None,
        },
    ensures
        final(c).s@ == old(c).s@ + enums_text(es@, defmt),
{
    let ghost start = c.s@;
    let ghost g = |e: Enum| enum_text(e, defmt);
    let mut i: usize = 0;
    proof {
        assert(es@.take(0).map_values(g) =~= Seq::<Seq<char>>::empty());
        assert(start + Seq::<char>::empty() =~= start);
    }
    while i < es.len()
        invariant
            i <= es@.len(),
            defmt == match defmt_feature {
                Some(x) => Some(x@),
                None => None,
            },
            g == (|e: Enum| enum_text(e, defmt)),
            c.s@ == start + enums_text(es@.take(i as int), defmt),
        decreases es@.len() - i,
    {
        let text = generate_enum(&es[i], defmt_feature);
        c.add(text.as_str());
        proof {
            let next = es@.take(i + 1).map_values(g);
            assert(next.drop_last() =~= es@.take(i as int).map_values(g));
            assert(next.last() == text@);
            assert(c.s@ =~= start + enums_text(es@.take(i + 1), defmt));
        }
        i = i + 1;
    }
    proof {
        assert(es@.take(es@.len() as int) =~= es@);
    }
}

/// The code of a whole device: see [`device_text`].
#[verifier::rlimit(50)]
pub fn transform(device: Device) -> (res: String)
    requires
        blocks_fit(device.blocks@),
    ensures
        res@ == device_text(device),
{
    let ghost defmt = opt_str(device.defmt_feature);
    let defmt_feature: Option<&str> = match &device.defmt_feature {
        Some(f) => Some(f.as_str()),
        None => None,
    };
    let mut c = Code::new();
    add_blocks(&mut c, &device.blocks, device.internal_address_type, device.register_address_type);
    c.add(
        "\n/// Module containing the generated fieldsets of the registers and commands\npub mod field_sets {\n    use super::*;\n\n",
    );
    add_field_sets(&mut c, &device.field_sets, defmt_feature, Ghost(defmt));
    let e = generate_field_set_enum(&device.field_sets, defmt_feature);
    c.add(e.as_str());
    c.add("\n}\n");
    add_enums(&mut c, &device.enums, defmt_feature, Ghost(defmt));
    proof {
        assert(c.s@ =~= device_text(device));
    }
    c.s
}

} // verus!
