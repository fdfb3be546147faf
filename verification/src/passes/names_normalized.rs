//! Brings every name to the case the generated code uses: Pascal case for objects,
//! enums and enum variants, snake case for fields.

use vstd::prelude::*;

use crate::case::{case_converted, convert_name, TargetCase};
use crate::error::Error;
use crate::mir::{
    related_objects, Block, Device, Enum, Field, FieldConversion, FieldSet, Object,
    ObjectOverride, WordBoundary,
};
use crate::passes::walk::{
    pre_pred, ok_pred, rel_rel, same_field_set_header, visit_field_set, visit_objects,
    FieldVisitor, ObjectVisitor,
};

verus! {

/// The name in Pascal case, split into words at the boundaries.
pub open spec fn pascal(name: Seq<char>, boundaries: Seq<WordBoundary>) -> Seq<char> {
    case_converted(name, boundaries, TargetCase::Pascal)
}

/// The name in snake case, split into words at the boundaries.
pub open spec fn snake(name: Seq<char>, boundaries: Seq<WordBoundary>) -> Seq<char> {
    case_converted(name, boundaries, TargetCase::Snake)
}

/// The variant after normalization: its name in Pascal case, all else as it was.
pub open spec fn variant_normalized(
    old: crate::mir::EnumVariant,
    new: crate::mir::EnumVariant,
    bs: Seq<WordBoundary>,
) -> bool {
    &&& new.name@ == pascal(old.name@, bs)
    &&& new.cfg_attr == old.cfg_attr
    &&& new.description == old.description
    &&& new.value == old.value
}

/// The enum after normalization: its name and the names of its variants in Pascal
/// case, all else as it was.
pub open spec fn enum_normalized(old: Enum, new: Enum, bs: Seq<WordBoundary>) -> bool {
    &&& new.name@ == pascal(old.name@, bs)
    &&& new.cfg_attr == old.cfg_attr
    &&& new.description == old.description
    &&& new.base_type == old.base_type
    &&& new.size_bits == old.size_bits
    &&& new.generation_style == old.generation_style
    &&& new.variants@.len() == old.variants@.len()
    &&& forall|i: int|
        0 <= i < old.variants@.len() ==> #[trigger] variant_normalized(
            old.variants@[i],
            new.variants@[i],
            bs,
        )
}

/// The conversion after normalization: a generated enum is normalized, any other
/// conversion stays as it was.
pub open spec fn conversion_normalized(
    old: Option<FieldConversion>,
    new: Option<FieldConversion>,
    bs: Seq<WordBoundary>,
) -> bool {
    match old {
        Some(FieldConversion::Enum { enum_value, use_try }) => new matches Some(
            FieldConversion::Enum { enum_value: new_enum, use_try: new_use_try },
        ) && new_use_try == use_try && enum_normalized(enum_value, new_enum, bs),
        _ => new == old,
    }
}

/// The field after normalization: its name in snake case, its enum normalized, all
/// else as it was.
pub open spec fn field_normalized(old: Field, new: Field, bs: Seq<WordBoundary>) -> bool {
    &&& new.name@ == snake(old.name@, bs)
    &&& new.cfg_attr == old.cfg_attr
    &&& new.description == old.description
    &&& new.access == old.access
    &&& new.base_type == old.base_type
    &&& new.field_address == old.field_address
    &&& conversion_normalized(old.field_conversion, new.field_conversion, bs)
}

/// The field set after normalization: every field normalized, all else as it was.
pub open spec fn fields_normalized(old: FieldSet, new: FieldSet, bs: Seq<WordBoundary>) -> bool {
    &&& same_field_set_header(old, new)
    &&& new.fields@.len() == old.fields@.len()
    &&& forall|i: int|
        0 <= i < old.fields@.len() ==> #[trigger] field_normalized(
            old.fields@[i],
            new.fields@[i],
            bs,
        )
}

/// The optional field set after normalization.
pub open spec fn opt_fields_normalized(
    old: Option<FieldSet>,
    new: Option<FieldSet>,
    bs: Seq<WordBoundary>,
) -> bool {
    match (old, new) {
        (Some(o), Some(n)) => fields_normalized(o, n, bs),
        (None, None) => true,
        _ => false,
    }
}

/// The target of a ref after normalization: the name it refers to in Pascal case,
/// the overridden values as they were.
pub open spec fn override_normalized(
    old: ObjectOverride,
    new: ObjectOverride,
    bs: Seq<WordBoundary>,
) -> bool {
    match (old, new) {
        (ObjectOverride::Block(o), ObjectOverride::Block(n)) => {
            &&& n.name@ == pascal(o.name@, bs)
            &&& n.address_offset == o.address_offset
            &&& n.repeat == o.repeat
        },
        (ObjectOverride::Register(o), ObjectOverride::Register(n)) => {
            &&& n.name@ == pascal(o.name@, bs)
            &&& n.access == o.access
            &&& n.address == o.address
            &&& n.allow_address_overlap == o.allow_address_overlap
            &&& n.reset_value == o.reset_value
            &&& n.repeat == o.repeat
        },
        (ObjectOverride::Command(o), ObjectOverride::Command(n)) => {
            &&& n.name@ == pascal(o.name@, bs)
            &&& n.address == o.address
            &&& n.allow_address_overlap == o.allow_address_overlap
            &&& n.repeat == o.repeat
        },
        _ => false,
    }
}

/// The object after normalization, apart from the objects a block holds: its name in
/// Pascal case, the names in its field sets and the name a ref refers to normalized,
/// all else as it was.
pub open spec fn object_normalized(old: Object, new: Object, bs: Seq<WordBoundary>) -> bool {
    match (old, new) {
        (Object::Block(o), Object::Block(n)) => {
            &&& n.name@ == pascal(o.name@, bs)
            &&& n.cfg_attr == o.cfg_attr
            &&& n.description == o.description
            &&& n.address_offset == o.address_offset
            &&& n.repeat == o.repeat
        },
        (Object::Register(o), Object::Register(n)) => {
            &&& n.name@ == pascal(o.name@, bs)
            &&& n.cfg_attr == o.cfg_attr
            &&& n.description == o.description
            &&& n.access == o.access
            &&& n.allow_address_overlap == o.allow_address_overlap
            &&& n.address == o.address
            &&& n.reset_value == o.reset_value
            &&& n.repeat == o.repeat
            &&& fields_normalized(o.field_set, n.field_set, bs)
        },
        (Object::Command(o), Object::Command(n)) => {
            &&& n.name@ == pascal(o.name@, bs)
            &&& n.cfg_attr == o.cfg_attr
            &&& n.description == o.description
            &&& n.allow_address_overlap == o.allow_address_overlap
            &&& n.address == o.address
            &&& n.repeat == o.repeat
            &&& opt_fields_normalized(o.field_set_in, n.field_set_in, bs)
            &&& opt_fields_normalized(o.field_set_out, n.field_set_out, bs)
        },
        (Object::Buffer(o), Object::Buffer(n)) => {
            &&& n.name@ == pascal(o.name@, bs)
            &&& n.cfg_attr == o.cfg_attr
            &&& n.description == o.description
            &&& n.access == o.access
            &&& n.address == o.address
        },
        (Object::Ref(o), Object::Ref(n)) => {
            &&& n.name@ == pascal(o.name@, bs)
            &&& n.cfg_attr == o.cfg_attr
            &&& n.description == o.description
            &&& override_normalized(o.object_override, n.object_override, bs)
        },
        _ => false,
    }
}

/// [`object_normalized`] as a relation on objects.
pub open spec fn normalized_rel(bs: Seq<WordBoundary>) -> spec_fn(Object, Object) -> bool {
    |old: Object, new: Object| object_normalized(old, new, bs)
}

/// The normalization of names, as a visit of every object and field.
pub struct NameNormalizer {
    pub boundaries: Vec<WordBoundary>,
}

impl NameNormalizer {
    fn pascal(&self, name: &String) -> (res: String)
        ensures
            res@ == pascal(name@, self.boundaries@),
    {
        convert_name(name.as_str(), &self.boundaries, TargetCase::Pascal)
    }
}

/// Normalizes the names of the enum and its variants.
fn normalize_enum(e: &mut Enum, bs: &Vec<WordBoundary>)
    ensures
        enum_normalized(*old(e), *final(e), bs@),
{
    e.name = convert_name(e.name.as_str(), bs, TargetCase::Pascal);
    let ghost old_variants = e.variants@;
    let mut i: usize = 0;
    while i < e.variants.len()
        invariant
            old_variants == old(e).variants@,
            e.variants@.len() == old_variants.len(),
            e.name@ == pascal(old(e).name@, bs@),
            e.cfg_attr == old(e).cfg_attr,
            e.description == old(e).description,
            e.base_type == old(e).base_type,
            e.size_bits == old(e).size_bits,
            e.generation_style == old(e).generation_style,
            i <= old_variants.len(),
            forall|j: int| i <= j < old_variants.len() ==> e.variants@[j] == old_variants[j],
            forall|j: int|
                0 <= j < i ==> #[trigger] variant_normalized(old_variants[j], e.variants@[j], bs@),
        decreases old_variants.len() - i,
    {
        let name = convert_name(e.variants[i].name.as_str(), bs, TargetCase::Pascal);
        let v = &mut e.variants[i];
        v.name = name;
        i = i + 1;
    }
}

impl FieldVisitor for NameNormalizer {
    open spec fn field_pre(&self, field: Field) -> bool {
        true
    }

    open spec fn field_ok(&self, field: Field) -> bool {
        true
    }

    open spec fn field_err(&self, object_name: Seq<char>, field: Field, e: Error) -> bool {
        false
    }

    open spec fn field_rel(&self, old: Field, new: Field) -> bool {
        field_normalized(old, new, self.boundaries@)
    }

    fn visit_field(&self, object_name: &String, field: &mut Field) -> (res: Result<(), Error>) {
        field.name = convert_name(field.name.as_str(), &self.boundaries, TargetCase::Snake);
        match &mut field.field_conversion {
            Some(FieldConversion::Enum { enum_value, .. }) => normalize_enum(
                enum_value,
                &self.boundaries,
            ),
            _ => {},
        }
        Ok(())
    }
}

impl NameNormalizer {
    fn normalize_field_set(&self, object_name: &String, fs: &mut FieldSet)
        ensures
            fields_normalized(*old(fs), *final(fs), self.boundaries@),
    {
        let _ = visit_field_set(self, object_name, fs);
        assert forall|i: int| 0 <= i < old(fs).fields@.len() implies #[trigger] field_normalized(
            old(fs).fields@[i],
            fs.fields@[i],
            self.boundaries@,
        ) by {
            assert(self.field_rel(old(fs).fields@[i], fs.fields@[i]));
        }
    }

    fn normalize_opt_field_set(&self, object_name: &String, fs: &mut Option<FieldSet>)
        ensures
            opt_fields_normalized(*old(fs), *final(fs), self.boundaries@),
    {
        match fs {
            Some(f) => self.normalize_field_set(object_name, f),
            None => {},
        }
    }

    fn normalize_override(&self, o: &mut ObjectOverride)
        ensures
            override_normalized(*old(o), *final(o), self.boundaries@),
    {
        match o {
            ObjectOverride::Block(v) => v.name = self.pascal(&v.name),
            ObjectOverride::Register(v) => v.name = self.pascal(&v.name),
            ObjectOverride::Command(v) => v.name = self.pascal(&v.name),
        }
    }
}

impl ObjectVisitor for NameNormalizer {
    open spec fn pre(&self, object: Object) -> bool {
        true
    }

    open spec fn ok(&self, object: Object) -> bool {
        true
    }

    open spec fn err(&self, object: Object, e: Error) -> bool {
        false
    }

    open spec fn rel(&self, old: Object, new: Object) -> bool {
        object_normalized(old, new, self.boundaries@)
    }

    proof fn lemma_rel_ignores_objects(&self, old: Block, mid: Block, new: Block) {
    }

    fn visit(&self, object: &mut Object) -> (res: Result<(), Error>) {
        match object {
            Object::Block(b) => b.name = self.pascal(&b.name),
            Object::Register(r) => {
                r.name = self.pascal(&r.name);
                self.normalize_field_set(&r.name, &mut r.field_set);
            },
            Object::Command(c) => {
                c.name = self.pascal(&c.name);
                self.normalize_opt_field_set(&c.name, &mut c.field_set_in);
                self.normalize_opt_field_set(&c.name, &mut c.field_set_out);
            },
            Object::Buffer(b) => b.name = self.pascal(&b.name),
            Object::Ref(r) => {
                r.name = self.pascal(&r.name);
                self.normalize_override(&mut r.object_override);
            },
        }
        Ok(())
    }
}

/// Changes the names of all objects, the names they refer to, the enums generated for
/// fields and their variants to Pascal case, and the names of all fields to snake
/// case, splitting names into words at the word boundaries of the device.
pub fn run_pass(device: &mut Device)
    ensures
        related_objects(
            old(device).objects@,
            final(device).objects@,
            normalized_rel(old(device).global_config.name_word_boundaries@),
        ),
        final(device).name == old(device).name,
        final(device).global_config == old(device).global_config,
{
    let v = NameNormalizer { boundaries: device.global_config.name_word_boundaries.clone() };
    proof {
        assert forall|o: Object| #[trigger] pre_pred(&v)(o) by {}
        crate::mir::lemma_all_objects_holds(device.objects@, pre_pred(&v));
        assert forall|o: Object| #[trigger] ok_pred(&v)(o) by {}
        crate::mir::lemma_all_objects_holds(device.objects@, ok_pred(&v));
    }
    let _ = visit_objects(&v, &mut device.objects);
    proof {
        assert(rel_rel(&v) =~= normalized_rel(old(device).global_config.name_word_boundaries@));
    }
}

} // verus!
