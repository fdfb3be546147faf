//! Propagates conditions down the tree: an object is only active when the blocks above
//! it are, by combining its condition with theirs.

use vstd::prelude::*;

use crate::mir::{
    all_objects, object_and_below, spec_cfg_combine, Cfg, Device, Field, FieldConversion,
    FieldSet, Object,
};
use crate::passes::walk::same_field_but_conversion;

verus! {

/// The field after the pass: the enum it converts to gets the field's condition
/// combined with the object's.
pub open spec fn field_cfg_propagated(old: Field, new: Field, object_cfg: Option<Seq<char>>) -> bool {
    &&& same_field_but_conversion(old, new)
    &&& match old.field_conversion {
        Some(FieldConversion::Enum { enum_value: e, use_try: u }) => new.field_conversion matches Some(
            FieldConversion::Enum { enum_value: e2, use_try: u2 },
        ) && u2 == u && e2.cfg_attr@ == spec_cfg_combine(old.cfg_attr@, object_cfg)
            && e2.description == e.description && e2.name == e.name && e2.variants == e.variants
            && e2.base_type == e.base_type && e2.size_bits == e.size_bits && e2.generation_style
            == e.generation_style,
        c => new.field_conversion == c,
    }
}

/// The field set after the pass.
pub open spec fn field_set_cfg_propagated(old: FieldSet, new: FieldSet, object_cfg: Option<Seq<char>>) -> bool {
    &&& new.description == old.description
    &&& new.size_bits == old.size_bits
    &&& new.byte_order == old.byte_order
    &&& new.bit_order == old.bit_order
    &&& new.allow_bit_overlap == old.allow_bit_overlap
    &&& new.fields@.len() == old.fields@.len()
    &&& forall|i: int|
        0 <= i < old.fields@.len() ==> #[trigger] field_cfg_propagated(
            old.fields@[i],
            new.fields@[i],
            object_cfg,
        )
}

/// The optional field set after the pass.
pub open spec fn opt_field_set_cfg_propagated(
    old: Option<FieldSet>,
    new: Option<FieldSet>,
    object_cfg: Option<Seq<char>>,
) -> bool {
    match (old, new) {
        (Some(o), Some(n)) => field_set_cfg_propagated(o, n, object_cfg),
        (None, None) => true,
        _ => false,
    }
}

/// The objects after the pass, below a block whose condition became `parent`.
pub open spec fn objects_cfg_propagated(
    old: Seq<Object>,
    new: Seq<Object>,
    parent: Option<Seq<char>>,
) -> bool
    decreases old,
{
    if old.len() == 0 {
        new.len() == 0
    } else {
        &&& new.len() > 0
        &&& object_cfg_propagated(old[0], new[0], parent)
        &&& objects_cfg_propagated(
            old.subrange(1, old.len() as int),
            new.subrange(1, new.len() as int),
            parent,
        )
    }
}

/// The object after the pass, below a block whose condition became `parent`: its
/// condition is combined with the parent's, and the objects below it with the result.
pub open spec fn object_cfg_propagated(old: Object, new: Object, parent: Option<Seq<char>>) -> bool
    decreases old,
{
    let cfg = spec_cfg_combine(old.spec_cfg(), parent);
    match (old, new) {
        (Object::Block(o), Object::Block(n)) => {
            proof {
                vstd::std_specs::vec::axiom_vec_decreases_to_view(o.objects);
            }
            &&& n.cfg_attr@ == cfg
            &&& n.description == o.description
            &&& n.name == o.name
            &&& n.address_offset == o.address_offset
            &&& n.repeat == o.repeat
            &&& objects_cfg_propagated(o.objects@, n.objects@, cfg)
        },
        (Object::Register(o), Object::Register(n)) => {
            &&& n.cfg_attr@ == cfg
            &&& n.description == o.description
            &&& n.name == o.name
            &&& n.access == o.access
            &&& n.allow_address_overlap == o.allow_address_overlap
            &&& n.address == o.address
            &&& n.reset_value == o.reset_value
            &&& n.repeat == o.repeat
            &&& field_set_cfg_propagated(o.field_set, n.field_set, cfg)
        },
        (Object::Command(o), Object::Command(n)) => {
            &&& n.cfg_attr@ == cfg
            &&& n.description == o.description
            &&& n.name == o.name
            &&& n.allow_address_overlap == o.allow_address_overlap
            &&& n.address == o.address
            &&& n.repeat == o.repeat
            &&& opt_field_set_cfg_propagated(o.field_set_in, n.field_set_in, cfg)
            &&& opt_field_set_cfg_propagated(o.field_set_out, n.field_set_out, cfg)
        },
        (Object::Buffer(o), Object::Buffer(n)) => {
            &&& n.cfg_attr@ == cfg
            &&& n.description == o.description
            &&& n.name == o.name
            &&& n.access == o.access
            &&& n.address == o.address
        },
        (Object::Ref(o), Object::Ref(n)) => {
            &&& n.cfg_attr@ == cfg
            &&& n.description == o.description
            &&& n.name == o.name
            &&& n.object_override == o.object_override
        },
        _ => false,
    }
}

fn propagate_field(field: &mut Field, object_cfg: &Cfg)
    ensures
        field_cfg_propagated(*old(field), *final(field), object_cfg@),
{
    let field_cfg = field.cfg_attr.clone();
    match &mut field.field_conversion {
        Some(FieldConversion::Enum { enum_value, .. }) => {
            enum_value.cfg_attr = field_cfg.combine(object_cfg);
        },
        _ => {},
    }
}

fn propagate_field_set(fs: &mut FieldSet, object_cfg: &Cfg)
    ensures
        field_set_cfg_propagated(*old(fs), *final(fs), object_cfg@),
{
    let ghost old_fields = fs.fields@;
    let mut i: usize = 0;
    while i < fs.fields.len()
        invariant
            fs.fields@.len() == old_fields.len(),
            old_fields == old(fs).fields@,
            fs.description == old(fs).description,
            fs.size_bits == old(fs).size_bits,
            fs.byte_order == old(fs).byte_order,
            fs.bit_order == old(fs).bit_order,
            fs.allow_bit_overlap == old(fs).allow_bit_overlap,
            i <= old_fields.len(),
            forall|j: int| i <= j < old_fields.len() ==> fs.fields@[j] == old_fields[j],
            forall|j: int|
                0 <= j < i ==> #[trigger] field_cfg_propagated(
                    old_fields[j],
                    fs.fields@[j],
                    object_cfg@,
                ),
        decreases old_fields.len() - i,
    {
        propagate_field(&mut fs.fields[i], object_cfg);
        i = i + 1;
    }
}

fn propagate_opt_field_set(fs: &mut Option<FieldSet>, object_cfg: &Cfg)
    ensures
        opt_field_set_cfg_propagated(*old(fs), *final(fs), object_cfg@),
{
    match fs {
        Some(f) => propagate_field_set(f, object_cfg),
        None => {},
    }
}

fn propagate_object(object: &mut Object, parent: &Cfg)
    ensures
        object_cfg_propagated(*old(object), *final(object), parent@),
    decreases *old(object),
{
    match object {
        Object::Block(b) => {
            let cfg = b.cfg_attr.combine(parent);
            b.cfg_attr = cfg.clone();
            proof {
                vstd::std_specs::vec::axiom_vec_decreases_to_view(b.objects);
            }
            propagate_objects(&mut b.objects, &cfg);
        },
        Object::Register(r) => {
            let cfg = r.cfg_attr.combine(parent);
            r.cfg_attr = cfg.clone();
            propagate_field_set(&mut r.field_set, &cfg);
        },
        Object::Command(c) => {
            let cfg = c.cfg_attr.combine(parent);
            c.cfg_attr = cfg.clone();
            propagate_opt_field_set(&mut c.field_set_in, &cfg);
            propagate_opt_field_set(&mut c.field_set_out, &cfg);
        },
        Object::Buffer(b) => {
            b.cfg_attr = b.cfg_attr.combine(parent);
        },
        Object::Ref(r) => {
            r.cfg_attr = r.cfg_attr.combine(parent);
        },
    }
}

proof fn lemma_objects_cfg_propagated(old: Seq<Object>, new: Seq<Object>, parent: Option<Seq<char>>)
    requires
        old.len() == new.len(),
        forall|i: int| 0 <= i < old.len() ==> #[trigger] object_cfg_propagated(old[i], new[i], parent),
    ensures
        objects_cfg_propagated(old, new, parent),
    decreases old.len(),
{
    if old.len() > 0 {
        let old_rest = old.subrange(1, old.len() as int);
        let new_rest = new.subrange(1, new.len() as int);
        assert forall|i: int| 0 <= i < old_rest.len() implies #[trigger] object_cfg_propagated(
            old_rest[i],
            new_rest[i],
            parent,
        ) by {
            assert(old_rest[i] == old[i + 1]);
            assert(new_rest[i] == new[i + 1]);
            assert(object_cfg_propagated(old[i + 1], new[i + 1], parent));
        }
        lemma_objects_cfg_propagated(old_rest, new_rest, parent);
        assert(object_cfg_propagated(old[0], new[0], parent));
    }
}

fn propagate_objects(objects: &mut Vec<Object>, parent: &Cfg)
    ensures
        objects_cfg_propagated(old(objects)@, final(objects)@, parent@),
    decreases *old(objects),
{
    let ghost old_objects = objects@;
    let mut i: usize = 0;
    while i < objects.len()
        invariant
            objects@.len() == old_objects.len(),
            old_objects == old(objects)@,
            i <= old_objects.len(),
            forall|j: int| i <= j < old_objects.len() ==> objects@[j] == old_objects[j],
            forall|j: int|
                0 <= j < i ==> #[trigger] object_cfg_propagated(old_objects[j], objects@[j], parent@),
        decreases old_objects.len() - i,
    {
        proof {
            vstd::std_specs::vec::axiom_vec_index_decreases(*old(objects), i as int);
        }
        propagate_object(&mut objects[i], parent);
        i = i + 1;
    }
    proof {
        lemma_objects_cfg_propagated(old_objects, objects@, parent@);
    }
}

/// Combines the condition of every object with the condition of the block it is in,
/// so that no object is active while a block above it is not, and gives the enum of a
/// field the condition of the field combined with that of its object.
pub fn run_pass(device: &mut Device)
    ensures
        objects_cfg_propagated(old(device).objects@, final(device).objects@, None),
        final(device).name == old(device).name,
        final(device).global_config == old(device).global_config,
{
    let root = Cfg::new(None);
    propagate_objects(&mut device.objects, &root);
}


/// What the pass carries from an object to the object it becomes holds of every object
/// after the pass below objects where `p` held before it.
pub proof fn lemma_cfg_carries(
    a: Seq<Object>,
    b: Seq<Object>,
    parent: Option<Seq<char>>,
    p: spec_fn(Object) -> bool,
    q: spec_fn(Object) -> bool,
)
    requires
        objects_cfg_propagated(a, b, parent),
        all_objects(a, p),
        forall|x: Object, y: Object, c: Option<Seq<char>>|
            #![trigger object_cfg_propagated(x, y, c)]
            object_cfg_propagated(x, y, c) && p(x) ==> q(y),
    ensures
        all_objects(b, q),
    decreases a, 1nat,
{
    if a.len() > 0 {
        lemma_cfg_object_carries(a[0], b[0], parent, p, q);
        lemma_cfg_carries(
            a.subrange(1, a.len() as int),
            b.subrange(1, b.len() as int),
            parent,
            p,
            q,
        );
    }
}

/// [`lemma_cfg_carries`] for one object and the objects below it.
pub proof fn lemma_cfg_object_carries(
    x: Object,
    y: Object,
    parent: Option<Seq<char>>,
    p: spec_fn(Object) -> bool,
    q: spec_fn(Object) -> bool,
)
    requires
        object_cfg_propagated(x, y, parent),
        object_and_below(x, p),
        forall|x: Object, y: Object, c: Option<Seq<char>>|
            #![trigger object_cfg_propagated(x, y, c)]
            object_cfg_propagated(x, y, c) && p(x) ==> q(y),
    ensures
        object_and_below(y, q),
    decreases x, 0nat,
{
    assert(p(x));
    if let (Object::Block(ob), Object::Block(nb)) = (x, y) {
        vstd::std_specs::vec::axiom_vec_decreases_to_view(ob.objects);
        let cfg = spec_cfg_combine(x.spec_cfg(), parent);
        lemma_cfg_carries(ob.objects@, nb.objects@, cfg, p, q);
    }
}

} // verus!
