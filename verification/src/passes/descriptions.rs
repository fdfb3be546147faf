//! Gives field sets without a description the description of their object.

use vstd::prelude::*;

use crate::error::Error;
use crate::mir::{all_objects, related_objects, same_block_header, Block, Device, FieldSet, Object};
use crate::passes::walk::{
    ok_pred, pre_pred, rel_rel, same_command_but_field_sets, same_register_but_field_set,
    visit_objects, ObjectVisitor,
};

verus! {

/// The field set after the pass: an empty description becomes the description of the
/// object, when that one is not empty.
pub open spec fn description_set(old: FieldSet, new: FieldSet, object_description: Seq<char>) -> bool {
    &&& new.description@ == if object_description.len() > 0 && old.description@.len() == 0 {
        object_description
    } else {
        old.description@
    }
    &&& new.size_bits == old.size_bits
    &&& new.byte_order == old.byte_order
    &&& new.bit_order == old.bit_order
    &&& new.allow_bit_overlap == old.allow_bit_overlap
    &&& new.fields == old.fields
}

/// The optional field set after the pass.
pub open spec fn opt_description_set(
    old: Option<FieldSet>,
    new: Option<FieldSet>,
    object_description: Seq<char>,
) -> bool {
    match (old, new) {
        (Some(o), Some(n)) => description_set(o, n, object_description),
        (None, None) => true,
        _ => false,
    }
}

fn set_description(fs: &mut FieldSet, description: &String)
    ensures
        description_set(*old(fs), *final(fs), description@),
{
    if !description.as_str().is_empty() && fs.description.as_str().is_empty() {
        fs.description = description.clone();
    }
}

fn set_opt_description(fs: &mut Option<FieldSet>, description: &String)
    ensures
        opt_description_set(*old(fs), *final(fs), description@),
{
    match fs {
        Some(f) => set_description(f, description),
        None => {},
    }
}

/// The filling in of field set descriptions.
pub struct DescriptionCompletion;

impl ObjectVisitor for DescriptionCompletion {
    open spec fn pre(&self, object: Object) -> bool {
        true
    }

    open spec fn ok(&self, object: Object) -> bool {
        true
    }

    open spec fn err(&self, object: Object, e: Error) -> bool {
        false
    }

    open spec fn rel(&self, old: Object, new: Object) -> bool {
        match (old, new) {
            (Object::Register(o), Object::Register(n)) => same_register_but_field_set(o, n)
                && description_set(o.field_set, n.field_set, o.description@),
            (Object::Command(o), Object::Command(n)) => same_command_but_field_sets(o, n)
                && opt_description_set(o.field_set_in, n.field_set_in, o.description@)
                && opt_description_set(o.field_set_out, n.field_set_out, o.description@),
            (Object::Block(o), Object::Block(n)) => same_block_header(o, n),
            _ => old == new,
        }
    }

    proof fn lemma_rel_ignores_objects(&self, old: Block, mid: Block, new: Block) {
    }

    fn visit(&self, object: &mut Object) -> (res: Result<(), Error>) {
        match object {
            Object::Register(r) => set_description(&mut r.field_set, &r.description),
            Object::Command(c) => {
                set_opt_description(&mut c.field_set_in, &c.description);
                set_opt_description(&mut c.field_set_out, &c.description);
            },
            _ => {},
        }
        Ok(())
    }
}

/// Gives every field set without a description the description of its object.
pub fn run_pass(device: &mut Device)
    ensures
        related_objects(old(device).objects@, final(device).objects@, rel_rel(&DescriptionCompletion)),
        final(device).name == old(device).name,
        final(device).global_config == old(device).global_config,
{
    let v = DescriptionCompletion;
    proof {
        assert forall|o: Object| #[trigger] pre_pred(&v)(o) by {}
        crate::mir::lemma_all_objects_holds(device.objects@, pre_pred(&v));
        assert forall|o: Object| #[trigger] ok_pred(&v)(o) by {}
        crate::mir::lemma_all_objects_holds(device.objects@, ok_pred(&v));
    }
    let _ = visit_objects(&v, &mut device.objects);
}

} // verus!
