//! Fills in the bit order of every field set that has none with the global default.

use vstd::prelude::*;

use crate::error::Error;
use crate::mir::{all_objects, related_objects, same_block_header, BitOrder, Block, Device, FieldSet, Object};
use crate::passes::walk::{
    ok_pred, pre_pred, rel_rel, same_command_but_field_sets, same_register_but_field_set,
    visit_objects, ObjectVisitor,
};

verus! {

/// The field set after the pass: a missing bit order is the default.
pub open spec fn bit_order_filled(old: FieldSet, new: FieldSet, default: BitOrder) -> bool {
    &&& new.description == old.description
    &&& new.size_bits == old.size_bits
    &&& new.byte_order == old.byte_order
    &&& new.bit_order == Some(
        match old.bit_order {
            Some(b) => b,
            None => default,
        },
    )
    &&& new.allow_bit_overlap == old.allow_bit_overlap
    &&& new.fields == old.fields
}

/// The optional field set after the pass.
pub open spec fn opt_bit_order_filled(old: Option<FieldSet>, new: Option<FieldSet>, default: BitOrder) -> bool {
    match (old, new) {
        (Some(o), Some(n)) => bit_order_filled(o, n, default),
        (None, None) => true,
        _ => false,
    }
}

/// The filling in of bit orders, with the global default.
pub struct BitOrderCompletion {
    pub default: BitOrder,
}

fn fill_bit_order(fs: &mut FieldSet, default: BitOrder)
    ensures
        bit_order_filled(*old(fs), *final(fs), default),
{
    if fs.bit_order.is_none() {
        fs.bit_order = Some(default);
    }
}

fn fill_opt_bit_order(fs: &mut Option<FieldSet>, default: BitOrder)
    ensures
        opt_bit_order_filled(*old(fs), *final(fs), default),
{
    match fs {
        Some(f) => fill_bit_order(f, default),
        None => {},
    }
}

impl ObjectVisitor for BitOrderCompletion {
    open spec fn pre(&self, object: Object) -> bool {
        true
    }

    open spec fn ok(&self, object: Object) -> bool {
        true
    }

    open spec fn err(&self, object: Object, e: Error) -> bool {
        false
    }

    open spec fn rel(&self, old: Object, new: Object) -> bool {
        match (old, new) {
            (Object::Register(o), Object::Register(n)) => same_register_but_field_set(o, n)
                && bit_order_filled(o.field_set, n.field_set, self.default),
            (Object::Command(o), Object::Command(n)) => same_command_but_field_sets(o, n)
                && opt_bit_order_filled(o.field_set_in, n.field_set_in, self.default)
                && opt_bit_order_filled(o.field_set_out, n.field_set_out, self.default),
            (Object::Block(o), Object::Block(n)) => same_block_header(o, n),
            _ => old == new,
        }
    }

    proof fn lemma_rel_ignores_objects(&self, old: Block, mid: Block, new: Block) {
    }

    fn visit(&self, object: &mut Object) -> (res: Result<(), Error>) {
        match object {
            Object::Register(r) => fill_bit_order(&mut r.field_set, self.default),
            Object::Command(c) => {
                fill_opt_bit_order(&mut c.field_set_in, self.default);
                fill_opt_bit_order(&mut c.field_set_out, self.default);
            },
            _ => {},
        }
        Ok(())
    }
}

/// The filling in of bit orders of the device, as a visit of every object.
pub open spec fn bit_order_visitor(device: Device) -> BitOrderCompletion {
    BitOrderCompletion { default: device.global_config.default_bit_order }
}

/// Gives every field set without a bit order the global default bit order.
pub fn run_pass(device: &mut Device)
    ensures
        related_objects(
            old(device).objects@,
            final(device).objects@,
            rel_rel(&bit_order_visitor(*old(device))),
        ),
        final(device).name == old(device).name,
        final(device).global_config == old(device).global_config,
{
    let v = BitOrderCompletion { default: device.global_config.default_bit_order };
    proof {
        assert forall|o: Object| #[trigger] pre_pred(&v)(o) by {}
        crate::mir::lemma_all_objects_holds(device.objects@, pre_pred(&v));
        assert forall|o: Object| #[trigger] ok_pred(&v)(o) by {}
        crate::mir::lemma_all_objects_holds(device.objects@, ok_pred(&v));
    }
    let _ = visit_objects(&v, &mut device.objects);
}

} // verus!
