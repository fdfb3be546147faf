//! Fills in the byte order of every field set, and checks that it is given where it
//! matters.

use vstd::prelude::*;

use crate::error::Error;
use crate::mir::{all_objects, related_objects, same_block_header, Block, ByteOrder, Device, FieldSet, Object};
use crate::passes::walk::{err_rel, first_error, ok_pred, pre_pred, rel_rel, same_command_but_field_sets, same_register_but_field_set, visit_objects, ObjectVisitor};

verus! {

/// A field set bigger than a byte without a byte order is refused, unless there is a
/// global default.
pub open spec fn field_set_byte_order_ok(fs: FieldSet, default: Option<ByteOrder>) -> bool {
    default is None ==> !(fs.size_bits > 8 && fs.byte_order is None)
}

/// The byte order a field set gets: the global default when there is one, else its
/// own, else little endian.
pub open spec fn filled_byte_order(fs: FieldSet, default: Option<ByteOrder>) -> ByteOrder {
    match default {
        Some(d) => d,
        None => match fs.byte_order {
            Some(b) => b,
            None => ByteOrder::LE,
        },
    }
}

/// The field set after the pass: only the byte order is filled in.
pub open spec fn byte_order_filled(old: FieldSet, new: FieldSet, default: Option<ByteOrder>) -> bool {
    &&& new.description == old.description
    &&& new.size_bits == old.size_bits
    &&& new.byte_order == Some(filled_byte_order(old, default))
    &&& new.bit_order == old.bit_order
    &&& new.allow_bit_overlap == old.allow_bit_overlap
    &&& new.fields == old.fields
}

/// The optional field set after the pass.
pub open spec fn opt_byte_order_filled(
    old: Option<FieldSet>,
    new: Option<FieldSet>,
    default: Option<ByteOrder>,
) -> bool {
    match (old, new) {
        (Some(o), Some(n)) => byte_order_filled(o, n, default),
        (None, None) => true,
        _ => false,
    }
}

/// The error of a field set without a byte order, of the object with the given kind and
/// name.
pub open spec fn no_byte_order_error(e: Error, object_type_name: Seq<char>, object_name: Seq<char>) -> bool {
    e matches Error::NoByteOrder { object_type_name: t, object_name: n } && t@ == object_type_name
        && n@ == object_name
}

/// The filling in of byte orders, with the global default.
pub struct ByteOrderCompletion {
    pub default: Option<ByteOrder>,
}

fn fill_byte_order(
    fs: &mut FieldSet,
    default: Option<ByteOrder>,
    object_type_name: &str,
    object_name: &String,
) -> (res: Result<(), Error>)
    ensures
        res is Ok <==> field_set_byte_order_ok(*old(fs), default),
        res is Ok ==> byte_order_filled(*old(fs), *final(fs), default),
        res matches Err(e) ==> e matches Error::NoByteOrder { object_type_name: t, object_name: n }
            && t@ == object_type_name@ && n@ == object_name@,
{
    match default {
        Some(d) => {
            fs.byte_order = Some(d);
            Ok(())
        },
        None => {
            if fs.size_bits > 8 && fs.byte_order.is_none() {
                return Err(
                    Error::NoByteOrder {
                        object_type_name: String::from_str(object_type_name),
                        object_name: object_name.clone(),
                    },
                );
            }
            if fs.byte_order.is_none() {
                fs.byte_order = Some(ByteOrder::LE);
            }
            Ok(())
        },
    }
}

fn fill_opt_byte_order(
    fs: &mut Option<FieldSet>,
    default: Option<ByteOrder>,
    object_type_name: &str,
    object_name: &String,
) -> (res: Result<(), Error>)
    ensures
        res is Ok <==> (*old(fs) matches Some(f) ==> field_set_byte_order_ok(f, default)),
        res matches Err(e) ==> no_byte_order_error(e, object_type_name@, object_name@),
        res is Ok ==> opt_byte_order_filled(*old(fs), *final(fs), default),
{
    match fs {
        Some(f) => fill_byte_order(f, default, object_type_name, object_name),
        None => Ok(()),
    }
}

impl ObjectVisitor for ByteOrderCompletion {
    open spec fn pre(&self, object: Object) -> bool {
        true
    }

    open spec fn ok(&self, object: Object) -> bool {
        match object {
            Object::Register(r) => field_set_byte_order_ok(r.field_set, self.default),
            Object::Command(c) => {
                &&& (c.field_set_in matches Some(f) ==> field_set_byte_order_ok(f, self.default))
                &&& (c.field_set_out matches Some(f) ==> field_set_byte_order_ok(f, self.default))
            },
            _ => true,
        }
    }

    open spec fn rel(&self, old: Object, new: Object) -> bool {
        match (old, new) {
            (Object::Register(o), Object::Register(n)) => same_register_but_field_set(o, n)
                && byte_order_filled(o.field_set, n.field_set, self.default),
            (Object::Command(o), Object::Command(n)) => same_command_but_field_sets(o, n)
                && opt_byte_order_filled(o.field_set_in, n.field_set_in, self.default)
                && opt_byte_order_filled(o.field_set_out, n.field_set_out, self.default),
            (Object::Block(o), Object::Block(n)) => same_block_header(o, n),
            _ => old == new,
        }
    }

    open spec fn err(&self, object: Object, e: Error) -> bool {
        match object {
            Object::Register(r) => no_byte_order_error(e, "register"@, r.name@),
            Object::Command(c) => no_byte_order_error(e, "command"@, c.name@),
            _ => false,
        }
    }

    proof fn lemma_rel_ignores_objects(&self, old: Block, mid: Block, new: Block) {
    }

    fn visit(&self, object: &mut Object) -> (res: Result<(), Error>) {
        match object {
            Object::Register(r) => fill_byte_order(&mut r.field_set, self.default, "register", &r.name),
            Object::Command(c) => {
                let r = fill_opt_byte_order(&mut c.field_set_in, self.default, "command", &c.name);
                if r.is_err() {
                    return r;
                }
                fill_opt_byte_order(&mut c.field_set_out, self.default, "command", &c.name)
            },
            _ => Ok(()),
        }
    }
}

/// The filling in of byte orders of the device, as a visit of every object.
pub open spec fn byte_order_visitor(device: Device) -> ByteOrderCompletion {
    ByteOrderCompletion { default: device.global_config.default_byte_order }
}

/// Fills in the byte order of every field set. A global default byte order is given to
/// all field sets; without one, a field set bigger than a byte must have its own, and
/// smaller ones without one get little endian.
pub fn run_pass(device: &mut Device) -> (res: Result<(), Error>)
    ensures
        res is Ok <==> all_objects(old(device).objects@, ok_pred(&byte_order_visitor(*old(device)))),
        res matches Err(e) ==> first_error(
            old(device).objects@,
            ok_pred(&byte_order_visitor(*old(device))),
            err_rel(&byte_order_visitor(*old(device))),
            e,
        ),
        res is Ok ==> related_objects(
            old(device).objects@,
            final(device).objects@,
            rel_rel(&byte_order_visitor(*old(device))),
        ),
        final(device).name == old(device).name,
        final(device).global_config == old(device).global_config,
{
    let v = ByteOrderCompletion { default: device.global_config.default_byte_order };
    proof {
        assert forall|o: Object| #[trigger] pre_pred(&v)(o) by {}
        crate::mir::lemma_all_objects_holds(device.objects@, pre_pred(&v));
    }
    visit_objects(&v, &mut device.objects)
}

} // verus!
