//! Turns unspecified base types into bools or unsigned integers by the size of the field.

use vstd::prelude::*;

use crate::error::Error;
use crate::mir::{all_objects, related_objects, BaseType, Device, Field, Object};
use crate::passes::walk::{ok_pred, pre_pred, rel_rel, visit_objects, EachField, FieldVisitor};

verus! {

/// The number of bits of the field.
pub open spec fn field_len(field: Field) -> int {
    if field.field_address.end > field.field_address.start {
        field.field_address.end - field.field_address.start
    } else {
        0
    }
}

/// The base type the field has after the pass: a field of one bit becomes a bool, a
/// longer one an unsigned integer.
pub open spec fn specified_base_type(field: Field) -> BaseType {
    if field.base_type == BaseType::Unspecified {
        if field_len(field) == 1 {
            BaseType::Bool
        } else {
            BaseType::Uint
        }
    } else {
        field.base_type
    }
}

/// The field after the pass: only the base type may change.
pub open spec fn base_type_specified(old: Field, new: Field) -> bool {
    &&& new.cfg_attr == old.cfg_attr
    &&& new.description == old.description
    &&& new.name == old.name
    &&& new.access == old.access
    &&& new.base_type == specified_base_type(old)
    &&& new.field_conversion == old.field_conversion
    &&& new.field_address == old.field_address
}

/// The completion of base types.
pub struct BaseTypeCompletion;

impl FieldVisitor for BaseTypeCompletion {
    open spec fn field_pre(&self, field: Field) -> bool {
        field.base_type == BaseType::Unspecified ==> field_len(field) > 0
    }

    open spec fn field_ok(&self, field: Field) -> bool {
        true
    }

    open spec fn field_err(&self, object_name: Seq<char>, field: Field, e: Error) -> bool {
        false
    }

    open spec fn field_rel(&self, old: Field, new: Field) -> bool {
        base_type_specified(old, new)
    }

    fn visit_field(&self, object_name: &String, field: &mut Field) -> (res: Result<(), Error>) {
        if field.base_type == BaseType::Unspecified {
            let len: u32 = if field.field_address.end > field.field_address.start {
                field.field_address.end - field.field_address.start
            } else {
                0
            };
            field.base_type = if len == 1 {
                BaseType::Bool
            } else {
                BaseType::Uint
            };
        }
        Ok(())
    }
}

/// The completion of base types, as a visit of every object.
pub open spec fn base_type_visitor() -> EachField<BaseTypeCompletion> {
    EachField { visitor: BaseTypeCompletion }
}

/// Turns every unspecified base type into a bool for a one-bit field and an unsigned
/// integer for a longer one. Fields of zero bits are refused by the bit range check
/// before this pass.
pub fn run_pass(device: &mut Device)
    requires
        all_objects(old(device).objects@, pre_pred(&base_type_visitor())),
    ensures
        related_objects(old(device).objects@, final(device).objects@, rel_rel(&base_type_visitor())),
        final(device).name == old(device).name,
        final(device).global_config == old(device).global_config,
{
    let v = EachField { visitor: BaseTypeCompletion };
    let res = visit_objects(&v, &mut device.objects);
    proof {
        assert forall|o: Object| #[trigger] ok_pred(&v)(o) by {}
        crate::mir::lemma_all_objects_holds(old(device).objects@, ok_pred(&v));
    }
}

} // verus!
