//! Checks bool fields: they are one bit long and have no conversion.

use vstd::prelude::*;

use crate::error::Error;
use crate::mir::{all_objects, related_objects, BaseType, Device, Field};
use crate::passes::walk::{err_rel, first_error, ok_pred, pre_pred, rel_rel, same_field_but_conversion, visit_objects, EachField, FieldVisitor};

verus! {

/// A bool field of zero bits can be extended by one bit.
pub open spec fn bool_field_pre(field: Field) -> bool {
    field.base_type == BaseType::Bool && field.field_address.start == field.field_address.end
        ==> field.field_address.end < u32::MAX
}

/// The bit range of the field once a zero-bit bool field is extended to one bit.
pub open spec fn bool_field_end(field: Field) -> u32 {
    if field.base_type == BaseType::Bool && field.field_address.start == field.field_address.end {
        (field.field_address.end + 1) as u32
    } else {
        field.field_address.end
    }
}

/// The field is not a bool, or it is one bit long (once extended) without a conversion.
pub open spec fn bool_field_ok(field: Field) -> bool {
    field.base_type == BaseType::Bool ==> {
        &&& bool_field_end(field) - field.field_address.start == 1
        &&& field.field_conversion is None
    }
}

/// The error of a refused bool field: it is too large when it isn't one bit long (once
/// extended), and else it has a conversion.
pub open spec fn bool_field_error(object_name: Seq<char>, field: Field, e: Error) -> bool {
    if bool_field_end(field) - field.field_address.start != 1 {
        e matches Error::BoolFieldTooLarge { object_name: o, field_name: f } && o@ == object_name
            && f@ == field.name@
    } else {
        e matches Error::BoolFieldWithConversion { object_name: o, field_name: f } && o@ == object_name
            && f@ == field.name@
    }
}

/// The field after the check: only a zero-bit bool field changes, by one bit at its end.
pub open spec fn bool_field_checked(old: Field, new: Field) -> bool {
    &&& new.cfg_attr == old.cfg_attr
    &&& new.description == old.description
    &&& new.name == old.name
    &&& new.access == old.access
    &&& new.base_type == old.base_type
    &&& new.field_conversion == old.field_conversion
    &&& new.field_address.start == old.field_address.start
    &&& new.field_address.end == bool_field_end(old)
}

/// The check of bool fields.
pub struct BoolFieldCheck;

impl FieldVisitor for BoolFieldCheck {
    open spec fn field_pre(&self, field: Field) -> bool {
        bool_field_pre(field)
    }

    open spec fn field_ok(&self, field: Field) -> bool {
        bool_field_ok(field)
    }

    open spec fn field_rel(&self, old: Field, new: Field) -> bool {
        bool_field_checked(old, new)
    }

    open spec fn field_err(&self, object_name: Seq<char>, field: Field, e: Error) -> bool {
        bool_field_error(object_name, field, e)
    }

    fn visit_field(&self, object_name: &String, field: &mut Field) -> (res: Result<(), Error>) {
        if field.base_type == BaseType::Bool {
            if field.field_address.start == field.field_address.end {
                field.field_address.end = field.field_address.end + 1;
            }
            if field.field_address.start >= field.field_address.end
                || field.field_address.end - field.field_address.start != 1 {
                return Err(
                    Error::BoolFieldTooLarge {
                        object_name: object_name.clone(),
                        field_name: field.name.clone(),
                    },
                );
            }
            if field.field_conversion.is_some() {
                return Err(
                    Error::BoolFieldWithConversion {
                        object_name: object_name.clone(),
                        field_name: field.name.clone(),
                    },
                );
            }
        }
        Ok(())
    }
}

/// The check of bool fields, as a visit of every object.
pub open spec fn bool_visitor() -> EachField<BoolFieldCheck> {
    EachField { visitor: BoolFieldCheck }
}

/// Checks all bool fields: a field of zero bits is extended to one bit, and then
/// every bool field must be one bit long and have no conversion.
pub fn run_pass(device: &mut Device) -> (res: Result<(), Error>)
    requires
        all_objects(old(device).objects@, pre_pred(&bool_visitor())),
    ensures
        res is Ok <==> all_objects(old(device).objects@, ok_pred(&bool_visitor())),
        res matches Err(e) ==> first_error(old(device).objects@, ok_pred(&bool_visitor()), err_rel(&bool_visitor()), e),
        res is Ok ==> related_objects(
            old(device).objects@,
            final(device).objects@,
            rel_rel(&bool_visitor()),
        ),
        final(device).name == old(device).name,
        final(device).global_config == old(device).global_config,
{
    let v = EachField { visitor: BoolFieldCheck };
    visit_objects(&v, &mut device.objects)
}

} // verus!
