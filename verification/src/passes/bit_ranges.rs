//! Checks that the bit ranges of fields fall within the size of their field set and
//! don't overlap where that isn't allowed.

use std::ops::Range;
use vstd::prelude::*;

use crate::error::Error;
use crate::mir::{all_objects, Device, Field, FieldSet, Object};
use crate::passes::walk::{check_err, check_objects, check_pred, first_error, ObjectCheck};

verus! {

/// The field lies within `size_bits` and has at least one bit.
pub open spec fn field_len_ok(field: Field, size_bits: u32) -> bool {
    field.field_address.end <= size_bits && field.field_address.start < field.field_address.end
}

/// Every field lies within `size_bits` and has at least one bit.
pub open spec fn fields_len_ok(fields: Seq<Field>, size_bits: u32) -> bool {
    forall|i: int| 0 <= i < fields.len() ==> #[trigger] field_len_ok(fields[i], size_bits)
}

/// The two bit ranges share a bit.
pub open spec fn spec_ranges_overlap(l: Range<u32>, r: Range<u32>) -> bool {
    l.start < r.end && r.start < l.end
}

/// No two fields share a bit.
pub open spec fn fields_disjoint(fields: Seq<Field>) -> bool {
    forall|i: int, j: int|
        0 <= i < j < fields.len() ==> !spec_ranges_overlap(
            #[trigger] fields[i].field_address,
            #[trigger] fields[j].field_address,
        )
}

/// The fields of the set lie within its size, and don't overlap unless that is allowed.
pub open spec fn field_set_ranges_ok(fs: FieldSet) -> bool {
    &&& fields_len_ok(fs.fields@, fs.size_bits)
    &&& (!fs.allow_bit_overlap ==> fields_disjoint(fs.fields@))
}

/// The bit ranges of the object's field sets are valid.
pub open spec fn bit_ranges_ok(object: Object) -> bool {
    match object {
        Object::Register(r) => field_set_ranges_ok(r.field_set),
        Object::Command(c) => {
            &&& (c.field_set_in matches Some(fs) ==> field_set_ranges_ok(fs))
            &&& (c.field_set_out matches Some(fs) ==> field_set_ranges_ok(fs))
        },
        _ => true,
    }
}

/// Whether `e` is the error of a refused object: that of its register's field set, or of
/// the first refused field set of its command, named after the command and `(in)` or
/// `(out)`.
pub open spec fn bit_ranges_error(object: Object, e: Error) -> bool {
    match object {
        Object::Register(r) => field_set_ranges_error(r.field_set, r.name@, e),
        Object::Command(c) => if c.field_set_in matches Some(fs) && !field_set_ranges_ok(fs) {
            field_set_ranges_error(c.field_set_in->0, c.name@ + " (in)"@, e)
        } else {
            c.field_set_out matches Some(fs) && field_set_ranges_error(fs, c.name@ + " (out)"@, e)
        },
        _ => false,
    }
}

/// Whether the two bit ranges share a bit.
pub fn ranges_overlap(l: &Range<u32>, r: &Range<u32>) -> (res: bool)
    ensures
        res == spec_ranges_overlap(*l, *r),
{
    l.start < r.end && r.start < l.end
}

/// Whether `e` is the error of the first field that lies outside `size_bits` or has no
/// bits: a field that reaches past the size, else a field without bits.
pub open spec fn first_len_error(fields: Seq<Field>, size_bits: u32, object_name: Seq<char>, e: Error) -> bool {
    exists|k: int|
        #![trigger fields[k]]
        0 <= k < fields.len() && !field_len_ok(fields[k], size_bits) && (forall|j: int|
            0 <= j < k ==> #[trigger] field_len_ok(fields[j], size_bits)) && if fields[k].field_address.end
            > size_bits {
            e matches Error::FieldExceedsSize { object_name: o, field_name: f } && o@ == object_name && f@
                == fields[k].name@
        } else {
            e matches Error::FieldZeroBits { object_name: o, field_name: f } && o@ == object_name && f@
                == fields[k].name@
        }
}

/// Whether `e` is the error of the first pair of fields that share a bit, by the first
/// field and then the second.
pub open spec fn first_overlap_error(fields: Seq<Field>, object_name: Seq<char>, e: Error) -> bool {
    exists|i: int, j: int|
        #![trigger fields[i], fields[j]]
        {
            &&& 0 <= i < j < fields.len()
            &&& spec_ranges_overlap(fields[i].field_address, fields[j].field_address)
            &&& no_overlap_before(fields, i, j)
            &&& overlap_error_at(fields, object_name, e, i, j)
        }
}

/// Whether `e` is the error of a refused field set of the object with the given name:
/// that of its first field outside the size, else that of its first overlapping pair.
pub open spec fn field_set_ranges_error(fs: FieldSet, object_name: Seq<char>, e: Error) -> bool {
    if !fields_len_ok(fs.fields@, fs.size_bits) {
        first_len_error(fs.fields@, fs.size_bits, object_name, e)
    } else {
        first_overlap_error(fs.fields@, object_name, e)
    }
}

/// Checks that every field lies within `size_bits` and has at least one bit. The
/// first field that doesn't gives the error.
pub fn validate_len(field_set: &Vec<Field>, size_bits: u32, object_name: &str) -> (res: Result<(), Error>)
    ensures
        res is Ok <==> fields_len_ok(field_set@, size_bits),
        res matches Err(e) ==> first_len_error(field_set@, size_bits, object_name@, e),
{
    let mut i: usize = 0;
    while i < field_set.len()
        invariant
            i <= field_set@.len(),
            forall|j: int| 0 <= j < i ==> #[trigger] field_len_ok(field_set@[j], size_bits),
        decreases field_set@.len() - i,
    {
        let field = &field_set[i];
        assert(field_len_ok(field_set@[i as int], size_bits) == (field.field_address.end <= size_bits
            && field.field_address.start < field.field_address.end));
        if field.field_address.end > size_bits {
            return Err(
                Error::FieldExceedsSize {
                    object_name: String::from_str(object_name),
                    field_name: field.name.clone(),
                },
            );
        }
        if !(field.field_address.start < field.field_address.end) {
            return Err(
                Error::FieldZeroBits {
                    object_name: String::from_str(object_name),
                    field_name: field.name.clone(),
                },
            );
        }
        i = i + 1;
    }
    Ok(())
}

/// No pair of fields before the pair at `i` and `j`, by the first field and then the
/// second, shares a bit.
pub open spec fn no_overlap_before(fields: Seq<Field>, i: int, j: int) -> bool {
    forall|a: int, b: int|
        #![trigger fields[a], fields[b]]
        0 <= a < b < fields.len() && (a < i || (a == i && b < j)) ==> !spec_ranges_overlap(
            fields[a].field_address,
            fields[b].field_address,
        )
}

/// Whether `e` is the error that names the fields at `i` and `j`.
pub open spec fn overlap_error_at(fields: Seq<Field>, object_name: Seq<char>, e: Error, i: int, j: int) -> bool {
    e matches Error::FieldsOverlap { object_name: o, field_name: f1, other_field_name: f2 } && o@ == object_name
        && f1@ == fields[i].name@ && f2@ == fields[j].name@
}

/// An overlapping pair with no overlapping pair before it is the first one.
proof fn lemma_first_overlap(fields: Seq<Field>, object_name: Seq<char>, e: Error, i: int, j: int)
    requires
        0 <= i < j < fields.len(),
        spec_ranges_overlap(fields[i].field_address, fields[j].field_address),
        forall|a: int, b: int|
            0 <= a < i && a < b < fields.len() ==> !spec_ranges_overlap(
                #[trigger] fields[a].field_address,
                #[trigger] fields[b].field_address,
            ),
        forall|b: int|
            i < b < j ==> !spec_ranges_overlap(fields[i].field_address, #[trigger] fields[b].field_address),
        overlap_error_at(fields, object_name, e, i, j),
    ensures
        first_overlap_error(fields, object_name, e),
{
    assert(no_overlap_before(fields, i, j)) by {
        assert forall|a: int, b: int|
            #![trigger fields[a], fields[b]]
            0 <= a < b < fields.len() && (a < i || (a == i && b < j)) implies !spec_ranges_overlap(
                fields[a].field_address,
                fields[b].field_address,
            ) by {
            if a < i {
                assert(!spec_ranges_overlap(fields[a].field_address, fields[b].field_address));
            } else {
                assert(!spec_ranges_overlap(fields[i].field_address, fields[b].field_address));
            }
        }
    }
}

/// Checks that no two fields share a bit. The first overlapping pair, by the first
/// field and then the second, gives the error.
pub fn validate_overlap(field_set: &Vec<Field>, object_name: &str) -> (res: Result<(), Error>)
    ensures
        res is Ok <==> fields_disjoint(field_set@),
        res matches Err(e) ==> first_overlap_error(field_set@, object_name@, e),
{
    let n = field_set.len();
    let mut i: usize = 0;
    while i < n
        invariant
            n == field_set@.len(),
            i <= n,
            forall|a: int, b: int|
                0 <= a < i && a < b < n ==> !spec_ranges_overlap(
                    #[trigger] field_set@[a].field_address,
                    #[trigger] field_set@[b].field_address,
                ),
        decreases n - i,
    {
        let mut j: usize = i + 1;
        while j < n
            invariant
                n == field_set@.len(),
                i < n,
                i + 1 <= j <= n,
                forall|a: int, b: int|
                    0 <= a < i && a < b < n ==> !spec_ranges_overlap(
                        #[trigger] field_set@[a].field_address,
                        #[trigger] field_set@[b].field_address,
                    ),
                forall|b: int|
                    i < b < j ==> !spec_ranges_overlap(
                        field_set@[i as int].field_address,
                        #[trigger] field_set@[b].field_address,
                    ),
            decreases n - j,
        {
            if ranges_overlap(&field_set[i].field_address, &field_set[j].field_address) {
                let e = Error::FieldsOverlap {
                    object_name: String::from_str(object_name),
                    field_name: field_set[i].name.clone(),
                    other_field_name: field_set[j].name.clone(),
                };
                proof {
                    lemma_first_overlap(field_set@, object_name@, e, i as int, j as int);
                }
                return Err(e);
            }
            j = j + 1;
        }
        i = i + 1;
    }
    Ok(())
}

/// Checks the fields of one field set of the object with the given name.
fn validate_field_set(fs: &FieldSet, object_name: &str) -> (res: Result<(), Error>)
    ensures
        res is Ok <==> field_set_ranges_ok(*fs),
        res matches Err(e) ==> field_set_ranges_error(*fs, object_name@, e),
{
    let r = validate_len(&fs.fields, fs.size_bits, object_name);
    if r.is_err() {
        return r;
    }
    if !fs.allow_bit_overlap {
        validate_overlap(&fs.fields, object_name)
    } else {
        Ok(())
    }
}

/// The name of a command followed by a marker of its input or output.
fn command_part_name(name: &String, marker: &str) -> (res: String)
    ensures
        res@ == name@ + marker@,
{
    let mut s = name.clone();
    s.append(marker);
    s
}

/// The check of the bit ranges of each object.
pub struct BitRangeCheck;

impl ObjectCheck for BitRangeCheck {
    open spec fn ok(&self, object: Object) -> bool {
        bit_ranges_ok(object)
    }

    open spec fn err(&self, object: Object, error: Error) -> bool {
        bit_ranges_error(object, error)
    }

    fn check(&self, object: &Object) -> (res: Result<(), Error>) {
        match object {
            Object::Register(r) => validate_field_set(&r.field_set, r.name.as_str()),
            Object::Command(c) => {
                if let Some(fs) = &c.field_set_in {
                    let name = command_part_name(&c.name, " (in)");
                    let r = validate_field_set(fs, name.as_str());
                    if r.is_err() {
                        return r;
                    }
                }
                if let Some(fs) = &c.field_set_out {
                    let name = command_part_name(&c.name, " (out)");
                    let r = validate_field_set(fs, name.as_str());
                    if r.is_err() {
                        return r;
                    }
                }
                Ok(())
            },
            _ => Ok(()),
        }
    }
}

/// Validates that the bit ranges of fields fall within the size of their field set
/// and don't overlap where the field set doesn't allow it.
pub fn run_pass(device: &Device) -> (res: Result<(), Error>)
    ensures
        res is Ok <==> all_objects(device.objects@, check_pred(&BitRangeCheck)),
        res matches Err(e) ==> first_error(device.objects@, check_pred(&BitRangeCheck), check_err(&BitRangeCheck), e),
{
    check_objects(&BitRangeCheck, &device.objects)
}

/// The range holds bit `i`.
pub open spec fn holds_bit(r: Range<u32>, i: int) -> bool {
    r.start <= i < r.end
}

/// Two bit ranges that each hold a bit overlap exactly when some bit lies in both, so
/// overlap doesn't depend on which range comes first.
pub proof fn lemma_overlap_is_shared_bit(l: Range<u32>, r: Range<u32>)
    requires
        l.start < l.end,
        r.start < r.end,
    ensures
        spec_ranges_overlap(l, r) <==> exists|i: int| #[trigger] holds_bit(l, i) && holds_bit(r, i),
        spec_ranges_overlap(l, r) == spec_ranges_overlap(r, l),
{
    if spec_ranges_overlap(l, r) {
        let i: int = if l.start < r.start {
            r.start as int
        } else {
            l.start as int
        };
        assert(holds_bit(l, i) && holds_bit(r, i));
    }
}

/// Fields accepted as disjoint share no bit, whichever of two fields is listed first.
pub proof fn lemma_disjoint_fields_share_no_bit(fields: Seq<Field>, i: int, j: int, bit: int)
    requires
        fields_disjoint(fields),
        0 <= i < fields.len(),
        0 <= j < fields.len(),
        i != j,
    ensures
        !(holds_bit(fields[i].field_address, bit) && holds_bit(fields[j].field_address, bit)),
{
    let a = if i < j {
        i
    } else {
        j
    };
    let b = if i < j {
        j
    } else {
        i
    };
    assert(!spec_ranges_overlap(fields[a].field_address, fields[b].field_address));
    if holds_bit(fields[i].field_address, bit) && holds_bit(fields[j].field_address, bit) {
        lemma_overlap_is_shared_bit(fields[a].field_address, fields[b].field_address);
    }
}

} // verus!
