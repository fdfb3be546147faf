//! Checks the reset values of registers and brings them into their byte form.

use vstd::prelude::*;

use crate::bits::{any_bit_from, any_bit_set_from};
use crate::error::Error;
use crate::mir::{
    all_objects, lemma_all_objects, lemma_related_objects, object_and_below, related_object, related_objects, same_block_header, BitOrder,
    ByteOrder,
    Device, Object, Register, ResetValue, ResetValueView,
};
use crate::passes::walk::{first_error, lemma_first_error_at, object_first_error};

verus! {

/// The number of bytes that hold `size_bits` bits.
pub open spec fn target_byte_size(size_bits: u32) -> int {
    (size_bits as int + 7) / 8
}

/// The sixteen bytes of the value, least significant first.
pub open spec fn le_bytes(value: u128) -> Seq<u8> {
    Seq::new(16, |k: int| ((value >> ((8 * k) as u32)) & 0xffu128) as u8)
}

/// The bytes, least significant first, put in the given byte order.
pub open spec fn in_byte_order(le: Seq<u8>, order: ByteOrder) -> Seq<u8> {
    match order {
        ByteOrder::LE => le,
        ByteOrder::BE => le.reverse(),
    }
}

/// What is wrong with a reset value.
#[derive(Debug, Clone, Copy, PartialEq, Eq, Structural)]
pub enum ResetValueFault {
    /// A bit at or above the size of the object is one.
    BitsAboveSize,
    /// The bytes are not as many as the object needs.
    WrongLength,
}

/// The bytes a reset value stands for in the given orders, or what is wrong with it.
///
/// An integer is taken as a number: its bits above the size must be zero, and its
/// lowest bytes are laid out in the byte order. Bytes are taken as they are written
/// in the byte and bit order: there must be as many as the size needs, and no bit
/// above the size may be one.
pub open spec fn spec_convert_reset_value(
    reset_value: ResetValueView,
    bit_order: BitOrder,
    size_bits: u32,
    byte_order: ByteOrder,
) -> Result<Seq<u8>, ResetValueFault> {
    match reset_value {
        ResetValueView::Integer(value) => {
            if any_bit_from(le_bytes(value), size_bits as int, bit_order) {
                Err(ResetValueFault::BitsAboveSize)
            } else {
                Ok(in_byte_order(le_bytes(value).take(target_byte_size(size_bits)), byte_order))
            }
        },
        ResetValueView::Array(bytes) => {
            if bytes.len() != target_byte_size(size_bits) {
                Err(ResetValueFault::WrongLength)
            } else if any_bit_from(in_byte_order(bytes, byte_order), size_bits as int, bit_order) {
                Err(ResetValueFault::BitsAboveSize)
            } else {
                Ok(bytes)
            }
        },
    }
}

/// Whether the conversion of the reset value can be computed: an integer can only be
/// checked up to its 128 bits.
pub open spec fn reset_value_convertible(reset_value: ResetValueView, size_bits: u32) -> bool {
    reset_value is Integer ==> size_bits <= 128
}

/// The bytes of `v` in reverse order.
pub fn reversed(v: &Vec<u8>) -> (res: Vec<u8>)
    ensures
        res@ == v@.reverse(),
{
    let mut res: Vec<u8> = Vec::new();
    let n = v.len();
    let mut i: usize = 0;
    while i < n
        invariant
            n == v@.len(),
            i <= n,
            res@.len() == i,
            forall|j: int| 0 <= j < i ==> res@[j] == v@[n - 1 - j],
        decreases n - i,
    {
        res.push(v[n - 1 - i]);
        i = i + 1;
    }
    assert(res@ =~= v@.reverse());
    res
}

/// The bytes of the value, least significant first.
fn to_le_bytes(value: u128) -> (res: Vec<u8>)
    ensures
        res@ == le_bytes(value),
{
    let mut res: Vec<u8> = Vec::new();
    let mut k: u32 = 0;
    while k < 16
        invariant
            k <= 16,
            res@ == le_bytes(value).take(k as int),
        decreases 16 - k,
    {
        let byte = ((value >> (8 * k)) & 0xff) as u8;
        assert(byte == le_bytes(value)[k as int]);
        res.push(byte);
        k = k + 1;
        assert(res@ =~= le_bytes(value).take(k as int));
    }
    assert(le_bytes(value).take(16) =~= le_bytes(value));
    res
}

/// Checks a reset value against the size, bit order and byte order of its object,
/// and gives it as bytes in those orders.
pub fn convert_reset_value(
    reset_value: ResetValue,
    bit_order: BitOrder,
    size_bits: u32,
    object_type_name: &str,
    object_name: &str,
    target_byte_order: ByteOrder,
) -> (res: Result<ResetValue, Error>)
    requires
        reset_value_convertible(reset_value@, size_bits),
    ensures
        match spec_convert_reset_value(reset_value@, bit_order, size_bits, target_byte_order) {
            Ok(bytes) => res matches Ok(ResetValue::Array(v)) && v@ == bytes,
            Err(ResetValueFault::BitsAboveSize) => res matches Err(
                Error::ResetValueTooBig { object_type_name: t, object_name: n, size_bits: s },
            ) && t@ == object_type_name@ && n@ == object_name@ && s == size_bits,
            Err(ResetValueFault::WrongLength) => res matches Err(
                Error::ResetValueWrongLength {
                    object_type_name: t,
                    object_name: n,
                    expected_bytes: e,
                    actual_bytes: a,
                },
            ) && t@ == object_type_name@ && n@ == object_name@ && e == target_byte_size(size_bits)
                && (reset_value matches ResetValue::Array(bytes) && a == bytes@.len()),
        },
{
    let byte_size: u32 = size_bits / 8 + if size_bits % 8 == 0 { 0 } else { 1 };
    assert(byte_size == target_byte_size(size_bits));
    match reset_value {
        ResetValue::Integer(value) => {
            let array = to_le_bytes(value);
            if any_bit_set_from(array.as_slice(), size_bits as usize, bit_order) {
                return Err(
                    Error::ResetValueTooBig {
                        object_type_name: String::from_str(object_type_name),
                        object_name: String::from_str(object_name),
                        size_bits,
                    },
                );
            }
            let mut final_array: Vec<u8> = Vec::new();
            let mut i: u32 = 0;
            while i < byte_size
                invariant
                    byte_size <= 16,
                    array@ == le_bytes(value),
                    i <= byte_size,
                    final_array@ == array@.take(i as int),
                decreases byte_size - i,
            {
                final_array.push(array[i as usize]);
                i = i + 1;
                assert(final_array@ =~= array@.take(i as int));
            }
            match target_byte_order {
                ByteOrder::LE => Ok(ResetValue::Array(final_array)),
                ByteOrder::BE => Ok(ResetValue::Array(reversed(&final_array))),
            }
        },
        ResetValue::Array(array) => {
            if array.len() != byte_size as usize {
                return Err(
                    Error::ResetValueWrongLength {
                        object_type_name: String::from_str(object_type_name),
                        object_name: String::from_str(object_name),
                        expected_bytes: byte_size,
                        actual_bytes: array.len(),
                    },
                );
            }
            let le = match target_byte_order {
                ByteOrder::LE => array.clone(),
                ByteOrder::BE => reversed(&array),
            };
            if any_bit_set_from(le.as_slice(), size_bits as usize, bit_order) {
                return Err(
                    Error::ResetValueTooBig {
                        object_type_name: String::from_str(object_type_name),
                        object_name: String::from_str(object_name),
                        size_bits,
                    },
                );
            }
            Ok(ResetValue::Array(array))
        },
    }
}

/// What the conversion needs of an object: a register with a reset value has its
/// bit and byte order filled in, and an integer reset value can be checked.
pub open spec fn reset_precondition(object: Object) -> bool {
    match object {
        Object::Register(r) => match r.reset_value {
            Some(rv) => {
                &&& r.field_set.bit_order is Some
                &&& r.field_set.byte_order is Some
                &&& reset_value_convertible(rv@, r.field_set.size_bits)
            },
            None => true,
        },
        _ => true,
    }
}

/// The outcome of converting the reset value of a register, in its own size and orders.
pub open spec fn register_reset_outcome(r: Register) -> Result<Seq<u8>, ResetValueFault>
    recommends
        r.reset_value is Some,
{
    spec_convert_reset_value(
        r.reset_value.unwrap()@,
        r.field_set.bit_order.unwrap(),
        r.field_set.size_bits,
        r.field_set.byte_order.unwrap(),
    )
}

/// The object has no reset value that the conversion refuses.
pub open spec fn reset_value_valid(object: Object) -> bool {
    match object {
        Object::Register(r) => r.reset_value is Some ==> register_reset_outcome(r) is Ok,
        _ => true,
    }
}

/// Whether `e` is the error of a register whose reset value the conversion refuses: too
/// big when a bit above the size is one, else of the wrong length.
pub open spec fn reset_value_error(object: Object, e: Error) -> bool {
    object matches Object::Register(r) && r.reset_value is Some && match register_reset_outcome(r) {
        Err(ResetValueFault::BitsAboveSize) => e matches Error::ResetValueTooBig {
            object_type_name: t,
            object_name: n,
            size_bits: s,
        } && t@ == "register"@ && n@ == r.name@ && s == r.field_set.size_bits,
        Err(ResetValueFault::WrongLength) => e matches Error::ResetValueWrongLength {
            object_type_name: t,
            object_name: n,
            expected_bytes: x,
            actual_bytes: a,
        } && t@ == "register"@ && n@ == r.name@ && x == target_byte_size(r.field_set.size_bits) && (
        r.reset_value->0@ matches ResetValueView::Array(bytes) && a == bytes.len()),
        Ok(_) => false,
    }
}

/// [`reset_value_error`] as a relation between objects and errors.
pub open spec fn reset_value_error_rel() -> spec_fn(Object, Error) -> bool {
    |o: Object, e: Error| reset_value_error(o, e)
}

/// The two registers agree on everything but the reset value.
pub open spec fn same_register_but_reset(a: Register, b: Register) -> bool {
    &&& a.cfg_attr == b.cfg_attr
    &&& a.description == b.description
    &&& a.name == b.name
    &&& a.access == b.access
    &&& a.allow_address_overlap == b.allow_address_overlap
    &&& a.address == b.address
    &&& a.repeat == b.repeat
    &&& a.field_set == b.field_set
}

/// `new` is `old` with the reset value of a register replaced by its bytes.
pub open spec fn reset_converted(old: Object, new: Object) -> bool {
    match (old, new) {
        (Object::Register(o), Object::Register(n)) => {
            &&& same_register_but_reset(o, n)
            &&& match o.reset_value {
                None => n.reset_value is None,
                Some(_) => n.reset_value matches Some(rv) && rv@ == ResetValueView::Array(
                    register_reset_outcome(o).unwrap(),
                ),
            }
        },
        (Object::Block(o), Object::Block(n)) => same_block_header(o, n),
        _ => old == new,
    }
}

/// [`reset_precondition`] as a predicate on objects.
pub open spec fn reset_precondition_pred() -> spec_fn(Object) -> bool {
    |o: Object| reset_precondition(o)
}

/// [`reset_value_valid`] as a predicate on objects.
pub open spec fn reset_value_valid_pred() -> spec_fn(Object) -> bool {
    |o: Object| reset_value_valid(o)
}

/// [`reset_converted`] as a relation on objects.
pub open spec fn reset_converted_rel() -> spec_fn(Object, Object) -> bool {
    |a: Object, b: Object| reset_converted(a, b)
}

fn convert_object_reset_values(object: &mut Object) -> (res: Result<(), Error>)
    requires
        object_and_below(*old(object), reset_precondition_pred()),
    ensures
        res is Ok <==> object_and_below(*old(object), reset_value_valid_pred()),
        res matches Err(e) ==> object_first_error(*old(object), reset_value_valid_pred(), reset_value_error_rel(), e),
        res is Ok ==> related_object(*old(object), *final(object), reset_converted_rel()),
    decreases *old(object),
{
    let ghost old_object = *object;
    match object {
        Object::Register(r) => {
            if r.reset_value.is_none() {
                return Ok(());
            }
            let rv = r.reset_value.as_ref().unwrap().clone();
            let bit_order = r.field_set.bit_order.unwrap();
            let byte_order = r.field_set.byte_order.unwrap();
            let converted = convert_reset_value(
                rv,
                bit_order,
                r.field_set.size_bits,
                "register",
                r.name.as_str(),
                byte_order,
            );
            match converted {
                Ok(new_value) => {
                    r.reset_value = Some(new_value);
                    Ok(())
                },
                Err(e) => Err(e),
            }
        },
        Object::Block(b) => {
            let res = convert_objects_reset_values(&mut b.objects);
            proof {
                vstd::std_specs::vec::axiom_vec_decreases_to_view(b.objects);
            }
            res
        },
        _ => Ok(()),
    }
}

fn convert_objects_reset_values(objects: &mut Vec<Object>) -> (res: Result<(), Error>)
    requires
        all_objects(old(objects)@, reset_precondition_pred()),
    ensures
        res is Ok <==> all_objects(old(objects)@, reset_value_valid_pred()),
        res matches Err(e) ==> first_error(old(objects)@, reset_value_valid_pred(), reset_value_error_rel(), e),
        res is Ok ==> related_objects(old(objects)@, final(objects)@, reset_converted_rel()),
    decreases *old(objects),
{
    let ghost old_objects = objects@;
    proof {
        lemma_all_objects(old_objects, reset_precondition_pred());
    }
    let mut i: usize = 0;
    while i < objects.len()
        invariant
            objects@.len() == old_objects.len(),
            i <= old_objects.len(),
            old_objects == old(objects)@,
            forall|j: int|
                0 <= j < old_objects.len() ==> #[trigger] object_and_below(
                    old_objects[j],
                    reset_precondition_pred(),
                ),
            forall|j: int| i <= j < old_objects.len() ==> objects@[j] == old_objects[j],
            forall|j: int|
                0 <= j < i ==> #[trigger] related_object(
                    old_objects[j],
                    objects@[j],
                    reset_converted_rel(),
                ),
            forall|j: int|
                0 <= j < i ==> #[trigger] object_and_below(old_objects[j], reset_value_valid_pred()),
        decreases old_objects.len() - i,
    {
        proof {
            vstd::std_specs::vec::axiom_vec_index_decreases(*old(objects), i as int);
            assert(object_and_below(old_objects[i as int], reset_precondition_pred()));
        }
        let r = convert_object_reset_values(&mut objects[i]);
        if r.is_err() {
            proof {
                lemma_all_objects(old_objects, reset_value_valid_pred());
                lemma_first_error_at(old_objects, reset_value_valid_pred(), reset_value_error_rel(), r->Err_0, i as int);
            }
            return r;
        }
        i = i + 1;
    }
    proof {
        lemma_related_objects(old_objects, objects@, reset_converted_rel());
        lemma_all_objects(old_objects, reset_value_valid_pred());
    }
    Ok(())
}

/// Checks the reset values of all registers and converts them to their byte form in
/// the bit and byte order of their field set.
///
/// The bit and byte orders must be filled in, which the passes that fill them in do.
pub fn run_pass(device: &mut Device) -> (res: Result<(), Error>)
    requires
        all_objects(old(device).objects@, reset_precondition_pred()),
    ensures
        res is Ok <==> all_objects(old(device).objects@, reset_value_valid_pred()),
        res matches Err(e) ==> first_error(old(device).objects@, reset_value_valid_pred(), reset_value_error_rel(), e),
        res is Ok ==> related_objects(
            old(device).objects@,
            final(device).objects@,
            reset_converted_rel(),
        ),
        final(device).name == old(device).name,
        final(device).global_config == old(device).global_config,
{
    convert_objects_reset_values(&mut device.objects)
}

} // verus!
