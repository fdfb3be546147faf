//! The checks and completions that are run on a device description before it is
//! turned into the low-level description, and the order they are run in.

pub mod reset_values;
pub mod enum_values;
pub mod walk;
pub mod bit_ranges;
pub mod base_types;
pub mod bool_fields;
pub mod bit_order;
pub mod byte_order;
pub mod descriptions;
pub mod propagate_cfg;
pub mod refs;
pub mod names_unique;
pub mod names_normalized;

use vstd::prelude::*;

use crate::error::Error;
use crate::mir::{
    all_objects, lemma_all_objects_weaken, lemma_related_carries, related_objects, BitOrder,
    ByteOrder, Device, EnumVariant, FieldConversion, FieldSet, GlobalConfig, Object,
    WordBoundary,
};
use crate::passes::base_types::{base_type_visitor, BaseTypeCompletion};
use crate::passes::bit_ranges::BitRangeCheck;
use crate::passes::byte_order::ByteOrderCompletion;
use crate::passes::descriptions::DescriptionCompletion;
use crate::passes::names_unique::{names_error_in, names_unique_in};
use crate::passes::propagate_cfg::{lemma_cfg_carries, object_cfg_propagated, objects_cfg_propagated};
use crate::passes::refs::{ref_err, ref_valid_pred};
use crate::passes::reset_values::{
    reset_converted_rel, reset_precondition, reset_precondition_pred, reset_value_error_rel, reset_value_valid_pred,
};
use crate::passes::walk::{check_err, check_pred, err_rel, first_error, ok_pred, pre_pred, ObjectCheck};
use crate::passes::bit_order::BitOrderCompletion;
use crate::passes::bool_fields::{bool_visitor, BoolFieldCheck};
use crate::passes::enum_values::{assigned_value, enum_check_computable, enum_visitor, EnumCheck};
use crate::passes::names_normalized::{fields_normalized, normalized_rel, object_normalized};
use crate::passes::propagate_cfg::field_set_cfg_propagated;
use crate::passes::reset_values::reset_value_convertible;
use crate::passes::walk::{field_set_pre, rel_rel, FieldVisitor, ObjectVisitor};

verus! {

/// A reset value given as an integer fits the largest integer the conversion works on.
pub open spec fn reset_convertible(o: Object) -> bool {
    match o {
        Object::Register(r) => r.reset_value matches Some(rv) ==> reset_value_convertible(
            rv@,
            r.field_set.size_bits,
        ),
        _ => true,
    }
}

/// Every field set of the object has a bit order.
pub open spec fn has_bit_orders(o: Object) -> bool {
    match o {
        Object::Register(r) => r.field_set.bit_order is Some,
        Object::Command(c) => {
            &&& (c.field_set_in matches Some(f) ==> f.bit_order is Some)
            &&& (c.field_set_out matches Some(f) ==> f.bit_order is Some)
        },
        _ => true,
    }
}

/// Every field set of the object has a byte order.
pub open spec fn has_byte_orders(o: Object) -> bool {
    match o {
        Object::Register(r) => r.field_set.byte_order is Some,
        Object::Command(c) => {
            &&& (c.field_set_in matches Some(f) ==> f.byte_order is Some)
            &&& (c.field_set_out matches Some(f) ==> f.byte_order is Some)
        },
        _ => true,
    }
}

/// What the passes need of an object that no earlier pass gives it: the enums of its
/// fields can be checked, its zero-bit bool fields can be extended by a bit, and its
/// reset value, if given as an integer, fits the conversion.
pub open spec fn passes_ready(o: Object) -> bool {
    &&& enum_visitor().pre(o)
    &&& bool_visitor().pre(o)
    &&& reset_convertible(o)
}

/// [`passes_ready`] as a predicate on objects.
pub open spec fn passes_ready_pred() -> spec_fn(Object) -> bool {
    |o: Object| passes_ready(o)
}

/// What holds of an object once its bit orders are filled in.
pub open spec fn ordered_bits(o: Object) -> bool {
    passes_ready(o) && has_bit_orders(o)
}

/// [`ordered_bits`] as a predicate on objects.
pub open spec fn ordered_bits_pred() -> spec_fn(Object) -> bool {
    |o: Object| ordered_bits(o)
}

proof fn lemma_bit_order_step(default: crate::mir::BitOrder)
    ensures
        forall|x: Object, y: Object|
            #![trigger rel_rel(&BitOrderCompletion { default })(x, y)]
            rel_rel(&BitOrderCompletion { default })(x, y) && passes_ready_pred()(x)
                ==> ordered_bits_pred()(y),
{
    let v = BitOrderCompletion { default };
    assert forall|x: Object, y: Object|
        #![trigger rel_rel(&v)(x, y)]
        rel_rel(&v)(x, y) && passes_ready_pred()(x) implies ordered_bits_pred()(y) by {
        assert(v.rel(x, y));
        match (x, y) {
            (Object::Register(o), Object::Register(n)) => {
                assert(n.field_set.fields == o.field_set.fields);
            },
            (Object::Command(o), Object::Command(n)) => {
                if let (Some(fo), Some(fn_)) = (o.field_set_in, n.field_set_in) {
                    assert(fn_.fields == fo.fields);
                }
                if let (Some(fo), Some(fn_)) = (o.field_set_out, n.field_set_out) {
                    assert(fn_.fields == fo.fields);
                }
            },
            _ => {},
        }
    }
}


proof fn lemma_cfg_field_set(o: FieldSet, n: FieldSet, c: Option<Seq<char>>)
    requires
        field_set_cfg_propagated(o, n, c),
        field_set_pre(&EnumCheck, o),
        field_set_pre(&BoolFieldCheck, o),
    ensures
        field_set_pre(&EnumCheck, n),
        field_set_pre(&BoolFieldCheck, n),
        n.bit_order == o.bit_order,
{
    assert forall|i: int|
        #![trigger EnumCheck.field_pre(n.fields@[i])]
        #![trigger BoolFieldCheck.field_pre(n.fields@[i])]
        0 <= i < n.fields@.len() implies EnumCheck.field_pre(n.fields@[i])
            && BoolFieldCheck.field_pre(n.fields@[i]) by {
        assert(crate::passes::propagate_cfg::field_cfg_propagated(o.fields@[i], n.fields@[i], c));
        assert(EnumCheck.field_pre(o.fields@[i]));
        assert(BoolFieldCheck.field_pre(o.fields@[i]));
    }
}

proof fn lemma_cfg_step()
    ensures
        forall|x: Object, y: Object, c: Option<Seq<char>>|
            #![trigger object_cfg_propagated(x, y, c)]
            object_cfg_propagated(x, y, c) && ordered_bits_pred()(x) ==> ordered_bits_pred()(y),
{
    assert forall|x: Object, y: Object, c: Option<Seq<char>>|
        #![trigger object_cfg_propagated(x, y, c)]
        object_cfg_propagated(x, y, c) && ordered_bits_pred()(x) implies ordered_bits_pred()(
            y,
        ) by {
        let cfg = crate::mir::spec_cfg_combine(x.spec_cfg(), c);
        match (x, y) {
            (Object::Register(o), Object::Register(n)) => {
                lemma_cfg_field_set(o.field_set, n.field_set, cfg);
            },
            (Object::Command(o), Object::Command(n)) => {
                if let (Some(fo), Some(fn_)) = (o.field_set_in, n.field_set_in) {
                    lemma_cfg_field_set(fo, fn_, cfg);
                }
                if let (Some(fo), Some(fn_)) = (o.field_set_out, n.field_set_out) {
                    lemma_cfg_field_set(fo, fn_, cfg);
                }
            },
            _ => {},
        }
    }
}

proof fn lemma_assigned_values_same(a: Seq<EnumVariant>, b: Seq<EnumVariant>, k: int)
    requires
        a.len() == b.len(),
        0 <= k < a.len(),
        forall|i: int| 0 <= i < a.len() ==> #[trigger] a[i].value == b[i].value,
    ensures
        assigned_value(a, k) == assigned_value(b, k),
    decreases k,
{
    assert(a[k].value == b[k].value);
    if k > 0 {
        lemma_assigned_values_same(a, b, k - 1);
    }
}

proof fn lemma_names_field_set(o: FieldSet, n: FieldSet, bs: Seq<WordBoundary>)
    requires
        fields_normalized(o, n, bs),
        field_set_pre(&EnumCheck, o),
        field_set_pre(&BoolFieldCheck, o),
    ensures
        field_set_pre(&EnumCheck, n),
        field_set_pre(&BoolFieldCheck, n),
        n.bit_order == o.bit_order,
        n.size_bits == o.size_bits,
{
    assert forall|i: int|
        #![trigger EnumCheck.field_pre(n.fields@[i])]
        #![trigger BoolFieldCheck.field_pre(n.fields@[i])]
        0 <= i < n.fields@.len() implies EnumCheck.field_pre(n.fields@[i])
            && BoolFieldCheck.field_pre(n.fields@[i]) by {
        let of = o.fields@[i];
        let nf = n.fields@[i];
        assert(crate::passes::names_normalized::field_normalized(of, nf, bs));
        assert(EnumCheck.field_pre(of));
        assert(BoolFieldCheck.field_pre(of));
        if let Some(FieldConversion::Enum { enum_value: oe, .. }) = of.field_conversion {
            if let Some(FieldConversion::Enum { enum_value: ne, .. }) = nf.field_conversion {
                assert(crate::passes::names_normalized::enum_normalized(oe, ne, bs));
                assert forall|k: int| 0 <= k < ne.variants@.len() implies #[trigger] assigned_value(
                    ne.variants@,
                    k,
                ) <= i128::MAX by {
                    assert forall|j: int| 0 <= j < oe.variants@.len() implies #[trigger] oe.variants@[j].value
                        == ne.variants@[j].value by {
                        assert(crate::passes::names_normalized::variant_normalized(
                            oe.variants@[j],
                            ne.variants@[j],
                            bs,
                        ));
                    }
                    lemma_assigned_values_same(oe.variants@, ne.variants@, k);
                    assert(assigned_value(oe.variants@, k) <= i128::MAX);
                }
                assert(enum_check_computable(ne));
            }
        }
    }
}

proof fn lemma_names_step(bs: Seq<WordBoundary>)
    ensures
        forall|x: Object, y: Object|
            #![trigger normalized_rel(bs)(x, y)]
            normalized_rel(bs)(x, y) && ordered_bits_pred()(x) ==> ordered_bits_pred()(y),
{
    assert forall|x: Object, y: Object|
        #![trigger normalized_rel(bs)(x, y)]
        normalized_rel(bs)(x, y) && ordered_bits_pred()(x) implies ordered_bits_pred()(y) by {
        assert(object_normalized(x, y, bs));
        match (x, y) {
            (Object::Register(o), Object::Register(n)) => {
                lemma_names_field_set(o.field_set, n.field_set, bs);
            },
            (Object::Command(o), Object::Command(n)) => {
                if let (Some(fo), Some(fn_)) = (o.field_set_in, n.field_set_in) {
                    lemma_names_field_set(fo, fn_, bs);
                }
                if let (Some(fo), Some(fn_)) = (o.field_set_out, n.field_set_out) {
                    lemma_names_field_set(fo, fn_, bs);
                }
            },
            _ => {},
        }
    }
}


/// What holds of an object once its enums are checked: what the later passes need, and
/// its bit orders.
pub open spec fn checked_enums(o: Object) -> bool {
    &&& bool_visitor().pre(o)
    &&& reset_convertible(o)
    &&& has_bit_orders(o)
}

/// [`checked_enums`] as a predicate on objects.
pub open spec fn checked_enums_pred() -> spec_fn(Object) -> bool {
    |o: Object| checked_enums(o)
}

/// What holds of an object once its byte orders are filled in.
pub open spec fn ordered_bytes(o: Object) -> bool {
    checked_enums(o) && has_byte_orders(o)
}

/// [`ordered_bytes`] as a predicate on objects.
pub open spec fn ordered_bytes_pred() -> spec_fn(Object) -> bool {
    |o: Object| ordered_bytes(o)
}

proof fn lemma_enum_field_set(o: FieldSet, n: FieldSet)
    requires
        crate::passes::walk::field_set_rel(&EnumCheck, o, n),
        field_set_pre(&BoolFieldCheck, o),
    ensures
        field_set_pre(&BoolFieldCheck, n),
{
    assert forall|i: int| 0 <= i < n.fields@.len() implies #[trigger] BoolFieldCheck.field_pre(
        n.fields@[i],
    ) by {
        assert(EnumCheck.field_rel(o.fields@[i], n.fields@[i]));
        assert(BoolFieldCheck.field_pre(o.fields@[i]));
    }
}

proof fn lemma_enum_step()
    ensures
        forall|x: Object, y: Object|
            #![trigger rel_rel(&enum_visitor())(x, y)]
            rel_rel(&enum_visitor())(x, y) && checked_enums_pred()(x) ==> checked_enums_pred()(y),
{
    let v = enum_visitor();
    assert forall|x: Object, y: Object|
        #![trigger rel_rel(&v)(x, y)]
        rel_rel(&v)(x, y) && checked_enums_pred()(x) implies checked_enums_pred()(y) by {
        assert(v.rel(x, y));
        match (x, y) {
            (Object::Register(o), Object::Register(n)) => {
                lemma_enum_field_set(o.field_set, n.field_set);
            },
            (Object::Command(o), Object::Command(n)) => {
                if let (Some(fo), Some(fn_)) = (o.field_set_in, n.field_set_in) {
                    lemma_enum_field_set(fo, fn_);
                }
                if let (Some(fo), Some(fn_)) = (o.field_set_out, n.field_set_out) {
                    lemma_enum_field_set(fo, fn_);
                }
            },
            _ => {},
        }
    }
}

proof fn lemma_byte_order_step(default: Option<ByteOrder>)
    ensures
        forall|x: Object, y: Object|
            #![trigger rel_rel(&ByteOrderCompletion { default })(x, y)]
            rel_rel(&ByteOrderCompletion { default })(x, y) && checked_enums_pred()(x)
                ==> ordered_bytes_pred()(y),
{
    let v = ByteOrderCompletion { default };
    assert forall|x: Object, y: Object|
        #![trigger rel_rel(&v)(x, y)]
        rel_rel(&v)(x, y) && checked_enums_pred()(x) implies ordered_bytes_pred()(y) by {
        assert(v.rel(x, y));
        match (x, y) {
            (Object::Register(o), Object::Register(n)) => {
                assert(n.field_set.fields == o.field_set.fields);
            },
            (Object::Command(o), Object::Command(n)) => {
                if let (Some(fo), Some(fn_)) = (o.field_set_in, n.field_set_in) {
                    assert(fn_.fields == fo.fields);
                }
                if let (Some(fo), Some(fn_)) = (o.field_set_out, n.field_set_out) {
                    assert(fn_.fields == fo.fields);
                }
            },
            _ => {},
        }
    }
}

proof fn lemma_reset_step()
    ensures
        forall|x: Object, y: Object|
            #![trigger reset_converted_rel()(x, y)]
            reset_converted_rel()(x, y) && ordered_bytes_pred()(x) ==> pre_pred(&bool_visitor())(
                y,
            ),
        forall|o: Object| #[trigger] ordered_bytes_pred()(o) ==> reset_precondition_pred()(o),
{
    assert forall|x: Object, y: Object|
        #![trigger reset_converted_rel()(x, y)]
        reset_converted_rel()(x, y) && ordered_bytes_pred()(x) implies pre_pred(
            &bool_visitor(),
        )(y) by {
        assert(crate::passes::reset_values::reset_converted(x, y));
    }
    assert forall|o: Object| #[trigger] ordered_bytes_pred()(o) implies reset_precondition_pred()(
        o,
    ) by {
        assert(reset_precondition(o));
    }
}

proof fn lemma_ranges_give_lengths()
    ensures
        forall|o: Object| #[trigger] check_pred(&BitRangeCheck)(o) ==> pre_pred(
            &base_type_visitor(),
        )(o),
{
    assert forall|o: Object| #[trigger] check_pred(&BitRangeCheck)(o) implies pre_pred(
        &base_type_visitor(),
    )(o) by {
        assert(BitRangeCheck.ok(o));
        match o {
            Object::Register(r) => {
                assert forall|i: int| 0 <= i < r.field_set.fields@.len() implies #[trigger] BaseTypeCompletion.field_pre(
                    r.field_set.fields@[i],
                ) by {
                    assert(crate::passes::bit_ranges::field_len_ok(
                        r.field_set.fields@[i],
                        r.field_set.size_bits,
                    ));
                }
            },
            Object::Command(c) => {
                if let Some(f) = c.field_set_in {
                    assert forall|i: int| 0 <= i < f.fields@.len() implies #[trigger] BaseTypeCompletion.field_pre(
                        f.fields@[i],
                    ) by {
                        assert(crate::passes::bit_ranges::field_len_ok(f.fields@[i], f.size_bits));
                    }
                }
                if let Some(f) = c.field_set_out {
                    assert forall|i: int| 0 <= i < f.fields@.len() implies #[trigger] BaseTypeCompletion.field_pre(
                        f.fields@[i],
                    ) by {
                        assert(crate::passes::bit_ranges::field_len_ok(f.fields@[i], f.size_bits));
                    }
                }
            },
            _ => {},
        }
    }
}

/// The first passes, that cannot fail: bit orders filled in, conditions propagated down
/// the blocks, names normalized.
pub open spec fn completed_names(
    d0: Seq<Object>,
    gc: GlobalConfig,
    d1: Seq<Object>,
    d2: Seq<Object>,
    d3: Seq<Object>,
) -> bool {
    &&& related_objects(d0, d1, rel_rel(&BitOrderCompletion { default: gc.default_bit_order }))
    &&& objects_cfg_propagated(d1, d2, None)
    &&& related_objects(d2, d3, normalized_rel(gc.name_word_boundaries@))
}

/// The checks of the names and enums, and the filling in of byte orders, succeed from
/// `d3` on, giving `d5`.
pub open spec fn checked_middle(
    d3: Seq<Object>,
    gc: GlobalConfig,
    name: Option<String>,
    d4: Seq<Object>,
    d5: Seq<Object>,
) -> bool {
    &&& names_unique_in(name, d3)
    &&& all_objects(d3, ok_pred(&enum_visitor()))
    &&& related_objects(d3, d4, rel_rel(&enum_visitor()))
    &&& all_objects(d4, ok_pred(&ByteOrderCompletion { default: gc.default_byte_order }))
    &&& related_objects(d4, d5, rel_rel(&ByteOrderCompletion { default: gc.default_byte_order }))
}

/// The conversion of reset values, the checks of bool fields and bit ranges, the
/// completion of base types, the check of refs and the completion of descriptions
/// succeed from `d5` on, giving `d9`.
pub open spec fn checked_end(
    d5: Seq<Object>,
    d6: Seq<Object>,
    d7: Seq<Object>,
    d8: Seq<Object>,
    d9: Seq<Object>,
) -> bool {
    &&& all_objects(d5, reset_value_valid_pred())
    &&& related_objects(d5, d6, reset_converted_rel())
    &&& all_objects(d6, ok_pred(&bool_visitor()))
    &&& related_objects(d6, d7, rel_rel(&bool_visitor()))
    &&& all_objects(d7, check_pred(&BitRangeCheck))
    &&& related_objects(d7, d8, rel_rel(&base_type_visitor()))
    &&& all_objects(d8, ref_valid_pred(d8))
    &&& related_objects(d8, d9, rel_rel(&DescriptionCompletion))
}

/// Every pass succeeds on the objects `d0` of a device with the name and global
/// configuration, through the given objects after each pass, ending in `d9`.
pub open spec fn passes_trace(
    d0: Seq<Object>,
    gc: GlobalConfig,
    name: Option<String>,
    d1: Seq<Object>,
    d2: Seq<Object>,
    d3: Seq<Object>,
    d4: Seq<Object>,
    d5: Seq<Object>,
    d6: Seq<Object>,
    d7: Seq<Object>,
    d8: Seq<Object>,
    d9: Seq<Object>,
) -> bool {
    &&& completed_names(d0, gc, d1, d2, d3)
    &&& checked_middle(d3, gc, name, d4, d5)
    &&& checked_end(d5, d6, d7, d8, d9)
}

/// The passes run on the objects `d0`, through the given objects after each pass, until
/// one of the checks refuses what it is given with the error `e`: the first refusal in
/// the order of that check.
pub open spec fn failing_trace(
    d0: Seq<Object>,
    gc: GlobalConfig,
    name: Option<String>,
    d1: Seq<Object>,
    d2: Seq<Object>,
    d3: Seq<Object>,
    d4: Seq<Object>,
    d5: Seq<Object>,
    d6: Seq<Object>,
    d7: Seq<Object>,
    e: Error,
) -> bool {
    let byte_order = ByteOrderCompletion { default: gc.default_byte_order };
    &&& completed_names(d0, gc, d1, d2, d3)
    &&& {
        ||| !names_unique_in(name, d3) && names_error_in(name, d3, e)
        ||| names_unique_in(name, d3) && !all_objects(d3, ok_pred(&enum_visitor())) && first_error(
            d3,
            ok_pred(&enum_visitor()),
            err_rel(&enum_visitor()),
            e,
        )
        ||| names_unique_in(name, d3) && all_objects(d3, ok_pred(&enum_visitor()))
            && related_objects(d3, d4, rel_rel(&enum_visitor())) && {
            ||| !all_objects(d4, ok_pred(&byte_order)) && first_error(d4, ok_pred(&byte_order), err_rel(&byte_order), e)
            ||| all_objects(d4, ok_pred(&byte_order)) && related_objects(
                d4,
                d5,
                rel_rel(&byte_order),
            ) && {
                ||| !all_objects(d5, reset_value_valid_pred()) && first_error(
                    d5,
                    reset_value_valid_pred(),
                    reset_value_error_rel(),
                    e,
                )
                ||| all_objects(d5, reset_value_valid_pred()) && related_objects(
                    d5,
                    d6,
                    reset_converted_rel(),
                ) && {
                    ||| !all_objects(d6, ok_pred(&bool_visitor())) && first_error(
                        d6,
                        ok_pred(&bool_visitor()),
                        err_rel(&bool_visitor()),
                        e,
                    )
                    ||| all_objects(d6, ok_pred(&bool_visitor())) && related_objects(
                        d6,
                        d7,
                        rel_rel(&bool_visitor()),
                    ) && {
                        ||| !all_objects(d7, check_pred(&BitRangeCheck)) && first_error(
                            d7,
                            check_pred(&BitRangeCheck),
                            check_err(&BitRangeCheck),
                            e,
                        )
                        ||| all_objects(d7, check_pred(&BitRangeCheck)) && exists|d8: Seq<Object>|
                            #![trigger related_objects(d7, d8, rel_rel(&base_type_visitor()))]
                            related_objects(d7, d8, rel_rel(&base_type_visitor())) && !all_objects(
                                d8,
                                ref_valid_pred(d8),
                            ) && first_error(d8, ref_valid_pred(d8), ref_err(), e)
                    }
                }
            }
        }
    }
}

/// Runs every pass on the device in order: the completion of bit orders, the
/// propagation of conditions, the normalization of names, the checks of names and enums,
/// the completion of byte orders, the conversion of reset values, the checks of bool
/// fields and bit ranges, the completion of base types, the check of refs and the
/// completion of descriptions. It stops at the first pass that refuses the device.
pub fn run_passes(device: &mut Device) -> (res: Result<(), Error>)
    requires
        all_objects(old(device).objects@, passes_ready_pred()),
    ensures
        final(device).name == old(device).name,
        final(device).global_config == old(device).global_config,
        res is Ok ==> exists|
            d1: Seq<Object>,
            d2: Seq<Object>,
            d3: Seq<Object>,
            d4: Seq<Object>,
            d5: Seq<Object>,
            d6: Seq<Object>,
            d7: Seq<Object>,
            d8: Seq<Object>,
        |
            #[trigger] passes_trace(
                old(device).objects@,
                old(device).global_config,
                old(device).name,
                d1,
                d2,
                d3,
                d4,
                d5,
                d6,
                d7,
                d8,
                final(device).objects@,
            ),
        res matches Err(e) ==> exists|
            d1: Seq<Object>,
            d2: Seq<Object>,
            d3: Seq<Object>,
            d4: Seq<Object>,
            d5: Seq<Object>,
            d6: Seq<Object>,
            d7: Seq<Object>,
        |
            #[trigger] failing_trace(
                old(device).objects@,
                old(device).global_config,
                old(device).name,
                d1,
                d2,
                d3,
                d4,
                d5,
                d6,
                d7,
                e,
            ),
{
    let ghost gc = device.global_config;
    let ghost name = device.name;
    let ghost d0 = device.objects@;

    bit_order::run_pass(device);
    let ghost d1 = device.objects@;
    proof {
        lemma_bit_order_step(gc.default_bit_order);
        lemma_related_carries(
            d0,
            d1,
            rel_rel(&BitOrderCompletion { default: gc.default_bit_order }),
            passes_ready_pred(),
            ordered_bits_pred(),
        );
    }

    propagate_cfg::run_pass(device);
    let ghost d2 = device.objects@;
    proof {
        lemma_cfg_step();
        lemma_cfg_carries(d1, d2, None, ordered_bits_pred(), ordered_bits_pred());
    }

    names_normalized::run_pass(device);
    let ghost d3 = device.objects@;
    proof {
        lemma_names_step(gc.name_word_boundaries@);
        lemma_related_carries(
            d2,
            d3,
            normalized_rel(gc.name_word_boundaries@),
            ordered_bits_pred(),
            ordered_bits_pred(),
        );
        assert(completed_names(d0, gc, d1, d2, d3));
    }

    let r = names_unique::run_pass(device);
    if r.is_err() {
        proof {
            assert(failing_trace(d0, gc, name, d1, d2, d3, d3, d3, d3, d3, r->Err_0));
        }
        return r;
    }

    proof {
        assert forall|o: Object| #[trigger] ordered_bits_pred()(o) implies pre_pred(
            &enum_visitor(),
        )(o) by {}
        lemma_all_objects_weaken(d3, ordered_bits_pred(), pre_pred(&enum_visitor()));
    }
    let r = enum_values::run_pass(device);
    if r.is_err() {
        proof {
            assert(failing_trace(d0, gc, name, d1, d2, d3, d3, d3, d3, d3, r->Err_0));
        }
        return r;
    }
    let ghost d4 = device.objects@;
    proof {
        assert forall|o: Object| #[trigger] ordered_bits_pred()(o) implies checked_enums_pred()(
            o,
        ) by {}
        lemma_all_objects_weaken(d3, ordered_bits_pred(), checked_enums_pred());
        lemma_enum_step();
        lemma_related_carries(
            d3,
            d4,
            rel_rel(&enum_visitor()),
            checked_enums_pred(),
            checked_enums_pred(),
        );
    }

    let r = byte_order::run_pass(device);
    if r.is_err() {
        proof {
            assert(failing_trace(d0, gc, name, d1, d2, d3, d4, d4, d4, d4, r->Err_0));
        }
        return r;
    }
    let ghost d5 = device.objects@;
    proof {
        let v = ByteOrderCompletion { default: gc.default_byte_order };
        lemma_byte_order_step(gc.default_byte_order);
        lemma_related_carries(d4, d5, rel_rel(&v), checked_enums_pred(), ordered_bytes_pred());
        lemma_reset_step();
        lemma_all_objects_weaken(d5, ordered_bytes_pred(), reset_precondition_pred());
    }

    let r = reset_values::run_pass(device);
    if r.is_err() {
        proof {
            assert(failing_trace(d0, gc, name, d1, d2, d3, d4, d5, d5, d5, r->Err_0));
        }
        return r;
    }
    let ghost d6 = device.objects@;
    proof {
        lemma_related_carries(
            d5,
            d6,
            reset_converted_rel(),
            ordered_bytes_pred(),
            pre_pred(&bool_visitor()),
        );
    }

    let r = bool_fields::run_pass(device);
    if r.is_err() {
        proof {
            assert(failing_trace(d0, gc, name, d1, d2, d3, d4, d5, d6, d6, r->Err_0));
        }
        return r;
    }
    let ghost d7 = device.objects@;

    let r = bit_ranges::run_pass(device);
    if r.is_err() {
        proof {
            assert(failing_trace(d0, gc, name, d1, d2, d3, d4, d5, d6, d7, r->Err_0));
        }
        return r;
    }
    proof {
        lemma_ranges_give_lengths();
        lemma_all_objects_weaken(d7, check_pred(&BitRangeCheck), pre_pred(&base_type_visitor()));
    }

    base_types::run_pass(device);
    let ghost d8 = device.objects@;

    let r = refs::run_pass(device);
    if r.is_err() {
        proof {
            assert(failing_trace(d0, gc, name, d1, d2, d3, d4, d5, d6, d7, r->Err_0));
        }
        return r;
    }

    descriptions::run_pass(device);
    proof {
        assert(passes_trace(d0, gc, name, d1, d2, d3, d4, d5, d6, d7, d8, device.objects@));
    }
    Ok(())
}

} // verus!
