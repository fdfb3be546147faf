//! Checks that generated enums are fully specified and determines how their
//! conversion is generated.

use vstd::prelude::*;

use crate::error::Error;
use crate::passes::walk::{err_rel, first_error, ok_pred, pre_pred, rel_rel, same_field_but_conversion, visit_objects, EachField, FieldVisitor};
use crate::mir::{
    all_objects, related_objects, Device, Field, FieldConversion, spec_unique_id_text, BaseType, Enum, EnumGenerationStyle, EnumValue, EnumVariant, Integer,
    Unique, UniqueId,
};
use crate::text::{decimal, decimal_string};
use vstd::arithmetic::power2::{
    lemma2_to64, lemma2_to64_rest, lemma_pow2_adds, lemma_pow2_pos, lemma_pow2_strictly_increases,
    lemma_pow2_unfold, pow2,
};

verus! {

/// The highest value that fits in `size_bits` unsigned bits.
pub open spec fn highest_value(size_bits: u32) -> int {
    pow2(size_bits as nat) - 1
}

/// The size in bits of the enum: given, or taken from a bool or fixed size base type.
pub open spec fn spec_enum_size_bits(e: Enum) -> Option<u32> {
    match e.size_bits {
        Some(s) => Some(s),
        None => match e.base_type {
            BaseType::Bool => Some(1u32),
            BaseType::FixedSize(i) => Some(i.spec_size_bits()),
            _ => None,
        },
    }
}

/// The value that variant `k` gets: its own when specified, otherwise one more than
/// the value of the variant before it, or zero for the first variant.
pub open spec fn assigned_value(variants: Seq<EnumVariant>, k: int) -> int
    decreases k,
{
    match variants[k].value {
        EnumValue::Specified(n) => n as int,
        _ => if k <= 0 {
            0
        } else {
            assigned_value(variants, k - 1) + 1
        },
    }
}

/// Variants `j` and `k` get the same value and have the same identity.
pub open spec fn same_assignment(variants: Seq<EnumVariant>, j: int, k: int) -> bool {
    &&& assigned_value(variants, j) == assigned_value(variants, k)
    &&& variants[j].spec_id() == variants[k].spec_id()
}

/// The number of variants before `upto` with the same value and identity as variant `k`.
pub open spec fn equal_before(variants: Seq<EnumVariant>, k: int, upto: int) -> nat
    decreases upto,
{
    if upto <= 0 {
        0
    } else {
        equal_before(variants, k, upto - 1) + if same_assignment(variants, upto - 1, k) {
            1nat
        } else {
            0nat
        }
    }
}

/// Variant `k` repeats exactly one earlier variant: it is reported as a duplicate.
pub open spec fn reported_duplicate(variants: Seq<EnumVariant>, k: int) -> bool {
    equal_before(variants, k, k) == 1
}

/// How a duplicate is written in the error: the identity, then the value.
pub open spec fn duplicate_text(variants: Seq<EnumVariant>, k: int) -> Seq<char> {
    spec_unique_id_text(variants[k].spec_id()) + ": "@ + decimal(assigned_value(variants, k))
}

/// The duplicates among the first `upto` variants, in order.
pub open spec fn duplicate_texts(variants: Seq<EnumVariant>, upto: int) -> Seq<Seq<char>>
    decreases upto,
{
    if upto <= 0 {
        Seq::empty()
    } else if reported_duplicate(variants, upto - 1) {
        duplicate_texts(variants, upto - 1).push(duplicate_text(variants, upto - 1))
    } else {
        duplicate_texts(variants, upto - 1)
    }
}

/// The number of variants before `upto` that are the default.
pub open spec fn count_defaults(variants: Seq<EnumVariant>, upto: int) -> nat
    decreases upto,
{
    if upto <= 0 {
        0
    } else {
        count_defaults(variants, upto - 1) + if variants[upto - 1].value is Default {
            1nat
        } else {
            0nat
        }
    }
}

/// The number of variants before `upto` that catch all other values.
pub open spec fn count_catch_alls(variants: Seq<EnumVariant>, upto: int) -> nat
    decreases upto,
{
    if upto <= 0 {
        0
    } else {
        count_catch_alls(variants, upto - 1) + if variants[upto - 1].value is CatchAll {
            1nat
        } else {
            0nat
        }
    }
}

/// The smallest value among the first `upto` variants (at least one).
pub open spec fn assigned_min(variants: Seq<EnumVariant>, upto: int) -> int
    decreases upto,
{
    if upto <= 1 {
        assigned_value(variants, 0)
    } else {
        let m = assigned_min(variants, upto - 1);
        let v = assigned_value(variants, upto - 1);
        if v < m {
            v
        } else {
            m
        }
    }
}

/// The largest value among the first `upto` variants (at least one).
pub open spec fn assigned_max(variants: Seq<EnumVariant>, upto: int) -> int
    decreases upto,
{
    if upto <= 1 {
        assigned_value(variants, 0)
    } else {
        let m = assigned_max(variants, upto - 1);
        let v = assigned_value(variants, upto - 1);
        if v > m {
            v
        } else {
            m
        }
    }
}

/// Some variant takes the values without a variant of their own.
pub open spec fn has_fallback(variants: Seq<EnumVariant>) -> bool {
    exists|k: int|
        0 <= k < variants.len() && (#[trigger] variants[k].value is Default
            || variants[k].value is CatchAll)
}

/// Some variant gets the value `v`.
pub open spec fn value_assigned(variants: Seq<EnumVariant>, v: int) -> bool {
    exists|k: int| 0 <= k < variants.len() && #[trigger] assigned_value(variants, k) == v
}

/// Every value from zero up to `highest` is the value of some variant.
pub open spec fn bits_covered(variants: Seq<EnumVariant>, highest: int) -> bool {
    forall|v: int| 0 <= v <= highest ==> #[trigger] value_assigned(variants, v)
}

/// Some variant gets a value above `highest`.
pub open spec fn has_too_high(variants: Seq<EnumVariant>, highest: int) -> bool {
    exists|k: int| 0 <= k < variants.len() && #[trigger] assigned_value(variants, k) > highest
}

/// The smallest integer type that holds `min` and `max` in `size_bits` bits, by the
/// table of the enum check.
pub open spec fn spec_find_smallest_integer(min: int, max: int, size_bits: int) -> Option<Integer> {
    if 0 <= min && max < 0x1_00 && size_bits <= 8 {
        Some(Integer::U8)
    } else if 0 <= min && max < 0x1_0000 && size_bits <= 16 {
        Some(Integer::U16)
    } else if 0 <= min && max < 0x1_0000_0000 && size_bits <= 32 {
        Some(Integer::U32)
    } else if 0 <= min && max < 0x1_0000_0000_0000_0000 && size_bits <= 64 {
        Some(Integer::U64)
    } else if -0x80 <= min && max < 0x80 && size_bits <= 8 {
        Some(Integer::I8)
    } else if -0x8000 <= min && max < 0x8000 && size_bits <= 16 {
        Some(Integer::I16)
    } else if -0x8_0000_0000 <= min && max < 0x8000_0000 && size_bits <= 32 {
        Some(Integer::I32)
    } else if -0x8_0000_0000_0000_0000 <= min && max < 0x8000_0000_0000_0000 && size_bits <= 32 {
        Some(Integer::I64)
    } else {
        None
    }
}

/// The smallest integer type that holds `min` and `max` in `size_bits` bits.
pub fn find_smallest_integer(min: i128, max: i128, size_bits: u32) -> (res: Option<Integer>)
    ensures
        res == spec_find_smallest_integer(min as int, max as int, size_bits as int),
{
    if 0 <= min && max < 0x1_00 && size_bits <= 8 {
        Some(Integer::U8)
    } else if 0 <= min && max < 0x1_0000 && size_bits <= 16 {
        Some(Integer::U16)
    } else if 0 <= min && max < 0x1_0000_0000 && size_bits <= 32 {
        Some(Integer::U32)
    } else if 0 <= min && max < 0x1_0000_0000_0000_0000 && size_bits <= 64 {
        Some(Integer::U64)
    } else if -0x80 <= min && max < 0x80 && size_bits <= 8 {
        Some(Integer::I8)
    } else if -0x8000 <= min && max < 0x8000 && size_bits <= 16 {
        Some(Integer::I16)
    } else if -0x8_0000_0000 <= min && max < 0x8000_0000 && size_bits <= 32 {
        Some(Integer::I32)
    } else if -0x8_0000_0000_0000_0000 <= min && max < 0x8000_0000_0000_0000 && size_bits <= 32 {
        Some(Integer::I64)
    } else {
        None
    }
}

/// What is wrong with an enum.
#[derive(Debug, Clone, Copy, PartialEq, Eq, Structural)]
pub enum EnumFault {
    UnknownSize,
    NoVariants,
    DuplicateValues,
    VariantTooHigh,
    MultipleDefaults,
    MultipleCatchAlls,
    BoolBaseType,
    UintNegative,
    UintNoFit,
    IntNoFit,
}

/// The fixed size base type the enum gets, or what is wrong with its base type.
pub open spec fn resolved_base_type(e: Enum, size_bits: u32) -> Result<BaseType, EnumFault> {
    let n = e.variants@.len() as int;
    let min = assigned_min(e.variants@, n);
    let max = assigned_max(e.variants@, n);
    match e.base_type {
        BaseType::Bool => Err(EnumFault::BoolBaseType),
        BaseType::Uint | BaseType::Unspecified => match spec_find_smallest_integer(
            min,
            max,
            size_bits as int,
        ) {
            Some(i) => if i.spec_is_signed() {
                Err(EnumFault::UintNegative)
            } else {
                Ok(BaseType::FixedSize(i))
            },
            None => Err(EnumFault::UintNoFit),
        },
        BaseType::Int => match spec_find_smallest_integer(
            if min < -1 {
                min
            } else {
                -1
            },
            max,
            size_bits as int,
        ) {
            Some(i) => Ok(BaseType::FixedSize(i)),
            None => Err(EnumFault::IntNoFit),
        },
        BaseType::FixedSize(i) => Ok(BaseType::FixedSize(i)),
    }
}

/// What is wrong with the enum, in the order the check looks, or `None` when the
/// check accepts it.
pub open spec fn enum_fault(e: Enum) -> Option<EnumFault> {
    let vs = e.variants@;
    match spec_enum_size_bits(e) {
        None => Some(EnumFault::UnknownSize),
        Some(size_bits) => if vs.len() == 0 {
            Some(EnumFault::NoVariants)
        } else if duplicate_texts(vs, vs.len() as int).len() > 0 {
            Some(EnumFault::DuplicateValues)
        } else if has_too_high(vs, highest_value(size_bits)) {
            Some(EnumFault::VariantTooHigh)
        } else if count_defaults(vs, vs.len() as int) >= 2 {
            Some(EnumFault::MultipleDefaults)
        } else if count_catch_alls(vs, vs.len() as int) >= 2 {
            Some(EnumFault::MultipleCatchAlls)
        } else {
            match resolved_base_type(e, size_bits) {
                Ok(_) => None,
                Err(f) => Some(f),
            }
        },
    }
}

/// The generation style the check gives an enum.
pub open spec fn spec_generation_style(variants: Seq<EnumVariant>, size_bits: u32) -> EnumGenerationStyle {
    if has_fallback(variants) {
        EnumGenerationStyle::Fallback
    } else if bits_covered(variants, highest_value(size_bits)) {
        EnumGenerationStyle::InfallibleWithinRange
    } else {
        EnumGenerationStyle::Fallible
    }
}

/// Variant `new` is variant `old` with an unspecified value replaced by the value
/// it is assigned.
pub open spec fn variant_assigned(old: EnumVariant, new: EnumVariant, assigned: int) -> bool {
    &&& new.cfg_attr == old.cfg_attr
    &&& new.description == old.description
    &&& new.name == old.name
    &&& new.value == match old.value {
        EnumValue::Unspecified => EnumValue::Specified(assigned as i128),
        v => v,
    }
}

/// What the check needs to compute: an explicit size leaves room for its highest
/// value in an `i128`, and the assigned values fit in an `i128`.
pub open spec fn enum_check_computable(e: Enum) -> bool {
    &&& (e.size_bits matches Some(s) ==> s <= 126)
    &&& forall|k: int|
        0 <= k < e.variants@.len() ==> #[trigger] assigned_value(e.variants@, k) <= i128::MAX
}

/// The error the check gives for a fault of the enum named `name`.
pub open spec fn error_matches_fault(err: Error, fault: EnumFault, old: Enum) -> bool {
    let vs = old.variants@;
    let size_bits = spec_enum_size_bits(old).unwrap();
    match fault {
        EnumFault::UnknownSize => err matches Error::EnumUnknownSize { enum_name } && enum_name@
            == old.name@,
        EnumFault::NoVariants => err matches Error::EnumNoVariants { enum_name } && enum_name@
            == old.name@,
        EnumFault::DuplicateValues => err matches Error::EnumDuplicateValues {
            enum_name,
            duplicates,
        } && enum_name@ == old.name@ && duplicates@.len() == duplicate_texts(
            vs,
            vs.len() as int,
        ).len() && forall|i: int|
            0 <= i < duplicates@.len() ==> #[trigger] duplicates@[i]@ == duplicate_texts(
                vs,
                vs.len() as int,
            )[i],
        EnumFault::VariantTooHigh => err matches Error::EnumVariantTooHigh {
            enum_name,
            variant,
            value,
            max,
        } && enum_name@ == old.name@ && max == highest_value(size_bits) && exists|k: int|
            0 <= k < vs.len() && assigned_value(vs, k) == value && value > max
                && variant@ == spec_unique_id_text(vs[k].spec_id()) && forall|j: int|
                0 <= j < k ==> #[trigger] assigned_value(vs, j) <= max,
        EnumFault::MultipleDefaults => err matches Error::EnumMultipleDefaults { enum_name }
            && enum_name@ == old.name@,
        EnumFault::MultipleCatchAlls => err matches Error::EnumMultipleCatchAlls { enum_name }
            && enum_name@ == old.name@,
        EnumFault::BoolBaseType => err matches Error::EnumBoolBaseType { enum_name }
            && enum_name@ == old.name@,
        EnumFault::UintNegative => err matches Error::EnumUintNegative { enum_name }
            && enum_name@ == old.name@,
        EnumFault::UintNoFit => err matches Error::EnumUintNoFit { enum_name, min, max }
            && enum_name@ == old.name@ && min == assigned_min(vs, vs.len() as int) && max
            == assigned_max(vs, vs.len() as int),
        EnumFault::IntNoFit => err matches Error::EnumIntNoFit { enum_name, min, max }
            && enum_name@ == old.name@ && min == assigned_min(vs, vs.len() as int) && max
            == assigned_max(vs, vs.len() as int),
    }
}

/// The enum after a successful check.
pub open spec fn enum_checked(old: Enum, new: Enum) -> bool {
    let size_bits = spec_enum_size_bits(old).unwrap();
    &&& new.cfg_attr == old.cfg_attr
    &&& new.description == old.description
    &&& new.name == old.name
    &&& new.size_bits == Some(size_bits)
    &&& new.base_type == resolved_base_type(old, size_bits).unwrap()
    &&& new.generation_style == Some(spec_generation_style(old.variants@, size_bits))
    &&& new.variants@.len() == old.variants@.len()
    &&& forall|k: int|
        0 <= k < old.variants@.len() ==> #[trigger] variant_assigned(
            old.variants@[k],
            new.variants@[k],
            assigned_value(old.variants@, k),
        )
}

/// The highest value that fits in `size_bits` unsigned bits.
fn highest_value_of(size_bits: u32) -> (res: i128)
    requires
        size_bits <= 126,
    ensures
        res == highest_value(size_bits),
        0 <= res < 0x4000_0000_0000_0000_0000_0000_0000_0000,
{
    proof {
        lemma2_to64();
        lemma2_to64_rest();
        lemma_pow2_adds(64, 62);
        assert(pow2(126) == 0x4000_0000_0000_0000_0000_0000_0000_0000);
    }
    let mut p: i128 = 1;
    let mut i: u32 = 0;
    while i < size_bits
        invariant
            i <= size_bits <= 126,
            p == pow2(i as nat),
            pow2(126) == 0x4000_0000_0000_0000_0000_0000_0000_0000,
            1 <= p <= 0x4000_0000_0000_0000_0000_0000_0000_0000,
        decreases size_bits - i,
    {
        proof {
            lemma_pow2_unfold((i + 1) as nat);
            if i + 1 < 126 {
                lemma_pow2_strictly_increases((i + 1) as nat, 126);
            }
        }
        p = p * 2;
        i = i + 1;
    }
    proof {
        if size_bits < 126 {
            lemma_pow2_strictly_increases(size_bits as nat, 126);
        }
    }
    p - 1
}

/// Gives every variant without a specified value the value it is assigned, and
/// returns the values of all variants.
fn assign_values(variants: &mut Vec<EnumVariant>) -> (seen: Vec<i128>)
    requires
        forall|k: int|
            0 <= k < old(variants)@.len() ==> #[trigger] assigned_value(old(variants)@, k)
                <= i128::MAX,
    ensures
        final(variants)@.len() == old(variants)@.len(),
        seen@.len() == old(variants)@.len(),
        forall|k: int|
            0 <= k < old(variants)@.len() ==> #[trigger] seen@[k] == assigned_value(
                old(variants)@,
                k,
            ),
        forall|k: int|
            0 <= k < old(variants)@.len() ==> #[trigger] variant_assigned(
                old(variants)@[k],
                final(variants)@[k],
                assigned_value(old(variants)@, k),
            ),
{
    let ghost old_vs = variants@;
    let mut seen: Vec<i128> = Vec::new();
    let mut k: usize = 0;
    while k < variants.len()
        invariant
            variants@.len() == old_vs.len(),
            k <= old_vs.len(),
            seen@.len() == k,
            forall|j: int|
                0 <= j < old_vs.len() ==> #[trigger] assigned_value(old_vs, j) <= i128::MAX,
            forall|j: int| 0 <= j < k ==> #[trigger] seen@[j] == assigned_value(old_vs, j),
            forall|j: int|
                0 <= j < k ==> #[trigger] variant_assigned(
                    old_vs[j],
                    variants@[j],
                    assigned_value(old_vs, j),
                ),
            forall|j: int| k <= j < old_vs.len() ==> #[trigger] variants@[j] == old_vs[j],
        decreases old_vs.len() - k,
    {
        let value = variants[k].value;
        proof {
            assert(variants@[k as int] == old_vs[k as int]);
            assert(assigned_value(old_vs, k as int) <= i128::MAX);
            if k > 0 {
                assert(seen@[k - 1] == assigned_value(old_vs, k - 1));
            }
        }
        let v: i128 = match value {
            EnumValue::Specified(n) => n,
            _ => if k == 0 {
                0
            } else {
                seen[k - 1] + 1
            },
        };
        assert(v == assigned_value(old_vs, k as int));
        match value {
            EnumValue::Unspecified => {
                variants[k].value = EnumValue::Specified(v);
            },
            _ => {},
        }
        seen.push(v);
        k = k + 1;
    }
    seen
}

/// The identities of the variants.
fn collect_ids(variants: &Vec<EnumVariant>) -> (ids: Vec<UniqueId>)
    ensures
        ids@.len() == variants@.len(),
        forall|k: int| 0 <= k < variants@.len() ==> #[trigger] ids@[k]@ == variants@[k].spec_id(),
{
    let mut ids: Vec<UniqueId> = Vec::new();
    let mut k: usize = 0;
    while k < variants.len()
        invariant
            k <= variants@.len(),
            ids@.len() == k,
            forall|j: int| 0 <= j < k ==> #[trigger] ids@[j]@ == variants@[j].spec_id(),
        decreases variants@.len() - k,
    {
        ids.push(variants[k].id());
        k = k + 1;
    }
    ids
}

/// The texts of the variants that repeat exactly one earlier variant, in order.
fn find_duplicates(seen: &Vec<i128>, ids: &Vec<UniqueId>, Ghost(vs): Ghost<Seq<EnumVariant>>) -> (res: Vec<String>)
    requires
        seen@.len() == vs.len(),
        ids@.len() == vs.len(),
        forall|k: int| 0 <= k < vs.len() ==> #[trigger] seen@[k] == assigned_value(vs, k),
        forall|k: int| 0 <= k < vs.len() ==> #[trigger] ids@[k]@ == vs[k].spec_id(),
    ensures
        res@.len() == duplicate_texts(vs, vs.len() as int).len(),
        forall|i: int|
            0 <= i < res@.len() ==> #[trigger] res@[i]@ == duplicate_texts(vs, vs.len() as int)[i],
{
    let mut res: Vec<String> = Vec::new();
    let n = seen.len();
    let mut k: usize = 0;
    while k < n
        invariant
            n == vs.len(),
            seen@.len() == vs.len(),
            ids@.len() == vs.len(),
            forall|k: int| 0 <= k < vs.len() ==> #[trigger] seen@[k] == assigned_value(vs, k),
            forall|k: int| 0 <= k < vs.len() ==> #[trigger] ids@[k]@ == vs[k].spec_id(),
            k <= n,
            res@.len() == duplicate_texts(vs, k as int).len(),
            forall|i: int|
                0 <= i < res@.len() ==> #[trigger] res@[i]@ == duplicate_texts(vs, k as int)[i],
        decreases n - k,
    {
        let mut count: usize = 0;
        let mut j: usize = 0;
        while j < k
            invariant
                k < n,
                n == vs.len(),
                seen@.len() == vs.len(),
                ids@.len() == vs.len(),
                forall|k: int| 0 <= k < vs.len() ==> #[trigger] seen@[k] == assigned_value(vs, k),
                forall|k: int| 0 <= k < vs.len() ==> #[trigger] ids@[k]@ == vs[k].spec_id(),
                j <= k,
                count == equal_before(vs, k as int, j as int),
                count <= j,
            decreases k - j,
        {
            if seen[j] == seen[k] && ids[j].same_as(&ids[k]) {
                count = count + 1;
            }
            j = j + 1;
        }
        if count == 1 {
            let mut text = ids[k].to_text();
            text.append(": ");
            let number = decimal_string(seen[k]);
            text.append(number.as_str());
            res.push(text);
        }
        k = k + 1;
        proof {
            let d = duplicate_texts(vs, k as int);
            assert forall|i: int| 0 <= i < res@.len() implies #[trigger] res@[i]@ == d[i] by {}
        }
    }
    res
}

/// Whether some variant is the default or catches all.
fn any_fallback(variants: &Vec<EnumVariant>) -> (res: bool)
    ensures
        res == has_fallback(variants@),
{
    let mut k: usize = 0;
    while k < variants.len()
        invariant
            k <= variants@.len(),
            forall|j: int|
                0 <= j < k ==> !(#[trigger] variants@[j].value is Default
                    || variants@[j].value is CatchAll),
        decreases variants@.len() - k,
    {
        match variants[k].value {
            EnumValue::Default => return true,
            EnumValue::CatchAll => return true,
            _ => {},
        }
        k = k + 1;
    }
    false
}

/// Whether `v` is among the values.
fn contains_value(seen: &Vec<i128>, v: i128) -> (res: bool)
    ensures
        res == exists|k: int| 0 <= k < seen@.len() && seen@[k] == v,
{
    let mut k: usize = 0;
    while k < seen.len()
        invariant
            k <= seen@.len(),
            forall|j: int| 0 <= j < k ==> seen@[j] != v,
        decreases seen@.len() - k,
    {
        if seen[k] == v {
            return true;
        }
        k = k + 1;
    }
    false
}

/// Whether every value from zero up to `highest` is among the values of the variants.
fn covers_all(seen: &Vec<i128>, highest: i128, Ghost(vs): Ghost<Seq<EnumVariant>>) -> (res: bool)
    requires
        seen@.len() == vs.len(),
        forall|k: int| 0 <= k < vs.len() ==> #[trigger] seen@[k] == assigned_value(vs, k),
        0 <= highest < i128::MAX,
    ensures
        res == bits_covered(vs, highest as int),
{
    let mut v: i128 = 0;
    while v <= highest
        invariant
            0 <= v <= highest + 1,
            highest < i128::MAX,
            seen@.len() == vs.len(),
            forall|k: int| 0 <= k < vs.len() ==> #[trigger] seen@[k] == assigned_value(vs, k),
            forall|u: int| 0 <= u < v ==> #[trigger] value_assigned(vs, u),
        decreases highest + 1 - v,
    {
        if !contains_value(seen, v) {
            proof {
                if value_assigned(vs, v as int) {
                    let k = choose|k: int| 0 <= k < vs.len() && #[trigger] assigned_value(vs, k) == v;
                    assert(seen@[k] == v);
                }
            }
            return false;
        }
        proof {
            let k = choose|k: int| 0 <= k < seen@.len() && seen@[k] == v;
            assert(assigned_value(vs, k) == v);
        }
        v = v + 1;
    }
    true
}

/// The first variant whose value is above `highest`, if there is one.
fn first_too_high(seen: &Vec<i128>, highest: i128) -> (res: Option<usize>)
    ensures
        match res {
            Some(k) => k < seen@.len() && seen@[k as int] > highest && forall|j: int|
                0 <= j < k ==> seen@[j] <= highest,
            None => forall|j: int| 0 <= j < seen@.len() ==> seen@[j] <= highest,
        },
{
    let mut k: usize = 0;
    while k < seen.len()
        invariant
            k <= seen@.len(),
            forall|j: int| 0 <= j < k ==> seen@[j] <= highest,
        decreases seen@.len() - k,
    {
        if seen[k] > highest {
            return Some(k);
        }
        k = k + 1;
    }
    None
}

/// The number of default and of catch-all variants.
fn count_fallbacks(variants: &Vec<EnumVariant>) -> (res: (usize, usize))
    ensures
        res.0 == count_defaults(variants@, variants@.len() as int),
        res.1 == count_catch_alls(variants@, variants@.len() as int),
{
    let mut defaults: usize = 0;
    let mut catch_alls: usize = 0;
    let mut k: usize = 0;
    while k < variants.len()
        invariant
            k <= variants@.len(),
            defaults == count_defaults(variants@, k as int),
            catch_alls == count_catch_alls(variants@, k as int),
            defaults <= k,
            catch_alls <= k,
        decreases variants@.len() - k,
    {
        if variants[k].value.is_default() {
            defaults = defaults + 1;
        }
        if variants[k].value.is_catch_all() {
            catch_alls = catch_alls + 1;
        }
        k = k + 1;
    }
    (defaults, catch_alls)
}

/// The smallest and largest value of the variants.
fn min_max(seen: &Vec<i128>, Ghost(vs): Ghost<Seq<EnumVariant>>) -> (res: (i128, i128))
    requires
        seen@.len() == vs.len(),
        vs.len() > 0,
        forall|k: int| 0 <= k < vs.len() ==> #[trigger] seen@[k] == assigned_value(vs, k),
    ensures
        res.0 == assigned_min(vs, vs.len() as int),
        res.1 == assigned_max(vs, vs.len() as int),
{
    let mut min = seen[0];
    let mut max = seen[0];
    let mut k: usize = 1;
    while k < seen.len()
        invariant
            1 <= k <= seen@.len(),
            seen@.len() == vs.len(),
            forall|k: int| 0 <= k < vs.len() ==> #[trigger] seen@[k] == assigned_value(vs, k),
            min == assigned_min(vs, k as int),
            max == assigned_max(vs, k as int),
        decreases seen@.len() - k,
    {
        if seen[k] < min {
            min = seen[k];
        }
        if seen[k] > max {
            max = seen[k];
        }
        k = k + 1;
    }
    (min, max)
}

/// Checks that the enum is fully specified, assigns the values of the variants that
/// have none, and determines its size, fixed size base type and generation style.
pub fn check_enum(enum_value: &mut Enum) -> (res: Result<(), Error>)
    requires
        enum_check_computable(*old(enum_value)),
    ensures
        res is Ok <==> enum_fault(*old(enum_value)) is None,
        res matches Err(e) ==> error_matches_fault(
            e,
            enum_fault(*old(enum_value)).unwrap(),
            *old(enum_value),
        ),
        res is Ok ==> enum_checked(*old(enum_value), *final(enum_value)),
{
    let ghost old_e = *enum_value;
    let ghost old_vs = enum_value.variants@;
    let size_bits: u32 = match enum_value.size_bits {
        Some(s) => s,
        None => match enum_value.base_type {
            BaseType::Bool => 1,
            BaseType::FixedSize(i) => i.size_bits(),
            _ => {
                return Err(Error::EnumUnknownSize { enum_name: enum_value.name.clone() });
            },
        },
    };
    enum_value.size_bits = Some(size_bits);
    let highest = highest_value_of(size_bits);
    if enum_value.variants.len() == 0 {
        return Err(Error::EnumNoVariants { enum_name: enum_value.name.clone() });
    }
    let (defaults, catch_alls) = count_fallbacks(&enum_value.variants);
    let fallback = any_fallback(&enum_value.variants);
    let ids = collect_ids(&enum_value.variants);
    let seen = assign_values(&mut enum_value.variants);
    let duplicates = find_duplicates(&seen, &ids, Ghost(old_vs));
    if duplicates.len() > 0 {
        return Err(
            Error::EnumDuplicateValues { enum_name: enum_value.name.clone(), duplicates },
        );
    }
    proof {
        lemma_pow2_pos(size_bits as nat);
    }
    let covered = covers_all(&seen, highest, Ghost(old_vs));
    let style = if fallback {
        EnumGenerationStyle::Fallback
    } else if covered {
        EnumGenerationStyle::InfallibleWithinRange
    } else {
        EnumGenerationStyle::Fallible
    };
    enum_value.generation_style = Some(style);
    match first_too_high(&seen, highest) {
        Some(k) => {
            proof {
                assert(assigned_value(old_vs, k as int) > highest);
                assert forall|j: int| 0 <= j < k implies #[trigger] assigned_value(old_vs, j) <= highest by {
                    assert(seen@[j] == assigned_value(old_vs, j));
                }
            }
            return Err(
                Error::EnumVariantTooHigh {
                    enum_name: enum_value.name.clone(),
                    variant: ids[k].to_text(),
                    value: seen[k],
                    max: highest,
                },
            );
        },
        None => {
            proof {
                if has_too_high(old_vs, highest as int) {
                    let k = choose|k: int|
                        0 <= k < old_vs.len() && #[trigger] assigned_value(old_vs, k) > highest;
                    assert(seen@[k] > highest);
                }
            }
        },
    }
    if defaults >= 2 {
        return Err(Error::EnumMultipleDefaults { enum_name: enum_value.name.clone() });
    }
    if catch_alls >= 2 {
        return Err(Error::EnumMultipleCatchAlls { enum_name: enum_value.name.clone() });
    }
    let (min, max) = min_max(&seen, Ghost(old_vs));
    let base_type = match enum_value.base_type {
        BaseType::Bool => {
            return Err(Error::EnumBoolBaseType { enum_name: enum_value.name.clone() });
        },
        BaseType::Uint | BaseType::Unspecified => match find_smallest_integer(min, max, size_bits) {
            Some(integer) => {
                if integer.is_signed() {
                    return Err(Error::EnumUintNegative { enum_name: enum_value.name.clone() });
                }
                BaseType::FixedSize(integer)
            },
            None => {
                return Err(
                    Error::EnumUintNoFit { enum_name: enum_value.name.clone(), min, max },
                );
            },
        },
        BaseType::Int => {
            let low = if min < -1 {
                min
            } else {
                -1
            };
            match find_smallest_integer(low, max, size_bits) {
                Some(integer) => BaseType::FixedSize(integer),
                None => {
                    return Err(
                        Error::EnumIntNoFit { enum_name: enum_value.name.clone(), min, max },
                    );
                },
            }
        },
        BaseType::FixedSize(integer) => BaseType::FixedSize(integer),
    };
    enum_value.base_type = base_type;
    Ok(())
}

/// The enum check on every enum that a field converts to.
pub struct EnumCheck;

impl FieldVisitor for EnumCheck {
    open spec fn field_pre(&self, field: Field) -> bool {
        field.field_conversion matches Some(FieldConversion::Enum { enum_value, .. })
            ==> enum_check_computable(enum_value)
    }

    open spec fn field_ok(&self, field: Field) -> bool {
        field.field_conversion matches Some(FieldConversion::Enum { enum_value, .. })
            ==> enum_fault(enum_value) is None
    }

    open spec fn field_rel(&self, old: Field, new: Field) -> bool {
        &&& same_field_but_conversion(old, new)
        &&& match old.field_conversion {
            Some(FieldConversion::Enum { enum_value: e, use_try: u }) => new.field_conversion matches Some(
                FieldConversion::Enum { enum_value: e2, use_try: u2 },
            ) && u2 == u && enum_checked(e, e2),
            c => new.field_conversion == c,
        }
    }

    open spec fn field_err(&self, object_name: Seq<char>, field: Field, e: Error) -> bool {
        field.field_conversion matches Some(FieldConversion::Enum { enum_value, .. }) && error_matches_fault(
            e,
            enum_fault(enum_value).unwrap(),
            enum_value,
        )
    }

    fn visit_field(&self, object_name: &String, field: &mut Field) -> (res: Result<(), Error>) {
        match &mut field.field_conversion {
            Some(FieldConversion::Enum { enum_value, .. }) => check_enum(enum_value),
            _ => Ok(()),
        }
    }
}

/// The enum check, as a visit of every object.
pub open spec fn enum_visitor() -> EachField<EnumCheck> {
    EachField { visitor: EnumCheck }
}

/// Checks every enum that a field converts to: see [`check_enum`].
pub fn run_pass(device: &mut Device) -> (res: Result<(), Error>)
    requires
        all_objects(old(device).objects@, pre_pred(&enum_visitor())),
    ensures
        res is Ok <==> all_objects(old(device).objects@, ok_pred(&enum_visitor())),
        res matches Err(e) ==> first_error(old(device).objects@, ok_pred(&enum_visitor()), err_rel(&enum_visitor()), e),
        res is Ok ==> related_objects(
            old(device).objects@,
            final(device).objects@,
            rel_rel(&enum_visitor()),
        ),
        final(device).name == old(device).name,
        final(device).global_config == old(device).global_config,
{
    let v = EachField { visitor: EnumCheck };
    visit_objects(&v, &mut device.objects)
}


/// The integer type the enum check picks holds both values, except where the table's
/// lower bound for `i32` or `i64` is below the minimum of that type and the smaller value
/// falls between the two.
pub proof fn lemma_smallest_integer_holds(min: int, max: int, size_bits: int)
    requires
        !(spec_find_smallest_integer(min, max, size_bits) == Some(Integer::I32) && min
            < -0x8000_0000),
        !(spec_find_smallest_integer(min, max, size_bits) == Some(Integer::I64) && min
            < -0x8000_0000_0000_0000),
    ensures
        spec_find_smallest_integer(min, max, size_bits) matches Some(t) ==> t.spec_min_value()
            <= min && max <= t.spec_max_value(),
{
}

} // verus!
