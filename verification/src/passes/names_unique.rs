//! Checks that all names are unique, so that nothing that is generated from them
//! collides.

use vstd::prelude::*;

use crate::error::Error;
use crate::mir::{
    all_objects, lemma_all_objects, object_and_below, Cfg, Device, Enum, Field,
    FieldConversion, FieldSet, Object, Unique, UniqueId, UniqueIdView,
};

verus! {

/// No element occurs twice.
pub open spec fn no_dup(s: Seq<UniqueIdView>) -> bool {
    forall|i: int, j: int| 0 <= i < j < s.len() ==> #[trigger] s[i] != #[trigger] s[j]
}

/// The views of the identities.
pub open spec fn id_views(ids: Seq<UniqueId>) -> Seq<UniqueIdView> {
    ids.map_values(|id: UniqueId| id@)
}

/// The identities of the enums that the first `upto` fields convert to, in order.
pub open spec fn enum_ids(fields: Seq<Field>, upto: int) -> Seq<UniqueIdView>
    decreases upto,
{
    if upto <= 0 {
        Seq::empty()
    } else {
        enum_ids(fields, upto - 1) + match fields[upto - 1].field_conversion {
            Some(FieldConversion::Enum { enum_value, .. }) => seq![enum_value.spec_id()],
            _ => Seq::empty(),
        }
    }
}

/// The identities of the enums that the fields of the set convert to, in order.
pub open spec fn field_set_enum_ids(fs: FieldSet) -> Seq<UniqueIdView> {
    enum_ids(fs.fields@, fs.fields@.len() as int)
}

/// The identities of the enums of an optional field set.
pub open spec fn opt_field_set_enum_ids(fs: Option<FieldSet>) -> Seq<UniqueIdView> {
    match fs {
        Some(f) => field_set_enum_ids(f),
        None => Seq::empty(),
    }
}

/// The identity of the object followed by those of the enums of its fields.
pub open spec fn own_ids(o: Object) -> Seq<UniqueIdView> {
    seq![o.spec_id()] + match o {
        Object::Register(r) => field_set_enum_ids(r.field_set),
        Object::Command(c) => opt_field_set_enum_ids(c.field_set_in) + opt_field_set_enum_ids(
            c.field_set_out,
        ),
        _ => Seq::empty(),
    }
}

/// The identities of the object, its enums and the objects below it, in order.
pub open spec fn object_ids(o: Object) -> Seq<UniqueIdView>
    decreases o,
{
    own_ids(o) + match o {
        Object::Block(b) => {
            proof {
                vstd::std_specs::vec::axiom_vec_decreases_to_view(b.objects);
            }
            objects_ids(b.objects@)
        },
        _ => Seq::empty(),
    }
}

/// The identities of the objects, their enums and the objects below them, in order.
pub open spec fn objects_ids(s: Seq<Object>) -> Seq<UniqueIdView>
    decreases s,
{
    if s.len() == 0 {
        Seq::empty()
    } else {
        object_ids(s[0]) + objects_ids(s.subrange(1, s.len() as int))
    }
}

/// The variants of the enum have different identities.
pub open spec fn variants_unique(e: Enum) -> bool {
    forall|i: int, j: int|
        0 <= i < j < e.variants@.len() ==> #[trigger] e.variants@[i].spec_id()
            != #[trigger] e.variants@[j].spec_id()
}

/// The fields of the set have different names, and the enums they convert to have
/// variants with different identities.
pub open spec fn field_set_local_ok(fs: FieldSet) -> bool {
    &&& forall|i: int, j: int|
        0 <= i < j < fs.fields@.len() ==> #[trigger] fs.fields@[i].name@
            != #[trigger] fs.fields@[j].name@
    &&& forall|i: int|
        0 <= i < fs.fields@.len() ==> (#[trigger] fs.fields@[i].field_conversion matches Some(
            FieldConversion::Enum { enum_value, .. },
        ) ==> variants_unique(enum_value))
}

/// The field sets of the object are fine by themselves.
pub open spec fn local_ok(o: Object) -> bool {
    match o {
        Object::Register(r) => field_set_local_ok(r.field_set),
        Object::Command(c) => {
            &&& (c.field_set_in matches Some(f) ==> field_set_local_ok(f))
            &&& (c.field_set_out matches Some(f) ==> field_set_local_ok(f))
        },
        _ => true,
    }
}

/// [`local_ok`] as a predicate on objects.
pub open spec fn local_ok_pred() -> spec_fn(Object) -> bool {
    |o: Object| local_ok(o)
}

proof fn lemma_no_dup_prefix(s: Seq<UniqueIdView>, n: int)
    requires
        no_dup(s),
        0 <= n <= s.len(),
    ensures
        no_dup(s.take(n)),
{
    assert forall|i: int, j: int| 0 <= i < j < s.take(n).len() implies #[trigger] s.take(n)[i]
        != #[trigger] s.take(n)[j] by {
        assert(s.take(n)[i] == s[i]);
        assert(s.take(n)[j] == s[j]);
    }
}

proof fn lemma_no_dup_push(s: Seq<UniqueIdView>, x: UniqueIdView)
    requires
        no_dup(s),
        !s.contains(x),
    ensures
        no_dup(s.push(x)),
{
    assert forall|i: int, j: int| 0 <= i < j < s.push(x).len() implies #[trigger] s.push(x)[i]
        != #[trigger] s.push(x)[j] by {
        if j == s.len() {
            assert(s.push(x)[i] == s[i]);
        } else {
            assert(s.push(x)[i] == s[i]);
            assert(s.push(x)[j] == s[j]);
        }
    }
}

proof fn lemma_enum_ids_prefix(fields: Seq<Field>, j: int, m: int)
    requires
        0 <= j <= m <= fields.len(),
    ensures
        enum_ids(fields, j).len() <= enum_ids(fields, m).len(),
        enum_ids(fields, m).take(enum_ids(fields, j).len() as int) == enum_ids(fields, j),
    decreases m - j,
{
    if j < m {
        lemma_enum_ids_prefix(fields, j, m - 1);
        assert(enum_ids(fields, m).take(enum_ids(fields, j).len() as int) =~= enum_ids(fields, j));
    } else {
        assert(enum_ids(fields, m).take(enum_ids(fields, j).len() as int) =~= enum_ids(fields, j));
    }
}

/// Adds the identity to the seen ones, unless it is among them already.
fn insert_id(seen: &mut Vec<UniqueId>, id: UniqueId) -> (res: bool)
    ensures
        res == !id_views(old(seen)@).contains(id@),
        res ==> final(seen)@ == old(seen)@.push(id),
        res ==> id_views(final(seen)@) == id_views(old(seen)@).push(id@),
        !res ==> final(seen)@ == old(seen)@,
{
    let mut i: usize = 0;
    while i < seen.len()
        invariant
            i <= seen@.len(),
            forall|j: int| 0 <= j < i ==> seen@[j]@ != id@,
        decreases seen@.len() - i,
    {
        if seen[i].same_as(&id) {
            assert(id_views(seen@)[i as int] == id@);
            return false;
        }
        i = i + 1;
    }
    let ghost before = seen@;
    seen.push(id);
    assert(id_views(seen@) =~= id_views(before).push(id@));
    true
}

/// Whether the name is among the names.
fn has_name(names: &Vec<String>, name: &String) -> (res: bool)
    ensures
        res == exists|i: int| 0 <= i < names@.len() && #[trigger] names@[i]@ == name@,
{
    let mut i: usize = 0;
    while i < names.len()
        invariant
            i <= names@.len(),
            forall|j: int| 0 <= j < i ==> names@[j]@ != name@,
        decreases names@.len() - i,
    {
        if names[i] == *name {
            return true;
        }
        i = i + 1;
    }
    false
}

/// Checks that the variants of the enum have different identities.
fn check_variants(e: &Enum, field_set_name: &String, field_name: &String) -> (res: Result<(), Error>)
    ensures
        res is Ok <==> variants_unique(*e),
        res matches Err(err) ==> variant_error(*e, field_set_name@, field_name@, err),
{
    let mut seen: Vec<UniqueId> = Vec::new();
    let mut k: usize = 0;
    while k < e.variants.len()
        invariant
            k <= e.variants@.len(),
            seen@.len() == k,
            forall|j: int| 0 <= j < k ==> #[trigger] seen@[j]@ == e.variants@[j].spec_id(),
            forall|i: int, j: int|
                0 <= i < j < k ==> #[trigger] e.variants@[i].spec_id()
                    != #[trigger] e.variants@[j].spec_id(),
        decreases e.variants@.len() - k,
    {
        let id = e.variants[k].id();
        let ghost before = seen@;
        if !insert_id(&mut seen, id) {
            let err = Error::DuplicateEnumVariant {
                variant_name: e.variants[k].name.clone(),
                enum_name: e.name.clone(),
                field_set_name: field_set_name.clone(),
                field_name: field_name.clone(),
            };
            proof {
                let i = choose|i: int| 0 <= i < id_views(before).len() && id_views(before)[i] == e.variants@[k as int].spec_id();
                assert(e.variants@[i].spec_id() == e.variants@[k as int].spec_id());
                assert(variant_error(*e, field_set_name@, field_name@, err)) by {
                    assert(e.variants@[k as int] == e.variants@[k as int]);
                }
            }
            return Err(err);
        }
        proof {
            assert forall|j: int| 0 <= j < k + 1 implies #[trigger] seen@[j]@ == e.variants@[j].spec_id() by {
                assert(id_views(seen@)[j] == seen@[j]@);
                if j < k {
                    assert(id_views(before)[j] == before[j]@);
                }
            }
            assert forall|i: int, j: int| 0 <= i < j < k + 1 implies #[trigger] e.variants@[i].spec_id()
                != #[trigger] e.variants@[j].spec_id() by {
                if j == k {
                    assert(id_views(before)[i] == before[i]@);
                    assert(!id_views(before).contains(e.variants@[k as int].spec_id()));
                }
            }
        }
        k = k + 1;
    }
    Ok(())
}


/// The identity the name of the device takes, if it has one.
pub open spec fn device_own_ids(name: Option<String>) -> Seq<UniqueIdView> {
    match name {
        Some(n) => seq![UniqueIdView { name: n@, cfg: None }],
        None => Seq::empty(),
    }
}

/// The identities of a device with the name and objects, its objects and the enums of
/// their fields, in the order in which the objects come, each block before the objects
/// it holds.
pub open spec fn device_ids(name: Option<String>, objects: Seq<Object>) -> Seq<UniqueIdView> {
    device_own_ids(name) + objects_ids(objects)
}

/// Every name of a device with the name and objects is unique: no two identities among
/// the device, its objects and the enums generated for their fields are the same, no
/// field set has two fields of one name, and no generated enum has two variants of one
/// identity.
pub open spec fn names_unique_in(name: Option<String>, objects: Seq<Object>) -> bool {
    &&& no_dup(device_ids(name, objects))
    &&& all_objects(objects, local_ok_pred())
}

/// Every name of the device is unique: see [`names_unique_in`].
pub open spec fn names_unique(d: Device) -> bool {
    names_unique_in(d.name, d.objects@)
}

/// Whether `e` is the error of the first variant of the enum whose identity an earlier
/// variant has, named with the enum, the field set and the field.
pub open spec fn variant_error(en: Enum, set_name: Seq<char>, field_name: Seq<char>, e: Error) -> bool {
    exists|k: int|
        #![trigger en.variants@[k]]
        {
            &&& 0 <= k < en.variants@.len()
            &&& exists|i: int| 0 <= i < k && #[trigger] en.variants@[i].spec_id() == en.variants@[k].spec_id()
            &&& forall|a: int, b: int|
                0 <= a < b < k ==> #[trigger] en.variants@[a].spec_id() != #[trigger] en.variants@[b].spec_id()
            &&& e matches Error::DuplicateEnumVariant { variant_name: v, enum_name: n, field_set_name: fs, field_name: f }
            &&& v@ == en.variants@[k].name@
            &&& n@ == en.name@
            &&& fs@ == set_name
            &&& f@ == field_name
        }
}

/// Whether an earlier field of the set has the name of the field at `k`.
pub open spec fn field_name_repeated(fields: Seq<Field>, k: int) -> bool {
    exists|i: int| 0 <= i < k && #[trigger] fields[i].name@ == fields[k].name@
}

/// Whether the field at `k` is refused after the fields before it, with the identities
/// seen before the set: an earlier field has its name, or it converts to an enum whose
/// identity was seen or whose variants repeat an identity.
pub open spec fn field_refused(fields: Seq<Field>, k: int, seen: Seq<UniqueIdView>) -> bool {
    ||| field_name_repeated(fields, k)
    ||| fields[k].field_conversion matches Some(FieldConversion::Enum { enum_value, .. }) && ((seen
        + enum_ids(fields, k)).contains(enum_value.spec_id()) || !variants_unique(enum_value))
}

/// Whether `e` is the error of the refused field at `k`: a repeated field name first,
/// then a repeated enum identity, then a repeated variant identity.
pub open spec fn field_error(
    fields: Seq<Field>,
    k: int,
    seen: Seq<UniqueIdView>,
    set_name: Seq<char>,
    e: Error,
) -> bool {
    if field_name_repeated(fields, k) {
        e matches Error::DuplicateFieldName { field_set_name: fs, field_name: f } && fs@ == set_name && f@
            == fields[k].name@
    } else {
        fields[k].field_conversion matches Some(FieldConversion::Enum { enum_value, .. }) && if (seen
            + enum_ids(fields, k)).contains(enum_value.spec_id()) {
            e matches Error::DuplicateEnumName { enum_name: n, field_set_name: fs, field_name: f } && n@
                == enum_value.name@ && fs@ == set_name && f@ == fields[k].name@
        } else {
            variant_error(enum_value, set_name, fields[k].name@, e)
        }
    }
}

/// Whether `e` is the error of the first refused field of the set, with the identities
/// seen before the set.
pub open spec fn field_set_name_error(fs: FieldSet, set_name: Seq<char>, seen: Seq<UniqueIdView>, e: Error) -> bool {
    exists|k: int|
        #![trigger fs.fields@[k]]
        {
            &&& 0 <= k < fs.fields@.len()
            &&& field_refused(fs.fields@, k, seen)
            &&& forall|j: int| 0 <= j < k ==> !#[trigger] field_refused(fs.fields@, j, seen)
            &&& field_error(fs.fields@, k, seen, set_name, e)
        }
}

/// Whether an optional field set passes, with the identities seen before it.
pub open spec fn opt_field_set_names_ok(fs: Option<FieldSet>, seen: Seq<UniqueIdView>) -> bool {
    &&& (fs matches Some(f) ==> field_set_local_ok(f))
    &&& no_dup(seen + opt_field_set_enum_ids(fs))
}

/// Whether the object and the objects below it pass, with the identities seen before it.
pub open spec fn object_names_ok(o: Object, seen: Seq<UniqueIdView>) -> bool {
    object_and_below(o, local_ok_pred()) && no_dup(seen + object_ids(o))
}

/// Whether `e` is the error of the first refusal among the object and the objects below
/// it, with the identities seen before it: its identity was seen, else the first refused
/// field of its field sets, else the error among the objects below it.
pub open spec fn object_name_error(o: Object, seen: Seq<UniqueIdView>, e: Error) -> bool
    decreases o,
{
    if seen.contains(o.spec_id()) {
        e matches Error::DuplicateObjectName { object_name: n } && n@ == o.spec_name()
    } else {
        let s1 = seen.push(o.spec_id());
        match o {
            Object::Register(r) => field_set_name_error(r.field_set, r.name@, s1, e),
            Object::Command(c) => if !opt_field_set_names_ok(c.field_set_in, s1) {
                c.field_set_in matches Some(f) && field_set_name_error(f, c.name@, s1, e)
            } else {
                c.field_set_out matches Some(f) && field_set_name_error(
                    f,
                    c.name@,
                    s1 + opt_field_set_enum_ids(c.field_set_in),
                    e,
                )
            },
            Object::Block(b) => {
                proof {
                    vstd::std_specs::vec::axiom_vec_decreases_to_view(b.objects);
                }
                objects_name_error(b.objects@, s1, e)
            },
            _ => false,
        }
    }
}

/// Whether `e` is the error of the first refusal among the objects, in order, each with
/// the objects below it, with the identities seen before them.
pub open spec fn objects_name_error(s: Seq<Object>, seen: Seq<UniqueIdView>, e: Error) -> bool
    decreases s,
{
    if s.len() == 0 {
        false
    } else if object_names_ok(s[0], seen) {
        objects_name_error(s.subrange(1, s.len() as int), seen + object_ids(s[0]), e)
    } else {
        object_name_error(s[0], seen, e)
    }
}

/// Whether `e` is the error that the check of names gives for a device with the name and
/// objects: the first refusal in the order of the check, which starts from the identity
/// of the device.
pub open spec fn names_error_in(name: Option<String>, objects: Seq<Object>, e: Error) -> bool {
    objects_name_error(objects, device_own_ids(name), e)
}

proof fn lemma_no_dup_left(a: Seq<UniqueIdView>, b: Seq<UniqueIdView>)
    requires
        no_dup(a + b),
    ensures
        no_dup(a),
{
    lemma_no_dup_prefix(a + b, a.len() as int);
    assert((a + b).take(a.len() as int) =~= a);
}

proof fn lemma_dup_push(s: Seq<UniqueIdView>, x: UniqueIdView)
    requires
        s.contains(x),
    ensures
        !no_dup(s.push(x)),
{
    let i = choose|i: int| 0 <= i < s.len() && s[i] == x;
    assert(s.push(x)[i] == s.push(x)[s.len() as int]);
}

proof fn lemma_objects_ids_append(a: Seq<Object>, b: Seq<Object>)
    ensures
        objects_ids(a + b) == objects_ids(a) + objects_ids(b),
    decreases a.len(),
{
    if a.len() == 0 {
        assert(a + b =~= b);
        assert(objects_ids(a) + objects_ids(b) =~= objects_ids(b));
    } else {
        let rest = a.subrange(1, a.len() as int);
        lemma_objects_ids_append(rest, b);
        assert((a + b)[0] == a[0]);
        assert((a + b).subrange(1, (a + b).len() as int) =~= rest + b);
        assert(objects_ids(a + b) == object_ids(a[0]) + objects_ids(rest + b));
        assert(objects_ids(a) + objects_ids(b) =~= object_ids(a[0]) + (objects_ids(rest)
            + objects_ids(b)));
    }
}

proof fn lemma_objects_ids_step(s: Seq<Object>, i: int)
    requires
        0 <= i < s.len(),
    ensures
        objects_ids(s.take(i + 1)) == objects_ids(s.take(i)) + object_ids(s[i]),
        objects_ids(s) == objects_ids(s.take(i + 1)) + objects_ids(s.skip(i + 1)),
{
    let one = seq![s[i]];
    assert(s.take(i + 1) =~= s.take(i) + one);
    lemma_objects_ids_append(s.take(i), one);
    assert(one.subrange(1, 1) =~= Seq::<Object>::empty());
    assert(objects_ids(Seq::<Object>::empty()) =~= Seq::<UniqueIdView>::empty());
    assert(one[0] == s[i]);
    assert(objects_ids(one) == object_ids(one[0]) + objects_ids(one.subrange(1, 1)));
    assert(objects_ids(one) =~= object_ids(s[i]));
    assert(s =~= s.take(i + 1) + s.skip(i + 1));
    lemma_objects_ids_append(s.take(i + 1), s.skip(i + 1));
}

/// The first refusal among objects is that of the first object that is refused with the
/// objects below it, when those before it pass.
proof fn lemma_objects_name_error_at(s: Seq<Object>, before: Seq<UniqueIdView>, e: Error, i: int)
    requires
        0 <= i < s.len(),
        forall|j: int| 0 <= j < i ==> #[trigger] object_and_below(s[j], local_ok_pred()),
        no_dup(before + objects_ids(s.take(i))),
        !object_names_ok(s[i], before + objects_ids(s.take(i))),
        object_name_error(s[i], before + objects_ids(s.take(i)), e),
    ensures
        objects_name_error(s, before, e),
    decreases i,
{
    if i == 0 {
        assert(s.take(0) =~= Seq::<Object>::empty());
        assert(before + objects_ids(s.take(0)) =~= before);
    } else {
        let rest = s.subrange(1, s.len() as int);
        let b1 = before + object_ids(s[0]);
        let one = seq![s[0]];
        assert(one.subrange(1, 1) =~= Seq::<Object>::empty());
        assert(objects_ids(Seq::<Object>::empty()) =~= Seq::<UniqueIdView>::empty());
        assert(one[0] == s[0]);
        assert(objects_ids(one) == object_ids(one[0]) + objects_ids(one.subrange(1, 1)));
        assert(objects_ids(one) =~= object_ids(s[0]));
        assert forall|m: int| 0 <= m <= rest.len() implies before + objects_ids(s.take(m + 1)) == b1
            + objects_ids(#[trigger] rest.take(m)) by {
            assert(s.take(m + 1) =~= one + rest.take(m));
            lemma_objects_ids_append(one, rest.take(m));
            assert(before + objects_ids(s.take(m + 1)) =~= b1 + objects_ids(rest.take(m)));
        }
        assert(before + objects_ids(s.take(i)) == b1 + objects_ids(rest.take(i - 1)));
        assert(rest[i - 1] == s[i]);
        assert forall|j: int| 0 <= j < i - 1 implies #[trigger] object_and_below(rest[j], local_ok_pred()) by {
            assert(rest[j] == s[j + 1]);
        }
        assert(object_names_ok(s[0], before)) by {
            assert(before + objects_ids(s.take(1)) == b1 + objects_ids(rest.take(0)));
            assert(rest.take(0) =~= Seq::<Object>::empty());
            assert(b1 + objects_ids(rest.take(0)) =~= b1);
            lemma_no_dup_left(b1, objects_ids(rest.take(i - 1)));
        }
        lemma_objects_name_error_at(rest, b1, e, i - 1);
    }
}

/// Checks the fields of a field set: their names, the identities of the enums they
/// convert to against those seen so far, and the variants of those enums.
fn check_field_set(fs: &FieldSet, set_name: &String, seen: &mut Vec<UniqueId>) -> (res: Result<
    (),
    Error,
>)
    requires
        no_dup(id_views(old(seen)@)),
    ensures
        res is Ok <==> field_set_local_ok(*fs) && no_dup(
            id_views(old(seen)@) + field_set_enum_ids(*fs),
        ),
        res is Ok ==> id_views(final(seen)@) == id_views(old(seen)@) + field_set_enum_ids(*fs),
        res matches Err(e) ==> field_set_name_error(*fs, set_name@, id_views(old(seen)@), e),
{
    let ghost before = id_views(seen@);
    let ghost fields = fs.fields@;
    let mut names: Vec<String> = Vec::new();
    let mut k: usize = 0;
    while k < fs.fields.len()
        invariant
            fields == fs.fields@,
            before == id_views(old(seen)@),
            k <= fields.len(),
            names@.len() == k,
            forall|j: int| 0 <= j < k ==> #[trigger] names@[j]@ == fields[j].name@,
            forall|i: int, j: int|
                0 <= i < j < k ==> #[trigger] fields[i].name@ != #[trigger] fields[j].name@,
            forall|i: int|
                0 <= i < k ==> (#[trigger] fields[i].field_conversion matches Some(
                    FieldConversion::Enum { enum_value, .. },
                ) ==> variants_unique(enum_value)),
            id_views(seen@) == before + enum_ids(fields, k as int),
            no_dup(id_views(seen@)),
            forall|j: int| 0 <= j < k ==> !#[trigger] field_refused(fields, j, before),
        decreases fields.len() - k,
    {
        let field = &fs.fields[k];
        if has_name(&names, &field.name) {
            let err = Error::DuplicateFieldName { field_set_name: set_name.clone(), field_name: field.name.clone() };
            proof {
                let j = choose|j: int| 0 <= j < names@.len() && #[trigger] names@[j]@ == field.name@;
                assert(fields[j].name@ == fields[k as int].name@);
                assert(field_name_repeated(fields, k as int));
                assert(field_refused(fields, k as int, before));
                assert(field_error(fields, k as int, before, set_name@, err));
                assert(field_set_name_error(*fs, set_name@, before, err)) by {
                    assert(fs.fields@[k as int] == fields[k as int]);
                }
            }
            return Err(err);
        }
        proof {
            assert(!field_name_repeated(fields, k as int)) by {
                if field_name_repeated(fields, k as int) {
                    let i = choose|i: int| 0 <= i < k && #[trigger] fields[i].name@ == fields[k as int].name@;
                    assert(names@[i]@ == fields[i].name@);
                }
            }
        }
        let ghost names_before = names@;
        names.push(field.name.clone());
        proof {
            assert forall|j: int| 0 <= j < k + 1 implies #[trigger] names@[j]@ == fields[j].name@ by {
                if j < k {
                    assert(names@[j] == names_before[j]);
                }
            }
            assert forall|i: int, j: int| 0 <= i < j < k + 1 implies #[trigger] fields[i].name@
                != #[trigger] fields[j].name@ by {
                if j == k {
                    assert(names@[i]@ == fields[i].name@);
                }
            }
        }
        let ghost seen_before = id_views(seen@);
        match &field.field_conversion {
            Some(FieldConversion::Enum { enum_value, .. }) => {
                let id = enum_value.id();
                if !insert_id(seen, id) {
                    let err = Error::DuplicateEnumName {
                        enum_name: enum_value.name.clone(),
                        field_set_name: set_name.clone(),
                        field_name: field.name.clone(),
                    };
                    proof {
                        assert(field_refused(fields, k as int, before));
                        assert(field_error(fields, k as int, before, set_name@, err));
                        assert(field_set_name_error(*fs, set_name@, before, err)) by {
                            assert(fs.fields@[k as int] == fields[k as int]);
                        }
                        let full = field_set_enum_ids(*fs);
                        let upto = enum_ids(fields, k + 1);
                        assert(upto == enum_ids(fields, k as int) + seq![enum_value.spec_id()]);
                        lemma_dup_push(seen_before, id@);
                        assert(before + upto =~= seen_before.push(id@));
                        lemma_enum_ids_prefix(fields, k + 1, fields.len() as int);
                        assert((before + full).take(before.len() + upto.len() as int) =~= before + upto);
                        if no_dup(before + full) {
                            lemma_no_dup_prefix(before + full, before.len() + upto.len() as int);
                        }
                    }
                    return Err(err);
                }
                proof {
                    lemma_no_dup_push(seen_before, id@);
                }
                let r = check_variants(enum_value, set_name, &field.name);
                if r.is_err() {
                    proof {
                        assert(field_refused(fields, k as int, before));
                        assert(field_error(fields, k as int, before, set_name@, r->Err_0));
                        assert(field_set_name_error(*fs, set_name@, before, r->Err_0)) by {
                            assert(fs.fields@[k as int] == fields[k as int]);
                        }
                    }
                    return r;
                }
                proof {
                    assert(enum_ids(fields, k + 1) == enum_ids(fields, k as int) + seq![
                        enum_value.spec_id(),
                    ]);
                    assert(id_views(seen@) =~= before + enum_ids(fields, k + 1));
                    assert(!field_refused(fields, k as int, before));
                }
            },
            _ => {
                proof {
                    assert(enum_ids(fields, k + 1) =~= enum_ids(fields, k as int));
                    assert(!field_refused(fields, k as int, before));
                }
            },
        }
        k = k + 1;
    }
    Ok(())
}

/// Checks an optional field set; no field set has nothing to check.
fn check_opt_field_set(fs: &Option<FieldSet>, set_name: &String, seen: &mut Vec<UniqueId>) -> (res:
    Result<(), Error>)
    requires
        no_dup(id_views(old(seen)@)),
    ensures
        res is Ok <==> (*fs matches Some(f) ==> field_set_local_ok(f)) && no_dup(
            id_views(old(seen)@) + opt_field_set_enum_ids(*fs),
        ),
        res is Ok ==> id_views(final(seen)@) == id_views(old(seen)@) + opt_field_set_enum_ids(
            *fs,
        ),
        res matches Err(e) ==> *fs matches Some(f) && field_set_name_error(f, set_name@, id_views(old(seen)@), e),
{
    match fs {
        Some(f) => check_field_set(f, set_name, seen),
        None => {
            assert(id_views(seen@) + opt_field_set_enum_ids(*fs) =~= id_views(seen@));
            Ok(())
        },
    }
}

/// Checks the object and, for a block, the objects below it, against the identities
/// seen so far, which it extends.
fn check_object(o: &Object, seen: &mut Vec<UniqueId>) -> (res: Result<(), Error>)
    requires
        no_dup(id_views(old(seen)@)),
    ensures
        res is Ok <==> object_and_below(*o, local_ok_pred()) && no_dup(
            id_views(old(seen)@) + object_ids(*o),
        ),
        res is Ok ==> id_views(final(seen)@) == id_views(old(seen)@) + object_ids(*o),
        res matches Err(e) ==> object_name_error(*o, id_views(old(seen)@), e),
    decreases *o, 1nat,
{
    let ghost before = id_views(seen@);
    let id = o.id();
    if !insert_id(seen, id) {
        proof {
            lemma_dup_push(before, id@);
            assert((before + object_ids(*o)).take(before.len() + 1int) =~= before.push(id@));
            if no_dup(before + object_ids(*o)) {
                lemma_no_dup_prefix(before + object_ids(*o), before.len() + 1int);
            }
        }
        return Err(Error::DuplicateObjectName { object_name: o.name().clone() });
    }
    proof {
        lemma_no_dup_push(before, id@);
    }
    let ghost b1 = id_views(seen@);
    match o {
        Object::Register(r) => {
            let res = check_field_set(&r.field_set, &r.name, seen);
            proof {
                assert(before + object_ids(*o) =~= b1 + field_set_enum_ids(r.field_set));
            }
            res
        },
        Object::Command(c) => {
            let ghost fi = opt_field_set_enum_ids(c.field_set_in);
            let ghost fo = opt_field_set_enum_ids(c.field_set_out);
            proof {
                assert(before + object_ids(*o) =~= (b1 + fi) + fo);
            }
            let r = check_opt_field_set(&c.field_set_in, &c.name, seen);
            if r.is_err() {
                proof {
                    if no_dup((b1 + fi) + fo) {
                        lemma_no_dup_left(b1 + fi, fo);
                    }
                }
                return r;
            }
            check_opt_field_set(&c.field_set_out, &c.name, seen)
        },
        Object::Block(b) => {
            proof {
                vstd::std_specs::vec::axiom_vec_decreases_to_view(b.objects);
                assert(before + object_ids(*o) =~= b1 + objects_ids(b.objects@));
            }
            check_objects(&b.objects, seen)
        },
        _ => {
            proof {
                assert(before + object_ids(*o) =~= b1);
            }
            Ok(())
        },
    }
}

/// Checks the objects in order, each with the objects below it, against the
/// identities seen so far, which it extends.
fn check_objects(objects: &Vec<Object>, seen: &mut Vec<UniqueId>) -> (res: Result<(), Error>)
    requires
        no_dup(id_views(old(seen)@)),
    ensures
        res is Ok <==> all_objects(objects@, local_ok_pred()) && no_dup(
            id_views(old(seen)@) + objects_ids(objects@),
        ),
        res is Ok ==> id_views(final(seen)@) == id_views(old(seen)@) + objects_ids(objects@),
        res matches Err(e) ==> objects_name_error(objects@, id_views(old(seen)@), e),
    decreases *objects, 0nat,
{
    let ghost s = objects@;
    let ghost before = id_views(seen@);
    proof {
        lemma_all_objects(s, local_ok_pred());
        assert(s.take(0) =~= Seq::<Object>::empty());
        assert(before + objects_ids(s.take(0)) =~= before);
    }
    let mut i: usize = 0;
    while i < objects.len()
        invariant
            s == objects@,
            before == id_views(old(seen)@),
            i <= s.len(),
            no_dup(id_views(seen@)),
            id_views(seen@) == before + objects_ids(s.take(i as int)),
            forall|j: int| 0 <= j < i ==> #[trigger] object_and_below(s[j], local_ok_pred()),
            all_objects(s, local_ok_pred()) <==> forall|j: int|
                0 <= j < s.len() ==> #[trigger] object_and_below(s[j], local_ok_pred()),
        decreases s.len() - i,
    {
        proof {
            vstd::std_specs::vec::axiom_vec_index_decreases(*objects, i as int);
        }
        let ghost mid = id_views(seen@);
        let r = check_object(&objects[i], seen);
        proof {
            lemma_objects_ids_step(s, i as int);
            let upto = objects_ids(s.take(i + 1));
            let rest = objects_ids(s.skip(i + 1));
            assert(before + objects_ids(s) =~= (before + upto) + rest);
            assert(before + upto =~= mid + object_ids(s[i as int]));
            if r.is_err() {
                if no_dup(before + objects_ids(s)) {
                    lemma_no_dup_left(before + upto, rest);
                }
                lemma_objects_name_error_at(s, before, r->Err_0, i as int);
            }
        }
        if r.is_err() {
            return r;
        }
        i = i + 1;
    }
    proof {
        assert(s.take(s.len() as int) =~= s);
    }
    Ok(())
}

/// Checks that all names of the device are unique, so that nothing generated from
/// them collides: the device, the objects and the enums generated for fields all have
/// different identities, the fields of each field set have different names, and the
/// variants of each generated enum have different identities.
pub fn run_pass(device: &Device) -> (res: Result<(), Error>)
    ensures
        res is Ok <==> names_unique(*device),
        res matches Err(e) ==> names_error_in(device.name, device.objects@, e),
{
    let mut seen: Vec<UniqueId> = Vec::new();
    match &device.name {
        Some(n) => {
            let no_cfg = Cfg::new(None);
            seen.push(UniqueId::new(n, &no_cfg));
        },
        None => {},
    }
    proof {
        assert(id_views(seen@) =~= device_own_ids(device.name));
    }
    check_objects(&device.objects, &mut seen)
}

} // verus!
