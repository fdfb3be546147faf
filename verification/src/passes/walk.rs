//! Visiting every object of a device description, and every field of its field sets.

use vstd::prelude::*;

use crate::error::Error;
use crate::mir::{
    all_objects, lemma_all_objects, lemma_related_objects, object_and_below, related_object,
    related_objects, Block, Command, Field, FieldSet, Object, Register,
};

verus! {

/// A check or change that is made on each object by itself. On a block it may only
/// look at or change what the block has besides its objects.
pub trait ObjectVisitor {
    /// What the visit needs of the object.
    spec fn pre(&self, object: Object) -> bool;

    /// Whether the visit accepts the object.
    spec fn ok(&self, object: Object) -> bool;

    /// How the object after a successful visit relates to the object before it.
    spec fn rel(&self, old: Object, new: Object) -> bool;

    /// Whether `e` is the error that the visit gives for an object it refuses.
    spec fn err(&self, object: Object, e: Error) -> bool;

    /// The relation of a block only depends on what the block has besides its objects.
    proof fn lemma_rel_ignores_objects(&self, old: Block, mid: Block, new: Block)
        requires
            self.rel(Object::Block(old), Object::Block(mid)),
            mid.cfg_attr == new.cfg_attr,
            mid.description == new.description,
            mid.name == new.name,
            mid.address_offset == new.address_offset,
            mid.repeat == new.repeat,
        ensures
            self.rel(Object::Block(old), Object::Block(new)),
    ;

    /// Checks or changes the object.
    fn visit(&self, object: &mut Object) -> (res: Result<(), Error>)
        requires
            self.pre(*old(object)),
        ensures
            res is Ok <==> self.ok(*old(object)),
            res matches Err(e) ==> self.err(*old(object), e),
            res is Ok ==> self.rel(*old(object), *final(object)),
            res is Ok ==> (*old(object) is Block <==> *final(object) is Block),
            res is Ok ==> (*old(object) matches Object::Block(ob) ==> (*final(object) matches Object::Block(nb) && nb.objects == ob.objects)),
    ;
}

/// [`ObjectVisitor::pre`] as a predicate on objects.
pub open spec fn pre_pred<V: ObjectVisitor>(v: &V) -> spec_fn(Object) -> bool {
    |o: Object| v.pre(o)
}

/// [`ObjectVisitor::ok`] as a predicate on objects.
pub open spec fn ok_pred<V: ObjectVisitor>(v: &V) -> spec_fn(Object) -> bool {
    |o: Object| v.ok(o)
}

/// [`ObjectVisitor::rel`] as a relation on objects.
pub open spec fn rel_rel<V: ObjectVisitor>(v: &V) -> spec_fn(Object, Object) -> bool {
    |a: Object, b: Object| v.rel(a, b)
}

/// [`ObjectVisitor::err`] as a relation between objects and errors.
pub open spec fn err_rel<V: ObjectVisitor>(v: &V) -> spec_fn(Object, Error) -> bool {
    |o: Object, e: Error| v.err(o, e)
}

/// Whether `e` is the error of the first object of the sequence, in the order of a
/// visit (each block before the objects it holds), that `ok` refuses: `err` tells the
/// errors of a refused object.
pub open spec fn first_error(
    objects: Seq<Object>,
    ok: spec_fn(Object) -> bool,
    err: spec_fn(Object, Error) -> bool,
    e: Error,
) -> bool
    decreases objects,
{
    if objects.len() == 0 {
        false
    } else if object_and_below(objects[0], ok) {
        first_error(objects.subrange(1, objects.len() as int), ok, err, e)
    } else {
        object_first_error(objects[0], ok, err, e)
    }
}

/// Whether `e` is the error of the first object, in the order of a visit, that `ok`
/// refuses among the object and the objects below it.
pub open spec fn object_first_error(
    object: Object,
    ok: spec_fn(Object) -> bool,
    err: spec_fn(Object, Error) -> bool,
    e: Error,
) -> bool
    decreases object,
{
    if !ok(object) {
        err(object, e)
    } else {
        match object {
            Object::Block(b) => {
                proof {
                    vstd::std_specs::vec::axiom_vec_decreases_to_view(b.objects);
                }
                first_error(b.objects@, ok, err, e)
            },
            _ => false,
        }
    }
}

/// The first refused object is refused, and the error is its error.
pub proof fn lemma_first_error_witness(
    objects: Seq<Object>,
    ok: spec_fn(Object) -> bool,
    err: spec_fn(Object, Error) -> bool,
    e: Error,
) -> (o: Object)
    requires
        first_error(objects, ok, err, e),
    ensures
        !ok(o),
        err(o, e),
    decreases objects,
{
    if object_and_below(objects[0], ok) {
        lemma_first_error_witness(objects.subrange(1, objects.len() as int), ok, err, e)
    } else {
        lemma_object_first_error_witness(objects[0], ok, err, e)
    }
}

/// The first refused object below an object is refused, and the error is its error.
pub proof fn lemma_object_first_error_witness(
    object: Object,
    ok: spec_fn(Object) -> bool,
    err: spec_fn(Object, Error) -> bool,
    e: Error,
) -> (o: Object)
    requires
        object_first_error(object, ok, err, e),
    ensures
        !ok(o),
        err(o, e),
    decreases object,
{
    if !ok(object) {
        object
    } else {
        match object {
            Object::Block(b) => {
                vstd::std_specs::vec::axiom_vec_decreases_to_view(b.objects);
                lemma_first_error_witness(b.objects@, ok, err, e)
            },
            _ => object,
        }
    }
}

/// The first refused object of a sequence is the first one that is refused with the
/// objects below it, when those before it are accepted.
pub proof fn lemma_first_error_at(
    objects: Seq<Object>,
    ok: spec_fn(Object) -> bool,
    err: spec_fn(Object, Error) -> bool,
    e: Error,
    i: int,
)
    requires
        0 <= i < objects.len(),
        forall|j: int| 0 <= j < i ==> #[trigger] object_and_below(objects[j], ok),
        !object_and_below(objects[i], ok),
        object_first_error(objects[i], ok, err, e),
    ensures
        first_error(objects, ok, err, e),
    decreases i,
{
    if i > 0 {
        let rest = objects.subrange(1, objects.len() as int);
        assert forall|j: int| 0 <= j < i - 1 implies #[trigger] object_and_below(rest[j], ok) by {
            assert(rest[j] == objects[j + 1]);
        }
        assert(rest[i - 1] == objects[i]);
        lemma_first_error_at(rest, ok, err, e, i - 1);
        assert(object_and_below(objects[0], ok));
    }
}

/// Visits the object and then, for a block, the objects below it.
pub fn visit_object<V: ObjectVisitor>(v: &V, object: &mut Object) -> (res: Result<(), Error>)
    requires
        object_and_below(*old(object), pre_pred(v)),
    ensures
        res is Ok <==> object_and_below(*old(object), ok_pred(v)),
        res matches Err(e) ==> object_first_error(*old(object), ok_pred(v), err_rel(v), e),
        res is Ok ==> related_object(*old(object), *final(object), rel_rel(v)),
    decreases *old(object),
{
    let ghost old_object = *object;
    let r = v.visit(object);
    if r.is_err() {
        return r;
    }
    let ghost mid_object = *object;
    match object {
        Object::Block(b) => {
            proof {
                vstd::std_specs::vec::axiom_vec_decreases_to_view(b.objects);
            }
            let res = visit_objects(v, &mut b.objects);
            proof {
                if res is Ok {
                    let ob = old_object->Block_0;
                    v.lemma_rel_ignores_objects(ob, mid_object->Block_0, *b);
                }
            }
            res
        },
        _ => Ok(()),
    }
}

/// Visits every object of the sequence and of the blocks below it, each block before
/// the objects it holds, in order.
pub fn visit_objects<V: ObjectVisitor>(v: &V, objects: &mut Vec<Object>) -> (res: Result<(), Error>)
    requires
        all_objects(old(objects)@, pre_pred(v)),
    ensures
        res is Ok <==> all_objects(old(objects)@, ok_pred(v)),
        res matches Err(e) ==> first_error(old(objects)@, ok_pred(v), err_rel(v), e),
        res is Ok ==> related_objects(old(objects)@, final(objects)@, rel_rel(v)),
    decreases *old(objects),
{
    let ghost old_objects = objects@;
    proof {
        lemma_all_objects(old_objects, pre_pred(v));
    }
    let mut i: usize = 0;
    while i < objects.len()
        invariant
            objects@.len() == old_objects.len(),
            i <= old_objects.len(),
            old_objects == old(objects)@,
            forall|j: int|
                0 <= j < old_objects.len() ==> #[trigger] object_and_below(
                    old_objects[j],
                    pre_pred(v),
                ),
            forall|j: int| i <= j < old_objects.len() ==> objects@[j] == old_objects[j],
            forall|j: int|
                0 <= j < i ==> #[trigger] related_object(old_objects[j], objects@[j], rel_rel(v)),
            forall|j: int| 0 <= j < i ==> #[trigger] object_and_below(old_objects[j], ok_pred(v)),
        decreases old_objects.len() - i,
    {
        proof {
            vstd::std_specs::vec::axiom_vec_index_decreases(*old(objects), i as int);
            assert(object_and_below(old_objects[i as int], pre_pred(v)));
        }
        let r = visit_object(v, &mut objects[i]);
        if r.is_err() {
            proof {
                lemma_all_objects(old_objects, ok_pred(v));
                lemma_first_error_at(old_objects, ok_pred(v), err_rel(v), r->Err_0, i as int);
            }
            return r;
        }
        i = i + 1;
    }
    proof {
        lemma_related_objects(old_objects, objects@, rel_rel(v));
        lemma_all_objects(old_objects, ok_pred(v));
    }
    Ok(())
}

/// A check that is made on each object by itself. On a block it may only look at what
/// the block has besides its objects.
pub trait ObjectCheck {
    /// Whether the check accepts the object.
    spec fn ok(&self, object: Object) -> bool;

    /// Whether `e` is the error that the check gives for an object it refuses.
    spec fn err(&self, object: Object, e: Error) -> bool;

    /// Checks the object.
    fn check(&self, object: &Object) -> (res: Result<(), Error>)
        ensures
            res is Ok <==> self.ok(*object),
            res matches Err(e) ==> self.err(*object, e),
    ;
}

/// [`ObjectCheck::ok`] as a predicate on objects.
pub open spec fn check_pred<C: ObjectCheck>(c: &C) -> spec_fn(Object) -> bool {
    |o: Object| c.ok(o)
}

/// [`ObjectCheck::err`] as a relation between objects and errors.
pub open spec fn check_err<C: ObjectCheck>(c: &C) -> spec_fn(Object, Error) -> bool {
    |o: Object, e: Error| c.err(o, e)
}

/// Checks the object and then, for a block, the objects below it.
pub fn check_object<C: ObjectCheck>(c: &C, object: &Object) -> (res: Result<(), Error>)
    ensures
        res is Ok <==> object_and_below(*object, check_pred(c)),
        res matches Err(e) ==> object_first_error(*object, check_pred(c), check_err(c), e),
    decreases *object,
{
    let r = c.check(object);
    if r.is_err() {
        return r;
    }
    match object {
        Object::Block(b) => {
            proof {
                vstd::std_specs::vec::axiom_vec_decreases_to_view(b.objects);
            }
            check_objects(c, &b.objects)
        },
        _ => Ok(()),
    }
}

/// Checks every object of the sequence and of the blocks below it, each block before
/// the objects it holds, in order.
pub fn check_objects<C: ObjectCheck>(c: &C, objects: &Vec<Object>) -> (res: Result<(), Error>)
    ensures
        res is Ok <==> all_objects(objects@, check_pred(c)),
        res matches Err(e) ==> first_error(objects@, check_pred(c), check_err(c), e),
    decreases *objects,
{
    let mut i: usize = 0;
    while i < objects.len()
        invariant
            i <= objects@.len(),
            forall|j: int| 0 <= j < i ==> #[trigger] object_and_below(objects@[j], check_pred(c)),
        decreases objects@.len() - i,
    {
        proof {
            vstd::std_specs::vec::axiom_vec_index_decreases(*objects, i as int);
        }
        let r = check_object(c, &objects[i]);
        if r.is_err() {
            proof {
                lemma_all_objects(objects@, check_pred(c));
                lemma_first_error_at(objects@, check_pred(c), check_err(c), r->Err_0, i as int);
            }
            return r;
        }
        i = i + 1;
    }
    proof {
        lemma_all_objects(objects@, check_pred(c));
    }
    Ok(())
}

/// A check or change that is made on each field by itself.
pub trait FieldVisitor {
    /// What the visit needs of the field.
    spec fn field_pre(&self, field: Field) -> bool;

    /// Whether the visit accepts the field.
    spec fn field_ok(&self, field: Field) -> bool;

    /// How the field after a successful visit relates to the field before it.
    spec fn field_rel(&self, old: Field, new: Field) -> bool;

    /// Whether `e` is the error that the visit gives for a field it refuses, of the
    /// object with the given name.
    spec fn field_err(&self, object_name: Seq<char>, field: Field, e: Error) -> bool;

    /// Checks or changes the field, which belongs to the object with the given name.
    fn visit_field(&self, object_name: &String, field: &mut Field) -> (res: Result<(), Error>)
        requires
            self.field_pre(*old(field)),
        ensures
            res is Ok <==> self.field_ok(*old(field)),
            res matches Err(e) ==> self.field_err(object_name@, *old(field), e),
            res is Ok ==> self.field_rel(*old(field), *final(field)),
    ;
}

/// The two fields agree on everything but their conversion.
pub open spec fn same_field_but_conversion(a: Field, b: Field) -> bool {
    &&& a.cfg_attr == b.cfg_attr
    &&& a.description == b.description
    &&& a.name == b.name
    &&& a.access == b.access
    &&& a.base_type == b.base_type
    &&& a.field_address == b.field_address
}

/// The two field sets agree on everything but their fields.
pub open spec fn same_field_set_header(a: FieldSet, b: FieldSet) -> bool {
    &&& a.description == b.description
    &&& a.size_bits == b.size_bits
    &&& a.byte_order == b.byte_order
    &&& a.bit_order == b.bit_order
    &&& a.allow_bit_overlap == b.allow_bit_overlap
}

/// The two registers agree on everything but their field set.
pub open spec fn same_register_but_field_set(a: Register, b: Register) -> bool {
    &&& a.cfg_attr == b.cfg_attr
    &&& a.description == b.description
    &&& a.name == b.name
    &&& a.access == b.access
    &&& a.allow_address_overlap == b.allow_address_overlap
    &&& a.address == b.address
    &&& a.reset_value == b.reset_value
    &&& a.repeat == b.repeat
}

/// The two commands agree on everything but their field sets.
pub open spec fn same_command_but_field_sets(a: Command, b: Command) -> bool {
    &&& a.cfg_attr == b.cfg_attr
    &&& a.description == b.description
    &&& a.name == b.name
    &&& a.allow_address_overlap == b.allow_address_overlap
    &&& a.address == b.address
    &&& a.repeat == b.repeat
}

/// Every field of the field set satisfies what the visit needs.
pub open spec fn field_set_pre<F: FieldVisitor>(v: &F, fs: FieldSet) -> bool {
    forall|i: int| 0 <= i < fs.fields@.len() ==> #[trigger] v.field_pre(fs.fields@[i])
}

/// The visit accepts every field of the field set.
pub open spec fn field_set_ok<F: FieldVisitor>(v: &F, fs: FieldSet) -> bool {
    forall|i: int| 0 <= i < fs.fields@.len() ==> #[trigger] v.field_ok(fs.fields@[i])
}

/// Whether `e` is the error of the first field of the set that the visit refuses.
pub open spec fn field_set_error<F: FieldVisitor>(v: &F, object_name: Seq<char>, fs: FieldSet, e: Error) -> bool {
    exists|k: int|
        #![trigger fs.fields@[k]]
        0 <= k < fs.fields@.len() && !v.field_ok(fs.fields@[k]) && (forall|j: int|
            0 <= j < k ==> #[trigger] v.field_ok(fs.fields@[j])) && v.field_err(object_name, fs.fields@[k], e)
}

/// The field set after the visit relates field by field to the one before it.
pub open spec fn field_set_rel<F: FieldVisitor>(v: &F, old: FieldSet, new: FieldSet) -> bool {
    &&& same_field_set_header(old, new)
    &&& old.fields@.len() == new.fields@.len()
    &&& forall|i: int|
        0 <= i < old.fields@.len() ==> #[trigger] v.field_rel(old.fields@[i], new.fields@[i])
}

/// Visits every field of the field set, in order.
pub fn visit_field_set<F: FieldVisitor>(v: &F, object_name: &String, fs: &mut FieldSet) -> (res: Result<(), Error>)
    requires
        field_set_pre(v, *old(fs)),
    ensures
        res is Ok <==> field_set_ok(v, *old(fs)),
        res matches Err(e) ==> field_set_error(v, object_name@, *old(fs), e),
        res is Ok ==> field_set_rel(v, *old(fs), *final(fs)),
{
    let ghost old_fields = fs.fields@;
    let mut i: usize = 0;
    while i < fs.fields.len()
        invariant
            fs.fields@.len() == old_fields.len(),
            old_fields == old(fs).fields@,
            same_field_set_header(*old(fs), *fs),
            i <= old_fields.len(),
            forall|j: int| 0 <= j < old_fields.len() ==> #[trigger] v.field_pre(old_fields[j]),
            forall|j: int| i <= j < old_fields.len() ==> fs.fields@[j] == old_fields[j],
            forall|j: int| 0 <= j < i ==> #[trigger] v.field_rel(old_fields[j], fs.fields@[j]),
            forall|j: int| 0 <= j < i ==> #[trigger] v.field_ok(old_fields[j]),
        decreases old_fields.len() - i,
    {
        assert(v.field_pre(old_fields[i as int]));
        let r = v.visit_field(object_name, &mut fs.fields[i]);
        if r.is_err() {
            proof {
                assert(!v.field_ok(old_fields[i as int]));
            }
            return r;
        }
        i = i + 1;
    }
    Ok(())
}

/// An object visit that visits every field of the field sets of registers and commands.
pub struct EachField<F> {
    pub visitor: F,
}

/// The optional field set satisfies what the visit needs.
pub open spec fn opt_field_set_pre<F: FieldVisitor>(v: &F, fs: Option<FieldSet>) -> bool {
    fs matches Some(fs) ==> field_set_pre(v, fs)
}

/// The visit accepts the optional field set.
pub open spec fn opt_field_set_ok<F: FieldVisitor>(v: &F, fs: Option<FieldSet>) -> bool {
    fs matches Some(fs) ==> field_set_ok(v, fs)
}

/// The optional field set after the visit relates to the one before it.
pub open spec fn opt_field_set_rel<F: FieldVisitor>(
    v: &F,
    old: Option<FieldSet>,
    new: Option<FieldSet>,
) -> bool {
    match (old, new) {
        (Some(o), Some(n)) => field_set_rel(v, o, n),
        (None, None) => true,
        _ => false,
    }
}

fn visit_opt_field_set<F: FieldVisitor>(
    v: &F,
    object_name: &String,
    fs: &mut Option<FieldSet>,
) -> (res: Result<(), Error>)
    requires
        opt_field_set_pre(v, *old(fs)),
    ensures
        res is Ok <==> opt_field_set_ok(v, *old(fs)),
        res matches Err(e) ==> *old(fs) matches Some(f) && field_set_error(v, object_name@, f, e),
        res is Ok ==> opt_field_set_rel(v, *old(fs), *final(fs)),
{
    match fs {
        Some(f) => visit_field_set(v, object_name, f),
        None => Ok(()),
    }
}

impl<F: FieldVisitor> ObjectVisitor for EachField<F> {
    open spec fn pre(&self, object: Object) -> bool {
        match object {
            Object::Register(r) => field_set_pre(&self.visitor, r.field_set),
            Object::Command(c) => opt_field_set_pre(&self.visitor, c.field_set_in)
                && opt_field_set_pre(&self.visitor, c.field_set_out),
            _ => true,
        }
    }

    open spec fn ok(&self, object: Object) -> bool {
        match object {
            Object::Register(r) => field_set_ok(&self.visitor, r.field_set),
            Object::Command(c) => opt_field_set_ok(&self.visitor, c.field_set_in)
                && opt_field_set_ok(&self.visitor, c.field_set_out),
            _ => true,
        }
    }

    open spec fn rel(&self, old: Object, new: Object) -> bool {
        match (old, new) {
            (Object::Register(o), Object::Register(n)) => same_register_but_field_set(o, n)
                && field_set_rel(&self.visitor, o.field_set, n.field_set),
            (Object::Command(o), Object::Command(n)) => same_command_but_field_sets(o, n)
                && opt_field_set_rel(&self.visitor, o.field_set_in, n.field_set_in)
                && opt_field_set_rel(&self.visitor, o.field_set_out, n.field_set_out),
            (Object::Block(o), Object::Block(n)) => crate::mir::same_block_header(o, n),
            _ => old == new,
        }
    }

    open spec fn err(&self, object: Object, e: Error) -> bool {
        match object {
            Object::Register(r) => field_set_error(&self.visitor, r.name@, r.field_set, e),
            Object::Command(c) => if !opt_field_set_ok(&self.visitor, c.field_set_in) {
                c.field_set_in matches Some(f) && field_set_error(&self.visitor, c.name@, f, e)
            } else {
                c.field_set_out matches Some(f) && field_set_error(&self.visitor, c.name@, f, e)
            },
            _ => false,
        }
    }

    proof fn lemma_rel_ignores_objects(&self, old: Block, mid: Block, new: Block) {
    }

    fn visit(&self, object: &mut Object) -> (res: Result<(), Error>) {
        match object {
            Object::Register(r) => visit_field_set(&self.visitor, &r.name, &mut r.field_set),
            Object::Command(c) => {
                let r = visit_opt_field_set(&self.visitor, &c.name, &mut c.field_set_in);
                if r.is_err() {
                    return r;
                }
                visit_opt_field_set(&self.visitor, &c.name, &mut c.field_set_out)
            },
            _ => Ok(()),
        }
    }
}

} // verus!
