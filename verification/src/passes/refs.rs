//! Checks that every ref object refers to an existing object of the right kind.

use vstd::prelude::*;

use crate::error::Error;
use crate::mir::{all_objects, lemma_all_objects, object_and_below, Device, Object, ObjectOverride};
use crate::passes::walk::{check_err, check_objects, check_pred, first_error, lemma_first_error_witness, ObjectCheck};

verus! {

/// The kinds of objects a ref can refer to.
#[derive(Debug, Clone, Copy, PartialEq, Eq, Structural)]
pub enum RefKind {
    Block,
    Register,
    Command,
}

/// Whether the object is of the kind and has the name.
pub open spec fn is_named(object: Object, kind: RefKind, name: Seq<char>) -> bool {
    &&& match kind {
        RefKind::Block => object is Block,
        RefKind::Register => object is Register,
        RefKind::Command => object is Command,
    }
    &&& object.spec_name() == name
}

/// The object is not of the kind with the name.
pub open spec fn not_named_pred(kind: RefKind, name: Seq<char>) -> spec_fn(Object) -> bool {
    |o: Object| !is_named(o, kind, name)
}

/// Some object of the kind with the name is among the objects or below them.
pub open spec fn has_object(objects: Seq<Object>, kind: RefKind, name: Seq<char>) -> bool {
    !all_objects(objects, not_named_pred(kind, name))
}

/// The kind of object the ref refers to, and its name.
pub open spec fn ref_target(o: ObjectOverride) -> (RefKind, Seq<char>) {
    match o {
        ObjectOverride::Block(v) => (RefKind::Block, v.name@),
        ObjectOverride::Register(v) => (RefKind::Register, v.name@),
        ObjectOverride::Command(v) => (RefKind::Command, v.name@),
    }
}

/// The object is no ref, or its target is among `root`.
pub open spec fn ref_valid(object: Object, root: Seq<Object>) -> bool {
    object matches Object::Ref(r) ==> has_object(root, ref_target(r.object_override).0, ref_target(r.object_override).1)
}

/// The name is one of the names.
pub open spec fn names_contain(names: Seq<String>, name: Seq<char>) -> bool {
    exists|i: int| 0 <= i < names.len() && #[trigger] names[i]@ == name
}

fn contains_name(names: &Vec<String>, name: &String) -> (res: bool)
    ensures
        res == names_contain(names@, name@),
{
    let mut i: usize = 0;
    while i < names.len()
        invariant
            i <= names@.len(),
            forall|j: int| 0 <= j < i ==> names@[j]@ != name@,
        decreases names@.len() - i,
    {
        if names[i] == *name {
            return true;
        }
        i = i + 1;
    }
    false
}

/// The names of the blocks, registers and commands, in three lists.
pub struct RealNames {
    pub blocks: Vec<String>,
    pub registers: Vec<String>,
    pub commands: Vec<String>,
}

impl RealNames {
    /// The names of the given kind.
    pub open spec fn of_kind(&self, kind: RefKind) -> Seq<String> {
        match kind {
            RefKind::Block => self.blocks@,
            RefKind::Register => self.registers@,
            RefKind::Command => self.commands@,
        }
    }
}

fn collect_object_names(object: &Object, names: &mut RealNames)
    ensures
        forall|kind: RefKind, name: Seq<char>|
            #![trigger names_contain(final(names).of_kind(kind), name)]
            names_contain(final(names).of_kind(kind), name) <==> (names_contain(
                old(names).of_kind(kind),
                name,
            ) || !object_and_below(*object, not_named_pred(kind, name))),
    decreases *object,
{
    let ghost old_names = *names;
    match object {
        Object::Block(b) => {
            names.blocks.push(b.name.clone());
            let ghost mid = *names;
            proof {
                vstd::std_specs::vec::axiom_vec_decreases_to_view(b.objects);
            }
            collect_names(&b.objects, names);
            proof {
                assert forall|kind: RefKind, name: Seq<char>|
                    #![trigger names_contain(names.of_kind(kind), name)]
                    names_contain(names.of_kind(kind), name) <==> (names_contain(
                        old_names.of_kind(kind),
                        name,
                    ) || !object_and_below(*object, not_named_pred(kind, name))) by {
                    assert(names_contain(mid.of_kind(kind), name) <==> (names_contain(
                        old_names.of_kind(kind),
                        name,
                    ) || is_named(*object, kind, name))) by {
                        if kind == RefKind::Block {
                            let l = mid.of_kind(kind);
                            assert(l[l.len() - 1]@ == b.name@);
                            if names_contain(l, name) {
                                let i = choose|i: int| 0 <= i < l.len() && #[trigger] l[i]@ == name;
                                if i < l.len() - 1 {
                                    assert(old_names.of_kind(kind)[i] == l[i]);
                                }
                            }
                            if names_contain(old_names.of_kind(kind), name) {
                                let i = choose|i: int| 0 <= i < old_names.of_kind(kind).len() && #[trigger] old_names.of_kind(kind)[i]@ == name;
                                assert(l[i] == old_names.of_kind(kind)[i]);
                            }
                        }
                    }
                }
            }
        },
        Object::Register(r) => {
            names.registers.push(r.name.clone());
            proof {
                assert forall|kind: RefKind, name: Seq<char>|
                    #![trigger names_contain(names.of_kind(kind), name)]
                    names_contain(names.of_kind(kind), name) <==> (names_contain(
                        old_names.of_kind(kind),
                        name,
                    ) || !object_and_below(*object, not_named_pred(kind, name))) by {
                    if kind == RefKind::Register {
                        let l = names.of_kind(kind);
                        assert(l[l.len() - 1]@ == r.name@);
                        if names_contain(l, name) {
                            let i = choose|i: int| 0 <= i < l.len() && #[trigger] l[i]@ == name;
                            if i < l.len() - 1 {
                                assert(old_names.of_kind(kind)[i] == l[i]);
                            }
                        }
                        if names_contain(old_names.of_kind(kind), name) {
                            let i = choose|i: int| 0 <= i < old_names.of_kind(kind).len() && #[trigger] old_names.of_kind(kind)[i]@ == name;
                            assert(l[i] == old_names.of_kind(kind)[i]);
                        }
                    }
                }
            }
        },
        Object::Command(c) => {
            names.commands.push(c.name.clone());
            proof {
                assert forall|kind: RefKind, name: Seq<char>|
                    #![trigger names_contain(names.of_kind(kind), name)]
                    names_contain(names.of_kind(kind), name) <==> (names_contain(
                        old_names.of_kind(kind),
                        name,
                    ) || !object_and_below(*object, not_named_pred(kind, name))) by {
                    if kind == RefKind::Command {
                        let l = names.of_kind(kind);
                        assert(l[l.len() - 1]@ == c.name@);
                        if names_contain(l, name) {
                            let i = choose|i: int| 0 <= i < l.len() && #[trigger] l[i]@ == name;
                            if i < l.len() - 1 {
                                assert(old_names.of_kind(kind)[i] == l[i]);
                            }
                        }
                        if names_contain(old_names.of_kind(kind), name) {
                            let i = choose|i: int| 0 <= i < old_names.of_kind(kind).len() && #[trigger] old_names.of_kind(kind)[i]@ == name;
                            assert(l[i] == old_names.of_kind(kind)[i]);
                        }
                    }
                }
            }
        },
        _ => {},
    }
}

fn collect_names(objects: &Vec<Object>, names: &mut RealNames)
    ensures
        forall|kind: RefKind, name: Seq<char>|
            #![trigger names_contain(final(names).of_kind(kind), name)]
            names_contain(final(names).of_kind(kind), name) <==> (names_contain(
                old(names).of_kind(kind),
                name,
            ) || has_object(objects@, kind, name)),
    decreases *objects,
{
    let ghost old_names = *names;
    let mut i: usize = 0;
    while i < objects.len()
        invariant
            i <= objects@.len(),
            forall|kind: RefKind, name: Seq<char>|
                #![trigger names_contain(names.of_kind(kind), name)]
                names_contain(names.of_kind(kind), name) <==> (names_contain(
                    old_names.of_kind(kind),
                    name,
                ) || exists|j: int|
                    0 <= j < i && !object_and_below(
                        #[trigger] objects@[j],
                        not_named_pred(kind, name),
                    )),
        decreases objects@.len() - i,
    {
        proof {
            vstd::std_specs::vec::axiom_vec_index_decreases(*objects, i as int);
        }
        let ghost before = *names;
        collect_object_names(&objects[i], names);
        proof {
            assert forall|kind: RefKind, name: Seq<char>|
                #![trigger names_contain(names.of_kind(kind), name)]
                names_contain(names.of_kind(kind), name) <==> (names_contain(
                    old_names.of_kind(kind),
                    name,
                ) || exists|j: int|
                    0 <= j < i + 1 && !object_and_below(
                        #[trigger] objects@[j],
                        not_named_pred(kind, name),
                    )) by {
                assert(names_contain(before.of_kind(kind), name) <==> (names_contain(
                    old_names.of_kind(kind),
                    name,
                ) || exists|j: int|
                    0 <= j < i && !object_and_below(
                        #[trigger] objects@[j],
                        not_named_pred(kind, name),
                    )));
                if !object_and_below(objects@[i as int], not_named_pred(kind, name)) {
                    assert(exists|j: int|
                        0 <= j < i + 1 && !object_and_below(
                            #[trigger] objects@[j],
                            not_named_pred(kind, name),
                        ));
                }
                if exists|j: int|
                    0 <= j < i + 1 && !object_and_below(
                        #[trigger] objects@[j],
                        not_named_pred(kind, name),
                    ) {
                    let j = choose|j: int|
                        0 <= j < i + 1 && !object_and_below(
                            #[trigger] objects@[j],
                            not_named_pred(kind, name),
                        );
                    if j < i {
                        assert(exists|j: int|
                            0 <= j < i && !object_and_below(
                                #[trigger] objects@[j],
                                not_named_pred(kind, name),
                            ));
                    }
                }
            }
        }
        i = i + 1;
    }
    proof {
        assert forall|kind: RefKind, name: Seq<char>|
            #![trigger names_contain(names.of_kind(kind), name)]
            names_contain(names.of_kind(kind), name) <==> (names_contain(
                old_names.of_kind(kind),
                name,
            ) || has_object(objects@, kind, name)) by {
            lemma_all_objects(objects@, not_named_pred(kind, name));
        }
    }
}

/// Whether `e` is the error of a ref whose target doesn't exist: it names the ref, the
/// kind of the target and the target.
pub open spec fn ref_error(object: Object, e: Error) -> bool {
    object matches Object::Ref(r) && e matches Error::UnknownRefTarget { kind, ref_name, target_name }
        && kind == ref_target(r.object_override).0 && target_name@ == ref_target(r.object_override).1
        && ref_name@ == r.name@
}

/// [`ref_error`] as a relation between objects and errors.
pub open spec fn ref_err() -> spec_fn(Object, Error) -> bool {
    |o: Object, e: Error| ref_error(o, e)
}

/// The check of the refs against the names of the existing objects.
pub struct RefCheck {
    pub names: RealNames,
}

impl ObjectCheck for RefCheck {
    open spec fn ok(&self, object: Object) -> bool {
        object matches Object::Ref(r) ==> names_contain(
            self.names.of_kind(ref_target(r.object_override).0),
            ref_target(r.object_override).1,
        )
    }

    open spec fn err(&self, object: Object, error: Error) -> bool {
        ref_error(object, error)
    }

    fn check(&self, object: &Object) -> (res: Result<(), Error>) {
        match object {
            Object::Ref(r) => {
                let (kind, names, target) = match &r.object_override {
                    ObjectOverride::Block(v) => (RefKind::Block, &self.names.blocks, &v.name),
                    ObjectOverride::Register(v) => (RefKind::Register, &self.names.registers, &v.name),
                    ObjectOverride::Command(v) => (RefKind::Command, &self.names.commands, &v.name),
                };
                if contains_name(names, target) {
                    Ok(())
                } else {
                    Err(
                        Error::UnknownRefTarget {
                            kind,
                            ref_name: r.name.clone(),
                            target_name: target.clone(),
                        },
                    )
                }
            },
            _ => Ok(()),
        }
    }
}

/// The object is no ref, or its target exists among the objects of the device.
pub open spec fn ref_valid_pred(root: Seq<Object>) -> spec_fn(Object) -> bool {
    |o: Object| ref_valid(o, root)
}

proof fn lemma_same_check<C: ObjectCheck>(objects: Seq<Object>, c: &C, root: Seq<Object>)
    requires
        forall|o: Object| #[trigger] c.ok(o) == ref_valid(o, root),
    ensures
        all_objects(objects, check_pred(c)) == all_objects(objects, ref_valid_pred(root)),
    decreases objects, 0nat,
{
    if objects.len() > 0 {
        lemma_same_check_object(objects[0], c, root);
        lemma_same_check(objects.subrange(1, objects.len() as int), c, root);
    }
}

proof fn lemma_same_check_object<C: ObjectCheck>(object: Object, c: &C, root: Seq<Object>)
    requires
        forall|o: Object| #[trigger] c.ok(o) == ref_valid(o, root),
    ensures
        object_and_below(object, check_pred(c)) == object_and_below(object, ref_valid_pred(root)),
    decreases object, 0nat,
{
    if let Object::Block(b) = object {
        vstd::std_specs::vec::axiom_vec_decreases_to_view(b.objects);
        lemma_same_check(b.objects@, c, root);
    }
}

/// Checks that every ref refers to an existing block, register or command, as the
/// kind of its override says.
pub fn run_pass(device: &Device) -> (res: Result<(), Error>)
    ensures
        res is Ok <==> all_objects(device.objects@, ref_valid_pred(device.objects@)),
        res matches Err(e) ==> first_error(device.objects@, ref_valid_pred(device.objects@), ref_err(), e),
        res matches Err(e) ==> e matches Error::UnknownRefTarget { kind, ref_name, target_name }
            && !has_object(device.objects@, kind, target_name@),
{
    let mut names = RealNames { blocks: Vec::new(), registers: Vec::new(), commands: Vec::new() };
    let ghost empty = names;
    collect_names(&device.objects, &mut names);
    proof {
        assert forall|kind: RefKind, name: Seq<char>| !#[trigger] names_contain(empty.of_kind(kind), name) by {}
    }
    let c = RefCheck { names };
    proof {
        assert forall|o: Object| #[trigger] c.ok(o) == ref_valid(o, device.objects@) by {}
        lemma_same_check(device.objects@, &c, device.objects@);
        assert(check_pred(&c) =~= ref_valid_pred(device.objects@));
        assert(check_err(&c) =~= ref_err());
    }
    let res = check_objects(&c, &device.objects);
    proof {
        if res is Err {
            let e = res->Err_0;
            let o = lemma_first_error_witness(device.objects@, ref_valid_pred(device.objects@), ref_err(), e);
            assert(!ref_valid(o, device.objects@));
            assert(ref_error(o, e));
        }
    }
    res
}

} // verus!
