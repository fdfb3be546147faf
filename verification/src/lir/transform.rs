//! Turns a checked device description into its low-level description: every block
//! becomes a block with a method per object, every register and command field set
//! becomes a field set, and every enum generated for a field becomes an enum.

use vstd::prelude::*;

use crate::case::{case_converted, convert_name, TargetCase};
use crate::lir;
use crate::error::Error;
use crate::lir::{
    DeviceV, BlockMethodKind, BlockMethodTypeV, BlockMethodV, BlockV, EnumV, EnumVariantV,
    FieldConversionMethodV, FieldSetV, FieldV,
};
use crate::passes::base_types::field_len;
use crate::passes::enum_values::assigned_value;
use crate::text::{decimal, decimal_string};
use crate::mir;
use crate::mir::{
    cfg_text, default_boundaries, default_word_boundaries, search, search_object, Access, Cfg,
    BaseType, EnumGenerationStyle, EnumValue, FieldConversion, GlobalConfig, Integer, Object,
    ObjectOverride, Repeat, ResetValue,
};

verus! {

/// The name in snake case, split into words at the default boundaries.
pub open spec fn snake_name(name: Seq<char>) -> Seq<char> {
    case_converted(name, default_word_boundaries(), TargetCase::Snake)
}

/// The kind of method for an object with the repeat.
pub open spec fn method_kind(repeat: Option<Repeat>) -> BlockMethodKind {
    match repeat {
        Some(r) => BlockMethodKind::Repeated { count: r.count, stride: r.stride },
        None => BlockMethodKind::Normal,
    }
}

/// The overriding value when there is one, else the base value.
pub open spec fn or_else<T>(over: Option<T>, base: T) -> T {
    match over {
        Some(v) => v,
        None => base,
    }
}

/// The overriding repeat when there is one, else the base repeat.
pub open spec fn repeat_or(over: Option<Repeat>, base: Option<Repeat>) -> Option<Repeat> {
    match over {
        Some(r) => Some(r),
        None => base,
    }
}

/// The method that reaches a block.
pub open spec fn block_method_v(
    cfg: Option<Seq<char>>,
    description: Seq<char>,
    name: Seq<char>,
    address_offset: i64,
    repeat: Option<Repeat>,
) -> BlockMethodV {
    BlockMethodV {
        cfg_attr: cfg_text(cfg),
        description,
        name: snake_name(name),
        address: address_offset,
        allow_address_overlap: false,
        kind: method_kind(repeat),
        method_type: BlockMethodTypeV::Block { name },
    }
}

/// The method that reaches a register.
pub open spec fn register_method_v(
    cfg: Option<Seq<char>>,
    description: Seq<char>,
    name: Seq<char>,
    allow_address_overlap: bool,
    address: i64,
    access: Access,
    repeat: Option<Repeat>,
    address_type: Integer,
    reset_value_function: Seq<char>,
) -> BlockMethodV {
    BlockMethodV {
        cfg_attr: cfg_text(cfg),
        description,
        name: snake_name(name),
        address,
        allow_address_overlap,
        kind: method_kind(repeat),
        method_type: BlockMethodTypeV::Register {
            field_set_name: name,
            access,
            address_type,
            reset_value_function,
        },
    }
}

/// The name of the field set that goes into a command.
pub open spec fn fields_in_name(name: Seq<char>) -> Seq<char> {
    name + "FieldsIn"@
}

/// The name of the field set that comes out of a command.
pub open spec fn fields_out_name(name: Seq<char>) -> Seq<char> {
    name + "FieldsOut"@
}

/// The method that reaches a command.
pub open spec fn command_method_v(
    cfg: Option<Seq<char>>,
    description: Seq<char>,
    name: Seq<char>,
    allow_address_overlap: bool,
    address: i64,
    repeat: Option<Repeat>,
    has_in: bool,
    has_out: bool,
    address_type: Integer,
) -> BlockMethodV {
    BlockMethodV {
        cfg_attr: cfg_text(cfg),
        description,
        name: snake_name(name),
        address,
        allow_address_overlap,
        kind: method_kind(repeat),
        method_type: BlockMethodTypeV::Command {
            field_set_name_in: if has_in {
                Some(fields_in_name(name))
            } else {
                None
            },
            field_set_name_out: if has_out {
                Some(fields_out_name(name))
            } else {
                None
            },
            address_type,
        },
    }
}

/// The method that reaches a buffer.
pub open spec fn buffer_method_v(
    cfg: Option<Seq<char>>,
    description: Seq<char>,
    name: Seq<char>,
    access: Access,
    address: i64,
    address_type: Integer,
) -> BlockMethodV {
    BlockMethodV {
        cfg_attr: cfg_text(cfg),
        description,
        name: snake_name(name),
        address,
        allow_address_overlap: false,
        kind: BlockMethodKind::Normal,
        method_type: BlockMethodTypeV::Buffer { access, address_type },
    }
}

/// The name of the function that gives the reset value of a register reached through
/// a ref: its own one when the ref overrides the reset value.
pub open spec fn ref_reset_function(ref_name: Seq<char>, overrides_reset: bool) -> Seq<char> {
    if overrides_reset {
        "new_as_"@ + snake_name(ref_name)
    } else {
        "new"@
    }
}

/// The method for the object a ref refers to, with the values of the ref put over it.
pub open spec fn ref_target_method_v(
    r: mir::RefObject,
    gc: GlobalConfig,
    dev: Seq<Object>,
) -> BlockMethodV {
    match (r.object_override, search(dev, r.object_override.spec_name())) {
        (ObjectOverride::Block(ov), Some(Object::Block(t))) => block_method_v(
            r.cfg_attr@,
            r.description@,
            t.name@,
            or_else(ov.address_offset, t.address_offset),
            repeat_or(ov.repeat, t.repeat),
        ),
        (ObjectOverride::Register(ov), Some(Object::Register(t))) => register_method_v(
            r.cfg_attr@,
            r.description@,
            t.name@,
            t.allow_address_overlap,
            or_else(ov.address, t.address),
            or_else(ov.access, t.access),
            repeat_or(ov.repeat, t.repeat),
            gc.register_address_type->Some_0,
            ref_reset_function(r.name@, ov.reset_value is Some),
        ),
        (ObjectOverride::Command(ov), Some(Object::Command(t))) => command_method_v(
            r.cfg_attr@,
            r.description@,
            t.name@,
            t.allow_address_overlap,
            or_else(ov.address, t.address),
            repeat_or(ov.repeat, t.repeat),
            t.field_set_in is Some,
            t.field_set_out is Some,
            gc.command_address_type->Some_0,
        ),
        _ => arbitrary(),
    }
}

/// The method with another name.
pub open spec fn renamed(m: BlockMethodV, name: Seq<char>) -> BlockMethodV {
    BlockMethodV {
        cfg_attr: m.cfg_attr,
        description: m.description,
        name,
        address: m.address,
        allow_address_overlap: m.allow_address_overlap,
        kind: m.kind,
        method_type: m.method_type,
    }
}

/// The method of a block that reaches the object.
pub open spec fn method_v(o: Object, gc: GlobalConfig, dev: Seq<Object>) -> BlockMethodV {
    match o {
        Object::Block(b) => block_method_v(
            b.cfg_attr@,
            b.description@,
            b.name@,
            b.address_offset,
            b.repeat,
        ),
        Object::Register(r) => register_method_v(
            r.cfg_attr@,
            r.description@,
            r.name@,
            r.allow_address_overlap,
            r.address,
            r.access,
            r.repeat,
            gc.register_address_type->Some_0,
            "new"@,
        ),
        Object::Command(c) => command_method_v(
            c.cfg_attr@,
            c.description@,
            c.name@,
            c.allow_address_overlap,
            c.address,
            c.repeat,
            c.field_set_in is Some,
            c.field_set_out is Some,
            gc.command_address_type->Some_0,
        ),
        Object::Buffer(b) => buffer_method_v(
            b.cfg_attr@,
            b.description@,
            b.name@,
            b.access,
            b.address,
            gc.buffer_address_type->Some_0,
        ),
        Object::Ref(r) => renamed(ref_target_method_v(r, gc, dev), snake_name(r.name@)),
    }
}

/// The object can be turned into a method and blocks: the address type it needs is
/// configured and, for a ref, the object it refers to exists, is of the kind the ref
/// says, and a block it refers to can be turned too, with one ref less to follow.
pub open spec fn object_ready(o: Object, gc: GlobalConfig, dev: Seq<Object>, n: nat) -> bool
    decreases n, o, 0nat,
{
    match o {
        Object::Block(b) => {
            proof {
                vstd::std_specs::vec::axiom_vec_decreases_to_view(b.objects);
            }
            objects_ready(b.objects@, gc, dev, n)
        },
        Object::Register(_) => gc.register_address_type is Some,
        Object::Command(_) => gc.command_address_type is Some,
        Object::Buffer(_) => gc.buffer_address_type is Some,
        Object::Ref(r) => match (r.object_override, search(dev, r.object_override.spec_name())) {
            (ObjectOverride::Block(_), Some(Object::Block(t))) => {
                proof {
                    vstd::std_specs::vec::axiom_vec_decreases_to_view(t.objects);
                }
                n > 0 && objects_ready(t.objects@, gc, dev, (n - 1) as nat)
            },
            (ObjectOverride::Register(_), Some(Object::Register(_))) => gc.register_address_type is Some,
            (ObjectOverride::Command(_), Some(Object::Command(_))) => gc.command_address_type is Some,
            _ => false,
        },
    }
}

/// Every object of the sequence is ready.
pub open spec fn objects_ready(s: Seq<Object>, gc: GlobalConfig, dev: Seq<Object>, n: nat) -> bool
    decreases n, s, 1nat,
{
    if s.len() == 0 {
        true
    } else {
        object_ready(s[0], gc, dev, n) && objects_ready(s.subrange(1, s.len() as int), gc, dev, n)
    }
}

/// The blocks that the object adds after the block it stands in.
pub open spec fn object_blocks(o: Object, gc: GlobalConfig, dev: Seq<Object>, n: nat) -> Seq<BlockV>
    decreases n, o, 0nat,
{
    match o {
        Object::Block(b) => {
            proof {
                vstd::std_specs::vec::axiom_vec_decreases_to_view(b.objects);
            }
            collect_blocks(b.cfg_attr@, b.description@, b.name@, false, b.objects@, gc, dev, n)
        },
        Object::Ref(r) => match (r.object_override, search(dev, r.object_override.spec_name())) {
            (ObjectOverride::Block(_), Some(Object::Block(t))) => {
                proof {
                    vstd::std_specs::vec::axiom_vec_decreases_to_view(t.objects);
                }
                if n > 0 {
                    collect_blocks(
                        r.cfg_attr@,
                        r.description@,
                        t.name@,
                        false,
                        t.objects@,
                        gc,
                        dev,
                        (n - 1) as nat,
                    )
                } else {
                    Seq::empty()
                }
            },
            _ => Seq::empty(),
        },
        _ => Seq::empty(),
    }
}

/// The blocks that the objects add, in order.
pub open spec fn objects_blocks(s: Seq<Object>, gc: GlobalConfig, dev: Seq<Object>, n: nat) -> Seq<
    BlockV,
>
    decreases n, s, 1nat,
{
    if s.len() == 0 {
        Seq::empty()
    } else {
        object_blocks(s[0], gc, dev, n) + objects_blocks(s.subrange(1, s.len() as int), gc, dev, n)
    }
}

/// The block with a method for each of its objects, followed by the blocks its objects
/// add.
pub open spec fn collect_blocks(
    cfg: Option<Seq<char>>,
    description: Seq<char>,
    name: Seq<char>,
    root: bool,
    objects: Seq<Object>,
    gc: GlobalConfig,
    dev: Seq<Object>,
    n: nat,
) -> Seq<BlockV>
    decreases n, objects, 2nat,
{
    seq![
        BlockV {
            cfg_attr: cfg_text(cfg),
            description,
            root,
            name,
            methods: objects.map_values(|o: Object| method_v(o, gc, dev)),
        },
    ] + objects_blocks(objects, gc, dev, n)
}

/// The views of the blocks.
pub open spec fn blocks_view(s: Seq<lir::Block>) -> Seq<BlockV> {
    s.map_values(|b: lir::Block| b@)
}

/// The views of the methods.
pub open spec fn methods_view(s: Seq<lir::BlockMethod>) -> Seq<BlockMethodV> {
    s.map_values(|m: lir::BlockMethod| m@)
}

proof fn lemma_objects_ready(s: Seq<Object>, gc: GlobalConfig, dev: Seq<Object>, n: nat)
    ensures
        objects_ready(s, gc, dev, n) <==> forall|i: int|
            0 <= i < s.len() ==> #[trigger] object_ready(s[i], gc, dev, n),
    decreases s.len(),
{
    if s.len() > 0 {
        let rest = s.subrange(1, s.len() as int);
        lemma_objects_ready(rest, gc, dev, n);
        if forall|i: int| 0 <= i < s.len() ==> #[trigger] object_ready(s[i], gc, dev, n) {
            assert(object_ready(s[0], gc, dev, n));
            assert forall|i: int| 0 <= i < rest.len() implies #[trigger] object_ready(
                rest[i],
                gc,
                dev,
                n,
            ) by {
                assert(rest[i] == s[i + 1]);
            }
        }
        if objects_ready(s, gc, dev, n) {
            assert forall|i: int| 0 <= i < s.len() implies #[trigger] object_ready(
                s[i],
                gc,
                dev,
                n,
            ) by {
                if i > 0 {
                    assert(s[i] == rest[i - 1]);
                }
            }
        }
    }
}

proof fn lemma_objects_blocks_append(
    a: Seq<Object>,
    b: Seq<Object>,
    gc: GlobalConfig,
    dev: Seq<Object>,
    n: nat,
)
    ensures
        objects_blocks(a + b, gc, dev, n) == objects_blocks(a, gc, dev, n) + objects_blocks(
            b,
            gc,
            dev,
            n,
        ),
    decreases a.len(),
{
    if a.len() == 0 {
        assert(a + b =~= b);
        assert(objects_blocks(a, gc, dev, n) + objects_blocks(b, gc, dev, n) =~= objects_blocks(
            b,
            gc,
            dev,
            n,
        ));
    } else {
        let rest = a.subrange(1, a.len() as int);
        lemma_objects_blocks_append(rest, b, gc, dev, n);
        assert((a + b)[0] == a[0]);
        assert((a + b).subrange(1, (a + b).len() as int) =~= rest + b);
        assert(objects_blocks(a, gc, dev, n) + objects_blocks(b, gc, dev, n) =~= object_blocks(
            a[0],
            gc,
            dev,
            n,
        ) + (objects_blocks(rest, gc, dev, n) + objects_blocks(b, gc, dev, n)));
    }
}

proof fn lemma_objects_blocks_step(s: Seq<Object>, i: int, gc: GlobalConfig, dev: Seq<Object>, n: nat)
    requires
        0 <= i < s.len(),
    ensures
        objects_blocks(s.take(i + 1), gc, dev, n) == objects_blocks(s.take(i), gc, dev, n)
            + object_blocks(s[i], gc, dev, n),
{
    let one = seq![s[i]];
    assert(s.take(i + 1) =~= s.take(i) + one);
    lemma_objects_blocks_append(s.take(i), one, gc, dev, n);
    assert(one.subrange(1, 1) =~= Seq::<Object>::empty());
    assert(objects_blocks(Seq::<Object>::empty(), gc, dev, n) =~= Seq::<BlockV>::empty());
    assert(one[0] == s[i]);
    assert(objects_blocks(one, gc, dev, n) == object_blocks(one[0], gc, dev, n)
        + objects_blocks(one.subrange(1, 1), gc, dev, n));
    assert(objects_blocks(one, gc, dev, n) =~= object_blocks(s[i], gc, dev, n));
}

/// A block of the device description, borrowed for turning it into low-level blocks.
pub struct BorrowedBlock<'o> {
    pub cfg_attr: &'o Cfg,
    pub description: &'o String,
    pub name: &'o String,
    pub address_offset: &'o i64,
    pub repeat: &'o Option<Repeat>,
    pub objects: &'o Vec<Object>,
}

impl<'o> From<&'o mir::Block> for BorrowedBlock<'o> {
    fn from(value: &'o mir::Block) -> (res: Self) {
        BorrowedBlock {
            cfg_attr: &value.cfg_attr,
            description: &value.description,
            name: &value.name,
            address_offset: &value.address_offset,
            repeat: &value.repeat,
            objects: &value.objects,
        }
    }
}

impl<'o> vstd::std_specs::convert::FromSpecImpl<&'o mir::Block> for BorrowedBlock<'o> {
    open spec fn obeys_from_spec() -> bool {
        true
    }

    open spec fn from_spec(value: &'o mir::Block) -> Self {
        BorrowedBlock {
            cfg_attr: &value.cfg_attr,
            description: &value.description,
            name: &value.name,
            address_offset: &value.address_offset,
            repeat: &value.repeat,
            objects: &value.objects,
        }
    }
}

fn snake_case_name(name: &String) -> (res: String)
    ensures
        res@ == snake_name(name@),
{
    let boundaries = default_boundaries();
    convert_name(name.as_str(), &boundaries, TargetCase::Snake)
}

/// The kind of block method for an object that may be repeated.
fn repeat_to_method_kind(repeat: Option<Repeat>) -> (res: BlockMethodKind)
    ensures
        res == method_kind(repeat),
{
    match repeat {
        Some(r) => BlockMethodKind::Repeated { count: r.count, stride: r.stride },
        None => BlockMethodKind::Normal,
    }
}

fn block_method(
    cfg: &Cfg,
    description: &String,
    name: &String,
    address_offset: i64,
    repeat: Option<Repeat>,
) -> (res: lir::BlockMethod)
    ensures
        res@ == block_method_v(cfg@, description@, name@, address_offset, repeat),
{
    lir::BlockMethod {
        cfg_attr: cfg.to_string(),
        description: description.clone(),
        name: snake_case_name(name),
        address: address_offset,
        allow_address_overlap: false,
        kind: repeat_to_method_kind(repeat),
        method_type: lir::BlockMethodType::Block { name: name.clone() },
    }
}

fn register_method(
    cfg: &Cfg,
    description: &String,
    name: &String,
    allow_address_overlap: bool,
    address: i64,
    access: Access,
    repeat: Option<Repeat>,
    address_type: Integer,
    reset_value_function: String,
) -> (res: lir::BlockMethod)
    ensures
        res@ == register_method_v(
            cfg@,
            description@,
            name@,
            allow_address_overlap,
            address,
            access,
            repeat,
            address_type,
            reset_value_function@,
        ),
{
    lir::BlockMethod {
        cfg_attr: cfg.to_string(),
        description: description.clone(),
        name: snake_case_name(name),
        address,
        allow_address_overlap,
        kind: repeat_to_method_kind(repeat),
        method_type: lir::BlockMethodType::Register {
            field_set_name: name.clone(),
            access,
            address_type,
            reset_value_function,
        },
    }
}

fn suffixed(name: &String, suffix: &str) -> (res: String)
    ensures
        res@ == name@ + suffix@,
{
    let mut s = name.clone();
    s.append(suffix);
    s
}

fn command_method(
    cfg: &Cfg,
    description: &String,
    name: &String,
    allow_address_overlap: bool,
    address: i64,
    repeat: Option<Repeat>,
    has_in: bool,
    has_out: bool,
    address_type: Integer,
) -> (res: lir::BlockMethod)
    ensures
        res@ == command_method_v(
            cfg@,
            description@,
            name@,
            allow_address_overlap,
            address,
            repeat,
            has_in,
            has_out,
            address_type,
        ),
{
    let field_set_name_in = if has_in {
        Some(suffixed(name, "FieldsIn"))
    } else {
        None
    };
    let field_set_name_out = if has_out {
        Some(suffixed(name, "FieldsOut"))
    } else {
        None
    };
    lir::BlockMethod {
        cfg_attr: cfg.to_string(),
        description: description.clone(),
        name: snake_case_name(name),
        address,
        allow_address_overlap,
        kind: repeat_to_method_kind(repeat),
        method_type: lir::BlockMethodType::Command {
            field_set_name_in,
            field_set_name_out,
            address_type,
        },
    }
}

fn buffer_method(
    cfg: &Cfg,
    description: &String,
    name: &String,
    access: Access,
    address: i64,
    address_type: Integer,
) -> (res: lir::BlockMethod)
    ensures
        res@ == buffer_method_v(cfg@, description@, name@, access, address, address_type),
{
    lir::BlockMethod {
        cfg_attr: cfg.to_string(),
        description: description.clone(),
        name: snake_case_name(name),
        address,
        allow_address_overlap: false,
        kind: lir::BlockMethodKind::Normal,
        method_type: lir::BlockMethodType::Buffer { access, address_type },
    }
}


/// Turns the objects of the block into its methods, and the blocks below it, reached
/// directly or through refs, into blocks that follow it.
fn collect_into_blocks(
    block: BorrowedBlock,
    is_root: bool,
    global_config: &GlobalConfig,
    device_objects: &Vec<Object>,
    Ghost(n): Ghost<nat>,
) -> (res: Vec<lir::Block>)
    requires
        objects_ready(block.objects@, *global_config, device_objects@, n),
    ensures
        blocks_view(res@) == collect_blocks(
            block.cfg_attr@,
            block.description@,
            block.name@,
            is_root,
            block.objects@,
            *global_config,
            device_objects@,
            n,
        ),
    decreases n, *block.objects, 2nat,
{
    let ghost gc = *global_config;
    let ghost dev = device_objects@;
    let objects = block.objects;
    let ghost s = objects@;
    let mut blocks: Vec<lir::Block> = Vec::new();
    let mut methods: Vec<lir::BlockMethod> = Vec::new();
    proof {
        lemma_objects_ready(s, gc, dev, n);
        assert(s.take(0) =~= Seq::<Object>::empty());
        assert(blocks_view(blocks@) =~= objects_blocks(s.take(0), gc, dev, n));
        assert(methods_view(methods@) =~= s.take(0).map_values(|o: Object| method_v(o, gc, dev)));
    }
    let mut i: usize = 0;
    while i < objects.len()
        invariant
            s == objects@,
            *objects == *block.objects,
            gc == *global_config,
            dev == device_objects@,
            i <= s.len(),
            forall|j: int| 0 <= j < s.len() ==> #[trigger] object_ready(s[j], gc, dev, n),
            methods_view(methods@) == s.take(i as int).map_values(
                |o: Object| method_v(o, gc, dev),
            ),
            blocks_view(blocks@) == objects_blocks(s.take(i as int), gc, dev, n),
        decreases s.len() - i,
    {
        proof {
            vstd::std_specs::vec::axiom_vec_index_decreases(*objects, i as int);
            lemma_objects_blocks_step(s, i as int, gc, dev, n);
        }
        let ghost before = blocks@;
        let method = get_method(&objects[i], &mut blocks, global_config, device_objects, Ghost(n));
        let ghost methods_before = methods@;
        methods.push(method);
        proof {
            assert(s.take(i + 1) =~= s.take(i as int).push(s[i as int]));
            assert(methods_view(methods@) =~= methods_view(methods_before).push(method@));
            assert(methods_view(methods@) =~= s.take(i + 1).map_values(
                |o: Object| method_v(o, gc, dev),
            ));
        }
        i = i + 1;
    }
    proof {
        assert(s.take(s.len() as int) =~= s);
    }
    let ghost rest = blocks@;
    let new_block = lir::Block {
        cfg_attr: block.cfg_attr.to_string(),
        description: block.description.clone(),
        root: is_root,
        name: block.name.clone(),
        methods,
    };
    blocks.insert(0, new_block);
    proof {
        assert(blocks@ =~= seq![new_block] + rest);
        assert(blocks_view(blocks@) =~= seq![new_block@] + blocks_view(rest));
        assert(new_block@.methods =~= s.map_values(|o: Object| method_v(o, gc, dev)));
    }
    blocks
}

/// Gives the method of a block that reaches the object, and adds the blocks the object
/// brings, directly or through a ref, to `blocks`.
fn get_method(
    object: &Object,
    blocks: &mut Vec<lir::Block>,
    global_config: &GlobalConfig,
    device_objects: &Vec<Object>,
    Ghost(n): Ghost<nat>,
) -> (res: lir::BlockMethod)
    requires
        object_ready(*object, *global_config, device_objects@, n),
    ensures
        res@ == method_v(*object, *global_config, device_objects@),
        blocks_view(final(blocks)@) == blocks_view(old(blocks)@) + object_blocks(
            *object,
            *global_config,
            device_objects@,
            n,
        ),
    decreases n, *object, 0nat,
{
    let ghost gc = *global_config;
    let ghost dev = device_objects@;
    let ghost old_blocks = blocks@;
    match object {
        Object::Block(b) => {
            proof {
                vstd::std_specs::vec::axiom_vec_decreases_to_view(b.objects);
            }
            let mut inner = collect_into_blocks(
                BorrowedBlock::from(b),
                false,
                global_config,
                device_objects,
                Ghost(n),
            );
            let ghost inner_blocks = inner@;
            blocks.append(&mut inner);
            proof {
                assert(blocks_view(blocks@) =~= blocks_view(old_blocks) + blocks_view(inner_blocks));
            }
            block_method(&b.cfg_attr, &b.description, &b.name, b.address_offset, b.repeat)
        },
        Object::Register(r) => {
            proof {
                assert(blocks_view(blocks@) =~= blocks_view(old_blocks) + object_blocks(*object, gc, dev, n));
            }
            register_method(
                &r.cfg_attr,
                &r.description,
                &r.name,
                r.allow_address_overlap,
                r.address,
                r.access,
                r.repeat,
                global_config.register_address_type.unwrap(),
                String::from_str("new"),
            )
        },
        Object::Command(c) => {
            proof {
                assert(blocks_view(blocks@) =~= blocks_view(old_blocks) + object_blocks(*object, gc, dev, n));
            }
            command_method(
                &c.cfg_attr,
                &c.description,
                &c.name,
                c.allow_address_overlap,
                c.address,
                c.repeat,
                c.field_set_in.is_some(),
                c.field_set_out.is_some(),
                global_config.command_address_type.unwrap(),
            )
        },
        Object::Buffer(b) => {
            proof {
                assert(blocks_view(blocks@) =~= blocks_view(old_blocks) + object_blocks(*object, gc, dev, n));
            }
            buffer_method(
                &b.cfg_attr,
                &b.description,
                &b.name,
                b.access,
                b.address,
                global_config.buffer_address_type.unwrap(),
            )
        },
        Object::Ref(r) => {
            let target = search_object(r.object_override.name(), device_objects);
            let mut method = match (&r.object_override, target) {
                (ObjectOverride::Block(ov), Some(Object::Block(t))) => {
                    proof {
                        vstd::std_specs::vec::axiom_vec_decreases_to_view(t.objects);
                    }
                    let address_offset = match ov.address_offset {
                        Some(a) => a,
                        None => t.address_offset,
                    };
                    let repeat = match ov.repeat {
                        Some(rp) => Some(rp),
                        None => t.repeat,
                    };
                    let reffed = BorrowedBlock {
                        cfg_attr: &r.cfg_attr,
                        description: &r.description,
                        name: &t.name,
                        address_offset: &address_offset,
                        repeat: &repeat,
                        objects: &t.objects,
                    };
                    let mut inner = collect_into_blocks(
                        reffed,
                        false,
                        global_config,
                        device_objects,
                        Ghost((n - 1) as nat),
                    );
                    let ghost inner_blocks = inner@;
                    blocks.append(&mut inner);
                    proof {
                        assert(blocks_view(blocks@) =~= blocks_view(old_blocks) + blocks_view(
                            inner_blocks,
                        ));
                    }
                    block_method(&r.cfg_attr, &r.description, &t.name, address_offset, repeat)
                },
                (ObjectOverride::Register(ov), Some(Object::Register(t))) => {
                    proof {
                        assert(blocks_view(blocks@) =~= blocks_view(old_blocks) + object_blocks(*object, gc, dev, n));
                    }
                    let reset_value_function = if ov.reset_value.is_some() {
                        let mut f = String::from_str("new_as_");
                        let snake = snake_case_name(&r.name);
                        f.append(snake.as_str());
                        f
                    } else {
                        String::from_str("new")
                    };
                    register_method(
                        &r.cfg_attr,
                        &r.description,
                        &t.name,
                        t.allow_address_overlap,
                        match ov.address {
                            Some(a) => a,
                            None => t.address,
                        },
                        match ov.access {
                            Some(a) => a,
                            None => t.access,
                        },
                        match ov.repeat {
                            Some(rp) => Some(rp),
                            None => t.repeat,
                        },
                        global_config.register_address_type.unwrap(),
                        reset_value_function,
                    )
                },
                (ObjectOverride::Command(ov), Some(Object::Command(t))) => {
                    proof {
                        assert(blocks_view(blocks@) =~= blocks_view(old_blocks) + object_blocks(*object, gc, dev, n));
                    }
                    command_method(
                        &r.cfg_attr,
                        &r.description,
                        &t.name,
                        t.allow_address_overlap,
                        match ov.address {
                            Some(a) => a,
                            None => t.address,
                        },
                        match ov.repeat {
                            Some(rp) => Some(rp),
                            None => t.repeat,
                        },
                        t.field_set_in.is_some(),
                        t.field_set_out.is_some(),
                        global_config.command_address_type.unwrap(),
                    )
                },
                _ => {
                    proof {
                        assert(false);
                    }
                    block_method(&r.cfg_attr, &r.description, &r.name, 0, None)
                },
            };
            method.name = snake_case_name(&r.name);
            method
        },
    }
}


/// The smallest power of two that is at least `x`, among `p`, `2p`, `4p`, ...
pub open spec fn pow2_at_least(p: int, x: int) -> int
    decreases (if p < x {
        x - p
    } else {
        0
    }),
{
    if p <= 0 || p >= x {
        p
    } else {
        pow2_at_least(2 * p, x)
    }
}

/// The name of the integer type with the smallest power of two of at least 8 bits
/// that holds `bits` bits.
pub open spec fn int_type_text(signed: bool, bits: int) -> Seq<char> {
    seq![
        if signed {
            'i'
        } else {
            'u'
        },
    ] + decimal(pow2_at_least(8, bits))
}

/// The type a field or enum of the base type and number of bits is read as.
pub open spec fn base_type_text(base_type: BaseType, bits: int) -> Seq<char> {
    match base_type {
        BaseType::Bool => "u8"@,
        BaseType::Int => int_type_text(true, bits),
        _ => int_type_text(false, bits),
    }
}

/// The base type is one the low-level description can hold: a bool, or an unsigned
/// or signed integer.
pub open spec fn base_type_known(base_type: BaseType) -> bool {
    base_type is Bool || base_type is Uint || base_type is Int
}

/// The first enum with the name.
pub open spec fn find_enum(enums: Seq<mir::Enum>, name: Seq<char>) -> Option<mir::Enum>
    decreases enums.len(),
{
    if enums.len() == 0 {
        None
    } else if enums[0].name@ == name {
        Some(enums[0])
    } else {
        find_enum(enums.subrange(1, enums.len() as int), name)
    }
}

/// Whether the conversion may fail.
pub open spec fn conversion_uses_try(fc: FieldConversion) -> bool {
    match fc {
        FieldConversion::Direct { use_try, .. } => use_try,
        FieldConversion::Enum { use_try, .. } => use_try,
    }
}

/// How the value of the field is converted: with `try_into` when that is asked for,
/// unchecked when a generated enum takes every value the field can hold, and with
/// `into` otherwise.
pub open spec fn conversion_v(f: mir::Field, enums: Seq<mir::Enum>) -> FieldConversionMethodV {
    match f.field_conversion {
        None => if f.base_type is Bool {
            FieldConversionMethodV::Bool
        } else {
            FieldConversionMethodV::NoConversion
        },
        Some(fc) => {
            let target = fc.spec_target_type();
            if conversion_uses_try(fc) {
                FieldConversionMethodV::TryInto(target)
            } else {
                match find_enum(enums, target) {
                    Some(e) => if e.generation_style == Some(
                        EnumGenerationStyle::InfallibleWithinRange,
                    ) && e.size_bits is Some && field_len(f) <= e.size_bits->Some_0 {
                        FieldConversionMethodV::UnsafeInto(target)
                    } else {
                        FieldConversionMethodV::Into(target)
                    },
                    None => FieldConversionMethodV::Into(target),
                }
            }
        },
    }
}

/// The field in the low-level description.
pub open spec fn field_v(f: mir::Field, enums: Seq<mir::Enum>) -> FieldV {
    FieldV {
        cfg_attr: cfg_text(f.cfg_attr@),
        description: f.description@,
        name: f.name@,
        address: f.field_address,
        base_type: base_type_text(f.base_type, field_len(f)),
        conversion_method: conversion_v(f, enums),
        access: f.access,
    }
}

/// The field can be turned: its base type is known, and a bool is one bit without a
/// conversion.
pub open spec fn field_ready(f: mir::Field) -> bool {
    &&& base_type_known(f.base_type)
    &&& f.base_type is Bool ==> field_len(f) == 1 && f.field_conversion is None
}

/// The field set can be turned: its orders are known and its fields can be turned.
pub open spec fn field_set_ready(fs: mir::FieldSet) -> bool {
    &&& fs.byte_order is Some
    &&& fs.bit_order is Some
    &&& forall|i: int| 0 <= i < fs.fields@.len() ==> #[trigger] field_ready(fs.fields@[i])
}

/// The reset value of a field set without one: all bits zero.
pub open spec fn zero_bytes(size_bits: u32) -> Seq<u8> {
    Seq::new(((size_bits + 7) / 8) as nat, |i: int| 0u8)
}

/// The field set in the low-level description.
pub open spec fn field_set_v(
    fs: mir::FieldSet,
    name: Seq<char>,
    cfg: Option<Seq<char>>,
    description: Seq<char>,
    reset_value: Seq<u8>,
    ref_reset_overrides: Seq<(Seq<char>, Seq<u8>)>,
    enums: Seq<mir::Enum>,
) -> FieldSetV {
    FieldSetV {
        cfg_attr: cfg_text(cfg),
        description,
        name,
        byte_order: fs.byte_order->Some_0,
        bit_order: fs.bit_order->Some_0,
        size_bits: fs.size_bits,
        reset_value,
        ref_reset_overrides,
        fields: fs.fields@.map_values(|f: mir::Field| field_v(f, enums)),
    }
}

/// The reset values that refs to the register named `target` give it, in the order of
/// the refs.
pub open spec fn ref_overrides(s: Seq<Object>, target: Seq<char>) -> Seq<(Seq<char>, Seq<u8>)>
    decreases s,
{
    if s.len() == 0 {
        Seq::empty()
    } else {
        let own = match s[0] {
            Object::Ref(r) => if r.object_override.spec_name() == target {
                match r.object_override {
                    ObjectOverride::Register(ov) => match ov.reset_value {
                        Some(ResetValue::Array(bytes)) => seq![(r.name@, bytes@)],
                        _ => Seq::empty(),
                    },
                    _ => Seq::empty(),
                }
            } else {
                Seq::empty()
            },
            _ => Seq::empty(),
        };
        let below = match s[0] {
            Object::Block(b) => {
                proof {
                    vstd::std_specs::vec::axiom_vec_decreases_to_view(b.objects);
                }
                ref_overrides(b.objects@, target)
            },
            _ => Seq::empty(),
        };
        own + below + ref_overrides(s.subrange(1, s.len() as int), target)
    }
}

/// Every ref to the register named `target` overrides a register, with a reset value
/// given as bytes if it gives one.
pub open spec fn refs_to_ready(s: Seq<Object>, target: Seq<char>) -> bool
    decreases s,
{
    if s.len() == 0 {
        true
    } else {
        let own = match s[0] {
            Object::Ref(r) => r.object_override.spec_name() == target ==> (
            r.object_override matches ObjectOverride::Register(ov) && !(
            ov.reset_value matches Some(ResetValue::Integer(_)))),
            _ => true,
        };
        let below = match s[0] {
            Object::Block(b) => {
                proof {
                    vstd::std_specs::vec::axiom_vec_decreases_to_view(b.objects);
                }
                refs_to_ready(b.objects@, target)
            },
            _ => true,
        };
        own && below && refs_to_ready(s.subrange(1, s.len() as int), target)
    }
}

/// The reset value of the register in the low-level description.
pub open spec fn register_reset(r: mir::Register) -> Seq<u8> {
    match r.reset_value {
        Some(ResetValue::Array(bytes)) => bytes@,
        _ => zero_bytes(r.field_set.size_bits),
    }
}

/// The field set of a command, if it has it.
pub open spec fn command_field_set_v(
    fs: Option<mir::FieldSet>,
    name: Seq<char>,
    c: mir::Command,
    enums: Seq<mir::Enum>,
) -> Seq<FieldSetV> {
    match fs {
        Some(f) => seq![
            field_set_v(
                f,
                name,
                c.cfg_attr@,
                c.description@,
                zero_bytes(f.size_bits),
                Seq::empty(),
                enums,
            ),
        ],
        None => Seq::empty(),
    }
}

/// The field sets of the object and the objects below it, in order.
pub open spec fn object_field_sets(o: Object, dev: Seq<Object>, enums: Seq<mir::Enum>) -> Seq<
    FieldSetV,
>
    decreases o, 0nat,
{
    match o {
        Object::Register(r) => seq![
            field_set_v(
                r.field_set,
                r.name@,
                r.cfg_attr@,
                r.description@,
                register_reset(r),
                ref_overrides(dev, r.name@),
                enums,
            ),
        ],
        Object::Command(c) => command_field_set_v(c.field_set_in, fields_in_name(c.name@), c, enums)
            + command_field_set_v(c.field_set_out, fields_out_name(c.name@), c, enums),
        Object::Block(b) => {
            proof {
                vstd::std_specs::vec::axiom_vec_decreases_to_view(b.objects);
            }
            objects_field_sets(b.objects@, dev, enums)
        },
        _ => Seq::empty(),
    }
}

/// The field sets of the objects and the objects below them, in order.
pub open spec fn objects_field_sets(s: Seq<Object>, dev: Seq<Object>, enums: Seq<mir::Enum>) -> Seq<
    FieldSetV,
>
    decreases s, 1nat,
{
    if s.len() == 0 {
        Seq::empty()
    } else {
        object_field_sets(s[0], dev, enums) + objects_field_sets(
            s.subrange(1, s.len() as int),
            dev,
            enums,
        )
    }
}

/// The field sets of the object and the objects below it can be turned.
pub open spec fn object_fs_ready(o: Object, dev: Seq<Object>) -> bool
    decreases o, 0nat,
{
    match o {
        Object::Register(r) => {
            &&& field_set_ready(r.field_set)
            &&& !(r.reset_value matches Some(ResetValue::Integer(_)))
            &&& refs_to_ready(dev, r.name@)
        },
        Object::Command(c) => {
            &&& (c.field_set_in matches Some(f) ==> field_set_ready(f))
            &&& (c.field_set_out matches Some(f) ==> field_set_ready(f))
        },
        Object::Block(b) => {
            proof {
                vstd::std_specs::vec::axiom_vec_decreases_to_view(b.objects);
            }
            objects_fs_ready(b.objects@, dev)
        },
        _ => true,
    }
}

/// The field sets of the objects and the objects below them can be turned.
pub open spec fn objects_fs_ready(s: Seq<Object>, dev: Seq<Object>) -> bool
    decreases s, 1nat,
{
    if s.len() == 0 {
        true
    } else {
        object_fs_ready(s[0], dev) && objects_fs_ready(s.subrange(1, s.len() as int), dev)
    }
}

/// The views of the field sets.
pub open spec fn field_sets_view(s: Seq<lir::FieldSet>) -> Seq<FieldSetV> {
    s.map_values(|f: lir::FieldSet| f@)
}

fn int_type_name(signed: bool, bits: u32) -> (res: String)
    ensures
        res@ == int_type_text(signed, bits as int),
{
    let mut p: u64 = 8;
    while p < bits as u64
        invariant
            8 <= p <= 0x2_0000_0000,
            pow2_at_least(p as int, bits as int) == pow2_at_least(8, bits as int),
        decreases 0x2_0000_0000 - p,
    {
        p = p * 2;
    }
    let mut s = if signed {
        String::from_str("i")
    } else {
        String::from_str("u")
    };
    proof {
        reveal_strlit("i");
        reveal_strlit("u");
    }
    let digits = decimal_string(p as i128);
    s.append(digits.as_str());
    s
}

fn base_type_name(base_type: BaseType, bits: u32) -> (res: String)
    requires
        base_type_known(base_type),
    ensures
        res@ == base_type_text(base_type, bits as int),
{
    match base_type {
        BaseType::Bool => String::from_str("u8"),
        BaseType::Int => int_type_name(true, bits),
        _ => int_type_name(false, bits),
    }
}

fn field_bits(f: &mir::Field) -> (res: u32)
    ensures
        res == field_len(*f),
{
    if f.field_address.end > f.field_address.start {
        f.field_address.end - f.field_address.start
    } else {
        0
    }
}

fn find_enum_in<'a>(enums: &Vec<&'a mir::Enum>, name: &str) -> (res: Option<&'a mir::Enum>)
    ensures
        match res {
            Some(e) => find_enum(enums@.map_values(|e: &mir::Enum| *e), name@) == Some(*e),
            None => find_enum(enums@.map_values(|e: &mir::Enum| *e), name@) is None,
        },
{
    let ghost all = enums@.map_values(|e: &mir::Enum| *e);
    let owned = name.to_owned();
    proof {
        assert(all.subrange(0, all.len() as int) =~= all);
    }
    let mut i: usize = 0;
    while i < enums.len()
        invariant
            i <= enums@.len(),
            all == enums@.map_values(|e: &mir::Enum| *e),
            owned@ == name@,
            find_enum(all, name@) == find_enum(all.subrange(i as int, all.len() as int), name@),
        decreases enums@.len() - i,
    {
        let ghost rest = all.subrange(i as int, all.len() as int);
        proof {
            assert(rest[0] == *enums@[i as int]);
            assert(rest.subrange(1, rest.len() as int) =~= all.subrange(i + 1, all.len() as int));
        }
        if enums[i].name == owned {
            proof {
                assert(find_enum(rest, name@) == Some(rest[0]));
            }
            return Some(enums[i]);
        }
        i = i + 1;
    }
    proof {
        assert(all.subrange(i as int, all.len() as int).len() == 0);
    }
    None
}

fn transform_field(field: &mir::Field, enums: &Vec<&mir::Enum>) -> (res: lir::Field)
    requires
        field_ready(*field),
    ensures
        res@ == field_v(*field, enums@.map_values(|e: &mir::Enum| *e)),
{
    let bits = field_bits(field);
    let base_type = base_type_name(field.base_type, bits);
    let conversion_method = match &field.field_conversion {
        None => match field.base_type {
            BaseType::Bool => lir::FieldConversionMethod::Bool,
            _ => lir::FieldConversionMethod::NoConversion,
        },
        Some(fc) => {
            let target = fc.target_type();
            let target_name = target.to_owned();
            if fc.use_try() {
                lir::FieldConversionMethod::TryInto(target_name)
            } else {
                match find_enum_in(enums, target) {
                    Some(e) => {
                        let unchecked = match (e.generation_style, e.size_bits) {
                            (Some(EnumGenerationStyle::InfallibleWithinRange), Some(size)) => bits
                                <= size,
                            _ => false,
                        };
                        if unchecked {
                            lir::FieldConversionMethod::UnsafeInto(target_name)
                        } else {
                            lir::FieldConversionMethod::Into(target_name)
                        }
                    },
                    None => lir::FieldConversionMethod::Into(target_name),
                }
            }
        },
    };
    lir::Field {
        cfg_attr: field.cfg_attr.to_string(),
        description: field.description.clone(),
        name: field.name.clone(),
        address: field.field_address.start..field.field_address.end,
        base_type,
        conversion_method,
        access: field.access,
    }
}

/// Turns a field set of the device description into one of the low-level description.
fn transform_field_set(
    field_set: &mir::FieldSet,
    field_set_name: String,
    cfg_attr: &Cfg,
    description: &String,
    reset_value: Option<Vec<u8>>,
    ref_reset_overrides: Vec<(String, Vec<u8>)>,
    enum_list: &Vec<&mir::Enum>,
) -> (res: lir::FieldSet)
    requires
        field_set_ready(*field_set),
    ensures
        res@ == field_set_v(
            *field_set,
            field_set_name@,
            cfg_attr@,
            description@,
            match reset_value {
                Some(v) => v@,
                None => zero_bytes(field_set.size_bits),
            },
            ref_reset_overrides@.map_values(|o: (String, Vec<u8>)| (o.0@, o.1@)),
            enum_list@.map_values(|e: &mir::Enum| *e),
        ),
{
    let ghost enums = enum_list@.map_values(|e: &mir::Enum| *e);
    let mut fields: Vec<lir::Field> = Vec::new();
    let mut i: usize = 0;
    while i < field_set.fields.len()
        invariant
            i <= field_set.fields@.len(),
            enums == enum_list@.map_values(|e: &mir::Enum| *e),
            field_set_ready(*field_set),
            fields@.map_values(|f: lir::Field| f@) == field_set.fields@.take(i as int).map_values(
                |f: mir::Field| field_v(f, enums),
            ),
        decreases field_set.fields@.len() - i,
    {
        let f = transform_field(&field_set.fields[i], enum_list);
        let ghost before = fields@;
        fields.push(f);
        proof {
            assert(field_set.fields@.take(i + 1) =~= field_set.fields@.take(i as int).push(
                field_set.fields@[i as int],
            ));
            assert(fields@.map_values(|f: lir::Field| f@) =~= before.map_values(
                |f: lir::Field| f@,
            ).push(f@));
            assert(fields@.map_values(|f: lir::Field| f@) =~= field_set.fields@.take(
                i + 1,
            ).map_values(|f: mir::Field| field_v(f, enums)));
        }
        i = i + 1;
    }
    proof {
        assert(field_set.fields@.take(field_set.fields@.len() as int) =~= field_set.fields@);
    }
    let size_bytes: usize = (field_set.size_bits / 8 + if field_set.size_bits % 8 == 0 {
        0
    } else {
        1
    }) as usize;
    let reset_value = match reset_value {
        Some(v) => v,
        None => {
            let mut zeros: Vec<u8> = Vec::new();
            let mut k: usize = 0;
            while k < size_bytes
                invariant
                    k <= size_bytes,
                    zeros@ == Seq::new(k as nat, |j: int| 0u8),
                decreases size_bytes - k,
            {
                zeros.push(0);
                k = k + 1;
                proof {
                    assert(zeros@ =~= Seq::new(k as nat, |j: int| 0u8));
                }
            }
            proof {
                assert(zeros@ =~= zero_bytes(field_set.size_bits));
            }
            zeros
        },
    };
    lir::FieldSet {
        cfg_attr: cfg_attr.to_string(),
        description: description.clone(),
        name: field_set_name,
        byte_order: field_set.byte_order.unwrap(),
        bit_order: field_set.bit_order.unwrap(),
        size_bits: field_set.size_bits,
        reset_value,
        ref_reset_overrides,
        fields,
    }
}


/// The views of the reset values that refs give.
pub open spec fn overrides_view(s: Seq<(String, Vec<u8>)>) -> Seq<(Seq<char>, Seq<u8>)> {
    s.map_values(|o: (String, Vec<u8>)| (o.0@, o.1@))
}

fn copy_bytes(v: &Vec<u8>) -> (res: Vec<u8>)
    ensures
        res@ == v@,
{
    let mut res: Vec<u8> = Vec::new();
    let mut i: usize = 0;
    while i < v.len()
        invariant
            i <= v@.len(),
            res@ == v@.take(i as int),
        decreases v@.len() - i,
    {
        res.push(v[i]);
        i = i + 1;
        proof {
            assert(res@ =~= v@.take(i as int));
        }
    }
    proof {
        assert(v@.take(v@.len() as int) =~= v@);
    }
    res
}

/// Adds the reset values that the refs among the objects from `start` on, and below
/// them, give to the register named `target`.
fn collect_ref_overrides(
    objects: &Vec<Object>,
    start: usize,
    target: &String,
    out: &mut Vec<(String, Vec<u8>)>,
)
    requires
        start <= objects@.len(),
        refs_to_ready(objects@.subrange(start as int, objects@.len() as int), target@),
    ensures
        overrides_view(final(out)@) == overrides_view(old(out)@) + ref_overrides(
            objects@.subrange(start as int, objects@.len() as int),
            target@,
        ),
    decreases *objects, objects@.len() - start,
{
    let ghost s = objects@.subrange(start as int, objects@.len() as int);
    let ghost old_out = out@;
    if start == objects.len() {
        assert(overrides_view(out@) =~= overrides_view(old_out) + ref_overrides(s, target@));
        return;
    }
    proof {
        assert(s[0] == objects@[start as int]);
        assert(s.subrange(1, s.len() as int) =~= objects@.subrange(
            start + 1,
            objects@.len() as int,
        ));
        vstd::std_specs::vec::axiom_vec_index_decreases(*objects, start as int);
    }
    let object = &objects[start];
    match object {
        Object::Ref(r) => {
            let reffed = r.object_override.name().to_owned();
            if reffed == *target {
                match &r.object_override {
                    ObjectOverride::Register(ov) => match &ov.reset_value {
                        Some(ResetValue::Array(bytes)) => {
                            out.push((r.name.clone(), copy_bytes(bytes)));
                        },
                        _ => {},
                    },
                    _ => {},
                }
            }
        },
        _ => {},
    }
    let ghost mid = out@;
    proof {
        assert(overrides_view(mid) =~= overrides_view(old_out) + match s[0] {
            Object::Ref(r) => if r.object_override.spec_name() == target@ {
                match r.object_override {
                    ObjectOverride::Register(ov) => match ov.reset_value {
                        Some(ResetValue::Array(bytes)) => seq![(r.name@, bytes@)],
                        _ => Seq::empty(),
                    },
                    _ => Seq::empty(),
                }
            } else {
                Seq::empty()
            },
            _ => Seq::empty(),
        });
    }
    match object {
        Object::Block(b) => {
            proof {
                assert(b.objects@.subrange(0, b.objects@.len() as int) =~= b.objects@);
            }
            collect_ref_overrides(&b.objects, 0, target, out);
        },
        _ => {},
    }
    let ghost below_done = out@;
    collect_ref_overrides(objects, start + 1, target, out);
    proof {
        assert(overrides_view(out@) =~= overrides_view(old_out) + ref_overrides(s, target@));
    }
}

/// Adds the field sets of the objects from `start` on, and of the objects below them,
/// to `out`, in order.
fn collect_field_sets(
    objects: &Vec<Object>,
    start: usize,
    device_objects: &Vec<Object>,
    enum_list: &Vec<&mir::Enum>,
    out: &mut Vec<lir::FieldSet>,
)
    requires
        start <= objects@.len(),
        objects_fs_ready(objects@.subrange(start as int, objects@.len() as int), device_objects@),
    ensures
        field_sets_view(final(out)@) == field_sets_view(old(out)@) + objects_field_sets(
            objects@.subrange(start as int, objects@.len() as int),
            device_objects@,
            enum_list@.map_values(|e: &mir::Enum| *e),
        ),
    decreases *objects, objects@.len() - start,
{
    let ghost s = objects@.subrange(start as int, objects@.len() as int);
    let ghost enums = enum_list@.map_values(|e: &mir::Enum| *e);
    let ghost dev = device_objects@;
    let ghost old_out = out@;
    if start == objects.len() {
        assert(field_sets_view(out@) =~= field_sets_view(old_out) + objects_field_sets(s, dev, enums));
        return;
    }
    proof {
        assert(s[0] == objects@[start as int]);
        assert(s.subrange(1, s.len() as int) =~= objects@.subrange(
            start + 1,
            objects@.len() as int,
        ));
        vstd::std_specs::vec::axiom_vec_index_decreases(*objects, start as int);
    }
    let object = &objects[start];
    proof {
        assert(object_fs_ready(*object, dev));
    }
    match object {
        Object::Register(r) => {
            let mut overrides: Vec<(String, Vec<u8>)> = Vec::new();
            proof {
                assert(device_objects@.subrange(0, device_objects@.len() as int) =~= device_objects@);
            }
            collect_ref_overrides(device_objects, 0, &r.name, &mut overrides);
            proof {
                assert(overrides_view(overrides@) =~= ref_overrides(dev, r.name@));
            }
            let reset_value = match &r.reset_value {
                Some(ResetValue::Array(bytes)) => Some(copy_bytes(bytes)),
                _ => None,
            };
            let fs = transform_field_set(
                &r.field_set,
                r.name.clone(),
                &r.cfg_attr,
                &r.description,
                reset_value,
                overrides,
                enum_list,
            );
            out.push(fs);
        },
        Object::Command(c) => {
            match &c.field_set_in {
                Some(f) => {
                    let fs = transform_field_set(
                        f,
                        suffixed(&c.name, "FieldsIn"),
                        &c.cfg_attr,
                        &c.description,
                        None,
                        Vec::new(),
                        enum_list,
                    );
                    proof {
                        assert(overrides_view(Seq::<(String, Vec<u8>)>::empty()) =~= Seq::empty());
                    }
                    out.push(fs);
                },
                None => {},
            }
            match &c.field_set_out {
                Some(f) => {
                    let fs = transform_field_set(
                        f,
                        suffixed(&c.name, "FieldsOut"),
                        &c.cfg_attr,
                        &c.description,
                        None,
                        Vec::new(),
                        enum_list,
                    );
                    proof {
                        assert(overrides_view(Seq::<(String, Vec<u8>)>::empty()) =~= Seq::empty());
                    }
                    out.push(fs);
                },
                None => {},
            }
        },
        Object::Block(b) => {
            proof {
                assert(b.objects@.subrange(0, b.objects@.len() as int) =~= b.objects@);
            }
            collect_field_sets(&b.objects, 0, device_objects, enum_list, out);
        },
        _ => {},
    }
    proof {
        assert(field_sets_view(out@) =~= field_sets_view(old_out) + object_field_sets(s[0], dev, enums));
    }
    collect_field_sets(objects, start + 1, device_objects, enum_list, out);
    proof {
        assert(field_sets_view(out@) =~= field_sets_view(old_out) + objects_field_sets(s, dev, enums));
    }
}

/// Turns the field sets of the registers and commands of the device, in order, into
/// field sets of the low-level description.
fn transform_field_sets(device: &mir::Device, mir_enums: &Vec<&mir::Enum>) -> (res: Vec<
    lir::FieldSet,
>)
    requires
        objects_fs_ready(device.objects@, device.objects@),
    ensures
        field_sets_view(res@) == objects_field_sets(
            device.objects@,
            device.objects@,
            mir_enums@.map_values(|e: &mir::Enum| *e),
        ),
{
    let mut field_sets: Vec<lir::FieldSet> = Vec::new();
    proof {
        assert(device.objects@.subrange(0, device.objects@.len() as int) =~= device.objects@);
    }
    collect_field_sets(&device.objects, 0, &device.objects, mir_enums, &mut field_sets);
    proof {
        assert(field_sets_view(field_sets@) =~= objects_field_sets(
            device.objects@,
            device.objects@,
            mir_enums@.map_values(|e: &mir::Enum| *e),
        ));
    }
    field_sets
}


/// The enums generated for the fields, with the base type and number of bits of each
/// field, in order.
pub open spec fn fields_enums(fields: Seq<mir::Field>) -> Seq<(mir::Enum, BaseType, int)>
    decreases fields.len(),
{
    if fields.len() == 0 {
        Seq::empty()
    } else {
        let f = fields.last();
        fields_enums(fields.drop_last()) + match f.field_conversion {
            Some(FieldConversion::Enum { enum_value, .. }) => seq![
                (enum_value, f.base_type, field_len(f)),
            ],
            _ => Seq::empty(),
        }
    }
}

/// The enums of an optional field set.
pub open spec fn opt_fields_enums(fs: Option<mir::FieldSet>) -> Seq<(mir::Enum, BaseType, int)> {
    match fs {
        Some(f) => fields_enums(f.fields@),
        None => Seq::empty(),
    }
}

/// The enums generated for the fields of the object and the objects below it, in order.
pub open spec fn object_enums(o: Object) -> Seq<(mir::Enum, BaseType, int)>
    decreases o, 0nat,
{
    match o {
        Object::Register(r) => fields_enums(r.field_set.fields@),
        Object::Command(c) => opt_fields_enums(c.field_set_in) + opt_fields_enums(c.field_set_out),
        Object::Block(b) => {
            proof {
                vstd::std_specs::vec::axiom_vec_decreases_to_view(b.objects);
            }
            objects_enums(b.objects@)
        },
        _ => Seq::empty(),
    }
}

/// The enums generated for the fields of the objects and the objects below them, in
/// order.
pub open spec fn objects_enums(s: Seq<Object>) -> Seq<(mir::Enum, BaseType, int)>
    decreases s, 1nat,
{
    if s.len() == 0 {
        Seq::empty()
    } else {
        object_enums(s[0]) + objects_enums(s.subrange(1, s.len() as int))
    }
}

/// The views of the collected enums.
pub open spec fn collected_view(s: Seq<(&mir::Enum, BaseType, u32)>) -> Seq<
    (mir::Enum, BaseType, int),
> {
    s.map_values(|t: (&mir::Enum, BaseType, u32)| (*t.0, t.1, t.2 as int))
}

fn collect_field_enums<'a>(fields: &'a Vec<mir::Field>, out: &mut Vec<(&'a mir::Enum, BaseType, u32)>)
    ensures
        collected_view(final(out)@) == collected_view(old(out)@) + fields_enums(fields@),
{
    let ghost old_out = out@;
    let mut i: usize = 0;
    proof {
        assert(fields@.take(0) =~= Seq::<mir::Field>::empty());
        assert(collected_view(out@) =~= collected_view(old_out) + fields_enums(fields@.take(0)));
    }
    while i < fields.len()
        invariant
            i <= fields@.len(),
            collected_view(out@) == collected_view(old_out) + fields_enums(fields@.take(i as int)),
        decreases fields@.len() - i,
    {
        let ghost before = out@;
        let field = &fields[i];
        match &field.field_conversion {
            Some(FieldConversion::Enum { enum_value, .. }) => {
                out.push((enum_value, field.base_type, field_bits(field)));
                proof {
                    assert(collected_view(out@) =~= collected_view(before).push(
                        (*enum_value, field.base_type, field_len(*field)),
                    ));
                }
            },
            _ => {
                assert(collected_view(out@) =~= collected_view(before));
            },
        }
        proof {
            let next = fields@.take(i + 1);
            assert(fields_enums(next) == fields_enums(next.drop_last()) + match next.last().field_conversion {
                Some(FieldConversion::Enum { enum_value, .. }) => seq![
                    (enum_value, next.last().base_type, field_len(next.last())),
                ],
                _ => Seq::empty(),
            });
            assert(next.drop_last() =~= fields@.take(i as int));
            assert(next.last() == fields@[i as int]);
            assert(collected_view(out@) =~= collected_view(old_out) + fields_enums(next));
        }
        i = i + 1;
    }
    proof {
        assert(fields@.take(fields@.len() as int) =~= fields@);
    }
}

/// Adds the enums generated for the fields of the objects from `start` on, and of the
/// objects below them, to `out`, in order.
fn collect_enums<'a>(objects: &'a Vec<Object>, start: usize, out: &mut Vec<(&'a mir::Enum, BaseType, u32)>)
    requires
        start <= objects@.len(),
    ensures
        collected_view(final(out)@) == collected_view(old(out)@) + objects_enums(
            objects@.subrange(start as int, objects@.len() as int),
        ),
    decreases *objects, objects@.len() - start,
{
    let ghost s = objects@.subrange(start as int, objects@.len() as int);
    let ghost old_out = out@;
    if start == objects.len() {
        assert(collected_view(out@) =~= collected_view(old_out) + objects_enums(s));
        return;
    }
    proof {
        assert(s[0] == objects@[start as int]);
        assert(s.subrange(1, s.len() as int) =~= objects@.subrange(
            start + 1,
            objects@.len() as int,
        ));
        vstd::std_specs::vec::axiom_vec_index_decreases(*objects, start as int);
    }
    let object = &objects[start];
    match object {
        Object::Register(r) => collect_field_enums(&r.field_set.fields, out),
        Object::Command(c) => {
            match &c.field_set_in {
                Some(f) => collect_field_enums(&f.fields, out),
                None => {},
            }
            match &c.field_set_out {
                Some(f) => collect_field_enums(&f.fields, out),
                None => {},
            }
        },
        Object::Block(b) => {
            proof {
                assert(b.objects@.subrange(0, b.objects@.len() as int) =~= b.objects@);
            }
            collect_enums(&b.objects, 0, out);
        },
        _ => {},
    }
    proof {
        assert(collected_view(out@) =~= collected_view(old_out) + object_enums(s[0]));
    }
    collect_enums(objects, start + 1, out);
    proof {
        assert(collected_view(out@) =~= collected_view(old_out) + objects_enums(s));
    }
}

/// A variant of the enum in the low-level description, with the number it gets.
pub open spec fn variant_v(vs: Seq<mir::EnumVariant>, k: int) -> EnumVariantV {
    EnumVariantV {
        cfg_attr: cfg_text(vs[k].cfg_attr@),
        description: vs[k].description@,
        name: vs[k].name@,
        number: assigned_value(vs, k) as i128,
        default: vs[k].value is Default,
        catch_all: vs[k].value is CatchAll,
    }
}

/// The enum in the low-level description, read as the base type of the field it was
/// generated for with its number of bits.
pub open spec fn enum_v(e: mir::Enum, base_type: BaseType, bits: int) -> EnumV {
    EnumV {
        cfg_attr: cfg_text(e.cfg_attr@),
        description: e.description@,
        name: e.name@,
        base_type: base_type_text(base_type, bits),
        variants: Seq::new(e.variants@.len(), |k: int| variant_v(e.variants@, k)),
    }
}

/// The enum can be turned: its base type is known, and the number after that of each
/// variant fits in an `i128`.
pub open spec fn enum_ready(e: mir::Enum, base_type: BaseType) -> bool {
    &&& base_type_known(base_type)
    &&& forall|k: int|
        0 <= k < e.variants@.len() ==> #[trigger] assigned_value(e.variants@, k) < i128::MAX
}

proof fn lemma_assigned_value_min(vs: Seq<mir::EnumVariant>, k: int)
    requires
        0 <= k < vs.len(),
    ensures
        assigned_value(vs, k) >= i128::MIN,
    decreases k,
{
    if k > 0 {
        lemma_assigned_value_min(vs, k - 1);
    }
}

/// Turns an enum generated for a field into an enum of the low-level description,
/// numbering its variants: a variant without a value of its own gets the number after
/// that of the variant before it, or zero when it is the first.
fn transform_enum(e: &mir::Enum, base_type: BaseType, size_bits: u32) -> (res: lir::Enum)
    requires
        enum_ready(*e, base_type),
    ensures
        res@ == enum_v(*e, base_type, size_bits as int),
{
    let ghost vs = e.variants@;
    let base = base_type_name(base_type, size_bits);
    let mut next_variant_number: Option<i128> = None;
    let mut variants: Vec<lir::EnumVariant> = Vec::new();
    let mut i: usize = 0;
    while i < e.variants.len()
        invariant
            vs == e.variants@,
            i <= vs.len(),
            enum_ready(*e, base_type),
            variants@.len() == i,
            forall|k: int| 0 <= k < i ==> #[trigger] variants@[k]@ == variant_v(vs, k),
            next_variant_number == if i == 0 {
                None::<i128>
            } else {
                Some((assigned_value(vs, i - 1) + 1) as i128)
            },
        decreases vs.len() - i,
    {
        let v = &e.variants[i];
        proof {
            lemma_assigned_value_min(vs, i as int);
            assert(assigned_value(vs, i as int) < i128::MAX);
        }
        let number = match v.value {
            EnumValue::Specified(num) => {
                next_variant_number = Some(num + 1);
                num
            },
            _ => {
                let val = match next_variant_number {
                    Some(x) => x,
                    None => 0,
                };
                next_variant_number = Some(val + 1);
                val
            },
        };
        variants.push(
            lir::EnumVariant {
                cfg_attr: v.cfg_attr.to_string(),
                description: v.description.clone(),
                name: v.name.clone(),
                number,
                default: v.value.is_default(),
                catch_all: v.value.is_catch_all(),
            },
        );
        i = i + 1;
    }
    let res = lir::Enum {
        cfg_attr: e.cfg_attr.to_string(),
        description: e.description.clone(),
        name: e.name.clone(),
        base_type: base,
        variants,
    };
    proof {
        assert(res@.variants =~= Seq::new(vs.len(), |k: int| variant_v(vs, k)));
    }
    res
}


/// The address of the object as the device description gives it: for a block its
/// offset, for a ref the address it overrides, if it does.
pub open spec fn object_address(o: Object) -> Option<i64> {
    match o {
        Object::Block(b) => Some(b.address_offset),
        Object::Register(r) => Some(r.address),
        Object::Command(c) => Some(c.address),
        Object::Buffer(b) => Some(b.address),
        Object::Ref(r) => match r.object_override {
            ObjectOverride::Block(ov) => ov.address_offset,
            ObjectOverride::Register(ov) => ov.address,
            ObjectOverride::Command(ov) => ov.address,
        },
    }
}

/// The repeat of the object as the device description gives it.
pub open spec fn object_repeat(o: Object) -> Option<Repeat> {
    match o {
        Object::Block(b) => b.repeat,
        Object::Register(r) => r.repeat,
        Object::Command(c) => c.repeat,
        Object::Buffer(_) => None,
        Object::Ref(r) => match r.object_override {
            ObjectOverride::Block(ov) => ov.repeat,
            ObjectOverride::Register(ov) => ov.repeat,
            ObjectOverride::Command(ov) => ov.repeat,
        },
    }
}

/// The address of the first instance of the object inside blocks with the offset.
pub open spec fn first_address(o: Object, offset: int) -> int {
    offset + object_address(o)->Some_0
}

/// The address of the last instance of the object inside blocks with the offset.
pub open spec fn last_address(o: Object, offset: int) -> int {
    let r = or_else(object_repeat(o), Repeat { count: 1, stride: 0 });
    first_address(o, offset) + (if r.count == 0 {
        0
    } else {
        r.count - 1
    }) * r.stride
}

/// The smaller of two integers.
pub open spec fn min_int(a: int, b: int) -> int {
    if a <= b {
        a
    } else {
        b
    }
}

/// The larger of two integers.
pub open spec fn max_int(a: int, b: int) -> int {
    if a >= b {
        a
    } else {
        b
    }
}

/// The lowest and highest address among `lo`, `hi` and the addresses of the objects and
/// the objects below them, each block adding its offset to the objects it holds.
pub open spec fn address_bounds(s: Seq<Object>, offset: int, lo: int, hi: int) -> (int, int)
    decreases s,
{
    if s.len() == 0 {
        (lo, hi)
    } else {
        let o = s[0];
        let lo1 = if object_address(o) is Some {
            min_int(min_int(lo, first_address(o, offset)), last_address(o, offset))
        } else {
            lo
        };
        let hi1 = if object_address(o) is Some {
            max_int(max_int(hi, first_address(o, offset)), last_address(o, offset))
        } else {
            hi
        };
        let inner = match o {
            Object::Block(b) => {
                proof {
                    vstd::std_specs::vec::axiom_vec_decreases_to_view(b.objects);
                }
                address_bounds(b.objects@, offset + b.address_offset, lo1, hi1)
            },
            _ => (lo1, hi1),
        };
        address_bounds(s.subrange(1, s.len() as int), offset, inner.0, inner.1)
    }
}

/// Every address computed on the way fits in an `i128`.
pub open spec fn addresses_fit(s: Seq<Object>, offset: int) -> bool
    decreases s,
{
    if s.len() == 0 {
        true
    } else {
        let o = s[0];
        &&& object_address(o) is Some ==> i128::MIN <= first_address(o, offset) <= i128::MAX
            && i128::MIN <= last_address(o, offset) <= i128::MAX
        &&& match o {
            Object::Block(b) => {
                proof {
                    vstd::std_specs::vec::axiom_vec_decreases_to_view(b.objects);
                }
                addresses_fit(b.objects@, offset + b.address_offset)
            },
            _ => true,
        }
        &&& addresses_fit(s.subrange(1, s.len() as int), offset)
    }
}

fn address_bounds_from(
    objects: &Vec<Object>,
    start: usize,
    offset: i128,
    lo: i128,
    hi: i128,
) -> (res: (i128, i128))
    requires
        start <= objects@.len(),
        addresses_fit(objects@.subrange(start as int, objects@.len() as int), offset as int),
    ensures
        (res.0 as int, res.1 as int) == address_bounds(
            objects@.subrange(start as int, objects@.len() as int),
            offset as int,
            lo as int,
            hi as int,
        ),
    decreases *objects, objects@.len() - start,
{
    let ghost s = objects@.subrange(start as int, objects@.len() as int);
    if start == objects.len() {
        return (lo, hi);
    }
    proof {
        assert(s[0] == objects@[start as int]);
        assert(s.subrange(1, s.len() as int) =~= objects@.subrange(
            start + 1,
            objects@.len() as int,
        ));
        vstd::std_specs::vec::axiom_vec_index_decreases(*objects, start as int);
    }
    let object = &objects[start];
    let address: Option<i64> = match object {
        Object::Block(b) => Some(b.address_offset),
        Object::Register(r) => Some(r.address),
        Object::Command(c) => Some(c.address),
        Object::Buffer(b) => Some(b.address),
        Object::Ref(r) => match &r.object_override {
            ObjectOverride::Block(ov) => ov.address_offset,
            ObjectOverride::Register(ov) => ov.address,
            ObjectOverride::Command(ov) => ov.address,
        },
    };
    let repeat: Option<Repeat> = match object {
        Object::Block(b) => b.repeat,
        Object::Register(r) => r.repeat,
        Object::Command(c) => c.repeat,
        Object::Buffer(_) => None,
        Object::Ref(r) => match &r.object_override {
            ObjectOverride::Block(ov) => ov.repeat,
            ObjectOverride::Register(ov) => ov.repeat,
            ObjectOverride::Command(ov) => ov.repeat,
        },
    };
    let mut lo1 = lo;
    let mut hi1 = hi;
    match address {
        Some(a) => {
            let r = match repeat {
                Some(r) => r,
                None => Repeat { count: 1, stride: 0 },
            };
            let count_0_address = offset + a as i128;
            let steps: i128 = if r.count == 0 {
                0
            } else {
                (r.count - 1) as i128
            };
            assert(-0x8000_0000_0000_0000_0000_0000_0000_0000 < steps * (r.stride as i128)
                < 0x7fff_ffff_ffff_ffff_ffff_ffff_ffff_ffff) by (nonlinear_arith)
                requires
                    0 <= steps <= 0xffff_ffff_ffff_ffff,
                    -0x8000_0000_0000_0000 <= r.stride <= 0x7fff_ffff_ffff_ffff,
            ;
            let count_max_address = count_0_address + steps * (r.stride as i128);
            if count_0_address < lo1 {
                lo1 = count_0_address;
            }
            if count_max_address < lo1 {
                lo1 = count_max_address;
            }
            if count_0_address > hi1 {
                hi1 = count_0_address;
            }
            if count_max_address > hi1 {
                hi1 = count_max_address;
            }
        },
        None => {},
    }
    let (lo2, hi2) = match object {
        Object::Block(b) => {
            proof {
                assert(b.objects@.subrange(0, b.objects@.len() as int) =~= b.objects@);
            }
            address_bounds_from(&b.objects, 0, offset + b.address_offset as i128, lo1, hi1)
        },
        _ => (lo1, hi1),
    };
    address_bounds_from(objects, start + 1, offset, lo2, hi2)
}

/// The lowest and the highest address that an object of the device takes, counting
/// from zero.
pub(crate) fn find_min_max_addresses(objects: &Vec<Object>) -> (res: (i128, i128))
    requires
        addresses_fit(objects@, 0),
    ensures
        (res.0 as int, res.1 as int) == address_bounds(objects@, 0, 0, 0),
{
    proof {
        assert(objects@.subrange(0, objects@.len() as int) =~= objects@);
    }
    address_bounds_from(objects, 0, 0, 0, 0)
}

/// The magnitude of an integer.
pub open spec fn abs_int(a: int) -> int {
    if a < 0 {
        -a
    } else {
        a
    }
}

/// The larger magnitude of the two bounds.
pub open spec fn largest_magnitude(lo: int, hi: int) -> int {
    max_int(abs_int(lo), abs_int(hi))
}

/// The smallest integer type of at least 8 bits, a power of two, that holds every
/// address between the bounds: signed when an address is negative.
pub open spec fn best_internal_type(lo: int, hi: int) -> Integer {
    let m = largest_magnitude(lo, hi);
    if lo < 0 {
        if m < 0x80 {
            Integer::I8
        } else if m < 0x8000 {
            Integer::I16
        } else if m < 0x8000_0000 {
            Integer::I32
        } else {
            Integer::I64
        }
    } else {
        if m < 0x100 {
            Integer::U8
        } else if m < 0x1_0000 {
            Integer::U16
        } else {
            Integer::U32
        }
    }
}

/// Some integer type holds the addresses between the bounds: an `i64` when one is
/// negative, a `u32` otherwise.
pub open spec fn internal_type_exists(lo: int, hi: int) -> bool {
    if lo < 0 {
        largest_magnitude(lo, hi) < 0x8000_0000_0000_0000
    } else {
        largest_magnitude(lo, hi) < 0x1_0000_0000
    }
}

fn magnitude(a: i128) -> (res: u128)
    ensures
        res == abs_int(a as int),
{
    if a < 0 {
        ((-(a + 1)) as u128) + 1
    } else {
        a as u128
    }
}

/// The smallest integer type that holds every address of the device.
fn find_best_internal_address_type(device: &mir::Device) -> (res: Integer)
    requires
        addresses_fit(device.objects@, 0),
        internal_type_exists(
            address_bounds(device.objects@, 0, 0, 0).0,
            address_bounds(device.objects@, 0, 0, 0).1,
        ),
    ensures
        res == best_internal_type(
            address_bounds(device.objects@, 0, 0, 0).0,
            address_bounds(device.objects@, 0, 0, 0).1,
        ),
{
    let (min_address_found, max_address_found) = find_min_max_addresses(&device.objects);
    let a = magnitude(min_address_found);
    let b = magnitude(max_address_found);
    let m = if a >= b {
        a
    } else {
        b
    };
    if min_address_found < 0 {
        if m < 0x80 {
            Integer::I8
        } else if m < 0x8000 {
            Integer::I16
        } else if m < 0x8000_0000 {
            Integer::I32
        } else {
            Integer::I64
        }
    } else {
        if m < 0x100 {
            Integer::U8
        } else if m < 0x1_0000 {
            Integer::U16
        } else {
            Integer::U32
        }
    }
}


/// The description of the root block of a driver.
pub open spec fn root_description(name: Seq<char>) -> Seq<char> {
    "Root block of the "@ + name + " driver"@
}

/// A number of refs to follow within which every ref of the device can be turned.
pub open spec fn expansion_depth(d: mir::Device) -> nat {
    choose|n: nat| objects_ready(d.objects@, d.global_config, d.objects@, n)
}

/// The enums generated for the fields of the device, in order.
pub open spec fn device_enums(d: mir::Device) -> Seq<(mir::Enum, BaseType, int)> {
    objects_enums(d.objects@)
}

/// The device description can be turned into a low-level description: it has a name,
/// every object has the address type it needs, every ref reaches an object of its kind
/// without going round in circles, every field set has its orders and known base types,
/// every reset value is given as bytes, every enum can be numbered, and the addresses
/// fit an `i64`, or a `u32` when none is negative.
pub open spec fn device_ready(d: mir::Device) -> bool {
    let bounds = address_bounds(d.objects@, 0, 0, 0);
    &&& d.name is Some
    &&& exists|n: nat| objects_ready(d.objects@, d.global_config, d.objects@, n)
    &&& objects_fs_ready(d.objects@, d.objects@)
    &&& forall|i: int|
        0 <= i < device_enums(d).len() ==> enum_ready(
            (#[trigger] device_enums(d)[i]).0,
            device_enums(d)[i].1,
        )
    &&& addresses_fit(d.objects@, 0)
    &&& internal_type_exists(bounds.0, bounds.1)
}

/// The low-level description of the device.
pub open spec fn transform_v(d: mir::Device) -> DeviceV {
    let enums = device_enums(d);
    let bounds = address_bounds(d.objects@, 0, 0, 0);
    let name = d.name->Some_0@;
    DeviceV {
        internal_address_type: best_internal_type(bounds.0, bounds.1),
        register_address_type: or_else(d.global_config.register_address_type, Integer::U8),
        blocks: collect_blocks(
            None,
            root_description(name),
            name,
            true,
            d.objects@,
            d.global_config,
            d.objects@,
            expansion_depth(d),
        ),
        field_sets: objects_field_sets(
            d.objects@,
            d.objects@,
            enums.map_values(|t: (mir::Enum, BaseType, int)| t.0),
        ),
        enums: Seq::new(enums.len(), |i: int| enum_v(enums[i].0, enums[i].1, enums[i].2)),
        defmt_feature: crate::lir::opt_view(d.global_config.defmt_feature),
    }
}

/// Turns a checked device description into its low-level description: a root block
/// named after the device with a block for every block below it, reached directly or
/// through a ref, the field sets of the registers and commands, and the enums generated
/// for fields.
pub fn transform(device: mir::Device) -> (res: Result<lir::Device, Error>)
    requires
        device_ready(device),
    ensures
        res matches Ok(d) && d@ == transform_v(device),
{
    let ghost d = device;
    let ghost n = expansion_depth(device);
    let ghost all_enums = device_enums(device);
    let driver_name = match &device.name {
        Some(name) => name.clone(),
        None => {
            proof {
                assert(false);
            }
            String::new()
        },
    };
    let mut collected: Vec<(&mir::Enum, BaseType, u32)> = Vec::new();
    proof {
        assert(device.objects@.subrange(0, device.objects@.len() as int) =~= device.objects@);
    }
    collect_enums(&device.objects, 0, &mut collected);
    proof {
        assert(collected_view(collected@) =~= all_enums);
    }
    let mut lir_enums: Vec<lir::Enum> = Vec::new();
    let mut mir_enums: Vec<&mir::Enum> = Vec::new();
    let mut i: usize = 0;
    while i < collected.len()
        invariant
            i <= collected@.len(),
            collected_view(collected@) == all_enums,
            all_enums == device_enums(d),
            device_ready(d),
            lir_enums@.len() == i,
            forall|k: int|
                0 <= k < i ==> #[trigger] lir_enums@[k]@ == enum_v(
                    all_enums[k].0,
                    all_enums[k].1,
                    all_enums[k].2,
                ),
            mir_enums@.map_values(|e: &mir::Enum| *e) == all_enums.take(i as int).map_values(
                |t: (mir::Enum, BaseType, int)| t.0,
            ),
        decreases collected@.len() - i,
    {
        let (e, base_type, size_bits) = collected[i];
        proof {
            assert(all_enums[i as int] == (*e, base_type, size_bits as int));
            assert(enum_ready(all_enums[i as int].0, all_enums[i as int].1));
        }
        lir_enums.push(transform_enum(e, base_type, size_bits));
        let ghost before = mir_enums@;
        mir_enums.push(e);
        proof {
            assert(all_enums.take(i + 1) =~= all_enums.take(i as int).push(all_enums[i as int]));
            assert(mir_enums@.map_values(|e: &mir::Enum| *e) =~= before.map_values(
                |e: &mir::Enum| *e,
            ).push(*e));
            assert(mir_enums@.map_values(|e: &mir::Enum| *e) =~= all_enums.take(i + 1).map_values(
                |t: (mir::Enum, BaseType, int)| t.0,
            ));
        }
        i = i + 1;
    }
    proof {
        assert(all_enums.take(all_enums.len() as int) =~= all_enums);
    }
    let field_sets = transform_field_sets(&device, &mir_enums);
    let root_cfg = Cfg::new(None);
    let mut description = String::from_str("Root block of the ");
    description.append(driver_name.as_str());
    description.append(" driver");
    let root_offset: i64 = 0;
    let root_repeat: Option<Repeat> = None;
    let root = BorrowedBlock {
        cfg_attr: &root_cfg,
        description: &description,
        name: &driver_name,
        address_offset: &root_offset,
        repeat: &root_repeat,
        objects: &device.objects,
    };
    proof {
        assert(objects_ready(device.objects@, device.global_config, device.objects@, n));
    }
    let blocks = collect_into_blocks(root, true, &device.global_config, &device.objects, Ghost(n));
    let internal_address_type = find_best_internal_address_type(&device);
    let register_address_type = match device.global_config.register_address_type {
        Some(t) => t,
        None => Integer::U8,
    };
    let res = lir::Device {
        internal_address_type,
        register_address_type,
        blocks,
        field_sets,
        enums: lir_enums,
        defmt_feature: device.global_config.defmt_feature,
    };
    proof {
        assert(res@.enums =~= Seq::new(
            all_enums.len(),
            |i: int| enum_v(all_enums[i].0, all_enums[i].1, all_enums[i].2),
        ));
        assert(res@.blocks =~= blocks_view(blocks@));
        assert(res@.field_sets =~= field_sets_view(field_sets@));
    }
    Ok(res)
}


/// Adding the addresses of objects only widens the bounds: the lowest found is at most
/// `lo` and the highest at least `hi`.
pub proof fn lemma_address_bounds_widen(s: Seq<Object>, offset: int, lo: int, hi: int)
    ensures
        address_bounds(s, offset, lo, hi).0 <= lo,
        address_bounds(s, offset, lo, hi).1 >= hi,
    decreases s,
{
    if s.len() > 0 {
        let o = s[0];
        let lo1 = if object_address(o) is Some {
            min_int(min_int(lo, first_address(o, offset)), last_address(o, offset))
        } else {
            lo
        };
        let hi1 = if object_address(o) is Some {
            max_int(max_int(hi, first_address(o, offset)), last_address(o, offset))
        } else {
            hi
        };
        let inner = match o {
            Object::Block(b) => {
                vstd::std_specs::vec::axiom_vec_decreases_to_view(b.objects);
                lemma_address_bounds_widen(b.objects@, offset + b.address_offset, lo1, hi1);
                address_bounds(b.objects@, offset + b.address_offset, lo1, hi1)
            },
            _ => (lo1, hi1),
        };
        lemma_address_bounds_widen(s.subrange(1, s.len() as int), offset, inner.0, inner.1);
    }
}

/// The internal address type chosen for a device holds every address between the
/// lowest and the highest one found.
pub proof fn lemma_internal_type_holds_addresses(objects: Seq<Object>)
    requires
        internal_type_exists(
            address_bounds(objects, 0, 0, 0).0,
            address_bounds(objects, 0, 0, 0).1,
        ),
    ensures
        ({
            let bounds = address_bounds(objects, 0, 0, 0);
            let t = best_internal_type(bounds.0, bounds.1);
            t.spec_min_value() <= bounds.0 && bounds.1 <= t.spec_max_value()
        }),
{
    lemma_address_bounds_widen(objects, 0, 0, 0);
}

/// The method for a ref to a register reaches a register with the access the ref
/// overrides it with, and with the register's own access only when the ref sets none: a
/// ref that makes a register read-only gives a method that only reads.
pub proof fn lemma_ref_register_access(
    r: mir::RefObject,
    gc: GlobalConfig,
    dev: Seq<Object>,
    ov: mir::RegisterOverride,
    t: mir::Register,
)
    requires
        r.object_override == ObjectOverride::Register(ov),
        search(dev, ov.name@) == Some(Object::Register(t)),
    ensures
        method_v(Object::Ref(r), gc, dev).method_type matches BlockMethodTypeV::Register { access, .. }
            && (ov.access matches Some(a) ==> access == a) && (ov.access is None ==> access
            == t.access),
{
}

} // verus!
