//! Checks that no two registers, no two commands and no two buffers use the same
//! address, unless both allow it.

use vstd::prelude::*;

use crate::case::{case_converted, convert_name, TargetCase};
use crate::error::Error;
use crate::lir::{Block, BlockMethodKind, BlockMethodTypeV, BlockMethodV, BlockV, Device, DeviceV};
use crate::mir::{default_boundaries, default_word_boundaries};
use crate::text::{decimal, decimal_string};

verus! {

/// The kind of object that claims an address.
#[derive(Debug, Clone, Copy, PartialEq, Eq, Structural)]
pub enum ClaimedAddressType {
    Register,
    Command,
    Buffer,
}

/// An address that an object claims.
pub struct ClaimedAddress {
    pub name: String,
    pub repeat_index: Option<i64>,
    pub address: i64,
    pub allow_overlap: bool,
    pub address_type: ClaimedAddressType,
}

/// A claimed address as mathematical values.
pub ghost struct ClaimedV {
    pub name: Seq<char>,
    pub repeat_index: Option<i64>,
    pub address: int,
    pub allow_overlap: bool,
    pub address_type: ClaimedAddressType,
}

impl View for ClaimedAddress {
    type V = ClaimedV;

    open spec fn view(&self) -> ClaimedV {
        ClaimedV {
            name: self.name@,
            repeat_index: self.repeat_index,
            address: self.address as int,
            allow_overlap: self.allow_overlap,
            address_type: self.address_type,
        }
    }
}

/// The name in Pascal case, split into words at the default boundaries.
pub open spec fn pascal_name(name: Seq<char>) -> Seq<char> {
    case_converted(name, default_word_boundaries(), TargetCase::Pascal)
}

/// The names joined by `::`.
pub open spec fn join_names(names: Seq<Seq<char>>) -> Seq<char>
    decreases names.len(),
{
    if names.len() == 0 {
        Seq::empty()
    } else if names.len() == 1 {
        names[0]
    } else {
        join_names(names.drop_last()) + "::"@ + names.last()
    }
}

/// How the index of a repeated object is written after its name.
pub open spec fn index_text(i: int) -> Seq<char> {
    " (index: "@ + decimal(i) + ")"@
}

/// The first block with the name.
pub open spec fn find_block(blocks: Seq<BlockV>, name: Seq<char>) -> Option<BlockV>
    decreases blocks.len(),
{
    if blocks.len() == 0 {
        None
    } else if blocks[0].name == name {
        Some(blocks[0])
    } else {
        find_block(blocks.subrange(1, blocks.len() as int), name)
    }
}

/// The first root block.
pub open spec fn find_root(blocks: Seq<BlockV>) -> Option<BlockV>
    decreases blocks.len(),
{
    if blocks.len() == 0 {
        None
    } else if blocks[0].root {
        Some(blocks[0])
    } else {
        find_root(blocks.subrange(1, blocks.len() as int))
    }
}

/// How many objects a method reaches.
pub open spec fn kind_count(kind: BlockMethodKind) -> int {
    match kind {
        BlockMethodKind::Normal => 1,
        BlockMethodKind::Repeated { count, .. } => count as int,
    }
}

/// How far apart the objects a method reaches are.
pub open spec fn kind_stride(kind: BlockMethodKind) -> int {
    match kind {
        BlockMethodKind::Normal => 0,
        BlockMethodKind::Repeated { stride, .. } => stride as int,
    }
}

/// The kind of address a method that does not reach a block claims.
pub open spec fn claim_type(t: BlockMethodTypeV) -> ClaimedAddressType {
    match t {
        BlockMethodTypeV::Command { .. } => ClaimedAddressType::Command,
        BlockMethodTypeV::Buffer { .. } => ClaimedAddressType::Buffer,
        _ => ClaimedAddressType::Register,
    }
}

/// The addresses the methods of the block claim, in order, when the block starts at the
/// offset and the names of the blocks around it are `stack`.
pub open spec fn block_claims(
    blocks: Seq<BlockV>,
    b: BlockV,
    offset: int,
    stack: Seq<Seq<char>>,
    n: nat,
) -> Seq<ClaimedV>
    decreases n, 3nat, 0nat,
{
    methods_claims(blocks, b.methods, offset, stack, n)
}

/// The addresses the methods claim, in order.
pub open spec fn methods_claims(
    blocks: Seq<BlockV>,
    ms: Seq<BlockMethodV>,
    offset: int,
    stack: Seq<Seq<char>>,
    n: nat,
) -> Seq<ClaimedV>
    decreases n, 2nat, ms.len(),
{
    if ms.len() == 0 {
        Seq::empty()
    } else {
        methods_claims(blocks, ms.drop_last(), offset, stack, n) + method_claims(
            blocks,
            ms.last(),
            offset,
            stack,
            n,
        )
    }
}

/// The addresses the method claims: one per repetition of the object it reaches, or
/// those of the block it reaches at each repetition.
pub open spec fn method_claims(
    blocks: Seq<BlockV>,
    m: BlockMethodV,
    offset: int,
    stack: Seq<Seq<char>>,
    n: nat,
) -> Seq<ClaimedV>
    decreases n, 1nat, 0nat,
{
    let base = offset + m.address;
    let count = kind_count(m.kind);
    let stride = kind_stride(m.kind);
    match m.method_type {
        BlockMethodTypeV::Block { name } => if n == 0 {
            Seq::empty()
        } else {
            match find_block(blocks, name) {
                Some(sb) => sub_block_claims(
                    blocks,
                    sb,
                    base,
                    stride,
                    count as nat,
                    stack,
                    name,
                    (n - 1) as nat,
                ),
                None => Seq::empty(),
            }
        },
        t => Seq::new(
            count as nat,
            |i: int|
                ClaimedV {
                    name: join_names(stack.push(pascal_name(m.name))),
                    repeat_index: if m.kind is Repeated {
                        Some(i as i64)
                    } else {
                        None
                    },
                    address: base + i * stride,
                    allow_overlap: m.allow_address_overlap,
                    address_type: claim_type(t),
                },
        ),
    }
}

/// The addresses the first `count` repetitions of a block claim, in order.
pub open spec fn sub_block_claims(
    blocks: Seq<BlockV>,
    sb: BlockV,
    base: int,
    stride: int,
    count: nat,
    stack: Seq<Seq<char>>,
    name: Seq<char>,
    n: nat,
) -> Seq<ClaimedV>
    decreases n, 4nat, count,
{
    if count == 0 {
        Seq::empty()
    } else {
        sub_block_claims(blocks, sb, base, stride, (count - 1) as nat, stack, name, n)
            + block_claims(
            blocks,
            sb,
            base + (count - 1) * stride,
            stack.push(pascal_name(name) + index_text(count - 1)),
            n,
        )
    }
}

/// A value of `i64`.
pub open spec fn fits_i64(v: int) -> bool {
    i64::MIN <= v <= i64::MAX
}

/// The addresses of the block can be computed in `i64`, and every block it reaches
/// exists, within `n` blocks deep.
pub open spec fn block_ready(blocks: Seq<BlockV>, b: BlockV, offset: int, n: nat) -> bool
    decreases n, 3nat, 0nat,
{
    methods_ready(blocks, b.methods, offset, n)
}

/// The addresses of the methods can be computed.
pub open spec fn methods_ready(blocks: Seq<BlockV>, ms: Seq<BlockMethodV>, offset: int, n: nat) -> bool
    decreases n, 2nat, ms.len(),
{
    if ms.len() == 0 {
        true
    } else {
        methods_ready(blocks, ms.drop_last(), offset, n) && method_ready(
            blocks,
            ms.last(),
            offset,
            n,
        )
    }
}

/// The addresses of the method can be computed: its base address, its count and the
/// address of its last repetition fit in `i64`, and a block it reaches exists.
pub open spec fn method_ready(blocks: Seq<BlockV>, m: BlockMethodV, offset: int, n: nat) -> bool
    decreases n, 1nat, 0nat,
{
    let base = offset + m.address;
    let count = kind_count(m.kind);
    let stride = kind_stride(m.kind);
    &&& fits_i64(base)
    &&& count <= i64::MAX
    &&& count > 0 ==> fits_i64((count - 1) * stride) && fits_i64(base + (count - 1) * stride)
    &&& match m.method_type {
        BlockMethodTypeV::Block { name } => n > 0 && match find_block(blocks, name) {
            Some(sb) => sub_block_ready(blocks, sb, base, stride, count as nat, (n - 1) as nat),
            None => false,
        },
        _ => true,
    }
}

/// The first `count` repetitions of the block can be computed.
pub open spec fn sub_block_ready(
    blocks: Seq<BlockV>,
    sb: BlockV,
    base: int,
    stride: int,
    count: nat,
    n: nat,
) -> bool
    decreases n, 4nat, count,
{
    if count == 0 {
        true
    } else {
        sub_block_ready(blocks, sb, base, stride, (count - 1) as nat, n) && block_ready(
            blocks,
            sb,
            base + (count - 1) * stride,
            n,
        )
    }
}

/// The two claims collide: the same address, the same kind, and not both allow it.
pub open spec fn conflict(a: ClaimedV, b: ClaimedV) -> bool {
    &&& a.address == b.address
    &&& a.address_type == b.address_type
    &&& !(a.allow_overlap && b.allow_overlap)
}

/// No two claims collide.
pub open spec fn claims_ok(c: Seq<ClaimedV>) -> bool {
    forall|i: int, j: int| 0 <= i < j < c.len() ==> !conflict(#[trigger] c[i], #[trigger] c[j])
}

/// How a claim is named in the error: its name, with its index when it is repeated.
pub open spec fn claim_text(c: ClaimedV) -> Seq<char> {
    match c.repeat_index {
        Some(i) => c.name + index_text(i as int),
        None => c.name,
    }
}

/// The views of the claims.
pub open spec fn claims_view(s: Seq<ClaimedAddress>) -> Seq<ClaimedV> {
    s.map_values(|c: ClaimedAddress| c@)
}

/// The views of the names.
pub open spec fn names_view(s: Seq<String>) -> Seq<Seq<char>> {
    s.map_values(|n: String| n@)
}

fn pascal_case_name(name: &String) -> (res: String)
    ensures
        res@ == pascal_name(name@),
{
    let boundaries = default_boundaries();
    convert_name(name.as_str(), &boundaries, TargetCase::Pascal)
}

fn with_index(name: &String, i: i64) -> (res: String)
    ensures
        res@ == name@ + index_text(i as int),
{
    let mut s = name.clone();
    s.append(" (index: ");
    let digits = decimal_string(i as i128);
    s.append(digits.as_str());
    s.append(")");
    s
}

/// The names joined by `::`, followed by `last`.
fn joined(names: &Vec<String>, last: &String) -> (res: String)
    ensures
        res@ == join_names(names_view(names@).push(last@)),
{
    let ghost v = names_view(names@);
    let mut acc = String::new();
    let mut i: usize = 0;
    while i < names.len()
        invariant
            i <= names@.len(),
            v == names_view(names@),
            acc@ == join_names(v.take(i as int)),
        decreases names@.len() - i,
    {
        proof {
            let next = v.take(i + 1);
            assert(next.drop_last() =~= v.take(i as int));
            assert(next.last() == names@[i as int]@);
        }
        if i == 0 {
            acc = names[i].clone();
            proof {
                assert(v.take(1) =~= seq![names@[0]@]);
            }
        } else {
            acc.append("::");
            acc.append(names[i].as_str());
        }
        i = i + 1;
    }
    proof {
        assert(v.take(v.len() as int) =~= v);
        assert(v.push(last@).drop_last() =~= v);
    }
    if names.len() == 0 {
        proof {
            assert(v.push(last@) =~= seq![last@]);
        }
        last.clone()
    } else {
        acc.append("::");
        acc.append(last.as_str());
        acc
    }
}

fn copy_names(names: &Vec<String>) -> (res: Vec<String>)
    ensures
        names_view(res@) == names_view(names@),
{
    let mut res: Vec<String> = Vec::new();
    let mut i: usize = 0;
    while i < names.len()
        invariant
            i <= names@.len(),
            res@.len() == i,
            forall|k: int| 0 <= k < i ==> #[trigger] res@[k]@ == names@[k]@,
        decreases names@.len() - i,
    {
        res.push(names[i].clone());
        i = i + 1;
    }
    proof {
        assert(names_view(res@) =~= names_view(names@));
    }
    res
}

fn find_block_named<'a>(blocks: &'a Vec<Block>, name: &String) -> (res: Option<&'a Block>)
    ensures
        match res {
            Some(b) => find_block(blocks@.map_values(|b: Block| b@), name@) == Some(b@),
            None => find_block(blocks@.map_values(|b: Block| b@), name@) is None,
        },
{
    let ghost all = blocks@.map_values(|b: Block| b@);
    proof {
        assert(all.subrange(0, all.len() as int) =~= all);
    }
    let mut i: usize = 0;
    while i < blocks.len()
        invariant
            i <= blocks@.len(),
            all == blocks@.map_values(|b: Block| b@),
            find_block(all, name@) == find_block(all.subrange(i as int, all.len() as int), name@),
        decreases blocks@.len() - i,
    {
        let ghost rest = all.subrange(i as int, all.len() as int);
        proof {
            assert(rest[0] == blocks@[i as int]@);
            assert(rest.subrange(1, rest.len() as int) =~= all.subrange(i + 1, all.len() as int));
        }
        if blocks[i].name == *name {
            return Some(&blocks[i]);
        }
        i = i + 1;
    }
    None
}

fn find_root_block<'a>(blocks: &'a Vec<Block>) -> (res: Option<&'a Block>)
    ensures
        match res {
            Some(b) => find_root(blocks@.map_values(|b: Block| b@)) == Some(b@),
            None => find_root(blocks@.map_values(|b: Block| b@)) is None,
        },
{
    let ghost all = blocks@.map_values(|b: Block| b@);
    proof {
        assert(all.subrange(0, all.len() as int) =~= all);
    }
    let mut i: usize = 0;
    while i < blocks.len()
        invariant
            i <= blocks@.len(),
            all == blocks@.map_values(|b: Block| b@),
            find_root(all) == find_root(all.subrange(i as int, all.len() as int)),
        decreases blocks@.len() - i,
    {
        let ghost rest = all.subrange(i as int, all.len() as int);
        proof {
            assert(rest[0] == blocks@[i as int]@);
            assert(rest.subrange(1, rest.len() as int) =~= all.subrange(i + 1, all.len() as int));
        }
        if blocks[i].root {
            return Some(&blocks[i]);
        }
        i = i + 1;
    }
    None
}


proof fn lemma_methods_ready(blocks: Seq<BlockV>, ms: Seq<BlockMethodV>, offset: int, n: nat)
    requires
        methods_ready(blocks, ms, offset, n),
    ensures
        forall|i: int| 0 <= i < ms.len() ==> #[trigger] method_ready(blocks, ms[i], offset, n),
    decreases ms.len(),
{
    if ms.len() > 0 {
        lemma_methods_ready(blocks, ms.drop_last(), offset, n);
        assert forall|i: int| 0 <= i < ms.len() implies #[trigger] method_ready(
            blocks,
            ms[i],
            offset,
            n,
        ) by {
            if i < ms.len() - 1 {
                assert(ms[i] == ms.drop_last()[i]);
            }
        }
    }
}

proof fn lemma_sub_block_ready(
    blocks: Seq<BlockV>,
    sb: BlockV,
    base: int,
    stride: int,
    count: nat,
    n: nat,
    i: int,
)
    requires
        sub_block_ready(blocks, sb, base, stride, count, n),
        0 <= i < count,
    ensures
        block_ready(blocks, sb, base + i * stride, n),
    decreases count,
{
    if i < count - 1 {
        lemma_sub_block_ready(blocks, sb, base, stride, (count - 1) as nat, n, i);
    }
}

proof fn lemma_step_between(i: int, c: int, s: int)
    requires
        0 <= i <= c,
    ensures
        s >= 0 ==> 0 <= i * s <= c * s,
        s < 0 ==> c * s <= i * s <= 0,
{
    assert(s >= 0 ==> 0 <= i * s <= c * s) by (nonlinear_arith)
        requires
            0 <= i <= c,
    ;
    assert(s < 0 ==> c * s <= i * s <= 0) by (nonlinear_arith)
        requires
            0 <= i <= c,
    ;
}

/// The addresses that the methods of the block claim, in order, when the block starts at
/// the offset: the registers, commands and buffers it reaches, once per repetition, and
/// the addresses of the blocks it reaches, once per repetition of them.
fn get_block_claimed_addresses(
    device: &Device,
    block: &Block,
    current_address_offset: i64,
    name_stack: &Vec<String>,
    Ghost(n): Ghost<nat>,
) -> (res: Vec<ClaimedAddress>)
    requires
        block_ready(device@.blocks, block@, current_address_offset as int, n),
    ensures
        claims_view(res@) == block_claims(
            device@.blocks,
            block@,
            current_address_offset as int,
            names_view(name_stack@),
            n,
        ),
    decreases n,
{
    let ghost blocks = device@.blocks;
    let ghost stack = names_view(name_stack@);
    let ghost offset = current_address_offset as int;
    let ghost ms = block@.methods;
    proof {
        lemma_methods_ready(blocks, ms, offset, n);
        assert(ms.take(0) =~= Seq::<BlockMethodV>::empty());
    }
    let mut claimed: Vec<ClaimedAddress> = Vec::new();
    let mut k: usize = 0;
    while k < block.methods.len()
        invariant
            k <= ms.len(),
            ms == block@.methods,
            ms.len() == block.methods@.len(),
            blocks == device@.blocks,
            stack == names_view(name_stack@),
            offset == current_address_offset as int,
            forall|i: int| 0 <= i < ms.len() ==> #[trigger] method_ready(blocks, ms[i], offset, n),
            claims_view(claimed@) == methods_claims(blocks, ms.take(k as int), offset, stack, n),
        decreases ms.len() - k,
    {
        let method = &block.methods[k];
        let ghost m = method@;
        proof {
            assert(ms[k as int] == m);
            assert(method_ready(blocks, m, offset, n));
        }
        let base = current_address_offset + method.address;
        let (count, stride, repeat): (i64, i64, bool) = match method.kind {
            BlockMethodKind::Normal => (1, 0, false),
            BlockMethodKind::Repeated { count, stride } => (count as i64, stride, true),
        };
        proof {
            assert(count == kind_count(m.kind));
            assert(stride == kind_stride(m.kind));
        }
        let ghost before = claimed@;
        match &method.method_type {
            crate::lir::BlockMethodType::Block { name } => {
                let sub = find_block_named(&device.blocks, name);
                let sub = match sub {
                    Some(b) => b,
                    None => {
                        proof {
                            assert(false);
                        }
                        block
                    },
                };
                let ghost sb = sub@;
                let pascal = pascal_case_name(name);
                let mut i: i64 = 0;
                while i < count
                    invariant
                        0 <= i <= count,
                        n > 0,
                        blocks == device@.blocks,
                        stack == names_view(name_stack@),
                        sub_block_ready(blocks, sb, base as int, stride as int, count as nat, (n - 1) as nat),
                        count > 0 ==> fits_i64((count - 1) * stride) && fits_i64(base + (count - 1) * stride),
                        pascal@ == pascal_name(name@),
                        sb == sub@,
                        claims_view(claimed@) == claims_view(before) + sub_block_claims(
                            blocks,
                            sb,
                            base as int,
                            stride as int,
                            i as nat,
                            stack,
                            name@,
                            (n - 1) as nat,
                        ),
                    decreases count - i,
                {
                    proof {
                        lemma_step_between(i as int, (count - 1) as int, stride as int);
                        lemma_sub_block_ready(blocks, sb, base as int, stride as int, count as nat, (n - 1) as nat, i as int);
                    }
                    let mut next_stack = copy_names(name_stack);
                    let entry = with_index(&pascal, i);
                    next_stack.push(entry);
                    proof {
                        assert(names_view(next_stack@) =~= stack.push(pascal_name(name@) + index_text(i as int)));
                    }
                    let address = base + i * stride;
                    let ghost mid = claimed@;
                    let mut inner = get_block_claimed_addresses(
                        device,
                        sub,
                        address,
                        &next_stack,
                        Ghost((n - 1) as nat),
                    );
                    let ghost inner_claims = inner@;
                    claimed.append(&mut inner);
                    proof {
                        assert(claims_view(claimed@) =~= claims_view(mid) + claims_view(inner_claims));
                    }
                    i = i + 1;
                }
                proof {
                    assert(method_claims(blocks, m, offset, stack, n) == sub_block_claims(
                        blocks,
                        sb,
                        base as int,
                        stride as int,
                        count as nat,
                        stack,
                        name@,
                        (n - 1) as nat,
                    ));
                }
            },
            other => {
                let address_type = match other {
                    crate::lir::BlockMethodType::Command { .. } => ClaimedAddressType::Command,
                    crate::lir::BlockMethodType::Buffer { .. } => ClaimedAddressType::Buffer,
                    _ => ClaimedAddressType::Register,
                };
                let own = pascal_case_name(&method.name);
                let name = joined(name_stack, &own);
                let mut i: i64 = 0;
                while i < count
                    invariant
                        0 <= i <= count,
                        count > 0 ==> fits_i64((count - 1) * stride) && fits_i64(base + (count - 1) * stride),
                        claims_view(claimed@) == claims_view(before) + Seq::new(
                            i as nat,
                            |j: int|
                                ClaimedV {
                                    name: name@,
                                    repeat_index: if repeat {
                                        Some(j as i64)
                                    } else {
                                        None
                                    },
                                    address: base + j * stride,
                                    allow_overlap: method.allow_address_overlap,
                                    address_type,
                                },
                        ),
                    decreases count - i,
                {
                    proof {
                        lemma_step_between(i as int, (count - 1) as int, stride as int);
                    }
                    let ghost mid = claimed@;
                    let c = ClaimedAddress {
                        name: name.clone(),
                        repeat_index: if repeat {
                            Some(i)
                        } else {
                            None
                        },
                        address: base + i * stride,
                        allow_overlap: method.allow_address_overlap,
                        address_type,
                    };
                    let ghost cv = c@;
                    claimed.push(c);
                    proof {
                        assert(claims_view(claimed@) =~= claims_view(mid).push(cv));
                        assert(cv == ClaimedV {
                            name: name@,
                            repeat_index: if repeat {
                                Some(i as i64)
                            } else {
                                None
                            },
                            address: base + i * stride,
                            allow_overlap: method.allow_address_overlap,
                            address_type,
                        });
                    }
                    i = i + 1;
                    proof {
                        assert(claims_view(claimed@) =~= claims_view(before) + Seq::new(
                            i as nat,
                            |j: int|
                                ClaimedV {
                                    name: name@,
                                    repeat_index: if repeat {
                                        Some(j as i64)
                                    } else {
                                        None
                                    },
                                    address: base + j * stride,
                                    allow_overlap: method.allow_address_overlap,
                                    address_type,
                                },
                        ));
                    }
                }
                proof {
                    assert(repeat == (m.kind is Repeated));
                    assert(address_type == claim_type(m.method_type));
                    assert(method_claims(blocks, m, offset, stack, n) =~= Seq::new(
                        count as nat,
                        |j: int|
                            ClaimedV {
                                name: name@,
                                repeat_index: if repeat {
                                    Some(j as i64)
                                } else {
                                    None
                                },
                                address: base + j * stride,
                                allow_overlap: method.allow_address_overlap,
                                address_type,
                            },
                    ));
                }
            },
        }
        proof {
            let next = ms.take(k + 1);
            assert(next.drop_last() =~= ms.take(k as int));
            assert(next.last() == m);
        }
        k = k + 1;
    }
    proof {
        assert(ms.take(ms.len() as int) =~= ms);
    }
    claimed
}

/// The number of blocks deep the check goes.
pub open spec fn claim_depth(d: DeviceV) -> nat {
    choose|n: nat| block_ready(d.blocks, find_root(d.blocks)->Some_0, 0, n)
}

/// The addresses that the objects reached from the root block claim, in order.
pub open spec fn device_claims(d: DeviceV) -> Seq<ClaimedV> {
    block_claims(d.blocks, find_root(d.blocks)->Some_0, 0, Seq::empty(), claim_depth(d))
}

/// The device has a root block, every block a method reaches exists without going
/// round in circles, and every address can be computed in `i64`.
pub open spec fn pass_ready(d: DeviceV) -> bool {
    &&& find_root(d.blocks) is Some
    &&& exists|n: nat| block_ready(d.blocks, find_root(d.blocks)->Some_0, 0, n)
}

/// The error names the first colliding pair of claims, in the order they are claimed.
pub open spec fn first_conflict_error(e: Error, c: Seq<ClaimedV>) -> bool {
    exists|i: int, j: int|
        #![trigger c[i], c[j]]
        {
            &&& 0 <= i < j < c.len()
            &&& conflict(c[i], c[j])
            &&& forall|i2: int, j2: int|
                #![trigger c[i2], c[j2]]
                0 <= i2 < j2 < c.len() && (i2 < i || (i2 == i && j2 < j)) ==> !conflict(
                    c[i2],
                    c[j2],
                )
            &&& e matches Error::AddressesOverlap { name0, name1, address }
            &&& name0@ == claim_text(c[i])
            &&& name1@ == claim_text(c[j])
            &&& address == c[i].address
        }
}

fn claim_name(c: &ClaimedAddress) -> (res: String)
    ensures
        res@ == claim_text(c@),
{
    match c.repeat_index {
        Some(i) => with_index(&c.name, i),
        None => c.name.clone(),
    }
}

/// Checks that no two registers, no two commands and no two buffers reached from the
/// root block use the same address, unless both allow overlap; the error names the
/// first such pair.
pub fn run_pass(device: &Device) -> (res: Result<(), Error>)
    requires
        pass_ready(device@),
    ensures
        res is Ok <==> claims_ok(device_claims(device@)),
        res matches Err(e) ==> first_conflict_error(e, device_claims(device@)),
{
    let root_block = match find_root_block(&device.blocks) {
        Some(b) => b,
        None => {
            proof {
                assert(false);
            }
            return Ok(());
        },
    };
    let no_names: Vec<String> = Vec::new();
    proof {
        assert(names_view(no_names@) =~= Seq::<Seq<char>>::empty());
        assert(block_ready(device@.blocks, root_block@, 0, claim_depth(device@)));
    }
    let claimed_addresses = get_block_claimed_addresses(
        device,
        root_block,
        0,
        &no_names,
        Ghost(claim_depth(device@)),
    );
    let ghost c = claims_view(claimed_addresses@);
    let mut i: usize = 0;
    while i < claimed_addresses.len()
        invariant
            c == claims_view(claimed_addresses@),
            c == device_claims(device@),
            i <= c.len(),
            forall|i2: int, j2: int|
                #![trigger c[i2], c[j2]]
                0 <= i2 < j2 < c.len() && i2 < i ==> !conflict(c[i2], c[j2]),
        decreases c.len() - i,
    {
        let mut j: usize = i + 1;
        while j < claimed_addresses.len()
            invariant
                c == claims_view(claimed_addresses@),
                c == device_claims(device@),
                i < c.len(),
                i + 1 <= j <= c.len(),
                forall|i2: int, j2: int|
                    #![trigger c[i2], c[j2]]
                    0 <= i2 < j2 < c.len() && (i2 < i || (i2 == i && j2 < j)) ==> !conflict(
                        c[i2],
                        c[j2],
                    ),
            decreases c.len() - j,
        {
            let a = &claimed_addresses[i];
            let b = &claimed_addresses[j];
            proof {
                assert(c[i as int] == a@);
                assert(c[j as int] == b@);
            }
            let types_same = a.address_type == b.address_type;
            let both_allow_overlap = a.allow_overlap && b.allow_overlap;
            let address_same = a.address == b.address;
            if address_same && types_same && !both_allow_overlap {
                let name0 = claim_name(a);
                let name1 = claim_name(b);
                let e = Error::AddressesOverlap { name0, name1, address: a.address };
                proof {
                    assert(conflict(c[i as int], c[j as int]));
                    assert(first_conflict_error(e, c));
                }
                return Err(e);
            }
            j = j + 1;
        }
        i = i + 1;
    }
    Ok(())
}

/// Registers, commands and buffers each claim addresses of their own kind: two
/// objects that aren't blocks claim addresses of the same kind exactly when they are of
/// the same kind, so a buffer never collides with a register or a command.
pub proof fn lemma_claim_kinds(a: BlockMethodTypeV, b: BlockMethodTypeV)
    requires
        !(a is Block),
        !(b is Block),
    ensures
        claim_type(a) == claim_type(b) <==> (a is Register && b is Register) || (a is Command
            && b is Command) || (a is Buffer && b is Buffer),
{
}

/// Only claims of the same kind collide.
pub proof fn lemma_conflict_same_kind(a: ClaimedV, b: ClaimedV)
    requires
        conflict(a, b),
    ensures
        a.address_type == b.address_type,
{
}

} // verus!
