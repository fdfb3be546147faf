//! What reading gives back of a written device: the node that the KDL writer makes of a
//! device, read by the KDL reader, gives the device's name, settings and registers again.

use vstd::prelude::*;

use crate::kdl::{
    children_of, config_after, config_index, config_reports, config_view, default_config, device_children_ready,
    device_matches, device_node_ready, device_ok, device_reports, device_scan, device_step,
    global_config_type_named, register_head, register_ready, registers_of,
    single_string, unread_object, DeviceScan, GlobalConfigType, GlobalConfigV,
};
use crate::kdl_round_trip::{
    flatten_pieces, lemma_access_round_trip, lemma_bit_order_round_trip, lemma_byte_order_round_trip,
    lemma_integer_round_trip, lemma_nodes_match, lemma_nodes_view_subrange, lemma_register_round_trip,
    lemma_single_string, lemma_text_ne, register_readable, same_register,
};
use crate::kdl_transform::{
    access_text, bit_order_text, byte_order_text, config_nodes, device_node, integer_text, object_node,
    objects_nodes, text_node,
};
use crate::kdl_tree::{node_view, nodes_view, Node, NodeV};
use crate::mir::{
    default_word_boundaries, Access, BitOrder, Device, GlobalConfig, Integer, Object,
};
use crate::reporting::DiagnosticV;

verus! {

/// The names of the setting nodes are told apart, from each other and from `register`;
/// each is longer than the name of any object kind.
proof fn lemma_setting_names()
    ensures
        global_config_type_named("default-register-access"@) == Some(GlobalConfigType::DefaultRegisterAccess),
        global_config_type_named("default-field-access"@) == Some(GlobalConfigType::DefaultFieldAccess),
        global_config_type_named("default-buffer-access"@) == Some(GlobalConfigType::DefaultBufferAccess),
        global_config_type_named("default-byte-order"@) == Some(GlobalConfigType::DefaultByteOrder),
        global_config_type_named("default-bit-order"@) == Some(GlobalConfigType::DefaultBitOrder),
        global_config_type_named("register-address-type"@) == Some(GlobalConfigType::RegisterAddressType),
        global_config_type_named("command-address-type"@) == Some(GlobalConfigType::CommandAddressType),
        global_config_type_named("buffer-address-type"@) == Some(GlobalConfigType::BufferAddressType),
        global_config_type_named("defmt-feature"@) == Some(GlobalConfigType::DefmtFeature),
        global_config_type_named("register"@) is None,
        forall|s: Seq<char>| #[trigger] global_config_type_named(s) is Some ==> s.len() >= 13,
        "register"@.len() == 8,
        "block"@.len() == 5,
        "command"@.len() == 7,
        "buffer"@.len() == 6,
        "ref"@.len() == 3,
{
    reveal_strlit("default-register-access");
    reveal_strlit("default-field-access");
    reveal_strlit("default-buffer-access");
    reveal_strlit("default-byte-order");
    reveal_strlit("default-bit-order");
    reveal_strlit("register-address-type");
    reveal_strlit("command-address-type");
    reveal_strlit("buffer-address-type");
    reveal_strlit("name-word-boundaries");
    reveal_strlit("defmt-feature");
    reveal_strlit("register");
    reveal_strlit("block");
    reveal_strlit("command");
    reveal_strlit("buffer");
    reveal_strlit("ref");
    lemma_text_ne("default-field-access"@, "default-register-access"@, 0);
    lemma_text_ne("default-buffer-access"@, "default-register-access"@, 0);
    lemma_text_ne("default-buffer-access"@, "default-field-access"@, 0);
    lemma_text_ne("default-byte-order"@, "default-register-access"@, 0);
    lemma_text_ne("default-byte-order"@, "default-field-access"@, 0);
    lemma_text_ne("default-byte-order"@, "default-buffer-access"@, 0);
    lemma_text_ne("default-bit-order"@, "default-register-access"@, 0);
    lemma_text_ne("default-bit-order"@, "default-field-access"@, 0);
    lemma_text_ne("default-bit-order"@, "default-buffer-access"@, 0);
    lemma_text_ne("default-bit-order"@, "default-byte-order"@, 0);
    lemma_text_ne("register-address-type"@, "default-register-access"@, 0);
    lemma_text_ne("register-address-type"@, "default-field-access"@, 0);
    lemma_text_ne("register-address-type"@, "default-buffer-access"@, 0);
    lemma_text_ne("register-address-type"@, "default-byte-order"@, 0);
    lemma_text_ne("register-address-type"@, "default-bit-order"@, 0);
    lemma_text_ne("command-address-type"@, "default-register-access"@, 0);
    lemma_text_ne("command-address-type"@, "default-field-access"@, 0);
    lemma_text_ne("command-address-type"@, "default-buffer-access"@, 0);
    lemma_text_ne("command-address-type"@, "default-byte-order"@, 0);
    lemma_text_ne("command-address-type"@, "default-bit-order"@, 0);
    lemma_text_ne("command-address-type"@, "register-address-type"@, 0);
    lemma_text_ne("buffer-address-type"@, "default-register-access"@, 0);
    lemma_text_ne("buffer-address-type"@, "default-field-access"@, 0);
    lemma_text_ne("buffer-address-type"@, "default-buffer-access"@, 0);
    lemma_text_ne("buffer-address-type"@, "default-byte-order"@, 0);
    lemma_text_ne("buffer-address-type"@, "default-bit-order"@, 0);
    lemma_text_ne("buffer-address-type"@, "register-address-type"@, 0);
    lemma_text_ne("buffer-address-type"@, "command-address-type"@, 0);
    lemma_text_ne("name-word-boundaries"@, "default-register-access"@, 0);
    lemma_text_ne("name-word-boundaries"@, "default-field-access"@, 0);
    lemma_text_ne("name-word-boundaries"@, "default-buffer-access"@, 0);
    lemma_text_ne("name-word-boundaries"@, "default-byte-order"@, 0);
    lemma_text_ne("name-word-boundaries"@, "default-bit-order"@, 0);
    lemma_text_ne("name-word-boundaries"@, "register-address-type"@, 0);
    lemma_text_ne("name-word-boundaries"@, "command-address-type"@, 0);
    lemma_text_ne("name-word-boundaries"@, "buffer-address-type"@, 0);
    lemma_text_ne("defmt-feature"@, "default-register-access"@, 0);
    lemma_text_ne("defmt-feature"@, "default-field-access"@, 0);
    lemma_text_ne("defmt-feature"@, "default-buffer-access"@, 0);
    lemma_text_ne("defmt-feature"@, "default-byte-order"@, 0);
    lemma_text_ne("defmt-feature"@, "default-bit-order"@, 0);
    lemma_text_ne("defmt-feature"@, "register-address-type"@, 0);
    lemma_text_ne("defmt-feature"@, "command-address-type"@, 0);
    lemma_text_ne("defmt-feature"@, "buffer-address-type"@, 0);
    lemma_text_ne("defmt-feature"@, "name-word-boundaries"@, 0);
    lemma_text_ne("register"@, "default-register-access"@, 0);
    lemma_text_ne("register"@, "default-field-access"@, 0);
    lemma_text_ne("register"@, "default-buffer-access"@, 0);
    lemma_text_ne("register"@, "default-byte-order"@, 0);
    lemma_text_ne("register"@, "default-bit-order"@, 0);
    lemma_text_ne("register"@, "register-address-type"@, 0);
    lemma_text_ne("register"@, "command-address-type"@, 0);
    lemma_text_ne("register"@, "buffer-address-type"@, 0);
    lemma_text_ne("register"@, "name-word-boundaries"@, 0);
    lemma_text_ne("register"@, "defmt-feature"@, 0);
}

/// Reading the child nodes of a device from a state on.
pub open spec fn device_scan_from(st: DeviceScan, s: Seq<Node>) -> DeviceScan
    decreases s.len(),
{
    if s.len() == 0 {
        st
    } else {
        device_step(device_scan_from(st, s.drop_last()), s.last())
    }
}

proof fn lemma_device_scan_from_concat(st: DeviceScan, a: Seq<Node>, b: Seq<Node>)
    ensures
        device_scan_from(st, a + b) == device_scan_from(device_scan_from(st, a), b),
    decreases b.len(),
{
    if b.len() == 0 {
        assert(a + b =~= a);
    } else {
        assert((a + b).drop_last() =~= a + b.drop_last());
        lemma_device_scan_from_concat(st, a, b.drop_last());
    }
}

proof fn lemma_device_scan_from(c: GlobalConfigV, s: Seq<Node>)
    ensures
        device_scan(c, s) == device_scan_from(device_scan(c, Seq::empty()), s),
    decreases s.len(),
{
    if s.len() > 0 {
        lemma_device_scan_from(c, s.drop_last());
    }
}

/// Reading the pieces one after the other from a state on.
pub open spec fn device_scan_pieces(st: DeviceScan, cs: Seq<Seq<Node>>) -> DeviceScan
    decreases cs.len(),
{
    if cs.len() == 0 {
        st
    } else {
        device_scan_from(device_scan_pieces(st, cs.drop_last()), cs.last())
    }
}

proof fn lemma_device_scan_pieces(st: DeviceScan, cs: Seq<Seq<Node>>)
    ensures
        device_scan_from(st, flatten_pieces(cs)) == device_scan_pieces(st, cs),
    decreases cs.len(),
{
    if cs.len() > 0 {
        lemma_device_scan_pieces(st, cs.drop_last());
        lemma_device_scan_from_concat(st, flatten_pieces(cs.drop_last()), cs.last());
    }
}

/// The concatenation of written pieces.
pub open spec fn flatten_views(ws: Seq<Seq<NodeV>>) -> Seq<NodeV>
    decreases ws.len(),
{
    if ws.len() == 0 {
        Seq::empty()
    } else {
        flatten_views(ws.drop_last()) + ws.last()
    }
}

/// Nodes whose views are written pieces, cut into those pieces.
proof fn lemma_split_nodes(s: Seq<Node>, ws: Seq<Seq<NodeV>>) -> (cs: Seq<Seq<Node>>)
    requires
        nodes_view(s) == flatten_views(ws),
    ensures
        cs.len() == ws.len(),
        flatten_pieces(cs) == s,
        forall|j: int| 0 <= j < ws.len() ==> nodes_view(#[trigger] cs[j]) == ws[j],
    decreases ws.len(),
{
    lemma_nodes_match(s);
    if ws.len() == 0 {
        assert(s =~= Seq::<Node>::empty());
        Seq::empty()
    } else {
        let v = nodes_view(s);
        let k = s.len() - ws.last().len();
        let pre = s.subrange(0, k);
        let last = s.subrange(k, s.len() as int);
        lemma_nodes_view_subrange(s, 0, k);
        lemma_nodes_view_subrange(s, k, s.len() as int);
        assert(v.subrange(0, k) =~= flatten_views(ws.drop_last()));
        assert(v.subrange(k, s.len() as int) =~= ws.last());
        let cs0 = lemma_split_nodes(pre, ws.drop_last());
        let cs = cs0.push(last);
        assert(cs.drop_last() =~= cs0);
        assert(pre + last =~= s);
        assert forall|j: int| 0 <= j < ws.len() implies nodes_view(#[trigger] cs[j]) == ws[j] by {
            if j < ws.len() - 1 {
                assert(cs[j] == cs0[j]);
            }
        }
        cs
    }
}

/// The nodes of the objects, one by one, are the nodes of each object.
proof fn lemma_objects_nodes(objs: Seq<Object>, gc: GlobalConfig)
    ensures
        objects_nodes(objs, gc).len() == objs.len(),
        forall|j: int| 0 <= j < objs.len() ==> #[trigger] objects_nodes(objs, gc)[j] == object_node(objs[j], gc),
    decreases objs.len(),
{
    if objs.len() > 0 {
        lemma_objects_nodes(objs.drop_last(), gc);
    }
}

/// Whether a device is read back as it is written: it has a name; its word boundaries
/// are the default ones (the writer lists their names, the reader reads a pattern); no
/// address type is `u64` (the reader has no name for it); and its objects are registers
/// that are read back.
pub open spec fn device_readable(d: Device) -> bool {
    &&& d.name is Some
    &&& d.global_config.name_word_boundaries@ == default_word_boundaries()
    &&& d.global_config.register_address_type != Some(Integer::U64)
    &&& d.global_config.command_address_type != Some(Integer::U64)
    &&& d.global_config.buffer_address_type != Some(Integer::U64)
    &&& forall|j: int|
        0 <= j < d.objects@.len() ==> (#[trigger] d.objects@[j] matches Object::Register(r) && register_readable(
            r,
            d.global_config,
        ))
}

/// Whether a device that was read has the information of the written one.
pub open spec fn same_device(read: Device, written: Device) -> bool {
    &&& read.name matches Some(a) && written.name matches Some(b) && a@ == b@
    &&& config_view(read.global_config) == config_view(written.global_config)
    &&& read.objects@.len() == written.objects@.len()
    &&& forall|j: int|
        0 <= j < read.objects@.len() ==> match (#[trigger] read.objects@[j], written.objects@[j]) {
            (Object::Register(a), Object::Register(b)) => same_register(a, b),
            _ => false,
        }
}

/// The written children of a device, piece by piece: one piece for each setting type,
/// holding its node or none, and one with the nodes of the objects.
pub open spec fn device_pieces(d: Device) -> Seq<Seq<NodeV>> {
    let gc = d.global_config;
    seq![
        if gc.default_register_access != Access::RW {
            seq![text_node("default-register-access"@, access_text(gc.default_register_access))]
        } else {
            Seq::empty()
        },
        if gc.default_field_access != Access::RW {
            seq![text_node("default-field-access"@, access_text(gc.default_field_access))]
        } else {
            Seq::empty()
        },
        if gc.default_buffer_access != Access::RW {
            seq![text_node("default-buffer-access"@, access_text(gc.default_buffer_access))]
        } else {
            Seq::empty()
        },
        match gc.default_byte_order {
            Some(b) => seq![text_node("default-byte-order"@, byte_order_text(b))],
            None => Seq::empty(),
        },
        if gc.default_bit_order != BitOrder::LSB0 {
            seq![text_node("default-bit-order"@, bit_order_text(gc.default_bit_order))]
        } else {
            Seq::empty()
        },
        match gc.register_address_type {
            Some(i) => seq![text_node("register-address-type"@, integer_text(i))],
            None => Seq::empty(),
        },
        match gc.command_address_type {
            Some(i) => seq![text_node("command-address-type"@, integer_text(i))],
            None => Seq::empty(),
        },
        match gc.buffer_address_type {
            Some(i) => seq![text_node("buffer-address-type"@, integer_text(i))],
            None => Seq::empty(),
        },
        Seq::empty(),
        match gc.defmt_feature {
            Some(f) => seq![text_node("defmt-feature"@, f@)],
            None => Seq::empty(),
        },
        objects_nodes(d.objects@, gc),
    ]
}

/// The written children of a device are its pieces, one after the other.
proof fn lemma_device_pieces(d: Device)
    requires
        device_readable(d),
    ensures
        flatten_views(device_pieces(d)) == config_nodes(d.global_config) + objects_nodes(
            d.objects@,
            d.global_config,
        ),
        config_nodes(d.global_config).len() == flatten_views(device_pieces(d).take(10)).len(),
{
    let ws = device_pieces(d);
    assert(flatten_views(ws) == ws[0] + ws[1] + ws[2] + ws[3] + ws[4] + ws[5] + ws[6] + ws[7] + ws[8]
        + ws[9] + ws[10]) by {
        reveal_with_fuel(flatten_views, 12);
        assert(ws.drop_last().drop_last().drop_last().drop_last().drop_last().drop_last().drop_last()
            .drop_last().drop_last().drop_last().drop_last() =~= Seq::<Seq<NodeV>>::empty());
    }
    let w10 = ws.take(10);
    assert(flatten_views(w10) == ws[0] + ws[1] + ws[2] + ws[3] + ws[4] + ws[5] + ws[6] + ws[7] + ws[8]
        + ws[9]) by {
        reveal_with_fuel(flatten_views, 11);
        assert(w10.drop_last().drop_last().drop_last().drop_last().drop_last().drop_last().drop_last()
            .drop_last().drop_last().drop_last() =~= Seq::<Seq<NodeV>>::empty());
    }
    assert(config_nodes(d.global_config) =~= ws[0] + ws[1] + ws[2] + ws[3] + ws[4] + ws[5] + ws[6] + ws[7]
        + ws[8] + ws[9]);
}

/// The settings after the first `i` setting types have been read: those of the written
/// device up to there, the defaults after.
pub open spec fn config_upto(t: GlobalConfigV, i: int) -> GlobalConfigV {
    GlobalConfigV {
        default_register_access: if i > 0 { t.default_register_access } else { Access::RW },
        default_field_access: if i > 1 { t.default_field_access } else { Access::RW },
        default_buffer_access: if i > 2 { t.default_buffer_access } else { Access::RW },
        default_byte_order: if i > 3 { t.default_byte_order } else { None },
        default_bit_order: if i > 4 { t.default_bit_order } else { BitOrder::LSB0 },
        register_address_type: if i > 5 { t.register_address_type } else { None },
        command_address_type: if i > 6 { t.command_address_type } else { None },
        buffer_address_type: if i > 7 { t.buffer_address_type } else { None },
        name_word_boundaries: if i > 8 { t.name_word_boundaries } else { default_word_boundaries() },
        defmt_feature: if i > 9 { t.defmt_feature } else { None },
    }
}

/// Reading a setting node whose type hasn't appeared yet and that gives no diagnostics.
proof fn lemma_setting_step(st: DeviceScan, c: Node, t: GlobalConfigType)
    requires
        global_config_type_named(c.name@) == Some(t),
        st.seen[config_index(t)] is None,
        config_reports(c, t) == Seq::<DiagnosticV>::empty(),
    ensures
        device_step(st, c) == (DeviceScan {
            config: config_after(st.config, c, t),
            seen: st.seen.update(config_index(t), Some(c.span)),
            ..st
        }),
{
    assert(st.reports + Seq::<DiagnosticV>::empty() =~= st.reports);
}

/// Reading a written piece of at most one node from a state on.
proof fn lemma_device_piece(st: DeviceScan, seg: Seq<Node>, w: Seq<NodeV>)
    requires
        nodes_view(seg) == w,
        w.len() <= 1,
    ensures
        seg.len() == w.len(),
        w.len() == 0 ==> device_scan_from(st, seg) == st && seg =~= Seq::<Node>::empty(),
        w.len() == 1 ==> seg =~= seq![seg[0]] && node_view(seg[0]) == w[0] && device_scan_from(st, seg)
            == device_step(st, seg[0]),
{
    lemma_nodes_match(seg);
    if w.len() == 1 {
        assert(seg =~= seq![seg[0]]);
        assert(seg.drop_last() =~= Seq::<Node>::empty());
        assert(device_scan_from(st, Seq::<Node>::empty()) == st);
        assert(seg.last() == seg[0]);
    } else {
        assert(seg =~= Seq::<Node>::empty());
    }
}

/// A single setting node can be read: it names no object kind.
proof fn lemma_setting_ready(c: Node)
    requires
        global_config_type_named(c.name@) is Some,
    ensures
        device_children_ready(seq![c]),
{
    lemma_setting_names();
    assert(!unread_object(c));
}

/// Reading the piece of one setting type moves the settings on by that type, without
/// diagnostics.
#[verifier::rlimit(40)]
proof fn lemma_setting_piece(st: DeviceScan, seg: Seq<Node>, d: Device, i: int)
    requires
        0 <= i < 10,
        nodes_view(seg) == device_pieces(d)[i],
        device_readable(d),
        st.seen.len() == 10,
        forall|j: int| i <= j < 10 ==> st.seen[j] is None,
        st.config == config_upto(config_view(d.global_config), i),
    ensures
        device_scan_from(st, seg).config == config_upto(config_view(d.global_config), i + 1),
        device_scan_from(st, seg).reports == st.reports,
        device_scan_from(st, seg).registers == st.registers,
        device_scan_from(st, seg).seen.len() == 10,
        forall|j: int| i < j < 10 ==> device_scan_from(st, seg).seen[j] is None,
        device_children_ready(seg),
{
    let gc = d.global_config;
    let tv = config_view(gc);
    let w = device_pieces(d)[i];
    lemma_device_piece(st, seg, w);
    lemma_setting_names();
    if w.len() == 0 {
        assert(config_upto(tv, i) == config_upto(tv, i + 1));
    } else {
        let c = seg[0];
        assert(node_view(c).name == c.name@);
        if i == 0 {
            lemma_access_round_trip(c, gc.default_register_access);
            lemma_setting_step(st, c, GlobalConfigType::DefaultRegisterAccess);
        } else if i == 1 {
            lemma_access_round_trip(c, gc.default_field_access);
            lemma_setting_step(st, c, GlobalConfigType::DefaultFieldAccess);
        } else if i == 2 {
            lemma_access_round_trip(c, gc.default_buffer_access);
            lemma_setting_step(st, c, GlobalConfigType::DefaultBufferAccess);
        } else if i == 3 {
            lemma_byte_order_round_trip(c, gc.default_byte_order->0);
            lemma_setting_step(st, c, GlobalConfigType::DefaultByteOrder);
        } else if i == 4 {
            lemma_bit_order_round_trip(c, gc.default_bit_order);
            lemma_setting_step(st, c, GlobalConfigType::DefaultBitOrder);
        } else if i == 5 {
            lemma_integer_round_trip(c, gc.register_address_type->0);
            lemma_setting_step(st, c, GlobalConfigType::RegisterAddressType);
        } else if i == 6 {
            lemma_integer_round_trip(c, gc.command_address_type->0);
            lemma_setting_step(st, c, GlobalConfigType::CommandAddressType);
        } else if i == 7 {
            lemma_integer_round_trip(c, gc.buffer_address_type->0);
            lemma_setting_step(st, c, GlobalConfigType::BufferAddressType);
        } else {
            assert(i == 9);
            let f = gc.defmt_feature->0;
            lemma_single_string(c, f@, None);
            assert(single_string(c, None, false).0 == Some(f@));
            lemma_setting_step(st, c, GlobalConfigType::DefmtFeature);
        }
        lemma_setting_ready(c);
    }
}

/// Reading the written settings, type by type.
proof fn lemma_settings_scan(d: Device, cs: Seq<Seq<Node>>, s0: DeviceScan, i: int)
    requires
        0 <= i <= 10,
        cs.len() == 11,
        forall|j: int| 0 <= j < 11 ==> nodes_view(#[trigger] cs[j]) == device_pieces(d)[j],
        device_readable(d),
        s0 == device_scan(default_config(), Seq::empty()),
    ensures
        device_scan_pieces(s0, cs.take(i)).config == config_upto(config_view(d.global_config), i),
        device_scan_pieces(s0, cs.take(i)).reports == Seq::<DiagnosticV>::empty(),
        device_scan_pieces(s0, cs.take(i)).registers == Seq::<Node>::empty(),
        device_scan_pieces(s0, cs.take(i)).seen.len() == 10,
        forall|j: int| i <= j < 10 ==> device_scan_pieces(s0, cs.take(i)).seen[j] is None,
        forall|j: int| 0 <= j < i ==> device_children_ready(#[trigger] cs[j]),
    decreases i,
{
    if i == 0 {
        assert(cs.take(0) =~= Seq::<Seq<Node>>::empty());
        assert(config_upto(config_view(d.global_config), 0) == default_config());
    } else {
        lemma_settings_scan(d, cs, s0, i - 1);
        assert(cs.take(i).drop_last() =~= cs.take(i - 1));
        assert(cs.take(i).last() == cs[i - 1]);
        let prev = device_scan_pieces(s0, cs.take(i - 1));
        lemma_setting_piece(prev, cs[i - 1], d, i - 1);
    }
}

/// Reading the written registers adds each node as a register, without diagnostics.
proof fn lemma_objects_scan(st: DeviceScan, nodes: Seq<Node>, objs: Seq<Object>, gc: GlobalConfig)
    requires
        nodes_view(nodes) == objects_nodes(objs, gc),
        forall|j: int|
            0 <= j < objs.len() ==> (#[trigger] objs[j] matches Object::Register(r) && register_readable(r, gc)),
    ensures
        device_scan_from(st, nodes) == (DeviceScan { registers: st.registers + nodes, ..st }),
        device_children_ready(nodes),
    decreases objs.len(),
{
    lemma_nodes_match(nodes);
    lemma_objects_nodes(objs, gc);
    lemma_setting_names();
    if objs.len() == 0 {
        assert(nodes =~= Seq::<Node>::empty());
        assert(st.registers + nodes =~= st.registers);
    } else {
        let k = nodes.len() - 1;
        let pre = nodes.drop_last();
        lemma_nodes_view_subrange(nodes, 0, k);
        assert(nodes.subrange(0, k) =~= pre);
        assert(nodes_view(nodes).subrange(0, k) =~= objects_nodes(objs.drop_last(), gc));
        assert forall|j: int| 0 <= j < objs.drop_last().len() implies (#[trigger] objs.drop_last()[j] matches Object::Register(
            r,
        ) && register_readable(r, gc)) by {
            assert(objs.drop_last()[j] == objs[j]);
        }
        lemma_objects_scan(st, pre, objs.drop_last(), gc);
        let c = nodes.last();
        assert(nodes_view(nodes)[k] == node_view(nodes[k]));
        assert(objects_nodes(objs, gc)[k] == object_node(objs[k], gc));
        assert(node_view(c) == object_node(objs[k], gc));
        let r = objs[k]->Register_0;
        assert(objs[k] == Object::Register(r));
        lemma_register_round_trip(c, r, gc);
        assert(c.name@ == "register"@);
        let mid = device_scan_from(st, pre);
        assert(mid.reports + Seq::<DiagnosticV>::empty() =~= mid.reports);
        assert((st.registers + pre).push(c) =~= st.registers + nodes);
        assert forall|i: int| 0 <= i < nodes.len() implies !unread_object(#[trigger] nodes[i]) && (
        nodes[i].name@ == "register"@ ==> register_ready(nodes[i])) by {
            if i < k {
                assert(nodes[i] == pre[i]);
            }
        }
    }
}

/// Each piece of nodes can be read, so their concatenation can.
proof fn lemma_pieces_ready(cs: Seq<Seq<Node>>)
    requires
        forall|j: int| 0 <= j < cs.len() ==> device_children_ready(#[trigger] cs[j]),
    ensures
        device_children_ready(flatten_pieces(cs)),
    decreases cs.len(),
{
    if cs.len() > 0 {
        let pre = cs.drop_last();
        assert forall|j: int| 0 <= j < pre.len() implies device_children_ready(#[trigger] pre[j]) by {
            assert(pre[j] == cs[j]);
        }
        lemma_pieces_ready(pre);
        let a = flatten_pieces(pre);
        let b = cs.last();
        assert(device_children_ready(b));
        assert forall|i: int| 0 <= i < (a + b).len() implies !unread_object(#[trigger] (a + b)[i]) && ((a
            + b)[i].name@ == "register"@ ==> register_ready((a + b)[i])) by {
            if i < a.len() {
                assert((a + b)[i] == a[i]);
            } else {
                assert((a + b)[i] == b[i - a.len()]);
            }
        }
    }
}

/// Reading the children of a written device node gives the written settings and, as
/// register nodes, the nodes of its objects, without diagnostics.
#[verifier::rlimit(40)]
proof fn lemma_device_children(n: Node, d: Device) -> (regs: Seq<Node>)
    requires
        node_view(n) == device_node(d),
        device_readable(d),
    ensures
        device_scan(default_config(), children_of(n)).config == config_view(d.global_config),
        device_scan(default_config(), children_of(n)).reports == Seq::<DiagnosticV>::empty(),
        device_scan(default_config(), children_of(n)).registers == regs,
        nodes_view(regs) == objects_nodes(d.objects@, d.global_config),
        device_children_ready(children_of(n)),
        children_of(n).len() == config_nodes(d.global_config).len() + d.objects@.len(),
{
    let gc = d.global_config;
    let children = children_of(n);
    let ws = device_pieces(d);
    lemma_device_pieces(d);
    assert(nodes_view(children) == flatten_views(ws));
    let cs = lemma_split_nodes(children, ws);
    let s0 = device_scan(default_config(), Seq::empty());
    lemma_device_scan_from(default_config(), children);
    lemma_device_scan_pieces(s0, cs);
    lemma_settings_scan(d, cs, s0, 10);
    let s10 = device_scan_pieces(s0, cs.take(10));
    assert(cs.drop_last() =~= cs.take(10));
    assert(config_upto(config_view(gc), 10) == config_view(gc));
    let objs = d.objects@;
    assert(nodes_view(cs[10]) == objects_nodes(objs, gc));
    lemma_objects_scan(s10, cs[10], objs, gc);
    assert(s10.registers + cs[10] =~= cs[10]);
    lemma_pieces_ready(cs);
    lemma_nodes_match(children);
    lemma_objects_nodes(objs, gc);
    cs[10]
}

/// Reading the node that the writer makes of a device gives a device, whose only
/// diagnostic is that it is empty when nothing was written into it, and any device read
/// from it has the information of the written one.
pub proof fn lemma_device_round_trip(n: Node, d: Device)
    requires
        node_view(n) == device_node(d),
        device_readable(d),
    ensures
        device_node_ready(n),
        device_ok(n),
        device_reports(n) == if config_nodes(d.global_config).len() + d.objects@.len() == 0 {
            seq![DiagnosticV::EmptyNode { node: n.span }]
        } else {
            Seq::<DiagnosticV>::empty()
        },
        forall|read: Device| device_matches(read, n) ==> same_device(read, d),
{
    let gc = d.global_config;
    let name = d.name->0;
    reveal_strlit("device");
    lemma_single_string(n, name@, None);
    assert(register_head(n).0 == Some(name@));
    assert(register_head(n).2 == Seq::<DiagnosticV>::empty());
    let regs = lemma_device_children(n, d);
    let st = device_scan(default_config(), children_of(n));
    let objs = d.objects@;
    lemma_nodes_match(regs);
    lemma_objects_nodes(objs, gc);
    assert(register_head(n).2 + st.reports =~= Seq::<DiagnosticV>::empty());
    assert(register_head(n).2.push(DiagnosticV::EmptyNode { node: n.span }) =~= seq![
        DiagnosticV::EmptyNode { node: n.span },
    ]);
    assert forall|read: Device| device_matches(read, n) implies same_device(read, d) by {
        assert(registers_of(read.objects@, regs));
        assert forall|j: int| 0 <= j < read.objects@.len() implies match (
            #[trigger] read.objects@[j],
            objs[j],
        ) {
            (Object::Register(a), Object::Register(b)) => same_register(a, b),
            _ => false,
        } by {
            let c = regs[j];
            assert(nodes_view(regs)[j] == node_view(c));
            assert(objects_nodes(objs, gc)[j] == object_node(objs[j], gc));
            let r = objs[j]->Register_0;
            assert(objs[j] == Object::Register(r));
            lemma_register_round_trip(c, r, gc);
        }
    }
}

} // verus!
