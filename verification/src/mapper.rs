//! The network-to-scene mapper.
//!
//! Nodes of all modes are grouped by quantized 2-D position; each group
//! becomes one selectable "pillar" root node at the group's average
//! position, with one non-selectable child per member, stacked
//! vertically in mode order. Every network edge becomes a
//! non-selectable edge node whose transform spans its endpoints'
//! world positions, with the endpoint pair recorded in the scene's
//! `edge_node_refs` table.
//!
//! The mapper enumerates entries deterministically: modes in the fixed
//! order car, bike, walk, transit, nodes in index order; groups appear
//! in first-seen order of that enumeration.

use vstd::prelude::*;
use vstd::arithmetic::div_mod::lemma_fundamental_div_mod;
use crate::fixed::{fit, tdiv, tdiv_pos, clamp_fx, sub_fx, fx_sub, spec_planar_length, planar_length, SCALE};
use crate::mat4::Mat4;
use crate::network::{Network, TransportMode};
use crate::material::Material;
use crate::mesh::Mesh;
use crate::node::SceneNode;
use crate::scene::{spec_world_position, spec_is_descendant, Scene};
use crate::transform::{Quat, Transform};
use crate::vec3::Vec3;

verus! {

/// Fixed layer order of the transport modes within a pillar.
pub open spec fn spec_mode_sort_order(mode: TransportMode) -> u8 {
    match mode {
        TransportMode::Car => 0u8,
        TransportMode::Bike => 1u8,
        TransportMode::Walk => 2u8,
        TransportMode::Transit => 3u8,
    }
}

/// Consistent layer order for transport modes within a pillar.
pub fn mode_sort_order(mode: TransportMode) -> (r: u8)
    ensures
        r == spec_mode_sort_order(mode),
{
    match mode {
        TransportMode::Car => 0,
        TransportMode::Bike => 1,
        TransportMode::Walk => 2,
        TransportMode::Transit => 3,
    }
}

/// The material slot of each transport mode.
pub open spec fn spec_mode_material_id(mode: TransportMode) -> usize {
    match mode {
        TransportMode::Bike => 1usize,
        TransportMode::Walk => 2usize,
        TransportMode::Transit => 3usize,
        TransportMode::Car => 4usize,
    }
}

/// The material slot color-coding a transport mode.
pub fn mode_material_id(mode: TransportMode) -> (r: usize)
    ensures
        r == spec_mode_material_id(mode),
{
    match mode {
        TransportMode::Bike => 1,
        TransportMode::Walk => 2,
        TransportMode::Transit => 3,
        TransportMode::Car => 4,
    }
}

/// Quantize a coordinate to hundredth-of-a-unit precision (positions
/// are in thousandths, so one quantization step is ten subunits).
pub open spec fn spec_quantize(v: int) -> int {
    tdiv(v, 10)
}

fn quantize(v: i64) -> (r: i64)
    ensures
        r as int == spec_quantize(v as int),
{
    tdiv_pos(v as i128, 10) as i64
}

/// One mapper entry: a network node of one mode.
pub open spec fn spec_mode_entries(n: Network, m: TransportMode) -> Seq<(TransportMode, usize)> {
    match n.spec_graph_of(m) {
        Some(gi) => Seq::new(n.graphs@[gi].nodes@.len(), |i: int| (m, i as usize)),
        None => Seq::empty(),
    }
}

/// All mapper entries, modes in fixed order, nodes in index order.
pub open spec fn spec_entries(n: Network) -> Seq<(TransportMode, usize)> {
    spec_mode_entries(n, TransportMode::Car) + spec_mode_entries(n, TransportMode::Bike)
        + spec_mode_entries(n, TransportMode::Walk) + spec_mode_entries(n, TransportMode::Transit)
}

/// An entry references an existing node of an existing sub-graph.
pub open spec fn spec_entry_valid(n: Network, e: (TransportMode, usize)) -> bool {
    match n.spec_graph_of(e.0) {
        Some(gi) => (e.1 as int) < n.graphs@[gi].nodes@.len(),
        None => false,
    }
}

/// The quantized position of an entry's network node.
pub open spec fn spec_entry_qpos(n: Network, e: (TransportMode, usize)) -> (int, int) {
    match n.spec_graph_of(e.0) {
        Some(gi) => if (e.1 as int) < n.graphs@[gi].nodes@.len() {
            let p = n.graphs@[gi].nodes@[e.1 as int].position;
            (spec_quantize(p.0 as int), spec_quantize(p.1 as int))
        } else {
            (0int, 0int)
        },
        None => (0int, 0int),
    }
}

/// Every mapper entry is valid.
pub proof fn lemma_entries_valid(n: Network)
    ensures
        forall|k: int|
            0 <= k < spec_entries(n).len() ==> spec_entry_valid(n, #[trigger] spec_entries(n)[k]),
{
    let car = spec_mode_entries(n, TransportMode::Car);
    let bike = spec_mode_entries(n, TransportMode::Bike);
    let walk = spec_mode_entries(n, TransportMode::Walk);
    let transit = spec_mode_entries(n, TransportMode::Transit);
    assert forall|k: int|
        0 <= k < spec_entries(n).len() implies spec_entry_valid(
        n,
        #[trigger] spec_entries(n)[k],
    ) by {
        let es = spec_entries(n);
        if k < car.len() {
            assert(es[k] == car[k]);
        } else if k < car.len() + bike.len() {
            assert(es[k] == bike[k - car.len()]);
        } else if k < car.len() + bike.len() + walk.len() {
            assert(es[k] == walk[k - car.len() - bike.len()]);
        } else {
            assert(es[k] == transit[k - car.len() - bike.len() - walk.len()]);
        }
    }
}

/// Append the entries of one mode.
fn append_mode_entries(es: &mut Vec<(TransportMode, usize)>, network: &Network, mode: TransportMode)
    ensures
        final(es)@ == old(es)@ + spec_mode_entries(*network, mode),
{
    let ghost base = es@;
    match network.find_graph(mode) {
        Some(gi) => {
            let len = network.graphs[gi].nodes.len();
            for v in 0..len
                invariant
                    network.spec_graph_of(mode) == Some(gi as int),
                    gi < network.graphs@.len(),
                    len == network.graphs@[gi as int].nodes@.len(),
                    es@ == base + spec_mode_entries(*network, mode).take(v as int),
            {
                es.push((mode, v));
                proof {
                    assert(es@ =~= base + spec_mode_entries(*network, mode).take(v + 1));
                }
            }
            proof {
                assert(es@ =~= base + spec_mode_entries(*network, mode));
            }
        },
        None => {
            proof {
                assert(es@ =~= base + spec_mode_entries(*network, mode));
            }
        },
    }
}

/// All mapper entries of a network, in order.
fn build_entries(network: &Network) -> (es: Vec<(TransportMode, usize)>)
    ensures
        es@ == spec_entries(*network),
{
    let mut es: Vec<(TransportMode, usize)> = Vec::new();
    append_mode_entries(&mut es, network, TransportMode::Car);
    append_mode_entries(&mut es, network, TransportMode::Bike);
    append_mode_entries(&mut es, network, TransportMode::Walk);
    append_mode_entries(&mut es, network, TransportMode::Transit);
    proof {
        assert(es@ =~= spec_entries(*network));
    }
    es
}

/// The quantized position of a valid entry.
fn entry_qpos(network: &Network, e: (TransportMode, usize)) -> (r: (i64, i64))
    requires
        spec_entry_valid(*network, e),
    ensures
        (r.0 as int, r.1 as int) == spec_entry_qpos(*network, e),
{
    let gi = match network.find_graph(e.0) {
        Some(gi) => gi,
        None => {
            proof {
                assert(false);
            }
            0
        },
    };
    let p = network.graphs[gi].nodes[e.1].position;
    (quantize(p.0), quantize(p.1))
}

/// The members of the group with the given quantized position: the
/// entries with that position among the first `k`, in entry order.
pub open spec fn spec_members_prefix(n: Network, key: (i64, i64), k: int) -> Seq<
    (TransportMode, usize),
>
    decreases k,
{
    if k <= 0 {
        Seq::empty()
    } else {
        let p = spec_members_prefix(n, key, k - 1);
        if spec_entry_qpos(n, spec_entries(n)[k - 1]) == (key.0 as int, key.1 as int) {
            p.push(spec_entries(n)[k - 1])
        } else {
            p
        }
    }
}

/// An entry with a group's position is among the group's members.
pub proof fn lemma_members_contain(n: Network, key: (i64, i64), k: int, count: int)
    requires
        0 <= k < count <= spec_entries(n).len(),
        spec_entry_qpos(n, spec_entries(n)[k]) == (key.0 as int, key.1 as int),
    ensures
        spec_members_prefix(n, key, count).contains(spec_entries(n)[k]),
    decreases count,
{
    if k == count - 1 {
        let p = spec_members_prefix(n, key, count - 1);
        assert(spec_members_prefix(n, key, count)[p.len() as int] == spec_entries(n)[k]);
    } else {
        lemma_members_contain(n, key, k, count - 1);
        let prev = spec_members_prefix(n, key, count - 1);
        let i = choose|i: int| 0 <= i < prev.len() && prev[i] == spec_entries(n)[k];
        assert(spec_members_prefix(n, key, count)[i] == spec_entries(n)[k]);
    }
}

/// One group of coincident network nodes: a quantized position and the
/// member entries sharing it.
#[derive(Debug)]
pub struct PositionGroup {
    pub key: (i64, i64),
    pub members: Vec<(TransportMode, usize)>,
}

/// Collect the members of one group.
fn collect_members(network: &Network, es: &Vec<(TransportMode, usize)>, key: (i64, i64)) -> (r: Vec<
    (TransportMode, usize),
>)
    requires
        es@ == spec_entries(*network),
    ensures
        r@ == spec_members_prefix(*network, key, spec_entries(*network).len() as int),
{
    proof {
        lemma_entries_valid(*network);
    }
    let mut r: Vec<(TransportMode, usize)> = Vec::new();
    let n = es.len();
    for k in 0..n
        invariant
            es@ == spec_entries(*network),
            n == es@.len(),
            r@ == spec_members_prefix(*network, key, k as int),
            forall|k2: int|
                0 <= k2 < spec_entries(*network).len() ==> spec_entry_valid(
                    *network,
                    #[trigger] spec_entries(*network)[k2],
                ),
    {
        let e = es[k];
        let q = entry_qpos(network, e);
        if q.0 == key.0 && q.1 == key.1 {
            r.push(e);
        }
    }
    r
}

/// Key `key` names the quantized position of entry `k2`.
pub open spec fn spec_key_matches(n: Network, key: (i64, i64), k2: int) -> bool {
    (key.0 as int, key.1 as int) == spec_entry_qpos(n, spec_entries(n)[k2])
}

/// Every entry before `upto` has its quantized position among `keys`.
pub open spec fn spec_keys_cover(n: Network, keys: Seq<(i64, i64)>, upto: int) -> bool {
    forall|k2: int|
        #![trigger spec_entries(n)[k2]]
        0 <= k2 < upto ==> exists|gi: int|
            0 <= gi < keys.len() && spec_key_matches(n, #[trigger] keys[gi], k2)
}

/// Every key has at least one member entry: each group's position is
/// an actual quantized entry position, so there are exactly as many
/// groups as distinct positions.
pub open spec fn spec_keys_grounded(n: Network, keys: Seq<(i64, i64)>) -> bool {
    forall|gi: int|
        0 <= gi < keys.len() ==> spec_members_prefix(
            n,
            #[trigger] keys[gi],
            spec_entries(n).len() as int,
        ).len() > 0
}

/// Pairwise distinct keys.
pub open spec fn spec_keys_distinct(keys: Seq<(i64, i64)>) -> bool {
    forall|gi: int, gj: int| 0 <= gi < gj < keys.len() ==> keys[gi] != keys[gj]
}

/// The groups' keys, in order.
pub open spec fn spec_group_keys(groups: Seq<PositionGroup>) -> Seq<(i64, i64)> {
    groups.map_values(|g: PositionGroup| g.key)
}

/// Each group holds exactly the entries at its position, in entry
/// order.
pub open spec fn spec_groups_members(n: Network, groups: Seq<PositionGroup>) -> bool {
    forall|gi: int|
        0 <= gi < groups.len() ==> (#[trigger] groups[gi]).members@ == spec_members_prefix(
            n,
            groups[gi].key,
            spec_entries(n).len() as int,
        )
}

/// Add a key if it is not there yet; keys stay pairwise distinct.
fn insert_key(keys: &mut Vec<(i64, i64)>, q: (i64, i64))
    requires
        spec_keys_distinct(old(keys)@),
    ensures
        spec_keys_distinct(final(keys)@),
        final(keys)@.contains(q),
        forall|x: (i64, i64)| old(keys)@.contains(x) ==> final(keys)@.contains(x),
        final(keys)@ == old(keys)@ || final(keys)@ == old(keys)@.push(q),
{
    let n = keys.len();
    for gi in 0..n
        invariant
            n == keys@.len(),
            keys@ == old(keys)@,
            spec_keys_distinct(keys@),
            forall|gj: int| 0 <= gj < gi ==> keys@[gj] != q,
    {
        if keys[gi].0 == q.0 && keys[gi].1 == q.1 {
            proof {
                assert(keys@[gi as int] == q);
            }
            return ;
        }
    }
    let ghost base = keys@;
    keys.push(q);
    proof {
        assert(keys@[keys@.len() - 1] == q);
        assert forall|x: (i64, i64)| base.contains(x) implies keys@.contains(x) by {
            let gi = choose|gi: int| 0 <= gi < base.len() && base[gi] == x;
            assert(keys@[gi] == x);
        }
        assert(spec_keys_distinct(keys@)) by {
            assert forall|gi: int, gj: int| 0 <= gi < gj < keys@.len() implies keys@[gi]
                != keys@[gj] by {
                if gj < keys@.len() - 1 {
                    assert(keys@[gi] == base[gi] && keys@[gj] == base[gj]);
                } else {
                    assert(keys@[gi] == base[gi] && keys@[gj] == q);
                    assert(base[gi] != q);
                }
            }
        }
    }
}

/// Group all network nodes by quantized 2-D position: each group holds
/// exactly the entries at its position in entry order, the groups carry
/// pairwise distinct positions, every entry's position appears, and
/// every group's position is some entry's. Groups appear in first-seen
/// order of the entry enumeration.
pub fn group_nodes_by_position(network: &Network) -> (r: Vec<PositionGroup>)
    ensures
        r@.len() <= spec_entries(*network).len(),
        spec_groups_members(*network, r@),
        spec_keys_distinct(spec_group_keys(r@)),
        spec_keys_cover(*network, spec_group_keys(r@), spec_entries(*network).len() as int),
        spec_keys_grounded(*network, spec_group_keys(r@)),
{
    proof {
        lemma_entries_valid(*network);
    }
    let es = build_entries(network);
    let mut keys: Vec<(i64, i64)> = Vec::new();
    let n = es.len();
    for k in 0..n
        invariant
            es@ == spec_entries(*network),
            n == es@.len(),
            forall|k2: int|
                0 <= k2 < spec_entries(*network).len() ==> spec_entry_valid(
                    *network,
                    #[trigger] spec_entries(*network)[k2],
                ),
            keys@.len() <= k,
            spec_keys_distinct(keys@),
            spec_keys_cover(*network, keys@, k as int),
            spec_keys_grounded(*network, keys@),
    {
        let e = es[k];
        let q = entry_qpos(network, e);
        let ghost old_keys = keys@;
        insert_key(&mut keys, q);
        proof {
            assert(spec_key_matches(*network, q, k as int));
            assert(spec_keys_cover(*network, keys@, k as int + 1)) by {
                assert forall|k2: int|
                    #![trigger spec_entries(*network)[k2]]
                    0 <= k2 < k as int + 1 implies exists|gi: int|
                    0 <= gi < keys@.len() && spec_key_matches(
                        *network,
                        #[trigger] keys@[gi],
                        k2,
                    ) by {
                    if k2 < k {
                        assert(spec_keys_cover(*network, old_keys, k as int));
                        let gi = choose|gi: int|
                            0 <= gi < old_keys.len() && spec_key_matches(
                                *network,
                                old_keys[gi],
                                k2,
                            );
                        assert(old_keys.contains(old_keys[gi]));
                        let gn = choose|gn: int| 0 <= gn < keys@.len() && keys@[gn] == old_keys[gi];
                        assert(spec_key_matches(*network, keys@[gn], k2));
                    } else {
                        let gn = choose|gn: int| 0 <= gn < keys@.len() && keys@[gn] == q;
                        assert(spec_key_matches(*network, keys@[gn], k as int));
                    }
                }
            }
            assert(spec_keys_grounded(*network, keys@)) by {
                assert forall|gi: int|
                    0 <= gi < keys@.len() implies spec_members_prefix(
                    *network,
                    #[trigger] keys@[gi],
                    spec_entries(*network).len() as int,
                ).len() > 0 by {
                    if keys@ == old_keys || gi < old_keys.len() {
                        assert(keys@[gi] == old_keys[gi]);
                    } else {
                        assert(keys@ == old_keys.push(q));
                        assert(keys@[gi] == q);
                        lemma_members_contain(
                            *network,
                            q,
                            k as int,
                            spec_entries(*network).len() as int,
                        );
                        let ms = spec_members_prefix(
                            *network,
                            q,
                            spec_entries(*network).len() as int,
                        );
                        let mi = choose|mi: int|
                            0 <= mi < ms.len() && ms[mi] == spec_entries(*network)[k as int];
                        assert(ms.len() > 0);
                    }
                }
            }
        }
    }
    let mut r: Vec<PositionGroup> = Vec::new();
    let nk = keys.len();
    for gi in 0..nk
        invariant
            es@ == spec_entries(*network),
            nk == keys@.len(),
            keys@.len() <= spec_entries(*network).len(),
            r@.len() == gi,
            spec_keys_distinct(keys@),
            spec_keys_cover(*network, keys@, spec_entries(*network).len() as int),
            spec_keys_grounded(*network, keys@),
            forall|gj: int| 0 <= gj < r@.len() ==> (#[trigger] r@[gj]).key == keys@[gj],
            spec_groups_members(*network, r@),
    {
        let key = keys[gi];
        let members = collect_members(network, &es, key);
        let ghost old_r = r@;
        r.push(PositionGroup { key, members });
        proof {
            assert(spec_groups_members(*network, r@)) by {
                assert forall|gj: int|
                    0 <= gj < r@.len() implies (#[trigger] r@[gj]).members@ == spec_members_prefix(
                    *network,
                    r@[gj].key,
                    spec_entries(*network).len() as int,
                ) by {
                    if gj < r@.len() - 1 {
                        assert(r@[gj] == old_r[gj]);
                    }
                }
            }
        }
    }
    proof {
        let gks = spec_group_keys(r@);
        assert(gks.len() == keys@.len());
        assert(forall|gi: int| 0 <= gi < gks.len() ==> gks[gi] == keys@[gi]);
        assert(gks =~= keys@);
    }
    r
}

/// The members of a group never outnumber the entries.
pub proof fn lemma_members_len(n: Network, key: (i64, i64), k: int)
    requires
        k >= 0,
    ensures
        spec_members_prefix(n, key, k).len() <= k,
    decreases k,
{
    if k > 0 {
        lemma_members_len(n, key, k - 1);
    }
}

/// Sum of the member positions of a group.
pub open spec fn spec_sum_positions(n: Network, ms: Seq<(TransportMode, usize)>) -> (int, int)
    decreases ms.len(),
{
    if ms.len() == 0 {
        (0int, 0int)
    } else {
        let p = spec_sum_positions(n, ms.drop_last());
        let e = ms.last();
        match n.spec_graph_of(e.0) {
            Some(gi) => if (e.1 as int) < n.graphs@[gi].nodes@.len() {
                let q = n.graphs@[gi].nodes@[e.1 as int].position;
                (p.0 + q.0, p.1 + q.1)
            } else {
                p
            },
            None => p,
        }
    }
}

/// The average position of a group's members (the origin for an empty
/// group), truncated toward zero and clamped into the stored range.
pub open spec fn spec_average_position(n: Network, ms: Seq<(TransportMode, usize)>) -> (int, int) {
    if ms.len() == 0 {
        (0int, 0int)
    } else {
        let s = spec_sum_positions(n, ms);
        (fit(tdiv(s.0, ms.len() as int)), fit(tdiv(s.1, ms.len() as int)))
    }
}

/// Average position of all nodes of one group.
pub fn calculate_average_position(network: &Network, mode_nodes: &Vec<(TransportMode, usize)>) -> (r: (
    i64,
    i64,
))
    requires
        network.wf(),
        forall|mi: int|
            0 <= mi < mode_nodes@.len() ==> spec_entry_valid(*network, #[trigger] mode_nodes@[mi]),
        mode_nodes@.len() <= 0x4000_0000,
    ensures
        (r.0 as int, r.1 as int) == spec_average_position(*network, mode_nodes@),
{
    let len = mode_nodes.len();
    if len == 0 {
        return (0, 0);
    }
    let mut sx: i128 = 0;
    let mut sy: i128 = 0;
    for mi in 0..len
        invariant
            network.wf(),
            len == mode_nodes@.len(),
            len <= 0x4000_0000,
            forall|mj: int|
                0 <= mj < mode_nodes@.len() ==> spec_entry_valid(
                    *network,
                    #[trigger] mode_nodes@[mj],
                ),
            (sx as int, sy as int) == spec_sum_positions(*network, mode_nodes@.take(mi as int)),
            -((mi as int) * 0x8000_0000_0000_0000) <= sx as int <= (mi as int)
                * 0x8000_0000_0000_0000,
            -((mi as int) * 0x8000_0000_0000_0000) <= sy as int <= (mi as int)
                * 0x8000_0000_0000_0000,
    {
        let e = mode_nodes[mi];
        let gi = match network.find_graph(e.0) {
            Some(gi) => gi,
            None => {
                proof {
                    assert(false);
                }
                0
            },
        };
        let p = network.graphs[gi].nodes[e.1].position;
        sx = sx + p.0 as i128;
        sy = sy + p.1 as i128;
        proof {
            assert(mode_nodes@.take(mi + 1).drop_last() =~= mode_nodes@.take(mi as int));
            assert(mode_nodes@.take(mi + 1).last() == mode_nodes@[mi as int]);
        }
    }
    proof {
        assert(mode_nodes@.take(len as int) =~= mode_nodes@);
    }
    let ax = clamp_fx(tdiv_pos(sx, len as i128));
    let ay = clamp_fx(tdiv_pos(sy, len as i128));
    (ax, ay)
}

/// The vertical offset of layer `idx` of `count` stacked mode layers:
/// a single layer sits at the pillar's center, several spread evenly
/// between margins near the pillar's bottom and top.
pub open spec fn spec_layer_y_offset(idx: int, count: int) -> int {
    if count <= 1 {
        0
    } else {
        -400 + idx * tdiv(800, count - 1)
    }
}

/// The vertical offset of one mode layer within its pillar.
pub fn calculate_layer_y_offset(layer_idx: usize, layer_count: usize) -> (r: i64)
    requires
        layer_idx < layer_count,
    ensures
        r as int == spec_layer_y_offset(layer_idx as int, layer_count as int),
        -400 <= r <= 400,
{
    if layer_count <= 1 {
        return 0;
    }
    let spacing: usize = 800 / (layer_count - 1);
    proof {
        lemma_fundamental_div_mod(800, layer_count as int - 1);
        assert((layer_idx as int) * (spacing as int) <= (layer_count as int - 1) * (
        spacing as int)) by (nonlinear_arith)
            requires
                0 <= layer_idx as int <= layer_count as int - 1,
                spacing >= 0,
        ;
        assert(0 <= (layer_idx as int) * (spacing as int)) by (nonlinear_arith)
            requires
                layer_idx >= 0,
                spacing >= 0,
        ;
    }
    let off: i64 = -400 + ((layer_idx as i128) * (spacing as i128)) as i64;
    off
}

/// Extract the translation of a world matrix: a node's world position.
pub fn extract_position_from_matrix(matrix: &Mat4) -> (r: Vec3)
    ensures
        r == Mat4::spec_translation(*matrix),
{
    matrix.translation()
}

/// The transform of an edge node spanning two world positions: a unit
/// segment moved to the midpoint, turned by the horizontal yaw of the
/// direction, and stretched along X to the endpoints' distance.
pub open spec fn spec_edge_transform(from: Vec3, to: Vec3) -> Transform {
    Transform {
        position: Vec3 {
            x: fit(tdiv(from.x + to.x, 2)) as i64,
            y: fit(tdiv(from.y + to.y, 2)) as i64,
            z: fit(tdiv(from.z + to.z, 2)) as i64,
        },
        rotation: Quat::spec_yaw_from_direction(
            fx_sub(to.x as int, from.x as int),
            fx_sub(to.z as int, from.z as int),
        ),
        scale: Vec3 {
            x: spec_planar_length(
                fx_sub(to.x as int, from.x as int),
                fx_sub(to.z as int, from.z as int),
            ) as i64,
            y: SCALE,
            z: SCALE,
        },
    }
}

/// Midpoint of two stored scalars, truncated toward zero.
fn avg2(a: i64, b: i64) -> (r: i64)
    ensures
        r as int == fit(tdiv(a as int + b as int, 2)),
{
    clamp_fx(tdiv_pos(a as i128 + b as i128, 2))
}

/// Build the transform of an edge node from its endpoints' world
/// positions.
pub fn edge_transform_from_positions(from: Vec3, to: Vec3) -> (r: Transform)
    ensures
        r == spec_edge_transform(from, to),
        r.wf(),
{
    let midpoint = Vec3 { x: avg2(from.x, to.x), y: avg2(from.y, to.y), z: avg2(from.z, to.z) };
    let dx = sub_fx(to.x, from.x);
    let dz = sub_fx(to.z, from.z);
    let rotation = Quat::yaw_from_direction(dx, dz);
    let length = planar_length(dx, dz);
    Transform { position: midpoint, rotation, scale: Vec3 { x: length, y: SCALE, z: SCALE } }
}

/// Where one mode's entries begin in the entry enumeration.
pub open spec fn spec_mode_node_offset(n: Network, m: TransportMode) -> int {
    match m {
        TransportMode::Car => 0,
        TransportMode::Bike => n.spec_mode_nodes_len(TransportMode::Car),
        TransportMode::Walk => n.spec_mode_nodes_len(TransportMode::Car) + n.spec_mode_nodes_len(
            TransportMode::Bike,
        ),
        TransportMode::Transit => n.spec_mode_nodes_len(TransportMode::Car)
            + n.spec_mode_nodes_len(TransportMode::Bike) + n.spec_mode_nodes_len(
            TransportMode::Walk,
        ),
    }
}

/// Where one mode's edges begin among the scene's edge nodes.
pub open spec fn spec_mode_edge_offset(n: Network, m: TransportMode) -> int {
    match m {
        TransportMode::Car => 0,
        TransportMode::Bike => n.spec_mode_edges_len(TransportMode::Car),
        TransportMode::Walk => n.spec_mode_edges_len(TransportMode::Car) + n.spec_mode_edges_len(
            TransportMode::Bike,
        ),
        TransportMode::Transit => n.spec_mode_edges_len(TransportMode::Car)
            + n.spec_mode_edges_len(TransportMode::Bike) + n.spec_mode_edges_len(
            TransportMode::Walk,
        ),
    }
}

/// How many edge nodes a network produces.
pub open spec fn spec_total_edges(n: Network) -> int {
    n.spec_mode_edges_len(TransportMode::Car) + n.spec_mode_edges_len(TransportMode::Bike)
        + n.spec_mode_edges_len(TransportMode::Walk) + n.spec_mode_edges_len(TransportMode::Transit)
}

/// The entry enumeration is the four mode blocks in order: an entry's
/// index is its mode's offset plus its node index.
pub proof fn lemma_entry_at(n: Network, m: TransportMode, v: int)
    requires
        0 <= v < n.spec_mode_nodes_len(m),
    ensures
        spec_entries(n).len() == n.spec_mode_nodes_len(TransportMode::Car)
            + n.spec_mode_nodes_len(TransportMode::Bike) + n.spec_mode_nodes_len(
            TransportMode::Walk,
        ) + n.spec_mode_nodes_len(TransportMode::Transit),
        0 <= spec_mode_node_offset(n, m) + v < spec_entries(n).len(),
        spec_entries(n)[spec_mode_node_offset(n, m) + v] == (m, v as usize),
{
    let car = spec_mode_entries(n, TransportMode::Car);
    let bike = spec_mode_entries(n, TransportMode::Bike);
    let walk = spec_mode_entries(n, TransportMode::Walk);
    let transit = spec_mode_entries(n, TransportMode::Transit);
    let k = spec_mode_node_offset(n, m) + v;
    match m {
        TransportMode::Car => {
            assert(spec_entries(n)[k] == car[v]);
        },
        TransportMode::Bike => {
            assert(spec_entries(n)[k] == bike[v]);
        },
        TransportMode::Walk => {
            assert(spec_entries(n)[k] == walk[v]);
        },
        TransportMode::Transit => {
            assert(spec_entries(n)[k] == transit[v]);
        },
    }
}

/// In a well-formed network the entry enumeration is small.
pub proof fn lemma_entries_len_bound(n: Network)
    requires
        n.wf(),
    ensures
        spec_entries(n).len() <= 0x2000_0000,
        0 <= spec_total_edges(n) <= 0x2000_0000,
        forall|m: TransportMode|
            0 <= #[trigger] spec_mode_node_offset(n, m) && spec_mode_node_offset(n, m)
                + n.spec_mode_nodes_len(m) <= spec_entries(n).len(),
        forall|m: TransportMode|
            0 <= #[trigger] spec_mode_edge_offset(n, m) && spec_mode_edge_offset(n, m)
                + n.spec_mode_edges_len(m) <= spec_total_edges(n),
        forall|m: TransportMode| 0 <= #[trigger] n.spec_mode_nodes_len(m) <= 0x800_0000,
        forall|m: TransportMode| 0 <= #[trigger] n.spec_mode_edges_len(m) <= 0x800_0000,
{
    assert forall|m: TransportMode| 0 <= #[trigger] n.spec_mode_nodes_len(m) <= 0x800_0000 by {
        lemma_graph_of_bounds(n, m);
    }
    assert forall|m: TransportMode| 0 <= #[trigger] n.spec_mode_edges_len(m) <= 0x800_0000 by {
        lemma_graph_of_bounds(n, m);
    }
    assert(spec_entries(n).len() == n.spec_mode_nodes_len(TransportMode::Car)
        + n.spec_mode_nodes_len(TransportMode::Bike) + n.spec_mode_nodes_len(TransportMode::Walk)
        + n.spec_mode_nodes_len(TransportMode::Transit));
    assert forall|m: TransportMode|
        0 <= #[trigger] spec_mode_node_offset(n, m) && spec_mode_node_offset(n, m)
            + n.spec_mode_nodes_len(m) <= spec_entries(n).len() by {
        match m {
            TransportMode::Car => {},
            TransportMode::Bike => {},
            TransportMode::Walk => {},
            TransportMode::Transit => {},
        }
    }
    assert forall|m: TransportMode|
        0 <= #[trigger] spec_mode_edge_offset(n, m) && spec_mode_edge_offset(n, m)
            + n.spec_mode_edges_len(m) <= spec_total_edges(n) by {
        match m {
            TransportMode::Car => {},
            TransportMode::Bike => {},
            TransportMode::Walk => {},
            TransportMode::Transit => {},
        }
    }
}

/// A sub-graph's `Some` result is in bounds.
pub proof fn lemma_graph_of_bounds(n: Network, m: TransportMode)
    ensures
        match n.spec_graph_of(m) {
            Some(gi) => 0 <= gi < n.graphs@.len() && n.graphs@[gi].mode == m,
            None => true,
        },
{
    lemma_find_graph_bounds(n.graphs@, m, 0);
}

proof fn lemma_find_graph_bounds(gs: Seq<crate::network::ModeGraph>, m: TransportMode, i: int)
    requires
        0 <= i,
    ensures
        match crate::network::spec_find_graph(gs, m, i) {
            Some(gi) => i <= gi < gs.len() && gs[gi].mode == m,
            None => true,
        },
    decreases gs.len() - i,
{
    if i < gs.len() && gs[i].mode != m {
        lemma_find_graph_bounds(gs, m, i + 1);
    }
}

/// The members of a group are valid entries.
pub proof fn lemma_members_valid(n: Network, key: (i64, i64), k: int)
    requires
        k <= spec_entries(n).len(),
    ensures
        forall|mi: int|
            0 <= mi < spec_members_prefix(n, key, k).len() ==> spec_entry_valid(
                n,
                #[trigger] spec_members_prefix(n, key, k)[mi],
            ),
    decreases k,
{
    lemma_entries_valid(n);
    if k > 0 {
        lemma_members_valid(n, key, k - 1);
        let prev = spec_members_prefix(n, key, k - 1);
        let cur = spec_members_prefix(n, key, k);
        if cur.len() > prev.len() {
            assert(cur[cur.len() - 1] == spec_entries(n)[k - 1]);
        }
    }
}

/// A pillar node: the selectable root representing one location.
pub open spec fn spec_pillar_ok(node: SceneNode) -> bool {
    &&& node.parent_id is None
    &&& node.selectable
    &&& node.mesh_id == 0
    &&& node.material_id == 0
    &&& node.transform.rotation == Quat::spec_identity()
    &&& node.transform.scale == (Vec3 { x: 500i64, y: 1000i64, z: 500i64 })
    &&& node.transform.position.y == 0
    &&& node.wf()
}

/// A mode-layer child node of entry `k`, hung under a pillar.
pub open spec fn spec_child_ok(n: Network, node: SceneNode, k: int, ng: int) -> bool {
    &&& match node.parent_id {
        Some(p) => (p as int) < ng,
        None => false,
    }
    &&& !node.selectable
    &&& node.mesh_id == 0
    &&& node.material_id == spec_mode_material_id(spec_entries(n)[k].0)
    &&& node.transform.rotation == Quat::spec_identity()
    &&& node.transform.scale == (Vec3 { x: 150i64, y: 150i64, z: 150i64 })
    &&& node.transform.position.x == 0
    &&& node.transform.position.z == 0
    &&& -400 <= node.transform.position.y <= 400
    &&& node.wf()
}

/// The position of a group's pillar: the truncated average of its
/// members' positions, on the ground (`y == 0`).
pub open spec fn spec_pillar_position(n: Network, key: (i64, i64)) -> Vec3 {
    let avg = spec_average_position(n, spec_members_prefix(n, key, spec_entries(n).len() as int));
    Vec3 { x: avg.0 as i64, y: 0i64, z: avg.1 as i64 }
}

/// A child node hangs under the pillar whose key is its entry's
/// quantized position, vertically offset by its layer: its place among
/// the group's members (which follow the fixed mode order).
pub open spec fn spec_child_linked(
    n: Network,
    node: SceneNode,
    keys: Seq<(i64, i64)>,
    k: int,
) -> bool {
    match node.parent_id {
        Some(p) => {
            &&& (p as int) < keys.len()
            &&& spec_key_matches(n, keys[p as int], k)
            &&& ({
                let ms = spec_members_prefix(n, keys[p as int], spec_entries(n).len() as int);
                exists|mi: int|
                    0 <= mi < ms.len() && #[trigger] ms[mi] == spec_entries(n)[k]
                        && node.transform.position.y == spec_layer_y_offset(mi, ms.len() as int)
            })
        },
        None => false,
    }
}

/// The scene data of edge `e` of mode `m`: the edge node and its
/// endpoint record, with the transform spanning the endpoints' world
/// positions resolved over `base`.
pub open spec fn spec_edge_ok(
    n: Network,
    base: Seq<SceneNode>,
    node: SceneNode,
    eref: Option<(u32, u32)>,
    m: TransportMode,
    e: int,
    ng: int,
) -> bool {
    match n.spec_graph_of(m) {
        Some(gi) => {
            let ed = n.graphs@[gi].edges@[e];
            let f = ng + spec_mode_node_offset(n, m) + ed.from_node;
            let t = ng + spec_mode_node_offset(n, m) + ed.to_node;
            &&& eref == Some((f as u32, t as u32))
            &&& node.mesh_id == 1
            &&& node.material_id == spec_mode_material_id(m)
            &&& !node.selectable
            &&& node.parent_id is None
            &&& node.transform == spec_edge_transform(
                spec_world_position(base, f),
                spec_world_position(base, t),
            )
            &&& node.wf()
        },
        None => false,
    }
}

/// `spec_edge_ok` only reads the world positions of the endpoints, so
/// it carries over to any extension of the base array.
pub proof fn lemma_edge_ok_stable(
    n: Network,
    a: Seq<SceneNode>,
    b: Seq<SceneNode>,
    node: SceneNode,
    eref: Option<(u32, u32)>,
    m: TransportMode,
    e: int,
    ng: int,
)
    requires
        spec_edge_ok(n, a, node, eref, m, e, ng),
        a.len() <= b.len(),
        forall|j: int| 0 <= j < a.len() ==> a[j] == b[j],
        match n.spec_graph_of(m) {
            Some(gi) => {
                let ed = n.graphs@[gi].edges@[e];
                &&& 0 <= ng + spec_mode_node_offset(n, m) + ed.from_node < a.len()
                &&& 0 <= ng + spec_mode_node_offset(n, m) + ed.to_node < a.len()
            },
            None => true,
        },
    ensures
        spec_edge_ok(n, b, node, eref, m, e, ng),
{
    let gi = n.spec_graph_of(m).unwrap();
    let ed = n.graphs@[gi].edges@[e];
    let f = ng + spec_mode_node_offset(n, m) + ed.from_node;
    let t = ng + spec_mode_node_offset(n, m) + ed.to_node;
    crate::scene::lemma_world_mat_prefix(a, b, f);
    crate::scene::lemma_world_mat_prefix(a, b, t);
}

/// The pillar whose position is `q`.
fn find_group(groups: &Vec<PositionGroup>, q: (i64, i64)) -> (r: usize)
    requires
        exists|gj: int| 0 <= gj < groups@.len() && (#[trigger] groups@[gj]).key == q,
    ensures
        r < groups@.len(),
        groups@[r as int].key == q,
{
    let n = groups.len();
    for gi in 0..n
        invariant
            n == groups@.len(),
            exists|gj: int| 0 <= gj < groups@.len() && (#[trigger] groups@[gj]).key == q,
            forall|gj: int| 0 <= gj < gi ==> (#[trigger] groups@[gj]).key != q,
    {
        let k = groups[gi].key;
        if k.0 == q.0 && k.1 == q.1 {
            proof {
                assert(groups@[gi as int].key == q);
            }
            return gi;
        }
    }
    proof {
        assert(false);
    }
    0
}

/// The position of one entry within a member list.
fn find_member(members: &Vec<(TransportMode, usize)>, e: (TransportMode, usize)) -> (r: usize)
    requires
        exists|mi: int| 0 <= mi < members@.len() && members@[mi] == e,
    ensures
        r < members@.len(),
        members@[r as int] == e,
{
    let n = members.len();
    for mi in 0..n
        invariant
            n == members@.len(),
            exists|mj: int| 0 <= mj < members@.len() && members@[mj] == e,
            forall|mj: int| 0 <= mj < mi ==> members@[mj] != e,
    {
        let c = members[mi];
        if c.0 == e.0 && c.1 == e.1 {
            proof {
                assert(members@[mi as int] == e);
            }
            return mi;
        }
    }
    proof {
        assert(false);
    }
    0
}

/// One pushed edge node satisfies `spec_edge_ok` over the base array:
/// the world positions resolved over the extended array agree with
/// those over the base.
proof fn lemma_append_step(
    n: Network,
    base: Seq<SceneNode>,
    pre: Seq<SceneNode>,
    node: SceneNode,
    mode: TransportMode,
    gi: int,
    e: int,
    ng: int,
    node_off: int,
    from_id: u32,
    to_id: u32,
)
    requires
        n.spec_graph_of(mode) == Some(gi),
        0 <= gi < n.graphs@.len(),
        0 <= e < n.graphs@[gi].edges@.len(),
        node_off == spec_mode_node_offset(n, mode),
        from_id as int == ng + node_off + n.graphs@[gi].edges@[e].from_node,
        to_id as int == ng + node_off + n.graphs@[gi].edges@[e].to_node,
        0 <= (from_id as int) < base.len(),
        0 <= (to_id as int) < base.len(),
        base.len() <= pre.len(),
        forall|j: int| 0 <= j < base.len() ==> base[j] == pre[j],
        node == (SceneNode {
            mesh_id: 1usize,
            material_id: spec_mode_material_id(mode),
            transform: spec_edge_transform(
                spec_world_position(pre, from_id as int),
                spec_world_position(pre, to_id as int),
            ),
            selectable: false,
            parent_id: None,
        }),
        node.wf(),
    ensures
        spec_edge_ok(n, base, node, Some((from_id, to_id)), mode, e, ng),
{
    crate::scene::lemma_world_mat_prefix(base, pre, from_id as int);
    crate::scene::lemma_world_mat_prefix(base, pre, to_id as int);
}

/// How many nodes one mode's sub-graph has.
fn mode_nodes_len(network: &Network, mode: TransportMode) -> (r: usize)
    ensures
        r as int == network.spec_mode_nodes_len(mode),
{
    proof {
        lemma_graph_of_bounds(*network, mode);
    }
    match network.find_graph(mode) {
        Some(gi) => network.graphs[gi].nodes.len(),
        None => 0,
    }
}

/// Append one edge node spanning the world positions of two existing
/// nodes, and record the endpoint pair.
fn push_edge_node(scene: &mut Scene, from_id: u32, to_id: u32, material_id: usize)
    requires
        old(scene).wf(),
        old(scene).meshes@.len() >= 2,
        material_id < old(scene).materials@.len(),
        (from_id as int) < old(scene).nodes@.len(),
        (to_id as int) < old(scene).nodes@.len(),
        old(scene).edge_node_refs@.len() == old(scene).nodes@.len(),
        old(scene).nodes@.len() + 1 < 0x1_0000_0000,
    ensures
        final(scene).wf(),
        final(scene).meshes@ == old(scene).meshes@,
        final(scene).materials@ == old(scene).materials@,
        final(scene).picking == old(scene).picking,
        final(scene).nodes@ == old(scene).nodes@.push(
            SceneNode {
                mesh_id: 1usize,
                material_id: material_id,
                transform: spec_edge_transform(
                    spec_world_position(old(scene).nodes@, from_id as int),
                    spec_world_position(old(scene).nodes@, to_id as int),
                ),
                selectable: false,
                parent_id: None,
            },
        ),
        final(scene).edge_node_refs@ == old(scene).edge_node_refs@.push(Some((from_id, to_id))),
        final(scene).nodes@[old(scene).nodes@.len() as int].wf(),
{
    let fw = scene.compute_world_transform(from_id);
    let tw = scene.compute_world_transform(to_id);
    let fp = extract_position_from_matrix(&fw);
    let tp = extract_position_from_matrix(&tw);
    let t = edge_transform_from_positions(fp, tp);
    scene.nodes.push(SceneNode::new(1, material_id, t, false));
    scene.edge_node_refs.push(Some((from_id, to_id)));
}

/// Append the edge nodes of one mode: one non-selectable unit segment
/// per network edge, spanning the endpoints' resolved world positions,
/// with the endpoint pair recorded in `edge_node_refs`.
#[verifier::rlimit(100)]
#[verifier::spinoff_prover]
fn append_mode_edges(scene: &mut Scene, network: &Network, mode: TransportMode, ng: usize, ne: usize)
    requires
        network.wf(),
        old(scene).wf(),
        old(scene).meshes@.len() >= 2,
        old(scene).materials@.len() == 5,
        old(scene).edge_node_refs@.len() == old(scene).nodes@.len(),
        ng + ne <= old(scene).nodes@.len(),
        ne == spec_entries(*network).len(),
        old(scene).nodes@.len() + spec_total_edges(*network) <= 0x8000_0000,
    ensures
        final(scene).wf(),
        final(scene).meshes@ == old(scene).meshes@,
        final(scene).materials@ == old(scene).materials@,
        final(scene).picking == old(scene).picking,
        final(scene).nodes@.len() == old(scene).nodes@.len() + network.spec_mode_edges_len(mode),
        final(scene).edge_node_refs@.len() == final(scene).nodes@.len(),
        forall|i: int|
            0 <= i < old(scene).nodes@.len() ==> (#[trigger] final(scene).nodes@[i]) == old(
                scene,
            ).nodes@[i] && final(scene).edge_node_refs@[i] == old(scene).edge_node_refs@[i],
        forall|e: int|
            0 <= e < network.spec_mode_edges_len(mode) ==> #[trigger] spec_edge_ok(
                *network,
                old(scene).nodes@,
                final(scene).nodes@[old(scene).nodes@.len() + e],
                final(scene).edge_node_refs@[old(scene).nodes@.len() + e],
                mode,
                e,
                ng as int,
            ),
{
    proof {
        lemma_entries_len_bound(*network);
        lemma_graph_of_bounds(*network, mode);
    }
    let l_car = mode_nodes_len(network, TransportMode::Car);
    let l_bike = mode_nodes_len(network, TransportMode::Bike);
    let l_walk = mode_nodes_len(network, TransportMode::Walk);
    let node_off: usize = match mode {
        TransportMode::Car => 0,
        TransportMode::Bike => l_car,
        TransportMode::Walk => l_car + l_bike,
        TransportMode::Transit => l_car + l_bike + l_walk,
    };
    let gi = match network.find_graph(mode) {
        Some(gi) => gi,
        None => {
            return ;
        },
    };
    let mid = mode_material_id(mode);
    let ecount = network.graphs[gi].edges.len();
    let base_len = scene.nodes.len();
    for e in 0..ecount
        invariant
            network.wf(),
            network.spec_graph_of(mode) == Some(gi as int),
            gi < network.graphs@.len(),
            ecount == network.graphs@[gi as int].edges@.len(),
            ecount == network.spec_mode_edges_len(mode),
            mid == spec_mode_material_id(mode),
            node_off as int == spec_mode_node_offset(*network, mode),
            node_off + network.graphs@[gi as int].nodes@.len() <= ne,
            ne == spec_entries(*network).len(),
            ng + ne <= base_len,
            base_len == old(scene).nodes@.len(),
            base_len == old(scene).edge_node_refs@.len(),
            base_len + spec_total_edges(*network) <= 0x8000_0000,
            ecount <= spec_total_edges(*network),
            scene.wf(),
            scene.meshes@ == old(scene).meshes@,
            scene.meshes@.len() >= 2,
            scene.materials@ == old(scene).materials@,
            scene.materials@.len() == 5,
            scene.picking == old(scene).picking,
            scene.nodes@.len() == base_len + e,
            scene.edge_node_refs@.len() == scene.nodes@.len(),
            forall|i: int|
                0 <= i < base_len ==> (#[trigger] scene.nodes@[i]) == old(scene).nodes@[i]
                    && scene.edge_node_refs@[i] == old(scene).edge_node_refs@[i],
            forall|e2: int|
                0 <= e2 < e ==> #[trigger] spec_edge_ok(
                    *network,
                    old(scene).nodes@,
                    scene.nodes@[base_len + e2],
                    scene.edge_node_refs@[base_len + e2],
                    mode,
                    e2,
                    ng as int,
                ),
    {
        let ghost pre = scene.nodes@;
        proof {
            assert(network.graphs@[gi as int].edges_wf());
        }
        let from_node = network.graphs[gi].edges[e].from_node;
        let to_node = network.graphs[gi].edges[e].to_node;
        let from_id = (ng + node_off + from_node) as u32;
        let to_id = (ng + node_off + to_node) as u32;
        push_edge_node(scene, from_id, to_id, mid);
        proof {
            lemma_append_step(
                *network,
                old(scene).nodes@,
                pre,
                scene.nodes@[base_len + e],
                mode,
                gi as int,
                e as int,
                ng as int,
                node_off as int,
                from_id,
                to_id,
            );
        }
    }
}

/// Append one selectable pillar per group, at the group's average
/// position, on the ground (`y == 0`).
fn build_pillars(scene: &mut Scene, network: &Network, groups: &Vec<PositionGroup>)
    requires
        network.wf(),
        spec_groups_members(*network, groups@),
        groups@.len() <= spec_entries(*network).len(),
        old(scene).wf(),
        old(scene).meshes@.len() >= 2,
        old(scene).materials@.len() == 5,
        old(scene).nodes@.len() == 0,
        old(scene).edge_node_refs@.len() == 0,
    ensures
        final(scene).wf(),
        final(scene).meshes@ == old(scene).meshes@,
        final(scene).materials@ == old(scene).materials@,
        final(scene).picking == old(scene).picking,
        final(scene).edge_node_refs@.len() == 0,
        final(scene).nodes@.len() == groups@.len(),
        forall|i: int| 0 <= i < groups@.len() ==> spec_pillar_ok(#[trigger] final(scene).nodes@[i]),
        forall|gi: int|
            0 <= gi < groups@.len() ==> (#[trigger] final(scene).nodes@[gi]).transform.position
                == spec_pillar_position(*network, spec_group_keys(groups@)[gi]),
{
    proof {
        lemma_entries_len_bound(*network);
    }
    let ng = groups.len();
    for gi in 0..ng
        invariant
            network.wf(),
            ng == groups@.len(),
            ng <= spec_entries(*network).len(),
            spec_entries(*network).len() <= 0x2000_0000,
            spec_groups_members(*network, groups@),
            scene.wf(),
            scene.meshes@ == old(scene).meshes@,
            scene.meshes@.len() >= 2,
            scene.materials@ == old(scene).materials@,
            scene.materials@.len() == 5,
            scene.picking == old(scene).picking,
            scene.edge_node_refs@.len() == 0,
            scene.nodes@.len() == gi,
            forall|i: int| 0 <= i < gi ==> spec_pillar_ok(#[trigger] scene.nodes@[i]),
            forall|gj: int|
                0 <= gj < gi ==> (#[trigger] scene.nodes@[gj]).transform.position
                    == spec_pillar_position(*network, spec_group_keys(groups@)[gj]),
    {
        proof {
            assert(spec_group_keys(groups@)[gi as int] == groups@[gi as int].key);
            lemma_entries_valid(*network);
            lemma_members_valid(
                *network,
                groups@[gi as int].key,
                spec_entries(*network).len() as int,
            );
            lemma_members_len(
                *network,
                groups@[gi as int].key,
                spec_entries(*network).len() as int,
            );
        }
        let g = &groups[gi];
        let avg = calculate_average_position(network, &g.members);
        scene.nodes.push(
            SceneNode::new(
                0,
                0,
                Transform::new(
                    Vec3 { x: avg.0, y: 0, z: avg.1 },
                    Quat::identity(),
                    Vec3 { x: 500, y: 1000, z: 500 },
                ),
                true,
            ),
        );
    }
}

/// Append one non-selectable mode-layer child per entry, hung under its
/// group's pillar and offset vertically by its layer.
fn build_children(
    scene: &mut Scene,
    network: &Network,
    groups: &Vec<PositionGroup>,
    es: &Vec<(TransportMode, usize)>,
)
    requires
        network.wf(),
        es@ == spec_entries(*network),
        spec_groups_members(*network, groups@),
        spec_keys_cover(*network, spec_group_keys(groups@), spec_entries(*network).len() as int),
        groups@.len() <= spec_entries(*network).len(),
        old(scene).wf(),
        old(scene).meshes@.len() >= 2,
        old(scene).materials@.len() == 5,
        old(scene).nodes@.len() == groups@.len(),
        old(scene).edge_node_refs@.len() == 0,
        forall|i: int|
            0 <= i < groups@.len() ==> spec_pillar_ok(#[trigger] old(scene).nodes@[i]),
    ensures
        final(scene).wf(),
        final(scene).meshes@ == old(scene).meshes@,
        final(scene).materials@ == old(scene).materials@,
        final(scene).picking == old(scene).picking,
        final(scene).edge_node_refs@.len() == 0,
        final(scene).nodes@.len() == groups@.len() + spec_entries(*network).len(),
        forall|i: int|
            0 <= i < groups@.len() ==> (#[trigger] final(scene).nodes@[i]) == old(scene).nodes@[i],
        forall|k: int|
            0 <= k < spec_entries(*network).len() ==> spec_child_ok(
                *network,
                #[trigger] final(scene).nodes@[groups@.len() + k],
                k,
                groups@.len() as int,
            ),
        forall|k: int|
            0 <= k < spec_entries(*network).len() ==> spec_child_linked(
                *network,
                #[trigger] final(scene).nodes@[groups@.len() + k],
                spec_group_keys(groups@),
                k,
            ),
{
    proof {
        lemma_entries_valid(*network);
        lemma_entries_len_bound(*network);
    }
    let ng = groups.len();
    let ne = es.len();
    for k in 0..ne
        invariant
            network.wf(),
            ng == groups@.len(),
            ng <= spec_entries(*network).len(),
            spec_entries(*network).len() <= 0x2000_0000,
            es@ == spec_entries(*network),
            ne == es@.len(),
            spec_groups_members(*network, groups@),
            spec_keys_cover(
                *network,
                spec_group_keys(groups@),
                spec_entries(*network).len() as int,
            ),
            forall|k2: int|
                0 <= k2 < spec_entries(*network).len() ==> spec_entry_valid(
                    *network,
                    #[trigger] spec_entries(*network)[k2],
                ),
            scene.wf(),
            scene.meshes@ == old(scene).meshes@,
            scene.meshes@.len() >= 2,
            scene.materials@ == old(scene).materials@,
            scene.materials@.len() == 5,
            scene.picking == old(scene).picking,
            scene.edge_node_refs@.len() == 0,
            scene.nodes@.len() == ng + k,
            forall|i: int| 0 <= i < ng ==> (#[trigger] scene.nodes@[i]) == old(scene).nodes@[i],
            forall|i: int| 0 <= i < ng ==> spec_pillar_ok(#[trigger] scene.nodes@[i]),
            forall|k2: int|
                0 <= k2 < k ==> spec_child_ok(
                    *network,
                    #[trigger] scene.nodes@[ng + k2],
                    k2,
                    ng as int,
                ),
            forall|k2: int|
                0 <= k2 < k ==> spec_child_linked(
                    *network,
                    #[trigger] scene.nodes@[ng + k2],
                    spec_group_keys(groups@),
                    k2,
                ),
    {
        let e = es[k];
        let q = entry_qpos(network, e);
        proof {
            assert(spec_entry_valid(*network, spec_entries(*network)[k as int]));
            let gks = spec_group_keys(groups@);
            assert(exists|gj: int|
                0 <= gj < gks.len() && spec_key_matches(*network, #[trigger] gks[gj], k as int));
            let gj = choose|gj: int|
                0 <= gj < gks.len() && spec_key_matches(*network, #[trigger] gks[gj], k as int);
            assert(gks[gj] == groups@[gj].key);
            assert(groups@[gj].key == q);
        }
        let gi = find_group(groups, q);
        proof {
            lemma_members_contain(*network, q, k as int, spec_entries(*network).len() as int);
            assert(groups@[gi as int].members@.contains(spec_entries(*network)[k as int]));
        }
        let layer_idx = find_member(&groups[gi].members, e);
        let layer_count = groups[gi].members.len();
        let y = calculate_layer_y_offset(layer_idx, layer_count);
        scene.nodes.push(
            SceneNode::new(
                0,
                mode_material_id(e.0),
                Transform::new(
                    Vec3 { x: 0, y, z: 0 },
                    Quat::identity(),
                    Vec3 { x: 150, y: 150, z: 150 },
                ),
                false,
            ).with_parent(gi as u32),
        );
        proof {
            let gks = spec_group_keys(groups@);
            assert(gks[gi as int] == groups@[gi as int].key);
            assert(spec_key_matches(*network, gks[gi as int], k as int));
            let ms = spec_members_prefix(
                *network,
                gks[gi as int],
                spec_entries(*network).len() as int,
            );
            assert(ms == groups@[gi as int].members@);
            assert(0 <= (layer_idx as int) < ms.len() && ms[layer_idx as int] == spec_entries(
                *network,
            )[k as int] && scene.nodes@[ng + k].transform.position.y == spec_layer_y_offset(
                layer_idx as int,
                ms.len() as int,
            ));
            assert(spec_child_linked(*network, scene.nodes@[ng + k], gks, k as int));
        }
    }
}

/// Assembling the four per-mode edge blocks behind the pillar and
/// child blocks yields the final scene layout.
#[verifier::rlimit(100)]
proof fn lemma_assemble(
    n: Network,
    ng: int,
    ne: int,
    base0: Seq<SceneNode>,
    refs0: Seq<Option<(u32, u32)>>,
    base1: Seq<SceneNode>,
    refs1: Seq<Option<(u32, u32)>>,
    base2: Seq<SceneNode>,
    refs2: Seq<Option<(u32, u32)>>,
    base3: Seq<SceneNode>,
    refs3: Seq<Option<(u32, u32)>>,
    fin: Seq<SceneNode>,
    finrefs: Seq<Option<(u32, u32)>>,
)
    requires
        n.wf(),
        0 <= ng,
        ne == spec_entries(n).len(),
        base0.len() == ng + ne,
        base1.len() == base0.len() + n.spec_mode_edges_len(TransportMode::Car),
        base2.len() == base1.len() + n.spec_mode_edges_len(TransportMode::Bike),
        base3.len() == base2.len() + n.spec_mode_edges_len(TransportMode::Walk),
        fin.len() == base3.len() + n.spec_mode_edges_len(TransportMode::Transit),
        refs0.len() == base0.len(),
        finrefs.len() == fin.len(),
        forall|j: int| 0 <= j < refs0.len() ==> (#[trigger] refs0[j]) is None,
        forall|i: int| 0 <= i < ng ==> spec_pillar_ok(#[trigger] base0[i]),
        forall|k: int| 0 <= k < ne ==> spec_child_ok(n, #[trigger] base0[ng + k], k, ng),
        forall|i: int|
            0 <= i < base0.len() ==> (#[trigger] base1[i]) == base0[i] && refs1[i] == refs0[i],
        forall|i: int|
            0 <= i < base1.len() ==> (#[trigger] base2[i]) == base1[i] && refs2[i] == refs1[i],
        forall|i: int|
            0 <= i < base2.len() ==> (#[trigger] base3[i]) == base2[i] && refs3[i] == refs2[i],
        forall|i: int|
            0 <= i < base3.len() ==> (#[trigger] fin[i]) == base3[i] && finrefs[i] == refs3[i],
        forall|e: int|
            0 <= e < n.spec_mode_edges_len(TransportMode::Car) ==> #[trigger] spec_edge_ok(
                n,
                base0,
                base1[base0.len() + e],
                refs1[base0.len() + e],
                TransportMode::Car,
                e,
                ng,
            ),
        forall|e: int|
            0 <= e < n.spec_mode_edges_len(TransportMode::Bike) ==> #[trigger] spec_edge_ok(
                n,
                base1,
                base2[base1.len() + e],
                refs2[base1.len() + e],
                TransportMode::Bike,
                e,
                ng,
            ),
        forall|e: int|
            0 <= e < n.spec_mode_edges_len(TransportMode::Walk) ==> #[trigger] spec_edge_ok(
                n,
                base2,
                base3[base2.len() + e],
                refs3[base2.len() + e],
                TransportMode::Walk,
                e,
                ng,
            ),
        forall|e: int|
            0 <= e < n.spec_mode_edges_len(TransportMode::Transit) ==> #[trigger] spec_edge_ok(
                n,
                base3,
                fin[base3.len() + e],
                finrefs[base3.len() + e],
                TransportMode::Transit,
                e,
                ng,
            ),
    ensures
        fin.len() == ng + ne + spec_total_edges(n),
        forall|i: int| 0 <= i < ng + ne ==> #[trigger] fin[i] == base0[i],
        forall|i: int| 0 <= i < ng + ne ==> (#[trigger] finrefs[i]) is None,
        forall|i: int| 0 <= i < ng ==> spec_pillar_ok(#[trigger] fin[i]),
        forall|k: int| 0 <= k < ne ==> spec_child_ok(n, #[trigger] fin[ng + k], k, ng),
        forall|m: TransportMode, e: int|
            0 <= e < n.spec_mode_edges_len(m) ==> #[trigger] spec_edge_ok(
                n,
                fin,
                fin[ng + ne + spec_mode_edge_offset(n, m) + e],
                finrefs[ng + ne + spec_mode_edge_offset(n, m) + e],
                m,
                e,
                ng,
            ),
{
    lemma_entries_len_bound(n);
    assert forall|i: int| 0 <= i < ng + ne implies #[trigger] fin[i] == base0[i] && finrefs[i]
        == refs0[i] by {
        assert(i < base0.len() && i < base1.len() && i < base2.len() && i < base3.len());
        assert(base1[i] == base0[i] && refs1[i] == refs0[i]);
        assert(base2[i] == base1[i] && refs2[i] == refs1[i]);
        assert(base3[i] == base2[i] && refs3[i] == refs2[i]);
        assert(fin[i] == base3[i] && finrefs[i] == refs3[i]);
    }
    assert forall|i: int| 0 <= i < ng + ne implies (#[trigger] finrefs[i]) is None by {
        assert(fin[i] == base0[i] && finrefs[i] == refs0[i]);
        assert(refs0[i] is None);
    }
    assert forall|m: TransportMode, e: int|
        0 <= e < n.spec_mode_edges_len(m) implies #[trigger] spec_edge_ok(
        n,
        fin,
        fin[ng + ne + spec_mode_edge_offset(n, m) + e],
        finrefs[ng + ne + spec_mode_edge_offset(n, m) + e],
        m,
        e,
        ng,
    ) by {
        lemma_graph_of_bounds(n, m);
        let idx = ng + ne + spec_mode_edge_offset(n, m) + e;
        match m {
            TransportMode::Car => {
                assert(idx == base0.len() + e);
                assert(fin[idx] == base3[idx] && finrefs[idx] == refs3[idx]);
                assert(base3[idx] == base2[idx] && refs3[idx] == refs2[idx]);
                assert(base2[idx] == base1[idx] && refs2[idx] == refs1[idx]);
                lemma_edge_ok_stable(n, base0, fin, fin[idx], finrefs[idx], m, e, ng);
            },
            TransportMode::Bike => {
                assert(idx == base1.len() + e);
                assert(fin[idx] == base3[idx] && finrefs[idx] == refs3[idx]);
                assert(base3[idx] == base2[idx] && refs3[idx] == refs2[idx]);
                assert forall|j: int| 0 <= j < base1.len() implies base1[j] == fin[j] by {
                    assert(base1[j] == base0[j] || j >= base0.len());
                    assert(base2[j] == base1[j]);
                    assert(base3[j] == base2[j]);
                    assert(fin[j] == base3[j]);
                }
                lemma_edge_ok_stable(n, base1, fin, fin[idx], finrefs[idx], m, e, ng);
            },
            TransportMode::Walk => {
                assert(idx == base2.len() + e);
                assert(fin[idx] == base3[idx] && finrefs[idx] == refs3[idx]);
                assert forall|j: int| 0 <= j < base2.len() implies base2[j] == fin[j] by {
                    assert(base3[j] == base2[j]);
                    assert(fin[j] == base3[j]);
                }
                lemma_edge_ok_stable(n, base2, fin, fin[idx], finrefs[idx], m, e, ng);
            },
            TransportMode::Transit => {
                assert(idx == base3.len() + e);
                assert forall|j: int| 0 <= j < base3.len() implies base3[j] == fin[j] by {
                    assert(fin[j] == base3[j]);
                }
                lemma_edge_ok_stable(n, base3, fin, fin[idx], finrefs[idx], m, e, ng);
            },
        }
    }
}

/// Convert a network into a scene: a cube and a line-segment mesh, one
/// material per mode plus the pillar material, one selectable pillar
/// per group of coincident nodes, one non-selectable mode-layer child
/// per network node, and one non-selectable edge node per network edge,
/// its endpoint pair recorded in `edge_node_refs`.
///
/// Node order (which drives batching) is: all pillars, then all mode
/// layers in entry order, then all edges in mode order — so the cube
/// mesh instances and the segment mesh instances each form one
/// contiguous block.
#[verifier::rlimit(100)]
#[verifier::spinoff_prover]
pub fn network_to_scene(network: &Network) -> (s: Scene)
    requires
        network.wf(),
    ensures
        s.wf(),
        s.meshes@.len() == 2,
        s.meshes@[0].vertices@ == Mesh::spec_cube_vertices(),
        s.meshes@[0].indices@ == Mesh::spec_cube_indices(),
        s.meshes@[1].vertices@ == Mesh::spec_line_vertices(125),
        s.meshes@[1].indices@ == Mesh::spec_quad_indices(),
        s.materials@.len() == 5,
        s.materials@[0] == (Material { r: 500i64, g: 500i64, b: 500i64, a: SCALE }),
        s.materials@[1] == (Material { r: 0i64, g: 800i64, b: 0i64, a: SCALE }),
        s.materials@[2] == (Material { r: 0i64, g: 500i64, b: 1000i64, a: SCALE }),
        s.materials@[3] == (Material { r: 1000i64, g: 0i64, b: 0i64, a: SCALE }),
        s.materials@[4] == (Material { r: 1000i64, g: 800i64, b: 0i64, a: SCALE }),
        s.picking == crate::picking_state::PickingState::spec_new(),
        s.edge_node_refs@.len() == s.nodes@.len(),
        s.nodes@.len() >= spec_entries(*network).len() + spec_total_edges(*network),
        ({
            let ne = spec_entries(*network).len() as int;
            let te = spec_total_edges(*network);
            let ng = s.nodes@.len() - ne - te;
            &&& forall|i: int| 0 <= i < ng + ne ==> (#[trigger] s.edge_node_refs@[i]) is None
            &&& forall|i: int| 0 <= i < ng ==> spec_pillar_ok(#[trigger] s.nodes@[i])
            &&& forall|k: int|
                0 <= k < ne ==> spec_child_ok(*network, #[trigger] s.nodes@[ng + k], k, ng)
            &&& forall|m: TransportMode, e: int|
                0 <= e < network.spec_mode_edges_len(m) ==> #[trigger] spec_edge_ok(
                    *network,
                    s.nodes@,
                    s.nodes@[ng + ne + spec_mode_edge_offset(*network, m) + e],
                    s.edge_node_refs@[ng + ne + spec_mode_edge_offset(*network, m) + e],
                    m,
                    e,
                    ng,
                )
            &&& exists|keys: Seq<(i64, i64)>|
                {
                    &&& #[trigger] spec_keys_distinct(keys)
                    &&& keys.len() == ng
                    &&& spec_keys_cover(*network, keys, ne)
                    &&& spec_keys_grounded(*network, keys)
                    &&& (forall|gi: int|
                        0 <= gi < ng ==> (#[trigger] s.nodes@[gi]).transform.position
                            == spec_pillar_position(*network, keys[gi]))
                    &&& (forall|k: int|
                        0 <= k < ne ==> spec_child_linked(
                            *network,
                            #[trigger] s.nodes@[ng + k],
                            keys,
                            k,
                        ))
                }
        }),
{
    proof {
        lemma_entries_valid(*network);
        lemma_entries_len_bound(*network);
    }
    let mut scene = Scene::new();
    scene.meshes.push(Mesh::cube());
    scene.meshes.push(Mesh::line_segment(125));
    scene.materials.push(Material::from_rgb(500, 500, 500));
    scene.materials.push(Material::from_rgb(0, 800, 0));
    scene.materials.push(Material::from_rgb(0, 500, 1000));
    scene.materials.push(Material::from_rgb(1000, 0, 0));
    scene.materials.push(Material::from_rgb(1000, 800, 0));

    let groups = group_nodes_by_position(network);
    let ng = groups.len();
    build_pillars(&mut scene, network, &groups);
    let ghost pillar_nodes = scene.nodes@;
    let es = build_entries(network);
    let ne = es.len();
    build_children(&mut scene, network, &groups, &es);
    let ghost child_nodes = scene.nodes@;

    let ghost snap_meshes = scene.meshes@;
    let ghost snap_materials = scene.materials@;
    let ghost snap_nodes = scene.nodes@;
    let ghost snap_picking = scene.picking;
    let nn0 = scene.nodes.len();
    for i in 0..nn0
        invariant
            nn0 == scene.nodes@.len(),
            scene.meshes@ == snap_meshes,
            scene.materials@ == snap_materials,
            scene.nodes@ == snap_nodes,
            scene.picking == snap_picking,
            scene.edge_node_refs@.len() == i,
            forall|j: int| 0 <= j < i ==> (#[trigger] scene.edge_node_refs@[j]) is None,
            scene.wf(),
    {
        scene.edge_node_refs.push(None);
    }
    let ghost base0 = scene.nodes@;
    let ghost refs0 = scene.edge_node_refs@;
    append_mode_edges(&mut scene, network, TransportMode::Car, ng, ne);
    let ghost base1 = scene.nodes@;
    let ghost refs1 = scene.edge_node_refs@;
    append_mode_edges(&mut scene, network, TransportMode::Bike, ng, ne);
    let ghost base2 = scene.nodes@;
    let ghost refs2 = scene.edge_node_refs@;
    append_mode_edges(&mut scene, network, TransportMode::Walk, ng, ne);
    let ghost base3 = scene.nodes@;
    let ghost refs3 = scene.edge_node_refs@;
    append_mode_edges(&mut scene, network, TransportMode::Transit, ng, ne);
    proof {
        let n = *network;
        let fin = scene.nodes@;
        let finrefs = scene.edge_node_refs@;
        lemma_entries_len_bound(n);
        assert forall|i: int|
            0 <= i < base0.len() implies (#[trigger] base1[i]) == base0[i] && refs1[i]
            == refs0[i] by {}
        assert forall|i: int|
            0 <= i < base1.len() implies (#[trigger] base2[i]) == base1[i] && refs2[i]
            == refs1[i] by {}
        assert forall|i: int|
            0 <= i < base2.len() implies (#[trigger] base3[i]) == base2[i] && refs3[i]
            == refs2[i] by {}
        assert forall|i: int|
            0 <= i < base3.len() implies (#[trigger] fin[i]) == base3[i] && finrefs[i]
            == refs3[i] by {}
        lemma_assemble(
            n,
            ng as int,
            ne as int,
            base0,
            refs0,
            base1,
            refs1,
            base2,
            refs2,
            base3,
            refs3,
            fin,
            scene.edge_node_refs@,
        );
        let keys = spec_group_keys(groups@);
        assert(keys.len() == ng);
        assert forall|gi: int|
            0 <= gi < ng implies (#[trigger] fin[gi]).transform.position == spec_pillar_position(
            n,
            keys[gi],
        ) by {
            assert(fin[gi] == base0[gi]);
            assert(base0[gi] == child_nodes[gi]);
            assert(child_nodes[gi] == pillar_nodes[gi]);
        }
        assert forall|k: int|
            0 <= k < ne implies spec_child_linked(n, #[trigger] fin[ng + k], keys, k) by {
            assert(fin[ng + k] == base0[ng + k]);
            assert(base0[ng + k] == child_nodes[ng + k]);
        }
        assert(exists|keys2: Seq<(i64, i64)>|
            {
                &&& #[trigger] spec_keys_distinct(keys2)
                &&& keys2.len() == ng
                &&& spec_keys_cover(n, keys2, ne as int)
                &&& spec_keys_grounded(n, keys2)
                &&& (forall|gi: int|
                    0 <= gi < ng ==> (#[trigger] fin[gi]).transform.position
                        == spec_pillar_position(n, keys2[gi]))
                &&& (forall|k: int|
                    0 <= k < ne ==> spec_child_linked(n, #[trigger] fin[ng + k], keys2, k))
            });
    }
    scene
}

/// Replace one node's transform, leaving everything else untouched.
fn set_node_transform(scene: &mut Scene, idx: usize, t: Transform)
    requires
        old(scene).wf(),
        t.wf(),
        idx < old(scene).nodes@.len(),
    ensures
        final(scene).wf(),
        final(scene).meshes@ == old(scene).meshes@,
        final(scene).materials@ == old(scene).materials@,
        final(scene).picking == old(scene).picking,
        final(scene).edge_node_refs@ == old(scene).edge_node_refs@,
        final(scene).nodes@ == old(scene).nodes@.update(
            idx as int,
            SceneNode { transform: t, ..old(scene).nodes@[idx as int] },
        ),
{
    let mut nd = scene.nodes[idx];
    nd.transform = t;
    scene.nodes.set(idx, nd);
}

/// Moving node `moved` affects node `x` when `x` is the moved node
/// itself or, for a moved root, any of its descendants.
pub open spec fn spec_affected(nodes: Seq<SceneNode>, x: int, moved: int) -> bool {
    x == moved || (nodes[moved].parent_id is None && spec_is_descendant(nodes, x, moved))
}

/// What edge synchronization makes of node `i`: an edge node whose
/// endpoint pair touches the affected set gets its transform recomputed
/// from the endpoints' freshly resolved world positions; every other
/// node is untouched.
pub open spec fn spec_synced_node(
    nodes: Seq<SceneNode>,
    refs: Seq<Option<(u32, u32)>>,
    i: int,
    moved: int,
) -> SceneNode {
    if 0 <= i < refs.len() {
        match refs[i] {
            Some(p) => if spec_affected(nodes, p.0 as int, moved) || spec_affected(
                nodes,
                p.1 as int,
                moved,
            ) {
                SceneNode {
                    transform: spec_edge_transform(
                        spec_world_position(nodes, p.0 as int),
                        spec_world_position(nodes, p.1 as int),
                    ),
                    ..nodes[i]
                }
            } else {
                nodes[i]
            },
            None => nodes[i],
        }
    } else {
        nodes[i]
    }
}

/// Whether a node id is in the affected list.
fn is_affected_id(affected: &Vec<u32>, x: u32) -> (r: bool)
    ensures
        r == affected@.contains(x),
{
    let n = affected.len();
    for i in 0..n
        invariant
            n == affected@.len(),
            forall|j: int| 0 <= j < i ==> affected@[j] != x,
    {
        if affected[i] == x {
            proof {
                assert(affected@[i as int] == x);
            }
            return true;
        }
    }
    false
}

/// Re-synchronize edge geometry after a node moved: every edge node
/// whose endpoint pair includes the moved node — or, for a moved root,
/// any of its descendants — gets its transform recomputed from the
/// endpoints' freshly resolved world positions; every other node stays
/// exactly as it was.
#[verifier::rlimit(100)]
#[verifier::spinoff_prover]
pub fn update_network_edges(scene: &mut Scene, moved_node_id: u32)
    requires
        old(scene).wf(),
        (moved_node_id as int) < old(scene).nodes@.len(),
    ensures
        final(scene).wf(),
        final(scene).meshes@ == old(scene).meshes@,
        final(scene).materials@ == old(scene).materials@,
        final(scene).picking == old(scene).picking,
        final(scene).edge_node_refs@ == old(scene).edge_node_refs@,
        final(scene).nodes@.len() == old(scene).nodes@.len(),
        forall|i: int|
            0 <= i < old(scene).nodes@.len() ==> #[trigger] final(scene).nodes@[i]
                == spec_synced_node(
                old(scene).nodes@,
                old(scene).edge_node_refs@,
                i,
                moved_node_id as int,
            ),
{
    let ghost nodes0 = scene.nodes@;
    let ghost refs0 = scene.edge_node_refs@;
    let ghost moved = moved_node_id as int;
    let root = match scene.nodes[moved_node_id as usize].parent_id {
        None => true,
        Some(_) => false,
    };
    let mut affected: Vec<u32> = Vec::new();
    affected.push(moved_node_id);
    if root {
        let ds = scene.get_descendants(moved_node_id);
        let dn = ds.len();
        for di in 0..dn
            invariant
                dn == ds@.len(),
                affected@ == seq![moved_node_id] + ds@.take(di as int),
        {
            affected.push(ds[di]);
            proof {
                assert(affected@ =~= seq![moved_node_id] + ds@.take(di + 1));
            }
        }
        proof {
            assert(ds@.take(dn as int) =~= ds@);
            assert(affected@ == seq![moved_node_id] + ds@);
            assert forall|x: u32| #[trigger]
                affected@.contains(x) == ((x as int) < nodes0.len() && spec_affected(
                nodes0,
                x as int,
                moved,
            )) by {
                if affected@.contains(x) {
                    let j = choose|j: int| 0 <= j < affected@.len() && affected@[j] == x;
                    if j > 0 {
                        assert(affected@[j] == ds@[j - 1]);
                        assert(spec_is_descendant(nodes0, ds@[j - 1] as int, moved));
                    }
                }
                if (x as int) < nodes0.len() && spec_affected(nodes0, x as int, moved) {
                    if x == moved_node_id {
                        assert(affected@[0] == x);
                    } else {
                        assert(ds@.contains(x));
                        let k = choose|k: int| 0 <= k < ds@.len() && ds@[k] == x;
                        assert(affected@[k + 1] == x);
                    }
                }
            }
        }
    } else {
        proof {
            assert(affected@ =~= seq![moved_node_id]);
            assert forall|x: u32| #[trigger]
                affected@.contains(x) == ((x as int) < nodes0.len() && spec_affected(
                nodes0,
                x as int,
                moved,
            )) by {
                if affected@.contains(x) {
                    let j = choose|j: int| 0 <= j < affected@.len() && affected@[j] == x;
                    assert(j == 0);
                }
                if (x as int) < nodes0.len() && spec_affected(nodes0, x as int, moved) {
                    assert(x == moved_node_id);
                    assert(affected@[0] == x);
                }
            }
        }
    }
    let m = scene.edge_node_refs.len();
    let mut new_ts: Vec<Option<Transform>> = Vec::new();
    for idx in 0..m
        invariant
            scene.wf(),
            scene.nodes@ == nodes0,
            scene.edge_node_refs@ == refs0,
            m == refs0.len(),
            refs0.len() <= nodes0.len(),
            (moved_node_id as int) < nodes0.len(),
            forall|x: u32| #[trigger]
                affected@.contains(x) == ((x as int) < nodes0.len() && spec_affected(
                    nodes0,
                    x as int,
                    moved_node_id as int,
                )),
            new_ts@.len() == idx,
            forall|j: int|
                0 <= j < idx ==> #[trigger] new_ts@[j] == (match refs0[j] {
                    Some(p) => if spec_affected(nodes0, p.0 as int, moved_node_id as int)
                        || spec_affected(nodes0, p.1 as int, moved_node_id as int) {
                        Some(
                            spec_edge_transform(
                                spec_world_position(nodes0, p.0 as int),
                                spec_world_position(nodes0, p.1 as int),
                            ),
                        )
                    } else {
                        None
                    },
                    None => None,
                }),
            forall|j: int|
                0 <= j < idx ==> match #[trigger] new_ts@[j] {
                    Some(t) => t.wf(),
                    None => true,
                },
    {
        match scene.edge_node_refs[idx] {
            Some(pair) => {
                let f = pair.0;
                let t = pair.1;
                if is_affected_id(&affected, f) || is_affected_id(&affected, t) {
                    let fw = scene.compute_world_transform(f);
                    let tw = scene.compute_world_transform(t);
                    let fp = extract_position_from_matrix(&fw);
                    let tp = extract_position_from_matrix(&tw);
                    new_ts.push(Some(edge_transform_from_positions(fp, tp)));
                } else {
                    new_ts.push(None);
                }
            },
            None => {
                new_ts.push(None);
            },
        }
    }
    let nn = new_ts.len();
    for idx in 0..nn
        invariant
            nn == new_ts@.len(),
            nn == refs0.len(),
            refs0.len() <= nodes0.len(),
            scene.nodes@.len() == nodes0.len(),
            scene.edge_node_refs@ == refs0,
            scene.meshes@ == old(scene).meshes@,
            scene.materials@ == old(scene).materials@,
            scene.picking == old(scene).picking,
            scene.wf(),
            forall|j: int|
                0 <= j < nn ==> #[trigger] new_ts@[j] == (match refs0[j] {
                    Some(p) => if spec_affected(nodes0, p.0 as int, moved_node_id as int)
                        || spec_affected(nodes0, p.1 as int, moved_node_id as int) {
                        Some(
                            spec_edge_transform(
                                spec_world_position(nodes0, p.0 as int),
                                spec_world_position(nodes0, p.1 as int),
                            ),
                        )
                    } else {
                        None
                    },
                    None => None,
                }),
            forall|j: int|
                0 <= j < nn ==> match #[trigger] new_ts@[j] {
                    Some(t) => t.wf(),
                    None => true,
                },
            forall|j: int|
                0 <= j < idx ==> #[trigger] scene.nodes@[j] == spec_synced_node(
                    nodes0,
                    refs0,
                    j,
                    moved_node_id as int,
                ),
            forall|j: int| idx <= j < nodes0.len() ==> #[trigger] scene.nodes@[j] == nodes0[j],
    {
        match new_ts[idx] {
            Some(t) => {
                set_node_transform(scene, idx, t);
            },
            None => {},
        }
    }
    proof {
        assert forall|i: int|
            0 <= i < nodes0.len() implies #[trigger] scene.nodes@[i] == spec_synced_node(
            nodes0,
            refs0,
            i,
            moved_node_id as int,
        ) by {
            if i >= nn {
                assert(scene.nodes@[i] == nodes0[i]);
            }
        }
    }
}

} // verus!
