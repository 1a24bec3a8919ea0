use vstd::prelude::*;

use crate::editor::{EditorData, in_map, lemma_wf_tiles_shape, ChangePlaceHolder, AttrChangeData};
use crate::map_data::{MapData, MapAttribute, attr_key, attr_keys, lemma_same_attr_key, same_attr};
use crate::stroke::{cell, paint_tile, tile_stroke_tracks, paint_attr, attr_stroke_tracks, tile_stroke_redoes, lemma_fresh_stroke_redoes, attr_stroke_redoes,
    lemma_fresh_attr_stroke_redoes};

verus! {

/// The map layer that a layer button of the tool bar edits.
pub open spec fn map_layer_of(tool_layer: usize) -> usize {
    if 1 <= tool_layer <= 4 {
        (tool_layer + 2) as usize
    } else if tool_layer == 5 || tool_layer == 6 {
        (tool_layer - 4) as usize
    } else {
        tool_layer
    }
}

/// The map layer that a layer button of the tool bar edits.
pub fn tool_layer_to_map_layer(tool_layer: usize) -> (l: usize)
    ensures
        l == map_layer_of(tool_layer),
{
    match tool_layer {
        1..=4 => tool_layer + 2,
        5 | 6 => tool_layer - 4,
        _ => tool_layer,
    }
}

/// The nine layer buttons edit the nine map layers, each a different one.
pub proof fn law_tool_layers_are_a_permutation(a: usize, b: usize)
    requires
        a < 9,
        b < 9,
    ensures
        map_layer_of(a) < 9,
        a != b ==> map_layer_of(a) != map_layer_of(b),
{
}

/// `p` and `q` are tiles of the map that share a side.
pub open spec fn adjacent(p: (u16, u16), q: (u16, u16)) -> bool {
    &&& in_map(p.0, p.1)
    &&& in_map(q.0, q.1)
    &&& ((p.0 == q.0 && (p.1 as int - q.1 as int == 1 || q.1 as int - p.1 as int == 1)) || (p.1
        == q.1 && (p.0 as int - q.0 as int == 1 || q.0 as int - p.0 as int == 1)))
}

/// A walk from `start` over adjacent tiles of the map that all hold the id of `start`.
pub open spec fn same_id_walk<T>(vals: Seq<T>, start: (u16, u16), path: Seq<(u16, u16)>) -> bool {
    &&& path.len() > 0
    &&& path[0] == start
    &&& in_map(start.0, start.1)
    &&& forall|i: int| 0 <= i < path.len() - 1 ==> adjacent(#[trigger] path[i], path[i + 1])
    &&& forall|i: int| 0 <= i < path.len() ==> vals[cell(#[trigger] path[i])] == vals[cell(start)]
}

/// The tiles that a fill from `start` repaints: those joined to `start` by adjacent tiles holding its id.
pub open spec fn in_region<T>(vals: Seq<T>, start: (u16, u16), p: (u16, u16)) -> bool {
    exists|path: Seq<(u16, u16)>| #[trigger] same_id_walk(vals, start, path) && path.last() == p
}

/// A layer after filling the region of `start` with `new`.
pub open spec fn filled<T>(vals: Seq<T>, start: (u16, u16), new: T) -> Seq<T> {
    Seq::new(
        1024,
        |i: int|
            if in_region(vals, start, ((i % 32) as u16, (i / 32) as u16)) {
                new
            } else {
                vals[i]
            },
    )
}

/// How many entries of `s` equal `v`.
pub open spec fn count_val<T>(s: Seq<T>, v: T) -> nat
    decreases s.len(),
{
    if s.len() == 0 {
        0
    } else {
        count_val(s.drop_last(), v) + if s.last() == v {
            1nat
        } else {
            0nat
        }
    }
}

proof fn lemma_count_update<T>(s: Seq<T>, i: int, v: T, w: T)
    requires
        0 <= i < s.len(),
        s[i] == v,
        w != v,
    ensures
        count_val(s.update(i, w), v) + 1 == count_val(s, v),
    decreases s.len(),
{
    let t = s.update(i, w);
    if i == s.len() - 1 {
        assert(t.drop_last() =~= s.drop_last());
    } else {
        lemma_count_update(s.drop_last(), i, v, w);
        assert(t.drop_last() =~= s.drop_last().update(i, w));
    }
}

/// Every tile of the region holds the id of `start` and lies on the map.
proof fn lemma_region_same<T>(vals: Seq<T>, start: (u16, u16), p: (u16, u16))
    requires
        in_region(vals, start, p),
    ensures
        vals[cell(p)] == vals[cell(start)],
        in_map(p.0, p.1),
{
    let path = choose|path: Seq<(u16, u16)>| #[trigger] same_id_walk(vals, start, path) && path.last() == p;
    assert(vals[cell(path[path.len() - 1])] == vals[cell(start)]);
    if path.len() > 1 {
        assert(adjacent(path[path.len() - 2], path[path.len() - 2 + 1]));
    }
}

proof fn lemma_start_in_region<T>(vals: Seq<T>, start: (u16, u16))
    requires
        in_map(start.0, start.1),
    ensures
        in_region(vals, start, start),
{
    let path = seq![start];
    assert(same_id_walk(vals, start, path));
}

proof fn lemma_step_region<T>(vals: Seq<T>, start: (u16, u16), q: (u16, u16), p: (u16, u16))
    requires
        in_region(vals, start, q),
        adjacent(q, p),
        vals[cell(p)] == vals[cell(start)],
    ensures
        in_region(vals, start, p),
{
    let path = choose|path: Seq<(u16, u16)>| #[trigger] same_id_walk(vals, start, path) && path.last() == q;
    let path2 = path.push(p);
    assert forall|i: int| 0 <= i < path2.len() - 1 implies adjacent(#[trigger] path2[i], path2[i + 1]) by {
        if i < path.len() - 1 {
            assert(path2[i] == path[i] && path2[i + 1] == path[i + 1]);
        }
    }
    assert forall|i: int| 0 <= i < path2.len() implies vals[cell(#[trigger] path2[i])] == vals[cell(start)] by {
        if i < path.len() {
            assert(path2[i] == path[i]);
        }
    }
    assert(same_id_walk(vals, start, path2));
}

/// Tile `p` of `cur` differs from tile `p` of `vals`.
pub open spec fn painted<T>(cur: Seq<T>, vals: Seq<T>, p: (u16, u16)) -> bool {
    cur[cell(p)] != vals[cell(p)]
}

/// The tile of the map at index `i`.
pub open spec fn pos_of(i: int) -> (u16, u16) {
    ((i % 32) as u16, (i / 32) as u16)
}

proof fn lemma_pos_of(i: int)
    requires
        0 <= i < 1024,
    ensures
        cell(pos_of(i)) == i,
        in_map(pos_of(i).0, pos_of(i).1),
{
}

/// Every tile of a walk from a repainted start is repainted, when no repainted tile has
/// a neighbor that still holds the start's id.
proof fn lemma_walk_painted<T>(vals: Seq<T>, cur: Seq<T>, start: (u16, u16), path: Seq<(u16, u16)>, i: int)
    requires
        vals.len() == 1024,
        cur.len() == 1024,
        same_id_walk(vals, start, path),
        0 <= i < path.len(),
        painted(cur, vals, start),
        forall|j: int| 0 <= j < 1024 ==> #[trigger] cur[j] == vals[j] || cur[j] != vals[cell(start)],
        forall|a: (u16, u16), b: (u16, u16)|
            #![trigger adjacent(a, b), painted(cur, vals, a)]
            adjacent(a, b) && painted(cur, vals, a) ==> cur[cell(b)] != vals[cell(start)],
    ensures
        painted(cur, vals, path[i]),
    decreases i,
{
    if i > 0 {
        lemma_walk_painted(vals, cur, start, path, i - 1);
        let a = path[i - 1];
        let b = path[i];
        assert(adjacent(path[i - 1], path[i - 1 + 1]));
        assert(vals[cell(b)] == vals[cell(start)]);
        assert(0 <= cell(b) < 1024);
        assert(cur[cell(b)] != vals[cell(start)]);
        assert(cur[cell(b)] == vals[cell(b)] || cur[cell(b)] != vals[cell(start)]);
    }
}

/// When the start is repainted and no repainted tile has a neighbor that still holds
/// the start's id, every tile of the region is repainted.
proof fn lemma_region_closed<T>(vals: Seq<T>, cur: Seq<T>, start: (u16, u16), p: (u16, u16))
    requires
        vals.len() == 1024,
        cur.len() == 1024,
        in_region(vals, start, p),
        painted(cur, vals, start),
        forall|i: int| 0 <= i < 1024 ==> #[trigger] cur[i] == vals[i] || cur[i] != vals[cell(start)],
        forall|a: (u16, u16), b: (u16, u16)|
            #![trigger adjacent(a, b), painted(cur, vals, a)]
            adjacent(a, b) && painted(cur, vals, a) ==> cur[cell(b)] != vals[cell(start)],
    ensures
        painted(cur, vals, p),
{
    let path = choose|path: Seq<(u16, u16)>| #[trigger] same_id_walk(vals, start, path) && path.last() == p;
    lemma_walk_painted(vals, cur, start, path, path.len() - 1);
}

/// The neighbors of `p` that a fill visits next, in the order it visits them:
/// below, above, left, right, each when on the map and holding `old_id`.
pub open spec fn fill_neighbors<T>(cur: Seq<T>, p: (u16, u16), old_id: T) -> Seq<(u16, u16)> {
    let d = if p.1 > 0 && cur[cell((p.0, (p.1 - 1) as u16))] == old_id {
        seq![(p.0, (p.1 - 1) as u16)]
    } else {
        Seq::empty()
    };
    let u = if p.1 < 31 && cur[cell((p.0, (p.1 + 1) as u16))] == old_id {
        seq![(p.0, (p.1 + 1) as u16)]
    } else {
        Seq::empty()
    };
    let l = if p.0 > 0 && cur[cell(((p.0 - 1) as u16, p.1))] == old_id {
        seq![((p.0 - 1) as u16, p.1)]
    } else {
        Seq::empty()
    };
    let r = if p.0 < 31 && cur[cell(((p.0 + 1) as u16, p.1))] == old_id {
        seq![((p.0 + 1) as u16, p.1)]
    } else {
        Seq::empty()
    };
    d + u + l + r
}

proof fn lemma_neighbors_complete<T>(cur: Seq<T>, p: (u16, u16), old_id: T, b: (u16, u16))
    requires
        adjacent(p, b),
        cur[cell(b)] == old_id,
    ensures
        fill_neighbors(cur, p, old_id).contains(b),
{
    let d = if p.1 > 0 && cur[cell((p.0, (p.1 - 1) as u16))] == old_id {
        seq![(p.0, (p.1 - 1) as u16)]
    } else {
        Seq::empty()
    };
    let u = if p.1 < 31 && cur[cell((p.0, (p.1 + 1) as u16))] == old_id {
        seq![(p.0, (p.1 + 1) as u16)]
    } else {
        Seq::empty()
    };
    let l = if p.0 > 0 && cur[cell(((p.0 - 1) as u16, p.1))] == old_id {
        seq![((p.0 - 1) as u16, p.1)]
    } else {
        Seq::empty()
    };
    let r = if p.0 < 31 && cur[cell(((p.0 + 1) as u16, p.1))] == old_id {
        seq![((p.0 + 1) as u16, p.1)]
    } else {
        Seq::empty()
    };
    let all = fill_neighbors(cur, p, old_id);
    assert(all == d + u + l + r);
    if b.0 == p.0 && b.1 as int == p.1 as int - 1 {
        assert(b == (p.0, (p.1 - 1) as u16));
        assert(all[0] == b);
    } else if b.0 == p.0 && b.1 as int == p.1 as int + 1 {
        assert(b == (p.0, (p.1 + 1) as u16));
        assert(all[d.len() as int] == b);
    } else if b.1 == p.1 && b.0 as int == p.0 as int - 1 {
        assert(b == ((p.0 - 1) as u16, p.1));
        assert(all[(d.len() + u.len()) as int] == b);
    } else {
        assert(b == ((p.0 + 1) as u16, p.1));
        assert(all[(d.len() + u.len() + l.len()) as int] == b);
    }
}

/// Pushes the neighbors of `p` that a fill visits next.
fn push_fill_neighbors(stack: &mut Vec<(u16, u16)>, ids: &Vec<u32>, p: (u16, u16), old_id: u32)
    requires
        in_map(p.0, p.1),
        ids@.len() == 1024,
    ensures
        final(stack)@ == old(stack)@ + fill_neighbors(ids@, p, old_id),
{
    let ghost s0 = stack@;
    if p.1 > 0 && ids[p.0 as usize + (p.1 - 1) as usize * 32] == old_id {
        stack.push((p.0, p.1 - 1));
    }
    let ghost s1 = stack@;
    if p.1 < 31 && ids[p.0 as usize + (p.1 + 1) as usize * 32] == old_id {
        stack.push((p.0, p.1 + 1));
    }
    let ghost s2 = stack@;
    if p.0 > 0 && ids[(p.0 - 1) as usize + p.1 as usize * 32] == old_id {
        stack.push((p.0 - 1, p.1));
    }
    let ghost s3 = stack@;
    if p.0 < 31 && ids[(p.0 + 1) as usize + p.1 as usize * 32] == old_id {
        stack.push((p.0 + 1, p.1));
    }
    assert(stack@ =~= s0 + fill_neighbors(ids@, p, old_id));
}

/// What holds of the filled layer `cur` and the stack of tiles still to visit at each step of a fill.
pub open spec fn fill_inv<T>(
    cur: Seq<T>,
    vals: Seq<T>,
    start: (u16, u16),
    old_id: T,
    new: T,
    stack: Seq<(u16, u16)>,
) -> bool {
    &&& cur.len() == 1024
    &&& vals.len() == 1024
    &&& in_map(start.0, start.1)
    &&& old_id == vals[cell(start)]
    &&& new != old_id
    &&& forall|i: int|
        0 <= i < 1024 ==> #[trigger] cur[i] == vals[i] || (cur[i] == new && in_region(vals, start, pos_of(i)))
    &&& forall|k: int|
        0 <= k < stack.len() ==> in_map(#[trigger] stack[k].0, stack[k].1) && in_region(vals, start, stack[k])
    &&& forall|a: (u16, u16), b: (u16, u16)|
        #![trigger adjacent(a, b), painted(cur, vals, a)]
        adjacent(a, b) && painted(cur, vals, a) && cur[cell(b)] == old_id ==> stack.contains(b)
    &&& painted(cur, vals, start) || stack.contains(start)
}

proof fn lemma_fill_start<T>(vals: Seq<T>, start: (u16, u16), new: T)
    requires
        vals.len() == 1024,
        in_map(start.0, start.1),
        new != vals[cell(start)],
    ensures
        fill_inv(vals, vals, start, vals[cell(start)], new, seq![start]),
{
    lemma_start_in_region(vals, start);
    assert(seq![start][0] == start);
}

proof fn lemma_fill_skip<T>(
    cur: Seq<T>,
    vals: Seq<T>,
    start: (u16, u16),
    old_id: T,
    new: T,
    stack: Seq<(u16, u16)>,
)
    requires
        fill_inv(cur, vals, start, old_id, new, stack),
        stack.len() > 0,
        cur[cell(stack.last())] != old_id,
    ensures
        fill_inv(cur, vals, start, old_id, new, stack.drop_last()),
        in_map(stack.last().0, stack.last().1),
{
    let p = stack.last();
    let rest = stack.drop_last();
    assert(in_map(stack[stack.len() - 1].0, stack[stack.len() - 1].1));
    assert forall|k: int| 0 <= k < rest.len() implies in_map(#[trigger] rest[k].0, rest[k].1)
        && in_region(vals, start, rest[k]) by {
        assert(rest[k] == stack[k]);
    }
    assert forall|a: (u16, u16), b: (u16, u16)|
        #![trigger adjacent(a, b), painted(cur, vals, a)]
        adjacent(a, b) && painted(cur, vals, a) && cur[cell(b)] == old_id implies rest.contains(b) by {
        let k = choose|k: int| 0 <= k < stack.len() && stack[k] == b;
        assert(k != stack.len() - 1);
        assert(rest[k] == b);
    }
    if !painted(cur, vals, start) {
        let k = choose|k: int| 0 <= k < stack.len() && stack[k] == start;
        assert(in_region(vals, start, stack[stack.len() - 1]));
        lemma_region_same(vals, start, p);
        assert(k != stack.len() - 1);
        assert(rest[k] == start);
    }
}

proof fn lemma_fill_paint<T>(
    cur: Seq<T>,
    vals: Seq<T>,
    start: (u16, u16),
    old_id: T,
    new: T,
    stack: Seq<(u16, u16)>,
)
    requires
        fill_inv(cur, vals, start, old_id, new, stack),
        stack.len() > 0,
        cur[cell(stack.last())] == old_id,
    ensures
        in_map(stack.last().0, stack.last().1),
        fill_inv(
            cur.update(cell(stack.last()), new),
            vals,
            start,
            old_id,
            new,
            stack.drop_last() + fill_neighbors(cur.update(cell(stack.last()), new), stack.last(), old_id),
        ),
        !painted(cur, vals, stack.last()),
        count_val(cur.update(cell(stack.last()), new), old_id) < count_val(cur, old_id),
{
    let p = stack.last();
    assert(in_map(stack[stack.len() - 1].0, stack[stack.len() - 1].1));
    assert(in_region(vals, start, stack[stack.len() - 1]));
    lemma_region_same(vals, start, p);
    let idx = cell(p);
    let cur2 = cur.update(idx, new);
    let rest = stack.drop_last();
    let pushed = fill_neighbors(cur2, p, old_id);
    let st2 = rest + pushed;
    lemma_count_update(cur, idx, old_id, new);
    assert forall|i: int| 0 <= i < 1024 implies #[trigger] cur2[i] == vals[i] || (cur2[i] == new
        && in_region(vals, start, pos_of(i))) by {
        if i == idx {
            lemma_pos_of(i);
            crate::editor::lemma_index_injective(pos_of(i).0, pos_of(i).1, p.0, p.1);
        } else {
            assert(cur2[i] == cur[i]);
        }
    }
    assert forall|k: int| 0 <= k < st2.len() implies in_map(#[trigger] st2[k].0, st2[k].1) && in_region(
        vals,
        start,
        st2[k],
    ) by {
        if k < rest.len() {
            assert(st2[k] == stack[k]);
        } else {
            let q = st2[k];
            assert(pushed.contains(q)) by {
                assert(pushed[k - rest.len()] == q);
            }
            assert(adjacent(p, q));
            assert(cur2[cell(q)] == old_id);
            assert(0 <= cell(q) < 1024);
            lemma_pos_of(cell(q));
            crate::editor::lemma_index_injective(pos_of(cell(q)).0, pos_of(cell(q)).1, q.0, q.1);
            assert(cur2[cell(q)] == vals[cell(q)]);
            lemma_step_region(vals, start, p, q);
        }
    }
    assert forall|a: (u16, u16), b: (u16, u16)|
        #![trigger adjacent(a, b), painted(cur2, vals, a)]
        adjacent(a, b) && painted(cur2, vals, a) && cur2[cell(b)] == old_id implies st2.contains(b) by {
        if a == p {
            lemma_neighbors_complete(cur2, p, old_id, b);
            let k = choose|k: int| 0 <= k < pushed.len() && pushed[k] == b;
            assert(st2[rest.len() + k] == b);
        } else {
            assert(cell(a) != idx) by {
                if cell(a) == idx {
                    crate::editor::lemma_index_injective(a.0, a.1, p.0, p.1);
                }
            }
            assert(painted(cur, vals, a));
            assert(cell(b) != idx);
            assert(cur[cell(b)] == old_id);
            let k = choose|k: int| 0 <= k < stack.len() && stack[k] == b;
            assert(b != p);
            assert(k != stack.len() - 1);
            assert(st2[k] == b);
        }
    }
    if !painted(cur2, vals, start) {
        assert(start != p);
        assert(cell(start) != idx) by {
            if cell(start) == idx {
                crate::editor::lemma_index_injective(start.0, start.1, p.0, p.1);
            }
        }
        let k = choose|k: int| 0 <= k < stack.len() && stack[k] == start;
        assert(k != stack.len() - 1);
        assert(st2[k] == start);
    }
}

/// At the end of a fill, the layer is the filled layer.
proof fn lemma_fill_done<T>(cur: Seq<T>, vals: Seq<T>, start: (u16, u16), old_id: T, new: T)
    requires
        fill_inv(cur, vals, start, old_id, new, Seq::empty()),
    ensures
        cur == filled(vals, start, new),
{
    let f = filled(vals, start, new);
    assert forall|i: int| 0 <= i < 1024 implies #[trigger] cur[i] == vals[i] || cur[i] != vals[cell(start)] by {
    }
    assert forall|a: (u16, u16), b: (u16, u16)|
        #![trigger adjacent(a, b), painted(cur, vals, a)]
        adjacent(a, b) && painted(cur, vals, a) implies cur[cell(b)] != vals[cell(start)] by {
        if cur[cell(b)] == old_id {
            assert(Seq::<(u16, u16)>::empty().contains(b));
        }
    }
    assert forall|i: int| 0 <= i < 1024 implies #[trigger] cur[i] == f[i] by {
        lemma_pos_of(i);
        let p = pos_of(i);
        if in_region(vals, start, p) {
            lemma_region_closed(vals, cur, start, p);
        }
    }
    assert(cur =~= f);
}

/// Every tile in `visited` is a tile of the map that `cur` paints over `vals`.
#[verifier::opaque]
pub open spec fn visits_painted<T>(visited: Seq<(u16, u16)>, cur: Seq<T>, vals: Seq<T>) -> bool {
    forall|q: (u16, u16)| #[trigger] visited.contains(q) ==> in_map(q.0, q.1) && painted(cur, vals, q)
}

/// Painting an unpainted tile `p` with `new` keeps every visited tile painted, `p` now among them.
proof fn lemma_fill_visits_painted<T>(
    visited0: Seq<(u16, u16)>,
    visited1: Seq<(u16, u16)>,
    cur: Seq<T>,
    vals: Seq<T>,
    p: (u16, u16),
    new: T,
)
    requires
        cur.len() == 1024,
        visits_painted(visited0, cur, vals),
        in_map(p.0, p.1),
        !painted(cur, vals, p),
        new != vals[cell(p)],
        visited1 == visited0.push(p),
    ensures
        visits_painted(visited1, cur.update(cell(p), new), vals),
{
    reveal(visits_painted);
    let cur2 = cur.update(cell(p), new);
    assert forall|q: (u16, u16)| #[trigger] visited1.contains(q) implies in_map(q.0, q.1) && painted(cur2, vals, q) by {
        if q == p {
            assert(cur2[cell(p)] == new);
        } else {
            let j = choose|j: int| 0 <= j < visited1.len() && visited1[j] == q;
            assert(visited0[j] == q);
            assert(visited0.contains(q));
            assert(in_map(q.0, q.1) && painted(cur, vals, q));
            assert(cell(q) != cell(p));
            assert(cur2[cell(q)] == cur[cell(q)]);
        }
    }
}

/// A tile that is not painted has not been visited.
proof fn lemma_unpainted_not_visited<T>(visited: Seq<(u16, u16)>, cur: Seq<T>, vals: Seq<T>, p: (u16, u16))
    requires
        visits_painted(visited, cur, vals),
        !painted(cur, vals, p),
    ensures
        !visited.contains(p),
{
    reveal(visits_painted);
}

/// Nothing is visited at the start of a stroke.
proof fn lemma_none_visited<T>(visited: Seq<(u16, u16)>, cur: Seq<T>, vals: Seq<T>)
    requires
        visited.len() == 0,
    ensures
        visits_painted(visited, cur, vals),
{
    reveal(visits_painted);
}

/// The fill's frame: everything but the filled layer stays as it was.
pub open spec fn fill_frame(data: EditorData, start: EditorData, layer: int) -> bool {
    &&& data.wf()
    &&& data.mapdata.tiles().len() == 9
    &&& forall|l: int| 0 <= l < 9 && l != layer ==> #[trigger] data.mapdata.tiles()[l] == start.mapdata.tiles()[l]
    &&& data.mapdata.attribute == start.mapdata.attribute
    &&& data.mapdata.same_rest(start.mapdata)
    &&& data.pos == start.pos
    &&& data.undo == start.undo
    &&& data.redo == start.redo
    &&& data.unsaved_map == start.unsaved_map
    &&& data.exiting_save == start.exiting_save
    &&& data.changed == start.changed
    &&& data.temp_saved == start.temp_saved
}

/// `after` is `before` after a tile fill (see [`update_tile_fill`]).
pub open spec fn tile_fill_done(
    before: EditorData,
    after: EditorData,
    tool_layer: usize,
    map_pos: (u16, u16),
    set: bool,
    tile_id: Option<usize>,
) -> bool {
    let layer = map_layer_of(tool_layer) as int;
    let new_id: usize = if set {
        tile_id.unwrap()
    } else {
        0
    };
    let vals = before.mapdata.tiles()[layer];
    if (set && tile_id is None) || vals[cell(map_pos)] == new_id as u32 {
        after == before
    } else {
        &&& after.mapdata.tiles() == before.mapdata.tiles().update(layer, filled(vals, map_pos, new_id as u32))
        &&& after.mapdata.attribute == before.mapdata.attribute
        &&& after.mapdata.same_rest(before.mapdata)
        &&& after.marked_edited(before)
    }
}

/// Fills the region of tile `map_pos` on the map layer of `tool_layer`: every tile joined to it by
/// adjacent tiles holding its id gets the new id (`tile_id` when `set`, else 0, which erases).
/// Nothing happens when `set` and no id is given, or when the tile already holds the new id.
pub fn update_tile_fill(data: &mut EditorData, tool_layer: usize, map_pos: (u16, u16), set: bool, tile_id: Option<usize>)
    requires
        old(data).wf(),
        tool_layer < 9,
        in_map(map_pos.0, map_pos.1),
        tile_id matches Some(id) ==> id <= u32::MAX,
    ensures
        final(data).wf(),
        tile_fill_done(*old(data), *final(data), tool_layer, map_pos, set, tile_id),
        forall|base: MapData|
            tile_stroke_tracks(*old(data), base, map_layer_of(tool_layer)) ==> #[trigger] tile_stroke_tracks(
                *final(data),
                base,
                map_layer_of(tool_layer),
            ),
        old(data).last_pos@.len() == 0 ==> tile_stroke_redoes(*final(data)),
{
    proof {
        if old(data).last_pos@.len() == 0 {
            lemma_fresh_stroke_redoes(*old(data));
        }
    }
    let layer = tool_layer_to_map_layer(tool_layer);
    let new_id: usize = if set {
        match tile_id {
            Some(id) => id,
            None => {
                return;
            },
        }
    } else {
        0
    };
    let new: u32 = new_id as u32;
    let start_idx = map_pos.0 as usize + map_pos.1 as usize * 32;
    proof {
        lemma_wf_tiles_shape(data.mapdata);
    }
    let old_id = data.mapdata.tile[layer].id[start_idx];
    if old_id == new {
        return;
    }
    let ghost vals = old(data).mapdata.tiles()[layer as int];
    let ghost t0 = old(data).mapdata.tiles();
    let mut stack: Vec<(u16, u16)> = Vec::new();
    stack.push(map_pos);
    proof {
        lemma_fill_start(vals, map_pos, new);
        if old(data).last_pos@.len() == 0 {
            lemma_none_visited(old(data).last_pos@, vals, vals);
        }
        assert(stack@ =~= seq![map_pos]);
    }
    while stack.len() > 0
        invariant
            fill_frame(*data, *old(data), layer as int),
            layer == map_layer_of(tool_layer),
            layer < 9,
            new == new_id as u32,
            new_id <= u32::MAX,
            vals == t0[layer as int],
            t0 == old(data).mapdata.tiles(),
            fill_inv(data.mapdata.tiles()[layer as int], vals, map_pos, old_id, new, stack@),
            forall|base: MapData|
                tile_stroke_tracks(*old(data), base, layer) ==> #[trigger] tile_stroke_tracks(*data, base, layer),
            old(data).last_pos@.len() == 0 ==> tile_stroke_redoes(*data) && visits_painted(
                data.last_pos@,
                data.mapdata.tiles()[layer as int],
                vals,
            ),
        decreases count_val(data.mapdata.tiles()[layer as int], old_id), stack@.len(),
    {
        let ghost cur = data.mapdata.tiles()[layer as int];
        let ghost before = stack@;
        let p = stack.pop().unwrap();
        assert(before.last() == p);
        assert(stack@ == before.drop_last());
        let idx = p.0 as usize + p.1 as usize * 32;
        proof {
            assert(in_map(before[before.len() - 1].0, before[before.len() - 1].1));
            lemma_wf_tiles_shape(data.mapdata);
            assert(data.mapdata.tile@[layer as int].id@ == cur);
        }
        let here = data.mapdata.tile[layer].id[idx];
        if here != old_id {
            proof {
                lemma_fill_skip(cur, vals, map_pos, old_id, new, before);
            }
            continue;
        }
        proof {
            lemma_fill_paint(cur, vals, map_pos, old_id, new, before);
            if old(data).last_pos@.len() == 0 {
                lemma_unpainted_not_visited(data.last_pos@, cur, vals, p);
            }
        }
        let ghost d_before = *data;
        paint_tile(data, layer, p, here, new_id);
        proof {
            lemma_wf_tiles_shape(data.mapdata);
            if old(data).last_pos@.len() == 0 {
                lemma_fill_visits_painted(d_before.last_pos@, data.last_pos@, cur, vals, p, new);
            }
            assert forall|base: MapData| tile_stroke_tracks(*old(data), base, layer) implies #[trigger] tile_stroke_tracks(
                *data,
                base,
                layer,
            ) by {
                assert(tile_stroke_tracks(d_before, base, layer));
            }
        }
        push_fill_neighbors(&mut stack, &data.mapdata.tile[layer].id, p, old_id);
    }
    let ghost d_end = *data;
    data.changed = true;
    data.temp_saved = false;
    proof {
        assert forall|base: MapData| tile_stroke_tracks(*old(data), base, layer) implies #[trigger] tile_stroke_tracks(
            *data,
            base,
            layer,
        ) by {
            assert(tile_stroke_tracks(d_end, base, layer));
            crate::stroke::lemma_tracks_same_stroke(d_end, *data, base, layer);
        }
        let cur = data.mapdata.tiles()[layer as int];
        lemma_fill_done(cur, vals, map_pos, old_id, new);
        assert(data.mapdata.tiles() =~= t0.update(layer as int, filled(vals, map_pos, new)));
    }
}

/// Pushes the neighbors of `p` whose attribute is `old`, in the order a fill visits them.
fn push_attr_neighbors(stack: &mut Vec<(u16, u16)>, attrs: &Vec<MapAttribute>, p: (u16, u16), target: &MapAttribute)
    requires
        in_map(p.0, p.1),
        attrs@.len() == 1024,
    ensures
        final(stack)@ == old(stack)@ + fill_neighbors(attr_keys(attrs@), p, attr_key(*target)),
{
    let ghost keys = attr_keys(attrs@);
    let ghost s0 = stack@;
    proof {
        assert forall|i: int| 0 <= i < 1024 implies (same_attr(#[trigger] attrs@[i], *target) <==> keys[i] == attr_key(
            *target,
        )) by {
            lemma_same_attr_key(attrs@[i], *target);
        }
    }
    if p.1 > 0 && attrs[p.0 as usize + (p.1 - 1) as usize * 32].equals(target) {
        stack.push((p.0, p.1 - 1));
    }
    let ghost s1 = stack@;
    if p.1 < 31 && attrs[p.0 as usize + (p.1 + 1) as usize * 32].equals(target) {
        stack.push((p.0, p.1 + 1));
    }
    let ghost s2 = stack@;
    if p.0 > 0 && attrs[(p.0 - 1) as usize + p.1 as usize * 32].equals(target) {
        stack.push((p.0 - 1, p.1));
    }
    let ghost s3 = stack@;
    if p.0 < 31 && attrs[(p.0 + 1) as usize + p.1 as usize * 32].equals(target) {
        stack.push((p.0 + 1, p.1));
    }
    assert(stack@ =~= s0 + fill_neighbors(keys, p, attr_key(*target)));
}

/// The attributes after filling the region of `start` with `new`: the region is taken
/// over the attributes as plain values, `base` gives the attributes outside it.
pub open spec fn attr_filled(
    keys: Seq<(u32, Seq<char>, crate::map_data::WarpData, crate::map_data::ItemSpawnData, u16)>,
    start: (u16, u16),
    base: Seq<MapAttribute>,
    new: MapAttribute,
) -> Seq<MapAttribute> {
    Seq::new(1024, |i: int| if in_region(keys, start, pos_of(i)) { new } else { base[i] })
}

/// The attribute fill's frame: everything but the attributes stays as it was.
pub open spec fn attr_fill_frame(data: EditorData, start: EditorData) -> bool {
    &&& data.wf()
    &&& data.mapdata.tile == start.mapdata.tile
    &&& data.mapdata.same_rest(start.mapdata)
    &&& data.pos == start.pos
    &&& data.undo == start.undo
    &&& data.redo == start.redo
    &&& data.unsaved_map == start.unsaved_map
    &&& data.exiting_save == start.exiting_save
    &&& data.changed == start.changed
    &&& data.temp_saved == start.temp_saved
}

/// `after` is `before` after an attribute fill (see [`update_attribute_fill`]).
pub open spec fn attr_fill_done(before: EditorData, after: EditorData, map_pos: (u16, u16), attribute: MapAttribute) -> bool {
    let a0 = before.mapdata.attribute@;
    if same_attr(a0[cell(map_pos)], attribute) {
        after == before
    } else {
        &&& after.mapdata.attribute@ == attr_filled(attr_keys(a0), map_pos, a0, attribute)
        &&& after.mapdata.tile == before.mapdata.tile
        &&& after.mapdata.same_rest(before.mapdata)
        &&& after.marked_edited(before)
    }
}

/// Fills the region of tile `map_pos` with `attribute`: every tile joined to it by adjacent
/// tiles holding the same attribute as it gets `attribute`. Nothing happens when the tile
/// already holds that attribute.
pub fn update_attribute_fill(data: &mut EditorData, map_pos: (u16, u16), attribute: MapAttribute)
    requires
        old(data).wf(),
        in_map(map_pos.0, map_pos.1),
    ensures
        final(data).wf(),
        attr_fill_done(*old(data), *final(data), map_pos, attribute),
        forall|base: MapData| attr_stroke_tracks(*old(data), base) ==> #[trigger] attr_stroke_tracks(*final(data), base),
        old(data).last_pos@.len() == 0 ==> attr_stroke_redoes(*final(data)),
{
    proof {
        if old(data).last_pos@.len() == 0 {
            lemma_fresh_attr_stroke_redoes(*old(data));
        }
    }
    let start_idx = map_pos.0 as usize + map_pos.1 as usize * 32;
    let old_attr = data.mapdata.attribute[start_idx].duplicate();
    if old_attr.equals(&attribute) {
        return;
    }
    let ghost a0 = old(data).mapdata.attribute@;
    let ghost keys = attr_keys(a0);
    let ghost old_key = attr_key(old_attr);
    let ghost new_key = attr_key(attribute);
    proof {
        lemma_same_attr_key(old_attr, attribute);
        assert(keys[cell(map_pos)] == old_key);
    }
    let mut stack: Vec<(u16, u16)> = Vec::new();
    stack.push(map_pos);
    proof {
        lemma_fill_start(keys, map_pos, new_key);
        assert(stack@ =~= seq![map_pos]);
        if old(data).last_pos@.len() == 0 {
            lemma_none_visited(old(data).last_pos@, keys, keys);
        }
    }
    while stack.len() > 0
        invariant
            attr_fill_frame(*data, *old(data)),
            a0 == old(data).mapdata.attribute@,
            keys == attr_keys(a0),
            old_key == attr_key(old_attr),
            new_key == attr_key(attribute),
            fill_inv(attr_keys(data.mapdata.attribute@), keys, map_pos, old_key, new_key, stack@),
            forall|i: int|
                0 <= i < 1024 ==> #[trigger] data.mapdata.attribute@[i] == a0[i] || (data.mapdata.attribute@[i]
                    == attribute && attr_keys(data.mapdata.attribute@)[i] != keys[i]),
            forall|base: MapData| attr_stroke_tracks(*old(data), base) ==> #[trigger] attr_stroke_tracks(*data, base),
            old(data).last_pos@.len() == 0 ==> attr_stroke_redoes(*data) && visits_painted(
                data.last_pos@,
                attr_keys(data.mapdata.attribute@),
                keys,
            ),
        decreases count_val(attr_keys(data.mapdata.attribute@), old_key), stack@.len(),
    {
        let ghost cur = attr_keys(data.mapdata.attribute@);
        let ghost a_before = data.mapdata.attribute@;
        let ghost before = stack@;
        let p = stack.pop().unwrap();
        assert(before.last() == p);
        assert(stack@ == before.drop_last());
        let idx = p.0 as usize + p.1 as usize * 32;
        proof {
            assert(in_map(before[before.len() - 1].0, before[before.len() - 1].1));
            lemma_same_attr_key(a_before[idx as int], old_attr);
        }
        if !data.mapdata.attribute[idx].equals(&old_attr) {
            proof {
                lemma_fill_skip(cur, keys, map_pos, old_key, new_key, before);
            }
            continue;
        }
        proof {
            lemma_fill_paint(cur, keys, map_pos, old_key, new_key, before);
            if old(data).last_pos@.len() == 0 {
                lemma_unpainted_not_visited(data.last_pos@, cur, keys, p);
            }
        }
        let ghost d_before = *data;
        paint_attr(data, p, &attribute);
        proof {
            assert(attr_keys(data.mapdata.attribute@) =~= cur.update(cell(p), new_key));
            if old(data).last_pos@.len() == 0 {
                lemma_fill_visits_painted(d_before.last_pos@, data.last_pos@, cur, keys, p, new_key);
            }
            assert forall|i: int|
                0 <= i < 1024 implies #[trigger] data.mapdata.attribute@[i] == a0[i] || (data.mapdata.attribute@[i]
                == attribute && attr_keys(data.mapdata.attribute@)[i] != keys[i]) by {
                if i != cell(p) {
                    assert(data.mapdata.attribute@[i] == a_before[i]);
                    assert(attr_keys(data.mapdata.attribute@)[i] == cur[i]);
                }
            }
            assert forall|base: MapData| attr_stroke_tracks(*old(data), base) implies #[trigger] attr_stroke_tracks(
                *data,
                base,
            ) by {
                assert(attr_stroke_tracks(d_before, base));
            }
        }
        push_attr_neighbors(&mut stack, &data.mapdata.attribute, p, &old_attr);
    }
    let ghost d_end = *data;
    data.changed = true;
    data.temp_saved = false;
    proof {
        assert forall|base: MapData| attr_stroke_tracks(*old(data), base) implies #[trigger] attr_stroke_tracks(
            *data,
            base,
        ) by {
            assert(attr_stroke_tracks(d_end, base));
            crate::stroke::lemma_attr_tracks_same_stroke(d_end, *data, base);
        }
        let cur = attr_keys(data.mapdata.attribute@);
        lemma_fill_done(cur, keys, map_pos, old_key, new_key);
        let f = attr_filled(keys, map_pos, a0, attribute);
        assert forall|i: int| 0 <= i < 1024 implies #[trigger] data.mapdata.attribute@[i] == f[i] by {
            lemma_pos_of(i);
            if in_region(keys, map_pos, pos_of(i)) {
                lemma_region_same(keys, map_pos, pos_of(i));
                assert(cur[i] == filled(keys, map_pos, new_key)[i]);
            } else {
                assert(cur[i] == filled(keys, map_pos, new_key)[i]);
            }
        }
        assert(data.mapdata.attribute@ =~= f);
    }
}

/// `after` is `before` with the attribute of tile `map_pos` set to `attribute`.
pub open spec fn attr_set_done(before: EditorData, after: EditorData, map_pos: (u16, u16), attribute: MapAttribute) -> bool {
    &&& after.mapdata.attribute@ == before.mapdata.attribute@.update(cell(map_pos), attribute)
    &&& after.mapdata.tile == before.mapdata.tile
    &&& after.mapdata.same_rest(before.mapdata)
    &&& after.marked_edited(before)
    &&& if before.last_pos@.contains(map_pos) {
        &&& after.last_pos == before.last_pos
        &&& after.change_placeholder == before.change_placeholder
        &&& after.tile_placeholder == before.tile_placeholder
        &&& after.attr_placeholder == before.attr_placeholder
    } else {
        &&& after.last_pos@ == before.last_pos@.push(map_pos)
        &&& after.change_placeholder == ChangePlaceHolder::Attributes
        &&& after.attr_placeholder.change@ == before.attr_placeholder.change@.push(
            AttrChangeData { x: map_pos.0, y: map_pos.1, from: before.mapdata.attribute@[cell(map_pos)], to: attribute },
        )
        &&& after.tile_placeholder.change@.len() == 0
    }
}

/// Sets the attribute of tile `map_pos` to `attribute`, recording the change in the stroke.
pub fn update_map_attribute(data: &mut EditorData, map_pos: (u16, u16), attribute: MapAttribute)
    requires
        old(data).wf(),
        in_map(map_pos.0, map_pos.1),
    ensures
        final(data).wf(),
        attr_set_done(*old(data), *final(data), map_pos, attribute),
        forall|base: MapData| attr_stroke_tracks(*old(data), base) ==> #[trigger] attr_stroke_tracks(*final(data), base),
        attr_stroke_redoes(*old(data)) && !old(data).last_pos@.contains(map_pos) ==> attr_stroke_redoes(*final(data)),
{
    paint_attr(data, map_pos, &attribute);
    let ghost d_end = *data;
    data.changed = true;
    data.temp_saved = false;
    proof {
        assert forall|base: MapData| attr_stroke_tracks(*old(data), base) implies #[trigger] attr_stroke_tracks(
            *data,
            base,
        ) by {
            assert(attr_stroke_tracks(d_end, base));
            crate::stroke::lemma_attr_tracks_same_stroke(d_end, *data, base);
        }
    }
}

/// Filling the same tile with the same id twice changes nothing the second time: the tile
/// already holds the id.
pub proof fn law_fill_twice_same(
    d0: EditorData,
    d1: EditorData,
    d2: EditorData,
    tool_layer: usize,
    map_pos: (u16, u16),
    set: bool,
    tile_id: Option<usize>,
)
    requires
        d0.wf(),
        tool_layer < 9,
        in_map(map_pos.0, map_pos.1),
        tile_id matches Some(id) ==> id <= u32::MAX,
        tile_fill_done(d0, d1, tool_layer, map_pos, set, tile_id),
        tile_fill_done(d1, d2, tool_layer, map_pos, set, tile_id),
    ensures
        d2 == d1,
{
    let layer = map_layer_of(tool_layer) as int;
    let vals = d0.mapdata.tiles()[layer];
    lemma_wf_tiles_shape(d0.mapdata);
    lemma_start_in_region(vals, map_pos);
    lemma_pos_of(cell(map_pos));
    assert(pos_of(cell(map_pos)) == map_pos);
}

} // verus!
