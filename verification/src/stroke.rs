use vstd::prelude::*;

use crate::editor::{
    EditorData, TileChangeData, AttrChangeData, apply_attrs, lemma_apply_attrs_pointwise, ChangePlaceHolder, apply_tiles, change_cell, committed, in_map, lemma_apply_tiles_pointwise,
    lemma_index_injective, lemma_wf_tiles_shape, stroke_reverts, tile_change_ok, undone, redone, EditorChange,
    lemma_apply_tiles_twice, lemma_apply_attrs_twice,
};
use crate::map_data::{MapData, MapAttribute, tile_index};

verus! {

/// The index of a tile of the map.
pub open spec fn cell(p: (u16, u16)) -> int {
    tile_index(p.0 as int, p.1 as int)
}

/// `d` is in a tile stroke on `layer` that began on map `base`: every tile that differs from
/// `base` is on `layer` and recorded, each recorded change remembers the tile's id in `base`,
/// and every position the stroke visited is recorded.
pub open spec fn tile_stroke_tracks(d: EditorData, base: MapData, layer: usize) -> bool {
    tracks_parts(d.mapdata, d.tile_placeholder.change@, d.change_placeholder, d.last_pos@, base, layer)
}

/// The parts of an editing state that [`tile_stroke_tracks`] reads.
#[verifier::opaque]
pub open spec fn tracks_parts(
    m: MapData,
    ph: Seq<TileChangeData>,
    holder: ChangePlaceHolder,
    visited: Seq<(u16, u16)>,
    base: MapData,
    layer: usize,
) -> bool {
    let t = m.tiles();
    let b = base.tiles();
    &&& layer < 9
    &&& base.wf()
    &&& m.same_rest(base)
    &&& m.attribute@ == base.attribute@
    &&& ph.len() > 0 ==> holder == ChangePlaceHolder::Tiles
    &&& forall|k: int|
        0 <= k < ph.len() ==> (#[trigger] ph[k]).layer == layer && ph[k].from as u32 == b[layer as int][tile_index(
            ph[k].x as int,
            ph[k].y as int,
        )]
    &&& forall|k: int|
        0 <= k < visited.len() ==> exists|j: int|
            0 <= j < ph.len() && (#[trigger] ph[j]).x == (#[trigger] visited[k]).0 && ph[j].y == visited[k].1
    &&& forall|l: int, i: int|
        0 <= l < 9 && 0 <= i < 1024 && #[trigger] t[l][i] != b[l][i] ==> l == layer && exists|k: int|
            0 <= k < ph.len() && change_cell(#[trigger] ph[k]) == (l, i)
}

/// Whether a stroke tracks a map depends only on the map data and the stroke's records.
pub proof fn lemma_tracks_same_stroke(d0: EditorData, d1: EditorData, base: MapData, layer: usize)
    requires
        d1.mapdata == d0.mapdata,
        d1.tile_placeholder == d0.tile_placeholder,
        d1.change_placeholder == d0.change_placeholder,
        d1.last_pos == d0.last_pos,
    ensures
        tile_stroke_tracks(d0, base, layer) == tile_stroke_tracks(d1, base, layer),
{
    reveal(tracks_parts);
}

/// A stroke that has not begun yet tracks the map as it is, on any layer.
pub proof fn lemma_fresh_stroke_tracks(d: EditorData, layer: usize)
    requires
        d.wf(),
        d.last_pos@.len() == 0,
        layer < 9,
    ensures
        tile_stroke_tracks(d, d.mapdata, layer),
{
    reveal(tracks_parts);
    assert(d.tile_placeholder.change@.len() == 0) by {
        if d.tile_placeholder.change@.len() > 0 {
            assert(d.last_pos@.contains((d.tile_placeholder.change@[0].x, d.tile_placeholder.change@[0].y)));
        }
    }
}

/// Undoing a tracked tile stroke gives back the tiles of the map it began on.
pub proof fn lemma_tracks_reverts(d: EditorData, base: MapData, layer: usize)
    requires
        d.wf(),
        tile_stroke_tracks(d, base, layer),
        d.tile_placeholder.change@.len() > 0,
    ensures
        stroke_reverts(d, base),
        d.mapdata.same_rest(base),
{
    reveal(tracks_parts);
    let t = d.mapdata.tiles();
    let b = base.tiles();
    let ph = d.tile_placeholder.change@;
    lemma_wf_tiles_shape(d.mapdata);
    lemma_wf_tiles_shape(base);
    lemma_apply_tiles_pointwise(t, ph, false);
    let r = apply_tiles(t, ph, false);
    assert forall|l: int| 0 <= l < 9 implies #[trigger] r[l] == b[l] by {
        assert forall|i: int| 0 <= i < 1024 implies #[trigger] r[l][i] == b[l][i] by {
            if exists|k: int| 0 <= k < ph.len() && change_cell(#[trigger] ph[k]) == (l, i) {
                let k = choose|k: int| 0 <= k < ph.len() && change_cell(#[trigger] ph[k]) == (l, i);
                assert(ph[k].layer == layer);
            } else if t[l][i] != b[l][i] {
                assert(t[l][i] != b[l][i]);
            }
        }
        assert(r[l] =~= b[l]);
    }
    assert(r =~= b);
}

/// Every tile change the stroke has recorded names a tile that still holds the change's new id:
/// redoing the stroke writes what the map shows.
pub open spec fn tile_stroke_redoes(d: EditorData) -> bool {
    forall|k: int|
        0 <= k < d.tile_placeholder.change@.len() ==> d.mapdata.tiles()[(#[trigger] d.tile_placeholder.change@[k]).layer as int][
        tile_index(d.tile_placeholder.change@[k].x as int, d.tile_placeholder.change@[k].y as int)]
            == d.tile_placeholder.change@[k].to as u32
}

/// A stroke that has not begun yet has recorded nothing, so redoing it writes nothing.
pub proof fn lemma_fresh_stroke_redoes(d: EditorData)
    requires
        d.wf(),
        d.last_pos@.len() == 0,
    ensures
        tile_stroke_redoes(d),
{
    assert(d.tile_placeholder.change@.len() == 0) by {
        if d.tile_placeholder.change@.len() > 0 {
            assert(d.last_pos@.contains((d.tile_placeholder.change@[0].x, d.tile_placeholder.change@[0].y)));
        }
    }
}

proof fn lemma_paint_keeps_redoes(d0: EditorData, d1: EditorData, layer: usize, p: (u16, u16), c: TileChangeData)
    requires
        d0.wf(),
        tile_stroke_redoes(d0),
        layer < 9,
        in_map(p.0, p.1),
        !d0.last_pos@.contains(p),
        c.x == p.0 && c.y == p.1 && c.layer == layer && c.to <= u32::MAX,
        d1.mapdata.tiles() == d0.mapdata.tiles().update(
            layer as int,
            d0.mapdata.tiles()[layer as int].update(cell(p), c.to as u32),
        ),
        d1.tile_placeholder.change@ == d0.tile_placeholder.change@.push(c),
    ensures
        tile_stroke_redoes(d1),
{
    lemma_wf_tiles_shape(d0.mapdata);
    let t0 = d0.mapdata.tiles();
    let t1 = d1.mapdata.tiles();
    let ph0 = d0.tile_placeholder.change@;
    let ph1 = d1.tile_placeholder.change@;
    assert forall|k: int| 0 <= k < ph1.len() implies t1[(#[trigger] ph1[k]).layer as int][tile_index(
        ph1[k].x as int,
        ph1[k].y as int,
    )] == ph1[k].to as u32 by {
        if k < ph0.len() {
            let e = ph0[k];
            assert(ph1[k] == e);
            assert(tile_change_ok(e));
            assert(d0.last_pos@.contains((e.x, e.y)));
            assert(tile_index(e.x as int, e.y as int) != cell(p)) by {
                if tile_index(e.x as int, e.y as int) == cell(p) {
                    lemma_index_injective(e.x, e.y, p.0, p.1);
                    assert((e.x, e.y) == p);
                }
            }
            assert(t1[e.layer as int][tile_index(e.x as int, e.y as int)] == t0[e.layer as int][tile_index(e.x as int, e.y as int)]);
        } else {
            assert(ph1[k] == c);
        }
    }
}

/// A stroke's visited tiles and tile records.
pub open spec fn stroke_of(d: EditorData) -> (Seq<(u16, u16)>, Seq<TileChangeData>) {
    (d.last_pos@, d.tile_placeholder.change@)
}

/// The stroke `s` after painting tile `p` of `layer`, which held `from`, with `to`: a tile the
/// stroke has not visited is visited and recorded; a visited tile keeps its first record.
pub open spec fn stroke_step(
    s: (Seq<(u16, u16)>, Seq<TileChangeData>),
    layer: usize,
    p: (u16, u16),
    from: u32,
    to: usize,
) -> (Seq<(u16, u16)>, Seq<TileChangeData>) {
    if s.0.contains(p) {
        s
    } else {
        (s.0.push(p), s.1.push(TileChangeData { x: p.0, y: p.1, layer, from: from as usize, to }))
    }
}

/// `after` holds the stroke `s`, which has as many tile records as `before`'s or more: when it
/// has more, it is a tile stroke without attribute records; else its kind and attribute records
/// are those of `before`.
pub open spec fn stroke_now(before: EditorData, after: EditorData, s: (Seq<(u16, u16)>, Seq<TileChangeData>)) -> bool {
    &&& stroke_of(after) == s
    &&& s.1.len() >= before.tile_placeholder.change@.len()
    &&& if s.1.len() > before.tile_placeholder.change@.len() {
        after.change_placeholder == ChangePlaceHolder::Tiles && after.attr_placeholder.change@.len() == 0
    } else {
        after.change_placeholder == before.change_placeholder && after.attr_placeholder == before.attr_placeholder
    }
}

/// A state holds its own stroke.
pub proof fn lemma_stroke_now_same(d0: EditorData, d1: EditorData)
    requires
        stroke_of(d1) == stroke_of(d0),
        d1.change_placeholder == d0.change_placeholder,
        d1.attr_placeholder == d0.attr_placeholder,
    ensures
        stroke_now(d0, d1, stroke_of(d0)),
{
}

/// Two stroke steps in a row make one.
pub proof fn lemma_stroke_now_trans(
    d0: EditorData,
    d1: EditorData,
    d2: EditorData,
    s1: (Seq<(u16, u16)>, Seq<TileChangeData>),
    s2: (Seq<(u16, u16)>, Seq<TileChangeData>),
)
    requires
        stroke_now(d0, d1, s1),
        stroke_now(d1, d2, s2),
    ensures
        stroke_now(d0, d2, s2),
{
}

/// Fields beside the stroke do not matter to what a state's stroke is.
pub proof fn lemma_stroke_now_frame(d0: EditorData, d1: EditorData, d2: EditorData, s: (Seq<(u16, u16)>, Seq<TileChangeData>))
    requires
        stroke_now(d0, d1, s),
        stroke_of(d2) == stroke_of(d1),
        d2.change_placeholder == d1.change_placeholder,
        d2.attr_placeholder == d1.attr_placeholder,
    ensures
        stroke_now(d0, d2, s),
{
}

/// Records tile `p` of `layer` as going from `here` to `new_id`, and writes `new_id` there.
pub fn paint_tile(data: &mut EditorData, layer: usize, p: (u16, u16), here: u32, new_id: usize)
    requires
        old(data).wf(),
        layer < 9,
        in_map(p.0, p.1),
        here == old(data).mapdata.tiles()[layer as int][cell(p)],
        new_id <= u32::MAX,
    ensures
        final(data).wf(),
        final(data).mapdata.tiles() == old(data).mapdata.tiles().update(
            layer as int,
            old(data).mapdata.tiles()[layer as int].update(cell(p), new_id as u32),
        ),
        final(data).mapdata.attribute == old(data).mapdata.attribute,
        final(data).mapdata.same_rest(old(data).mapdata),
        final(data).pos == old(data).pos,
        final(data).changed == old(data).changed,
        final(data).temp_saved == old(data).temp_saved,
        final(data).undo == old(data).undo,
        final(data).redo == old(data).redo,
        final(data).unsaved_map == old(data).unsaved_map,
        final(data).exiting_save == old(data).exiting_save,
        !old(data).last_pos@.contains(p) ==> {
            &&& final(data).last_pos@ == old(data).last_pos@.push(p)
            &&& final(data).change_placeholder == ChangePlaceHolder::Tiles
            &&& final(data).tile_placeholder.change@ == old(data).tile_placeholder.change@.push(
                TileChangeData { x: p.0, y: p.1, layer, from: here as usize, to: new_id },
            )
            &&& final(data).attr_placeholder.change@.len() == 0
        },
        old(data).last_pos@.contains(p) ==> {
            &&& final(data).last_pos == old(data).last_pos
            &&& final(data).change_placeholder == old(data).change_placeholder
            &&& final(data).tile_placeholder == old(data).tile_placeholder
            &&& final(data).attr_placeholder == old(data).attr_placeholder
        },
        forall|base: MapData|
            tile_stroke_tracks(*old(data), base, layer) ==> #[trigger] tile_stroke_tracks(*final(data), base, layer),
        tile_stroke_redoes(*old(data)) && !old(data).last_pos@.contains(p) ==> tile_stroke_redoes(*final(data)),
        stroke_now(*old(data), *final(data), stroke_step(stroke_of(*old(data)), layer, p, here, new_id)),
{
    proof {
        lemma_wf_tiles_shape(data.mapdata);
    }
    let ghost d0 = *data;
    let ghost t0 = data.mapdata.tiles();
    data.record_tile(p.0, p.1, layer, here as usize, new_id);
    let idx = p.0 as usize + p.1 as usize * 32;
    data.mapdata.tile[layer].id[idx] = new_id as u32;
    proof {
        assert(data.mapdata.tiles() =~~= t0.update(layer as int, t0[layer as int].update(idx as int, new_id as u32)));
        assert(p == (p.0, p.1));
        assert forall|base: MapData| tile_stroke_tracks(d0, base, layer) implies #[trigger] tile_stroke_tracks(
            *data,
            base,
            layer,
        ) by {
            lemma_paint_keeps_tracks(d0, *data, base, layer, p, here, new_id);
        }
        if tile_stroke_redoes(d0) && !d0.last_pos@.contains(p) {
            lemma_paint_keeps_redoes(d0, *data, layer, p, TileChangeData { x: p.0, y: p.1, layer, from: here as usize, to: new_id });
        }
    }
}

proof fn lemma_paint_keeps_tracks(
    d0: EditorData,
    d1: EditorData,
    base: MapData,
    layer: usize,
    p: (u16, u16),
    here: u32,
    new_id: usize,
)
    requires
        d0.wf(),
        tile_stroke_tracks(d0, base, layer),
        in_map(p.0, p.1),
        here == d0.mapdata.tiles()[layer as int][cell(p)],
        d1.mapdata.tiles() == d0.mapdata.tiles().update(
            layer as int,
            d0.mapdata.tiles()[layer as int].update(cell(p), new_id as u32),
        ),
        d1.mapdata.attribute == d0.mapdata.attribute,
        d1.mapdata.same_rest(d0.mapdata),
        d0.last_pos@.contains(p) ==> {
            &&& d1.last_pos == d0.last_pos
            &&& d1.tile_placeholder == d0.tile_placeholder
            &&& d1.change_placeholder == d0.change_placeholder
        },
        !d0.last_pos@.contains(p) ==> {
            &&& d1.last_pos@ == d0.last_pos@.push(p)
            &&& d1.change_placeholder == ChangePlaceHolder::Tiles
            &&& d1.tile_placeholder.change@ == d0.tile_placeholder.change@.push(
                TileChangeData { x: p.0, y: p.1, layer, from: here as usize, to: new_id },
            )
        },
    ensures
        tile_stroke_tracks(d1, base, layer),
{
    reveal(tracks_parts);
    lemma_wf_tiles_shape(d0.mapdata);
    lemma_wf_tiles_shape(base);
    let t0 = d0.mapdata.tiles();
    let t1 = d1.mapdata.tiles();
    let b = base.tiles();
    let ph0 = d0.tile_placeholder.change@;
    let ph1 = d1.tile_placeholder.change@;
    let c = cell(p);
    if d0.last_pos@.contains(p) {
        let k0 = choose|k: int| 0 <= k < d0.last_pos@.len() && d0.last_pos@[k] == p;
        let j0 = choose|j: int|
            0 <= j < ph0.len() && (#[trigger] ph0[j]).x == (#[trigger] d0.last_pos@[k0]).0 && ph0[j].y
                == d0.last_pos@[k0].1;
        assert(change_cell(ph0[j0]) == (layer as int, c));
        assert forall|l: int, i: int|
            0 <= l < 9 && 0 <= i < 1024 && #[trigger] t1[l][i] != b[l][i] implies l == layer && exists|k: int|
            0 <= k < ph1.len() && change_cell(#[trigger] ph1[k]) == (l, i) by {
            if l == layer && i == c {
                assert(change_cell(ph1[j0]) == (l, i));
            } else {
                assert(t1[l][i] == t0[l][i]);
            }
        }
    } else {
        assert(here == b[layer as int][c]) by {
            if t0[layer as int][c] != b[layer as int][c] {
                let k = choose|k: int| 0 <= k < ph0.len() && change_cell(#[trigger] ph0[k]) == (layer as int, c);
                assert(tile_change_ok(ph0[k]));
                lemma_index_injective(ph0[k].x, ph0[k].y, p.0, p.1);
                assert(d0.last_pos@.contains((ph0[k].x, ph0[k].y)));
            }
        }
        let n = ph0.len() as int;
        assert(change_cell(ph1[n]) == (layer as int, c));
        assert forall|k: int| 0 <= k < ph1.len() implies (#[trigger] ph1[k]).layer == layer && ph1[k].from as u32
            == b[layer as int][tile_index(ph1[k].x as int, ph1[k].y as int)] by {
            if k < n {
                assert(ph1[k] == ph0[k]);
            }
        }
        assert forall|k: int| 0 <= k < d1.last_pos@.len() implies exists|j: int|
            0 <= j < ph1.len() && (#[trigger] ph1[j]).x == (#[trigger] d1.last_pos@[k]).0 && ph1[j].y
                == d1.last_pos@[k].1 by {
            if k < d0.last_pos@.len() {
                assert(d1.last_pos@[k] == d0.last_pos@[k]);
                let j = choose|j: int|
                    0 <= j < ph0.len() && (#[trigger] ph0[j]).x == (#[trigger] d0.last_pos@[k]).0 && ph0[j].y
                        == d0.last_pos@[k].1;
                assert(ph1[j] == ph0[j]);
            } else {
                assert(ph1[n].x == d1.last_pos@[k].0);
            }
        }
        assert forall|l: int, i: int|
            0 <= l < 9 && 0 <= i < 1024 && #[trigger] t1[l][i] != b[l][i] implies l == layer && exists|k: int|
            0 <= k < ph1.len() && change_cell(#[trigger] ph1[k]) == (l, i) by {
            if l == layer && i == c {
                assert(change_cell(ph1[n]) == (l, i));
            } else {
                assert(t1[l][i] == t0[l][i]);
                let k = choose|k: int| 0 <= k < ph0.len() && change_cell(#[trigger] ph0[k]) == (l, i);
                assert(ph1[k] == ph0[k]);
            }
        }
    }
}

/// However many tile edits a stroke on one layer took, once the stroke is ended one undo
/// gives back the tiles, attributes and all else of the map the stroke began on.
pub proof fn law_undo_takes_back_tile_stroke(
    base: MapData,
    layer: usize,
    d1: EditorData,
    d2: EditorData,
    d3: EditorData,
)
    requires
        d1.wf(),
        tile_stroke_tracks(d1, base, layer),
        d1.tile_placeholder.change@.len() > 0,
        committed(d1, d2),
        undone(d2, d3),
    ensures
        d3.mapdata.tiles() == base.tiles(),
        d3.mapdata.attribute@ == base.attribute@,
        d3.mapdata.same_rest(base),
{
    lemma_tracks_reverts(d1, base, layer);
    crate::editor::law_undo_takes_back_stroke(base, d1, d2, d3);
}

/// Once a tile stroke is ended, undoing it and then redoing it gives back the map as the stroke
/// left it, when every tile the stroke recorded still holds the id the stroke gave it.
pub proof fn law_redo_gives_back_tile_stroke(d1: EditorData, d2: EditorData, d3: EditorData, d4: EditorData)
    requires
        d1.wf(),
        d1.change_placeholder == ChangePlaceHolder::Tiles,
        tile_stroke_redoes(d1),
        committed(d1, d2),
        undone(d2, d3),
        redone(d3, d4),
    ensures
        d4.mapdata.tiles() == d1.mapdata.tiles(),
        d4.mapdata.attribute@ == d1.mapdata.attribute@,
        d4.mapdata.same_rest(d1.mapdata),
        d4.undo@ == d2.undo@,
        d4.redo@.len() == 0,
{
    let ph = d1.tile_placeholder.change@;
    let t = d1.mapdata.tiles();
    assert(d2.undo@.last() == EditorChange::Tile(d1.tile_placeholder));
    assert(d3.redo@.last() == EditorChange::Tile(d1.tile_placeholder));
    lemma_wf_tiles_shape(d1.mapdata);
    lemma_apply_tiles_twice(t, ph, false, true);
    lemma_apply_tiles_pointwise(t, ph, true);
    let r = apply_tiles(t, ph, true);
    assert forall|l: int| 0 <= l < 9 implies #[trigger] r[l] =~= t[l] by {
        assert forall|i: int| 0 <= i < 1024 implies r[l][i] == t[l][i] by {
            if exists|k: int| 0 <= k < ph.len() && change_cell(#[trigger] ph[k]) == (l, i) {
                let k = choose|k: int| 0 <= k < ph.len() && change_cell(#[trigger] ph[k]) == (l, i);
                assert(t[ph[k].layer as int][tile_index(ph[k].x as int, ph[k].y as int)] == ph[k].to as u32);
            }
        }
    }
    assert(r =~= t);
    assert(d4.undo@ =~= d2.undo@);
}

/// `d` is in an attribute stroke that began on map `base`: every attribute that differs from
/// `base` is recorded, each recorded change remembers the attribute in `base`, and every
/// position the stroke visited is recorded.
pub open spec fn attr_stroke_tracks(d: EditorData, base: MapData) -> bool {
    attr_tracks_parts(d.mapdata, d.attr_placeholder.change@, d.change_placeholder, d.last_pos@, base)
}

/// The parts of an editing state that [`attr_stroke_tracks`] reads.
#[verifier::opaque]
pub open spec fn attr_tracks_parts(
    m: MapData,
    ph: Seq<AttrChangeData>,
    holder: ChangePlaceHolder,
    visited: Seq<(u16, u16)>,
    base: MapData,
) -> bool {
    let a = m.attribute@;
    let b = base.attribute@;
    &&& base.wf()
    &&& m.same_rest(base)
    &&& m.tiles() == base.tiles()
    &&& ph.len() > 0 ==> holder == ChangePlaceHolder::Attributes
    &&& forall|k: int|
        0 <= k < ph.len() ==> (#[trigger] ph[k]).from == b[tile_index(ph[k].x as int, ph[k].y as int)]
    &&& forall|k: int|
        0 <= k < visited.len() ==> exists|j: int|
            0 <= j < ph.len() && (#[trigger] ph[j]).x == (#[trigger] visited[k]).0 && ph[j].y == visited[k].1
    &&& forall|i: int|
        0 <= i < 1024 && #[trigger] a[i] != b[i] ==> exists|k: int|
            0 <= k < ph.len() && tile_index((#[trigger] ph[k]).x as int, ph[k].y as int) == i
}

/// Whether an attribute stroke tracks a map depends only on the map data and the stroke's records.
pub proof fn lemma_attr_tracks_same_stroke(d0: EditorData, d1: EditorData, base: MapData)
    requires
        d1.mapdata == d0.mapdata,
        d1.attr_placeholder == d0.attr_placeholder,
        d1.change_placeholder == d0.change_placeholder,
        d1.last_pos == d0.last_pos,
    ensures
        attr_stroke_tracks(d0, base) == attr_stroke_tracks(d1, base),
{
}

/// An attribute stroke that has not begun yet tracks the map as it is.
pub proof fn lemma_fresh_attr_stroke_tracks(d: EditorData)
    requires
        d.wf(),
        d.last_pos@.len() == 0,
    ensures
        attr_stroke_tracks(d, d.mapdata),
{
    reveal(attr_tracks_parts);
    assert(d.attr_placeholder.change@.len() == 0) by {
        if d.attr_placeholder.change@.len() > 0 {
            assert(d.last_pos@.contains((d.attr_placeholder.change@[0].x, d.attr_placeholder.change@[0].y)));
        }
    }
}

/// Undoing a tracked attribute stroke gives back the attributes of the map it began on.
pub proof fn lemma_attr_tracks_reverts(d: EditorData, base: MapData)
    requires
        d.wf(),
        attr_stroke_tracks(d, base),
        d.attr_placeholder.change@.len() > 0,
    ensures
        stroke_reverts(d, base),
        d.mapdata.same_rest(base),
{
    reveal(attr_tracks_parts);
    let a = d.mapdata.attribute@;
    let b = base.attribute@;
    let ph = d.attr_placeholder.change@;
    lemma_apply_attrs_pointwise(a, ph, false);
    let r = apply_attrs(a, ph, false);
    assert forall|i: int| 0 <= i < 1024 implies #[trigger] r[i] == b[i] by {
        if exists|k: int| 0 <= k < ph.len() && tile_index(#[trigger] ph[k].x as int, ph[k].y as int) == i {
        } else if a[i] != b[i] {
            let k = choose|k: int| 0 <= k < ph.len() && tile_index((#[trigger] ph[k]).x as int, ph[k].y as int) == i;
            assert(tile_index(ph[k].x as int, ph[k].y as int) == i);
        }
    }
    assert(r =~= b);
}

/// Every attribute change the stroke has recorded names a tile that still holds the change's
/// new attribute: redoing the stroke writes what the map shows.
pub open spec fn attr_stroke_redoes(d: EditorData) -> bool {
    forall|k: int|
        0 <= k < d.attr_placeholder.change@.len() ==> d.mapdata.attribute@[tile_index(
            (#[trigger] d.attr_placeholder.change@[k]).x as int,
            d.attr_placeholder.change@[k].y as int,
        )] == d.attr_placeholder.change@[k].to
}

/// A stroke that has not begun yet has recorded no attribute, so redoing it writes nothing.
pub proof fn lemma_fresh_attr_stroke_redoes(d: EditorData)
    requires
        d.wf(),
        d.last_pos@.len() == 0,
    ensures
        attr_stroke_redoes(d),
{
    assert(d.attr_placeholder.change@.len() == 0) by {
        if d.attr_placeholder.change@.len() > 0 {
            assert(d.last_pos@.contains((d.attr_placeholder.change@[0].x, d.attr_placeholder.change@[0].y)));
        }
    }
}

proof fn lemma_paint_attr_keeps_redoes(d0: EditorData, d1: EditorData, p: (u16, u16), c: AttrChangeData)
    requires
        d0.wf(),
        attr_stroke_redoes(d0),
        in_map(p.0, p.1),
        !d0.last_pos@.contains(p),
        c.x == p.0 && c.y == p.1,
        d1.mapdata.attribute@ == d0.mapdata.attribute@.update(cell(p), c.to),
        d1.attr_placeholder.change@ == d0.attr_placeholder.change@.push(c),
    ensures
        attr_stroke_redoes(d1),
{
    let a0 = d0.mapdata.attribute@;
    let a1 = d1.mapdata.attribute@;
    let ph0 = d0.attr_placeholder.change@;
    let ph1 = d1.attr_placeholder.change@;
    assert forall|k: int| 0 <= k < ph1.len() implies a1[tile_index((#[trigger] ph1[k]).x as int, ph1[k].y as int)]
        == ph1[k].to by {
        if k < ph0.len() {
            let e = ph0[k];
            assert(ph1[k] == e);
            assert(in_map(e.x, e.y));
            assert(d0.last_pos@.contains((e.x, e.y)));
            assert(tile_index(e.x as int, e.y as int) != cell(p)) by {
                if tile_index(e.x as int, e.y as int) == cell(p) {
                    lemma_index_injective(e.x, e.y, p.0, p.1);
                    assert((e.x, e.y) == p);
                }
            }
        } else {
            assert(ph1[k] == c);
        }
    }
}

/// Records the attribute of tile `p` as going from what it is to `new`, and writes `new` there.
pub fn paint_attr(data: &mut EditorData, p: (u16, u16), new: &MapAttribute)
    requires
        old(data).wf(),
        in_map(p.0, p.1),
    ensures
        final(data).wf(),
        final(data).mapdata.attribute@ == old(data).mapdata.attribute@.update(cell(p), *new),
        final(data).mapdata.tile == old(data).mapdata.tile,
        final(data).mapdata.same_rest(old(data).mapdata),
        final(data).pos == old(data).pos,
        final(data).changed == old(data).changed,
        final(data).temp_saved == old(data).temp_saved,
        final(data).undo == old(data).undo,
        final(data).redo == old(data).redo,
        final(data).unsaved_map == old(data).unsaved_map,
        final(data).exiting_save == old(data).exiting_save,
        !old(data).last_pos@.contains(p) ==> {
            &&& final(data).last_pos@ == old(data).last_pos@.push(p)
            &&& final(data).change_placeholder == ChangePlaceHolder::Attributes
            &&& final(data).attr_placeholder.change@ == old(data).attr_placeholder.change@.push(
                AttrChangeData { x: p.0, y: p.1, from: old(data).mapdata.attribute@[cell(p)], to: *new },
            )
            &&& final(data).tile_placeholder.change@.len() == 0
        },
        old(data).last_pos@.contains(p) ==> {
            &&& final(data).last_pos == old(data).last_pos
            &&& final(data).change_placeholder == old(data).change_placeholder
            &&& final(data).tile_placeholder == old(data).tile_placeholder
            &&& final(data).attr_placeholder == old(data).attr_placeholder
        },
        forall|base: MapData| attr_stroke_tracks(*old(data), base) ==> #[trigger] attr_stroke_tracks(*final(data), base),
        attr_stroke_redoes(*old(data)) && !old(data).last_pos@.contains(p) ==> attr_stroke_redoes(*final(data)),
{
    let ghost d0 = *data;
    let idx = p.0 as usize + p.1 as usize * 32;
    let here = data.mapdata.attribute[idx].duplicate();
    data.record_attr(p.0, p.1, here, new.duplicate());
    data.mapdata.attribute.set(idx, new.duplicate());
    proof {
        assert(p == (p.0, p.1));
        assert forall|base: MapData| attr_stroke_tracks(d0, base) implies #[trigger] attr_stroke_tracks(*data, base) by {
            lemma_paint_attr_keeps_tracks(d0, *data, base, p, *new);
        }
        if attr_stroke_redoes(d0) && !d0.last_pos@.contains(p) {
            lemma_paint_attr_keeps_redoes(
                d0,
                *data,
                p,
                AttrChangeData { x: p.0, y: p.1, from: d0.mapdata.attribute@[cell(p)], to: *new },
            );
        }
    }
}

proof fn lemma_paint_attr_keeps_tracks(d0: EditorData, d1: EditorData, base: MapData, p: (u16, u16), new: MapAttribute)
    requires
        d0.wf(),
        attr_stroke_tracks(d0, base),
        in_map(p.0, p.1),
        d1.mapdata.attribute@ == d0.mapdata.attribute@.update(cell(p), new),
        d1.mapdata.tile == d0.mapdata.tile,
        d1.mapdata.same_rest(d0.mapdata),
        d0.last_pos@.contains(p) ==> {
            &&& d1.last_pos == d0.last_pos
            &&& d1.attr_placeholder == d0.attr_placeholder
            &&& d1.change_placeholder == d0.change_placeholder
        },
        !d0.last_pos@.contains(p) ==> {
            &&& d1.last_pos@ == d0.last_pos@.push(p)
            &&& d1.change_placeholder == ChangePlaceHolder::Attributes
            &&& d1.attr_placeholder.change@ == d0.attr_placeholder.change@.push(
                AttrChangeData { x: p.0, y: p.1, from: d0.mapdata.attribute@[cell(p)], to: new },
            )
        },
    ensures
        attr_stroke_tracks(d1, base),
{
    reveal(attr_tracks_parts);
    let a0 = d0.mapdata.attribute@;
    let a1 = d1.mapdata.attribute@;
    let b = base.attribute@;
    let ph0 = d0.attr_placeholder.change@;
    let ph1 = d1.attr_placeholder.change@;
    let c = cell(p);
    assert(d1.mapdata.tiles() =~= d0.mapdata.tiles());
    if d0.last_pos@.contains(p) {
        let k0 = choose|k: int| 0 <= k < d0.last_pos@.len() && d0.last_pos@[k] == p;
        let j0 = choose|j: int|
            0 <= j < ph0.len() && (#[trigger] ph0[j]).x == (#[trigger] d0.last_pos@[k0]).0 && ph0[j].y
                == d0.last_pos@[k0].1;
        assert forall|i: int| 0 <= i < 1024 && #[trigger] a1[i] != b[i] implies exists|k: int|
            0 <= k < ph1.len() && tile_index((#[trigger] ph1[k]).x as int, ph1[k].y as int) == i by {
            if i == c {
                assert(tile_index(ph1[j0].x as int, ph1[j0].y as int) == i);
            } else {
                assert(a1[i] == a0[i]);
            }
        }
    } else {
        assert(a0[c] == b[c]) by {
            if a0[c] != b[c] {
                let k = choose|k: int| 0 <= k < ph0.len() && tile_index((#[trigger] ph0[k]).x as int, ph0[k].y as int) == c;
                assert(in_map(ph0[k].x, ph0[k].y));
                lemma_index_injective(ph0[k].x, ph0[k].y, p.0, p.1);
                assert(d0.last_pos@.contains((ph0[k].x, ph0[k].y)));
            }
        }
        let n = ph0.len() as int;
        assert forall|k: int| 0 <= k < ph1.len() implies (#[trigger] ph1[k]).from == b[tile_index(
            ph1[k].x as int,
            ph1[k].y as int,
        )] by {
            if k < n {
                assert(ph1[k] == ph0[k]);
            }
        }
        assert forall|k: int| 0 <= k < d1.last_pos@.len() implies exists|j: int|
            0 <= j < ph1.len() && (#[trigger] ph1[j]).x == (#[trigger] d1.last_pos@[k]).0 && ph1[j].y
                == d1.last_pos@[k].1 by {
            if k < d0.last_pos@.len() {
                assert(d1.last_pos@[k] == d0.last_pos@[k]);
                let j = choose|j: int|
                    0 <= j < ph0.len() && (#[trigger] ph0[j]).x == (#[trigger] d0.last_pos@[k]).0 && ph0[j].y
                        == d0.last_pos@[k].1;
                assert(ph1[j] == ph0[j]);
            } else {
                assert(ph1[n].x == d1.last_pos@[k].0);
            }
        }
        assert forall|i: int| 0 <= i < 1024 && #[trigger] a1[i] != b[i] implies exists|k: int|
            0 <= k < ph1.len() && tile_index((#[trigger] ph1[k]).x as int, ph1[k].y as int) == i by {
            if i == c {
                assert(tile_index(ph1[n].x as int, ph1[n].y as int) == i);
            } else {
                assert(a1[i] == a0[i]);
                let k = choose|k: int| 0 <= k < ph0.len() && tile_index((#[trigger] ph0[k]).x as int, ph0[k].y as int) == i;
                assert(ph1[k] == ph0[k]);
            }
        }
    }
}

/// However many attribute edits a stroke took, once the stroke is ended one undo gives
/// back the attributes, tiles and all else of the map the stroke began on.
pub proof fn law_undo_takes_back_attr_stroke(base: MapData, d1: EditorData, d2: EditorData, d3: EditorData)
    requires
        d1.wf(),
        attr_stroke_tracks(d1, base),
        d1.attr_placeholder.change@.len() > 0,
        committed(d1, d2),
        undone(d2, d3),
    ensures
        d3.mapdata.tiles() == base.tiles(),
        d3.mapdata.attribute@ == base.attribute@,
        d3.mapdata.same_rest(base),
{
    lemma_attr_tracks_reverts(d1, base);
    crate::editor::law_undo_takes_back_stroke(base, d1, d2, d3);
}

/// Once an attribute stroke is ended, undoing it and then redoing it gives back the map as the
/// stroke left it, when every tile the stroke recorded still holds the attribute it was given.
pub proof fn law_redo_gives_back_attr_stroke(d1: EditorData, d2: EditorData, d3: EditorData, d4: EditorData)
    requires
        d1.wf(),
        d1.change_placeholder == ChangePlaceHolder::Attributes,
        attr_stroke_redoes(d1),
        committed(d1, d2),
        undone(d2, d3),
        redone(d3, d4),
    ensures
        d4.mapdata.tiles() == d1.mapdata.tiles(),
        d4.mapdata.attribute@ == d1.mapdata.attribute@,
        d4.mapdata.same_rest(d1.mapdata),
        d4.undo@ == d2.undo@,
        d4.redo@.len() == 0,
{
    let ph = d1.attr_placeholder.change@;
    let a = d1.mapdata.attribute@;
    assert(d2.undo@.last() == EditorChange::Attr(d1.attr_placeholder));
    assert(d3.redo@.last() == EditorChange::Attr(d1.attr_placeholder));
    lemma_apply_attrs_twice(a, ph, false, true);
    lemma_apply_attrs_pointwise(a, ph, true);
    let r = apply_attrs(a, ph, true);
    assert forall|i: int| 0 <= i < 1024 implies r[i] == a[i] by {
        if exists|k: int| 0 <= k < ph.len() && tile_index(#[trigger] ph[k].x as int, ph[k].y as int) == i {
            let k = choose|k: int| 0 <= k < ph.len() && tile_index(#[trigger] ph[k].x as int, ph[k].y as int) == i;
            assert(a[tile_index(ph[k].x as int, ph[k].y as int)] == ph[k].to);
        }
    }
    assert(r =~= a);
    assert(d4.undo@ =~= d2.undo@);
}

} // verus!
