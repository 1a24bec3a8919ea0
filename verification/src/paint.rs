use vstd::prelude::*;

use crate::editor::{EditorData, in_map, lemma_wf_tiles_shape, tiles_shape};
use crate::fill::{map_layer_of, tool_layer_to_map_layer};
use crate::map_data::MapData;
use crate::stroke::{
    cell, paint_tile, tile_stroke_tracks, lemma_tracks_same_stroke, tile_stroke_redoes, stroke_now, stroke_of, stroke_step,
    lemma_stroke_now_same, lemma_stroke_now_trans, lemma_stroke_now_frame,
};
use crate::editor::TileChangeData;

verus! {

/// The tile that entry `k` of a rectangle of `height` rows paints: the entry's place in the
/// rectangle when it has an id, else the rectangle's corner `start`.
pub open spec fn rect_target(start: (u16, u16), height: int, k: int, id: Option<usize>) -> (u16, u16) {
    match id {
        Some(_) => ((start.0 + k / height) as u16, (start.1 + k % height) as u16),
        None => start,
    }
}

/// The id that entry `id` paints: its id, or 0 (erase) when it has none.
pub open spec fn rect_value(id: Option<usize>) -> u32 {
    match id {
        Some(i) => i as u32,
        None => 0,
    }
}

/// A layer after painting the entries of `ids`, column by column, in order.
pub open spec fn rect_paint(vals: Seq<u32>, start: (u16, u16), height: int, ids: Seq<Option<usize>>) -> Seq<u32>
    decreases ids.len(),
{
    if ids.len() == 0 {
        vals
    } else {
        let k = ids.len() - 1;
        rect_paint(vals, start, height, ids.drop_last()).update(
            cell(rect_target(start, height, k, ids[k])),
            rect_value(ids[k]),
        )
    }
}

/// The id that entry `id` records as written: its id, or 0 when it has none.
pub open spec fn rect_id(id: Option<usize>) -> usize {
    match id {
        Some(i) => i,
        None => 0,
    }
}

/// The stroke `s` after painting the entries of `ids` on `layer`, which held `vals`, in order
/// (see [`rect_paint`]): each entry's tile is recorded with the id it held just before, unless
/// the stroke visited it already.
pub open spec fn rect_log(
    s: (Seq<(u16, u16)>, Seq<TileChangeData>),
    layer: usize,
    vals: Seq<u32>,
    start: (u16, u16),
    height: int,
    ids: Seq<Option<usize>>,
) -> (Seq<(u16, u16)>, Seq<TileChangeData>)
    decreases ids.len(),
{
    if ids.len() == 0 {
        s
    } else {
        let k = ids.len() - 1;
        let t = rect_target(start, height, k, ids[k]);
        stroke_step(
            rect_log(s, layer, vals, start, height, ids.drop_last()),
            layer,
            t,
            rect_paint(vals, start, height, ids.drop_last())[cell(t)],
            rect_id(ids[k]),
        )
    }
}

/// Every entry of `ids` paints a tile of the map with an id that fits a tile.
pub open spec fn rect_fits(start: (u16, u16), height: int, ids: Seq<Option<usize>>) -> bool {
    &&& in_map(start.0, start.1)
    &&& forall|k: int|
        0 <= k < ids.len() ==> (#[trigger] ids[k] matches Some(id) ==> id <= u32::MAX && start.0 + k / height < 32
            && start.1 + k % height < 32)
}

/// The entries of `ids` paint tiles that differ from each other and that the stroke has not
/// visited yet.
pub open spec fn rect_targets_fresh(
    visited: Seq<(u16, u16)>,
    start: (u16, u16),
    height: int,
    ids: Seq<Option<usize>>,
) -> bool {
    &&& forall|j: int| 0 <= j < ids.len() ==> !visited.contains(#[trigger] rect_target(start, height, j, ids[j]))
    &&& forall|i: int, j: int|
        0 <= i < j < ids.len() ==> #[trigger] rect_target(start, height, i, ids[i]) != #[trigger] rect_target(
            start,
            height,
            j,
            ids[j],
        )
}

/// What painting keeps: all but the one layer it paints, and the editing state beside the stroke.
pub open spec fn paint_frame(data: EditorData, start: EditorData, layer: int) -> bool {
    &&& draw_frame(data, start)
    &&& forall|l: int| 0 <= l < 9 && l != layer ==> #[trigger] data.mapdata.tiles()[l] == start.mapdata.tiles()[l]
}

/// What drawing on tile layers keeps: the attributes and the rest of the map, and the
/// editing state beside the stroke.
pub open spec fn draw_frame(data: EditorData, start: EditorData) -> bool {
    &&& data.wf()
    &&& tiles_shape(data.mapdata.tiles())
    &&& data.mapdata.attribute == start.mapdata.attribute
    &&& data.mapdata.same_rest(start.mapdata)
    &&& data.pos == start.pos
    &&& data.undo == start.undo
    &&& data.redo == start.redo
    &&& data.unsaved_map == start.unsaved_map
    &&& data.exiting_save == start.exiting_save
    &&& data.changed == start.changed
    &&& data.temp_saved == start.temp_saved
}

/// Paints a rectangle of `height` rows on map layer `layer`: entry `k` of `ids` stands for the
/// tile `k / height` columns right and `k % height` rows down of `start`, and writes its id
/// there; an entry without an id erases `start` instead. Each tile is recorded in the stroke.
pub fn paint_rect(data: &mut EditorData, layer: usize, start: (u16, u16), height: usize, ids: &Vec<Option<usize>>)
    requires
        old(data).wf(),
        layer < 9,
        height > 0,
        rect_fits(start, height as int, ids@),
    ensures
        paint_frame(*final(data), *old(data), layer as int),
        final(data).mapdata.tiles()[layer as int] == rect_paint(
            old(data).mapdata.tiles()[layer as int],
            start,
            height as int,
            ids@,
        ),
        forall|base: MapData|
            tile_stroke_tracks(*old(data), base, layer) ==> #[trigger] tile_stroke_tracks(*final(data), base, layer),
        tile_stroke_redoes(*old(data)) && rect_targets_fresh(old(data).last_pos@, start, height as int, ids@)
            ==> tile_stroke_redoes(*final(data)),
        stroke_now(
            *old(data),
            *final(data),
            rect_log(stroke_of(*old(data)), layer, old(data).mapdata.tiles()[layer as int], start, height as int, ids@),
        ),
{
    proof {
        lemma_wf_tiles_shape(data.mapdata);
    }
    let ghost vals = old(data).mapdata.tiles()[layer as int];
    let ghost fresh = tile_stroke_redoes(*old(data)) && rect_targets_fresh(old(data).last_pos@, start, height as int, ids@);
    proof {
        assert(ids@.take(0) =~= Seq::<Option<usize>>::empty());
        lemma_stroke_now_same(*old(data), *data);
    }
    let mut k: usize = 0;
    while k < ids.len()
        invariant
            paint_frame(*data, *old(data), layer as int),
            layer < 9,
            height > 0,
            rect_fits(start, height as int, ids@),
            vals == old(data).mapdata.tiles()[layer as int],
            k <= ids@.len(),
            data.mapdata.tiles()[layer as int] == rect_paint(vals, start, height as int, ids@.take(k as int)),
            forall|base: MapData|
                tile_stroke_tracks(*old(data), base, layer) ==> #[trigger] tile_stroke_tracks(*data, base, layer),
            fresh == (tile_stroke_redoes(*old(data)) && rect_targets_fresh(old(data).last_pos@, start, height as int, ids@)),
            stroke_now(
                *old(data),
                *data,
                rect_log(stroke_of(*old(data)), layer, vals, start, height as int, ids@.take(k as int)),
            ),
            fresh ==> tile_stroke_redoes(*data) && forall|j: int|
                k <= j < ids@.len() ==> !data.last_pos@.contains(#[trigger] rect_target(start, height as int, j, ids@[j])),
            fresh ==> forall|i: int, j: int|
                0 <= i < j < ids@.len() ==> #[trigger] rect_target(start, height as int, i, ids@[i]) != #[trigger] rect_target(
                    start,
                    height as int,
                    j,
                    ids@[j],
                ),
        decreases ids@.len() - k,
    {
        let ghost d_before = *data;
        let (p, v): ((u16, u16), usize) = match ids[k] {
            Some(id) => (((start.0 as usize + k / height) as u16, (start.1 as usize + k % height) as u16), id),
            None => (start, 0),
        };
        proof {
            let t = rect_target(start, height as int, k as int, ids@[k as int]);
            assert(in_map(t.0, t.1));
            assert(p == t);
            assert(data.mapdata.tile@[layer as int].id@ == data.mapdata.tiles()[layer as int]);
        }
        let here = data.mapdata.tile[layer].id[p.0 as usize + p.1 as usize * 32];
        paint_tile(data, layer, p, here, v);
        proof {
            lemma_wf_tiles_shape(data.mapdata);
            let pre = ids@.take(k as int);
            let nxt = ids@.take(k as int + 1);
            assert(nxt.drop_last() =~= pre);
            assert(nxt[k as int] == ids@[k as int]);
            assert(v == rect_id(ids@[k as int]));
            assert(here == rect_paint(vals, start, height as int, pre)[cell(p)]);
            lemma_stroke_now_trans(
                *old(data),
                d_before,
                *data,
                rect_log(stroke_of(*old(data)), layer, vals, start, height as int, pre),
                rect_log(stroke_of(*old(data)), layer, vals, start, height as int, nxt),
            );
            if fresh {
                assert forall|j: int| k + 1 <= j < ids@.len() implies !data.last_pos@.contains(
                    #[trigger] rect_target(start, height as int, j, ids@[j]),
                ) by {
                    let t = rect_target(start, height as int, j, ids@[j]);
                    assert(!d_before.last_pos@.contains(t));
                    assert(rect_target(start, height as int, k as int, ids@[k as int]) != t);
                    if data.last_pos@.contains(t) {
                        let i = choose|i: int| 0 <= i < data.last_pos@.len() && data.last_pos@[i] == t;
                        assert(i < d_before.last_pos@.len());
                        assert(d_before.last_pos@[i] == t);
                    }
                }
            }
            assert(ids@.take(k as int + 1).drop_last() =~= ids@.take(k as int));
            assert forall|base: MapData| tile_stroke_tracks(*old(data), base, layer) implies #[trigger] tile_stroke_tracks(
                *data,
                base,
                layer,
            ) by {
                assert(tile_stroke_tracks(d_before, base, layer));
            }
        }
        k = k + 1;
    }
    proof {
        assert(ids@.take(ids@.len() as int) =~= ids@);
    }
}

/// `after` is `before` after painting with the tile sheet selection (see [`update_map_tile`]).
pub open spec fn tile_paint_done(
    before: EditorData,
    after: EditorData,
    tool_layer: usize,
    map_pos: (u16, u16),
    set: bool,
    height: int,
    ids: Seq<Option<usize>>,
) -> bool {
    let layer = map_layer_of(tool_layer) as int;
    let t0 = before.mapdata.tiles();
    &&& after.mapdata.tiles() == t0.update(
        layer,
        if set {
            rect_paint(t0[layer], map_pos, height, ids)
        } else {
            t0[layer].update(cell(map_pos), 0)
        },
    )
    &&& after.mapdata.attribute == before.mapdata.attribute
    &&& after.mapdata.same_rest(before.mapdata)
    &&& after.marked_edited(before)
    &&& stroke_now(
        before,
        after,
        if set {
            rect_log(stroke_of(before), map_layer_of(tool_layer), t0[layer], map_pos, height, ids)
        } else {
            stroke_step(stroke_of(before), map_layer_of(tool_layer), map_pos, t0[layer][cell(map_pos)], 0)
        },
    )
}

/// Paints with the tile sheet selection: with `set`, a rectangle of `height` rows whose entries
/// are the tile ids the selected tiles have (an entry without one erases the tile under the
/// cursor); without `set`, erases the tile under the cursor. The layer is the one the tool bar's
/// `tool_layer` edits. The map is marked changed and not saved to its temporary file.
pub fn update_map_tile(
    data: &mut EditorData,
    tool_layer: usize,
    map_pos: (u16, u16),
    set: bool,
    height: usize,
    ids: &Vec<Option<usize>>,
)
    requires
        old(data).wf(),
        tool_layer < 9,
        in_map(map_pos.0, map_pos.1),
        set ==> height > 0 && rect_fits(map_pos, height as int, ids@),
    ensures
        final(data).wf(),
        tile_paint_done(*old(data), *final(data), tool_layer, map_pos, set, height as int, ids@),
        forall|base: MapData|
            tile_stroke_tracks(*old(data), base, map_layer_of(tool_layer)) ==> #[trigger] tile_stroke_tracks(
                *final(data),
                base,
                map_layer_of(tool_layer),
            ),
        tile_stroke_redoes(*old(data)) && (if set {
            rect_targets_fresh(old(data).last_pos@, map_pos, height as int, ids@)
        } else {
            !old(data).last_pos@.contains(map_pos)
        }) ==> tile_stroke_redoes(*final(data)),
{
    let layer = tool_layer_to_map_layer(tool_layer);
    proof {
        lemma_wf_tiles_shape(data.mapdata);
    }
    let ghost t0 = data.mapdata.tiles();
    if set {
        paint_rect(data, layer, map_pos, height, ids);
    } else {
        let erase: Vec<Option<usize>> = vec![None];
        proof {
            assert(rect_fits(map_pos, 1, erase@));
            assert(rect_target(map_pos, 1, 0, erase@[0]) == map_pos);
            assert(!old(data).last_pos@.contains(map_pos) ==> rect_targets_fresh(old(data).last_pos@, map_pos, 1, erase@));
        }
        paint_rect(data, layer, map_pos, 1, &erase);
        proof {
            assert(erase@.drop_last() =~= Seq::<Option<usize>>::empty());
            reveal_with_fuel(rect_paint, 2);
            reveal_with_fuel(rect_log, 2);
        }
    }
    let ghost d_end = *data;
    data.changed = true;
    data.temp_saved = false;
    proof {
        let s = if set {
            rect_log(stroke_of(*old(data)), layer, t0[layer as int], map_pos, height as int, ids@)
        } else {
            stroke_step(stroke_of(*old(data)), layer, map_pos, t0[layer as int][cell(map_pos)], 0)
        };
        lemma_stroke_now_frame(*old(data), d_end, *data, s);
        assert(data.mapdata.tiles() =~= t0.update(layer as int, data.mapdata.tiles()[layer as int]));
        assert forall|base: MapData| tile_stroke_tracks(*old(data), base, layer) implies #[trigger] tile_stroke_tracks(
            *data,
            base,
            layer,
        ) by {
            assert(tile_stroke_tracks(d_end, base, layer));
            lemma_tracks_same_stroke(d_end, *data, base, layer);
        }
    }
}

} // verus!
