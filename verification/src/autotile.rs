use vstd::prelude::*;

use crate::editor::{EditorData, in_map, lemma_wf_tiles_shape, tiles_shape};
use crate::map_data::MapData;
use crate::paint::{paint_frame, draw_frame, paint_rect, rect_fits, rect_paint, rect_log};
use crate::presets::{PresetData, PresetTypeList, span};
use crate::fill::{map_layer_of, tool_layer_to_map_layer};
use crate::stroke::{
    cell, paint_tile, tile_stroke_tracks, lemma_tracks_same_stroke, stroke_now, stroke_of, stroke_step, lemma_stroke_now_same,
    lemma_stroke_now_trans, lemma_stroke_now_frame,
};
use crate::editor::TileChangeData;

verus! {

/// Pieces of an autotile sheet, by column and row (rows counted from the bottom).
pub const AUTO_UL: (u32, u32) = (0, 2);
pub const AUTO_U: (u32, u32) = (1, 2);
pub const AUTO_UR: (u32, u32) = (2, 2);
pub const AUTO_L: (u32, u32) = (0, 1);
pub const AUTO_C: (u32, u32) = (1, 1);
pub const AUTO_R: (u32, u32) = (2, 1);
pub const AUTO_DL: (u32, u32) = (0, 0);
pub const AUTO_D: (u32, u32) = (1, 0);
pub const AUTO_DR: (u32, u32) = (2, 0);
pub const AUTO_CUL: (u32, u32) = (3, 2);
pub const AUTO_CUR: (u32, u32) = (4, 2);
pub const AUTO_CDL: (u32, u32) = (3, 1);
pub const AUTO_CDR: (u32, u32) = (4, 1);

/// Tile `p` of a layer holds one of the preset's tiles.
pub open spec fn tile_same(vals: Seq<u32>, preset_tiles: Seq<usize>, p: (u16, u16)) -> bool {
    preset_tiles.contains(vals[cell(p)] as usize)
}

/// The neighbor of `p` at offset `(dx, dy)` holds one of the preset's tiles; a neighbor off the
/// map counts as holding one.
pub open spec fn neighbor_same(vals: Seq<u32>, preset_tiles: Seq<usize>, p: (u16, u16), dx: int, dy: int) -> bool {
    let x = p.0 + dx;
    let y = p.1 + dy;
    if 0 <= x < 32 && 0 <= y < 32 {
        tile_same(vals, preset_tiles, (x as u16, y as u16))
    } else {
        true
    }
}

/// Which of the eight neighbors of `p` hold one of the preset's tiles, in the order
/// top left, top, top right, left, right, down left, down, down right (up is `y + 1`).
pub open spec fn match_key(vals: Seq<u32>, preset_tiles: Seq<usize>, p: (u16, u16)) -> [bool; 8] {
    [
        neighbor_same(vals, preset_tiles, p, -1, 1),
        neighbor_same(vals, preset_tiles, p, 0, 1),
        neighbor_same(vals, preset_tiles, p, 1, 1),
        neighbor_same(vals, preset_tiles, p, -1, 0),
        neighbor_same(vals, preset_tiles, p, 1, 0),
        neighbor_same(vals, preset_tiles, p, -1, -1),
        neighbor_same(vals, preset_tiles, p, 0, -1),
        neighbor_same(vals, preset_tiles, p, 1, -1),
    ]
}

/// Whether a tile id is one of the preset's tiles.
fn contains_id(preset_tiles: &Vec<usize>, id: usize) -> (r: bool)
    ensures
        r == preset_tiles@.contains(id),
{
    let mut i: usize = 0;
    while i < preset_tiles.len()
        invariant
            i <= preset_tiles@.len(),
            forall|j: int| 0 <= j < i ==> preset_tiles@[j] != id,
        decreases preset_tiles@.len() - i,
    {
        if preset_tiles[i] == id {
            assert(preset_tiles@[i as int] == id);
            return true;
        }
        i = i + 1;
    }
    false
}

/// Whether tile `p` of a layer holds one of the preset's tiles.
pub fn is_tile_same(ids: &Vec<u32>, preset_tiles: &Vec<usize>, p: (u16, u16)) -> (r: bool)
    requires
        ids@.len() == 1024,
        in_map(p.0, p.1),
    ensures
        r == tile_same(ids@, preset_tiles@, p),
{
    contains_id(preset_tiles, ids[p.0 as usize + p.1 as usize * 32] as usize)
}

/// Which of the eight neighbors of `p` hold one of the preset's tiles (see [`match_key`]).
pub fn check_match_direction(ids: &Vec<u32>, preset_tiles: &Vec<usize>, p: (u16, u16)) -> (r: [bool; 8])
    requires
        ids@.len() == 1024,
        in_map(p.0, p.1),
    ensures
        r == match_key(ids@, preset_tiles@, p),
{
    let (x, y) = p;
    let top = if y < 31 {
        is_tile_same(ids, preset_tiles, (x, y + 1))
    } else {
        true
    };
    let left = if x > 0 {
        is_tile_same(ids, preset_tiles, (x - 1, y))
    } else {
        true
    };
    let right = if x < 31 {
        is_tile_same(ids, preset_tiles, (x + 1, y))
    } else {
        true
    };
    let down = if y > 0 {
        is_tile_same(ids, preset_tiles, (x, y - 1))
    } else {
        true
    };
    let top_right = if x < 31 && y < 31 {
        is_tile_same(ids, preset_tiles, (x + 1, y + 1))
    } else {
        true
    };
    let top_left = if x > 0 && y < 31 {
        is_tile_same(ids, preset_tiles, (x - 1, y + 1))
    } else {
        true
    };
    let down_left = if x > 0 && y > 0 {
        is_tile_same(ids, preset_tiles, (x - 1, y - 1))
    } else {
        true
    };
    let down_right = if x < 31 && y > 0 {
        is_tile_same(ids, preset_tiles, (x + 1, y - 1))
    } else {
        true
    };
    let r = [top_left, top, top_right, left, right, down_left, down, down_right];
    assert(r =~= match_key(ids@, preset_tiles@, p));
    r
}

/// The piece of an autotile sheet that fits a tile with neighbors `key`.
pub open spec fn piece_of(key: [bool; 8]) -> (u32, u32) {
    let (tl, t, tr, l, r, dl, d, dr) = (key[0], key[1], key[2], key[3], key[4], key[5], key[6], key[7]);
    if !t && !l && r && d {
        AUTO_UL
    } else if !t && l && r && d {
        AUTO_U
    } else if !t && l && !r && d {
        AUTO_UR
    } else if t && !l && r && d {
        AUTO_L
    } else if t && l && !r && d {
        AUTO_R
    } else if t && !l && r && !d {
        AUTO_DL
    } else if t && l && r && !d {
        AUTO_D
    } else if t && l && !r && !d {
        AUTO_DR
    } else if tl && t && l && r && d && !dr {
        AUTO_CUL
    } else if t && tr && l && r && !dl && d {
        AUTO_CUR
    } else if t && !tr && l && r && dl && d {
        AUTO_CDL
    } else if !tl && t && l && r && d && dr {
        AUTO_CDR
    } else {
        AUTO_C
    }
}

/// The piece of an autotile sheet that fits a tile with neighbors `key`.
pub fn autotile_piece(key: [bool; 8]) -> (r: (u32, u32))
    ensures
        r == piece_of(key),
{
    let (tl, t, tr, l, r, dl, d, dr) = (key[0], key[1], key[2], key[3], key[4], key[5], key[6], key[7]);
    if !t && !l && r && d {
        AUTO_UL
    } else if !t && l && r && d {
        AUTO_U
    } else if !t && l && !r && d {
        AUTO_UR
    } else if t && !l && r && d {
        AUTO_L
    } else if t && l && !r && d {
        AUTO_R
    } else if t && !l && r && !d {
        AUTO_DL
    } else if t && l && r && !d {
        AUTO_D
    } else if t && l && !r && !d {
        AUTO_DR
    } else if tl && t && l && r && d && !dr {
        AUTO_CUL
    } else if t && tr && l && r && !dl && d {
        AUTO_CUR
    } else if t && !tr && l && r && dl && d {
        AUTO_CDL
    } else if !tl && t && l && r && d && dr {
        AUTO_CDR
    } else {
        AUTO_C
    }
}

/// The diagonal neighbor toward the top (`up`) or bottom, left (`left`) or right, in a key.
pub open spec fn key_diagonal(key: [bool; 8], up: bool, left: bool) -> bool {
    if up && left {
        key[0]
    } else if up {
        key[2]
    } else if left {
        key[5]
    } else {
        key[7]
    }
}

/// The edge pieces: the 3 by 3 block of the sheet but its center.
pub open spec fn is_edge_piece(p: (u32, u32)) -> bool {
    p.0 < 3 && p.1 < 3 && p != AUTO_C
}

/// The piece drawn for a tile fits its side neighbors. An edge piece is drawn exactly when the
/// tile has a neighbor above or below, one left or right, and misses at least one side; its
/// column shows the missing side (left column: no left neighbor, right column: no right
/// neighbor) and its row likewise (top row: nothing above, bottom row: nothing below). An
/// inner corner piece is drawn only for a tile with all four side neighbors, whose diagonal
/// toward the corner the piece names holds the preset's tiles and whose opposite diagonal does
/// not.
pub proof fn law_autotile_piece_fits(key: [bool; 8])
    ensures
        ({
            let (t, l, r, d) = (key[1], key[3], key[4], key[6]);
            let p = piece_of(key);
            &&& p.0 < 5 && p.1 < 3
            &&& is_edge_piece(p) <==> ((t || d) && (l || r) && !(t && l && r && d))
            &&& is_edge_piece(p) ==> {
                &&& (p.0 == 0) == !l
                &&& (p.0 == 2) == !r
                &&& (p.1 == 2) == !t
                &&& (p.1 == 0) == !d
            }
            &&& p.0 >= 3 ==> {
                &&& t && l && r && d
                &&& p.1 >= 1
                &&& key_diagonal(key, p.1 == 2, p.0 == 3)
                &&& !key_diagonal(key, p.1 != 2, p.0 != 3)
            }
        }),
{
}

/// A tile whose eight neighbors all hold the preset's tiles gets the center piece, and so
/// does a tile with no such neighbor.
pub proof fn law_autotile_center(key: [bool; 8])
    ensures
        (forall|i: int| 0 <= i < 8 ==> #[trigger] key[i]) ==> piece_of(key) == AUTO_C,
        (forall|i: int| 0 <= i < 8 ==> !#[trigger] key[i]) ==> piece_of(key) == AUTO_C,
{
    if forall|i: int| 0 <= i < 8 ==> #[trigger] key[i] {
        assert(key[0] && key[1] && key[2] && key[3] && key[4] && key[5] && key[6] && key[7]);
    }
    if forall|i: int| 0 <= i < 8 ==> !#[trigger] key[i] {
        assert(!key[1] && !key[3] && !key[4] && !key[6]);
    }
}

/// The index of a piece in a table of the pieces' tile ids: five columns per row.
pub open spec fn piece_index(piece: (u32, u32)) -> int {
    piece.0 + 5 * piece.1
}

/// The offset of candidate `k` (0 to 8) around a tile: columns left to right, rows down to up.
pub open spec fn candidate(p: (u16, u16), k: int) -> (int, int) {
    (p.0 + k / 3 - 1, p.1 + k % 3 - 1)
}

/// The tiles that placing an autotile at `p` looks at, in order: `p`, then those of the first
/// `n` candidates around it that lie on the map, leaving out `p` itself.
pub open spec fn autotile_positions_upto(p: (u16, u16), n: int) -> Seq<(u16, u16)>
    decreases n,
{
    if n <= 0 {
        seq![p]
    } else {
        let c = candidate(p, n - 1);
        let rest = autotile_positions_upto(p, n - 1);
        if n - 1 != 4 && 0 <= c.0 < 32 && 0 <= c.1 < 32 {
            rest.push((c.0 as u16, c.1 as u16))
        } else {
            rest
        }
    }
}

/// The tiles that placing an autotile at `p` looks at, in order.
pub open spec fn autotile_positions(p: (u16, u16)) -> Seq<(u16, u16)> {
    autotile_positions_upto(p, 9)
}

proof fn lemma_positions_in_map(p: (u16, u16), n: int)
    requires
        in_map(p.0, p.1),
        0 <= n <= 9,
    ensures
        forall|i: int|
            0 <= i < autotile_positions_upto(p, n).len() ==> in_map(
                #[trigger] autotile_positions_upto(p, n)[i].0,
                autotile_positions_upto(p, n)[i].1,
            ),
        autotile_positions_upto(p, n).len() >= 1,
        autotile_positions_upto(p, n)[0] == p,
    decreases n,
{
    if n > 0 {
        lemma_positions_in_map(p, n - 1);
    }
}

/// The tiles that placing an autotile at `p` looks at, in order.
pub fn autotile_check_positions(p: (u16, u16)) -> (r: Vec<(u16, u16)>)
    requires
        in_map(p.0, p.1),
    ensures
        r@ == autotile_positions(p),
        forall|i: int| 0 <= i < r@.len() ==> in_map(#[trigger] r@[i].0, r@[i].1),
{
    let mut r: Vec<(u16, u16)> = Vec::new();
    r.push(p);
    let mut k: usize = 0;
    while k < 9
        invariant
            k <= 9,
            in_map(p.0, p.1),
            r@ == autotile_positions_upto(p, k as int),
        decreases 9 - k,
    {
        let x: i32 = p.0 as i32 + (k / 3) as i32 - 1;
        let y: i32 = p.1 as i32 + (k % 3) as i32 - 1;
        if k != 4 && x >= 0 && x < 32 && y >= 0 && y < 32 {
            r.push((x as u16, y as u16));
        }
        k = k + 1;
    }
    proof {
        lemma_positions_in_map(p, 9);
    }
    r
}

/// The layer after one step of placing an autotile: tile `p`, when it is the placed tile or
/// holds one of the preset's tiles, gets the id of the piece its neighbors call for, when the
/// table `ids` has one.
pub open spec fn autotile_step(
    vals: Seq<u32>,
    preset_tiles: Seq<usize>,
    map_pos: (u16, u16),
    p: (u16, u16),
    ids: Seq<Option<usize>>,
) -> Seq<u32> {
    if p != map_pos && !tile_same(vals, preset_tiles, p) {
        vals
    } else {
        match ids[piece_index(piece_of(match_key(vals, preset_tiles, p)))] {
            Some(id) => vals.update(cell(p), id as u32),
            None => vals,
        }
    }
}

/// The layer after the steps of placing an autotile at the positions `ps`, in order.
pub open spec fn autotile_run(
    vals: Seq<u32>,
    preset_tiles: Seq<usize>,
    map_pos: (u16, u16),
    ps: Seq<(u16, u16)>,
    ids: Seq<Option<usize>>,
) -> Seq<u32>
    decreases ps.len(),
{
    if ps.len() == 0 {
        vals
    } else {
        autotile_step(autotile_run(vals, preset_tiles, map_pos, ps.drop_last(), ids), preset_tiles, map_pos, ps.last(), ids)
    }
}

/// The stroke `s` after placing an autotile on `layer`, which held `vals`, at the positions
/// `ps` in order (see [`autotile_run`]): each tile that a step writes is recorded with the id it
/// held just before, unless the stroke visited it already.
pub open spec fn autotile_log(
    s: (Seq<(u16, u16)>, Seq<TileChangeData>),
    layer: usize,
    vals: Seq<u32>,
    preset_tiles: Seq<usize>,
    map_pos: (u16, u16),
    ps: Seq<(u16, u16)>,
    ids: Seq<Option<usize>>,
) -> (Seq<(u16, u16)>, Seq<TileChangeData>)
    decreases ps.len(),
{
    if ps.len() == 0 {
        s
    } else {
        let prev = autotile_log(s, layer, vals, preset_tiles, map_pos, ps.drop_last(), ids);
        let cur = autotile_run(vals, preset_tiles, map_pos, ps.drop_last(), ids);
        let p = ps.last();
        if p != map_pos && !tile_same(cur, preset_tiles, p) {
            prev
        } else {
            match ids[piece_index(piece_of(match_key(cur, preset_tiles, p)))] {
                Some(id) => stroke_step(prev, layer, p, cur[cell(p)], id),
                None => prev,
            }
        }
    }
}

/// A table of piece ids: one entry per piece, each id fitting a tile.
pub open spec fn piece_table_ok(ids: Seq<Option<usize>>) -> bool {
    &&& ids.len() == 15
    &&& forall|i: int| 0 <= i < 15 ==> (#[trigger] ids[i] matches Some(id) ==> id <= u32::MAX)
}

/// Places one frame of an autotile on `layer`: the tile at `map_pos` and each tile around it
/// that holds one of the preset's tiles gets the piece its neighbors call for, in the order
/// of [`autotile_positions`], each step seeing the tiles the earlier steps wrote.
fn place_autotile_frame(
    data: &mut EditorData,
    layer: usize,
    map_pos: (u16, u16),
    preset_tiles: &Vec<usize>,
    ids: &Vec<Option<usize>>,
)
    requires
        old(data).wf(),
        layer < 9,
        in_map(map_pos.0, map_pos.1),
        piece_table_ok(ids@),
    ensures
        paint_frame(*final(data), *old(data), layer as int),
        final(data).mapdata.tiles()[layer as int] == autotile_run(
            old(data).mapdata.tiles()[layer as int],
            preset_tiles@,
            map_pos,
            autotile_positions(map_pos),
            ids@,
        ),
        forall|base: MapData|
            tile_stroke_tracks(*old(data), base, layer) ==> #[trigger] tile_stroke_tracks(*final(data), base, layer),
        stroke_now(
            *old(data),
            *final(data),
            autotile_log(
                stroke_of(*old(data)),
                layer,
                old(data).mapdata.tiles()[layer as int],
                preset_tiles@,
                map_pos,
                autotile_positions(map_pos),
                ids@,
            ),
        ),
{
    proof {
        lemma_wf_tiles_shape(data.mapdata);
        lemma_stroke_now_same(*old(data), *data);
    }
    let ghost vals = old(data).mapdata.tiles()[layer as int];
    let positions = autotile_check_positions(map_pos);
    let mut k: usize = 0;
    while k < positions.len()
        invariant
            paint_frame(*data, *old(data), layer as int),
            layer < 9,
            in_map(map_pos.0, map_pos.1),
            piece_table_ok(ids@),
            positions@ == autotile_positions(map_pos),
            forall|i: int| 0 <= i < positions@.len() ==> in_map(#[trigger] positions@[i].0, positions@[i].1),
            vals == old(data).mapdata.tiles()[layer as int],
            k <= positions@.len(),
            data.mapdata.tiles()[layer as int] == autotile_run(
                vals,
                preset_tiles@,
                map_pos,
                positions@.take(k as int),
                ids@,
            ),
            forall|base: MapData|
                tile_stroke_tracks(*old(data), base, layer) ==> #[trigger] tile_stroke_tracks(*data, base, layer),
            stroke_now(
                *old(data),
                *data,
                autotile_log(stroke_of(*old(data)), layer, vals, preset_tiles@, map_pos, positions@.take(k as int), ids@),
            ),
        decreases positions@.len() - k,
    {
        let p = positions[k];
        let ghost cur = data.mapdata.tiles()[layer as int];
        let ghost d0 = *data;
        let ghost log0 = autotile_log(stroke_of(*old(data)), layer, vals, preset_tiles@, map_pos, positions@.take(k as int), ids@);
        let ghost log1 = autotile_log(stroke_of(*old(data)), layer, vals, preset_tiles@, map_pos, positions@.take(k as int + 1), ids@);
        proof {
            assert(in_map(positions@[k as int].0, positions@[k as int].1));
            assert(positions@.take(k as int + 1).drop_last() =~= positions@.take(k as int));
            assert(positions@.take(k as int + 1).last() == p);
            assert(data.mapdata.tile@[layer as int].id@ == cur);
        }
        let same = is_tile_same(&data.mapdata.tile[layer].id, preset_tiles, p);
        if (p.0 != map_pos.0 || p.1 != map_pos.1) && !same {
            proof {
                assert(log1 == log0);
            }
            k = k + 1;
            continue;
        }
        let key = check_match_direction(&data.mapdata.tile[layer].id, preset_tiles, p);
        let piece = autotile_piece(key);
        let idx = piece.0 as usize + 5 * piece.1 as usize;
        if let Some(id) = ids[idx] {
            let ghost d_before = *data;
            let here = data.mapdata.tile[layer].id[p.0 as usize + p.1 as usize * 32];
            paint_tile(data, layer, p, here, id);
            proof {
                lemma_wf_tiles_shape(data.mapdata);
                assert(log1 == stroke_step(log0, layer, p, here, id));
                lemma_stroke_now_trans(*old(data), d_before, *data, log0, log1);
                assert forall|base: MapData|
                    tile_stroke_tracks(*old(data), base, layer) implies #[trigger] tile_stroke_tracks(
                    *data,
                    base,
                    layer,
                ) by {
                    assert(tile_stroke_tracks(d_before, base, layer));
                }
            }
        } else {
            proof {
                assert(log1 == log0);
            }
        }
        k = k + 1;
    }
    proof {
        assert(positions@.take(positions@.len() as int) =~= positions@);
    }
}

/// The first of the four animation layers.
pub const ANIM_LAYER: usize = 3;

/// The frame drawn on layer `l`: with `animated`, frame `f` on animation layer `f`; else frame 0
/// on `layer`; no frame on the other layers.
pub open spec fn frame_on_layer(animated: bool, layer: int, l: int) -> Option<int> {
    if animated && ANIM_LAYER <= l < ANIM_LAYER + 4 {
        Some(l - ANIM_LAYER)
    } else if !animated && l == layer {
        Some(0)
    } else {
        None
    }
}

/// The layer that frame `f` of a preset is drawn on: animation layer `f` when animated, else
/// `layer`.
pub open spec fn frame_layer(animated: bool, layer: int, f: int) -> int {
    if animated {
        ANIM_LAYER + f
    } else {
        layer
    }
}

/// How many frames of a preset are drawn: four when animated, else one.
pub open spec fn frame_count(animated: bool) -> nat {
    if animated {
        4
    } else {
        1
    }
}

/// The stroke `s` after placing the first `n` frames of an autotile on the map whose layers
/// were `t0` (see [`autotile_log`]), each frame on its own layer.
pub open spec fn autotile_frames_log(
    s: (Seq<(u16, u16)>, Seq<TileChangeData>),
    t0: Seq<Seq<u32>>,
    preset_tiles: Seq<usize>,
    map_pos: (u16, u16),
    piece_ids: Seq<Vec<Option<usize>>>,
    animated: bool,
    layer: int,
    n: nat,
) -> (Seq<(u16, u16)>, Seq<TileChangeData>)
    decreases n,
{
    if n == 0 {
        s
    } else {
        let f = n - 1;
        let l = frame_layer(animated, layer, f);
        autotile_log(
            autotile_frames_log(s, t0, preset_tiles, map_pos, piece_ids, animated, layer, (n - 1) as nat),
            l as usize,
            t0[l],
            preset_tiles,
            map_pos,
            autotile_positions(map_pos),
            piece_ids[f]@,
        )
    }
}

/// Places an autotile preset at `map_pos`: with `animated`, frame `f` on animation layer `f`,
/// else the first frame on `layer`. `piece_ids[f]` gives the tile id of each piece of frame
/// `f`'s sheet. The map is marked changed and not saved to its temporary file.
pub fn place_autotile(
    data: &mut EditorData,
    animated: bool,
    map_pos: (u16, u16),
    layer: usize,
    preset_tiles: &Vec<usize>,
    piece_ids: &Vec<Vec<Option<usize>>>,
)
    requires
        old(data).wf(),
        layer < 9,
        in_map(map_pos.0, map_pos.1),
        piece_ids@.len() == 4,
        forall|f: int| 0 <= f < 4 && (animated || f == 0) ==> piece_table_ok(#[trigger] piece_ids@[f]@),
    ensures
        final(data).wf(),
        final(data).mapdata.tiles().len() == 9,
        forall|l: int|
            0 <= l < 9 ==> #[trigger] final(data).mapdata.tiles()[l] == match frame_on_layer(animated, layer as int, l) {
                Some(f) => autotile_run(
                    old(data).mapdata.tiles()[l],
                    preset_tiles@,
                    map_pos,
                    autotile_positions(map_pos),
                    piece_ids@[f]@,
                ),
                None => old(data).mapdata.tiles()[l],
            },
        final(data).mapdata.attribute == old(data).mapdata.attribute,
        final(data).mapdata.same_rest(old(data).mapdata),
        final(data).changed,
        !final(data).temp_saved,
        final(data).pos == old(data).pos,
        final(data).undo == old(data).undo,
        final(data).redo == old(data).redo,
        final(data).unsaved_map == old(data).unsaved_map,
        final(data).exiting_save == old(data).exiting_save,
        !animated ==> forall|base: MapData|
            tile_stroke_tracks(*old(data), base, layer) ==> #[trigger] tile_stroke_tracks(*final(data), base, layer),
        stroke_now(
            *old(data),
            *final(data),
            autotile_frames_log(
                stroke_of(*old(data)),
                old(data).mapdata.tiles(),
                preset_tiles@,
                map_pos,
                piece_ids@,
                animated,
                layer as int,
                frame_count(animated),
            ),
        ),
{
    proof {
        lemma_wf_tiles_shape(data.mapdata);
        lemma_stroke_now_same(*old(data), *data);
    }
    let ghost t0 = old(data).mapdata.tiles();
    if animated {
        let mut f: usize = 0;
        while f < 4
            invariant
                f <= 4,
                draw_frame(*data, *old(data)),
                t0 == old(data).mapdata.tiles(),
                in_map(map_pos.0, map_pos.1),
                animated,
                piece_ids@.len() == 4,
                forall|g: int| 0 <= g < 4 && (animated || g == 0) ==> piece_table_ok(#[trigger] piece_ids@[g]@),
                forall|l: int|
                    0 <= l < 9 ==> #[trigger] data.mapdata.tiles()[l] == (if ANIM_LAYER <= l < ANIM_LAYER + f {
                        autotile_run(t0[l], preset_tiles@, map_pos, autotile_positions(map_pos), piece_ids@[l - ANIM_LAYER]@)
                    } else {
                        t0[l]
                    }),
                stroke_now(
                    *old(data),
                    *data,
                    autotile_frames_log(
                        stroke_of(*old(data)),
                        t0,
                        preset_tiles@,
                        map_pos,
                        piece_ids@,
                        animated,
                        layer as int,
                        f as nat,
                    ),
                ),
            decreases 4 - f,
        {
            let ghost before = data.mapdata.tiles();
            let ghost fi = f as int;
            let ghost d_before = *data;
            place_autotile_frame(data, ANIM_LAYER + f, map_pos, preset_tiles, &piece_ids[f]);
            proof {
                assert(before[ANIM_LAYER + fi] == t0[ANIM_LAYER + fi]);
                assert(frame_layer(animated, layer as int, fi) == ANIM_LAYER + fi);
                lemma_stroke_now_trans(
                    *old(data),
                    d_before,
                    *data,
                    autotile_frames_log(stroke_of(*old(data)), t0, preset_tiles@, map_pos, piece_ids@, animated, layer as int, fi as nat),
                    autotile_frames_log(stroke_of(*old(data)), t0, preset_tiles@, map_pos, piece_ids@, animated, layer as int, (fi + 1) as nat),
                );
                assert forall|l: int| 0 <= l < 9 implies #[trigger] data.mapdata.tiles()[l] == (if ANIM_LAYER <= l
                    < ANIM_LAYER + fi + 1 {
                    autotile_run(t0[l], preset_tiles@, map_pos, autotile_positions(map_pos), piece_ids@[l - ANIM_LAYER]@)
                } else {
                    t0[l]
                }) by {
                    if l != ANIM_LAYER + fi {
                        assert(data.mapdata.tiles()[l] == before[l]);
                    }
                }
            }
            f = f + 1;
        }
    } else {
        let ghost d_before = *data;
        place_autotile_frame(data, layer, map_pos, preset_tiles, &piece_ids[0]);
        proof {
            reveal_with_fuel(autotile_frames_log, 2);
            lemma_stroke_now_trans(
                *old(data),
                d_before,
                *data,
                stroke_of(*old(data)),
                autotile_frames_log(stroke_of(*old(data)), t0, preset_tiles@, map_pos, piece_ids@, animated, layer as int, 1),
            );
        }
    }
    let ghost d_end = *data;
    data.changed = true;
    data.temp_saved = false;
    proof {
        lemma_stroke_now_frame(
            *old(data),
            d_end,
            *data,
            autotile_frames_log(
                stroke_of(*old(data)),
                t0,
                preset_tiles@,
                map_pos,
                piece_ids@,
                animated,
                layer as int,
                frame_count(animated),
            ),
        );
        if !animated {
            assert forall|base: MapData| tile_stroke_tracks(*old(data), base, layer) implies #[trigger] tile_stroke_tracks(
                *data,
                base,
                layer,
            ) by {
                assert(tile_stroke_tracks(d_end, base, layer));
                lemma_tracks_same_stroke(d_end, *data, base, layer);
            }
        }
    }
}

/// The tile id tables that drawing a preset needs: for a normal or animated preset, frame `f`'s
/// rectangle of ids (one per tile, column by column, fitting the map from `map_pos`); for an
/// autotile preset, frame `f`'s table of piece ids. Only the frames drawn are looked at.
pub open spec fn preset_tables_ok(preset: PresetData, map_pos: (u16, u16), frame_ids: Seq<Vec<Option<usize>>>) -> bool {
    let animated = preset.draw_type.is_animated();
    &&& frame_ids.len() == 4
    &&& forall|f: int|
        0 <= f < 4 && (animated || f == 0) ==> {
            let fr = preset.frames[f];
            let ids = (#[trigger] frame_ids[f])@;
            if preset.draw_type == PresetTypeList::Normal || preset.draw_type == PresetTypeList::Animated {
                &&& ids.len() == span(fr.start.x, fr.end.x) * span(fr.start.y, fr.end.y)
                &&& rect_fits(map_pos, span(fr.start.y, fr.end.y), ids)
            } else {
                piece_table_ok(ids)
            }
        }
}

/// The stroke `s` after painting the first `n` frames of a normal or animated preset at
/// `map_pos` on the map whose layers were `t0` (see [`rect_log`]), each frame on its own layer.
pub open spec fn rect_frames_log(
    s: (Seq<(u16, u16)>, Seq<TileChangeData>),
    t0: Seq<Seq<u32>>,
    map_pos: (u16, u16),
    preset: PresetData,
    frame_ids: Seq<Vec<Option<usize>>>,
    animated: bool,
    layer: int,
    n: nat,
) -> (Seq<(u16, u16)>, Seq<TileChangeData>)
    decreases n,
{
    if n == 0 {
        s
    } else {
        let f = n - 1;
        let l = frame_layer(animated, layer, f);
        rect_log(
            rect_frames_log(s, t0, map_pos, preset, frame_ids, animated, layer, (n - 1) as nat),
            l as usize,
            t0[l],
            map_pos,
            span(preset.frames[f].start.y, preset.frames[f].end.y),
            frame_ids[f]@,
        )
    }
}

/// The stroke of `before` after drawing preset `preset` at `map_pos` (see [`set_preset`]): the
/// records of every frame drawn, the first frame's first.
pub open spec fn preset_log(
    before: EditorData,
    tool_layer: usize,
    map_pos: (u16, u16),
    preset: PresetData,
    preset_tiles: Seq<usize>,
    frame_ids: Seq<Vec<Option<usize>>>,
) -> (Seq<(u16, u16)>, Seq<TileChangeData>) {
    let animated = preset.draw_type.is_animated();
    let layer = map_layer_of(tool_layer) as int;
    let t0 = before.mapdata.tiles();
    if preset.draw_type == PresetTypeList::Normal || preset.draw_type == PresetTypeList::Animated {
        rect_frames_log(stroke_of(before), t0, map_pos, preset, frame_ids, animated, layer, frame_count(animated))
    } else {
        autotile_frames_log(stroke_of(before), t0, preset_tiles, map_pos, frame_ids, animated, layer, frame_count(animated))
    }
}

/// `after` is `before` after drawing preset `preset` at `map_pos` (see [`set_preset`]).
pub open spec fn preset_done(
    before: EditorData,
    after: EditorData,
    tool_layer: usize,
    map_pos: (u16, u16),
    preset: PresetData,
    preset_tiles: Seq<usize>,
    frame_ids: Seq<Vec<Option<usize>>>,
) -> bool {
    let t0 = before.mapdata.tiles();
    let animated = preset.draw_type.is_animated();
    let layer = map_layer_of(tool_layer) as int;
    &&& after.mapdata.tiles().len() == 9
    &&& forall|l: int|
        0 <= l < 9 ==> #[trigger] after.mapdata.tiles()[l] == match frame_on_layer(animated, layer, l) {
            Some(f) => if preset.draw_type == PresetTypeList::Normal || preset.draw_type == PresetTypeList::Animated {
                rect_paint(t0[l], map_pos, span(preset.frames[f].start.y, preset.frames[f].end.y), frame_ids[f]@)
            } else {
                autotile_run(t0[l], preset_tiles, map_pos, autotile_positions(map_pos), frame_ids[f]@)
            },
            None => t0[l],
        }
    &&& after.mapdata.attribute == before.mapdata.attribute
    &&& after.mapdata.same_rest(before.mapdata)
    &&& after.marked_edited(before)
    &&& stroke_now(before, after, preset_log(before, tool_layer, map_pos, preset, preset_tiles, frame_ids))
}

/// Draws the selected preset at `map_pos`. A normal preset paints its first frame's rectangle
/// on the layer the tool bar's `tool_layer` edits; an animated one paints frame `f` on animation
/// layer `f`; autotile presets are placed as [`place_autotile`] does. `frame_ids` gives the tile
/// ids (see [`preset_tables_ok`]). The map is marked changed and not saved to its temporary file.
pub fn set_preset(
    data: &mut EditorData,
    tool_layer: usize,
    map_pos: (u16, u16),
    preset: &PresetData,
    preset_tiles: &Vec<usize>,
    frame_ids: &Vec<Vec<Option<usize>>>,
)
    requires
        old(data).wf(),
        tool_layer < 9,
        in_map(map_pos.0, map_pos.1),
        preset_tables_ok(*preset, map_pos, frame_ids@),
    ensures
        final(data).wf(),
        preset_done(*old(data), *final(data), tool_layer, map_pos, *preset, preset_tiles@, frame_ids@),
        !preset.draw_type.is_animated() ==> forall|base: MapData|
            tile_stroke_tracks(*old(data), base, map_layer_of(tool_layer)) ==> #[trigger] tile_stroke_tracks(
                *final(data),
                base,
                map_layer_of(tool_layer),
            ),
{
    let layer = tool_layer_to_map_layer(tool_layer);
    let animated = match preset.draw_type {
        PresetTypeList::Animated | PresetTypeList::AutotileAnimated => true,
        _ => false,
    };
    match preset.draw_type {
        PresetTypeList::AutoTile | PresetTypeList::AutotileAnimated => {
            place_autotile(data, animated, map_pos, layer, preset_tiles, frame_ids);
            return;
        },
        _ => {},
    }
    proof {
        lemma_wf_tiles_shape(data.mapdata);
    }
    let ghost t0 = old(data).mapdata.tiles();
    proof {
        lemma_stroke_now_same(*old(data), *data);
    }
    let frames: usize = if animated {
        4
    } else {
        1
    };
    let mut f: usize = 0;
    while f < frames
        invariant
            f <= frames,
            frames == (if animated { 4usize } else { 1usize }),
            draw_frame(*data, *old(data)),
            t0 == old(data).mapdata.tiles(),
            layer == map_layer_of(tool_layer),
            layer < 9,
            in_map(map_pos.0, map_pos.1),
            animated == preset.draw_type.is_animated(),
            preset.draw_type == PresetTypeList::Normal || preset.draw_type == PresetTypeList::Animated,
            preset_tables_ok(*preset, map_pos, frame_ids@),
            forall|l: int|
                0 <= l < 9 ==> #[trigger] data.mapdata.tiles()[l] == match frame_on_layer(animated, layer as int, l) {
                    Some(g) => if g < f {
                        rect_paint(t0[l], map_pos, span(preset.frames[g].start.y, preset.frames[g].end.y), frame_ids@[g]@)
                    } else {
                        t0[l]
                    },
                    None => t0[l],
                },
            !animated ==> forall|base: MapData|
                tile_stroke_tracks(*old(data), base, layer) ==> #[trigger] tile_stroke_tracks(*data, base, layer),
            stroke_now(
                *old(data),
                *data,
                rect_frames_log(stroke_of(*old(data)), t0, map_pos, *preset, frame_ids@, animated, layer as int, f as nat),
            ),
        decreases frames - f,
    {
        let set_layer = if animated {
            ANIM_LAYER + f
        } else {
            layer
        };
        let (_w, h) = preset.frames[f].size();
        let ghost d_before = *data;
        let ghost before = data.mapdata.tiles();
        let ghost fi = f as int;
        proof {
            assert(animated || fi == 0);
            assert(frame_ids@[fi] == frame_ids[fi]);
            let fr = preset.frames[fi];
            assert(h == span(fr.start.y, fr.end.y));
            assert(rect_fits(map_pos, h as int, frame_ids@[fi]@));
        }
        paint_rect(data, set_layer, map_pos, h, &frame_ids[f]);
        proof {
            assert(set_layer == frame_layer(animated, layer as int, fi));
            assert(before[set_layer as int] == t0[set_layer as int]) by {
                assert(frame_on_layer(animated, layer as int, set_layer as int) == Some(fi));
            }
            lemma_stroke_now_trans(
                *old(data),
                d_before,
                *data,
                rect_frames_log(stroke_of(*old(data)), t0, map_pos, *preset, frame_ids@, animated, layer as int, fi as nat),
                rect_frames_log(stroke_of(*old(data)), t0, map_pos, *preset, frame_ids@, animated, layer as int, (fi + 1) as nat),
            );
            assert forall|l: int| 0 <= l < 9 implies #[trigger] data.mapdata.tiles()[l] == match frame_on_layer(
                animated,
                layer as int,
                l,
            ) {
                Some(g) => if g < fi + 1 {
                    rect_paint(t0[l], map_pos, span(preset.frames[g].start.y, preset.frames[g].end.y), frame_ids@[g]@)
                } else {
                    t0[l]
                },
                None => t0[l],
            } by {
                if l != set_layer {
                    assert(data.mapdata.tiles()[l] == before[l]);
                } else {
                    assert(frame_on_layer(animated, layer as int, l) == Some(fi));
                    assert(before[l] == t0[l]);
                }
            }
            if !animated {
                assert forall|base: MapData| tile_stroke_tracks(*old(data), base, layer) implies #[trigger] tile_stroke_tracks(
                    *data,
                    base,
                    layer,
                ) by {
                    assert(tile_stroke_tracks(d_before, base, layer));
                }
            }
        }
        f = f + 1;
    }
    let ghost d_end = *data;
    data.changed = true;
    data.temp_saved = false;
    proof {
        lemma_stroke_now_frame(
            *old(data),
            d_end,
            *data,
            rect_frames_log(stroke_of(*old(data)), t0, map_pos, *preset, frame_ids@, animated, layer as int, frame_count(animated)),
        );
        if !animated {
            assert forall|base: MapData| tile_stroke_tracks(*old(data), base, layer) implies #[trigger] tile_stroke_tracks(
                *data,
                base,
                layer,
            ) by {
                assert(tile_stroke_tracks(d_end, base, layer));
                lemma_tracks_same_stroke(d_end, *data, base, layer);
            }
        }
    }
}

} // verus!
