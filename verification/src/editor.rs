use vstd::prelude::*;
use std::collections::VecDeque;

use crate::map_data::{MapData, MapPosition, MapAttribute, empty_layer, tile_index};
use crate::unsaved::{UnsavedMaps, unsaved_entries, unsaved_new};

verus! {

/// Largest number of changes kept for undo and redo together.
pub const MAX_CHANGES: usize = 64;

/// Which kind of change the current stroke is collecting.
#[derive(Clone, Copy, PartialEq, Eq, Structural, Debug)]
pub enum ChangePlaceHolder {
    Idle,
    Tiles,
    Attributes,
}

/// One tile changed on one layer, from one id to another.
#[derive(Clone, Copy, PartialEq, Eq, Structural, Debug)]
pub struct TileChangeData {
    pub x: u16,
    pub y: u16,
    pub layer: usize,
    pub from: usize,
    pub to: usize,
}

/// One attribute changed, from one value to another.
#[derive(Debug)]
pub struct AttrChangeData {
    pub x: u16,
    pub y: u16,
    pub from: MapAttribute,
    pub to: MapAttribute,
}

/// The tile changes of one stroke.
#[derive(Debug)]
pub struct TileChanges {
    pub change: Vec<TileChangeData>,
}

/// The attribute changes of one stroke.
#[derive(Debug)]
pub struct AttrChanges {
    pub change: Vec<AttrChangeData>,
}

/// One undoable stroke.
#[derive(Debug)]
pub enum EditorChange {
    Tile(TileChanges),
    Attr(AttrChanges),
}

/// A tile of the map: both coordinates below 32.
pub open spec fn in_map(x: u16, y: u16) -> bool {
    x < 32 && y < 32
}

/// A recorded tile change that names a tile of the map and one of its layers.
pub open spec fn tile_change_ok(c: TileChangeData) -> bool {
    in_map(c.x, c.y) && c.layer < 9
}

/// No two tile changes name the same tile.
pub open spec fn tile_pos_distinct(cs: Seq<TileChangeData>) -> bool {
    forall|i: int, j: int|
        0 <= i < cs.len() && 0 <= j < cs.len() && i != j ==> (#[trigger] cs[i].x != #[trigger] cs[j].x
            || cs[i].y != cs[j].y)
}

/// No two attribute changes name the same tile.
pub open spec fn attr_pos_distinct(cs: Seq<AttrChangeData>) -> bool {
    forall|i: int, j: int|
        0 <= i < cs.len() && 0 <= j < cs.len() && i != j ==> (#[trigger] cs[i].x != #[trigger] cs[j].x
            || cs[i].y != cs[j].y)
}

/// Tile changes that can be applied to a well-formed map, each tile named once.
pub open spec fn tile_changes_ok(cs: Seq<TileChangeData>) -> bool {
    &&& forall|i: int| 0 <= i < cs.len() ==> tile_change_ok(#[trigger] cs[i])
    &&& tile_pos_distinct(cs)
}

/// Attribute changes that can be applied to a well-formed map, each tile named once.
pub open spec fn attr_changes_ok(cs: Seq<AttrChangeData>) -> bool {
    &&& forall|i: int| 0 <= i < cs.len() ==> in_map(#[trigger] cs[i].x, cs[i].y)
    &&& attr_pos_distinct(cs)
}

/// A stroke whose changes can be undone and redone.
pub open spec fn change_ok(e: EditorChange) -> bool {
    match e {
        EditorChange::Tile(t) => tile_changes_ok(t.change@),
        EditorChange::Attr(a) => attr_changes_ok(a.change@),
    }
}

/// The tile layers after writing the changes in order, each tile getting
/// its `to` id when `forward` and its `from` id otherwise.
pub open spec fn apply_tiles(t: Seq<Seq<u32>>, cs: Seq<TileChangeData>, forward: bool) -> Seq<Seq<u32>>
    decreases cs.len(),
{
    if cs.len() == 0 {
        t
    } else {
        let c = cs.last();
        let t0 = apply_tiles(t, cs.drop_last(), forward);
        let v = if forward {
            c.to as u32
        } else {
            c.from as u32
        };
        t0.update(c.layer as int, t0[c.layer as int].update(tile_index(c.x as int, c.y as int), v))
    }
}

/// The attributes after writing the changes in order, each tile getting
/// its `to` value when `forward` and its `from` value otherwise.
pub open spec fn apply_attrs(a: Seq<MapAttribute>, cs: Seq<AttrChangeData>, forward: bool) -> Seq<MapAttribute>
    decreases cs.len(),
{
    if cs.len() == 0 {
        a
    } else {
        let c = cs.last();
        let a0 = apply_attrs(a, cs.drop_last(), forward);
        a0.update(tile_index(c.x as int, c.y as int), if forward { c.to } else { c.from })
    }
}

/// The map after undoing (`forward == false`) or redoing a stroke.
pub open spec fn map_after(before: MapData, after: MapData, e: EditorChange, forward: bool) -> bool {
    &&& after.wf()
    &&& after.same_rest(before)
    &&& match e {
        EditorChange::Tile(t) => {
            &&& after.tiles() == apply_tiles(before.tiles(), t.change@, forward)
            &&& after.attribute@ == before.attribute@
        },
        EditorChange::Attr(a) => {
            &&& after.tiles() == before.tiles()
            &&& after.attribute@ == apply_attrs(before.attribute@, a.change@, forward)
        },
    }
}

/// Editing state of the open map: its data, whether it has unsaved changes, the
/// undo and redo stacks, the stroke being recorded and the maps with unsaved changes.
pub struct EditorData {
    pub pos: Option<MapPosition>,
    pub mapdata: MapData,
    pub changed: bool,
    pub temp_saved: bool,
    pub undo: VecDeque<EditorChange>,
    pub redo: VecDeque<EditorChange>,
    pub last_pos: Vec<(u16, u16)>,
    pub change_placeholder: ChangePlaceHolder,
    pub tile_placeholder: TileChanges,
    pub attr_placeholder: AttrChanges,
    pub unsaved_map: UnsavedMaps,
    pub exiting_save: bool,
}

impl EditorData {
    /// The invariant every operation keeps.
    pub open spec fn wf(self) -> bool {
        &&& self.mapdata.wf()
        &&& self.undo@.len() + self.redo@.len() <= MAX_CHANGES
        &&& forall|i: int| 0 <= i < self.undo@.len() ==> change_ok(#[trigger] self.undo@[i])
        &&& forall|i: int| 0 <= i < self.redo@.len() ==> change_ok(#[trigger] self.redo@[i])
        &&& tile_changes_ok(self.tile_placeholder.change@)
        &&& attr_changes_ok(self.attr_placeholder.change@)
        &&& forall|i: int|
            0 <= i < self.tile_placeholder.change@.len() ==> self.last_pos@.contains(
                (#[trigger] self.tile_placeholder.change@[i].x, self.tile_placeholder.change@[i].y),
            )
        &&& forall|i: int|
            0 <= i < self.attr_placeholder.change@.len() ==> self.last_pos@.contains(
                (#[trigger] self.attr_placeholder.change@[i].x, self.attr_placeholder.change@[i].y),
            )
        &&& unsaved_entries(self.unsaved_map).no_duplicates()
    }

    /// The stroke the placeholder holds, as it would be stored for undo.
    pub open spec fn pending_change(self) -> EditorChange {
        if self.change_placeholder == ChangePlaceHolder::Attributes {
            EditorChange::Attr(self.attr_placeholder)
        } else {
            EditorChange::Tile(self.tile_placeholder)
        }
    }

    pub fn new() -> (d: EditorData)
        ensures
            d.wf(),
            d.pos is None,
            d.mapdata.is_default_map(0, 0, 0),
            !d.changed,
            d.temp_saved,
            d.undo@.len() == 0,
            d.redo@.len() == 0,
            d.last_pos@.len() == 0,
            d.change_placeholder == ChangePlaceHolder::Idle,
            d.tile_placeholder.change@.len() == 0,
            d.attr_placeholder.change@.len() == 0,
            unsaved_entries(d.unsaved_map).len() == 0,
            !d.exiting_save,
    {
        EditorData {
            pos: None,
            mapdata: MapData::default(0, 0, 0),
            changed: false,
            temp_saved: true,
            undo: VecDeque::with_capacity(64),
            redo: VecDeque::with_capacity(64),
            last_pos: Vec::with_capacity(1024),
            change_placeholder: ChangePlaceHolder::Idle,
            tile_placeholder: TileChanges { change: Vec::new() },
            attr_placeholder: AttrChanges { change: Vec::new() },
            unsaved_map: unsaved_new(),
            exiting_save: false,
        }
    }
}


/// Whether `(x, y)` is among the recorded positions.
fn pos_recorded(v: &Vec<(u16, u16)>, x: u16, y: u16) -> (r: bool)
    ensures
        r == v@.contains((x, y)),
{
    let mut i: usize = 0;
    while i < v.len()
        invariant
            i <= v@.len(),
            forall|k: int| 0 <= k < i ==> v@[k] != (x, y),
        decreases v@.len() - i,
    {
        let p = v[i];
        if p.0 == x && p.1 == y {
            assert(v@[i as int] == (x, y));
            return true;
        }
        i = i + 1;
    }
    false
}

impl EditorData {
    /// Fields that recording a change does not touch.
    pub open spec fn same_outside_stroke(self, other: EditorData) -> bool {
        &&& self.pos == other.pos
        &&& self.mapdata == other.mapdata
        &&& self.changed == other.changed
        &&& self.temp_saved == other.temp_saved
        &&& self.undo == other.undo
        &&& self.redo == other.redo
        &&& self.unsaved_map == other.unsaved_map
        &&& self.exiting_save == other.exiting_save
    }

    /// The editing history and bookkeeping beside the map: position, undo and redo stacks,
    /// the stroke, the unsaved maps and the exit flag.
    pub open spec fn same_history(self, other: EditorData) -> bool {
        &&& self.pos == other.pos
        &&& self.undo == other.undo
        &&& self.redo == other.redo
        &&& self.last_pos == other.last_pos
        &&& self.change_placeholder == other.change_placeholder
        &&& self.tile_placeholder == other.tile_placeholder
        &&& self.attr_placeholder == other.attr_placeholder
        &&& self.unsaved_map == other.unsaved_map
        &&& self.exiting_save == other.exiting_save
    }

    /// `self` is `other` marked as edited: changed and not saved to its temporary file, with
    /// the same position, undo and redo stacks, unsaved maps and exit flag.
    pub open spec fn marked_edited(self, other: EditorData) -> bool {
        &&& self.changed
        &&& !self.temp_saved
        &&& self.pos == other.pos
        &&& self.undo == other.undo
        &&& self.redo == other.redo
        &&& self.unsaved_map == other.unsaved_map
        &&& self.exiting_save == other.exiting_save
    }

    /// Fields that undo and redo do not touch.
    pub open spec fn same_stroke_state(self, other: EditorData) -> bool {
        &&& self.pos == other.pos
        &&& self.last_pos == other.last_pos
        &&& self.change_placeholder == other.change_placeholder
        &&& self.tile_placeholder == other.tile_placeholder
        &&& self.attr_placeholder == other.attr_placeholder
        &&& self.unsaved_map == other.unsaved_map
        &&& self.exiting_save == other.exiting_save
    }

    /// Ends the current stroke: its changes become the newest undo entry (the oldest entry
    /// is dropped beyond 64), the redo stack is emptied and a new stroke begins.
    pub fn record_placeholder(&mut self)
        requires
            old(self).wf(),
        ensures
            final(self).wf(),
            old(self).change_placeholder == ChangePlaceHolder::Idle ==> *final(self) == *old(self),
            old(self).change_placeholder != ChangePlaceHolder::Idle ==> committed(*old(self), *final(self)),
    {
        match self.change_placeholder {
            ChangePlaceHolder::Idle => {
                return;
            },
            ChangePlaceHolder::Attributes => {
                let mut v: Vec<AttrChangeData> = Vec::new();
                std::mem::swap(&mut v, &mut self.attr_placeholder.change);
                self.undo.push_back(EditorChange::Attr(AttrChanges { change: v }));
            },
            ChangePlaceHolder::Tiles => {
                let mut v: Vec<TileChangeData> = Vec::new();
                std::mem::swap(&mut v, &mut self.tile_placeholder.change);
                self.undo.push_back(EditorChange::Tile(TileChanges { change: v }));
            },
        }
        if self.undo.len() > MAX_CHANGES {
            let _ = self.undo.pop_front();
        }
        self.last_pos.clear();
        self.redo.clear();
        self.change_placeholder = ChangePlaceHolder::Idle;
        self.tile_placeholder.change.clear();
        self.attr_placeholder.change.clear();
    }

    /// Records that tile `(x, y)` of `layer` goes from `from_id` to `to_id`, unless the
    /// stroke already recorded a change at `(x, y)`. Attribute changes of the stroke are dropped.
    pub fn record_tile(&mut self, x: u16, y: u16, layer: usize, from_id: usize, to_id: usize)
        requires
            old(self).wf(),
            in_map(x, y),
            layer < 9,
        ensures
            final(self).wf(),
            old(self).last_pos@.contains((x, y)) ==> *final(self) == *old(self),
            !old(self).last_pos@.contains((x, y)) ==> {
                &&& final(self).last_pos@ == old(self).last_pos@.push((x, y))
                &&& final(self).change_placeholder == ChangePlaceHolder::Tiles
                &&& final(self).tile_placeholder.change@ == old(self).tile_placeholder.change@.push(
                    TileChangeData { x, y, layer, from: from_id, to: to_id },
                )
                &&& final(self).attr_placeholder.change@.len() == 0
                &&& final(self).same_outside_stroke(*old(self))
            },
    {
        if pos_recorded(&self.last_pos, x, y) {
            return;
        }
        self.last_pos.push((x, y));
        self.change_placeholder = ChangePlaceHolder::Tiles;
        if self.attr_placeholder.change.len() != 0 {
            self.attr_placeholder.change.clear();
        }
        self.tile_placeholder.change.push(TileChangeData { x, y, layer, from: from_id, to: to_id });
        proof {
            let cs = self.tile_placeholder.change@;
            assert forall|i: int| 0 <= i < cs.len() implies self.last_pos@.contains(
                (#[trigger] cs[i].x, cs[i].y),
            ) by {
                if i < cs.len() - 1 {
                    let k = choose|k: int|
                        0 <= k < old(self).last_pos@.len() && old(self).last_pos@[k] == (
                            cs[i].x,
                            cs[i].y,
                        );
                    assert(self.last_pos@[k] == (cs[i].x, cs[i].y));
                } else {
                    assert(self.last_pos@[self.last_pos@.len() - 1] == (x, y));
                }
            }
            assert forall|i: int, j: int|
                0 <= i < cs.len() && 0 <= j < cs.len() && i != j implies (#[trigger] cs[i].x
                != #[trigger] cs[j].x || cs[i].y != cs[j].y) by {
                if i == cs.len() - 1 || j == cs.len() - 1 {
                    let k = if i == cs.len() - 1 { j } else { i };
                    assert(old(self).last_pos@.contains((cs[k].x, cs[k].y)));
                }
            }
        }
    }

    /// Records that the attribute of tile `(x, y)` goes from `from` to `to`, unless the
    /// stroke already recorded a change at `(x, y)`. Tile changes of the stroke are dropped.
    pub fn record_attr(&mut self, x: u16, y: u16, from: MapAttribute, to: MapAttribute)
        requires
            old(self).wf(),
            in_map(x, y),
        ensures
            final(self).wf(),
            old(self).last_pos@.contains((x, y)) ==> *final(self) == *old(self),
            !old(self).last_pos@.contains((x, y)) ==> {
                &&& final(self).last_pos@ == old(self).last_pos@.push((x, y))
                &&& final(self).change_placeholder == ChangePlaceHolder::Attributes
                &&& final(self).attr_placeholder.change@ == old(self).attr_placeholder.change@.push(
                    AttrChangeData { x, y, from, to },
                )
                &&& final(self).tile_placeholder.change@.len() == 0
                &&& final(self).same_outside_stroke(*old(self))
            },
    {
        if pos_recorded(&self.last_pos, x, y) {
            return;
        }
        self.last_pos.push((x, y));
        self.change_placeholder = ChangePlaceHolder::Attributes;
        if self.tile_placeholder.change.len() != 0 {
            self.tile_placeholder.change.clear();
        }
        self.attr_placeholder.change.push(AttrChangeData { x, y, from, to });
        proof {
            let cs = self.attr_placeholder.change@;
            assert forall|i: int| 0 <= i < cs.len() implies self.last_pos@.contains(
                (#[trigger] cs[i].x, cs[i].y),
            ) by {
                if i < cs.len() - 1 {
                    let k = choose|k: int|
                        0 <= k < old(self).last_pos@.len() && old(self).last_pos@[k] == (
                            cs[i].x,
                            cs[i].y,
                        );
                    assert(self.last_pos@[k] == (cs[i].x, cs[i].y));
                } else {
                    assert(self.last_pos@[self.last_pos@.len() - 1] == (x, y));
                }
            }
            assert forall|i: int, j: int|
                0 <= i < cs.len() && 0 <= j < cs.len() && i != j implies (#[trigger] cs[i].x
                != #[trigger] cs[j].x || cs[i].y != cs[j].y) by {
                if i == cs.len() - 1 || j == cs.len() - 1 {
                    let k = if i == cs.len() - 1 { j } else { i };
                    assert(old(self).last_pos@.contains((cs[k].x, cs[k].y)));
                }
            }
        }
    }

    /// Writes every tile change of `cs` into the map, each tile getting its
    /// `to` id when `forward` and its `from` id otherwise.
    fn write_tile_changes(&mut self, cs: &TileChanges, forward: bool)
        requires
            old(self).mapdata.wf(),
            tile_changes_ok(cs.change@),
        ensures
            final(self).mapdata.wf(),
            final(self).mapdata.same_rest(old(self).mapdata),
            final(self).mapdata.tiles() == apply_tiles(old(self).mapdata.tiles(), cs.change@, forward),
            final(self).mapdata.attribute == old(self).mapdata.attribute,
            final(self).pos == old(self).pos,
            final(self).changed == old(self).changed,
            final(self).temp_saved == old(self).temp_saved,
            final(self).undo == old(self).undo,
            final(self).redo == old(self).redo,
            final(self).same_stroke_state(*old(self)),
    {
        let ghost t0 = self.mapdata.tiles();
        let n = cs.change.len();
        let mut i: usize = 0;
        while i < n
            invariant
                n == cs.change@.len(),
                i <= n,
                tile_changes_ok(cs.change@),
                self.mapdata.wf(),
                self.mapdata.same_rest(old(self).mapdata),
                self.mapdata.tiles() == apply_tiles(t0, cs.change@.take(i as int), forward),
                self.mapdata.attribute == old(self).mapdata.attribute,
                self.pos == old(self).pos,
                self.changed == old(self).changed,
                self.temp_saved == old(self).temp_saved,
                self.undo == old(self).undo,
                self.redo == old(self).redo,
                self.same_stroke_state(*old(self)),
            decreases n - i,
        {
            let c = cs.change[i];
            assert(tile_change_ok(cs.change@[i as int]));
            let idx = c.x as usize + c.y as usize * 32;
            let v: u32 = if forward {
                c.to as u32
            } else {
                c.from as u32
            };
            let ghost before = self.mapdata.tiles();
            self.mapdata.tile[c.layer].id[idx] = v;
            proof {
                assert(cs.change@.take(i + 1).drop_last() =~= cs.change@.take(i as int));
                assert(cs.change@.take(i + 1).last() == c);
                assert(self.mapdata.tiles() =~~= before.update(
                    c.layer as int,
                    before[c.layer as int].update(idx as int, v),
                ));
            }
            i = i + 1;
        }
        assert(cs.change@.take(n as int) =~= cs.change@);
    }

    /// Writes every attribute change of `cs` into the map, each tile getting its
    /// `to` value when `forward` and its `from` value otherwise.
    fn write_attr_changes(&mut self, cs: &AttrChanges, forward: bool)
        requires
            old(self).mapdata.wf(),
            attr_changes_ok(cs.change@),
        ensures
            final(self).mapdata.wf(),
            final(self).mapdata.same_rest(old(self).mapdata),
            final(self).mapdata.attribute@ == apply_attrs(
                old(self).mapdata.attribute@,
                cs.change@,
                forward,
            ),
            final(self).mapdata.tile == old(self).mapdata.tile,
            final(self).pos == old(self).pos,
            final(self).changed == old(self).changed,
            final(self).temp_saved == old(self).temp_saved,
            final(self).undo == old(self).undo,
            final(self).redo == old(self).redo,
            final(self).same_stroke_state(*old(self)),
    {
        let ghost a0 = self.mapdata.attribute@;
        let n = cs.change.len();
        let mut i: usize = 0;
        while i < n
            invariant
                n == cs.change@.len(),
                i <= n,
                attr_changes_ok(cs.change@),
                self.mapdata.wf(),
                self.mapdata.same_rest(old(self).mapdata),
                self.mapdata.attribute@ == apply_attrs(a0, cs.change@.take(i as int), forward),
                self.mapdata.tile == old(self).mapdata.tile,
                self.pos == old(self).pos,
                self.changed == old(self).changed,
                self.temp_saved == old(self).temp_saved,
                self.undo == old(self).undo,
                self.redo == old(self).redo,
                self.same_stroke_state(*old(self)),
            decreases n - i,
        {
            let c = &cs.change[i];
            assert(in_map(cs.change@[i as int].x, cs.change@[i as int].y));
            let idx = c.x as usize + c.y as usize * 32;
            let v = if forward {
                c.to.duplicate()
            } else {
                c.from.duplicate()
            };
            self.mapdata.attribute.set(idx, v);
            proof {
                assert(cs.change@.take(i + 1).drop_last() =~= cs.change@.take(i as int));
                assert(cs.change@.take(i + 1).last() == *c);
            }
            i = i + 1;
        }
        assert(cs.change@.take(n as int) =~= cs.change@);
    }
}

/// Undoes the newest stroke: its tiles or attributes get back their `from` values and the
/// stroke moves onto the redo stack. Returns `false`, changing nothing, when there is nothing to undo.
pub fn apply_undo(data: &mut EditorData) -> (r: bool)
    requires
        old(data).wf(),
    ensures
        final(data).wf(),
        r == (old(data).undo@.len() > 0),
        !r ==> *final(data) == *old(data),
        r ==> undone(*old(data), *final(data)),
{
    if data.undo.len() == 0 {
        return false;
    }
    let change = data.undo.pop_back().unwrap();
    assert(change_ok(change));
    match &change {
        EditorChange::Attr(attr) => data.write_attr_changes(attr, false),
        EditorChange::Tile(tile) => data.write_tile_changes(tile, false),
    }
    data.redo.push_back(change);
    data.changed = true;
    data.temp_saved = false;
    proof {
        assert(final(data).undo@ =~= old(data).undo@.drop_last());
        assert forall|i: int| 0 <= i < data.redo@.len() implies change_ok(#[trigger] data.redo@[i]) by {
            if i < old(data).redo@.len() {
                assert(data.redo@[i] == old(data).redo@[i]);
            }
        }
    }
    true
}

/// Redoes the newest undone stroke: its tiles or attributes get their `to` values again and the
/// stroke moves back onto the undo stack. Returns `false`, changing nothing, when there is nothing to redo.
pub fn apply_redo(data: &mut EditorData) -> (r: bool)
    requires
        old(data).wf(),
    ensures
        final(data).wf(),
        r == (old(data).redo@.len() > 0),
        !r ==> *final(data) == *old(data),
        r ==> redone(*old(data), *final(data)),
{
    if data.redo.len() == 0 {
        return false;
    }
    let change = data.redo.pop_back().unwrap();
    assert(change_ok(change));
    match &change {
        EditorChange::Attr(attr) => data.write_attr_changes(attr, true),
        EditorChange::Tile(tile) => data.write_tile_changes(tile, true),
    }
    data.undo.push_back(change);
    data.changed = true;
    data.temp_saved = false;
    proof {
        assert(final(data).redo@ =~= old(data).redo@.drop_last());
        assert forall|i: int| 0 <= i < data.undo@.len() implies change_ok(#[trigger] data.undo@[i]) by {
            if i < old(data).undo@.len() {
                assert(data.undo@[i] == old(data).undo@[i]);
            }
        }
    }
    true
}


/// `after` is `before` with its stroke ended: the stroke is the newest undo entry (the oldest
/// entry dropped beyond 64), the redo stack is empty and a new stroke begins; the map is untouched.
pub open spec fn committed(before: EditorData, after: EditorData) -> bool {
    &&& after.undo@ == (if before.undo@.len() + 1 > MAX_CHANGES {
        before.undo@.push(before.pending_change()).drop_first()
    } else {
        before.undo@.push(before.pending_change())
    })
    &&& after.redo@.len() == 0
    &&& after.last_pos@.len() == 0
    &&& after.change_placeholder == ChangePlaceHolder::Idle
    &&& after.tile_placeholder.change@.len() == 0
    &&& after.attr_placeholder.change@.len() == 0
    &&& after.pos == before.pos
    &&& after.mapdata == before.mapdata
    &&& after.changed == before.changed
    &&& after.temp_saved == before.temp_saved
    &&& after.unsaved_map == before.unsaved_map
    &&& after.exiting_save == before.exiting_save
}

/// Undoing the stroke that `after` is recording gives back the tiles and attributes of `before`.
pub open spec fn stroke_reverts(after: EditorData, before: MapData) -> bool {
    &&& after.change_placeholder != ChangePlaceHolder::Idle
    &&& match after.pending_change() {
        EditorChange::Tile(t) => {
            &&& apply_tiles(after.mapdata.tiles(), t.change@, false) == before.tiles()
            &&& after.mapdata.attribute@ == before.attribute@
        },
        EditorChange::Attr(a) => {
            &&& after.mapdata.tiles() == before.tiles()
            &&& apply_attrs(after.mapdata.attribute@, a.change@, false) == before.attribute@
        },
    }
}

/// `after` is `before` with its newest stroke undone.
pub open spec fn undone(before: EditorData, after: EditorData) -> bool {
    &&& before.undo@.len() > 0
    &&& after.undo@ == before.undo@.drop_last()
    &&& after.redo@ == before.redo@.push(before.undo@.last())
    &&& map_after(before.mapdata, after.mapdata, before.undo@.last(), false)
    &&& after.changed
    &&& !after.temp_saved
    &&& after.same_stroke_state(before)
}

/// `after` is `before` with its newest undone stroke redone.
pub open spec fn redone(before: EditorData, after: EditorData) -> bool {
    &&& before.redo@.len() > 0
    &&& after.redo@ == before.redo@.drop_last()
    &&& after.undo@ == before.undo@.push(before.redo@.last())
    &&& map_after(before.mapdata, after.mapdata, before.redo@.last(), true)
    &&& after.changed
    &&& !after.temp_saved
    &&& after.same_stroke_state(before)
}

/// The map already shows the `to` values (`forward`) or the `from` values of a stroke.
pub open spec fn map_shows(m: MapData, e: EditorChange, forward: bool) -> bool {
    match e {
        EditorChange::Tile(t) => apply_tiles(m.tiles(), t.change@, forward) == m.tiles(),
        EditorChange::Attr(a) => apply_attrs(m.attribute@, a.change@, forward) == m.attribute@,
    }
}

/// The layer and index of the tile a change names.
pub open spec fn change_cell(c: TileChangeData) -> (int, int) {
    (c.layer as int, tile_index(c.x as int, c.y as int))
}

/// Nine layers of 1024 tiles.
pub open spec fn tiles_shape(t: Seq<Seq<u32>>) -> bool {
    t.len() == 9 && forall|l: int| 0 <= l < 9 ==> #[trigger] t[l].len() == 1024
}

pub(crate) proof fn lemma_index_injective(x1: u16, y1: u16, x2: u16, y2: u16)
    requires
        in_map(x1, y1),
        in_map(x2, y2),
        tile_index(x1 as int, y1 as int) == tile_index(x2 as int, y2 as int),
    ensures
        x1 == x2,
        y1 == y2,
{
}

/// Tile by tile, the layers after applying changes that name each tile once.
pub(crate) proof fn lemma_apply_tiles_pointwise(t: Seq<Seq<u32>>, cs: Seq<TileChangeData>, forward: bool)
    requires
        tiles_shape(t),
        tile_changes_ok(cs),
    ensures
        tiles_shape(apply_tiles(t, cs, forward)),
        forall|l: int, i: int|
            0 <= l < 9 && 0 <= i < 1024 ==> #[trigger] apply_tiles(t, cs, forward)[l][i] == (if exists|k: int|
                0 <= k < cs.len() && change_cell(#[trigger] cs[k]) == (l, i) {
                let k = choose|k: int| 0 <= k < cs.len() && change_cell(#[trigger] cs[k]) == (l, i);
                if forward {
                    cs[k].to as u32
                } else {
                    cs[k].from as u32
                }
            } else {
                t[l][i]
            }),
    decreases cs.len(),
{
    if cs.len() > 0 {
        let cs0 = cs.drop_last();
        assert(tile_changes_ok(cs0)) by {
            assert forall|i: int, j: int|
                0 <= i < cs0.len() && 0 <= j < cs0.len() && i != j implies (#[trigger] cs0[i].x
                != #[trigger] cs0[j].x || cs0[i].y != cs0[j].y) by {
                assert(cs0[i] == cs[i] && cs0[j] == cs[j]);
            }
            assert forall|i: int| 0 <= i < cs0.len() implies tile_change_ok(#[trigger] cs0[i]) by {
                assert(cs0[i] == cs[i]);
            }
        }
        lemma_apply_tiles_pointwise(t, cs0, forward);
        let c = cs.last();
        assert(tile_change_ok(cs[cs.len() - 1]));
        let r = apply_tiles(t, cs, forward);
        let r0 = apply_tiles(t, cs0, forward);
        assert forall|l: int, i: int| 0 <= l < 9 && 0 <= i < 1024 implies #[trigger] r[l][i] == (if exists|k: int|
            0 <= k < cs.len() && change_cell(#[trigger] cs[k]) == (l, i) {
            let k = choose|k: int| 0 <= k < cs.len() && change_cell(#[trigger] cs[k]) == (l, i);
            if forward {
                cs[k].to as u32
            } else {
                cs[k].from as u32
            }
        } else {
            t[l][i]
        }) by {
            if change_cell(c) == (l, i) {
                assert(change_cell(cs[cs.len() - 1]) == (l, i));
                let k = choose|k: int| 0 <= k < cs.len() && change_cell(#[trigger] cs[k]) == (l, i);
                if k != cs.len() - 1 {
                    assert(tile_change_ok(cs[k]));
                    lemma_index_injective(cs[k].x, cs[k].y, c.x, c.y);
                }
            } else {
                if exists|k: int| 0 <= k < cs.len() && change_cell(#[trigger] cs[k]) == (l, i) {
                    let k = choose|k: int| 0 <= k < cs.len() && change_cell(#[trigger] cs[k]) == (l, i);
                    assert(k < cs.len() - 1);
                    assert(cs0[k] == cs[k]);
                    assert(exists|k2: int| 0 <= k2 < cs0.len() && change_cell(#[trigger] cs0[k2]) == (l, i));
                    let k2 = choose|k2: int| 0 <= k2 < cs0.len() && change_cell(#[trigger] cs0[k2]) == (l, i);
                    if k2 != k {
                        assert(cs0[k2] == cs[k2]);
                        assert(tile_change_ok(cs[k]));
                        assert(tile_change_ok(cs[k2]));
                        lemma_index_injective(cs[k].x, cs[k].y, cs[k2].x, cs[k2].y);
                    }
                } else {
                    assert forall|k: int| 0 <= k < cs0.len() implies change_cell(#[trigger] cs0[k]) != (l, i) by {
                        assert(cs0[k] == cs[k]);
                    }
                }
            }
        }
    }
}

/// Attribute by attribute, the attributes after applying changes that name each tile once.
pub(crate) proof fn lemma_apply_attrs_pointwise(a: Seq<MapAttribute>, cs: Seq<AttrChangeData>, forward: bool)
    requires
        a.len() == 1024,
        attr_changes_ok(cs),
    ensures
        apply_attrs(a, cs, forward).len() == 1024,
        forall|i: int|
            0 <= i < 1024 ==> #[trigger] apply_attrs(a, cs, forward)[i] == (if exists|k: int|
                0 <= k < cs.len() && tile_index(#[trigger] cs[k].x as int, cs[k].y as int) == i {
                let k = choose|k: int| 0 <= k < cs.len() && tile_index(#[trigger] cs[k].x as int, cs[k].y as int) == i;
                if forward {
                    cs[k].to
                } else {
                    cs[k].from
                }
            } else {
                a[i]
            }),
    decreases cs.len(),
{
    if cs.len() > 0 {
        let cs0 = cs.drop_last();
        assert(attr_changes_ok(cs0)) by {
            assert forall|i: int, j: int|
                0 <= i < cs0.len() && 0 <= j < cs0.len() && i != j implies (#[trigger] cs0[i].x
                != #[trigger] cs0[j].x || cs0[i].y != cs0[j].y) by {
                assert(cs0[i] == cs[i] && cs0[j] == cs[j]);
            }
            assert forall|i: int| 0 <= i < cs0.len() implies in_map(#[trigger] cs0[i].x, cs0[i].y) by {
                assert(cs0[i] == cs[i]);
            }
        }
        lemma_apply_attrs_pointwise(a, cs0, forward);
        let c = cs.last();
        assert(in_map(cs[cs.len() - 1].x, cs[cs.len() - 1].y));
        let r = apply_attrs(a, cs, forward);
        assert forall|i: int| 0 <= i < 1024 implies #[trigger] r[i] == (if exists|k: int|
            0 <= k < cs.len() && tile_index(#[trigger] cs[k].x as int, cs[k].y as int) == i {
            let k = choose|k: int| 0 <= k < cs.len() && tile_index(#[trigger] cs[k].x as int, cs[k].y as int) == i;
            if forward {
                cs[k].to
            } else {
                cs[k].from
            }
        } else {
            a[i]
        }) by {
            if tile_index(c.x as int, c.y as int) == i {
                assert(tile_index(cs[cs.len() - 1].x as int, cs[cs.len() - 1].y as int) == i);
                let k = choose|k: int| 0 <= k < cs.len() && tile_index(#[trigger] cs[k].x as int, cs[k].y as int) == i;
                if k != cs.len() - 1 {
                    assert(in_map(cs[k].x, cs[k].y));
                    lemma_index_injective(cs[k].x, cs[k].y, c.x, c.y);
                }
            } else {
                if exists|k: int| 0 <= k < cs.len() && tile_index(#[trigger] cs[k].x as int, cs[k].y as int) == i {
                    let k = choose|k: int| 0 <= k < cs.len() && tile_index(#[trigger] cs[k].x as int, cs[k].y as int) == i;
                    assert(k < cs.len() - 1);
                    assert(cs0[k] == cs[k]);
                    assert(exists|k2: int| 0 <= k2 < cs0.len() && tile_index(#[trigger] cs0[k2].x as int, cs0[k2].y as int) == i);
                    let k2 = choose|k2: int| 0 <= k2 < cs0.len() && tile_index(#[trigger] cs0[k2].x as int, cs0[k2].y as int) == i;
                    if k2 != k {
                        assert(cs0[k2] == cs[k2]);
                        assert(in_map(cs[k].x, cs[k].y));
                        assert(in_map(cs[k2].x, cs[k2].y));
                        lemma_index_injective(cs[k].x, cs[k].y, cs[k2].x, cs[k2].y);
                    }
                } else {
                    assert forall|k: int| 0 <= k < cs0.len() implies tile_index(#[trigger] cs0[k].x as int, cs0[k].y as int) != i by {
                        assert(cs0[k] == cs[k]);
                    }
                }
            }
        }
    }
}

/// Writing a stroke's values over a map that went through the same stroke in either
/// direction gives what writing them over the map before it gives.
pub proof fn lemma_apply_tiles_twice(t: Seq<Seq<u32>>, cs: Seq<TileChangeData>, first: bool, second: bool)
    requires
        tiles_shape(t),
        tile_changes_ok(cs),
    ensures
        apply_tiles(apply_tiles(t, cs, first), cs, second) == apply_tiles(t, cs, second),
{
    lemma_apply_tiles_pointwise(t, cs, first);
    lemma_apply_tiles_pointwise(apply_tiles(t, cs, first), cs, second);
    lemma_apply_tiles_pointwise(t, cs, second);
    let lhs = apply_tiles(apply_tiles(t, cs, first), cs, second);
    let rhs = apply_tiles(t, cs, second);
    assert forall|l: int| 0 <= l < 9 implies #[trigger] lhs[l] =~= rhs[l] by {
        assert forall|i: int| 0 <= i < 1024 implies lhs[l][i] == rhs[l][i] by {
            assert(lhs[l][i] == rhs[l][i]);
        }
    }
    assert(lhs =~= rhs);
}

/// The attribute counterpart of [`lemma_apply_tiles_twice`].
pub proof fn lemma_apply_attrs_twice(a: Seq<MapAttribute>, cs: Seq<AttrChangeData>, first: bool, second: bool)
    requires
        a.len() == 1024,
        attr_changes_ok(cs),
    ensures
        apply_attrs(apply_attrs(a, cs, first), cs, second) == apply_attrs(a, cs, second),
{
    lemma_apply_attrs_pointwise(a, cs, first);
    lemma_apply_attrs_pointwise(apply_attrs(a, cs, first), cs, second);
    lemma_apply_attrs_pointwise(a, cs, second);
    let lhs = apply_attrs(apply_attrs(a, cs, first), cs, second);
    let rhs = apply_attrs(a, cs, second);
    assert forall|i: int| 0 <= i < 1024 implies lhs[i] == rhs[i] by {
        assert(lhs[i] == rhs[i]);
    }
    assert(lhs =~= rhs);
}

pub(crate) proof fn lemma_wf_tiles_shape(m: MapData)
    requires
        m.wf(),
    ensures
        tiles_shape(m.tiles()),
{
    assert forall|l: int| 0 <= l < 9 implies #[trigger] m.tiles()[l].len() == 1024 by {
        assert(m.tile@[l].id@.len() == 1024);
    }
}

/// Redo right after undo gives back both stacks, and gives back the map when the map
/// showed the undone stroke's new values (as it does right after the stroke was made).
pub proof fn law_redo_after_undo(d0: EditorData, d1: EditorData, d2: EditorData)
    requires
        d0.wf(),
        undone(d0, d1),
        redone(d1, d2),
    ensures
        d2.undo@ == d0.undo@,
        d2.redo@ == d0.redo@,
        d2.mapdata.same_rest(d0.mapdata),
        map_shows(d0.mapdata, d0.undo@.last(), true) ==> d2.mapdata.tiles() == d0.mapdata.tiles()
            && d2.mapdata.attribute@ == d0.mapdata.attribute@,
{
    let e = d0.undo@.last();
    assert(d1.redo@.last() == e);
    assert(d2.undo@ =~= d0.undo@);
    assert(d2.redo@ =~= d0.redo@);
    assert(change_ok(d0.undo@[d0.undo@.len() - 1]));
    lemma_wf_tiles_shape(d0.mapdata);
    match e {
        EditorChange::Tile(t) => {
            lemma_apply_tiles_twice(d0.mapdata.tiles(), t.change@, false, true);
        },
        EditorChange::Attr(a) => {
            lemma_apply_attrs_twice(d0.mapdata.attribute@, a.change@, false, true);
        },
    }
}

/// Undo right after redo gives back both stacks, and gives back the map when the map
/// showed the redone stroke's old values (as it does right after the stroke was undone).
pub proof fn law_undo_after_redo(d0: EditorData, d1: EditorData, d2: EditorData)
    requires
        d0.wf(),
        redone(d0, d1),
        undone(d1, d2),
    ensures
        d2.undo@ == d0.undo@,
        d2.redo@ == d0.redo@,
        d2.mapdata.same_rest(d0.mapdata),
        map_shows(d0.mapdata, d0.redo@.last(), false) ==> d2.mapdata.tiles() == d0.mapdata.tiles()
            && d2.mapdata.attribute@ == d0.mapdata.attribute@,
{
    let e = d0.redo@.last();
    assert(d1.undo@.last() == e);
    assert(d2.undo@ =~= d0.undo@);
    assert(d2.redo@ =~= d0.redo@);
    assert(change_ok(d0.redo@[d0.redo@.len() - 1]));
    lemma_wf_tiles_shape(d0.mapdata);
    match e {
        EditorChange::Tile(t) => {
            lemma_apply_tiles_twice(d0.mapdata.tiles(), t.change@, true, false);
        },
        EditorChange::Attr(a) => {
            lemma_apply_attrs_twice(d0.mapdata.attribute@, a.change@, true, false);
        },
    }
}

/// A stroke, once ended, is taken back by one undo: the map gets back the tiles and
/// attributes it had before the stroke, and all else it had then.
pub proof fn law_undo_takes_back_stroke(d0: MapData, d1: EditorData, d2: EditorData, d3: EditorData)
    requires
        d1.wf(),
        stroke_reverts(d1, d0),
        d1.mapdata.same_rest(d0),
        committed(d1, d2),
        undone(d2, d3),
    ensures
        d3.mapdata.tiles() == d0.tiles(),
        d3.mapdata.attribute@ == d0.attribute@,
        d3.mapdata.same_rest(d0),
{
    assert(d2.undo@.last() == d1.pending_change());
}

} // verus!
