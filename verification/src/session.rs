use vstd::prelude::*;

use crate::editor::EditorData;
use crate::map_data::{MapData, MapPosition};
use crate::unsaved::{unsaved_entries, unsaved_insert, unsaved_is_empty, unsaved_pop, unsaved_swap_remove, unsaved_to_vec};

verus! {

/// A map position as the unsaved-map set holds it.
pub open spec fn pos_key(p: MapPosition) -> (i32, i32, i32) {
    (p.x, p.y, p.group)
}

/// A map position as the unsaved-map set holds it.
pub fn map_key(p: MapPosition) -> (r: (i32, i32, i32))
    ensures
        r == pos_key(p),
{
    (p.x, p.y, p.group)
}

/// The map position an entry of the unsaved-map set stands for.
pub fn key_pos(k: (i32, i32, i32)) -> (r: MapPosition)
    ensures
        pos_key(r) == k,
{
    MapPosition { x: k.0, y: k.1, group: k.2 }
}

/// Where the open map's unsaved changes go: the temporary file of its position, or the
/// recovery file when it has none.
#[derive(Clone, Copy, PartialEq, Eq, Structural, Debug)]
pub enum TempSave {
    MapFile(MapPosition),
    Recovery,
}

/// The temporary save the open map needs: none when its changes are saved to a temporary file
/// already, or, with `only_if_changed`, when it has no changes.
pub open spec fn temp_save_needed(data: EditorData, only_if_changed: bool) -> Option<TempSave> {
    if data.temp_saved || (only_if_changed && !data.changed) {
        None
    } else {
        match data.pos {
            Some(p) => Some(TempSave::MapFile(p)),
            None => Some(TempSave::Recovery),
        }
    }
}

/// The temporary save the open map needs (see [`temp_save_needed`]).
pub fn temp_save_target(data: &EditorData, only_if_changed: bool) -> (r: Option<TempSave>)
    ensures
        r == temp_save_needed(*data, only_if_changed),
{
    if data.temp_saved || (only_if_changed && !data.changed) {
        return None;
    }
    match data.pos {
        Some(p) => Some(TempSave::MapFile(p)),
        None => Some(TempSave::Recovery),
    }
}

/// Notes that the open map's changes were written to the temporary file `target`: a map
/// position joins the unsaved maps (at the end, when it is not among them), and the changes
/// count as saved to a temporary file.
pub fn finish_temp_save(data: &mut EditorData, target: TempSave)
    requires
        old(data).wf(),
    ensures
        final(data).wf(),
        final(data).temp_saved,
        match target {
            TempSave::MapFile(p) => unsaved_entries(final(data).unsaved_map) == (if unsaved_entries(
                old(data).unsaved_map,
            ).contains(pos_key(p)) {
                unsaved_entries(old(data).unsaved_map)
            } else {
                unsaved_entries(old(data).unsaved_map).push(pos_key(p))
            }),
            TempSave::Recovery => final(data).unsaved_map == old(data).unsaved_map,
        },
        final(data).mapdata == old(data).mapdata,
        final(data).pos == old(data).pos,
        final(data).changed == old(data).changed,
        final(data).undo == old(data).undo,
        final(data).redo == old(data).redo,
        final(data).last_pos == old(data).last_pos,
        final(data).change_placeholder == old(data).change_placeholder,
        final(data).tile_placeholder == old(data).tile_placeholder,
        final(data).attr_placeholder == old(data).attr_placeholder,
        final(data).exiting_save == old(data).exiting_save,
{
    if let TempSave::MapFile(p) = target {
        let _ = unsaved_insert(&mut data.unsaved_map, map_key(p));
    }
    data.temp_saved = true;
}

/// Makes `mapdata` the open map: at position `pos`, with `changed` telling whether it differs
/// from its saved file; its changes count as saved to a temporary file. The undo and redo
/// history and the stroke are kept.
pub fn apply_loaded_map(data: &mut EditorData, mapdata: MapData, pos: Option<MapPosition>, changed: bool)
    requires
        old(data).wf(),
        mapdata.wf(),
    ensures
        final(data).wf(),
        final(data).mapdata == mapdata,
        final(data).pos == pos,
        final(data).changed == changed,
        final(data).temp_saved,
        final(data).undo == old(data).undo,
        final(data).redo == old(data).redo,
        final(data).last_pos == old(data).last_pos,
        final(data).change_placeholder == old(data).change_placeholder,
        final(data).tile_placeholder == old(data).tile_placeholder,
        final(data).attr_placeholder == old(data).attr_placeholder,
        final(data).unsaved_map == old(data).unsaved_map,
        final(data).exiting_save == old(data).exiting_save,
{
    data.mapdata = mapdata;
    data.pos = pos;
    data.changed = changed;
    data.temp_saved = true;
}

/// Gets the open map ready to be saved at `mappos`: the map takes that position, and the
/// position leaves the unsaved maps (the last of them taking its place).
pub fn begin_save_map(data: &mut EditorData, mappos: MapPosition)
    requires
        old(data).wf(),
    ensures
        final(data).wf(),
        final(data).mapdata.position == mappos,
        final(data).mapdata.tile == old(data).mapdata.tile,
        final(data).mapdata.attribute == old(data).mapdata.attribute,
        final(data).mapdata.dir_block == old(data).mapdata.dir_block,
        final(data).mapdata.zonespawns == old(data).mapdata.zonespawns,
        final(data).mapdata.zones == old(data).mapdata.zones,
        final(data).mapdata.music == old(data).mapdata.music,
        final(data).mapdata.weather == old(data).mapdata.weather,
        ({
            let s = unsaved_entries(old(data).unsaved_map);
            let k = pos_key(mappos);
            unsaved_entries(final(data).unsaved_map) == if s.contains(k) {
                s.update(s.index_of(k), s.last()).drop_last()
            } else {
                s
            }
        }),
        !unsaved_entries(final(data).unsaved_map).contains(pos_key(mappos)),
        final(data).pos == old(data).pos,
        final(data).changed == old(data).changed,
        final(data).temp_saved == old(data).temp_saved,
        final(data).undo == old(data).undo,
        final(data).redo == old(data).redo,
        final(data).last_pos == old(data).last_pos,
        final(data).change_placeholder == old(data).change_placeholder,
        final(data).tile_placeholder == old(data).tile_placeholder,
        final(data).attr_placeholder == old(data).attr_placeholder,
        final(data).exiting_save == old(data).exiting_save,
{
    data.mapdata.position = mappos;
    let k = map_key(mappos);
    let ghost s = unsaved_entries(data.unsaved_map);
    let removed = unsaved_swap_remove(&mut data.unsaved_map, &k);
    proof {
        let t = unsaved_entries(data.unsaved_map);
        if removed {
            let i = s.index_of(k);
            assert(0 <= i < s.len() && s[i] == k);
            assert forall|j: int| 0 <= j < t.len() implies t[j] != k by {
                if j == i {
                    assert(s[s.len() - 1] != k || s.len() - 1 == i);
                } else {
                    assert(t[j] == s[j]);
                }
            }
        }
    }
}

/// Notes how saving the open map at `mappos` went: when it was written, the map is at that
/// position with no unsaved changes. Returns whether it was written.
pub fn finish_save_map(data: &mut EditorData, mappos: MapPosition, written: bool) -> (r: bool)
    requires
        old(data).wf(),
    ensures
        final(data).wf(),
        r == written,
        written ==> {
            &&& final(data).pos == Some(mappos)
            &&& !final(data).changed
            &&& final(data).temp_saved
        },
        !written ==> *final(data) == *old(data),
        final(data).mapdata == old(data).mapdata,
        final(data).undo == old(data).undo,
        final(data).redo == old(data).redo,
        final(data).unsaved_map == old(data).unsaved_map,
        final(data).exiting_save == old(data).exiting_save,
{
    if written {
        data.pos = Some(mappos);
        data.changed = false;
        data.temp_saved = true;
    }
    written
}

/// The next step of leaving the editor.
#[derive(Debug)]
pub enum ExitStep {
    /// Leave now.
    Exit,
    /// Save each of these maps from its temporary file, then leave.
    SaveAllAndExit(Vec<MapPosition>),
    /// Ask whether to save this map; offer to do the same for the others when some are left.
    AskSave(MapPosition, bool),
}

/// Decides the next step of leaving the editor, once the open map's changes are in a temporary
/// file: leave when no map has unsaved changes; with an answer to repeat (`repeat`), save them
/// all when it says so and leave; else take the last unsaved map off the list and ask about it.
pub fn exit_editor(data: &mut EditorData, repeat: Option<bool>) -> (r: ExitStep)
    requires
        old(data).wf(),
    ensures
        final(data).wf(),
        final(data).exiting_save,
        ({
            let s = unsaved_entries(old(data).unsaved_map);
            if s.len() == 0 {
                &&& r is Exit
                &&& final(data).unsaved_map == old(data).unsaved_map
            } else {
                match repeat {
                    Some(true) => {
                        &&& r matches ExitStep::SaveAllAndExit(v) && v@.len() == s.len() && forall|i: int|
                            0 <= i < s.len() ==> #[trigger] pos_key(v@[i]) == s[i]
                        &&& final(data).unsaved_map == old(data).unsaved_map
                    },
                    Some(false) => {
                        &&& r is Exit
                        &&& final(data).unsaved_map == old(data).unsaved_map
                    },
                    None => {
                        &&& r matches ExitStep::AskSave(p, others) && pos_key(p) == s.last() && others == (s.len()
                            > 1)
                        &&& unsaved_entries(final(data).unsaved_map) == s.drop_last()
                    },
                }
            }
        }),
        final(data).mapdata == old(data).mapdata,
        final(data).pos == old(data).pos,
        final(data).changed == old(data).changed,
        final(data).temp_saved == old(data).temp_saved,
        final(data).undo == old(data).undo,
        final(data).redo == old(data).redo,
        final(data).last_pos == old(data).last_pos,
        final(data).change_placeholder == old(data).change_placeholder,
        final(data).tile_placeholder == old(data).tile_placeholder,
        final(data).attr_placeholder == old(data).attr_placeholder,
{
    data.exiting_save = true;
    if unsaved_is_empty(&data.unsaved_map) {
        return ExitStep::Exit;
    }
    match repeat {
        Some(save_map) => {
            if save_map {
                let keys = unsaved_to_vec(&data.unsaved_map);
                let mut out: Vec<MapPosition> = Vec::new();
                let mut i: usize = 0;
                while i < keys.len()
                    invariant
                        i <= keys@.len(),
                        out@.len() == i,
                        forall|j: int| 0 <= j < i ==> #[trigger] pos_key(out@[j]) == keys@[j],
                    decreases keys@.len() - i,
                {
                    out.push(key_pos(keys[i]));
                    i = i + 1;
                }
                ExitStep::SaveAllAndExit(out)
            } else {
                ExitStep::Exit
            }
        },
        None => {
            let last = unsaved_pop(&mut data.unsaved_map);
            match last {
                Some(k) => {
                    let others = !unsaved_is_empty(&data.unsaved_map);
                    ExitStep::AskSave(key_pos(k), others)
                },
                None => ExitStep::Exit,
            }
        },
    }
}

/// A map whose changes went to its temporary file is listed as unsaved until it is saved:
/// saving it takes it off the list, and the list never holds a map twice.
pub proof fn law_unsaved_until_saved(d0: EditorData, d1: EditorData, d2: EditorData, p: MapPosition)
    requires
        d0.wf(),
        unsaved_entries(d1.unsaved_map) == (if unsaved_entries(d0.unsaved_map).contains(pos_key(p)) {
            unsaved_entries(d0.unsaved_map)
        } else {
            unsaved_entries(d0.unsaved_map).push(pos_key(p))
        }),
        !unsaved_entries(d2.unsaved_map).contains(pos_key(p)),
    ensures
        unsaved_entries(d1.unsaved_map).contains(pos_key(p)),
        unsaved_entries(d1.unsaved_map).no_duplicates(),
        !unsaved_entries(d2.unsaved_map).contains(pos_key(p)),
{
    let s = unsaved_entries(d0.unsaved_map);
    if !s.contains(pos_key(p)) {
        assert(s.push(pos_key(p))[s.len() as int] == pos_key(p));
        assert forall|i: int, j: int|
            0 <= i < s.len() + 1 && 0 <= j < s.len() + 1 && i != j implies s.push(pos_key(p))[i] != s.push(
            pos_key(p),
        )[j] by {
            if i < s.len() && j < s.len() {
                assert(s[i] != s[j]);
            } else if i == s.len() {
                assert(s[j] != pos_key(p));
            } else {
                assert(s[i] != pos_key(p));
            }
        }
    }
}

} // verus!
