use vstd::prelude::*;

use crate::autotile::{preset_done, preset_tables_ok, set_preset};
use crate::editor::{ChangePlaceHolder, EditorData, committed, in_map, apply_undo, apply_redo, undone, redone};
use crate::enums::{MouseInputType, SelectedTextbox, TabButton, ToolType};
use crate::fill::{
    attr_fill_done, attr_set_done, map_layer_of, tile_fill_done, update_attribute_fill, update_map_attribute,
    update_tile_fill,
};
use crate::input::{KeyAction, KeyInput, MapAction, key_action, key_action_of, map_action, map_action_of};
use crate::map_data::{MapAttribute, MapData, ZONE_COUNT};
use crate::mapedit::{dirblock_done, update_map_dirblock, update_map_zone, zone_done};
use crate::paint::{rect_fits, tile_paint_done, update_map_tile};
use crate::presets::PresetData;
use crate::stroke::{attr_stroke_tracks, tile_stroke_tracks};

verus! {

/// What the editor's windows hold for drawing on the map: the tool bar's layer, the tile
/// under the cursor, the tile sheet selection (a rectangle of `rect_height` rows with the
/// tile ids of its tiles, and the id of its first tile), the attribute window's attribute,
/// the direction window's flags, the zone window's zone, and the selected preset with its
/// tiles and tile id tables.
#[derive(Debug)]
pub struct DrawInputs {
    pub tool_layer: usize,
    pub map_pos: (u16, u16),
    pub rect_height: usize,
    pub rect_ids: Vec<Option<usize>>,
    pub fill_id: Option<usize>,
    pub attribute: MapAttribute,
    pub blocks: [bool; 4],
    pub zone: usize,
    pub preset: PresetData,
    pub preset_tiles: Vec<usize>,
    pub frame_ids: Vec<Vec<Option<usize>>>,
}

/// The windows' values fit the action: a tile of the map for edits of tiles, attributes and
/// direction blocks, a layer for tile edits, a zone for zone edits, and the tile ids the action
/// paints with.
pub open spec fn inputs_ok(i: DrawInputs, action: MapAction) -> bool {
    let zones = action == MapAction::SetZone || action == MapAction::ClearZone;
    let edits = action != MapAction::Nothing && action != MapAction::PickTile && action != MapAction::PickAttribute
        && !zones;
    let tiles = action == MapAction::PaintTile || action == MapAction::EraseTile || action == MapAction::FillTile
        || action == MapAction::EraseFillTile || action == MapAction::SetPreset;
    &&& tiles ==> i.tool_layer < 9
    &&& edits ==> in_map(i.map_pos.0, i.map_pos.1)
    &&& zones ==> i.zone < ZONE_COUNT
    &&& action == MapAction::PaintTile ==> i.rect_height > 0 && rect_fits(i.map_pos, i.rect_height as int, i.rect_ids@)
    &&& action == MapAction::FillTile ==> (i.fill_id matches Some(id) ==> id <= u32::MAX)
    &&& action == MapAction::SetPreset ==> preset_tables_ok(i.preset, i.map_pos, i.frame_ids@)
}

/// `after` is `before` with `action` done with the windows' values `i`.
pub open spec fn action_done(before: EditorData, after: EditorData, action: MapAction, i: DrawInputs) -> bool {
    let h = i.rect_height as int;
    match action {
        MapAction::PaintTile => tile_paint_done(before, after, i.tool_layer, i.map_pos, true, h, i.rect_ids@),
        MapAction::EraseTile => tile_paint_done(before, after, i.tool_layer, i.map_pos, false, h, i.rect_ids@),
        MapAction::PaintAttribute => attr_set_done(before, after, i.map_pos, i.attribute),
        MapAction::EraseAttribute => attr_set_done(before, after, i.map_pos, MapAttribute::Walkable),
        MapAction::SetPreset => preset_done(
            before,
            after,
            i.tool_layer,
            i.map_pos,
            i.preset,
            i.preset_tiles@,
            i.frame_ids@,
        ),
        MapAction::PaintDirBlock => dirblock_done(before, after, i.map_pos, true, i.blocks),
        MapAction::EraseDirBlock => dirblock_done(before, after, i.map_pos, false, i.blocks),
        MapAction::SetZone => zone_done(before, after, i.map_pos, i.zone, true),
        MapAction::ClearZone => zone_done(before, after, i.map_pos, i.zone, false),
        MapAction::FillTile => tile_fill_done(before, after, i.tool_layer, i.map_pos, true, i.fill_id),
        MapAction::EraseFillTile => tile_fill_done(before, after, i.tool_layer, i.map_pos, false, None),
        MapAction::FillAttribute => attr_fill_done(before, after, i.map_pos, i.attribute),
        MapAction::EraseFillAttribute => attr_fill_done(before, after, i.map_pos, MapAttribute::Walkable),
        _ => after == before,
    }
}

/// The actions that edit tiles on the tool bar's layer alone.
pub open spec fn one_layer_tile_action(action: MapAction, i: DrawInputs) -> bool {
    ||| action == MapAction::PaintTile
    ||| action == MapAction::EraseTile
    ||| action == MapAction::FillTile
    ||| action == MapAction::EraseFillTile
    ||| (action == MapAction::SetPreset && !i.preset.draw_type.is_animated())
}

/// The actions that edit attributes.
pub open spec fn attribute_action(action: MapAction) -> bool {
    ||| action == MapAction::PaintAttribute
    ||| action == MapAction::EraseAttribute
    ||| action == MapAction::FillAttribute
    ||| action == MapAction::EraseFillAttribute
}

/// Does `action` on the map with the windows' values `i`.
pub fn apply_map_action(data: &mut EditorData, action: MapAction, i: &DrawInputs)
    requires
        old(data).wf(),
        inputs_ok(*i, action),
    ensures
        final(data).wf(),
        action_done(*old(data), *final(data), action, *i),
        one_layer_tile_action(action, *i) ==> forall|base: MapData|
            tile_stroke_tracks(*old(data), base, map_layer_of(i.tool_layer)) ==> #[trigger] tile_stroke_tracks(
                *final(data),
                base,
                map_layer_of(i.tool_layer),
            ),
        attribute_action(action) ==> forall|base: MapData|
            attr_stroke_tracks(*old(data), base) ==> #[trigger] attr_stroke_tracks(*final(data), base),
{
    match action {
        MapAction::PaintTile => update_map_tile(data, i.tool_layer, i.map_pos, true, i.rect_height, &i.rect_ids),
        MapAction::EraseTile => update_map_tile(data, i.tool_layer, i.map_pos, false, i.rect_height, &i.rect_ids),
        MapAction::PaintAttribute => update_map_attribute(data, i.map_pos, i.attribute.duplicate()),
        MapAction::EraseAttribute => update_map_attribute(data, i.map_pos, MapAttribute::Walkable),
        MapAction::SetPreset => set_preset(data, i.tool_layer, i.map_pos, &i.preset, &i.preset_tiles, &i.frame_ids),
        MapAction::PaintDirBlock => update_map_dirblock(data, i.map_pos, true, i.blocks),
        MapAction::EraseDirBlock => update_map_dirblock(data, i.map_pos, false, i.blocks),
        MapAction::SetZone => update_map_zone(data, i.map_pos, i.zone, true),
        MapAction::ClearZone => update_map_zone(data, i.map_pos, i.zone, false),
        MapAction::FillTile => update_tile_fill(data, i.tool_layer, i.map_pos, true, i.fill_id),
        MapAction::EraseFillTile => update_tile_fill(data, i.tool_layer, i.map_pos, false, None),
        MapAction::FillAttribute => update_attribute_fill(data, i.map_pos, i.attribute.duplicate()),
        MapAction::EraseFillAttribute => update_attribute_fill(data, i.map_pos, MapAttribute::Walkable),
        _ => {},
    }
}

/// A mouse event on the map view: inside the drawing area it does what its tool and tab call
/// for (see [`map_action_of`]); a release ends the stroke. Returns the action done.
pub fn handle_map_input(
    data: &mut EditorData,
    input: MouseInputType,
    tool: ToolType,
    tab: TabButton,
    in_drawing_area: bool,
    i: &DrawInputs,
) -> (r: MapAction)
    requires
        old(data).wf(),
        inputs_ok(*i, if in_drawing_area { map_action_of(input, tool, tab) } else { MapAction::Nothing }),
    ensures
        final(data).wf(),
        r == (if in_drawing_area {
            map_action_of(input, tool, tab)
        } else {
            MapAction::Nothing
        }),
        input != MouseInputType::Release ==> action_done(*old(data), *final(data), r, *i),
        input == MouseInputType::Release ==> r == MapAction::Nothing && (if old(data).change_placeholder
            == ChangePlaceHolder::Idle {
            *final(data) == *old(data)
        } else {
            committed(*old(data), *final(data))
        }),
{
    let action = if in_drawing_area {
        map_action(input, tool, tab)
    } else {
        MapAction::Nothing
    };
    apply_map_action(data, action, i);
    if input == MouseInputType::Release {
        data.record_placeholder();
    }
    action
}

/// Which modifier keys are held.
#[derive(Clone, Copy, PartialEq, Eq, Structural, Debug)]
pub struct KeyState {
    pub ctrl_down: bool,
    pub shift_down: bool,
}

/// A key event that no alert took: decides what it does (see [`key_action_of`]), keeps track
/// of the modifier keys, and undoes or redoes. Opening and saving maps, and typing in text
/// boxes, are left to the caller, which the returned action tells.
pub fn handle_key(
    data: &mut EditorData,
    keys: &mut KeyState,
    textbox: SelectedTextbox,
    key: KeyInput,
    pressed: bool,
) -> (r: KeyAction)
    requires
        old(data).wf(),
    ensures
        final(data).wf(),
        r == key_action_of(textbox, key, pressed, old(keys).ctrl_down, old(keys).shift_down, old(data).pos is Some),
        *final(keys) == match r {
            KeyAction::SetCtrl(b) => KeyState { ctrl_down: b, ..*old(keys) },
            KeyAction::SetShift(b) => KeyState { shift_down: b, ..*old(keys) },
            _ => *old(keys),
        },
        r == KeyAction::Undo ==> if old(data).undo@.len() > 0 {
            undone(*old(data), *final(data))
        } else {
            *final(data) == *old(data)
        },
        r == KeyAction::Redo ==> if old(data).redo@.len() > 0 {
            redone(*old(data), *final(data))
        } else {
            *final(data) == *old(data)
        },
        r != KeyAction::Undo && r != KeyAction::Redo ==> *final(data) == *old(data),
{
    let has_pos = data.pos.is_some();
    let action = key_action(textbox, key, pressed, keys.ctrl_down, keys.shift_down, has_pos);
    match action {
        KeyAction::SetCtrl(b) => {
            keys.ctrl_down = b;
        },
        KeyAction::SetShift(b) => {
            keys.shift_down = b;
        },
        KeyAction::Undo => {
            let _ = apply_undo(data);
        },
        KeyAction::Redo => {
            let _ = apply_redo(data);
        },
        _ => {},
    }
    action
}

} // verus!
