use vstd::prelude::*;

use crate::enums::{MapLayers, MouseInputType, SelectedTextbox, TabButton, ToolType};
use crate::map_data::{MapPosition, EditorMapAttribute};

verus! {

/// What a mouse event on the drawn map does to it.
#[derive(Clone, Copy, PartialEq, Eq, Structural, Debug)]
pub enum MapAction {
    Nothing,
    /// Paint the tile sheet selection.
    PaintTile,
    /// Erase the tile under the cursor.
    EraseTile,
    /// Set the chosen attribute.
    PaintAttribute,
    /// Set the attribute to walkable.
    EraseAttribute,
    /// Draw the selected preset.
    SetPreset,
    /// Set the chosen direction block.
    PaintDirBlock,
    /// Clear the direction block.
    EraseDirBlock,
    /// Add the tile to the zone.
    SetZone,
    /// Remove the tile from the zone.
    ClearZone,
    /// Fill the region with the selected tile.
    FillTile,
    /// Fill the region with no tile.
    EraseFillTile,
    /// Fill the region with the chosen attribute.
    FillAttribute,
    /// Fill the region with the walkable attribute.
    EraseFillAttribute,
    /// Pick the tile under the cursor into the tile sheet selection.
    PickTile,
    /// Pick the attribute under the cursor into the attribute window.
    PickAttribute,
}

/// Painting with the tool of tab `tab`.
pub open spec fn paint_of(tab: TabButton) -> MapAction {
    match tab {
        TabButton::Tileset => MapAction::PaintTile,
        TabButton::Attributes => MapAction::PaintAttribute,
        TabButton::CustomTiles => MapAction::SetPreset,
        TabButton::DirBlock => MapAction::PaintDirBlock,
        TabButton::Zones => MapAction::SetZone,
        _ => MapAction::Nothing,
    }
}

/// Erasing with the tool of tab `tab`.
pub open spec fn erase_of(tab: TabButton) -> MapAction {
    match tab {
        TabButton::Tileset | TabButton::CustomTiles => MapAction::EraseTile,
        TabButton::Attributes => MapAction::EraseAttribute,
        TabButton::DirBlock => MapAction::EraseDirBlock,
        TabButton::Zones => MapAction::ClearZone,
        _ => MapAction::Nothing,
    }
}

/// What mouse event `input` over the drawn map does with tool `tool` and side tab `tab`.
pub open spec fn map_action_of(input: MouseInputType, tool: ToolType, tab: TabButton) -> MapAction {
    match input {
        MouseInputType::LeftDown => match tool {
            ToolType::Paint => paint_of(tab),
            ToolType::Eraser => erase_of(tab),
            ToolType::Fill => match tab {
                TabButton::Tileset => MapAction::FillTile,
                TabButton::Attributes => MapAction::FillAttribute,
                _ => MapAction::Nothing,
            },
            ToolType::Picker => match tab {
                TabButton::Tileset => MapAction::PickTile,
                TabButton::Attributes => MapAction::PickAttribute,
                _ => MapAction::Nothing,
            },
            _ => MapAction::Nothing,
        },
        MouseInputType::LeftDownMove => match tool {
            ToolType::Paint => paint_of(tab),
            ToolType::Eraser => erase_of(tab),
            _ => MapAction::Nothing,
        },
        MouseInputType::RightDownMove => match tool {
            ToolType::Paint | ToolType::Eraser => erase_of(tab),
            _ => MapAction::Nothing,
        },
        MouseInputType::RightDown => match tool {
            ToolType::Paint | ToolType::Eraser => erase_of(tab),
            ToolType::Fill => match tab {
                TabButton::Tileset => MapAction::EraseFillTile,
                TabButton::Attributes => MapAction::EraseFillAttribute,
                _ => MapAction::Nothing,
            },
            _ => MapAction::Nothing,
        },
        _ => MapAction::Nothing,
    }
}

fn paint_action(tab: TabButton) -> (r: MapAction)
    ensures
        r == paint_of(tab),
{
    match tab {
        TabButton::Tileset => MapAction::PaintTile,
        TabButton::Attributes => MapAction::PaintAttribute,
        TabButton::CustomTiles => MapAction::SetPreset,
        TabButton::DirBlock => MapAction::PaintDirBlock,
        TabButton::Zones => MapAction::SetZone,
        _ => MapAction::Nothing,
    }
}

fn erase_action(tab: TabButton) -> (r: MapAction)
    ensures
        r == erase_of(tab),
{
    match tab {
        TabButton::Tileset | TabButton::CustomTiles => MapAction::EraseTile,
        TabButton::Attributes => MapAction::EraseAttribute,
        TabButton::DirBlock => MapAction::EraseDirBlock,
        TabButton::Zones => MapAction::ClearZone,
        _ => MapAction::Nothing,
    }
}

/// What mouse event `input` over the drawn map does with tool `tool` and side tab `tab`.
pub fn map_action(input: MouseInputType, tool: ToolType, tab: TabButton) -> (r: MapAction)
    ensures
        r == map_action_of(input, tool, tab),
{
    match input {
        MouseInputType::LeftDown => match tool {
            ToolType::Paint => paint_action(tab),
            ToolType::Eraser => erase_action(tab),
            ToolType::Fill => match tab {
                TabButton::Tileset => MapAction::FillTile,
                TabButton::Attributes => MapAction::FillAttribute,
                _ => MapAction::Nothing,
            },
            ToolType::Picker => match tab {
                TabButton::Tileset => MapAction::PickTile,
                TabButton::Attributes => MapAction::PickAttribute,
                _ => MapAction::Nothing,
            },
            _ => MapAction::Nothing,
        },
        MouseInputType::LeftDownMove => match tool {
            ToolType::Paint => paint_action(tab),
            ToolType::Eraser => erase_action(tab),
            _ => MapAction::Nothing,
        },
        MouseInputType::RightDownMove => match tool {
            ToolType::Paint | ToolType::Eraser => erase_action(tab),
            _ => MapAction::Nothing,
        },
        MouseInputType::RightDown => match tool {
            ToolType::Paint | ToolType::Eraser => erase_action(tab),
            ToolType::Fill => match tab {
                TabButton::Tileset => MapAction::EraseFillTile,
                TabButton::Attributes => MapAction::EraseFillAttribute,
                _ => MapAction::Nothing,
            },
            _ => MapAction::Nothing,
        },
        _ => MapAction::Nothing,
    }
}

/// The move tool never edits the map; the right button never paints, it only erases; and
/// dragging never fills or picks.
pub proof fn law_map_actions(input: MouseInputType, tool: ToolType, tab: TabButton)
    ensures
        tool == ToolType::Move ==> map_action_of(input, tool, tab) == MapAction::Nothing,
        (input == MouseInputType::RightDown || input == MouseInputType::RightDownMove) ==> {
            let a = map_action_of(input, tool, tab);
            a == MapAction::Nothing || a == MapAction::EraseTile || a == MapAction::EraseAttribute || a
                == MapAction::EraseDirBlock || a == MapAction::ClearZone || a == MapAction::EraseFillTile || a
                == MapAction::EraseFillAttribute
        },
        (input == MouseInputType::LeftDownMove || input == MouseInputType::RightDownMove) ==> {
            let a = map_action_of(input, tool, tab);
            a != MapAction::FillTile && a != MapAction::FillAttribute && a != MapAction::EraseFillTile && a
                != MapAction::EraseFillAttribute && a != MapAction::PickTile && a != MapAction::PickAttribute
        },
{
}

/// Whether action `a` edits what side tab `tab` is for: tiles on the tile sheet tab, attributes
/// on the attribute tab, presets (or the tiles they left) on the custom tile tab, direction
/// blocks and zones on theirs.
pub open spec fn acts_on_tab(a: MapAction, tab: TabButton) -> bool {
    match tab {
        TabButton::Tileset => a == MapAction::PaintTile || a == MapAction::EraseTile || a == MapAction::FillTile || a
            == MapAction::EraseFillTile || a == MapAction::PickTile,
        TabButton::Attributes => a == MapAction::PaintAttribute || a == MapAction::EraseAttribute || a
            == MapAction::FillAttribute || a == MapAction::EraseFillAttribute || a == MapAction::PickAttribute,
        TabButton::CustomTiles => a == MapAction::SetPreset || a == MapAction::EraseTile,
        TabButton::DirBlock => a == MapAction::PaintDirBlock || a == MapAction::EraseDirBlock,
        TabButton::Zones => a == MapAction::SetZone || a == MapAction::ClearZone,
        _ => false,
    }
}

/// The erasing counterpart of a setting action: what the same thing does with the right button.
pub open spec fn erasing(a: MapAction) -> MapAction {
    match a {
        MapAction::PaintTile | MapAction::SetPreset => MapAction::EraseTile,
        MapAction::PaintAttribute => MapAction::EraseAttribute,
        MapAction::PaintDirBlock => MapAction::EraseDirBlock,
        MapAction::SetZone => MapAction::ClearZone,
        MapAction::FillTile => MapAction::EraseFillTile,
        MapAction::FillAttribute => MapAction::EraseFillAttribute,
        _ => a,
    }
}

/// What a click edits follows the side tab: every action edits what its tab is for (so the
/// tile sheet tab never edits attributes, nor the attribute tab tiles). With the paint or the
/// fill tool, a right click does the erasing counterpart of what a left click does; the fill
/// tool only fills, and the eraser erases with either button.
pub proof fn law_map_actions_follow_tab(input: MouseInputType, tool: ToolType, tab: TabButton)
    ensures
        map_action_of(input, tool, tab) == MapAction::Nothing || acts_on_tab(map_action_of(input, tool, tab), tab),
        (tool == ToolType::Paint || tool == ToolType::Fill) ==> map_action_of(MouseInputType::RightDown, tool, tab)
            == erasing(map_action_of(MouseInputType::LeftDown, tool, tab)),
        tool == ToolType::Eraser ==> map_action_of(MouseInputType::LeftDown, tool, tab) == map_action_of(
            MouseInputType::RightDown,
            tool,
            tab,
        ),
        tool == ToolType::Fill ==> {
            let a = map_action_of(input, tool, tab);
            a == MapAction::Nothing || a == MapAction::FillTile || a == MapAction::EraseFillTile || a
                == MapAction::FillAttribute || a == MapAction::EraseFillAttribute
        },
{
}

/// A key as the editor's shortcuts read it.
#[derive(Clone, Copy, PartialEq, Eq, Structural, Debug)]
pub enum KeyInput {
    Control,
    Shift,
    Char(char),
    Other,
}

/// What a key event does when no alert takes it.
#[derive(Clone, Copy, PartialEq, Eq, Structural, Debug)]
pub enum KeyAction {
    Nothing,
    /// The key goes to the selected text box.
    EnterText,
    /// The control key went down or up.
    SetCtrl(bool),
    /// The shift key went down or up.
    SetShift(bool),
    /// Open the window that asks which map to load.
    OpenLoadMap,
    /// Save the open map where it was loaded from.
    SaveMap,
    /// Open the window that asks where to save the map.
    OpenSaveMap,
    Undo,
    Redo,
}

/// What key `key` (going down when `pressed`) does, with text box `textbox` selected, the
/// control and shift keys held as given, and `has_pos` when the open map has a position.
pub open spec fn key_action_of(
    textbox: SelectedTextbox,
    key: KeyInput,
    pressed: bool,
    ctrl: bool,
    shift: bool,
    has_pos: bool,
) -> KeyAction {
    match textbox {
        SelectedTextbox::SampleTextbox => KeyAction::Nothing,
        SelectedTextbox::Unselected => match key {
            KeyInput::Control => KeyAction::SetCtrl(pressed),
            KeyInput::Shift => KeyAction::SetShift(pressed),
            KeyInput::Char(c) => if !(pressed && ctrl) {
                KeyAction::Nothing
            } else if c == 'o' || c == 'O' {
                KeyAction::OpenLoadMap
            } else if c == 's' || c == 'S' {
                if !shift && has_pos {
                    KeyAction::SaveMap
                } else {
                    KeyAction::OpenSaveMap
                }
            } else if c == 'z' {
                KeyAction::Undo
            } else if c == 'y' {
                KeyAction::Redo
            } else {
                KeyAction::Nothing
            },
            KeyInput::Other => KeyAction::Nothing,
        },
        _ => KeyAction::EnterText,
    }
}

/// What a key event does when no alert takes it.
pub fn key_action(
    textbox: SelectedTextbox,
    key: KeyInput,
    pressed: bool,
    ctrl: bool,
    shift: bool,
    has_pos: bool,
) -> (r: KeyAction)
    ensures
        r == key_action_of(textbox, key, pressed, ctrl, shift, has_pos),
{
    match textbox {
        SelectedTextbox::SampleTextbox => KeyAction::Nothing,
        SelectedTextbox::Unselected => match key {
            KeyInput::Control => KeyAction::SetCtrl(pressed),
            KeyInput::Shift => KeyAction::SetShift(pressed),
            KeyInput::Char(c) => {
                if !(pressed && ctrl) {
                    KeyAction::Nothing
                } else if c == 'o' || c == 'O' {
                    KeyAction::OpenLoadMap
                } else if c == 's' || c == 'S' {
                    if !shift && has_pos {
                        KeyAction::SaveMap
                    } else {
                        KeyAction::OpenSaveMap
                    }
                } else if c == 'z' {
                    KeyAction::Undo
                } else if c == 'y' {
                    KeyAction::Redo
                } else {
                    KeyAction::Nothing
                }
            },
            KeyInput::Other => KeyAction::Nothing,
        },
        _ => KeyAction::EnterText,
    }
}

/// Whether a key event goes on to the editor while an alert shows: not when the alert used
/// it, and not when the alert blocks other input.
pub fn key_passes_alert(alert_visible: bool, alert_used_key: bool, allow_action: bool) -> (r: bool)
    ensures
        r == (!alert_visible || (!alert_used_key && allow_action)),
{
    if alert_visible {
        if alert_used_key {
            return false;
        }
        if !allow_action {
            return false;
        }
    }
    true
}

/// Shortcuts act only while no text box has the keyboard, and only with the control key
/// held and the key going down; control-z undoes and control-y redoes.
pub proof fn law_shortcuts(
    textbox: SelectedTextbox,
    key: KeyInput,
    pressed: bool,
    ctrl: bool,
    shift: bool,
    has_pos: bool,
)
    ensures
        ({
            let a = key_action_of(textbox, key, pressed, ctrl, shift, has_pos);
            (a == KeyAction::OpenLoadMap || a == KeyAction::SaveMap || a == KeyAction::OpenSaveMap || a
                == KeyAction::Undo || a == KeyAction::Redo) ==> textbox == SelectedTextbox::Unselected && pressed
                && ctrl
        }),
        key_action_of(SelectedTextbox::Unselected, KeyInput::Char('z'), true, true, shift, has_pos)
            == KeyAction::Undo,
        key_action_of(SelectedTextbox::Unselected, KeyInput::Char('y'), true, true, shift, has_pos)
            == KeyAction::Redo,
{
}

/// The layer the tool bar selects after a wheel step over the layer buttons: one up (at
/// most the top layer) or one down (at least the ground).
pub fn wheel_layer(cur_layer: usize, up: bool) -> (r: usize)
    ensures
        up ==> r == (if cur_layer + 1 < 9 {
            (cur_layer + 1) as usize
        } else {
            8
        }),
        !up ==> r == (if cur_layer > 0 {
            (cur_layer - 1) as usize
        } else {
            0
        }),
{
    let top: usize = 9 - 1;
    assert(MapLayers::Count.index() - 1 == top);
    if up {
        let next = cur_layer.saturating_add(1);
        if next < top {
            next
        } else {
            top
        }
    } else {
        cur_layer.saturating_sub(1)
    }
}

/// The value of a scrollbar that runs from 0 to `max_value`, optionally reversed.
#[derive(Clone, Copy, PartialEq, Eq, Structural, Debug)]
pub struct ScrollValue {
    pub value: usize,
    pub max_value: usize,
    pub reverse_value: bool,
}

impl ScrollValue {
    /// Where the bar stands for the value: the value, or its distance from the end when reversed.
    pub open spec fn bar_value(self, value: usize) -> int {
        if self.reverse_value {
            if value <= self.max_value {
                self.max_value - value
            } else {
                0
            }
        } else {
            value as int
        }
    }

    /// Sets the value, unless the bar would stand past its end; returns where the bar stands.
    pub fn set_value(&mut self, value: usize) -> (r: Option<usize>)
        ensures
            old(self).bar_value(value) <= old(self).max_value ==> {
                &&& *final(self) == (ScrollValue { value, ..*old(self) })
                &&& r == Some(old(self).bar_value(value) as usize)
            },
            old(self).bar_value(value) > old(self).max_value ==> *final(self) == *old(self) && r is None,
    {
        let new_value = if self.reverse_value {
            self.max_value.saturating_sub(value)
        } else {
            value
        };
        if new_value > self.max_value {
            return None;
        }
        self.value = value;
        Some(new_value)
    }
}

/// The zoom, in percent, that the zoom scrollbar's value stands for.
pub fn zoom_percent(value: usize) -> (r: usize)
    requires
        value <= (usize::MAX - 100) / 10,
    ensures
        r == 100 + 10 * value,
{
    100 + 10 * value
}

/// The zoom scrollbar after a wheel step over the map view: one up or one down, kept when
/// the new value is past the bar's end.
pub fn wheel_zoom(scroll: &mut ScrollValue, up: bool)
    ensures
        ({
            let v: usize = if up {
                if old(scroll).value == usize::MAX {
                    usize::MAX
                } else {
                    (old(scroll).value + 1) as usize
                }
            } else {
                if old(scroll).value == 0 {
                    0
                } else {
                    (old(scroll).value - 1) as usize
                }
            };
            if old(scroll).bar_value(v) <= old(scroll).max_value {
                *final(scroll) == (ScrollValue { value: v, ..*old(scroll) })
            } else {
                *final(scroll) == *old(scroll)
            }
        }),
{
    let v = if up {
        scroll.value.saturating_add(1)
    } else {
        scroll.value.saturating_sub(1)
    };
    let _ = scroll.set_value(v);
}

/// What an entry of the menu bar's file or edit menu does.
#[derive(Clone, Copy, PartialEq, Eq, Structural, Debug)]
pub enum MenuAction {
    Nothing,
    OpenLoadMap,
    /// Save the open map at its position.
    SaveMap(MapPosition),
    OpenSaveMap,
    /// Load the open map's position again.
    ReloadMap(MapPosition),
    /// Tell that there is no loaded map to reload.
    NoMapToReload,
    Undo,
    Redo,
}

/// What entry `index` of the file menu does, `pos` being the open map's position:
/// open, save (asking where when the map has no position), save as, reload.
pub open spec fn file_menu_of(index: usize, pos: Option<MapPosition>) -> MenuAction {
    match index {
        0 => MenuAction::OpenLoadMap,
        1 => match pos {
            Some(p) => MenuAction::SaveMap(p),
            None => MenuAction::OpenSaveMap,
        },
        2 => MenuAction::OpenSaveMap,
        3 => match pos {
            Some(p) => MenuAction::ReloadMap(p),
            None => MenuAction::NoMapToReload,
        },
        _ => MenuAction::Nothing,
    }
}

/// What entry `index` of the file menu does (see [`file_menu_of`]).
pub fn file_menu_action(index: usize, pos: Option<MapPosition>) -> (r: MenuAction)
    ensures
        r == file_menu_of(index, pos),
{
    match index {
        0 => MenuAction::OpenLoadMap,
        1 => match pos {
            Some(p) => MenuAction::SaveMap(p),
            None => MenuAction::OpenSaveMap,
        },
        2 => MenuAction::OpenSaveMap,
        3 => match pos {
            Some(p) => MenuAction::ReloadMap(p),
            None => MenuAction::NoMapToReload,
        },
        _ => MenuAction::Nothing,
    }
}

/// What entry `index` of the edit menu does: undo, then redo.
pub fn edit_menu_action(index: usize) -> (r: MenuAction)
    ensures
        r == (if index == 0 {
            MenuAction::Undo
        } else if index == 1 {
            MenuAction::Redo
        } else {
            MenuAction::Nothing
        }),
{
    match index {
        0 => MenuAction::Undo,
        1 => MenuAction::Redo,
        _ => MenuAction::Nothing,
    }
}

/// Which menus show after a click on button `index` of the menu bar, given which show now:
/// the file button toggles the file menu, the edit button the edit menu, each closing the
/// other; the third closes both.
pub open spec fn menus_after(index: usize, file_visible: bool, edit_visible: bool) -> (bool, bool) {
    if index == 0 {
        (!file_visible, false)
    } else if index == 1 {
        (false, !edit_visible)
    } else if index == 2 {
        (false, false)
    } else {
        (file_visible, edit_visible)
    }
}

/// Which menus show after a click on button `index` of the menu bar (see [`menus_after`]).
pub fn menu_button_click(index: usize, file_visible: bool, edit_visible: bool) -> (r: (bool, bool))
    ensures
        r == menus_after(index, file_visible, edit_visible),
{
    match index {
        0 => (!file_visible, false),
        1 => (false, !edit_visible),
        2 => (false, false),
        _ => (file_visible, edit_visible),
    }
}

/// At most one menu shows after a click on a button of the menu bar.
pub proof fn law_one_menu_at_a_time(index: usize, file_visible: bool, edit_visible: bool)
    requires
        index <= 2,
    ensures
        !(menus_after(index, file_visible, edit_visible).0 && menus_after(index, file_visible, edit_visible).1),
{
}

/// The text boxes that take typing.
#[derive(Clone, Copy, PartialEq, Eq, Structural, Debug)]
pub enum TextTarget {
    Nothing,
    /// The selected box of the warp's place.
    WarpBoxes,
    /// The selected box of the item spawn.
    ItemSpawnBoxes,
    /// The shop's index box.
    ShopBox,
    /// The sign's text box (any text).
    SignBox,
    /// The selected box of the zone window.
    ZoneBoxes,
    /// The selected box of the map position window.
    MapPosBoxes,
}

/// The text box that typing, holding and releasing go to, given the selected kind of text
/// box and the attribute kind the attribute window shows.
pub open spec fn text_target_of(textbox: SelectedTextbox, attribute: EditorMapAttribute) -> TextTarget {
    match textbox {
        SelectedTextbox::AttrContent => match attribute {
            EditorMapAttribute::Warp => TextTarget::WarpBoxes,
            EditorMapAttribute::ItemSpawn => TextTarget::ItemSpawnBoxes,
            EditorMapAttribute::Shop => TextTarget::ShopBox,
            EditorMapAttribute::Sign => TextTarget::SignBox,
            _ => TextTarget::Nothing,
        },
        SelectedTextbox::ZoneTextbox => TextTarget::ZoneBoxes,
        SelectedTextbox::MapPosTextbox => TextTarget::MapPosBoxes,
        _ => TextTarget::Nothing,
    }
}

/// The text box that typing, holding and releasing go to (see [`text_target_of`]).
pub fn text_target(textbox: SelectedTextbox, attribute: EditorMapAttribute) -> (r: TextTarget)
    ensures
        r == text_target_of(textbox, attribute),
{
    match textbox {
        SelectedTextbox::AttrContent => match attribute {
            EditorMapAttribute::Warp => TextTarget::WarpBoxes,
            EditorMapAttribute::ItemSpawn => TextTarget::ItemSpawnBoxes,
            EditorMapAttribute::Shop => TextTarget::ShopBox,
            EditorMapAttribute::Sign => TextTarget::SignBox,
            _ => TextTarget::Nothing,
        },
        SelectedTextbox::ZoneTextbox => TextTarget::ZoneBoxes,
        SelectedTextbox::MapPosTextbox => TextTarget::MapPosBoxes,
        _ => TextTarget::Nothing,
    }
}

/// Whether typing in a text box takes digits only: all boxes but the sign's.
pub fn digits_only(target: TextTarget) -> (r: bool)
    ensures
        r == (target != TextTarget::SignBox),
{
    match target {
        TextTarget::SignBox => false,
        _ => true,
    }
}

} // verus!
