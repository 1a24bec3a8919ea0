use mapeditor::edit::{handle_map_input, DrawInputs};
use mapeditor::editor::{apply_undo, EditorData};
use mapeditor::enums::{MouseInputType, TabButton, ToolType};
use mapeditor::input::MapAction;
use mapeditor::map_data::{get_tile_pos, MapAttribute};
use mapeditor::presets::PresetData;
use mapeditor::edit::{handle_key, KeyState};
use mapeditor::enums::SelectedTextbox;
use mapeditor::input::{KeyAction, KeyInput};

fn inputs(x: u16, y: u16) -> DrawInputs {
    DrawInputs {
        tool_layer: 0,
        map_pos: (x, y),
        rect_height: 1,
        rect_ids: vec![Some(9)],
        fill_id: Some(9),
        attribute: MapAttribute::Blocked,
        blocks: [true, false, false, false],
        zone: 1,
        preset: PresetData::default(),
        preset_tiles: vec![],
        frame_ids: vec![vec![Some(4)], vec![], vec![], vec![]],
    }
}

#[test]
fn drag_paint_then_undo() {
    let mut d = EditorData::new();
    let a = handle_map_input(&mut d, MouseInputType::LeftDown, ToolType::Paint, TabButton::Tileset, true, &inputs(1, 1));
    assert_eq!(a, MapAction::PaintTile);
    for x in 2..6u16 {
        handle_map_input(&mut d, MouseInputType::LeftDownMove, ToolType::Paint, TabButton::Tileset, true, &inputs(x, 1));
    }
    assert_eq!(d.mapdata.tile[0].id[get_tile_pos(5, 1)], 9);
    let r = handle_map_input(&mut d, MouseInputType::Release, ToolType::Paint, TabButton::Tileset, true, &inputs(5, 1));
    assert_eq!(r, MapAction::Nothing);
    assert_eq!(d.undo.len(), 1);
    assert!(apply_undo(&mut d));
    assert!(d.mapdata.tile[0].id.iter().all(|&v| v == 0));
}

#[test]
fn outside_the_drawing_area_nothing_is_drawn() {
    let mut d = EditorData::new();
    let a = handle_map_input(&mut d, MouseInputType::LeftDown, ToolType::Paint, TabButton::Tileset, false, &inputs(1, 1));
    assert_eq!(a, MapAction::Nothing);
    assert!(!d.changed);
}

#[test]
fn other_tabs_dispatch() {
    let mut d = EditorData::new();
    handle_map_input(&mut d, MouseInputType::LeftDown, ToolType::Paint, TabButton::Attributes, true, &inputs(3, 3));
    assert!(d.mapdata.attribute[get_tile_pos(3, 3)].equals(&MapAttribute::Blocked));
    handle_map_input(&mut d, MouseInputType::LeftDown, ToolType::Paint, TabButton::DirBlock, true, &inputs(3, 3));
    assert_eq!(d.mapdata.dir_block[get_tile_pos(3, 3)], 1);
    handle_map_input(&mut d, MouseInputType::LeftDown, ToolType::Paint, TabButton::Zones, true, &inputs(3, 3));
    assert_eq!(d.mapdata.zonespawns[1], vec![(3, 3)]);
    handle_map_input(&mut d, MouseInputType::RightDown, ToolType::Paint, TabButton::Zones, true, &inputs(3, 3));
    assert!(d.mapdata.zonespawns[1].is_empty());
    handle_map_input(&mut d, MouseInputType::LeftDown, ToolType::Paint, TabButton::CustomTiles, true, &inputs(6, 6));
    assert_eq!(d.mapdata.tile[0].id[get_tile_pos(6, 6)], 4);
    handle_map_input(&mut d, MouseInputType::LeftDown, ToolType::Fill, TabButton::Tileset, true, &inputs(0, 0));
    assert_eq!(d.mapdata.tile[0].id[get_tile_pos(31, 31)], 9);
    assert_eq!(d.mapdata.tile[0].id[get_tile_pos(6, 6)], 4);
}

#[test]
fn keys_undo_and_redo() {
    let mut d = EditorData::new();
    let mut keys = KeyState { ctrl_down: false, shift_down: false };
    handle_map_input(&mut d, MouseInputType::LeftDown, ToolType::Paint, TabButton::Tileset, true, &inputs(1, 1));
    handle_map_input(&mut d, MouseInputType::Release, ToolType::Paint, TabButton::Tileset, true, &inputs(1, 1));
    let u = SelectedTextbox::Unselected;
    assert_eq!(handle_key(&mut d, &mut keys, u, KeyInput::Char('z'), true), KeyAction::Nothing);
    assert_eq!(d.mapdata.tile[0].id[get_tile_pos(1, 1)], 9);
    assert_eq!(handle_key(&mut d, &mut keys, u, KeyInput::Control, true), KeyAction::SetCtrl(true));
    assert!(keys.ctrl_down);
    assert_eq!(handle_key(&mut d, &mut keys, u, KeyInput::Char('z'), true), KeyAction::Undo);
    assert_eq!(d.mapdata.tile[0].id[get_tile_pos(1, 1)], 0);
    assert_eq!(handle_key(&mut d, &mut keys, u, KeyInput::Char('y'), true), KeyAction::Redo);
    assert_eq!(d.mapdata.tile[0].id[get_tile_pos(1, 1)], 9);
    assert_eq!(handle_key(&mut d, &mut keys, u, KeyInput::Char('s'), true), KeyAction::OpenSaveMap);
    assert_eq!(handle_key(&mut d, &mut keys, u, KeyInput::Control, false), KeyAction::SetCtrl(false));
    assert!(!keys.ctrl_down);
}
