use mapeditor::input::{edit_menu_action, file_menu_action, menu_button_click, MenuAction};
use mapeditor::list::ListSelection;
use mapeditor::map_data::{EditorMapAttribute, ItemSpawnData, MapAttribute, MapPosition, Position, WarpData};
use mapeditor::mapedit::{attribute_from_editor, picker_attribute};
use mapeditor::mapedit::attr_preview_lines;
use mapeditor::enums::SelectedTextbox;
use mapeditor::input::{digits_only, text_target, TextTarget};
use mapeditor::presets::{frame_sheet_origin, preset_frame_cells, PresetFrames, PresetPos};
use mapeditor::files::temp_file_path;
use mapeditor::text::{parse_i32_or_zero, parse_u64};

fn list(len: usize) -> ListSelection {
    ListSelection {
        visible: true,
        scroll: 0,
        max_scroll: 0,
        max_list: 5,
        max_data: len,
        selected_list: None,
        current_selected: None,
        lit: false,
    }
}

#[test]
fn menus() {
    let p = MapPosition { x: 1, y: 1, group: 1 };
    assert_eq!(file_menu_action(0, None), MenuAction::OpenLoadMap);
    assert_eq!(file_menu_action(1, Some(p)), MenuAction::SaveMap(p));
    assert_eq!(file_menu_action(1, None), MenuAction::OpenSaveMap);
    assert_eq!(file_menu_action(2, Some(p)), MenuAction::OpenSaveMap);
    assert_eq!(file_menu_action(3, Some(p)), MenuAction::ReloadMap(p));
    assert_eq!(file_menu_action(3, None), MenuAction::NoMapToReload);
    assert_eq!(file_menu_action(4, None), MenuAction::Nothing);
    assert_eq!(edit_menu_action(0), MenuAction::Undo);
    assert_eq!(edit_menu_action(1), MenuAction::Redo);
    assert_eq!(edit_menu_action(2), MenuAction::Nothing);
    assert_eq!(menu_button_click(0, false, true), (true, false));
    assert_eq!(menu_button_click(0, true, false), (false, false));
    assert_eq!(menu_button_click(1, true, false), (false, true));
    assert_eq!(menu_button_click(2, true, true), (false, false));
}

#[test]
fn attribute_window_values() {
    let item = ItemSpawnData { index: 3, amount: 2, timer: 60 };
    let warp_pos = Position { x: 4, y: 5, map: MapPosition { x: -1, y: 2, group: 3 } };
    let a = attribute_from_editor(EditorMapAttribute::Warp, item, 9, "s".to_string(), warp_pos);
    assert!(a.equals(&MapAttribute::Warp(WarpData { map_x: -1, map_y: 2, map_group: 3, tile_x: 4, tile_y: 5 })));
    let b = attribute_from_editor(EditorMapAttribute::ItemSpawn, item, 9, "s".to_string(), warp_pos);
    assert!(b.equals(&MapAttribute::ItemSpawn(item)));
    let c = attribute_from_editor(EditorMapAttribute::Count, item, 9, "s".to_string(), warp_pos);
    assert!(c.equals(&MapAttribute::Walkable));
    let d = attribute_from_editor(EditorMapAttribute::Sign, item, 9, "hi".to_string(), warp_pos);
    assert!(d.equals(&MapAttribute::Sign("hi".to_string())));
}

#[test]
fn picker_fields() {
    assert!(picker_attribute(&MapAttribute::Walkable).is_none());
    let (k, f) = picker_attribute(&MapAttribute::ItemSpawn(ItemSpawnData { index: 12, amount: 3, timer: 400 })).unwrap();
    assert_eq!(k, EditorMapAttribute::ItemSpawn);
    assert_eq!(f, vec!["12", "3", "400"]);
    let (k, f) = picker_attribute(&MapAttribute::Warp(WarpData { map_x: -5, map_y: 6, map_group: 7, tile_x: 8, tile_y: 9 })).unwrap();
    assert_eq!(k, EditorMapAttribute::Warp);
    assert_eq!(f, vec!["8", "9", "-5", "6", "7"]);
    let (k, f) = picker_attribute(&MapAttribute::Blocked).unwrap();
    assert_eq!(k, EditorMapAttribute::Blocked);
    assert!(f.is_empty());
    let (_, f) = picker_attribute(&MapAttribute::Sign("go".to_string())).unwrap();
    assert_eq!(f, vec!["go"]);
}

#[test]
fn list_selection() {
    let mut l = list(12);
    l.update_list(12, Some(2));
    assert_eq!(l.max_scroll, 7);
    assert_eq!(l.selected_list, Some(2));
    assert_eq!(l.current_selected, Some(2));
    assert!(l.lit);
    l.scroll_to(4);
    assert_eq!(l.scroll, 4);
    assert!(!l.lit);
    l.scroll_to(1);
    assert!(l.lit);
    assert_eq!(l.current_selected, Some(1));
    l.scroll_to(8);
    assert_eq!(l.scroll, 1);
    assert_eq!(l.select_row(3, false), Some(4));
    assert_eq!(l.selected_list, Some(2));
    assert_eq!(l.select_row(3, true), Some(4));
    assert_eq!(l.selected_list, Some(4));
    assert_eq!(l.current_selected, Some(3));
    // selecting the selected entry again leaves the row dark
    l.set_select(Some(4), false);
    assert!(!l.lit);
    l.set_select(Some(0), false);
    assert_eq!(l.selected_list, Some(0));
    assert!(!l.lit);
    l.unselect_list();
    assert_eq!(l.selected_list, None);
    assert_eq!(l.current_selected, None);
    l.visible = false;
    assert_eq!(l.select_row(0, true), None);
    l.set_select(Some(1), false);
    assert_eq!(l.selected_list, None);
    l.set_select(Some(1), true);
    assert_eq!(l.selected_list, Some(1));
}

#[test]
fn attribute_previews() {
    assert!(attr_preview_lines(&MapAttribute::Walkable).is_none());
    assert!(attr_preview_lines(&MapAttribute::Count).is_none());
    assert_eq!(attr_preview_lines(&MapAttribute::Blocked).unwrap(), vec!["Blocked"]);
    assert_eq!(
        attr_preview_lines(&MapAttribute::ItemSpawn(ItemSpawnData { index: 1, amount: 20, timer: 3000 })).unwrap(),
        vec!["Item Spawn", "Index: 1", "Amount: 20", "Respawn Time: 3000ms"]
    );
    assert_eq!(
        attr_preview_lines(&MapAttribute::Warp(WarpData { map_x: -2, map_y: 3, map_group: 4, tile_x: 5, tile_y: 6 })).unwrap(),
        vec!["Warp", "Tile: 5x6", "Map Pos: -2x3", "Group: 4"]
    );
    assert_eq!(attr_preview_lines(&MapAttribute::Sign("hey".to_string())).unwrap(), vec!["Sign", "Msg: hey"]);
    assert_eq!(attr_preview_lines(&MapAttribute::Shop(8)).unwrap(), vec!["Shop", "Index: 8"]);
}

#[test]
fn text_box_routing() {
    assert_eq!(text_target(SelectedTextbox::AttrContent, EditorMapAttribute::Warp), TextTarget::WarpBoxes);
    assert_eq!(text_target(SelectedTextbox::AttrContent, EditorMapAttribute::Blocked), TextTarget::Nothing);
    assert_eq!(text_target(SelectedTextbox::ZoneTextbox, EditorMapAttribute::Sign), TextTarget::ZoneBoxes);
    assert_eq!(text_target(SelectedTextbox::SampleTextbox, EditorMapAttribute::Sign), TextTarget::Nothing);
    assert!(!digits_only(TextTarget::SignBox));
    assert!(digits_only(TextTarget::ShopBox));
}

#[test]
fn preset_sheet_cells() {
    let f = PresetFrames { start: PresetPos { x: 4, y: 2 }, end: PresetPos { x: 3, y: 3 }, tileset: 1 };
    assert_eq!(frame_sheet_origin(&f), (3, 17));
    assert_eq!(preset_frame_cells(&f, false), vec![(3, 17), (3, 16), (4, 17), (4, 16)]);
    let a = PresetFrames { start: PresetPos { x: 0, y: 0 }, end: PresetPos { x: 0, y: 0 }, tileset: 0 };
    let cells = preset_frame_cells(&a, true);
    assert_eq!(cells.len(), 13);
    assert_eq!(cells[0], (0, 19));
    assert!(!cells.contains(&(3, 19)));
    assert!(!cells.contains(&(4, 19)));
    assert!(cells.contains(&(4, 18)));
    let low = PresetFrames { start: PresetPos { x: 0, y: 25 }, end: PresetPos { x: 0, y: 25 }, tileset: 0 };
    assert_eq!(frame_sheet_origin(&low), (0, 0));
}

#[test]
fn decimal_texts_read_back() {
    for n in [0u64, 7, 10, 99, 12345, u64::MAX] {
        assert_eq!(parse_u64(&n.to_string()), Some(n));
    }
    for m in [0i32, -1, 42, i32::MIN, i32::MAX] {
        assert_eq!(parse_i32_or_zero(&m.to_string()), m);
    }
    assert_ne!(temp_file_path(1, 12, 3), temp_file_path(11, 2, 3));
    assert_ne!(temp_file_path(-1, 2, 3), temp_file_path(1, 2, 3));
}
