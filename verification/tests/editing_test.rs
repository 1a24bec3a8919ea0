use mapeditor::editor::{apply_redo, apply_undo, ChangePlaceHolder, EditorData, EditorChange};
use mapeditor::fill::{tool_layer_to_map_layer, update_attribute_fill, update_map_attribute, update_tile_fill};
use mapeditor::map_data::{MapAttribute, WarpData, get_tile_pos};
use mapeditor::paint::update_map_tile;

fn tile(d: &EditorData, layer: usize, x: i32, y: i32) -> u32 {
    d.mapdata.tile[layer].id[get_tile_pos(x, y)]
}

#[test]
fn tool_layers_map_to_layers() {
    let got: Vec<usize> = (0..9).map(tool_layer_to_map_layer).collect();
    assert_eq!(got, vec![0, 3, 4, 5, 6, 1, 2, 7, 8]);
}

#[test]
fn new_editor_is_clean() {
    let d = EditorData::new();
    assert!(!d.changed);
    assert!(d.temp_saved);
    assert!(d.pos.is_none());
    assert_eq!(d.mapdata.tile.len(), 9);
    assert!(d.mapdata.tile.iter().all(|t| t.id.len() == 1024 && t.id.iter().all(|&v| v == 0)));
    assert_eq!(d.change_placeholder, ChangePlaceHolder::Idle);
}

#[test]
fn record_tile_once_per_position() {
    let mut d = EditorData::new();
    d.record_tile(1, 2, 0, 0, 5);
    d.record_tile(1, 2, 0, 5, 6);
    d.record_tile(2, 2, 0, 0, 7);
    assert_eq!(d.tile_placeholder.change.len(), 2);
    assert_eq!(d.tile_placeholder.change[0].to, 5);
    assert_eq!(d.last_pos, vec![(1, 2), (2, 2)]);
    assert_eq!(d.change_placeholder, ChangePlaceHolder::Tiles);
    d.record_placeholder();
    assert_eq!(d.undo.len(), 1);
    assert!(d.last_pos.is_empty());
    assert_eq!(d.change_placeholder, ChangePlaceHolder::Idle);
}

#[test]
fn record_attr_drops_tile_changes() {
    let mut d = EditorData::new();
    d.record_tile(1, 1, 0, 0, 5);
    d.record_attr(2, 2, MapAttribute::Walkable, MapAttribute::Blocked);
    assert!(d.tile_placeholder.change.is_empty());
    assert_eq!(d.attr_placeholder.change.len(), 1);
    assert_eq!(d.change_placeholder, ChangePlaceHolder::Attributes);
}

#[test]
fn undo_history_is_capped() {
    let mut d = EditorData::new();
    for i in 0..70u16 {
        d.record_tile(i % 32, i / 32, 0, 0, 1);
        d.record_placeholder();
    }
    assert_eq!(d.undo.len(), 64);
    assert!(d.redo.is_empty());
}

#[test]
fn idle_stroke_records_nothing() {
    let mut d = EditorData::new();
    d.record_placeholder();
    assert!(d.undo.is_empty());
}

#[test]
fn paint_then_undo_gives_back_map() {
    let mut d = EditorData::new();
    let ids = vec![Some(11), Some(12), Some(13), Some(14)];
    update_map_tile(&mut d, 0, (3, 4), true, 2, &ids);
    assert_eq!(tile(&d, 0, 3, 4), 11);
    assert_eq!(tile(&d, 0, 3, 5), 12);
    assert_eq!(tile(&d, 0, 4, 4), 13);
    assert_eq!(tile(&d, 0, 4, 5), 14);
    assert!(d.changed);
    assert!(!d.temp_saved);
    d.record_placeholder();
    assert!(apply_undo(&mut d));
    assert!(d.mapdata.tile[0].id.iter().all(|&v| v == 0));
    assert!(apply_redo(&mut d));
    assert_eq!(tile(&d, 0, 4, 5), 14);
    assert!(!apply_redo(&mut d));
    assert!(apply_undo(&mut d));
    assert!(!apply_undo(&mut d));
}

#[test]
fn paint_missing_id_erases_cursor_tile() {
    let mut d = EditorData::new();
    update_map_tile(&mut d, 1, (0, 0), true, 1, &vec![Some(9)]);
    assert_eq!(tile(&d, 3, 0, 0), 9);
    update_map_tile(&mut d, 1, (0, 0), true, 2, &vec![None, Some(5)]);
    assert_eq!(tile(&d, 3, 0, 0), 0);
    assert_eq!(tile(&d, 3, 0, 1), 5);
}

#[test]
fn erase_tile() {
    let mut d = EditorData::new();
    update_map_tile(&mut d, 5, (7, 7), true, 1, &vec![Some(4)]);
    assert_eq!(tile(&d, 1, 7, 7), 4);
    update_map_tile(&mut d, 5, (7, 7), false, 0, &vec![]);
    assert_eq!(tile(&d, 1, 7, 7), 0);
}

#[test]
fn fill_region_and_undo() {
    let mut d = EditorData::new();
    // a wall of id 2 in column 5 splits the layer
    for y in 0..32u16 {
        update_map_tile(&mut d, 0, (5, y), true, 1, &vec![Some(2)]);
    }
    d.record_placeholder();
    update_tile_fill(&mut d, 0, (0, 0), true, Some(7));
    for x in 0..5 {
        for y in 0..32 {
            assert_eq!(tile(&d, 0, x, y), 7);
        }
    }
    for y in 0..32 {
        assert_eq!(tile(&d, 0, 5, y), 2);
        assert_eq!(tile(&d, 0, 6, y), 0);
    }
    assert_eq!(d.tile_placeholder.change.len(), 5 * 32);
    d.record_placeholder();
    assert!(apply_undo(&mut d));
    for x in 0..5 {
        assert_eq!(tile(&d, 0, x, 3), 0);
    }
    assert_eq!(tile(&d, 0, 5, 3), 2);
}

#[test]
fn fill_with_same_id_or_no_id_changes_nothing() {
    let mut d = EditorData::new();
    update_tile_fill(&mut d, 0, (0, 0), false, None);
    assert!(!d.changed);
    update_tile_fill(&mut d, 0, (0, 0), true, None);
    assert!(!d.changed);
    assert!(d.undo.is_empty());
}

#[test]
fn fill_erases_with_right_button() {
    let mut d = EditorData::new();
    update_tile_fill(&mut d, 7, (0, 0), true, Some(3));
    assert!(d.mapdata.tile[7].id.iter().all(|&v| v == 3));
    update_tile_fill(&mut d, 7, (10, 10), false, None);
    assert!(d.mapdata.tile[7].id.iter().all(|&v| v == 0));
}

#[test]
fn attribute_paint_and_fill() {
    let mut d = EditorData::new();
    for y in 0..32u16 {
        update_map_attribute(&mut d, (2, y), MapAttribute::Blocked);
    }
    d.record_placeholder();
    let warp = MapAttribute::Warp(WarpData { map_x: 1, map_y: 2, map_group: 3, tile_x: 4, tile_y: 5 });
    update_attribute_fill(&mut d, (0, 0), warp.clone());
    assert!(d.mapdata.attribute[get_tile_pos(1, 31)].equals(&warp));
    assert!(d.mapdata.attribute[get_tile_pos(2, 10)].equals(&MapAttribute::Blocked));
    assert!(d.mapdata.attribute[get_tile_pos(3, 10)].equals(&MapAttribute::Walkable));
    assert_eq!(d.attr_placeholder.change.len(), 64);
    d.record_placeholder();
    assert!(apply_undo(&mut d));
    assert!(d.mapdata.attribute[get_tile_pos(1, 31)].equals(&MapAttribute::Walkable));
    assert!(matches!(d.redo.back(), Some(EditorChange::Attr(_))));
    // the same attribute again changes nothing
    let before = d.undo.len();
    update_attribute_fill(&mut d, (9, 9), MapAttribute::Walkable);
    assert_eq!(d.undo.len(), before);
    assert!(d.attr_placeholder.change.is_empty());
}

#[test]
fn sign_texts_make_different_regions() {
    let mut d = EditorData::new();
    update_map_attribute(&mut d, (0, 0), MapAttribute::Sign("a".to_string()));
    update_map_attribute(&mut d, (1, 0), MapAttribute::Sign("b".to_string()));
    d.record_placeholder();
    update_attribute_fill(&mut d, (0, 0), MapAttribute::Storage);
    assert!(d.mapdata.attribute[0].equals(&MapAttribute::Storage));
    assert!(d.mapdata.attribute[1].equals(&MapAttribute::Sign("b".to_string())));
}

#[test]
fn fill_twice_changes_nothing_more() {
    let mut d = EditorData::new();
    update_tile_fill(&mut d, 2, (4, 4), true, Some(6));
    let records = d.tile_placeholder.change.len();
    assert_eq!(records, 1024);
    d.temp_saved = true;
    update_tile_fill(&mut d, 2, (9, 9), true, Some(6));
    assert_eq!(d.tile_placeholder.change.len(), records);
    assert!(d.temp_saved);
}
