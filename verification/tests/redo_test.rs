use mapeditor::editor::{apply_redo, apply_undo, EditorData};
use mapeditor::files::{saved_file_of, temp_file_of};
use mapeditor::fill::{update_attribute_fill, update_tile_fill};
use mapeditor::map_data::{get_tile_pos, MapAttribute, MapData, MapPosition, Weather};
use mapeditor::mapedit::update_map_zone;
use mapeditor::paint::update_map_tile;

fn layer(d: &EditorData, l: usize) -> Vec<u32> {
    d.mapdata.tile[l].id.clone()
}

#[test]
fn paint_records_the_painted_ids() {
    let mut d = EditorData::new();
    update_map_tile(&mut d, 0, (3, 4), true, 2, &vec![Some(11), Some(12), Some(13)]);
    let got: Vec<(u16, u16, usize, usize)> =
        d.tile_placeholder.change.iter().map(|c| (c.x, c.y, c.from, c.to)).collect();
    assert_eq!(got, vec![(3, 4, 0, 11), (3, 5, 0, 12), (4, 4, 0, 13)]);
}

#[test]
fn redo_gives_back_a_painted_stroke() {
    let mut d = EditorData::new();
    update_map_tile(&mut d, 0, (3, 4), true, 2, &vec![Some(11), Some(12), Some(13), Some(14)]);
    let painted = layer(&d, 0);
    d.record_placeholder();
    assert!(apply_undo(&mut d));
    assert!(layer(&d, 0).iter().all(|&v| v == 0));
    assert!(apply_redo(&mut d));
    assert_eq!(layer(&d, 0), painted);
}

#[test]
fn redo_gives_back_a_fill() {
    let mut d = EditorData::new();
    for y in 0..32u16 {
        update_map_tile(&mut d, 0, (2, y), true, 1, &vec![Some(3)]);
    }
    d.record_placeholder();
    update_tile_fill(&mut d, 0, (0, 0), true, Some(8));
    let filled = layer(&d, 0);
    assert_eq!(filled[get_tile_pos(1, 31)], 8);
    assert_eq!(filled[get_tile_pos(3, 0)], 0);
    assert!(d.tile_placeholder.change.iter().all(|c| c.to == 8));
    d.record_placeholder();
    assert!(apply_undo(&mut d));
    assert_eq!(layer(&d, 0)[get_tile_pos(1, 31)], 0);
    assert!(apply_redo(&mut d));
    assert_eq!(layer(&d, 0), filled);
}

#[test]
fn redo_gives_back_an_attribute_fill() {
    let mut d = EditorData::new();
    update_attribute_fill(&mut d, (5, 5), MapAttribute::Blocked);
    assert!(d.mapdata.attribute.iter().all(|a| a.equals(&MapAttribute::Blocked)));
    assert_eq!(d.attr_placeholder.change.len(), 1024);
    assert!(d.attr_placeholder.change.iter().all(|c| c.to.equals(&MapAttribute::Blocked)));
    d.record_placeholder();
    assert!(apply_undo(&mut d));
    assert!(d.mapdata.attribute.iter().all(|a| a.equals(&MapAttribute::Walkable)));
    assert!(apply_redo(&mut d));
    assert!(d.mapdata.attribute.iter().all(|a| a.equals(&MapAttribute::Blocked)));
}

#[test]
fn a_tile_painted_twice_in_one_stroke_keeps_its_first_record() {
    let mut d = EditorData::new();
    // the entry without an id erases the corner tile that the first entry painted
    update_map_tile(&mut d, 0, (0, 0), true, 2, &vec![Some(5), None]);
    assert_eq!(layer(&d, 0)[get_tile_pos(0, 0)], 0);
    assert_eq!(d.tile_placeholder.change.len(), 1);
    assert_eq!(d.tile_placeholder.change[0].to, 5);
    d.record_placeholder();
    assert!(apply_undo(&mut d));
    assert!(apply_redo(&mut d));
    assert_eq!(layer(&d, 0)[get_tile_pos(0, 0)], 5);
}

#[test]
fn new_editor_holds_the_default_map() {
    let d = EditorData::new();
    let m = MapData::default(0, 0, 0);
    assert_eq!(d.mapdata.position, m.position);
    assert_eq!(d.mapdata.position, MapPosition { x: 0, y: 0, group: 0 });
    assert_eq!(d.mapdata.dir_block, m.dir_block);
    assert!(d.mapdata.dir_block.len() == 1024 && d.mapdata.dir_block.iter().all(|&b| b == 0));
    assert_eq!(d.mapdata.attribute.len(), m.attribute.len());
    assert!(d.mapdata.attribute.iter().all(|a| a.equals(&MapAttribute::Walkable)));
    assert_eq!(d.mapdata.zonespawns, m.zonespawns);
    assert!(d.mapdata.zonespawns.iter().all(|z| z.is_empty()));
    assert_eq!(d.mapdata.zones, [(0, [None; 5]); 5]);
    assert_eq!(d.mapdata.music, None);
    assert_eq!(d.mapdata.weather, Weather::NoWeather);
    assert!(d.undo.is_empty() && d.redo.is_empty() && d.last_pos.is_empty());
}

#[test]
fn map_shape_check() {
    let mut m = MapData::default(1, 2, 3);
    assert!(m.has_shape());
    m.dir_block.pop();
    assert!(!m.has_shape());
    let mut m2 = MapData::default(0, 0, 0);
    m2.tile[4].id.push(0);
    assert!(!m2.has_shape());
}

#[test]
fn files_of_a_negative_group() {
    let p = MapPosition { x: 1, y: -2, group: -3 };
    assert_eq!(saved_file_of(p), "./data/maps/1_-2_-3.bin");
    assert_eq!(temp_file_of(p), "./temp/1_-2_-3.bin");
    let q = MapPosition { x: i32::MIN, y: i32::MAX, group: 0 };
    assert_eq!(saved_file_of(q), format!("./data/maps/{}_{}_0.bin", i32::MIN, i32::MAX));
}

#[test]
fn setting_a_zone_spawn_twice_changes_nothing() {
    let mut d = EditorData::new();
    update_map_zone(&mut d, (4, 4), 1, true);
    assert_eq!(d.mapdata.zonespawns[1], vec![(4, 4)]);
    d.changed = false;
    update_map_zone(&mut d, (4, 4), 1, true);
    assert_eq!(d.mapdata.zonespawns[1], vec![(4, 4)]);
    assert!(!d.changed);
    update_map_zone(&mut d, (4, 4), 1, false);
    assert!(d.mapdata.zonespawns[1].is_empty());
    assert!(d.changed);
}
