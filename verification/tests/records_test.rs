use mapeditor::autotile::{place_autotile, set_preset};
use mapeditor::editor::{apply_undo, ChangePlaceHolder, EditorData};
use mapeditor::fill::update_map_attribute;
use mapeditor::list::ListSelection;
use mapeditor::map_data::{get_tile_pos, MapAttribute};
use mapeditor::mapedit::update_map_zone;
use mapeditor::presets::{PresetData, PresetFrames, PresetPos, PresetTypeList};

fn records(d: &EditorData) -> Vec<(u16, u16, usize, usize, usize)> {
    d.tile_placeholder.change.iter().map(|c| (c.x, c.y, c.layer, c.from, c.to)).collect()
}

#[test]
fn animated_preset_records_its_first_frame() {
    let frame = PresetFrames { start: PresetPos { x: 0, y: 0 }, end: PresetPos { x: 1, y: 0 }, tileset: 0 };
    let mut preset = PresetData::default();
    preset.frames = [frame; 4];
    preset.draw_type = PresetTypeList::Animated;
    let ids: Vec<Vec<Option<usize>>> = (0..4).map(|f| vec![Some(10 + f), Some(20 + f)]).collect();
    let mut d = EditorData::new();
    set_preset(&mut d, 0, (2, 2), &preset, &vec![], &ids);
    // the later frames paint tiles the stroke has visited, so only frame 0 is recorded
    assert_eq!(records(&d), vec![(2, 2, 3, 0, 10), (3, 2, 3, 0, 20)]);
    assert_eq!(d.last_pos, vec![(2, 2), (3, 2)]);
    assert_eq!(d.change_placeholder, ChangePlaceHolder::Tiles);
    d.record_placeholder();
    assert!(apply_undo(&mut d));
    assert_eq!(d.mapdata.tile[3].id[get_tile_pos(2, 2)], 0);
    assert_eq!(d.mapdata.tile[4].id[get_tile_pos(2, 2)], 11);
}

#[test]
fn animated_autotile_records_its_first_frame() {
    let mut d = EditorData::new();
    let tables: Vec<Vec<Option<usize>>> = (0..4).map(|f| (0..15).map(|i| Some(200 + 20 * f + i)).collect()).collect();
    place_autotile(&mut d, true, (0, 0), 0, &vec![], &tables);
    assert_eq!(records(&d), vec![(0, 0, 3, 0, 212)]);
    assert_eq!(d.last_pos, vec![(0, 0)]);
}

#[test]
fn painting_an_attribute_records_it_once() {
    let mut d = EditorData::new();
    update_map_attribute(&mut d, (1, 2), MapAttribute::Blocked);
    update_map_attribute(&mut d, (1, 2), MapAttribute::Shop(3));
    assert_eq!(d.attr_placeholder.change.len(), 1);
    let c = &d.attr_placeholder.change[0];
    assert_eq!((c.x, c.y), (1, 2));
    assert!(c.from.equals(&MapAttribute::Walkable));
    assert!(c.to.equals(&MapAttribute::Blocked));
    assert!(d.mapdata.attribute[get_tile_pos(1, 2)].equals(&MapAttribute::Shop(3)));
    assert_eq!(d.change_placeholder, ChangePlaceHolder::Attributes);
}

#[test]
fn filled_list_rows() {
    let mut l = ListSelection {
        visible: true,
        scroll: 3,
        max_scroll: 0,
        max_list: 5,
        max_data: 0,
        selected_list: None,
        current_selected: None,
        lit: false,
    };
    l.update_list(12, Some(3));
    assert_eq!(l.current_selected, Some(3));
    assert!(l.lit);
    // an entry past the shown rows keeps its own number as the current row, unlit
    l.update_list(12, Some(9));
    assert_eq!(l.current_selected, Some(9));
    assert!(!l.lit);
    l.update_list(12, None);
    assert_eq!(l.current_selected, None);
    assert!(!l.lit);
}

#[test]
fn zone_spawn_off_the_map() {
    let mut d = EditorData::new();
    update_map_zone(&mut d, (40, 50), 4, true);
    assert_eq!(d.mapdata.zonespawns[4], vec![(40, 50)]);
    update_map_zone(&mut d, (40, 50), 4, false);
    assert!(d.mapdata.zonespawns[4].is_empty());
}
