use mapeditor::autotile::{
    autotile_check_positions, autotile_piece, check_match_direction, is_tile_same, place_autotile, set_preset,
    AUTO_C, AUTO_CDR, AUTO_D, AUTO_DL, AUTO_L, AUTO_U, AUTO_UL, AUTO_UR,
};
use mapeditor::editor::{apply_undo, EditorData};
use mapeditor::map_data::{get_tile_pos, MapAttribute, MapPosition, Color};
use mapeditor::mapedit::{
    dirblock_from_flags, get_attribute_visual, get_dirblock_uv, get_link_map_pos, update_map_dirblock,
    update_map_zone,
};
use mapeditor::presets::{PresetData, PresetFrames, PresetPos, PresetTypeList, Presets};

fn tile(d: &EditorData, layer: usize, x: i32, y: i32) -> u32 {
    d.mapdata.tile[layer].id[get_tile_pos(x, y)]
}

/// A table of piece ids: piece (c, r) gets id 100 + c + 5 r.
fn pieces() -> Vec<Option<usize>> {
    (0..15).map(|i| Some(100 + i)).collect()
}

#[test]
fn autotile_pieces() {
    assert_eq!(autotile_piece([true; 8]), AUTO_C);
    assert_eq!(autotile_piece([false; 8]), AUTO_C);
    // TL, T, TR, L, R, DL, D, DR
    assert_eq!(autotile_piece([false, false, false, false, true, false, true, false]), AUTO_UL);
    assert_eq!(autotile_piece([false, false, false, true, true, false, true, false]), AUTO_U);
    assert_eq!(autotile_piece([false, false, false, true, false, false, true, false]), AUTO_UR);
    assert_eq!(autotile_piece([false, true, false, false, true, false, true, false]), AUTO_L);
    assert_eq!(autotile_piece([false, true, false, false, true, false, false, false]), AUTO_DL);
    assert_eq!(autotile_piece([false, true, false, true, true, false, false, false]), AUTO_D);
    assert_eq!(autotile_piece([false, true, true, true, true, true, true, true]), AUTO_CDR);
}

#[test]
fn match_directions_at_the_edge() {
    let ids = vec![0u32; 1024];
    let tiles = vec![5usize];
    // off the map counts as matching
    assert_eq!(check_match_direction(&ids, &tiles, (0, 0)), [true, false, false, true, false, true, true, true]);
    assert!(!is_tile_same(&ids, &tiles, (3, 3)));
    assert!(is_tile_same(&ids, &vec![0usize], (3, 3)));
}

#[test]
fn check_positions_order() {
    let p = autotile_check_positions((0, 0));
    assert_eq!(p, vec![(0, 0), (0, 1), (1, 0), (1, 1)]);
    let q = autotile_check_positions((5, 5));
    assert_eq!(q.len(), 9);
    assert_eq!(q[0], (5, 5));
    assert_eq!(q[1], (4, 4));
    assert_eq!(q[8], (6, 6));
}

#[test]
fn autotile_single_then_neighbor() {
    let mut d = EditorData::new();
    let tables = vec![pieces(), pieces(), pieces(), pieces()];
    let preset_tiles: Vec<usize> = (100..115).collect();
    place_autotile(&mut d, false, (10, 10), 0, &preset_tiles, &tables);
    // alone: no neighbor matches -> center piece (1, 1) -> id 106
    assert_eq!(tile(&d, 0, 10, 10), 106);
    place_autotile(&mut d, false, (11, 10), 0, &preset_tiles, &tables);
    // (11,10) has a left neighbor only; (10,10) then has a right neighbor only; both center
    assert_eq!(tile(&d, 0, 11, 10), 106);
    assert!(d.changed);
    d.record_placeholder();
    assert!(apply_undo(&mut d));
    assert_eq!(tile(&d, 0, 10, 10), 0);
    assert_eq!(tile(&d, 0, 11, 10), 0);
}

#[test]
fn autotile_animated_uses_animation_layers() {
    let mut d = EditorData::new();
    let tables: Vec<Vec<Option<usize>>> = (0..4).map(|f| (0..15).map(|i| Some(200 + 20 * f + i)).collect()).collect();
    place_autotile(&mut d, true, (0, 0), 0, &vec![], &tables);
    for f in 0..4 {
        assert_eq!(tile(&d, 3 + f, 0, 0), (200 + 20 * f + 12) as u32);
    }
    assert_eq!(tile(&d, 0, 0, 0), 0);
}

#[test]
fn normal_and_animated_presets() {
    let frame = PresetFrames { start: PresetPos { x: 0, y: 0 }, end: PresetPos { x: 1, y: 0 }, tileset: 0 };
    let mut preset = PresetData::default();
    preset.frames = [frame; 4];
    let ids: Vec<Vec<Option<usize>>> = (0..4).map(|f| vec![Some(10 + f), Some(20 + f)]).collect();
    let mut d = EditorData::new();
    set_preset(&mut d, 8, (2, 2), &preset, &vec![], &ids);
    assert_eq!(tile(&d, 8, 2, 2), 10);
    assert_eq!(tile(&d, 8, 3, 2), 20);
    assert_eq!(tile(&d, 3, 2, 2), 0);
    preset.draw_type = PresetTypeList::Animated;
    let mut e = EditorData::new();
    set_preset(&mut e, 8, (2, 2), &preset, &vec![], &ids);
    for f in 0..4 {
        assert_eq!(tile(&e, 3 + f, 2, 2), 10 + f as u32);
        assert_eq!(tile(&e, 3 + f, 3, 2), 20 + f as u32);
    }
    assert_eq!(tile(&e, 8, 2, 2), 0);
}

#[test]
fn presets_store() {
    let mut p = Presets { data: vec![PresetData::default(), PresetData::default()], selected_preset_tiles: vec![] };
    let f = PresetFrames { start: PresetPos { x: 1, y: 2 }, end: PresetPos { x: 3, y: 4 }, tileset: 2 };
    p.store_preset(1, "grass".to_string(), PresetTypeList::AutoTile, [f; 4]);
    assert_eq!(p.data[1].name, "grass");
    assert_eq!(p.data[1].draw_type, PresetTypeList::AutoTile);
    assert_eq!(p.data[1].frames[3], f);
    assert_eq!(p.data[0].draw_type, PresetTypeList::Normal);
}

#[test]
fn zones_set_and_clear() {
    let mut d = EditorData::new();
    update_map_zone(&mut d, (1, 1), 2, true);
    update_map_zone(&mut d, (2, 1), 2, true);
    update_map_zone(&mut d, (1, 1), 2, true);
    assert_eq!(d.mapdata.zonespawns[2], vec![(1, 1), (2, 1)]);
    assert!(d.changed);
    update_map_zone(&mut d, (1, 1), 2, false);
    assert_eq!(d.mapdata.zonespawns[2], vec![(2, 1)]);
    let mut e = EditorData::new();
    update_map_zone(&mut e, (1, 1), 0, false);
    assert!(!e.changed);
    assert!(e.mapdata.zonespawns[0].is_empty());
}

#[test]
fn direction_blocks() {
    assert_eq!(dirblock_from_flags([true, false, false, false]), 1);
    assert_eq!(dirblock_from_flags([false, true, false, false]), 2);
    assert_eq!(dirblock_from_flags([true, true, true, true]), 15);
    assert_eq!(get_dirblock_uv(0), (0, 0));
    assert_eq!(get_dirblock_uv(2), (1, 0)); // up
    assert_eq!(get_dirblock_uv(4), (3, 0)); // left
    assert_eq!(get_dirblock_uv(1), (2, 0)); // down
    assert_eq!(get_dirblock_uv(8), (4, 0)); // right
    assert_eq!(get_dirblock_uv(15), (0, 3));
    assert_eq!(get_dirblock_uv(7), (2, 2));
    let mut seen = Vec::new();
    for d in 0..16u8 {
        let uv = get_dirblock_uv(d);
        assert!(!seen.contains(&uv));
        seen.push(uv);
    }
    let mut data = EditorData::new();
    update_map_dirblock(&mut data, (4, 5), true, [false, true, true, false]);
    assert_eq!(data.mapdata.dir_block[get_tile_pos(4, 5)], 6);
    update_map_dirblock(&mut data, (4, 5), false, [true, true, true, true]);
    assert_eq!(data.mapdata.dir_block[get_tile_pos(4, 5)], 0);
    assert!(data.changed && !data.temp_saved);
}

#[test]
fn attribute_visuals() {
    let (c, t) = get_attribute_visual(&MapAttribute::Blocked);
    assert_eq!(c, Color::rgba(255, 0, 0, 120));
    assert_eq!(t, "B");
    let (c, t) = get_attribute_visual(&MapAttribute::Walkable);
    assert_eq!(c, Color::rgba(0, 0, 0, 0));
    assert_eq!(t, "");
    let (c, t) = get_attribute_visual(&MapAttribute::Shop(1));
    assert_eq!(c, Color::rgba(0, 0, 0, 120));
    assert_eq!(t, "S");
}

#[test]
fn linked_maps() {
    let p = MapPosition { x: 5, y: 5, group: 1 };
    assert_eq!(get_link_map_pos(p, 0), MapPosition { x: 4, y: 6, group: 1 });
    assert_eq!(get_link_map_pos(p, 1), MapPosition { x: 5, y: 6, group: 1 });
    assert_eq!(get_link_map_pos(p, 7), MapPosition { x: 6, y: 4, group: 1 });
    let mut all: Vec<MapPosition> = (0..8).map(|i| get_link_map_pos(p, i)).collect();
    all.dedup();
    assert_eq!(all.len(), 8);
    assert!(!all.contains(&p));
}
