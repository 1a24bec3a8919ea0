use mapeditor::enums::{convert_index_to_maplayers, MapLayers, SelectedTextbox, TabButton, ToolType};
use mapeditor::map_data::{Weather, MapAttribute, EditorMapAttribute, WarpData, ItemSpawnData, Color, get_tile_pos};
use mapeditor::presets::{PresetTypeList, PresetFrames, PresetPos, PresetData};

#[test]
fn selected_textbox_from_index() {
    assert_eq!(SelectedTextbox::from_index(0), SelectedTextbox::Unselected);
    assert_eq!(SelectedTextbox::from_index(1), SelectedTextbox::SampleTextbox);
    assert_eq!(SelectedTextbox::from_index(4), SelectedTextbox::MapPosTextbox);
    assert_eq!(SelectedTextbox::from_index(9), SelectedTextbox::Unselected);
}

#[test]
fn tool_and_tab_from_index() {
    assert_eq!(ToolType::from_index(1), ToolType::Paint);
    assert_eq!(ToolType::from_index(3), ToolType::Fill);
    assert_eq!(ToolType::from_index(0), ToolType::Move);
    assert_eq!(ToolType::from_index(77), ToolType::Move);
    assert_eq!(TabButton::from_index(0), TabButton::Tileset);
    assert_eq!(TabButton::from_index(2), TabButton::Attributes);
    assert_eq!(TabButton::from_index(6), TabButton::Music);
    assert_eq!(TabButton::from_index(42), TabButton::Tileset);
}

#[test]
fn layers_from_index() {
    assert_eq!(convert_index_to_maplayers(0), MapLayers::Ground);
    assert_eq!(convert_index_to_maplayers(3), MapLayers::Anim1);
    assert_eq!(convert_index_to_maplayers(8), MapLayers::Fringe2);
    assert_eq!(convert_index_to_maplayers(9), MapLayers::Ground);
}

#[test]
fn weather_names_and_indices() {
    assert_eq!(Weather::from_index(1), Weather::Rain);
    assert_eq!(Weather::from_index(9), Weather::Windy);
    assert_eq!(Weather::from_index(10), Weather::NoWeather);
    assert_eq!(Weather::Rain.convert_to_string(), "Rain");
    assert_eq!(Weather::NoWeather.convert_to_string(), "None");
    let all = Weather::to_vec_string();
    assert_eq!(all.len(), 10);
    assert_eq!(all[0], "None");
    assert_eq!(all[8], "SandStorm");
    for (i, name) in all.iter().enumerate() {
        assert_eq!(Weather::from_index(i).convert_to_string(), *name);
    }
    assert_eq!(Weather::default(), Weather::NoWeather);
}

#[test]
fn attribute_names_and_numbers() {
    assert_eq!(MapAttribute::as_str(0), "Walkable");
    assert_eq!(MapAttribute::as_str(5), "Item");
    assert_eq!(MapAttribute::as_str(8), "");
    assert_eq!(MapAttribute::as_map_str(&MapAttribute::Warp(WarpData::default())), "W");
    assert_eq!(MapAttribute::as_map_str(&MapAttribute::Walkable), "");
    assert_eq!(MapAttribute::convert_to_num(&MapAttribute::Shop(3)), 7);
    assert_eq!(MapAttribute::convert_to_num(&MapAttribute::Count), 0);
    assert!(matches!(MapAttribute::convert_to_plain_enum(4), MapAttribute::Sign(ref s) if s.is_empty()));
    assert!(matches!(MapAttribute::convert_to_plain_enum(99), MapAttribute::Walkable));
    assert_eq!(MapAttribute::get_color(&MapAttribute::Blocked), Color::rgba(200, 10, 10, 100));
    assert_eq!(MapAttribute::get_color(&MapAttribute::Storage), Color::rgba(160, 170, 20, 255));
    assert_eq!(MapAttribute::ItemSpawn(ItemSpawnData::default()).to_editor(), EditorMapAttribute::ItemSpawn);
    assert_eq!(EditorMapAttribute::convert_to_plain_enum(7), EditorMapAttribute::Shop);
    for n in 0..8u32 {
        let a = MapAttribute::convert_to_plain_enum(n);
        assert_eq!(MapAttribute::convert_to_num(&a), n);
    }
}

#[test]
fn attribute_equality_and_copies() {
    let a = MapAttribute::Sign("hello".to_string());
    let b = a.duplicate();
    assert!(a.equals(&b));
    assert!(!a.equals(&MapAttribute::Sign("bye".to_string())));
    assert!(!MapAttribute::Shop(1).equals(&MapAttribute::Shop(2)));
    assert!(MapAttribute::Walkable.equals(&MapAttribute::Walkable));
    assert!(!MapAttribute::Walkable.equals(&MapAttribute::Count));
}

#[test]
fn tile_positions() {
    assert_eq!(get_tile_pos(0, 0), 0);
    assert_eq!(get_tile_pos(3, 2), 67);
    assert_eq!(get_tile_pos(31, 31), 1023);
}

#[test]
fn preset_types_and_sizes() {
    assert_eq!(PresetTypeList::from_index(0), PresetTypeList::Normal);
    assert_eq!(PresetTypeList::from_index(3), PresetTypeList::AutotileAnimated);
    assert_eq!(PresetTypeList::from_index(4), PresetTypeList::Normal);
    let f = PresetFrames { start: PresetPos { x: 5, y: 1 }, end: PresetPos { x: 2, y: 3 }, tileset: 0 };
    assert_eq!(f.size(), (4, 3));
    assert_eq!(PresetFrames::default().size(), (1, 1));
    let d = PresetData::default();
    assert_eq!(d.draw_type, PresetTypeList::Normal);
    assert!(d.name.is_empty());
}
