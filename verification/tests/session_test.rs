use mapeditor::alert::{
    alert_key_option, select_option, AlertBuilder, AlertIndex, AlertKey, AlertOutcome, AlertType,
};
use mapeditor::editor::EditorData;
use mapeditor::enums::{MouseInputType, SelectedTextbox, TabButton, ToolType};
use mapeditor::files::{map_file_path, preset_file_path, recovery_file_path, temp_file_path};
use mapeditor::input::{
    key_action, key_passes_alert, map_action, wheel_layer, wheel_zoom, zoom_percent, KeyAction, KeyInput, MapAction,
    ScrollValue,
};
use mapeditor::map_data::{MapData, MapPosition, Weather};
use mapeditor::properties::{apply_zone_text, choose_music, choose_weather, music_index, AudioCollection};
use mapeditor::session::{
    apply_loaded_map, begin_save_map, exit_editor, finish_save_map, finish_temp_save, temp_save_target, ExitStep,
    TempSave,
};

#[test]
fn alert_builders() {
    let b = AlertBuilder::new_info("Error", "Failed to load map");
    assert_eq!(b.alert_type, AlertType::Inform);
    assert_eq!(b.header, "Error");
    assert_eq!(b.msg, "Failed to load map");
    assert_eq!(b.width, 250);
    assert_eq!(b.textbox_limit, 10);
    let c = AlertBuilder::new_confirm("Temp File", "Load?");
    assert_eq!(c.alert_type, AlertType::Confirm);
    let n = AlertBuilder::new_num_input("Count");
    assert_eq!(n.alert_type, AlertType::Input);
    assert!(n.numeric_only);
    assert!(n.msg.is_empty());
    let t = AlertBuilder::new_txt_input("Name");
    assert!(!t.numeric_only);
    let mut m = AlertBuilder::new_confirm("Unsaved Map", "Save?");
    let p = MapPosition { x: 1, y: 2, group: 3 };
    m.with_index(AlertIndex::ExitSaveMap(p)).with_width(600).with_checkbox("repeat on the other maps?");
    assert_eq!(m.custom_index, AlertIndex::ExitSaveMap(p));
    assert_eq!(m.width, 600);
    assert!(m.with_checkbox);
    assert_eq!(m.checkbox_text, "repeat on the other maps?");
    m.with_msg(" Now").with_limit(3).with_numeric_only(true).with_type(AlertType::Input).with_allow_action(true);
    assert_eq!(m.msg, "Save? Now");
    assert_eq!(m.textbox_limit, 3);
    assert!(m.numeric_only && m.allow_action);
    assert_eq!(m.alert_type, AlertType::Input);
}

#[test]
fn alert_options() {
    let p = MapPosition { x: 0, y: 1, group: 2 };
    assert_eq!(select_option(AlertType::Inform, AlertIndex::ExitEditor, 0, false, false), AlertOutcome::Hide);
    assert_eq!(select_option(AlertType::Confirm, AlertIndex::ExitEditor, 0, false, false), AlertOutcome::ExitEditor(None));
    assert_eq!(select_option(AlertType::Confirm, AlertIndex::ExitEditor, 1, false, false), AlertOutcome::Hide);
    assert_eq!(select_option(AlertType::Confirm, AlertIndex::LoadTempFile(p), 0, false, false), AlertOutcome::LoadTempFile(p));
    assert_eq!(select_option(AlertType::Confirm, AlertIndex::LoadTempFile(p), 1, false, false), AlertOutcome::DeleteTempFile(p));
    assert_eq!(select_option(AlertType::Confirm, AlertIndex::ExitSaveMap(p), 0, true, false), AlertOutcome::SaveAndExit(p, Some(true)));
    assert_eq!(select_option(AlertType::Confirm, AlertIndex::ExitSaveMap(p), 1, false, false), AlertOutcome::ExitEditor(None));
    assert_eq!(select_option(AlertType::Confirm, AlertIndex::LoadRecoveryFile, 0, false, false), AlertOutcome::LoadRecoveryFile);
    assert_eq!(select_option(AlertType::Confirm, AlertIndex::LoadRecoveryFile, 1, false, false), AlertOutcome::DeleteRecoveryFile);
    assert_eq!(select_option(AlertType::Input, AlertIndex::SavePreset, 0, false, true), AlertOutcome::SavePreset);
    assert_eq!(select_option(AlertType::Input, AlertIndex::SavePreset, 1, false, true), AlertOutcome::Hide);
    assert_eq!(select_option(AlertType::Input, AlertIndex::SavePreset, 0, false, false), AlertOutcome::Nothing);
    assert_eq!(alert_key_option(AlertType::Confirm, AlertKey::Escape), Some(1));
    assert_eq!(alert_key_option(AlertType::Inform, AlertKey::Escape), None);
    assert_eq!(alert_key_option(AlertType::Inform, AlertKey::Enter), Some(0));
    assert_eq!(alert_key_option(AlertType::Input, AlertKey::Other), None);
}

#[test]
fn mouse_actions() {
    assert_eq!(map_action(MouseInputType::LeftDown, ToolType::Paint, TabButton::Tileset), MapAction::PaintTile);
    assert_eq!(map_action(MouseInputType::LeftDown, ToolType::Paint, TabButton::CustomTiles), MapAction::SetPreset);
    assert_eq!(map_action(MouseInputType::RightDown, ToolType::Paint, TabButton::CustomTiles), MapAction::EraseTile);
    assert_eq!(map_action(MouseInputType::RightDown, ToolType::Fill, TabButton::Attributes), MapAction::EraseFillAttribute);
    assert_eq!(map_action(MouseInputType::LeftDownMove, ToolType::Fill, TabButton::Tileset), MapAction::Nothing);
    assert_eq!(map_action(MouseInputType::LeftDown, ToolType::Picker, TabButton::Attributes), MapAction::PickAttribute);
    assert_eq!(map_action(MouseInputType::LeftDown, ToolType::Move, TabButton::Tileset), MapAction::Nothing);
    assert_eq!(map_action(MouseInputType::LeftDown, ToolType::Paint, TabButton::Music), MapAction::Nothing);
    assert_eq!(map_action(MouseInputType::RightDownMove, ToolType::Eraser, TabButton::Zones), MapAction::ClearZone);
}

#[test]
fn key_shortcuts() {
    let u = SelectedTextbox::Unselected;
    assert_eq!(key_action(u, KeyInput::Char('z'), true, true, false, false), KeyAction::Undo);
    assert_eq!(key_action(u, KeyInput::Char('y'), true, true, false, false), KeyAction::Redo);
    assert_eq!(key_action(u, KeyInput::Char('z'), true, false, false, false), KeyAction::Nothing);
    assert_eq!(key_action(u, KeyInput::Char('Z'), true, true, false, false), KeyAction::Nothing);
    assert_eq!(key_action(u, KeyInput::Char('S'), true, true, false, true), KeyAction::SaveMap);
    assert_eq!(key_action(u, KeyInput::Char('s'), true, true, true, true), KeyAction::OpenSaveMap);
    assert_eq!(key_action(u, KeyInput::Char('s'), true, true, false, false), KeyAction::OpenSaveMap);
    assert_eq!(key_action(u, KeyInput::Char('o'), true, true, false, false), KeyAction::OpenLoadMap);
    assert_eq!(key_action(u, KeyInput::Control, false, true, false, false), KeyAction::SetCtrl(false));
    assert_eq!(key_action(u, KeyInput::Shift, true, false, false, false), KeyAction::SetShift(true));
    assert_eq!(key_action(SelectedTextbox::ZoneTextbox, KeyInput::Char('z'), true, true, false, false), KeyAction::EnterText);
    assert_eq!(key_action(SelectedTextbox::SampleTextbox, KeyInput::Char('a'), true, false, false, false), KeyAction::Nothing);
    assert!(key_passes_alert(false, true, false));
    assert!(!key_passes_alert(true, true, true));
    assert!(!key_passes_alert(true, false, false));
    assert!(key_passes_alert(true, false, true));
}

#[test]
fn wheel_steps() {
    assert_eq!(wheel_layer(0, true), 1);
    assert_eq!(wheel_layer(8, true), 8);
    assert_eq!(wheel_layer(usize::MAX, true), 8);
    assert_eq!(wheel_layer(0, false), 0);
    assert_eq!(wheel_layer(5, false), 4);
    let mut s = ScrollValue { value: 0, max_value: 12, reverse_value: false };
    wheel_zoom(&mut s, true);
    assert_eq!(s.value, 1);
    wheel_zoom(&mut s, false);
    wheel_zoom(&mut s, false);
    assert_eq!(s.value, 0);
    s.value = 12;
    wheel_zoom(&mut s, true);
    assert_eq!(s.value, 12);
    assert_eq!(zoom_percent(0), 100);
    assert_eq!(zoom_percent(5), 150);
    let mut r = ScrollValue { value: 2, max_value: 10, reverse_value: true };
    assert_eq!(r.set_value(3), Some(7));
    assert_eq!(r.value, 3);
    assert_eq!(r.set_value(30), Some(0));
    assert_eq!(r.value, 30);
}

#[test]
fn temp_saves_and_unsaved_maps() {
    let mut d = EditorData::new();
    assert_eq!(temp_save_target(&d, false), None);
    d.changed = true;
    d.temp_saved = false;
    assert_eq!(temp_save_target(&d, true), Some(TempSave::Recovery));
    let p = MapPosition { x: 1, y: 2, group: 0 };
    d.pos = Some(p);
    assert_eq!(temp_save_target(&d, false), Some(TempSave::MapFile(p)));
    d.changed = false;
    assert_eq!(temp_save_target(&d, true), None);
    finish_temp_save(&mut d, TempSave::MapFile(p));
    finish_temp_save(&mut d, TempSave::MapFile(p));
    assert!(d.temp_saved);
    assert_eq!(d.unsaved_map.len(), 1);
    let q = MapPosition { x: 3, y: 4, group: 5 };
    finish_temp_save(&mut d, TempSave::MapFile(q));
    assert_eq!(d.unsaved_map.len(), 2);
    begin_save_map(&mut d, p);
    assert_eq!(d.mapdata.position, p);
    assert_eq!(d.unsaved_map.len(), 1);
    assert!(d.unsaved_map.contains(&(3, 4, 5)));
    d.changed = true;
    assert!(finish_save_map(&mut d, p, true));
    assert!(!d.changed && d.temp_saved);
    assert_eq!(d.pos, Some(p));
    d.changed = true;
    assert!(!finish_save_map(&mut d, q, false));
    assert!(d.changed);
}

#[test]
fn leaving_the_editor() {
    let mut d = EditorData::new();
    assert!(matches!(exit_editor(&mut d, None), ExitStep::Exit));
    assert!(d.exiting_save);
    let a = MapPosition { x: 1, y: 1, group: 0 };
    let b = MapPosition { x: 2, y: 1, group: 0 };
    finish_temp_save(&mut d, TempSave::MapFile(a));
    finish_temp_save(&mut d, TempSave::MapFile(b));
    match exit_editor(&mut d, Some(true)) {
        ExitStep::SaveAllAndExit(v) => assert_eq!(v, vec![a, b]),
        _ => panic!("expected to save all"),
    }
    assert!(matches!(exit_editor(&mut d, Some(false)), ExitStep::Exit));
    match exit_editor(&mut d, None) {
        ExitStep::AskSave(p, others) => {
            assert_eq!(p, b);
            assert!(others);
        }
        _ => panic!("expected a question"),
    }
    match exit_editor(&mut d, None) {
        ExitStep::AskSave(p, others) => {
            assert_eq!(p, a);
            assert!(!others);
        }
        _ => panic!("expected a question"),
    }
    assert!(matches!(exit_editor(&mut d, None), ExitStep::Exit));
}

#[test]
fn loading_a_map() {
    let mut d = EditorData::new();
    d.record_tile(0, 0, 0, 0, 1);
    d.record_placeholder();
    let m = MapData::default(4, 5, 6);
    let p = MapPosition { x: 4, y: 5, group: 6 };
    apply_loaded_map(&mut d, m, Some(p), true);
    assert_eq!(d.pos, Some(p));
    assert!(d.changed && d.temp_saved);
    assert_eq!(d.mapdata.position, p);
    assert_eq!(d.undo.len(), 1);
}

#[test]
fn file_names() {
    assert_eq!(map_file_path(1, -2, 3), "./data/maps/1_-2_3.bin");
    assert_eq!(temp_file_path(0, 0, 0), "./temp/0_0_0.bin");
    assert_eq!(temp_file_path(i32::MIN, 10, u64::MAX), format!("./temp/{}_10_{}.bin", i32::MIN, u64::MAX));
    assert_eq!(recovery_file_path(), "./temp/recovery.bin");
    assert_eq!(preset_file_path(42), "./mapeditor/data/presets/p42.bin");
}

#[test]
fn music_and_weather() {
    let audio = AudioCollection { audio: vec!["None".to_string(), "a.ogg".to_string(), "b.ogg".to_string()] };
    assert_eq!(music_index(&audio.audio, &Some("b.ogg".to_string())), 2);
    assert_eq!(music_index(&audio.audio, &Some("c.ogg".to_string())), 0);
    assert_eq!(music_index(&audio.audio, &None), 0);
    assert!(AudioCollection::default().audio.is_empty());
    let mut d = EditorData::new();
    choose_music(&mut d, &audio.audio, 1);
    assert_eq!(d.mapdata.music, Some("a.ogg".to_string()));
    assert!(d.changed && !d.temp_saved);
    choose_music(&mut d, &audio.audio, 0);
    assert_eq!(d.mapdata.music, None);
    choose_music(&mut d, &audio.audio, 9);
    assert_eq!(d.mapdata.music, None);
    choose_weather(&mut d, 3);
    assert_eq!(d.mapdata.weather, Weather::Sunny);
}

#[test]
fn zone_texts() {
    let mut d = EditorData::new();
    apply_zone_text(&mut d, 1, 0, Some(7));
    assert_eq!(d.mapdata.zones[1].0, 7);
    apply_zone_text(&mut d, 1, 0, None);
    assert_eq!(d.mapdata.zones[1].0, 7);
    apply_zone_text(&mut d, 1, 3, Some(9));
    assert_eq!(d.mapdata.zones[1].1[2], Some(9));
    apply_zone_text(&mut d, 1, 3, None);
    assert_eq!(d.mapdata.zones[1].1[2], None);
    assert!(!d.changed);
}
