use mapeditor::map_data::MapPosition;
use mapeditor::text::{map_pos_from_text, parse_i32_or_zero, parse_u64};
use mapeditor::text::{footer_map_text, footer_tile_text, map_label, map_notice};

const SAMPLES: &[&str] = &[
    "", "0", "7", "007", "+5", "-5", "-0", "+", "-", "12a", "a12", " 1", "1 ", "--1", "+-1",
    "2147483647", "2147483648", "-2147483648", "-2147483649", "18446744073709551615",
    "18446744073709551616", "99999999999999999999999", "+18446744073709551615", "٣",
];

#[test]
fn u64_texts_read_as_std_reads_them() {
    for s in SAMPLES {
        assert_eq!(parse_u64(s), s.parse::<u64>().ok(), "text {s:?}");
    }
}

#[test]
fn i32_texts_read_as_std_reads_them() {
    for s in SAMPLES {
        assert_eq!(parse_i32_or_zero(s), s.parse::<i32>().unwrap_or_default(), "text {s:?}");
    }
}

#[test]
fn map_position_from_boxes() {
    assert_eq!(map_pos_from_text("3", "-4", "x"), MapPosition { x: 3, y: -4, group: 0 });
    assert_eq!(parse_u64("400"), Some(400));
    assert_eq!(parse_i32_or_zero("-17"), -17);
}

#[test]
fn footer_and_notices() {
    let p = MapPosition { x: 1, y: -2, group: 3 };
    assert_eq!(map_label(p), "Map [X: 1 Y: -2 Group: 3]");
    assert_eq!(footer_map_text(p, true), "Map [X: 1 Y: -2 Group: 3]");
    assert_eq!(footer_map_text(p, false), "Map [X: 1 Y: -2 Group: 3]*");
    assert_eq!(footer_tile_text(3, 12), "Tile Pos [X: 03 Y: 12]");
    assert_eq!(footer_tile_text(0, 31), format!("Tile Pos [X: {:02} Y: {:02}]", 0, 31));
    assert_eq!(map_notice(p, "Saved!"), "Map [X: 1 Y: -2 Group: 3] Saved!");
}
