use vstd::prelude::*;

use crate::editor::{EditorData, in_map};
use crate::map_data::{
    Color, MapAttribute, MapData, MapPosition, Position, WarpData, ItemSpawnData, EditorMapAttribute, attr_map_letter,
    ZONE_COUNT,
};
use crate::files::{decimal, decimal_string};
use vstd::string::*;
use crate::stroke::cell;

verus! {

/// The first place of `d` in `s`, if any.
pub open spec fn first_index(s: Seq<(u16, u16)>, d: (u16, u16)) -> Option<int> {
    if s.contains(d) {
        Some(choose|i: int| 0 <= i < s.len() && s[i] == d && forall|j: int| 0 <= j < i ==> s[j] != d)
    } else {
        None
    }
}

/// Finds the first place of `d` in `v`.
fn find_pos(v: &Vec<(u16, u16)>, d: (u16, u16)) -> (r: Option<usize>)
    ensures
        match r {
            Some(i) => i < v@.len() && v@[i as int] == d && forall|j: int| 0 <= j < i ==> v@[j] != d,
            None => !v@.contains(d),
        },
{
    let mut i: usize = 0;
    while i < v.len()
        invariant
            i <= v@.len(),
            forall|j: int| 0 <= j < i ==> v@[j] != d,
        decreases v@.len() - i,
    {
        let p = v[i];
        if p.0 == d.0 && p.1 == d.1 {
            assert(v@[i as int] == d);
            return Some(i);
        }
        i = i + 1;
    }
    None
}

proof fn lemma_first_index(s: Seq<(u16, u16)>, d: (u16, u16), i: int)
    requires
        0 <= i < s.len(),
        s[i] == d,
        forall|j: int| 0 <= j < i ==> s[j] != d,
    ensures
        first_index(s, d) == Some(i),
{
    let k = choose|k: int| 0 <= k < s.len() && s[k] == d && forall|j: int| 0 <= j < k ==> s[j] != d;
    assert(s[i] == d);
    if k < i {
        assert(s[k] != d);
    } else if k > i {
        assert(s[i] != d);
    }
}

/// The spawn tiles of a zone after setting (`set`) or clearing tile `d`: setting adds it at the
/// end unless it is there; clearing takes out its first occurrence.
pub open spec fn zone_after(s: Seq<(u16, u16)>, d: (u16, u16), set: bool) -> Seq<(u16, u16)> {
    if set {
        if s.contains(d) {
            s
        } else {
            s.push(d)
        }
    } else {
        match first_index(s, d) {
            Some(i) => s.remove(i),
            None => s,
        }
    }
}

/// `after` is `before` after setting or clearing tile `map_pos` in zone `zone`
/// (see [`update_map_zone`]).
pub open spec fn zone_done(before: EditorData, after: EditorData, map_pos: (u16, u16), zone: usize, set: bool) -> bool {
    let s = before.mapdata.zonespawns[zone as int]@;
    if zone_after(s, map_pos, set) == s {
        after == before
    } else {
        &&& after.mapdata.zonespawns[zone as int]@ == zone_after(s, map_pos, set)
        &&& forall|z: int| 0 <= z < 5 && z != zone ==> #[trigger] after.mapdata.zonespawns[z] == before.mapdata.zonespawns[z]
        &&& after.mapdata.tile == before.mapdata.tile
        &&& after.mapdata.attribute == before.mapdata.attribute
        &&& after.mapdata.dir_block == before.mapdata.dir_block
        &&& after.mapdata.zones == before.mapdata.zones
        &&& after.mapdata.position == before.mapdata.position
        &&& after.mapdata.music == before.mapdata.music
        &&& after.mapdata.weather == before.mapdata.weather
        &&& after.marked_edited(before)
        &&& after.same_history(before)
    }
}

/// Adds (`set`) or removes tile `map_pos` as a spawn tile of zone `zone`. When that changes the
/// list, the map is marked changed and not saved to its temporary file; otherwise nothing changes.
pub fn update_map_zone(data: &mut EditorData, map_pos: (u16, u16), zone: usize, set: bool)
    requires
        old(data).wf(),
        zone < ZONE_COUNT,
    ensures
        final(data).wf(),
        zone_done(*old(data), *final(data), map_pos, zone, set),
{
    let ghost s = data.mapdata.zonespawns[zone as int]@;
    let found = find_pos(&data.mapdata.zonespawns[zone], map_pos);
    if set {
        if found.is_some() {
            return;
        }
        data.mapdata.zonespawns[zone].push(map_pos);
        proof {
            assert(data.mapdata.zonespawns[zone as int]@.len() == s.len() + 1);
        }
    } else {
        match found {
            Some(i) => {
                proof {
                    lemma_first_index(s, map_pos, i as int);
                }
                let _ = data.mapdata.zonespawns[zone].remove(i);
                proof {
                    assert(data.mapdata.zonespawns[zone as int]@.len() + 1 == s.len());
                }
            },
            None => {
                return;
            },
        }
    }
    data.changed = true;
    data.temp_saved = false;
}

/// Setting a tile that a zone does not hold and then clearing it gives back the zone's list;
/// clearing a tile that the zone holds once and setting it again gives back its members.
pub proof fn law_zone_set_then_clear(s: Seq<(u16, u16)>, d: (u16, u16))
    ensures
        !s.contains(d) ==> zone_after(zone_after(s, d, true), d, false) == s,
        zone_after(zone_after(s, d, true), d, true) == zone_after(s, d, true),
        zone_after(s, d, true).contains(d),
{
    let t = s.push(d);
    if !s.contains(d) {
        assert(t[s.len() as int] == d);
        assert(t.contains(d));
        lemma_first_index(t, d, s.len() as int);
        assert(t.remove(s.len() as int) =~= s);
    } else {
        let i = choose|i: int| 0 <= i < s.len() && s[i] == d;
        assert(s[i] == d);
    }
    if !s.contains(d) {
        assert(t[s.len() as int] == d);
    }
}

/// On a zone list that holds no tile twice, setting a tile leaves it in the list, clearing
/// takes it out, the list still holds no tile twice, and the list stays as it was exactly when
/// the tile already was (set) or was not (cleared) in it.
pub proof fn law_zone_update(s: Seq<(u16, u16)>, d: (u16, u16), set: bool)
    requires
        s.no_duplicates(),
    ensures
        zone_after(s, d, set).no_duplicates(),
        set ==> zone_after(s, d, set).contains(d),
        !set ==> !zone_after(s, d, set).contains(d),
        (zone_after(s, d, set) == s) <==> (set == s.contains(d)),
{
    let r = zone_after(s, d, set);
    if set {
        if !s.contains(d) {
            let t = s.push(d);
            assert(t[s.len() as int] == d);
            assert forall|i: int, j: int| 0 <= i < t.len() && 0 <= j < t.len() && i != j implies t[i] != t[j] by {
                if i < s.len() && j < s.len() {
                    assert(s[i] != s[j]);
                } else if i == s.len() {
                    assert(s[j] != d);
                } else {
                    assert(s[i] != d);
                }
            }
            assert(t.len() != s.len());
        }
    } else {
        if s.contains(d) {
            let k = choose|k: int| 0 <= k < s.len() && s[k] == d;
            assert(s[k] == d);
            let i = choose|i: int| 0 <= i < s.len() && s[i] == d && forall|j: int| 0 <= j < i ==> s[j] != d;
            assert(first_index(s, d) == Some(i));
            let t = s.remove(i);
            assert forall|a: int| 0 <= a < t.len() implies t[a] != d by {
                if a < i {
                    assert(t[a] == s[a]);
                } else {
                    assert(t[a] == s[a + 1]);
                    assert(s[a + 1] != s[i]);
                }
            }
            assert forall|a: int, b: int| 0 <= a < t.len() && 0 <= b < t.len() && a != b implies t[a] != t[b] by {
                let a2 = if a < i { a } else { a + 1 };
                let b2 = if b < i { b } else { b + 1 };
                assert(t[a] == s[a2] && t[b] == s[b2]);
            }
            assert(t.len() != s.len());
        } else {
            assert(first_index(s, d) is None);
        }
    }
}

/// Setting or clearing a spawn tile of a zone whose list holds no tile twice: the list still
/// holds no tile twice, holds the tile after setting and not after clearing, the other zones
/// keep theirs, and nothing at all changes (the changed flag included) when the tile already
/// was (set) or was not (cleared) in the list.
pub proof fn law_zone_edit(before: EditorData, after: EditorData, map_pos: (u16, u16), zone: usize, set: bool)
    requires
        zone < ZONE_COUNT,
        before.mapdata.zonespawns[zone as int]@.no_duplicates(),
        zone_done(before, after, map_pos, zone, set),
    ensures
        after.mapdata.zonespawns[zone as int]@.no_duplicates(),
        set ==> after.mapdata.zonespawns[zone as int]@.contains(map_pos),
        !set ==> !after.mapdata.zonespawns[zone as int]@.contains(map_pos),
        forall|z: int| 0 <= z < 5 && z != zone ==> #[trigger] after.mapdata.zonespawns[z] == before.mapdata.zonespawns[z],
        (set == before.mapdata.zonespawns[zone as int]@.contains(map_pos)) ==> after == before,
{
    law_zone_update(before.mapdata.zonespawns[zone as int]@, map_pos, set);
}

/// The direction block made from the four block flags of the direction window:
/// `blocks[1]` up (bit 1), `blocks[2]` left (bit 2), `blocks[0]` down (bit 0), `blocks[3]` right (bit 3).
pub open spec fn dirblock_of(blocks: [bool; 4]) -> u8 {
    ((if blocks[0] { 1int } else { 0 }) + (if blocks[1] { 2int } else { 0 }) + (if blocks[2] { 4int } else { 0 })
        + (if blocks[3] { 8int } else { 0 })) as u8
}

/// The direction block made from the four block flags of the direction window.
pub fn dirblock_from_flags(blocks: [bool; 4]) -> (d: u8)
    ensures
        d == dirblock_of(blocks),
        d < 16,
{
    let mut d: u8 = 0;
    if blocks[1] {
        d = d + 2;
    }
    if blocks[2] {
        d = d + 4;
    }
    if blocks[0] {
        d = d + 1;
    }
    if blocks[3] {
        d = d + 8;
    }
    d
}

/// `after` is `before` with the direction block of tile `map_pos` set (see [`update_map_dirblock`]).
pub open spec fn dirblock_done(before: EditorData, after: EditorData, map_pos: (u16, u16), set: bool, blocks: [bool; 4]) -> bool {
    &&& after.mapdata.dir_block@ == before.mapdata.dir_block@.update(
        cell(map_pos),
        if set {
            dirblock_of(blocks)
        } else {
            0
        },
    )
    &&& after.mapdata.tile == before.mapdata.tile
    &&& after.mapdata.attribute == before.mapdata.attribute
    &&& after.mapdata.zonespawns == before.mapdata.zonespawns
    &&& after.mapdata.zones == before.mapdata.zones
    &&& after.mapdata.position == before.mapdata.position
    &&& after.mapdata.music == before.mapdata.music
    &&& after.mapdata.weather == before.mapdata.weather
    &&& after.marked_edited(before)
    &&& after.same_history(before)
}

/// Sets the direction block of tile `map_pos`: made from `blocks` when `set`, else none.
/// The map is marked changed and not saved to its temporary file.
pub fn update_map_dirblock(data: &mut EditorData, map_pos: (u16, u16), set: bool, blocks: [bool; 4])
    requires
        old(data).wf(),
        in_map(map_pos.0, map_pos.1),
    ensures
        final(data).wf(),
        dirblock_done(*old(data), *final(data), map_pos, set, blocks),
{
    let d = if set {
        dirblock_from_flags(blocks)
    } else {
        0
    };
    let idx = map_pos.0 as usize + map_pos.1 as usize * 32;
    data.mapdata.dir_block.set(idx, d);
    data.changed = true;
    data.temp_saved = false;
}

/// The cell of the direction block sheet that shows which sides are blocked.
pub open spec fn dirblock_cell(up: bool, left: bool, down: bool, right: bool) -> (u16, u16) {
    match (up, left, down, right) {
        (true, false, false, false) => (1, 0),
        (false, true, false, false) => (3, 0),
        (false, false, true, false) => (2, 0),
        (false, false, false, true) => (4, 0),
        (true, true, false, false) => (3, 1),
        (true, false, true, false) => (0, 2),
        (true, false, false, true) => (0, 1),
        (false, true, true, false) => (2, 1),
        (false, true, false, true) => (4, 1),
        (false, false, true, true) => (1, 1),
        (true, true, true, false) => (2, 2),
        (true, true, false, true) => (3, 2),
        (true, false, true, true) => (4, 2),
        (false, true, true, true) => (1, 2),
        (true, true, true, true) => (0, 3),
        _ => (0, 0),
    }
}

/// The cell of the direction block sheet for a direction block: up is bit 1, left bit 2,
/// down bit 0 and right bit 3.
pub fn get_dirblock_uv(dirblock: u8) -> (r: (u16, u16))
    ensures
        r == dirblock_cell(dirblock & 2 == 2, dirblock & 4 == 4, dirblock & 1 == 1, dirblock & 8 == 8),
{
    let up = dirblock & 2 == 2;
    let left = dirblock & 4 == 4;
    let down = dirblock & 1 == 1;
    let right = dirblock & 8 == 8;
    match (up, left, down, right) {
        (true, false, false, false) => (1, 0),
        (false, true, false, false) => (3, 0),
        (false, false, true, false) => (2, 0),
        (false, false, false, true) => (4, 0),
        (true, true, false, false) => (3, 1),
        (true, false, true, false) => (0, 2),
        (true, false, false, true) => (0, 1),
        (false, true, true, false) => (2, 1),
        (false, true, false, true) => (4, 1),
        (false, false, true, true) => (1, 1),
        (true, true, true, false) => (2, 2),
        (true, true, false, true) => (3, 2),
        (true, false, true, true) => (4, 2),
        (false, true, true, true) => (1, 2),
        (true, true, true, true) => (0, 3),
        _ => (0, 0),
    }
}

/// Different sets of blocked sides are shown by different cells of the sheet.
pub proof fn law_dirblock_cells_distinct(a: (bool, bool, bool, bool), b: (bool, bool, bool, bool))
    ensures
        dirblock_cell(a.0, a.1, a.2, a.3) == dirblock_cell(b.0, b.1, b.2, b.3) ==> a == b,
{
}

/// The number of a sheet cell, counting along rows of five cells from the first.
pub open spec fn dirblock_index(b: (bool, bool, bool, bool)) -> int {
    let c = dirblock_cell(b.0, b.1, b.2, b.3);
    c.0 + 5 * c.1
}

/// The blocked sides `(up, left, down, right)` turned a quarter clockwise: up goes right, right
/// goes down, down goes left and left goes up.
pub open spec fn quarter_turn(b: (bool, bool, bool, bool)) -> (bool, bool, bool, bool) {
    (b.1, b.2, b.3, b.0)
}

/// How many sides are blocked.
pub open spec fn blocked_count(b: (bool, bool, bool, bool)) -> int {
    (if b.0 { 1int } else { 0 }) + (if b.1 { 1int } else { 0 }) + (if b.2 { 1int } else { 0 }) + (if b.3 {
        1int
    } else {
        0
    })
}

/// Two opposite sides: up and down, or left and right.
pub open spec fn opposite_pair(b: (bool, bool, bool, bool)) -> bool {
    b == (true, false, true, false) || b == (false, true, false, true)
}

/// How the direction block sheet is laid out, in rows of five cells: first no side blocked,
/// then the four single sides (up, down, left, right: the two vertical ones first, each pair
/// with its first side first), then the four corners (two neighboring sides) going clockwise
/// from up and right, then the two straight pairs (left and right, then up and down), then the
/// four sets of three sides going clockwise from the one open at the top, then all four sides.
/// Turning the blocked sides a quarter clockwise moves a corner, a straight pair or a set of
/// three to the next cell of its run.
pub proof fn law_dirblock_sheet_layout(b: (bool, bool, bool, bool))
    ensures
        dirblock_cell(b.0, b.1, b.2, b.3).0 < 5,
        blocked_count(b) == 0 ==> dirblock_index(b) == 0,
        blocked_count(b) == 1 ==> 1 <= dirblock_index(b) <= 4 && ((b.0 || b.2) <==> dirblock_index(b) <= 2),
        blocked_count(b) == 2 && !opposite_pair(b) ==> 5 <= dirblock_index(b) <= 8 && dirblock_index(quarter_turn(b))
            == 5 + (dirblock_index(b) - 5 + 1) % 4,
        opposite_pair(b) ==> 9 <= dirblock_index(b) <= 10 && dirblock_index(quarter_turn(b)) == 9 + (dirblock_index(b)
            - 9 + 1) % 2,
        blocked_count(b) == 3 ==> 11 <= dirblock_index(b) <= 14 && dirblock_index(quarter_turn(b)) == 11 + (
        dirblock_index(b) - 11 + 1) % 4,
        blocked_count(b) == 4 ==> dirblock_index(b) == 15,
        dirblock_index((true, false, false, false)) < dirblock_index((false, false, true, false)),
        dirblock_index((false, true, false, false)) < dirblock_index((false, false, false, true)),
        dirblock_index((true, false, false, true)) == 5,
        dirblock_index((false, true, false, true)) == 9,
        dirblock_index((false, true, true, true)) == 11,
{
}

/// The direction block made from the window's flags is shown with exactly the sides they block.
pub proof fn law_dirblock_shows_flags(blocks: [bool; 4])
    ensures
        ({
            let d = dirblock_of(blocks);
            &&& (d & 2 == 2) == blocks[1]
            &&& (d & 4 == 4) == blocks[2]
            &&& (d & 1 == 1) == blocks[0]
            &&& (d & 8 == 8) == blocks[3]
        }),
{
    let (b0, b1, b2, b3) = (blocks[0], blocks[1], blocks[2], blocks[3]);
    let d = dirblock_of(blocks);
    assert(d == ((if b0 { 1int } else { 0 }) + (if b1 { 2int } else { 0 }) + (if b2 { 4int } else { 0 }) + (if b3 {
        8int
    } else {
        0
    })) as u8);
    assert(((if b0 { 1u8 } else { 0u8 }) | (if b1 { 2u8 } else { 0u8 }) | (if b2 { 4u8 } else { 0u8 }) | (if b3 {
        8u8
    } else {
        0u8
    })) == ((if b0 { 1int } else { 0 }) + (if b1 { 2int } else { 0 }) + (if b2 { 4int } else { 0 }) + (if b3 {
        8int
    } else {
        0
    })) as u8) by (bit_vector);
    let e: u8 = (if b0 { 1u8 } else { 0u8 }) | (if b1 { 2u8 } else { 0u8 }) | (if b2 { 4u8 } else { 0u8 }) | (if b3 {
        8u8
    } else {
        0u8
    });
    assert((e & 2 == 2) == b1 && (e & 4 == 4) == b2 && (e & 1 == 1) == b0 && (e & 8 == 8) == b3) by (bit_vector)
        requires
            e == (if b0 { 1u8 } else { 0u8 }) | (if b1 { 2u8 } else { 0u8 }) | (if b2 { 4u8 } else { 0u8 }) | (if b3 {
                8u8
            } else {
                0u8
            }),
    ;
}

/// The color of the mark an attribute gets on the map.
pub open spec fn attr_visual_color(a: MapAttribute) -> Color {
    match a {
        MapAttribute::Blocked => Color { r: 255, g: 0, b: 0, a: 120 },
        MapAttribute::Walkable | MapAttribute::Count => Color { r: 0, g: 0, b: 0, a: 0 },
        _ => Color { r: 0, g: 0, b: 0, a: 120 },
    }
}

/// The color and letter of the mark an attribute gets on the map.
pub fn get_attribute_visual(attribute: &MapAttribute) -> (r: (Color, String))
    ensures
        r.0 == attr_visual_color(*attribute),
        r.1@ == attr_map_letter(*attribute),
{
    proof {
        reveal_strlit("B");
        reveal_strlit("I");
        reveal_strlit("N");
        reveal_strlit("S");
        reveal_strlit("W");
        reveal_strlit("");
    }
    match attribute {
        MapAttribute::Blocked => (Color::rgba(255, 0, 0, 120), "B".to_owned()),
        MapAttribute::ItemSpawn(_) => (Color::rgba(0, 0, 0, 120), "I".to_owned()),
        MapAttribute::NpcBlocked => (Color::rgba(0, 0, 0, 120), "N".to_owned()),
        MapAttribute::Shop(_) => (Color::rgba(0, 0, 0, 120), "S".to_owned()),
        MapAttribute::Sign(_) => (Color::rgba(0, 0, 0, 120), "S".to_owned()),
        MapAttribute::Storage => (Color::rgba(0, 0, 0, 120), "S".to_owned()),
        MapAttribute::Warp(_) => (Color::rgba(0, 0, 0, 120), "W".to_owned()),
        MapAttribute::Walkable | MapAttribute::Count => (Color::rgba(0, 0, 0, 0), String::new()),
    }
}

/// The offset of the map linked at place `id` around a map: 1 top, 2 top right, 3 left,
/// 4 right, 5 down left, 6 down, 7 down right, any other top left (up is `y + 1`).
pub open spec fn link_offset(id: usize) -> (int, int) {
    match id {
        1 => (0, 1),
        2 => (1, 1),
        3 => (-1, 0),
        4 => (1, 0),
        5 => (-1, -1),
        6 => (0, -1),
        7 => (1, -1),
        _ => (-1, 1),
    }
}

/// The position of the map linked at place `id` around `map_pos`, in the same group.
pub fn get_link_map_pos(map_pos: MapPosition, id: usize) -> (r: MapPosition)
    requires
        i32::MIN < map_pos.x < i32::MAX,
        i32::MIN < map_pos.y < i32::MAX,
    ensures
        r.x == map_pos.x + link_offset(id).0,
        r.y == map_pos.y + link_offset(id).1,
        r.group == map_pos.group,
{
    let g = map_pos.group;
    match id {
        1 => MapPosition { x: map_pos.x, y: map_pos.y + 1, group: g },
        2 => MapPosition { x: map_pos.x + 1, y: map_pos.y + 1, group: g },
        3 => MapPosition { x: map_pos.x - 1, y: map_pos.y, group: g },
        4 => MapPosition { x: map_pos.x + 1, y: map_pos.y, group: g },
        5 => MapPosition { x: map_pos.x - 1, y: map_pos.y - 1, group: g },
        6 => MapPosition { x: map_pos.x, y: map_pos.y - 1, group: g },
        7 => MapPosition { x: map_pos.x + 1, y: map_pos.y - 1, group: g },
        _ => MapPosition { x: map_pos.x - 1, y: map_pos.y + 1, group: g },
    }
}

/// The eight linked places (0 to 7) are the eight maps around a map, each a different one.
pub proof fn law_link_places_surround(a: usize, b: usize)
    requires
        a < 8,
        b < 8,
    ensures
        link_offset(a) != (0int, 0int),
        -1 <= link_offset(a).0 <= 1 && -1 <= link_offset(a).1 <= 1,
        a != b ==> link_offset(a) != link_offset(b),
{
}

/// The linked places are numbered in reading order of the 3 by 3 block of maps around a map:
/// the row above first (up is `y + 1`), then the map's own row, then the row below, each from
/// left to right; a place past the eighth is the first.
pub proof fn law_link_places_in_reading_order(a: usize, b: usize)
    ensures
        a < b < 8 ==> link_offset(a).1 > link_offset(b).1 || (link_offset(a).1 == link_offset(b).1
            && link_offset(a).0 < link_offset(b).0),
        a >= 8 ==> link_offset(a) == link_offset(0),
{
}

/// The attribute the attribute window describes: its kind and, for the kinds with contents, the
/// values of its fields (a warp's place is the tile `warp.x, warp.y` of map `warp.map`).
pub open spec fn attribute_of(
    kind: EditorMapAttribute,
    item: ItemSpawnData,
    shop: u16,
    sign: String,
    warp: Position,
) -> MapAttribute {
    match kind {
        EditorMapAttribute::Blocked => MapAttribute::Blocked,
        EditorMapAttribute::ItemSpawn => MapAttribute::ItemSpawn(item),
        EditorMapAttribute::NpcBlocked => MapAttribute::NpcBlocked,
        EditorMapAttribute::Shop => MapAttribute::Shop(shop),
        EditorMapAttribute::Sign => MapAttribute::Sign(sign),
        EditorMapAttribute::Storage => MapAttribute::Storage,
        EditorMapAttribute::Warp => MapAttribute::Warp(
            WarpData {
                map_x: warp.map.x,
                map_y: warp.map.y,
                map_group: warp.map.group as u64,
                tile_x: warp.x as u32,
                tile_y: warp.y as u32,
            },
        ),
        _ => MapAttribute::Walkable,
    }
}

/// The attribute the attribute window describes (see [`attribute_of`]).
pub fn attribute_from_editor(
    kind: EditorMapAttribute,
    item: ItemSpawnData,
    shop: u16,
    sign: String,
    warp: Position,
) -> (r: MapAttribute)
    ensures
        r == attribute_of(kind, item, shop, sign, warp),
{
    match kind {
        EditorMapAttribute::Blocked => MapAttribute::Blocked,
        EditorMapAttribute::ItemSpawn => MapAttribute::ItemSpawn(item),
        EditorMapAttribute::NpcBlocked => MapAttribute::NpcBlocked,
        EditorMapAttribute::Shop => MapAttribute::Shop(shop),
        EditorMapAttribute::Sign => MapAttribute::Sign(sign),
        EditorMapAttribute::Storage => MapAttribute::Storage,
        EditorMapAttribute::Warp => MapAttribute::Warp(
            WarpData {
                map_x: warp.map.x,
                map_y: warp.map.y,
                map_group: warp.map.group as u64,
                tile_x: warp.x as u32,
                tile_y: warp.y as u32,
            },
        ),
        EditorMapAttribute::Walkable | EditorMapAttribute::Count => MapAttribute::Walkable,
    }
}

/// The texts the picker puts in the attribute window's fields for an attribute: an item's
/// index, amount and timer; a shop's index; a sign's text; a warp's tile x and y, then its
/// map's x, y and group; none for the other kinds.
pub open spec fn picked_fields(a: MapAttribute) -> Seq<Seq<char>> {
    match a {
        MapAttribute::ItemSpawn(d) => seq![decimal(d.index as int), decimal(d.amount as int), decimal(d.timer as int)],
        MapAttribute::Shop(n) => seq![decimal(n as int)],
        MapAttribute::Sign(t) => seq![t@],
        MapAttribute::Warp(w) => seq![
            decimal(w.tile_x as int),
            decimal(w.tile_y as int),
            decimal(w.map_x as int),
            decimal(w.map_y as int),
            decimal(w.map_group as int),
        ],
        _ => Seq::empty(),
    }
}

/// What the picker takes from the attribute under the cursor: nothing for a walkable tile;
/// else the attribute's kind and the texts of its fields (see [`picked_fields`]).
pub fn picker_attribute(attribute: &MapAttribute) -> (r: Option<(EditorMapAttribute, Vec<String>)>)
    ensures
        attribute is Walkable ==> r is None,
        !(attribute is Walkable) ==> (r matches Some((k, v)) && k == crate::map_data::editor_attr_of(
            crate::map_data::attr_num(*attribute),
        ) && v@.len() == picked_fields(*attribute).len() && forall|i: int|
            0 <= i < v@.len() ==> #[trigger] v@[i]@ == picked_fields(*attribute)[i]),
{
    let kind = attribute.to_editor();
    let fields: Vec<String> = match attribute {
        MapAttribute::Walkable => {
            return None;
        },
        MapAttribute::ItemSpawn(d) => vec![
            decimal_string(d.index as i128),
            decimal_string(d.amount as i128),
            decimal_string(d.timer as i128),
        ],
        MapAttribute::Shop(n) => vec![decimal_string(*n as i128)],
        MapAttribute::Sign(t) => vec![t.clone()],
        MapAttribute::Warp(w) => vec![
            decimal_string(w.tile_x as i128),
            decimal_string(w.tile_y as i128),
            decimal_string(w.map_x as i128),
            decimal_string(w.map_y as i128),
            decimal_string(w.map_group as i128),
        ],
        _ => Vec::new(),
    };
    Some((kind, fields))
}

/// The lines of the preview shown when the cursor rests on an attribute: its name, then its
/// contents; none for a walkable tile.
pub open spec fn preview_lines(a: MapAttribute) -> Option<Seq<Seq<char>>> {
    match a {
        MapAttribute::Blocked => Some(seq!["Blocked"@]),
        MapAttribute::ItemSpawn(d) => Some(
            seq![
                "Item Spawn"@,
                "Index: "@ + decimal(d.index as int),
                "Amount: "@ + decimal(d.amount as int),
                "Respawn Time: "@ + decimal(d.timer as int) + "ms"@,
            ],
        ),
        MapAttribute::NpcBlocked => Some(seq!["Npc Blocked"@]),
        MapAttribute::Shop(n) => Some(seq!["Shop"@, "Index: "@ + decimal(n as int)]),
        MapAttribute::Sign(t) => Some(seq!["Sign"@, "Msg: "@ + t@]),
        MapAttribute::Storage => Some(seq!["Storage"@]),
        MapAttribute::Warp(w) => Some(
            seq![
                "Warp"@,
                "Tile: "@ + decimal(w.tile_x as int) + "x"@ + decimal(w.tile_y as int),
                "Map Pos: "@ + decimal(w.map_x as int) + "x"@ + decimal(w.map_y as int),
                "Group: "@ + decimal(w.map_group as int),
            ],
        ),
        MapAttribute::Walkable | MapAttribute::Count => None,
    }
}

/// A label followed by a number.
fn labeled(label: &str, n: i128) -> (s: String)
    ensures
        s@ == label@ + decimal(n as int),
{
    let mut s = label.to_owned();
    let d = decimal_string(n);
    s.append(d.as_str());
    s
}

/// The lines of the preview shown when the cursor rests on an attribute (see [`preview_lines`]).
pub fn attr_preview_lines(attribute: &MapAttribute) -> (r: Option<Vec<String>>)
    ensures
        match preview_lines(*attribute) {
            Some(lines) => r matches Some(v) && v@.len() == lines.len() && forall|i: int|
                0 <= i < lines.len() ==> #[trigger] v@[i]@ == lines[i],
            None => r is None,
        },
{
    let lines: Vec<String> = match attribute {
        MapAttribute::Blocked => vec!["Blocked".to_owned()],
        MapAttribute::ItemSpawn(d) => {
            let mut t = labeled("Respawn Time: ", d.timer as i128);
            t.append("ms");
            vec![
                "Item Spawn".to_owned(),
                labeled("Index: ", d.index as i128),
                labeled("Amount: ", d.amount as i128),
                t,
            ]
        },
        MapAttribute::NpcBlocked => vec!["Npc Blocked".to_owned()],
        MapAttribute::Shop(n) => vec!["Shop".to_owned(), labeled("Index: ", *n as i128)],
        MapAttribute::Sign(t) => {
            let mut m = "Msg: ".to_owned();
            m.append(t.as_str());
            vec!["Sign".to_owned(), m]
        },
        MapAttribute::Storage => vec!["Storage".to_owned()],
        MapAttribute::Warp(w) => {
            let mut tile = labeled("Tile: ", w.tile_x as i128);
            tile.append("x");
            let ty = decimal_string(w.tile_y as i128);
            tile.append(ty.as_str());
            let mut map = labeled("Map Pos: ", w.map_x as i128);
            map.append("x");
            let my = decimal_string(w.map_y as i128);
            map.append(my.as_str());
            vec!["Warp".to_owned(), tile, map, labeled("Group: ", w.map_group as i128)]
        },
        MapAttribute::Walkable | MapAttribute::Count => {
            return None;
        },
    };
    Some(lines)
}

} // verus!
