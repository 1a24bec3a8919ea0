use vstd::prelude::*;

verus! {

/// Side length of a map in tiles.
pub const MAP_SIZE: usize = 32;
/// Number of tiles of one map layer.
pub const MAX_TILE: usize = 1024;
/// Number of tile layers of a map.
pub const MAP_LAYER_COUNT: usize = 9;
/// Number of spawn zones of a map.
pub const ZONE_COUNT: usize = 5;

/// Position of a map in the world grid.
#[derive(Clone, Copy, PartialEq, Eq, Structural, Debug)]
pub struct MapPosition {
    pub x: i32,
    pub y: i32,
    pub group: i32,
}

/// A tile position inside a given map.
#[derive(Clone, Copy, PartialEq, Eq, Structural, Debug)]
pub struct Position {
    pub x: i32,
    pub y: i32,
    pub map: MapPosition,
}

/// One layer of tile ids, indexed by `x + 32 * y`.
#[derive(Clone, Debug)]
pub struct Tile {
    pub id: Vec<u32>,
}

/// Red, green, blue and alpha components of a drawing color.
#[derive(Clone, Copy, PartialEq, Eq, Structural, Debug)]
pub struct Color {
    pub r: u8,
    pub g: u8,
    pub b: u8,
    pub a: u8,
}

impl Color {
    pub fn rgba(r: u8, g: u8, b: u8, a: u8) -> (c: Color)
        ensures
            c == (Color { r, g, b, a }),
    {
        Color { r, g, b, a }
    }
}

/// Weather of a map.
#[derive(Clone, Copy, PartialEq, Eq, Structural, Debug)]
pub enum Weather {
    NoWeather,
    Rain,
    Snow,
    Sunny,
    Storm,
    Blizzard,
    Heat,
    Hail,
    SandStorm,
    Windy,
}

/// The weather shown at a position of the weather list.
pub open spec fn weather_of(index: usize) -> Weather {
    match index {
        1 => Weather::Rain,
        2 => Weather::Snow,
        3 => Weather::Sunny,
        4 => Weather::Storm,
        5 => Weather::Blizzard,
        6 => Weather::Heat,
        7 => Weather::Hail,
        8 => Weather::SandStorm,
        9 => Weather::Windy,
        _ => Weather::NoWeather,
    }
}

/// The name under which a weather is shown.
pub open spec fn weather_name(w: Weather) -> Seq<char> {
    match w {
        Weather::NoWeather => "None"@,
        Weather::Rain => "Rain"@,
        Weather::Snow => "Snow"@,
        Weather::Sunny => "Sunny"@,
        Weather::Storm => "Storm"@,
        Weather::Blizzard => "Blizzard"@,
        Weather::Heat => "Heat"@,
        Weather::Hail => "Hail"@,
        Weather::SandStorm => "SandStorm"@,
        Weather::Windy => "Windy"@,
    }
}

impl Weather {
    /// Position of the weather in the weather list.
    pub open spec fn index(self) -> usize {
        match self {
            Weather::NoWeather => 0,
            Weather::Rain => 1,
            Weather::Snow => 2,
            Weather::Sunny => 3,
            Weather::Storm => 4,
            Weather::Blizzard => 5,
            Weather::Heat => 6,
            Weather::Hail => 7,
            Weather::SandStorm => 8,
            Weather::Windy => 9,
        }
    }

    pub fn default() -> (w: Weather)
        ensures
            w == Weather::NoWeather,
    {
        Weather::NoWeather
    }

    pub fn from_index(index: usize) -> (w: Weather)
        ensures
            w == weather_of(index),
    {
        match index {
            1 => Weather::Rain,
            2 => Weather::Snow,
            3 => Weather::Sunny,
            4 => Weather::Storm,
            5 => Weather::Blizzard,
            6 => Weather::Heat,
            7 => Weather::Hail,
            8 => Weather::SandStorm,
            9 => Weather::Windy,
            _ => Weather::NoWeather,
        }
    }

    pub fn convert_to_string(&self) -> (s: String)
        ensures
            s@ == weather_name(*self),
    {
        match self {
            Weather::NoWeather => "None".to_owned(),
            Weather::Rain => "Rain".to_owned(),
            Weather::Snow => "Snow".to_owned(),
            Weather::Sunny => "Sunny".to_owned(),
            Weather::Storm => "Storm".to_owned(),
            Weather::Blizzard => "Blizzard".to_owned(),
            Weather::Heat => "Heat".to_owned(),
            Weather::Hail => "Hail".to_owned(),
            Weather::SandStorm => "SandStorm".to_owned(),
            Weather::Windy => "Windy".to_owned(),
        }
    }

    /// The names of all weathers, in list order.
    pub fn to_vec_string() -> (v: Vec<String>)
        ensures
            v.len() == 10,
            forall|i: int| 0 <= i < 10 ==> #[trigger] v[i]@ == weather_name(weather_of(i as usize)),
    {
        let mut v: Vec<String> = Vec::new();
        let mut i: usize = 0;
        while i < 10
            invariant
                i <= 10,
                v.len() == i,
                forall|j: int| 0 <= j < i ==> #[trigger] v[j]@ == weather_name(weather_of(j as usize)),
            decreases 10 - i,
        {
            let name = Weather::from_index(i).convert_to_string();
            v.push(name);
            i = i + 1;
        }
        v
    }
}

/// A weather is found again from its list position, and its list entry is its name.
pub proof fn lemma_weather_index_roundtrip(w: Weather)
    ensures
        weather_of(w.index()) == w,
        w.index() < 10,
{
}

/// Destination of a warp tile.
#[derive(Clone, Copy, PartialEq, Eq, Structural, Debug)]
pub struct WarpData {
    pub map_x: i32,
    pub map_y: i32,
    pub map_group: u64,
    pub tile_x: u32,
    pub tile_y: u32,
}

impl WarpData {
    pub fn default() -> (w: WarpData)
        ensures
            w == (WarpData { map_x: 0, map_y: 0, map_group: 0, tile_x: 0, tile_y: 0 }),
    {
        WarpData { map_x: 0, map_y: 0, map_group: 0, tile_x: 0, tile_y: 0 }
    }
}

/// Item spawned on a tile.
#[derive(Clone, Copy, PartialEq, Eq, Structural, Debug)]
pub struct ItemSpawnData {
    pub index: u32,
    pub amount: u16,
    pub timer: u64,
}

impl ItemSpawnData {
    pub fn default() -> (d: ItemSpawnData)
        ensures
            d == (ItemSpawnData { index: 0, amount: 0, timer: 0 }),
    {
        ItemSpawnData { index: 0, amount: 0, timer: 0 }
    }
}

/// What a tile means for movement and interaction.
#[derive(Clone, Debug)]
pub enum MapAttribute {
    Walkable,
    Blocked,
    NpcBlocked,
    Warp(WarpData),
    Sign(String),
    ItemSpawn(ItemSpawnData),
    Storage,
    Shop(u16),
    Count,
}

/// Two attributes are the same: same kind and equal contents (sign texts by their characters).
pub open spec fn same_attr(a: MapAttribute, b: MapAttribute) -> bool {
    match (a, b) {
        (MapAttribute::Walkable, MapAttribute::Walkable) => true,
        (MapAttribute::Blocked, MapAttribute::Blocked) => true,
        (MapAttribute::NpcBlocked, MapAttribute::NpcBlocked) => true,
        (MapAttribute::Warp(x), MapAttribute::Warp(y)) => x == y,
        (MapAttribute::Sign(x), MapAttribute::Sign(y)) => x@ == y@,
        (MapAttribute::ItemSpawn(x), MapAttribute::ItemSpawn(y)) => x == y,
        (MapAttribute::Storage, MapAttribute::Storage) => true,
        (MapAttribute::Shop(x), MapAttribute::Shop(y)) => x == y,
        (MapAttribute::Count, MapAttribute::Count) => true,
        _ => false,
    }
}

/// An attribute as a plain value: its kind, its sign text by its characters, and its other contents.
pub open spec fn attr_key(a: MapAttribute) -> (u32, Seq<char>, WarpData, ItemSpawnData, u16) {
    let e = Seq::<char>::empty();
    let w = WarpData { map_x: 0, map_y: 0, map_group: 0, tile_x: 0, tile_y: 0 };
    let d = ItemSpawnData { index: 0, amount: 0, timer: 0 };
    match a {
        MapAttribute::Walkable => (0, e, w, d, 0),
        MapAttribute::Blocked => (1, e, w, d, 0),
        MapAttribute::NpcBlocked => (2, e, w, d, 0),
        MapAttribute::Warp(x) => (3, e, x, d, 0),
        MapAttribute::Sign(x) => (4, x@, w, d, 0),
        MapAttribute::ItemSpawn(x) => (5, e, w, x, 0),
        MapAttribute::Storage => (6, e, w, d, 0),
        MapAttribute::Shop(x) => (7, e, w, d, x),
        MapAttribute::Count => (8, e, w, d, 0),
    }
}

/// The attributes of a map as plain values.
pub open spec fn attr_keys(s: Seq<MapAttribute>) -> Seq<(u32, Seq<char>, WarpData, ItemSpawnData, u16)> {
    s.map_values(|a: MapAttribute| attr_key(a))
}

/// Two attributes are the same exactly when their plain values are equal.
pub proof fn lemma_same_attr_key(a: MapAttribute, b: MapAttribute)
    ensures
        same_attr(a, b) <==> attr_key(a) == attr_key(b),
{
}

/// The number that stands for the kind of an attribute.
pub open spec fn attr_num(a: MapAttribute) -> u32 {
    match a {
        MapAttribute::Blocked => 1,
        MapAttribute::NpcBlocked => 2,
        MapAttribute::Warp(_) => 3,
        MapAttribute::Sign(_) => 4,
        MapAttribute::ItemSpawn(_) => 5,
        MapAttribute::Storage => 6,
        MapAttribute::Shop(_) => 7,
        _ => 0,
    }
}

/// The name of an attribute kind number.
pub open spec fn attr_kind_name(n: u32) -> Seq<char> {
    match n {
        0 => "Walkable"@,
        1 => "Blocked"@,
        2 => "NpcBlocked"@,
        3 => "Warp"@,
        4 => "Sign"@,
        5 => "Item"@,
        6 => "Storage"@,
        7 => "Shop"@,
        _ => ""@,
    }
}

/// The letter that marks an attribute on the map.
pub open spec fn attr_map_letter(a: MapAttribute) -> Seq<char> {
    match a {
        MapAttribute::Blocked => "B"@,
        MapAttribute::NpcBlocked => "N"@,
        MapAttribute::Warp(_) => "W"@,
        MapAttribute::Sign(_) => "S"@,
        MapAttribute::ItemSpawn(_) => "I"@,
        MapAttribute::Storage => "S"@,
        MapAttribute::Shop(_) => "S"@,
        _ => ""@,
    }
}

/// The color of an attribute in the attribute list.
pub open spec fn attr_color(a: MapAttribute) -> Color {
    match a {
        MapAttribute::Blocked => Color { r: 200, g: 10, b: 10, a: 100 },
        MapAttribute::NpcBlocked => Color { r: 200, g: 50, b: 10, a: 100 },
        MapAttribute::Warp(_) => Color { r: 10, g: 10, b: 200, a: 100 },
        MapAttribute::Sign(_) => Color { r: 10, g: 200, b: 10, a: 100 },
        MapAttribute::ItemSpawn(_) => Color { r: 180, g: 180, b: 180, a: 100 },
        MapAttribute::Storage => Color { r: 160, g: 170, b: 20, a: 255 },
        MapAttribute::Shop(_) => Color { r: 200, g: 50, b: 100, a: 255 },
        _ => Color { r: 0, g: 0, b: 0, a: 0 },
    }
}

/// The attribute of a kind number, with empty contents.
pub open spec fn plain_attr_ok(n: u32, a: MapAttribute) -> bool {
    match n {
        1 => a is Blocked,
        2 => a is NpcBlocked,
        3 => a == MapAttribute::Warp(WarpData { map_x: 0, map_y: 0, map_group: 0, tile_x: 0, tile_y: 0 }),
        4 => a is Sign && a->Sign_0@ == Seq::<char>::empty(),
        5 => a == MapAttribute::ItemSpawn(ItemSpawnData { index: 0, amount: 0, timer: 0 }),
        6 => a is Storage,
        7 => a == MapAttribute::Shop(0),
        _ => a is Walkable,
    }
}

/// Attribute kinds as the editor lists them.
#[derive(Clone, Copy, PartialEq, Eq, Structural, Debug)]
pub enum EditorMapAttribute {
    Walkable,
    Blocked,
    NpcBlocked,
    Warp,
    Sign,
    ItemSpawn,
    Storage,
    Shop,
    Count,
}

/// The editor kind of a kind number.
pub open spec fn editor_attr_of(n: u32) -> EditorMapAttribute {
    match n {
        1 => EditorMapAttribute::Blocked,
        2 => EditorMapAttribute::NpcBlocked,
        3 => EditorMapAttribute::Warp,
        4 => EditorMapAttribute::Sign,
        5 => EditorMapAttribute::ItemSpawn,
        6 => EditorMapAttribute::Storage,
        7 => EditorMapAttribute::Shop,
        _ => EditorMapAttribute::Walkable,
    }
}

impl EditorMapAttribute {
    pub fn convert_to_plain_enum(attribute: u32) -> (r: Self)
        ensures
            r == editor_attr_of(attribute),
    {
        match attribute {
            1 => EditorMapAttribute::Blocked,
            2 => EditorMapAttribute::NpcBlocked,
            3 => EditorMapAttribute::Warp,
            4 => EditorMapAttribute::Sign,
            5 => EditorMapAttribute::ItemSpawn,
            6 => EditorMapAttribute::Storage,
            7 => EditorMapAttribute::Shop,
            _ => EditorMapAttribute::Walkable,
        }
    }
}

impl MapAttribute {
    pub fn as_str<'a>(attribute: u32) -> (s: &'a str)
        ensures
            s@ == attr_kind_name(attribute),
    {
        match attribute {
            0 => "Walkable",
            1 => "Blocked",
            2 => "NpcBlocked",
            3 => "Warp",
            4 => "Sign",
            5 => "Item",
            6 => "Storage",
            7 => "Shop",
            _ => "",
        }
    }

    pub fn as_map_str<'a>(attribute: &MapAttribute) -> (s: &'a str)
        ensures
            s@ == attr_map_letter(*attribute),
    {
        match attribute {
            MapAttribute::Blocked => "B",
            MapAttribute::NpcBlocked => "N",
            MapAttribute::Warp(_) => "W",
            MapAttribute::Sign(_) => "S",
            MapAttribute::ItemSpawn(_) => "I",
            MapAttribute::Storage => "S",
            MapAttribute::Shop(_) => "S",
            _ => "",
        }
    }

    pub fn get_color(attribute: &MapAttribute) -> (c: Color)
        ensures
            c == attr_color(*attribute),
    {
        match attribute {
            MapAttribute::Blocked => Color::rgba(200, 10, 10, 100),
            MapAttribute::NpcBlocked => Color::rgba(200, 50, 10, 100),
            MapAttribute::Warp(_) => Color::rgba(10, 10, 200, 100),
            MapAttribute::Sign(_) => Color::rgba(10, 200, 10, 100),
            MapAttribute::ItemSpawn(_) => Color::rgba(180, 180, 180, 100),
            MapAttribute::Storage => Color::rgba(160, 170, 20, 255),
            MapAttribute::Shop(_) => Color::rgba(200, 50, 100, 255),
            _ => Color::rgba(0, 0, 0, 0),
        }
    }

    pub fn convert_to_plain_enum(attribute: u32) -> (a: Self)
        ensures
            plain_attr_ok(attribute, a),
    {
        match attribute {
            1 => MapAttribute::Blocked,
            2 => MapAttribute::NpcBlocked,
            3 => MapAttribute::Warp(WarpData::default()),
            4 => MapAttribute::Sign(String::new()),
            5 => MapAttribute::ItemSpawn(ItemSpawnData::default()),
            6 => MapAttribute::Storage,
            7 => MapAttribute::Shop(0),
            _ => MapAttribute::Walkable,
        }
    }

    pub fn convert_to_num(attribute: &MapAttribute) -> (n: u32)
        ensures
            n == attr_num(*attribute),
    {
        match attribute {
            MapAttribute::Blocked => 1,
            MapAttribute::NpcBlocked => 2,
            MapAttribute::Warp(_) => 3,
            MapAttribute::Sign(_) => 4,
            MapAttribute::ItemSpawn(_) => 5,
            MapAttribute::Storage => 6,
            MapAttribute::Shop(_) => 7,
            _ => 0,
        }
    }

    pub fn to_editor(&self) -> (e: EditorMapAttribute)
        ensures
            e == editor_attr_of(attr_num(*self)),
    {
        match self {
            MapAttribute::Blocked => EditorMapAttribute::Blocked,
            MapAttribute::NpcBlocked => EditorMapAttribute::NpcBlocked,
            MapAttribute::Warp(_) => EditorMapAttribute::Warp,
            MapAttribute::Sign(_) => EditorMapAttribute::Sign,
            MapAttribute::ItemSpawn(_) => EditorMapAttribute::ItemSpawn,
            MapAttribute::Storage => EditorMapAttribute::Storage,
            MapAttribute::Shop(_) => EditorMapAttribute::Shop,
            _ => EditorMapAttribute::Walkable,
        }
    }

    /// A copy of the attribute.
    pub fn duplicate(&self) -> (r: MapAttribute)
        ensures
            r == *self,
    {
        match self {
            MapAttribute::Walkable => MapAttribute::Walkable,
            MapAttribute::Blocked => MapAttribute::Blocked,
            MapAttribute::NpcBlocked => MapAttribute::NpcBlocked,
            MapAttribute::Warp(w) => MapAttribute::Warp(*w),
            MapAttribute::Sign(s) => MapAttribute::Sign(s.clone()),
            MapAttribute::ItemSpawn(d) => MapAttribute::ItemSpawn(*d),
            MapAttribute::Storage => MapAttribute::Storage,
            MapAttribute::Shop(n) => MapAttribute::Shop(*n),
            MapAttribute::Count => MapAttribute::Count,
        }
    }

    /// Whether two attributes are equal (same kind, same contents).
    pub fn equals(&self, other: &MapAttribute) -> (r: bool)
        ensures
            r == same_attr(*self, *other),
    {
        match (self, other) {
            (MapAttribute::Walkable, MapAttribute::Walkable) => true,
            (MapAttribute::Blocked, MapAttribute::Blocked) => true,
            (MapAttribute::NpcBlocked, MapAttribute::NpcBlocked) => true,
            (MapAttribute::Warp(x), MapAttribute::Warp(y)) => *x == *y,
            (MapAttribute::Sign(x), MapAttribute::Sign(y)) => *x == *y,
            (MapAttribute::ItemSpawn(x), MapAttribute::ItemSpawn(y)) => *x == *y,
            (MapAttribute::Storage, MapAttribute::Storage) => true,
            (MapAttribute::Shop(x), MapAttribute::Shop(y)) => *x == *y,
            (MapAttribute::Count, MapAttribute::Count) => true,
            _ => false,
        }
    }
}

/// An attribute kind number names the kind of the plain attribute made from it, for the eight real kinds.
pub proof fn lemma_attr_num_roundtrip(n: u32, a: MapAttribute)
    requires
        plain_attr_ok(n, a),
    ensures
        n < 8 ==> attr_num(a) == n,
        n >= 8 ==> attr_num(a) == 0,
{
}

/// The editor kind of an attribute is the editor kind of its number, and the number of
/// that editor kind's plain attribute is the attribute's number again.
pub proof fn lemma_editor_kind_consistent(a: MapAttribute, p: MapAttribute)
    requires
        plain_attr_ok(attr_num(a), p),
    ensures
        attr_num(p) == attr_num(a),
        editor_attr_of(attr_num(p)) == editor_attr_of(attr_num(a)),
{
}

/// `same_attr` is an equivalence.
pub proof fn lemma_same_attr_equivalence(a: MapAttribute, b: MapAttribute, c: MapAttribute)
    ensures
        same_attr(a, a),
        same_attr(a, b) ==> same_attr(b, a),
        same_attr(a, b) && same_attr(b, c) ==> same_attr(a, c),
{
}


/// Index of tile `(x, y)` in a map layer.
pub open spec fn tile_index(x: int, y: int) -> int {
    x + y * 32
}

/// Tile ids of a new layer: every tile empty.
pub open spec fn empty_layer() -> Seq<u32> {
    Seq::new(1024, |i: int| 0u32)
}

/// All data of one map.
#[derive(Clone, Debug)]
pub struct MapData {
    pub position: MapPosition,
    pub tile: Vec<Tile>,
    pub dir_block: Vec<u8>,
    pub attribute: Vec<MapAttribute>,
    pub zonespawns: [Vec<(u16, u16)>; 5],
    pub zones: [(u64, [Option<u64>; 5]); 5],
    pub music: Option<String>,
    pub weather: Weather,
}

impl MapData {
    /// Nine layers of 1024 tiles, and 1024 direction blocks and attributes.
    pub open spec fn wf(self) -> bool {
        &&& self.tile@.len() == 9
        &&& forall|l: int| 0 <= l < 9 ==> #[trigger] self.tile@[l].id@.len() == 1024
        &&& self.dir_block@.len() == 1024
        &&& self.attribute@.len() == 1024
    }

    /// The tile ids of every layer.
    pub open spec fn tiles(self) -> Seq<Seq<u32>> {
        Seq::new(self.tile@.len(), |l: int| self.tile@[l].id@)
    }

    /// Everything but the tile layers and the attributes.
    pub open spec fn same_rest(self, other: MapData) -> bool {
        &&& self.position == other.position
        &&& self.dir_block == other.dir_block
        &&& self.zonespawns == other.zonespawns
        &&& self.zones == other.zones
        &&& self.music == other.music
        &&& self.weather == other.weather
    }

    /// Whether the map has the shape the editor works on (see [`MapData::wf`]).
    pub fn has_shape(&self) -> (r: bool)
        ensures
            r == self.wf(),
    {
        if self.tile.len() != 9 || self.dir_block.len() != 1024 || self.attribute.len() != 1024 {
            return false;
        }
        let mut l: usize = 0;
        while l < 9
            invariant
                l <= 9,
                self.tile@.len() == 9,
                forall|k: int| 0 <= k < l ==> #[trigger] self.tile@[k].id@.len() == 1024,
            decreases 9 - l,
        {
            if self.tile[l].id.len() != 1024 {
                return false;
            }
            l = l + 1;
        }
        true
    }

    /// The empty map at `(x, y, group)`: nine layers of tile 0, no direction blocks, walkable
    /// attributes, empty zones, no music and no weather.
    pub open spec fn is_default_map(self, x: i32, y: i32, group: u64) -> bool {
        &&& self.wf()
        &&& self.position == (MapPosition { x, y, group: group as i32 })
        &&& forall|l: int| 0 <= l < 9 ==> #[trigger] self.tile@[l].id@ == empty_layer()
        &&& forall|i: int| 0 <= i < 1024 ==> #[trigger] self.dir_block@[i] == 0
        &&& forall|i: int| 0 <= i < 1024 ==> #[trigger] self.attribute@[i] is Walkable
        &&& forall|z: int| 0 <= z < 5 ==> #[trigger] self.zonespawns[z]@.len() == 0
        &&& forall|z: int| 0 <= z < 5 ==> #[trigger] self.zones[z] == (0u64, [None::<u64>, None, None, None, None])
        &&& self.music is None
        &&& self.weather == Weather::NoWeather
    }

    pub fn default(x: i32, y: i32, group: u64) -> (m: MapData)
        ensures
            m.is_default_map(x, y, group),
    {
        let mut tile: Vec<Tile> = Vec::new();
        let mut l: usize = 0;
        while l < 9
            invariant
                l <= 9,
                tile@.len() == l,
                forall|k: int| 0 <= k < l ==> #[trigger] tile@[k].id@ == empty_layer(),
            decreases 9 - l,
        {
            let mut id: Vec<u32> = Vec::new();
            let mut i: usize = 0;
            while i < 1024
                invariant
                    i <= 1024,
                    id@.len() == i,
                    forall|k: int| 0 <= k < i ==> #[trigger] id@[k] == 0,
                decreases 1024 - i,
            {
                id.push(0);
                i = i + 1;
            }
            assert(id@ =~= empty_layer());
            tile.push(Tile { id });
            l = l + 1;
        }
        let mut dir_block: Vec<u8> = Vec::new();
        let mut attribute: Vec<MapAttribute> = Vec::new();
        let mut i: usize = 0;
        while i < 1024
            invariant
                i <= 1024,
                dir_block@.len() == i,
                attribute@.len() == i,
                forall|k: int| 0 <= k < i ==> #[trigger] dir_block@[k] == 0,
                forall|k: int| 0 <= k < i ==> #[trigger] attribute@[k] is Walkable,
            decreases 1024 - i,
        {
            dir_block.push(0);
            attribute.push(MapAttribute::Walkable);
            i = i + 1;
        }
        MapData {
            position: MapPosition { x, y, group: group as i32 },
            tile,
            dir_block,
            attribute,
            zonespawns: [Vec::new(), Vec::new(), Vec::new(), Vec::new(), Vec::new()],
            zones: [
                (0, [None, None, None, None, None]),
                (0, [None, None, None, None, None]),
                (0, [None, None, None, None, None]),
                (0, [None, None, None, None, None]),
                (0, [None, None, None, None, None]),
            ],
            music: None,
            weather: Weather::default(),
        }
    }
}

/// Index of tile `(x, y)` in a map layer.
pub fn get_tile_pos(x: i32, y: i32) -> (r: usize)
    requires
        i32::MIN <= y * 32 <= i32::MAX,
        i32::MIN <= x + y * 32 <= i32::MAX,
    ensures
        r == (x + y * 32) as usize,
{
    (x + (y * 32)) as usize
}

} // verus!
