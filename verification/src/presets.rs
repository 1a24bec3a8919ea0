use vstd::prelude::*;

verus! {

/// Number of presets the editor keeps.
pub const MAX_PRESETS: usize = 100;

/// How a preset draws on the map.
#[derive(Clone, Copy, PartialEq, Eq, Structural, Debug)]
pub enum PresetTypeList {
    Normal,
    Animated,
    AutoTile,
    AutotileAnimated,
}

/// The meaning of a list index for [`PresetTypeList`].
pub open spec fn preset_type_of(index: usize) -> PresetTypeList {
    match index {
        1 => PresetTypeList::Animated,
        2 => PresetTypeList::AutoTile,
        3 => PresetTypeList::AutotileAnimated,
        _ => PresetTypeList::Normal,
    }
}

impl PresetTypeList {
    /// The list index of the type.
    pub open spec fn index(self) -> usize {
        match self {
            PresetTypeList::Normal => 0,
            PresetTypeList::Animated => 1,
            PresetTypeList::AutoTile => 2,
            PresetTypeList::AutotileAnimated => 3,
        }
    }

    pub fn default() -> (t: PresetTypeList)
        ensures
            t == PresetTypeList::Normal,
    {
        PresetTypeList::Normal
    }

    pub fn from_index(index: usize) -> (t: Self)
        ensures
            t == preset_type_of(index),
    {
        match index {
            1 => PresetTypeList::Animated,
            2 => PresetTypeList::AutoTile,
            3 => PresetTypeList::AutotileAnimated,
            _ => PresetTypeList::Normal,
        }
    }

    /// Whether the preset draws one frame per animation layer.
    pub open spec fn is_animated(self) -> bool {
        self == PresetTypeList::Animated || self == PresetTypeList::AutotileAnimated
    }
}

/// Each preset type is found again from its list index.
pub proof fn lemma_preset_type_index_roundtrip(t: PresetTypeList)
    ensures
        preset_type_of(t.index()) == t,
{
}

/// A position on a tile sheet.
#[derive(Clone, Copy, PartialEq, Eq, Structural, Debug)]
pub struct PresetPos {
    pub x: u16,
    pub y: u16,
}

/// The tiles of one frame of a preset: a rectangle of a tile sheet, between two corners.
#[derive(Clone, Copy, PartialEq, Eq, Structural, Debug)]
pub struct PresetFrames {
    pub start: PresetPos,
    pub end: PresetPos,
    pub tileset: u16,
}

/// Width of the rectangle between two corners, in tiles.
pub open spec fn span(a: u16, b: u16) -> int {
    if a >= b {
        a - b + 1
    } else {
        b - a + 1
    }
}

impl PresetFrames {
    pub fn default() -> (f: PresetFrames)
        ensures
            f == (PresetFrames { start: PresetPos { x: 0, y: 0 }, end: PresetPos { x: 0, y: 0 }, tileset: 0 }),
    {
        PresetFrames { start: PresetPos { x: 0, y: 0 }, end: PresetPos { x: 0, y: 0 }, tileset: 0 }
    }

    /// The number of tile columns and rows of the frame's rectangle.
    pub fn size(&self) -> (r: (usize, usize))
        ensures
            r.0 == span(self.start.x, self.end.x),
            r.1 == span(self.start.y, self.end.y),
    {
        let w: usize = if self.start.x >= self.end.x {
            (self.start.x - self.end.x) as usize + 1
        } else {
            (self.end.x - self.start.x) as usize + 1
        };
        let h: usize = if self.start.y >= self.end.y {
            (self.start.y - self.end.y) as usize + 1
        } else {
            (self.end.y - self.start.y) as usize + 1
        };
        (w, h)
    }
}

/// A named way of drawing: its type and up to four frames.
#[derive(Clone, Debug)]
pub struct PresetData {
    pub name: String,
    pub draw_type: PresetTypeList,
    pub frames: [PresetFrames; 4],
}

impl PresetData {
    pub fn default() -> (d: PresetData)
        ensures
            d.name@ == Seq::<char>::empty(),
            d.draw_type == PresetTypeList::Normal,
            forall|i: int| 0 <= i < 4 ==> #[trigger] d.frames[i] == (PresetFrames {
                start: PresetPos { x: 0, y: 0 },
                end: PresetPos { x: 0, y: 0 },
                tileset: 0,
            }),
    {
        let f = PresetFrames::default();
        PresetData { name: String::new(), draw_type: PresetTypeList::Normal, frames: [f, f, f, f] }
    }
}

/// The presets, and the tile ids of the one selected.
#[derive(Debug)]
pub struct Presets {
    pub data: Vec<PresetData>,
    pub selected_preset_tiles: Vec<usize>,
}

impl Presets {
    /// Stores preset `index` as edited: its name, type and frames.
    pub fn store_preset(&mut self, index: usize, name: String, draw_type: PresetTypeList, frames: [PresetFrames; 4])
        requires
            index < old(self).data@.len(),
        ensures
            final(self).data@ == old(self).data@.update(index as int, PresetData { name, draw_type, frames }),
            final(self).selected_preset_tiles == old(self).selected_preset_tiles,
    {
        self.data.set(index, PresetData { name, draw_type, frames });
    }
}

/// Size in pixels of a tile on a tile sheet.
pub const TEXTURE_SIZE: u32 = 20;

/// Rows of tiles on a tile sheet.
pub const TILESET_COUNT_Y: u32 = 20;

/// The sheet cell of a frame's first tile, counted from the bottom row of the sheet: the
/// frame's left column, and the row of its top (0 when that lies past the sheet).
pub open spec fn sheet_origin(f: PresetFrames) -> (int, int) {
    let x = if f.start.x <= f.end.x {
        f.start.x
    } else {
        f.end.x
    };
    let y = if f.start.y <= f.end.y {
        f.start.y
    } else {
        f.end.y
    };
    (x as int, if y <= TILESET_COUNT_Y - 1 {
        TILESET_COUNT_Y - 1 - y
    } else {
        0
    })
}

/// The sheet cell of a frame's first tile (see [`sheet_origin`]).
pub fn frame_sheet_origin(f: &PresetFrames) -> (r: (u32, u32))
    ensures
        r.0 == sheet_origin(*f).0,
        r.1 == sheet_origin(*f).1,
{
    let x = if f.start.x <= f.end.x {
        f.start.x
    } else {
        f.end.x
    };
    let y = if f.start.y <= f.end.y {
        f.start.y
    } else {
        f.end.y
    };
    let top: u32 = TILESET_COUNT_Y - 1;
    (x as u32, if (y as u32) <= top {
        top - y as u32
    } else {
        0
    })
}

/// The columns and rows of sheet cells a frame covers: its rectangle, or the five by three
/// cells of an autotile sheet.
pub open spec fn frame_cells_size(f: PresetFrames, autotile: bool) -> (int, int) {
    if autotile {
        (5, 3)
    } else {
        (span(f.start.x, f.end.x), span(f.start.y, f.end.y))
    }
}

/// The sheet cells of a frame whose tile ids a preset uses, among the first `n` cells taken
/// column by column from the origin, each column downward: every cell of its rectangle, or of
/// the autotile sheet but the two blank cells right of its first row.
pub open spec fn frame_cells_upto(f: PresetFrames, autotile: bool, n: int) -> Seq<(u32, u32)>
    decreases n,
{
    if n <= 0 {
        Seq::empty()
    } else {
        let h = frame_cells_size(f, autotile).1;
        let o = sheet_origin(f);
        let k = n - 1;
        let rest = frame_cells_upto(f, autotile, n - 1);
        if autotile && k % h == 0 && k / h > 2 {
            rest
        } else {
            rest.push(((o.0 + k / h) as u32, (o.1 - k % h) as u32))
        }
    }
}

/// The sheet cells of a frame whose tile ids a preset uses (see [`frame_cells_upto`]).
pub open spec fn frame_cells(f: PresetFrames, autotile: bool) -> Seq<(u32, u32)> {
    let (w, h) = frame_cells_size(f, autotile);
    frame_cells_upto(f, autotile, w * h)
}

/// The sheet cells of a frame whose tile ids a preset uses (see [`frame_cells_upto`]); the
/// frame's rows must lie on the sheet.
pub fn preset_frame_cells(f: &PresetFrames, autotile: bool) -> (r: Vec<(u32, u32)>)
    requires
        sheet_origin(*f).1 + 1 >= frame_cells_size(*f, autotile).1,
    ensures
        r@ == frame_cells(*f, autotile),
{
    let (ox, oy) = frame_sheet_origin(f);
    let (w, h): (usize, usize) = if autotile {
        (5, 3)
    } else {
        f.size()
    };
    let mut r: Vec<(u32, u32)> = Vec::new();
    let wl: u64 = w as u64;
    let hl: u64 = h as u64;
    assert(wl * hl <= 0x1_0000 * 0x1_0000) by (nonlinear_arith)
        requires
            wl <= 0x1_0000,
            hl <= 0x1_0000,
    ;
    let n: u64 = wl * hl;
    let mut k: u64 = 0;
    while k < n
        invariant
            k <= n,
            n == wl * hl,
            wl == frame_cells_size(*f, autotile).0,
            hl == frame_cells_size(*f, autotile).1,
            hl >= 1,
            wl <= 0x1_0000,
            ox == sheet_origin(*f).0,
            oy == sheet_origin(*f).1,
            oy + 1 >= hl,
            ox <= 0xffff,
            r@ == frame_cells_upto(*f, autotile, k as int),
        decreases n - k,
    {
        let x = k / hl;
        let y = k % hl;
        proof {
            assert(x < wl) by (nonlinear_arith)
                requires
                    k < wl * hl,
                    hl >= 1,
                    x == k / hl,
            ;
        }
        if !(autotile && y == 0 && x > 2) {
            r.push((ox + x as u32, oy - y as u32));
        }
        k = k + 1;
    }
    r
}

} // verus!
