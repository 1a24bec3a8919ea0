use vstd::prelude::*;

verus! {

/// Kinds of mouse events the editor reacts to.
#[derive(Clone, Copy, PartialEq, Eq, Structural, Debug)]
pub enum MouseInputType {
    DoubleLeftDown,
    DoubleRightDown,
    LeftDown,
    LeftDownMove,
    RightDown,
    RightDownMove,
    MiddleDown,
    MiddleDownMove,
    Move,
    Release,
}

/// The text box that currently receives keyboard input.
#[derive(Clone, Copy, PartialEq, Eq, Structural, Debug)]
pub enum SelectedTextbox {
    Unselected,
    SampleTextbox,
    AttrContent,
    ZoneTextbox,
    MapPosTextbox,
}

/// The meaning of a list index for [`SelectedTextbox`].
pub open spec fn selected_textbox_of(index: usize) -> SelectedTextbox {
    match index {
        1 => SelectedTextbox::SampleTextbox,
        2 => SelectedTextbox::AttrContent,
        3 => SelectedTextbox::ZoneTextbox,
        4 => SelectedTextbox::MapPosTextbox,
        _ => SelectedTextbox::Unselected,
    }
}

impl SelectedTextbox {
    pub fn from_index(index: usize) -> (r: Self)
        ensures
            r == selected_textbox_of(index),
    {
        match index {
            0 => SelectedTextbox::Unselected,
            1 => SelectedTextbox::SampleTextbox,
            2 => SelectedTextbox::AttrContent,
            3 => SelectedTextbox::ZoneTextbox,
            4 => SelectedTextbox::MapPosTextbox,
            _ => SelectedTextbox::Unselected,
        }
    }
}

/// Drawing tools of the tool bar.
#[derive(Clone, Copy, PartialEq, Eq, Structural, Debug)]
pub enum ToolType {
    Move,
    Paint,
    Eraser,
    Fill,
    Picker,
    Count,
}

/// The meaning of a tool bar index.
pub open spec fn tool_of(index: usize) -> ToolType {
    match index {
        1 => ToolType::Paint,
        2 => ToolType::Eraser,
        3 => ToolType::Fill,
        4 => ToolType::Picker,
        _ => ToolType::Move,
    }
}

impl ToolType {
    /// Position of the tool on the tool bar.
    pub open spec fn index(self) -> usize {
        match self {
            ToolType::Move => 0,
            ToolType::Paint => 1,
            ToolType::Eraser => 2,
            ToolType::Fill => 3,
            ToolType::Picker => 4,
            ToolType::Count => 5,
        }
    }

    pub fn from_index(index: usize) -> (r: Self)
        ensures
            r == tool_of(index),
    {
        match index {
            1 => ToolType::Paint,
            2 => ToolType::Eraser,
            3 => ToolType::Fill,
            4 => ToolType::Picker,
            _ => ToolType::Move,
        }
    }
}

/// Tabs of the side window.
#[derive(Clone, Copy, PartialEq, Eq, Structural, Debug)]
pub enum TabButton {
    Tileset,
    CustomTiles,
    Attributes,
    Zones,
    DirBlock,
    Weather,
    Music,
    Count,
}

/// The meaning of a side window tab index.
pub open spec fn tab_of(index: usize) -> TabButton {
    match index {
        1 => TabButton::CustomTiles,
        2 => TabButton::Attributes,
        3 => TabButton::Zones,
        4 => TabButton::DirBlock,
        5 => TabButton::Weather,
        6 => TabButton::Music,
        _ => TabButton::Tileset,
    }
}

impl TabButton {
    /// Position of the tab in the side window.
    pub open spec fn index(self) -> usize {
        match self {
            TabButton::Tileset => 0,
            TabButton::CustomTiles => 1,
            TabButton::Attributes => 2,
            TabButton::Zones => 3,
            TabButton::DirBlock => 4,
            TabButton::Weather => 5,
            TabButton::Music => 6,
            TabButton::Count => 7,
        }
    }

    pub fn from_index(index: usize) -> (r: Self)
        ensures
            r == tab_of(index),
    {
        match index {
            1 => TabButton::CustomTiles,
            2 => TabButton::Attributes,
            3 => TabButton::Zones,
            4 => TabButton::DirBlock,
            5 => TabButton::Weather,
            6 => TabButton::Music,
            _ => TabButton::Tileset,
        }
    }
}

/// Every real tool is found again from its tool bar index.
pub proof fn lemma_tool_index_roundtrip(t: ToolType)
    requires
        t != ToolType::Count,
    ensures
        tool_of(t.index()) == t,
{
}

/// Every real tab is found again from its index.
pub proof fn lemma_tab_index_roundtrip(t: TabButton)
    requires
        t != TabButton::Count,
    ensures
        tab_of(t.index()) == t,
{
}

/// The nine layers of a map, from the ground up.
#[derive(Clone, Copy, PartialEq, Eq, Structural, Debug)]
pub enum MapLayers {
    Ground,
    Mask,
    Mask2,
    Anim1,
    Anim2,
    Anim3,
    Anim4,
    Fringe,
    Fringe2,
    Count,
}

impl MapLayers {
    /// The position of the layer, from the ground (0) up.
    pub open spec fn index(self) -> usize {
        match self {
            MapLayers::Ground => 0,
            MapLayers::Mask => 1,
            MapLayers::Mask2 => 2,
            MapLayers::Anim1 => 3,
            MapLayers::Anim2 => 4,
            MapLayers::Anim3 => 5,
            MapLayers::Anim4 => 6,
            MapLayers::Fringe => 7,
            MapLayers::Fringe2 => 8,
            MapLayers::Count => 9,
        }
    }
}

/// The layer at a position; positions past the top give the ground.
pub fn convert_index_to_maplayers(index: usize) -> (l: MapLayers)
    ensures
        index < 9 ==> l.index() == index,
        index >= 9 ==> l == MapLayers::Ground,
{
    match index {
        1 => MapLayers::Mask,
        2 => MapLayers::Mask2,
        3 => MapLayers::Anim1,
        4 => MapLayers::Anim2,
        5 => MapLayers::Anim3,
        6 => MapLayers::Anim4,
        7 => MapLayers::Fringe,
        8 => MapLayers::Fringe2,
        _ => MapLayers::Ground,
    }
}

} // verus!
