//! Verified core of a tile map editor: the map data model, the editing
//! operations (paint, fill, autotiles, attributes, zones, direction blocks),
//! the undo/redo history, the bookkeeping of unsaved maps, and the decisions
//! the editor takes on mouse, keyboard, menu and alert input.

pub mod enums;
pub mod map_data;
pub mod unsaved;
pub mod editor;
pub mod fill;
pub mod stroke;
pub mod presets;
pub mod paint;
pub mod autotile;
pub mod mapedit;
pub mod alert;
pub mod input;
pub mod session;
pub mod properties;
pub mod files;
pub mod list;
pub mod text;
pub mod edit;
