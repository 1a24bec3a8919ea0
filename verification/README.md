# mapeditor

The editing core of a tile map editor, written in Verus and verified.

- `src/` is the verified library: the map model (`map_data`), the undo and redo history and
  stroke recording (`editor`, `stroke`), the editing operations (`paint`, `fill`, `autotile`,
  `mapedit`, `properties`), presets (`presets`), the editor's input decisions and widgets'
  state (`input`, `alert`, `list`), the bookkeeping of unsaved maps and leaving the editor
  (`session`, `unsaved`), file names (`files`) and the reading of typed numbers (`text`).
- `app/` reads and writes the map, preset and settings files and runs the steps of the editor
  that do so, around the library.
- `tests/` runs the library on concrete maps.
