# game

A falling-block puzzle game whose rules are written in Verus and proved.

- `src/tetris_core` holds the board, pieces, gravity, lock delay, line clears,
  the depth walls and the growing materials, with the core's well-formedness.
- `src/skilltree` holds the skill tree: its definition, normalisation, the
  unlock state and the run modifiers it yields.
- `src/headful` holds the per-frame logic of the windowed client: view
  transitions, the keyboard step, the skill-tree editor's keys, the frame's
  start and end (auto-repeat, round clock, gravity clock).
- `src/background` and `src/gpu_renderer.rs` compute what is drawn (tile
  layers, board outline) as plain rectangles.
- `app/` holds what the verifier does not see: file storage, serde models,
  timing, and a scripted session that drives the library.
- `tests/` runs the library on concrete values.
