# poclimon

A terminal virtual pet: up to six Pokémon-style creatures wander a shared
pen, eat, sleep, play and level up. Sprites come from the PMDCollab
SpriteCollab repository.

- `src/` is the library, written in Verus: the creature roster, the
  AnimData.xml parser, animation timing, the configuration document and its
  validation, sprite-sheet cutting, scaling and normalization, the loader
  that decodes a creature's sprite sheets and builds its frames, keyboard
  controls, roster changes, notifications, the pen's layout and the title
  art of the splash screen. Each public function carries a contract that
  Verus proves; the laws that relate several functions are proof functions
  named `law_*`.
- `app/` is the terminal program around it: argument parsing, files,
  downloads, threads, drawing with ratatui, and the floating-point movement
  of the creatures.
- `tests/` runs the library on concrete values.
