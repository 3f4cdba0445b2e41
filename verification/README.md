# epar

The verified core of *Exclusively Polygons Alongside Rhythms*, a rhythm game
in which the player dodges lasers, bombs and shapes timed to a song.

- `src/` is the library, written in Verus: a byte reader, the triangle index
  lists of the polygon presets and the choice of triangles a polygon draws,
  the level builder and the sweep that drops finished obstacles, the region
  table of circle-against-box collision, the cursors over beat schedules, and
  the hit-point rule of the player. Each function carries its contract, and
  the `law_*` proof functions state what holds across calls.
- `tests/` runs the library on concrete values.
- `app/` is the game itself: drawing with macroquad, audio with soloud, the
  floating-point geometry and timing, and the level data. It calls the
  library for every decision above.
