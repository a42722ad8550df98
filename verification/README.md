# snake_game

A terminal snake game whose rules are proved with Verus.

- `src/geometry.rs` — board cells, directions, keys.
- `src/npc.rs` — enemy snakes: placement and the frame-by-frame movement.
- `src/game.rs` — a round: the player's move and its collisions, food,
  enemy spawning, resizing, the key stack and the speed.
- `src/session.rs` — the program's state machine driven by frames and keys.
- `src/render.rs` — which glyph and colour every cell gets, blinking and
  flashing over time, panel and overlay placement, effect fading.
- `src/laws.rs` — properties that span several operations.
- `src/random.rs` — the single trusted call into `rand`.
- `app/main.rs` — the crossterm front end: input, clock, drawing and the
  floating-point particle animation.

Times are milliseconds on one monotonic clock supplied by the front end.
