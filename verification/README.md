# bad_pong

A two-player pong game whose grid logic is verified with Verus.

- `src/` is the verified library: rectangles on a fixed-point lattice
  (placement by anchor, containment, the collision measure) in
  `collision.rs`, and the score counter with its block-digit display in
  `score.rs`. Laws about placement, collision and containment are proof
  functions in `collision.rs`.
- `app/` is the window program: event loop, keyboard input, timers, random
  respawn, floating-point motion of the ball and paddles, and the pixel frame.
  It maps float positions onto the lattice (rounding down) when it asks the
  library about geometry.
- `tests/` runs the library on concrete values.
