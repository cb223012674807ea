# Stackline

A falling-block puzzle game for the WASM-4 fantasy console, written in
Verus. The library holds the whole game and proves it:

- `src/types.rs` – constants, pieces, styles, modes and sound cues.
- `src/shapes.rs` – the seven tetrominoes in their four rotations.
- `src/board.rs` – where a piece fits, locking it into the board, full rows
  and collapsing cleared rows, with proofs.
- `src/demo.rs` – how the title-screen demo rates placements and picks the
  best one.
- `src/model.rs` – the game as a mathematical state machine: one spec
  function per step of a frame.
- `src/game.rs` – the executable `Game`; every method is proved equal to
  its step in the model.
- `src/laws.rs` – what every frame keeps true: the falling piece fits
  (in play and in the title demo), locked blocks keep their colours, no row
  is full outside a line clear and a line cue counts one to four rows, the
  score never passes the hi score, a save is asked for exactly when the hi
  score rises, and the hi score never steers play.
- `src/save.rs` – the eight-byte hi-score storage format.
- `src/audio.rs`, `src/display.rs` – the music and sound cues, and the
  drawing decisions (line-clear wipe, outlines, number text).

`app/` is the cartridge around it: console bindings, the `start`/`update`
entry points, drawing and sound output, and the disk reads and writes.
