# bxt_rs: GoldSrc engine state recording

A library that records the state of the GoldSrc engine frame by frame into a
compact binary file, sending for each object only what changed since the last
frame, with its behaviour stated in contracts and proved with Verus.

## Layout

- `src/` — the verified library.
  - `float_bits`, `bytes`, `c_str` — floats held as bit patterns, the byte
    encoding of scalars, NUL-terminated names.
  - `fields`, `players`, `objects`, `decals`, `message` — what a recording
    sends and its encoding.
  - `snapshot` — the engine state a frame reads, as plain values.
  - `recorder` — what a recording remembers between frames and how a frame
    becomes its messages (`Recorder::init`, `Recorder::record_frame`,
    `Recorder::can_record_frame`).
  - `gsr` — the start/stop commands and the per-frame decision.
  - `force_emit` — `bxt_force_emit_viewentity_player`.
  - `change_list` — a lighter change list of raw field bytes.
  - `beam_links` — what a beam entity is attached to and whether it draws.
  - `settle`, `entity_settle`, `beam_settle`, `frame_settle` — proofs that
    recording the same state twice sends nothing the second time and leaves
    the recorder as it was.
  - `draw_seen`, `numbering` — proofs that after every frame each object is
    drawn exactly when it was seen, and that objects keep their numbers.
  - `frame_messages`, `hiding` — proofs about what a frame sends: each new
    entity is kept where its number says, and exactly one message hides each
    object whose drawing the frame turned off.
- `tests/` — tests on concrete values.
- `app/` — the engine-facing side: the recording file, console output, and
  the floating-point geometry of beam entities.
