# brainworms

The logic of a small theatrical game engine, written in Verus and proved
against its contracts.

`src/` is the verified library:

- `fireworks`: the `{tag}` markup for animated text, read into labels and
  their styles.
- `kinesis`: the glyph effects (sine wave, shaking letters, rainbow) and the
  per-glyph shifts and colours they give each frame.
- `color`, `text`: colours and small string helpers.
- `audio`: the audio command router, the playback backend's bookkeeping, the
  registry of rendered jingles, and worker generations.
- `input`: key and mouse button states and input bindings.
- `frame_loop`: what each window event does to the surface, the loop's
  control mode and the game.
- `scene_graph`: breadth-first ordering of a scene's node hierarchy.
- `play`: the play, its scenes and their cameras.
- `settings`: reading the renderer's command-line option values.
- `derive_input`: the argument grammar of the scene derive.

`app/` holds what runs around it: the command line, logging, the egui
widget that draws animated labels, and the audio threads.
