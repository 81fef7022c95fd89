# celestial

The decision logic of a celestial game engine (planets drawn as icosphere
segments at several levels of detail, a remote command protocol, game stages),
written in Verus with its behaviour stated in contracts and proved.

## Layout

- `src/` — the verified library:
  - `lod.rs`: level-of-detail planning for icosphere segments, the terrain and
    water bookkeeping of loaded segments, and the laws of planning.
  - `celestial_hierarchy.rs`: the set of bodies being rendered, kept in step
    with the bodies the simulation names each frame, the order they are drawn
    in, and a frame's preload pass over them.
  - `meshes.rs`: the meshes being rendered per mesh component, and which are
    made, kept and dropped each frame.
  - `recording.rs`: the steps of recording a frame's drawing commands, with
    the bodies drawn nearest first.
  - `icosphere.rs`: the icosphere metadata format, segment file paths and
    decompression (through the `brotli` crate), and per-segment draw decisions.
  - `remote_api.rs`: routing of remote commands, their replies and errors,
    and emptying and answering the inbox.
  - `json_comments.rs`: removal of `//` comments from JSON text (through the
    `regex` crate).
  - `stages.rs`, `game.rs`, `config.rs`: the stage stack, the game loop's
    per-frame actions (shader recompiles, events sent, cursor), and the
    global configuration.
  - `text.rs`: character and decimal utilities the rest builds on.
- `tests/` — tests of the library on concrete values.
- `app/` — ordinary Rust around the library: command-line parsing, file
  reading, floating-point geometry, camera steering and timing, the remote message loop and the
  per-frame mesh bookkeeping driven with device-side mesh creation.
