# let_engine

The data model of a 2D game engine, written in Verus: each function states its behaviour in
`requires`/`ensures` and Verus proves it.

- `src/resources`: texture formats and their block layouts, textures (buffer sizes of mip
  chains, construction from raw, filled, empty and decoded image data, resizing), models,
  buffers and materials.
- `src/objects`: the scene graph (layers, views and objects kept in `slotmap` arenas, with
  removal of whole subtrees) and the descriptor checks of appearances.
- `src/assets.rs`, `src/packing.rs`: the asset system; the cache of packed asset groups, the
  splitting of assets into group files, their encoding and their compression.
- `src/sound.rs`, `src/shared.rs`: shared byte data.
- `app/`: what Verus does not see: file and environment access for the asset system and the
  packer, floating point colors, material settings, transforms, camera scaling, the audio
  interface and generated audio, the traits of what a graphics backend has loaded, the
  networking backend interface, and the per-object data of a scene.
- `tests/`: tests of the library.

The public `law_*` proof functions state properties that span several functions, such as that
packed assets read back from the cache once their group file is loaded, or that the sections
of a packed group hold each asset exactly once.
