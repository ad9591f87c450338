# ummerse

The verified core of a 2D/3D game engine and its editor, written in Verus.

- `src/` is the library. Every function in it is verified against its
  `requires`/`ensures` contract: the scene tree (paths, removal, reparenting,
  duplication, traversal), node paths and types, input actions, plugins and
  the engine's lifecycle, signals, assets and loaders, the editor's panels,
  command palette, console and AI-assistant state, the engine tools and their
  registry, text search of the search-files tool, the MCP request routing, audio bus routing order, tile maps and
  trigger areas, collision-contact bookkeeping, and HTML color codes. Laws that relate
  several calls stand as public `law_*` proof functions.
- `app/` is the shell around it: files, the host platform, JSON encodings,
  async tool execution, the MCP stdio server, and everything that runs on
  floating-point values (time, colors, geometry, meshes, materials, physics
  shapes) or on type-erased storage.
- `tests/` exercises the library from outside.

Maps keyed by text (the scene tree's path cache, commands, embedded assets,
tools, signals) are kept as vectors of entries whose contracts are stated
over `Map`/`Seq` models, with the invariant that keys are distinct and, for
the path cache, that insertion order is kept.

The calls into `uuid`, `serde_json` and std that the library makes go through
a few small `#[verifier::external_body]` functions, each documenting what its
contract claims of the outside code.
