# bof

The rules of the world and of its presentation, verified with Verus: what a
terrain cell is made of, where grass grows and how the meadow's chunk grid
rolls, which clip presents the player, how the crags and the terrain are
triangulated, and the architecture laws checked over the source text.

## Layout

- `src/` is the library. Every function in it carries a contract that Verus
  proves; the laws that relate several functions are public proof functions
  next to them.
  - `terrain_kind`, `grass_cover`, `terrain_grid`, `terrain_mesh`: the
    semantic terrain layer, the grass rule and the grid topology.
  - `scatter`, `catalog`, `tree_visuals`: the forest's deterministic scatter,
    the appearance catalog and the proxy/detailed representation swap.
  - `meadow_roll`, `ring_records`, `index_mesh`, `grass_plan`, `grass_debug`:
    the rolling grid of meadow chunks, the record buffer's slot book, the
    shared index mesh, what a chunk plants, and the diagnostic views.
  - `animation_roles`, `animation_graph`: semantic clip roles, the clip-name
    contract and the fallback chain; merging the clip libraries and the
    per-frame decision that compiles the player's graph.
  - `census`: the scene census that attributes triangles and draws.
  - `icosphere`: the crags' sphere topology.
  - `cascades`: the shadow cascade count.
  - `text`, `source_rules`: searching source text, and the architecture laws.
- `tests/` runs the library on concrete values.
- `app/` is the engine side: reading files and the environment, conversions to
  engine types, and the floating-point presentation arithmetic.
