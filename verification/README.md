# aetherloom

The game core of a flying-wizard realm game: terrain, creatures, mana orbs,
balloons that ferry mana home, spells, keeps and the buffers the page renders
from.

`src/` is the verified library. It holds the core's bookkeeping on whole
numbers and the choices made from it, each function with a contract proved
by Verus; where a choice depends on a distance, the caller passes keys that
sort as the distances do:

- `grid` — the 320×320 heightfield, clamped cell reads, dirty-row tracking;
- `random` — the xorshift generator and the lattice, body and keep hashes;
- `spells` — the unlock table, prices, selection and cycling, cast gating;
- `creatures` — creature kinds and their tables, factions, hatch and trickle
  picks;
- `world` — creature, orb and projectile slots, balloon cargo, targets,
  direct hits, the Claim sweep, nest hatching, keep tiers, which wizards are
  alive and when a rival returns, minimap blips, the realm's outcome and
  set-up counts;
- `buffers` — fixed-stride record buffers and the particle ring;
- `minimap`, `mesh`, `keep`, `detail` — the minimap image, the index
  structure of the prototype meshes, keep tiers and banners, body detail.

Alongside the functions stand the laws proved of them (read after write on
the heightfield, the ring walk, a balloon carrying at most one orb, mesh
indices staying in range, and others), as public proof functions.

`app/` is ordinary Rust around the library: the `f32` side of the core
(terrain noise, camera matrices, mesh surface points, particles) and realm
set-up, with `libm` for the transcendental functions.

`tests/` runs the library on concrete values.
