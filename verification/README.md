# thedes

The logic of a small tile-based game, written in Verus with its contracts
proved.

- `src/geometry`: coordinates, pairs of coordinates, rectangles, axes and
  directions, and the point-keyed map and graph.
- `src/entity`: a registry that hands out increasing identifiers.
- `src/ecs`: an entity component system. Its tick runs each system, in
  creation order, on every entity that carries the system's components: the
  runner gets the entity's current values, and what it leaves in the entries
  is written back. A runner states what it does through `runs` (or
  `typed_runs` for a typed runner), and a tick is stated over what the
  world's records of its systems say through `runs`. The world keeps its
  runners as boxed trait objects. What Verus knows of a runner survives
  being boxed only where the runner's type is known, and survives moves of
  the box only by swapping it into place; so `create_system_boxed` takes a
  runner boxed by the caller and states that the new system runs as it,
  while the generic `create_system` and `create_system_raw` leave the runner
  unsaid. The game of `domain::game2` creates its systems the boxed way, and
  its tick is stated down to where the head ends up.
- `src/domain`: the game itself: the map and its layers, blocks, grounds and
  biomes, the player, monsters, items, thedes, time and the game kept in the
  component system.
- `src/gen`: generation of the map: regions of biomes, grounds that follow
  biomes, sparse points, events, and the progress of it all.
- `src/ratio.rs`: exact ratios of unsigned integers.
- `app/`: what cannot be verified: floating-point draws, shared progress
  behind a lock, and the generation driver.
- `tests/`: tests of the library from the outside.

Random draws go through `rand` and `rand_chacha`. Their contracts say only
what holds whatever the generator gives. A seed fixes the generator
(`create_reproducible_rng`), but no contract states that the same generator
gives the same map.
