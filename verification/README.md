# Druum

The rules of a first-person, grid-based dungeon crawler in the style of
Wizardry, written in Verus: every rule is a function with a contract, and
Verus proves each function against it.

## Layout

- `src/` — the verified library.
  - `character.rs` — derived stats, status effects and the predicates on them.
  - `combat/` — status-effect rules, damage and spell damage, targeting,
    enemy behaviour, the action queue and its speed order, round resolution,
    the combat menu, the once-only report of known spells that name no
    spell, encounters and enemy animation frames.
  - `dungeon/` — the floor grid and its walls, movement and doors, cell
    features (traps, teleporters, spinners, anti-magic zones), the plan of the
    floor's geometry, and arriving on a floor.
  - `data/` — the game-data tables (items, spells, enemies, encounters,
    classes, races, skill trees, town stock) and the clamps and lookups on them.
  - `game.rs` — the top-level states, music per state and key bindings.
  - `rng.rs` — the draws from `rand`, each behind a small function whose
    contract states what holds of every outcome.
  - `ecs.rs` — the engine's text for an entity identifier, behind one small
    function whose contract states that text.
  - `text.rs` — decimal rendering used by messages.
- `tests/` — scenarios on concrete values, one `#[test]` each.
- `app/` — the Bevy program: it loads the RON data files, runs the schedule,
  reads the keyboard and writes the library's results back into the world.
  Single-precision arithmetic (damage variance, tick scaling, the random
  encounter chance, tweens) lives there.

## Laws

Besides each function's contract, `src/` states properties that relate
several calls, as public proof functions (their names start with `lemma_`):
applying a status effect keeps effect types unique and refreshes to the higher
potency, re-applying a permanent effect changes nothing, ticking keeps
lasting effects, the combat log never exceeds its capacity, opening a door
twice restores it, turning left undoes turning right, a spinner always turns
the party, a requested step never turns the party and a blocked step leaves
it where it was, distinct door edges have distinct keys, refilling the locked
doors from the same floor gives the same locks, the geometry of any floor has
two slabs per cell plus one plate per drawn face, collecting the party's
actions only adds to what was committed and ends with every member served, a
missing spell is reported once per member, and, when every prerequisite names
a node, a skill tree validates exactly when its prerequisite graph has no
cycle.
