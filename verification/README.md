# rlbot_rocketsim

Conversions and stateful enrichment between RLBot v5 packets and RocketSim,
with the discrete rules verified in Verus.

- `src/` — the verified library:
  - `body`: Rocket League car product IDs and their hitbox families.
  - `match_context`: match configuration checks (game mode, duplicate
    participants, unknown loadouts) and the body each packet player must have.
  - `enrich`: packet validation, the player layout that ties participants to
    simulated cars, and the frame/phase rules for rebuilding the arena,
    discarding history and advancing the simulation.
  - `to_rlbot`: air state, dodge-timeout, naming and validation rules used when
    a simulated car is reported as an RLBot player.
  - `game`: teams, air states and match phases.
  - `arena`: what the layout rules read of a RocketSim arena, and carrying
    out a plan on it (a fresh arena on rebuild, then each new car with its
    team and body).
- `app/` — the arena owner and the float-valued conversions (physics, timers,
  hitbox tolerances, boost pad cooldowns) around the library, against the
  `rlbot` and `rocketsim` crates.
- `tests/` — tests of the library.
