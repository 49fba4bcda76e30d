# triskelion

Server-authoritative rules of a multiplayer action RPG, proved with Verus,
and the headless Bevy/Lightyear server that drives them.

- `src/` — the verified library:
  - `minigame/` — the Physical class minigames: the arc streak and commit
    lockout (`arc`, `commit_tracker`), the Tank/Healer bonus cube (`cube`) and
    the Duelist traversal grid (`grid`);
  - `combat` — stance transitions, input routing to the minigames, the
    Intercessor crit streak;
  - `damage` — damage routing, which healers ward a hit, in-combat tests,
    combat-log audiences;
  - `instances` — the registry of live instances per group and mob spawn plans;
  - `chat` — party chat lines and their audience;
  - `rng` — the SplitMix64 scramble behind gameplay rolls.
  Floating-point quantities (qualities, magnitudes, timers) pass through the
  library as a generic scalar `F` that the rules never inspect.
- `tests/` — executable tests of the library, with `F = f32`.
- `app/` — the server: networking, ECS systems, terrain, enemy AI and every
  floating-point formula, calling the library for each rule.
