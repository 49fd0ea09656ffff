# playable_bosses

The per-frame logic of two boss mods for a fighting game, verified with Verus:
one lets a player steer Marx, the other Dracula, while the fighter that stands
for the player is hidden inside the boss.

- `src/` is the verified library.  `measure` holds single-precision game
  values by their bits and compares them as IEEE-754 does; `command` holds what
  a frame reads from the game (`Sample`) and what it asks of it (`Command`);
  `player` finds a player's number and reads the player's tag; `marx` and
  `dracula` are the two mods, each a state shared by all fighters' frames and
  a set of phases, each phase specified by a spec function and accompanied by
  proved laws.
- `app/` holds the frame hooks: they read the game before each phase, call
  the library, and carry out the commands it returns.
- `tests/` runs the library on concrete frames.
