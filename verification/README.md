# fow_core

Fog of war for a turn-based hex strategy game, verified with Verus.

- `types`, `map`, `unit`, `state`, `event`: the game data the fog reads: hex
  positions and their distance, the terrain grid, units and unit types, the
  game state, and the game's events.
- `fow`: what one player sees of the map (`Fow`), how a unit sees a tile
  (`calc_visibility`), when a unit is seen (`is_visible`), and how each event
  changes the player's view (`apply_event`). A unit's line-of-sight walk is
  given to `apply_event` as the tiles it reached (`Sight`), in the order that
  `sight_requests` names.
- `filter`: what each player is told of an event (`filter_events`), which
  enemies a player sees (`get_visible_enemies`), and the show/hide events for
  enemies that came into or left sight on their own
  (`show_or_hide_passive_enemies`).
- `fow_laws`, `filter_laws`: properties proved of the above.
- `full_state`: the game state seen through a fog that hides nothing.
