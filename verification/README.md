# snake

A terminal snake game. The rules of play live in the verified library under
`src/`; the Bevy app that reads the terminal, paces the moves and draws the board
with ratatui lives under `app/`.

- `src/game.rs`: the world (`Game`) and its model (`GameView`), with the invariant
  `wf` that every reachable game keeps.
- `src/systems/`: one method per game system (movement, collision, food, input,
  lifecycle, scoring, render), each with a contract over the model.
- `src/schedule.rs`: `Game::new` and `Game::frame`, which run the systems of one
  frame in schedule order.
- `src/laws.rs`: properties across systems and frames (invariant preservation,
  no reversal, food only on free cells, collisions end the game, restart).
- `app/`: `main`, the Bevy plugin, the move timer and terminal drawing.
