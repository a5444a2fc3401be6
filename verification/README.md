# tetris

A falling-block puzzle game for several players, at one machine or over the
network. The game logic is a library whose functions carry contracts proved
with Verus; the program around it (window, input, files, sockets) is in
`app/`.

## Layout

- `src/` — the verified library
  - `vec2`, `block`, `mino`: vectors, block colours, pieces and their quarter
    turns about a centre kept doubled so that every turn is exact.
  - `well`: the well, an `array2d::Array2D` reached through a few trusted
    calls whose contracts speak of its shape and cells.
  - `game`: moves, turns with the push back from the walls, collisions, the
    landing preview, laying pieces and clearing full rows.
  - `rng`: the piece generators; the fair one hands out shuffled bags of all
    seven kinds.
  - `unit`, `unit_commands`: one player's game and the commands that drive it
    (gravity, line clears, garbage lines, storing, the game of life).
  - `mino_controller`, `config`: input binds and the controller that turns
    input events into commands, frame by frame; reading the settings out of
    the configuration file's TOML text, parsed by the `toml` crate.
  - `room`, `session`, `frame`: players, starting games, the end of a game,
    and the per-frame bookkeeping and command queues.
  - `lenio`, `network`: length-prefixed messages and the relay of messages
    between clients.
  - `ui`, `transform2`: menus, screen layout and a small matrix type.
  - `ready`: run-time checks of the conditions the commands need, for callers
    that cannot prove them.
- `tests/` — tests of the library.
- `app/` — the SDL program: drawing, text, reading the configuration file
  and looking up its key and button names in SDL, the save file, sockets,
  and the serialisable copies of the library's types.
