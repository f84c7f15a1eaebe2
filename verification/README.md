# stratego

A server for two-player Stratego in the browser, with its game rules,
matchmaking and asset generation written as a library whose behaviour is
stated in contracts and proved with Verus.

## Layout

- `src/` — the verified library
  - `models.rs`, `constants.rs` — board, pieces, moves and the game record
  - `game_logic.rs` — move validation: turns, water, bombs and flags, scouts,
    attacks, the two-square rule
  - `board_utils.rs` — what each player is sent (the opponent's ranks hidden,
    the board turned for blue)
  - `play.rs` — creating, joining and playing games; request forms
  - `pool.rs` — the matchmaking pool: pairing, confirmation, expiry, leaving
  - `channels.rs` — socket subscription commands
  - `ids.rs`, `text.rs` — identifiers, time stamps and text helpers (the calls
    into `uuid`, `chrono` and std that the contracts trust)
  - `display.rs`, `view.rs`, `socket.rs` — what the browser client shows, how
    it reacts, and how it listens on its socket
  - `graphics.rs`, `sheet.rs`, `assets.rs` — recolouring the artwork, the
    style sheet that embeds it, the client's index page and tool version
  - `laws.rs` — properties that span several functions
- `tests/` — tests of the library
- `app/` — the server binary: HTTP handlers, storage on disk, web sockets,
  command line and the client build, around the library

Verus proves the library against its contracts; `cargo test` runs the tests.
