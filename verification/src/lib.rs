//! Rules and state of a two-player Stratego server and its browser client:
//! the board model, move validation, what each player is allowed to see,
//! game setup, the matchmaking pool, the client's views and socket, and the
//! client's generated assets.

pub mod constants;
pub mod models;
pub mod text;
pub mod game_logic;
pub mod board_utils;
pub mod ids;
pub mod play;
pub mod pool;
pub mod channels;
pub mod display;
pub mod view;
pub mod socket;
pub mod sheet;
pub mod graphics;
pub mod assets;
pub mod laws;
