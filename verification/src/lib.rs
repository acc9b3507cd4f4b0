//! A word-guessing game for the terminal: the rules of the game, the
//! grammar of its commands, the texts shown to the player and a
//! scoreboard. The contracts are proved by Verus; what is taken on trust
//! from code outside this crate says so where it stands.

pub mod errors;
pub mod text;
pub mod input;
pub mod game;
pub mod tui;
pub mod scoreboard;
