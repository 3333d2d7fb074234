//! A codec for the line protocol of a turn-based robot arena.
//!
//! Each turn the engine sends one line: game data, the bots on the arena, and a payload of
//! the player's own. `Game::decode` reads it. The player answers with one line that gives an
//! order to each friendly bot and hands the payload back: `Game::encode` writes it. The two
//! formats differ on purpose: what comes in carries team, position and health, what goes
//! out carries position and action, for friendly bots only.
//!
//! Every decoder and encoder is specified by a function on sequences of characters, named
//! `spec_decode` or `spec_encode`, and proved to compute exactly that function.

pub mod action;
pub mod board;
pub mod bot;
pub mod direction;
pub mod error;
pub mod game;
pub mod position;
pub mod text;
pub mod theorems;
mod scan;

pub use crate::action::Action;
pub use crate::board::Board;
pub use crate::bot::{Bot, Team};
pub use crate::direction::Direction;
pub use crate::error::{DecodeError, ErrorKind};
pub use crate::game::Game;
pub use crate::position::Position;
