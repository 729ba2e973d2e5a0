//! The chess core: shared types, the notation decoder and the move rules.

pub mod end_of_game_type;
pub mod game;
pub mod game_state;
pub mod grammar;
pub mod piece_move;
pub mod piece_type;
pub mod position;
pub mod rules;
pub mod moving;
pub mod notation;
pub mod text;
