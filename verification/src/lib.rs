//! Decoding of algebraic chess notation into typed move intents, and the
//! rules that decide whether a proposed move may be attempted at all.

pub mod game;
