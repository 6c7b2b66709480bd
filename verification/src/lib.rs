//! Decision logic of a bot that plays characters of the ArtifactsMMO game.
//!
//! The library holds the game model (characters, positions, errors, the
//! shapes of the game API's answers) and the behaviors that drive a
//! character. A behavior is a state machine: each step is a function of the
//! behavior's state, the character, the current instant and the replies to
//! the game actions requested so far in that step (see `effects`). The
//! program that owns the network connection performs the requested actions.

pub mod api;
pub mod behaviors;
pub mod characters;
pub mod effects;
pub mod errors;
pub mod shared;
pub mod time;
