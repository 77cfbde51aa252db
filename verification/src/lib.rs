//! Core logic of a small first-person block sandbox.
//!
//! The library holds the state and the decisions of the game: the grid of
//! placed blocks, the cursor-focus state machine, and the discrete parts of
//! the character controller. Everything the host engine does — spawning and
//! despawning entities, raycasts, rendering, input polling — stays outside;
//! the engine hands plain values in and receives plain values back.

pub mod focus_handler;
pub mod player_controller;
pub mod world;
