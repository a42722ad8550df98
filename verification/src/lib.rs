//! A terminal snake game: board geometry, the player and enemy snakes, the
//! rules that advance a round, the session state machine driven by key
//! presses, and the decisions behind what each screen cell shows.
//! Terminal I/O, timing sources and floating-point particle motion live in
//! the application crate around this library.

pub mod geometry;
pub mod game;
pub mod laws;
pub mod npc;
pub mod random;
pub mod render;
pub mod session;
