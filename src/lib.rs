//! A terminal space-shooter core: a character-grid frame model, a minimal
//! diff renderer, an ordered frame channel between the game loop and the
//! render task, and the per-tick game rules.

pub mod frame;
pub mod render;
pub mod channel;
pub mod timer;
pub mod shot;
pub mod player;
pub mod invaders;
pub mod game;
