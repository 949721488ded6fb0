//! A small real-time presentation engine: a fixed-timestep game loop drives a
//! Model (simulation) and a Render (presentation) over a shared Context, and a
//! cell-grid double buffer whose change-detection turns each frame into a
//! minimal stream of terminal commands.

pub mod adapter;
pub mod asset;
pub mod buffer;
pub mod context;
pub mod event;
pub mod game;
pub mod pacman_game;
pub mod pacman_model;
pub mod pacman_render;
pub mod panel;
pub mod sprite;
pub mod style;
pub mod util;

use vstd::prelude::*;

verus! {

/// Ticks per second of the fixed-timestep loop.
pub const GAME_FRAME: u32 = 60;

/// Number of initial frames reserved for the splash animation; game-logic
/// dispatch is suppressed while the frame counter is at or below this bound.
pub const LOGO_FRAME: u32 = 30;

} // verus!
