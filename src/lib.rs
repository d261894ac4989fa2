//! Load-time remover for a speedrun timer: finds the game's world pointer by
//! signature scanning, samples the loading flag each tick and decides whether
//! game time should be paused or resumed.

pub mod memory;
pub mod monitor;
pub mod resolver;
pub mod signature;
pub mod watcher;
