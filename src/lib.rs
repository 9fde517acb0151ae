//! A small tile-map game core: a grid of walls and floors, two ways to
//! generate one, and the rule that moves an entity across it.

pub mod components;
pub mod map;
pub mod noise_map;
pub mod player;
