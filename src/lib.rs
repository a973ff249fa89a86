//! Turn-based roguelike simulation core: logical time and event ordering,
//! the turn engine, goal-oriented action planning, and the spatial services
//! that feed it.

pub mod euclid;
pub mod events;
pub mod ecs;
pub mod color;
pub mod level;
pub mod factions;
pub mod goap;
pub mod fov;
pub mod world;
pub mod path;
pub mod actions;
pub mod system;
pub mod data;
pub mod ai;
pub mod level_gen;
pub mod grid;
