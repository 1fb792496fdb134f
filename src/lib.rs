//! Combat core of a fixed-arena shooter: collision layers, an entity store,
//! the collision pass, hit reactions, the enemy formation and its shooters.

pub mod arena;
pub mod collider;
pub mod collision;
pub mod entity;
pub mod formation;
pub mod motion;
pub mod player;
pub mod shield;
pub mod shooters;
pub mod shots;
pub mod state;
pub mod tick;
pub mod wall;
pub mod world;
