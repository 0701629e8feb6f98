//! Game logic of a small rogue-like and the English sentence builder it
//! uses to tell the player what happens.

pub mod langgen;
pub mod positions;
pub mod rect;
pub mod rng;
pub mod map;
pub mod explore;
pub mod glyphs;
pub mod indexing;
pub mod text;
pub mod combat;
pub mod energy;
pub mod monster_ai;
pub mod gui;
pub mod inventory;
pub mod gamelog;
pub mod scenes;
pub mod player;
pub mod spawner;
pub mod run_state;
pub mod camera;
