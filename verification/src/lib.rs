pub mod components;
pub mod map;
pub mod monster_ai_system;
pub mod player;
pub mod reach;
pub mod rect;
pub mod rng;
pub mod state;
pub mod visibility_system;
pub mod world;
