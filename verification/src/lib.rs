//! Rules of a tile-based puzzle game: objects on a bounded grid that push,
//! paint, open, teleport and trigger one another.

pub mod animation;
pub mod background;
pub mod behaviors;
pub mod collision_object;
pub mod components;
pub mod editor;
pub mod game_object;
pub mod game_state;
pub mod input;
pub mod level;
pub mod levels;
pub mod menu;
pub mod motion;
pub mod movement;
pub mod object_type;
pub mod text;
