pub mod args;
pub mod ball;
pub mod client;
pub mod decode;
pub mod draw;
pub mod field;
pub mod game;
pub mod grid;
pub mod hitbox;
pub mod image_helpers;
pub mod picture;
pub mod protocol;
pub mod scan;
pub mod score;
