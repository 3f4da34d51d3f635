//! Discrete core of a small 2D platformer: the grid that the level is hashed
//! into, the spatial index over that grid, and the air-jump state of the ball,
//! with the settings and files of the game that are plain values and text.

pub mod app;
pub mod configuration;
pub mod emscripten;
pub mod error;
pub mod graphics;
pub mod grid;
pub mod map;
pub mod spatial_hashing;
pub mod text;
