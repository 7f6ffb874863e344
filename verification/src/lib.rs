//! Rendering and visibility core of a terminal roguelike: colors, a diffing
//! cell-buffer renderer, a recursive shadowcaster, and the small pieces of
//! world bookkeeping that feed them.

pub mod ai;
pub mod ansi;
pub mod camera;
pub mod color;
pub mod commands;
pub mod frontend;
pub mod generate;
pub mod grid;
pub mod ray_cast;
pub mod shadow;
pub mod ui;
pub mod world;
