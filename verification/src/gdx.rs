//! The game library's methods.

pub mod application;
pub mod gl;
pub mod maths;
pub mod sprites;
pub mod dispatch;
