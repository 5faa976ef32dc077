//! The framework's methods.

pub mod sorting;
pub mod system;
pub mod activity;
pub mod graphics;
pub mod math;
pub mod strings;
pub mod lists;
pub mod objects;
pub mod dispatch;
