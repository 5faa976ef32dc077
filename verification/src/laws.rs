//! What holds of the machine as a whole.

pub mod memory;
pub mod growth;
pub mod machine;
pub mod running;
pub mod modes;
pub mod calls;
pub mod bounds;
pub mod tables;
pub mod requests;
pub mod framework;
pub mod devices;
pub mod numbers;
pub mod rounding;
pub mod conversions;
pub mod steps;
pub mod computing;
pub mod branching;
pub mod moving;
pub mod invoking;
pub mod drawing;
pub mod texts;
pub mod collections;
pub mod sprites;
pub mod mathematics;
pub mod searching;
pub mod activities;
pub mod routing;
pub mod starting;
pub mod media;
pub mod regions;
pub mod entering;
pub mod asking;
pub mod classes;
pub mod messages;
