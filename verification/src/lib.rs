//! A register machine for Dalvik bytecode.

pub mod text;
pub mod float;
pub mod arith;
pub mod table;
pub mod value;
pub mod error;
pub mod spelling;
pub mod convert;
pub mod dex;
pub mod code;
pub mod color;
pub mod host;
pub mod world;
pub mod ops;
pub mod interp;
pub mod framework;
pub mod gdx;
pub mod frames;
pub mod machine;
pub mod run;
pub mod vm;
pub mod search;
pub mod laws;
