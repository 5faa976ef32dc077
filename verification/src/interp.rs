//! The instructions, one by one.

pub mod moves;
pub mod arithmetic;
pub mod branches;
pub mod arrays;
pub mod objects;
pub mod execute;
pub mod calls;
