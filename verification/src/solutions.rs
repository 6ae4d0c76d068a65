//! Verified reference solutions for the course's exercises.

pub mod arith;
pub mod expr;
pub mod list;
pub mod sorting;
pub mod storage;
