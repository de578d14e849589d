//! Generic utilities shared by the compiler stages.

pub mod text;
