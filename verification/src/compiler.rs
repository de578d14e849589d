//! Inner workings of the compiler front end.
//!
//! A special feature of the compiler is that all scanning is grapheme based,
//! which means that unless otherwise noted, all indexing is done at the
//! grapheme cluster level.

pub mod ast;
pub mod edition1;
pub mod grammar;
pub mod lexer;
pub mod span;
pub mod token;
