//! The Kaki programming language front end.
//!
//! The heart of this crate is the lexical analyzer: a cursor over a source
//! text that advances grapheme cluster by grapheme cluster and emits one
//! classified lexeme, or one error descriptor, per step. Every token carries
//! the exact text slice it covers together with a half-open span measured in
//! grapheme offsets, and the engine is verified to reconstruct the source
//! exactly when the emitted texts are concatenated in order.

use vstd::prelude::*;

pub mod compiler;
pub mod edition;
pub mod util;

verus! {

/// The crate version.
pub const VERSION: &'static str = "0.1.0";

} // verus!
