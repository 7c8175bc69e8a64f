//! The template interpreter: expansion of a token template against a tree of
//! contexts.

pub mod context;
pub mod expand;
pub mod lemmas;

pub use context::{Binding, Context};
