//! The module-tree scanner and the capability resolver.

pub mod ast;
pub mod context;
pub mod declaration;
pub mod fold;
pub mod implementer;
pub mod lemmas;
pub mod lookup;
pub mod scan;
pub mod sources;

pub use ast::{AstNode, File};
pub use context::Context;
pub use implementer::Implementer;
pub use scan::parse;
