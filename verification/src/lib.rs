//! Discovery of the types that implement a capability, and generation of code
//! for them from a template.
//!
//! The library has two halves. The [`scanner`] folds the declarations of the
//! source files of a package into a module tree and finds in it every type
//! that implements or derives a named trait, with the path of its module.
//! The [`template`] interpreter expands a token template against contexts
//! built from what was found: variables, synthesized identifiers, and
//! repetitions over the implementers. [`generate`] joins the two.
//!
//! Nothing here reads a file. A scan is told what the files of the package
//! hold and says which file it needs to know next; the resolution of the
//! entry file in [`cargo`] is told which candidates exist. Source text
//! reaches the scanner as declarations and token streams reach the
//! interpreter as [`token::Token`]s, so that every rule of the library is
//! stated over plain values and proved of them.

pub mod cargo;
pub mod errors;
pub mod generate;
pub mod paths;
pub mod scanner;
pub mod template;
pub mod text;
pub mod token;

pub use errors::Error;
pub use generate::generate;
pub use scanner::{parse, Implementer};
