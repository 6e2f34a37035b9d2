//! Extraction of qualified constant references from a syntax tree, each
//! with the chain of namespaces that encloses it.

pub mod batch;
pub mod error;
pub mod laws;
pub mod names;
pub mod nesting;
pub mod reference;
pub mod syntax;
pub mod visitor;

pub use crate::batch::get_references;
pub use crate::error::ExtractionError;
pub use crate::reference::Reference;
pub use crate::syntax::SyntaxNode;
