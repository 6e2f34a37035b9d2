//! Why the extraction of one file failed.

use vstd::prelude::*;

verus! {

/// The ways in which one file can fail to yield its references.
#[derive(Clone, Copy, Debug, PartialEq, Eq, Structural)]
pub enum ExtractionError {
    /// The file could not be read or decoded.
    UnreadableSource,
    /// The parser produced no tree for the file.
    UnparsableSource,
    /// A class or module in the tree lacks its name or its body.
    MalformedNamespaceConstruct,
}

} // verus!
